use hangman::game::{GuessResponse, Hangman, NewGameError, LAST_STAGE, STAGE_COUNT};
use hangman::pictures::stage_picture;
use hangman::words::{candidate_list, choose_word};

fn start(word: &str) -> Hangman {
    match Hangman::new(word) {
        Ok(h) => h,
        Err(e) => panic!("could not start a game: {:?}", e),
    }
}

#[test]
fn fresh_game_hides_every_letter() {
    let h = start("cat");
    assert_eq!(h.partially_revealed(), "___");
    assert_eq!(h.word(), "cat");
    assert_eq!(h.stage_index(), 0);
    assert_eq!(h.picture(), Some(stage_picture(0)));
}

#[test]
fn empty_word_is_refused() {
    assert_eq!(Hangman::new("").err(), Some(NewGameError::EmptyWord));
}

#[test]
fn correct_guesses_win_cat() {
    let mut h = start("cat");
    assert_eq!(h.guess('c'), GuessResponse::Correct);
    assert_eq!(h.partially_revealed(), "c__");
    assert_eq!(h.guess('a'), GuessResponse::Correct);
    assert_eq!(h.partially_revealed(), "ca_");
    assert_eq!(h.guess('t'), GuessResponse::Win);
    assert_eq!(h.partially_revealed(), "cat");
    assert_eq!(h.stage_index(), 0);
}

#[test]
fn six_wrong_guesses_lose_cat() {
    let mut h = start("cat");
    let wrong = ['z', 'x', 'q', 'w', 'r', 'f'];
    for (n, c) in wrong.iter().enumerate() {
        let r = h.guess(*c);
        assert_eq!(h.stage_index(), n + 1);
        if n + 1 < wrong.len() {
            assert_eq!(r, GuessResponse::Incorrect);
        } else {
            assert_eq!(r, GuessResponse::Lose);
        }
    }
    assert_eq!(h.stage_index(), 6);
    assert_eq!(LAST_STAGE, 6);
    assert_eq!(STAGE_COUNT, 7);
    assert_eq!(h.partially_revealed(), "___");
    assert_eq!(h.picture(), Some(stage_picture(6)));
}

#[test]
fn repeated_correct_guess_is_already_guessed() {
    let mut h = start("cat");
    assert_eq!(h.guess('c'), GuessResponse::Correct);
    assert_eq!(h.guess('c'), GuessResponse::AlreadyGuessed);
    assert_eq!(h.partially_revealed(), "c__");
    assert_eq!(h.stage_index(), 0);
}

#[test]
fn repeated_wrong_guess_counts_once() {
    let mut h = start("cat");
    assert_eq!(h.guess('z'), GuessResponse::Incorrect);
    assert_eq!(h.stage_index(), 1);
    assert_eq!(h.guess('z'), GuessResponse::AlreadyGuessed);
    assert_eq!(h.guess('z'), GuessResponse::AlreadyGuessed);
    assert_eq!(h.stage_index(), 1);
    assert_eq!(h.partially_revealed(), "___");
}

#[test]
fn repeated_letters_are_all_uncovered() {
    let mut h = start("bagpipes");
    assert_eq!(h.guess('p'), GuessResponse::Correct);
    assert_eq!(h.partially_revealed(), "___p_p__");
    assert_eq!(h.guess('b'), GuessResponse::Correct);
    assert_eq!(h.partially_revealed(), "b__p_p__");
}

#[test]
fn letters_are_case_sensitive() {
    let mut h = start("cat");
    assert_eq!(h.guess('C'), GuessResponse::Incorrect);
    assert_eq!(h.partially_revealed(), "___");
    assert_eq!(h.stage_index(), 1);
}

#[test]
fn pattern_keeps_word_length_with_wide_characters() {
    let mut h = start("héé");
    assert_eq!(h.partially_revealed().chars().count(), 3);
    assert_eq!(h.guess('é'), GuessResponse::Correct);
    assert_eq!(h.partially_revealed(), "_éé");
    assert_eq!(h.guess('h'), GuessResponse::Win);
    assert_eq!(h.partially_revealed(), "héé");
}

#[test]
fn won_game_stays_won() {
    let mut h = start("aa");
    assert_eq!(h.guess('a'), GuessResponse::Win);
    assert_eq!(h.guess('z'), GuessResponse::Win);
    assert_eq!(h.guess('a'), GuessResponse::Win);
    assert_eq!(h.partially_revealed(), "aa");
    assert_eq!(h.stage_index(), 0);
}

#[test]
fn lost_game_stays_lost() {
    let mut h = start("cat");
    for c in ['z', 'x', 'q', 'w', 'r', 'f'] {
        h.guess(c);
    }
    assert_eq!(h.guess('c'), GuessResponse::Lose);
    assert_eq!(h.guess('y'), GuessResponse::Lose);
    assert_eq!(h.partially_revealed(), "___");
    assert_eq!(h.stage_index(), 6);
}

#[test]
fn mixed_guesses_reach_win() {
    let mut h = start("banjo");
    assert_eq!(h.guess('x'), GuessResponse::Incorrect);
    assert_eq!(h.guess('o'), GuessResponse::Correct);
    assert_eq!(h.guess('j'), GuessResponse::Correct);
    assert_eq!(h.guess('y'), GuessResponse::Incorrect);
    assert_eq!(h.guess('n'), GuessResponse::Correct);
    assert_eq!(h.guess('a'), GuessResponse::Correct);
    assert_eq!(h.partially_revealed(), "_anjo");
    assert_eq!(h.guess('b'), GuessResponse::Win);
    assert_eq!(h.stage_index(), 2);
    assert_eq!(h.picture(), Some(stage_picture(2)));
}

#[test]
fn pictures_grow_stage_by_stage() {
    assert_eq!(stage_picture(0), "\n|-----|\n|\n|\n|\n|_______\n    ");
    assert_eq!(stage_picture(6), "\n|-----|\n|     o\n|    /|\\\n|    / \\\n|_______\n    ");
    for i in 1..STAGE_COUNT {
        assert_ne!(stage_picture(i - 1), stage_picture(i));
    }
}

#[test]
fn candidates_are_the_nine_words() {
    let words = candidate_list();
    assert_eq!(
        words,
        vec!["snakes", "thanks", "granted", "awkward", "bagpipes", "banjo", "bungler", "croquet", "crypt"]
    );
}

#[test]
fn chosen_word_is_a_candidate() {
    let words = candidate_list();
    for _ in 0..20 {
        let w = choose_word();
        assert!(!w.is_empty());
        assert!(words.contains(&w));
        assert!(Hangman::new(&w).is_ok());
    }
}
