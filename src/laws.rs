use crate::game::{
    initial, is_over, is_won, letters_of, mask, step, valid, wrong_guesses, GameView,
    GuessResponse, LAST_STAGE,
};
use vstd::prelude::*;

verus! {

/// The state after playing the letters of `cs` one after the other from `s`.
pub open spec fn play(s: GameView, cs: Seq<char>) -> GameView
    decreases cs.len(),
{
    if cs.len() == 0 {
        s
    } else {
        step(play(s, cs.drop_last()), cs.last()).0
    }
}

/// The response to the last letter of `cs`, played after the others from `s`.
pub open spec fn last_response(s: GameView, cs: Seq<char>) -> GuessResponse
    recommends
        cs.len() > 0,
{
    step(play(s, cs.drop_last()), cs.last()).1
}

/// A fresh game on a non-empty word is in a valid state.
pub proof fn lemma_initial_valid(w: Seq<char>)
    requires
        w.len() > 0,
    ensures
        valid(initial(w)),
{
    let s = initial(w);
    assert(s.revealed =~= mask(w, Set::empty()));
    assert(wrong_guesses(s) =~= Set::empty());
}

/// Every guess leads from a valid state to a valid state on the same word, so
/// the pattern always has as many characters as the secret word.
pub proof fn lemma_step_preserves_valid(s: GameView, c: char)
    requires
        valid(s),
    ensures
        valid(step(s, c).0),
        step(s, c).0.word == s.word,
        step(s, c).0.revealed.len() == s.word.len(),
{
    let t = step(s, c).0;
    if !is_over(s) && !s.guessed.contains(c) {
        if s.word.contains(c) {
            assert(letters_of(s.word).contains(c));
            assert(t.revealed =~= mask(s.word, s.guessed.insert(c)));
            assert(wrong_guesses(t) =~= wrong_guesses(s));
        } else {
            assert(t.revealed =~= mask(s.word, s.guessed.insert(c)));
            assert(wrong_guesses(t) =~= wrong_guesses(s).insert(c));
        }
    }
}

/// Repeating a letter that was already played, in a game that is not over,
/// is answered `AlreadyGuessed` and changes neither the stage nor the pattern.
pub proof fn lemma_repeated_guess_changes_nothing(s: GameView, c: char)
    requires
        valid(s),
        !is_over(s),
        s.guessed.contains(c),
    ensures
        step(s, c).1 == GuessResponse::AlreadyGuessed,
        step(s, c).0 == s,
{
}

/// A guess in a game that is not over records the letter, so playing it again
/// straight away is answered `AlreadyGuessed` unless that first guess ended the game.
pub proof fn lemma_second_guess_is_repeat(s: GameView, c: char)
    requires
        valid(s),
        !is_over(s),
    ensures
        step(s, c).0.guessed.contains(c),
        !is_over(step(s, c).0) ==> step(step(s, c).0, c) == (
            step(s, c).0,
            GuessResponse::AlreadyGuessed,
        ),
{
}

/// The stage never decreases, and grows by exactly one on a new letter that is
/// not in the word in a game that is not over; it stays put on any other guess.
pub proof fn lemma_stage_counts_wrong_guesses(s: GameView, c: char)
    requires
        valid(s),
    ensures
        step(s, c).0.stage >= s.stage,
        step(s, c).0.stage == s.stage + if !is_over(s) && !s.guessed.contains(c)
            && !s.word.contains(c) {
            1int
        } else {
            0int
        },
{
}

/// Once a guess is answered `Win` or `Lose` the game is over, and no later
/// sequence of guesses changes its state.
pub proof fn lemma_finished_game_is_fixed(s: GameView, c: char, later: Seq<char>)
    requires
        valid(s),
        step(s, c).1 == GuessResponse::Win || step(s, c).1 == GuessResponse::Lose,
    ensures
        is_over(step(s, c).0),
        play(step(s, c).0, later) == step(s, c).0,
{
    lemma_play_over_is_fixed(step(s, c).0, later);
}

proof fn lemma_play_over_is_fixed(t: GameView, later: Seq<char>)
    requires
        is_over(t),
    ensures
        play(t, later) == t,
    decreases later.len(),
{
    if later.len() > 0 {
        lemma_play_over_is_fixed(t, later.drop_last());
    }
}

/// Playing only letters of the word, each once, never moves the stage, and
/// either wins or records exactly the letters played.
proof fn lemma_play_correct_letters(w: Seq<char>, cs: Seq<char>)
    requires
        w.len() > 0,
        cs.no_duplicates(),
        forall|i: int| 0 <= i < cs.len() ==> w.contains(#[trigger] cs[i]),
    ensures
        valid(play(initial(w), cs)),
        play(initial(w), cs).word == w,
        play(initial(w), cs).stage == 0,
        is_won(play(initial(w), cs)) || play(initial(w), cs).guessed == cs.to_set(),
    decreases cs.len(),
{
    if cs.len() == 0 {
        lemma_initial_valid(w);
        assert(cs.to_set() =~= Set::empty());
    } else {
        let rest = cs.drop_last();
        let c = cs.last();
        assert(rest.no_duplicates()) by {
            assert forall|i: int, j: int| 0 <= i < j < rest.len() implies rest[i] != rest[j] by {
                assert(rest[i] == cs[i] && rest[j] == cs[j]);
            }
        }
        assert forall|i: int| 0 <= i < rest.len() implies w.contains(#[trigger] rest[i]) by {
            assert(rest[i] == cs[i]);
        }
        lemma_play_correct_letters(w, rest);
        let p = play(initial(w), rest);
        lemma_step_preserves_valid(p, c);
        assert(w.contains(cs[cs.len() - 1]));
        if !is_won(p) {
            assert(!rest.contains(c)) by {
                if rest.contains(c) {
                    let i = choose|i: int| 0 <= i < rest.len() && rest[i] == c;
                    assert(cs[i] == cs[cs.len() - 1]);
                }
            }
            assert(cs.to_set() =~= rest.to_set().insert(c)) by {
                assert(cs =~= rest.push(c));
                rest.lemma_push_to_set_commute(c);
            }
        }
    }
}

/// Playing distinct letters of a word that together cover all of its letters
/// wins the game: the last of them is answered `Win`, and the pattern is the word.
pub proof fn lemma_covering_guesses_win(w: Seq<char>, cs: Seq<char>)
    requires
        w.len() > 0,
        cs.no_duplicates(),
        forall|i: int| 0 <= i < cs.len() ==> w.contains(#[trigger] cs[i]),
        forall|j: int| 0 <= j < w.len() ==> cs.contains(#[trigger] w[j]),
    ensures
        cs.len() > 0,
        play(initial(w), cs).revealed == w,
        last_response(initial(w), cs) == GuessResponse::Win,
{
    assert(cs.contains(w[0]));
    lemma_play_correct_letters(w, cs);
    let t = play(initial(w), cs);
    if !is_won(t) {
        assert forall|j: int| 0 <= j < w.len() implies t.guessed.contains(#[trigger] w[j]) by {
            assert(cs.contains(w[j]));
        }
        assert(t.revealed =~= w);
    }
    let rest = cs.drop_last();
    assert forall|i: int| 0 <= i < rest.len() implies w.contains(#[trigger] rest[i]) by {
        assert(rest[i] == cs[i]);
    }
    assert(rest.no_duplicates()) by {
        assert forall|i: int, j: int| 0 <= i < j < rest.len() implies rest[i] != rest[j] by {
            assert(rest[i] == cs[i] && rest[j] == cs[j]);
        }
    }
    lemma_play_correct_letters(w, rest);
}

/// On a word that is not already fully shown, `LAST_STAGE` distinct letters
/// that are not in the word raise the stage by one each, and the last of
/// them is answered `Lose`.
pub proof fn lemma_wrong_guesses_lose(w: Seq<char>, cs: Seq<char>)
    requires
        w.len() > 0,
        !is_won(initial(w)),
        cs.len() == LAST_STAGE,
        cs.no_duplicates(),
        forall|i: int| 0 <= i < cs.len() ==> !w.contains(#[trigger] cs[i]),
    ensures
        forall|k: int| 0 <= k <= cs.len() ==> #[trigger] play(initial(w), cs.take(k)).stage == k,
        last_response(initial(w), cs) == GuessResponse::Lose,
{
    assert forall|k: int| 0 <= k <= cs.len() implies #[trigger] play(initial(w), cs.take(k)).stage
        == k && valid(play(initial(w), cs.take(k))) && play(initial(w), cs.take(k)).word == w
        && play(initial(w), cs.take(k)).revealed == initial(w).revealed
        && play(initial(w), cs.take(k)).guessed == cs.take(k).to_set() by {
        lemma_play_wrong_letters(w, cs, k);
    }
    assert(cs.take(LAST_STAGE as int) =~= cs);
    assert(cs.take(LAST_STAGE as int - 1) =~= cs.drop_last());
}

proof fn lemma_play_wrong_letters(w: Seq<char>, cs: Seq<char>, k: int)
    requires
        w.len() > 0,
        !is_won(initial(w)),
        cs.len() == LAST_STAGE,
        cs.no_duplicates(),
        forall|i: int| 0 <= i < cs.len() ==> !w.contains(#[trigger] cs[i]),
        0 <= k <= cs.len(),
    ensures
        valid(play(initial(w), cs.take(k))),
        play(initial(w), cs.take(k)).stage == k,
        play(initial(w), cs.take(k)).word == w,
        play(initial(w), cs.take(k)).revealed == initial(w).revealed,
        play(initial(w), cs.take(k)).guessed == cs.take(k).to_set(),
    decreases k,
{
    if k == 0 {
        lemma_initial_valid(w);
        assert(cs.take(0).to_set() =~= Set::empty());
    } else {
        lemma_play_wrong_letters(w, cs, k - 1);
        let pre = cs.take(k - 1);
        let c = cs[k - 1];
        assert(cs.take(k).drop_last() =~= pre);
        assert(cs.take(k) =~= pre.push(c));
        let p = play(initial(w), pre);
        lemma_step_preserves_valid(p, c);
        assert(!pre.contains(c)) by {
            if pre.contains(c) {
                let i = choose|i: int| 0 <= i < pre.len() && pre[i] == c;
                assert(cs[i] == cs[k - 1]);
            }
        }
        pre.lemma_push_to_set_commute(c);
    }
}

} // verus!
