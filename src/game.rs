use crate::pictures::{picture_text, stage_picture};
use std::collections::HashSet;
use vstd::prelude::*;

verus! {

/// Number of stages in the drawing; the last one is the fully drawn gallows.
pub const STAGE_COUNT: usize = 7;

/// Index of the last stage: reaching it loses the game.
pub const LAST_STAGE: usize = STAGE_COUNT - 1;

/// Shown in place of a letter that has not been guessed yet.
pub const PLACEHOLDER: char = '_';

/// What a single guess led to.
#[derive(Clone, Copy, Debug, PartialEq, Eq, Structural)]
pub enum GuessResponse {
    AlreadyGuessed,
    Incorrect,
    Correct,
    Win,
    Lose,
}

/// Why a game could not be started.
#[derive(Clone, Copy, Debug, PartialEq, Eq, Structural)]
pub enum NewGameError {
    EmptyWord,
}

/// The abstract state of a game.
pub ghost struct GameView {
    pub word: Seq<char>,
    pub guessed: Set<char>,
    pub revealed: Seq<char>,
    pub stage: nat,
}

/// The distinct letters of a word.
pub open spec fn letters_of(word: Seq<char>) -> Set<char> {
    Set::new(|c: char| word.contains(c))
}

/// The word with every letter that is not in `guessed` hidden.
pub open spec fn mask(word: Seq<char>, guessed: Set<char>) -> Seq<char> {
    Seq::new(word.len(), |i: int| if guessed.contains(word[i]) { word[i] } else { PLACEHOLDER })
}

/// The guessed letters that are not in the word.
pub open spec fn wrong_guesses(s: GameView) -> Set<char> {
    s.guessed.difference(letters_of(s.word))
}

/// A state that a game can be in: the pattern shows exactly the guessed letters,
/// and the stage counts the wrong guesses.
pub open spec fn valid(s: GameView) -> bool {
    &&& s.word.len() > 0
    &&& s.guessed.finite()
    &&& s.revealed == mask(s.word, s.guessed)
    &&& s.stage == wrong_guesses(s).len()
    &&& s.stage <= LAST_STAGE
}

/// The state of a fresh game on `word`.
pub open spec fn initial(word: Seq<char>) -> GameView {
    GameView {
        word,
        guessed: Set::empty(),
        revealed: Seq::new(word.len(), |i: int| PLACEHOLDER),
        stage: 0,
    }
}

pub open spec fn is_won(s: GameView) -> bool {
    s.revealed == s.word
}

pub open spec fn is_lost(s: GameView) -> bool {
    s.stage >= LAST_STAGE
}

/// A finished game: no guess changes it any more.
pub open spec fn is_over(s: GameView) -> bool {
    is_won(s) || is_lost(s)
}

/// `revealed` with every position where `word` holds `c` showing `c`.
pub open spec fn uncover(word: Seq<char>, revealed: Seq<char>, c: char) -> Seq<char> {
    Seq::new(revealed.len(), |i: int| if word[i] == c { c } else { revealed[i] })
}

/// The state after guessing `c` in `s`, and the response to that guess.
pub open spec fn step(s: GameView, c: char) -> (GameView, GuessResponse) {
    if is_lost(s) {
        (s, GuessResponse::Lose)
    } else if is_won(s) {
        (s, GuessResponse::Win)
    } else if s.guessed.contains(c) {
        (s, GuessResponse::AlreadyGuessed)
    } else if s.word.contains(c) {
        let t = GameView {
            word: s.word,
            guessed: s.guessed.insert(c),
            revealed: uncover(s.word, s.revealed, c),
            stage: s.stage,
        };
        (t, if is_won(t) { GuessResponse::Win } else { GuessResponse::Correct })
    } else {
        let t = GameView {
            word: s.word,
            guessed: s.guessed.insert(c),
            revealed: s.revealed,
            stage: s.stage + 1,
        };
        (t, if is_lost(t) { GuessResponse::Lose } else { GuessResponse::Incorrect })
    }
}

/// A game of hangman on one secret word.
pub struct Hangman {
    word: String,
    chars: Vec<char>,
    letters: HashSet<u32>,
    guessed: HashSet<u32>,
    guessed_chars: Ghost<Set<char>>,
    revealed: Vec<char>,
    stage: usize,
}

impl View for Hangman {
    type V = GameView;

    closed spec fn view(&self) -> GameView {
        GameView {
            word: self.word@,
            guessed: self.guessed_chars@,
            revealed: self.revealed@,
            stage: self.stage as nat,
        }
    }
}

/// Relies on String::push: appends one character at the end.
#[verifier::external_body]
fn push_char(s: &mut String, c: char)
    ensures
        final(s)@ == old(s)@.push(c),
{
    s.push(c)
}

proof fn lemma_char_code_injective(c: char, d: char)
    ensures
        (c as u32 == d as u32) <==> c == d,
{
}

impl Hangman {
    /// The letter sets hold the code points of exactly the word's letters and
    /// of exactly the guessed letters.
    pub closed spec fn wf(&self) -> bool {
        &&& self.chars@ == self.word@
        &&& forall|c: char| #[trigger] self.letters@.contains(c as u32) <==> self.word@.contains(c)
        &&& forall|c: char| #[trigger] self.guessed@.contains(c as u32) <==> self.guessed_chars@.contains(c)
        &&& valid(self@)
    }

    /// Starts a game on `word`; an empty word is refused.
    pub fn new(word: &str) -> (r: Result<Hangman, NewGameError>)
        ensures
            word@.len() == 0 <==> r is Err,
            r is Err ==> r == Err::<Hangman, NewGameError>(NewGameError::EmptyWord),
            r matches Ok(h) ==> h.wf() && h@ == initial(word@),
    {
        let mut chars: Vec<char> = Vec::new();
        for ch in it: word.chars()
            invariant
                chars@ == it.seq().take(it.index() as int),
        {
            chars.push(ch);
        }
        assert(chars@ == word@);
        if chars.len() == 0 {
            return Err(NewGameError::EmptyWord);
        }
        let mut letters: HashSet<u32> = HashSet::new();
        let mut revealed: Vec<char> = Vec::new();
        for i in 0..chars.len()
            invariant
                chars@ == word@,
                revealed@ == Seq::new(i as nat, |j: int| PLACEHOLDER),
                forall|c: char| #[trigger] letters@.contains(c as u32)
                    <==> exists|j: int| 0 <= j < i && chars@[j] == c,
        {
            proof {
                assert forall|c: char| #[trigger] letters@.insert(chars@[i as int] as u32).contains(c as u32)
                    <==> exists|j: int| 0 <= j < i + 1 && chars@[j] == c by {
                    lemma_char_code_injective(c, chars@[i as int]);
                    if c == chars@[i as int] {
                        assert(chars@[i as int] == c);
                    }
                }
            }
            letters.insert(chars[i] as u32);
            revealed.push(PLACEHOLDER);
        }
        let h = Hangman {
            word: word.to_owned(),
            chars,
            letters,
            guessed: HashSet::with_capacity(STAGE_COUNT),
            guessed_chars: Ghost(Set::empty()),
            revealed,
            stage: 0,
        };
        proof {
            assert(h.revealed@ =~= mask(word@, Set::empty()));
            assert(wrong_guesses(h@) =~= Set::empty());
            assert forall|c: char| #[trigger] h.letters@.contains(c as u32) <==> h.word@.contains(c) by {
                if h.word@.contains(c) {
                    let j = choose|j: int| 0 <= j < word@.len() && word@[j] == c;
                    assert(h.chars@[j] == c);
                }
            }
        }
        Ok(h)
    }

    /// Whether every position of the pattern shows the word's character.
    fn is_solved(&self) -> (r: bool)
        requires
            self.wf(),
        ensures
            r == is_won(self@),
    {
        let n = self.chars.len();
        for i in 0..n
            invariant
                self.wf(),
                n == self.chars@.len(),
                forall|j: int| 0 <= j < i ==> self.revealed@[j] == self.chars@[j],
        {
            if self.revealed[i] != self.chars[i] {
                return false;
            }
        }
        assert(self.revealed@ =~= self.word@);
        true
    }

    /// Shows `c` at every position of the word that holds it.
    fn update_revealed(&mut self, c: char)
        requires
            old(self).revealed@.len() == old(self).chars@.len(),
        ensures
            final(self).revealed@ == uncover(old(self).chars@, old(self).revealed@, c),
            final(self).word == old(self).word,
            final(self).chars == old(self).chars,
            final(self).letters == old(self).letters,
            final(self).guessed == old(self).guessed,
            final(self).guessed_chars == old(self).guessed_chars,
            final(self).stage == old(self).stage,
    {
        let n = self.chars.len();
        for i in 0..n
            invariant
                n == self.chars@.len(),
                n == old(self).revealed@.len(),
                self.revealed@.len() == n,
                self.word == old(self).word,
                self.chars == old(self).chars,
                self.letters == old(self).letters,
                self.guessed == old(self).guessed,
                self.guessed_chars == old(self).guessed_chars,
                self.stage == old(self).stage,
                forall|j: int| 0 <= j < n ==> #[trigger] self.revealed@[j] == if j < i {
                    uncover(old(self).chars@, old(self).revealed@, c)[j]
                } else {
                    old(self).revealed@[j]
                },
        {
            if self.chars[i] == c {
                self.revealed.set(i, c);
            }
        }
        assert(self.revealed@ =~= uncover(old(self).chars@, old(self).revealed@, c));
    }

    /// Plays the letter `c`: a letter of the word is uncovered, any other
    /// letter advances the drawing by one stage; a letter already played, or
    /// a finished game, changes nothing.
    pub fn guess(&mut self, c: char) -> (r: GuessResponse)
        requires
            old(self).wf(),
        ensures
            final(self).wf(),
            (final(self)@, r) == step(old(self)@, c),
    {
        if self.stage >= LAST_STAGE {
            return GuessResponse::Lose;
        }
        if self.is_solved() {
            return GuessResponse::Win;
        }
        let key = c as u32;
        if self.guessed.contains(&key) {
            return GuessResponse::AlreadyGuessed;
        }
        let ghost s0 = self@;
        self.guessed.insert(key);
        self.guessed_chars = Ghost(self.guessed_chars@.insert(c));
        proof {
            assert forall|d: char| #[trigger] self.guessed@.contains(d as u32)
                <==> self.guessed_chars@.contains(d) by {
                lemma_char_code_injective(c, d);
            }
        }
        if self.letters.contains(&key) {
            self.update_revealed(c);
            proof {
                assert(self.revealed@ =~= mask(s0.word, s0.guessed.insert(c)));
                assert(wrong_guesses(self@) =~= wrong_guesses(s0));
            }
            if self.is_solved() {
                GuessResponse::Win
            } else {
                GuessResponse::Correct
            }
        } else {
            self.stage = self.stage + 1;
            proof {
                assert(wrong_guesses(self@) =~= wrong_guesses(s0).insert(c));
                assert(self.revealed@ =~= mask(s0.word, s0.guessed.insert(c)));
            }
            if self.stage >= LAST_STAGE {
                GuessResponse::Lose
            } else {
                GuessResponse::Incorrect
            }
        }
    }

    /// The drawing for the current stage; there always is one.
    pub fn picture(&self) -> (r: Option<&'static str>)
        requires
            self.wf(),
        ensures
            r matches Some(p) && p@ == picture_text(self@.stage as int),
    {
        Some(stage_picture(self.stage))
    }

    /// The word with the letters not yet guessed shown as the placeholder.
    pub fn partially_revealed(&self) -> (r: String)
        requires
            self.wf(),
        ensures
            r@ == self@.revealed,
    {
        let mut out = String::new();
        for i in 0..self.revealed.len()
            invariant
                out@ == self.revealed@.take(i as int),
        {
            push_char(&mut out, self.revealed[i]);
            assert(self.revealed@.take(i + 1) =~= self.revealed@.take(i as int).push(self.revealed@[i as int]));
        }
        assert(self.revealed@.take(self.revealed@.len() as int) =~= self.revealed@);
        out
    }

    /// The secret word.
    pub fn word(&self) -> (r: &str)
        ensures
            r@ == self@.word,
    {
        self.word.as_str()
    }

    /// How many wrong letters have been played, which is the stage of the drawing.
    pub fn stage_index(&self) -> (r: usize)
        ensures
            r == self@.stage,
    {
        self.stage
    }
}

} // verus!
