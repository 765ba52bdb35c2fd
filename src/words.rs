use rand::seq::SliceRandom;
use vstd::prelude::*;

verus! {

/// The words a game may be played on.
pub open spec fn candidate_words() -> Seq<Seq<char>> {
    seq![
        "snakes"@,
        "thanks"@,
        "granted"@,
        "awkward"@,
        "bagpipes"@,
        "banjo"@,
        "bungler"@,
        "croquet"@,
        "crypt"@,
    ]
}

/// Relies on rand's `SliceRandom::choose`, drawing from `rand::thread_rng`:
/// `None` for an empty slice, otherwise one of the slice's elements.
#[verifier::external_body]
fn choose_one(words: &[String]) -> (r: Option<String>)
    ensures
        words@.len() == 0 <==> r is None,
        r matches Some(w) ==> exists|i: int| 0 <= i < words@.len() && words@[i]@ == w@,
{
    words.choose(&mut rand::thread_rng()).cloned()
}

/// The candidate words, in order.
pub fn candidate_list() -> (r: Vec<String>)
    ensures
        r@.len() == candidate_words().len(),
        forall|i: int| 0 <= i < r@.len() ==> #[trigger] r@[i]@ == candidate_words()[i],
{
    let mut r: Vec<String> = Vec::new();
    r.push("snakes".to_owned());
    r.push("thanks".to_owned());
    r.push("granted".to_owned());
    r.push("awkward".to_owned());
    r.push("bagpipes".to_owned());
    r.push("banjo".to_owned());
    r.push("bungler".to_owned());
    r.push("croquet".to_owned());
    r.push("crypt".to_owned());
    r
}

/// A word drawn at random from the candidates; it is never empty.
pub fn choose_word() -> (r: String)
    ensures
        candidate_words().contains(r@),
        r@.len() > 0,
{
    let words = candidate_list();
    let picked = choose_one(words.as_slice());
    proof {
        reveal_strlit("snakes");
        reveal_strlit("thanks");
        reveal_strlit("granted");
        reveal_strlit("awkward");
        reveal_strlit("bagpipes");
        reveal_strlit("banjo");
        reveal_strlit("bungler");
        reveal_strlit("croquet");
        reveal_strlit("crypt");
    }
    match picked {
        Some(w) => {
            proof {
                let i = choose|i: int| 0 <= i < words@.len() && words@[i]@ == w@;
                assert(candidate_words()[i] == w@);
            }
            w
        },
        None => unreached(),
    }
}

} // verus!
