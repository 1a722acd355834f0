//! Random names for servers.

use crate::text::{lines, split_lines};
use rand::seq::SliceRandom;
use vstd::prelude::*;
use vstd::string::StringExecFns;

verus! {

/// `rand::seq::SliceRandom::choose` with `rand::thread_rng`: one of the words, or none if there are
/// none. Which one is left to chance.
#[verifier::external_body]
fn choose_word(words: &Vec<String>) -> (r: Option<&String>)
    ensures
        match r {
            Some(word) => exists|i: int| 0 <= i < words@.len() && *word == #[trigger] words@[i],
            None => words@.len() == 0,
        },
{
    words.as_slice().choose(&mut rand::thread_rng())
}

/// The words of a word list, one to a line.
pub fn word_list(text: &str) -> (r: Vec<String>)
    ensures
        r@.map_values(|s: String| s@) == lines(text@),
{
    split_lines(text)
}

/// One of the words.
pub fn random_word(words: &Vec<String>) -> (r: String)
    requires
        words@.len() > 0,
    ensures
        exists|i: int| 0 <= i < words@.len() && r@ == (#[trigger] words@[i])@,
{
    match choose_word(words) {
        Some(word) => String::from_str(word.as_str()),
        None => String::new(),
    }
}

} // verus!
