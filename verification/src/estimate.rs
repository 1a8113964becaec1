//! A crude, language-agnostic token estimate for raw text.

use vstd::prelude::*;
use vstd::string::StrSliceExecFns;

verus! {

/// The estimated number of tokens in a text of `chars` characters:
/// a quarter of the length, rounded up.
pub open spec fn tokens_for(chars: nat) -> nat {
    (chars + 3) / 4
}

/// Estimates the token count of `text` as a quarter of its length in
/// characters, rounded up. Empty text has no tokens.
pub fn estimate_tokens(text: &str) -> (tokens: usize)
    ensures
        tokens == tokens_for(text@.len()),
{
    let chars: usize = text.unicode_len();
    let whole: usize = chars / 4;
    if chars % 4 == 0 {
        whole
    } else {
        whole + 1
    }
}

} // verus!
