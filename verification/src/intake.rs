//! Intake: what becomes of the wait for a reply. No reply within the bound
//! is no error: a fixed text stands in for the answer, and whoever reads
//! the answer treats it like any other.

use vstd::prelude::*;
use vstd::string::*;

use crate::text::{is_digit, spelled_number, without_sign};

verus! {

/// How long a reply is waited for, in seconds.
pub const REPLY_BOUND_SECONDS: u64 = 10;

/// The text that stands in for a reply that did not come.
pub const SENTINEL: &'static str = "Noop";

/// The text that stands in for a reply that did not come.
pub open spec fn sentinel() -> Seq<char> {
    "Noop"@
}

/// The answer that a wait for a reply ends with: the reply's text, or the
/// sentinel where none came in time.
pub open spec fn answer_of(reply: Option<Seq<char>>) -> Seq<char> {
    match reply {
        Some(text) => text,
        None => sentinel(),
    }
}

/// Folds the outcome of a wait for a reply into an answer.
pub fn intake(reply: Option<String>) -> (answer: String)
    ensures
        answer@ == answer_of(
            match reply {
                Some(text) => Some(text@),
                None => None,
            },
        ),
{
    match reply {
        Some(text) => text,
        None => String::from_str(SENTINEL),
    }
}

/// The sentinel spells no number: a wait for an amount that ends without a
/// reply ends like one with an answer that is no number.
pub proof fn lemma_sentinel_spells_no_number()
    ensures
        spelled_number(sentinel()) is None,
{
    reveal_strlit("Noop");
    let digits = without_sign(sentinel());
    assert(sentinel()[0] == 'N');
    assert(digits == sentinel());
    assert(!is_digit(digits[0]));
}

} // verus!
