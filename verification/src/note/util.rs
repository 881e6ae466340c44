//! The wall clock.

use crate::text::chars::char_is_whitespace;
use vstd::prelude::*;

verus! {

/// What holds of every timestamp that the clock gives: it is not empty,
/// holds no line break, and neither starts nor ends with whitespace.
pub open spec fn is_stamp(text: Seq<char>) -> bool {
    &&& text.len() > 0
    &&& forall|i: int| 0 <= i < text.len() ==> text[i] != '\n'
    &&& !char_is_whitespace(text[0])
    &&& !char_is_whitespace(text.last())
}

/// The local wall-clock time, to the second, as `YYYY-MM-DD HH:MM:SS`, from
/// `chrono::Local::now`. Trusted. The text depends on the clock and the time
/// zone of the machine, so only what holds at every time is claimed: the
/// text is not empty, holds no line break, starts with the year, which is
/// no whitespace, and ends with the seconds, which is none either.
#[verifier::external_body]
pub fn local_timestamp() -> (stamp: String)
    ensures
        is_stamp(stamp@),
{
    chrono::Local::now().format("%Y-%m-%d %H:%M:%S").to_string()
}

} // verus!
