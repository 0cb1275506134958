//! The verified selection applied to an authoritative parser's diagnostics.
//! The boundary layer runs the parser and hands its raw messages in as plain
//! strings; the library decides what a caller sees.

use vstd::prelude::*;

verus! {

/// The message surfaced for a parse: the first diagnostic, or the all-clear
/// text when there is none.
pub fn first_error_message(messages: &Vec<String>) -> (r: String)
    ensures
        messages@.len() == 0 ==> r@ == "No errors"@,
        messages@.len() > 0 ==> r@ == messages@[0]@,
{
    if messages.len() == 0 {
        "No errors".to_owned()
    } else {
        let first = &messages[0];
        first.clone()
    }
}

} // verus!
