//! Preparation of console output.

use vstd::prelude::*;

verus! {

/// The bytes that print `message` as one line: the message, then the line
/// terminator of the platform.
pub fn terminated_line(message: &[u8], terminator: &[u8]) -> (line: Vec<u8>)
    ensures
        line@ == message@ + terminator@,
{
    let mut line: Vec<u8> = Vec::new();
    line.extend_from_slice(message);
    line.extend_from_slice(terminator);
    line
}

} // verus!
