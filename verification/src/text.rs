//! What the standard library does with text: appending a character to a
//! string, and reading bytes as text.

use vstd::prelude::*;
use vstd::utf8::{decode_utf8, valid_utf8};

verus! {

/// `String::push` appends exactly the given character.
pub assume_specification[ String::push ](s: &mut String, c: char)
    ensures
        final(s)@ == old(s)@.push(c),
;

/// The text that `String::from_utf8_lossy` reads from `bytes`: the decoded
/// characters, with U+FFFD in place of what is not valid UTF-8.
pub uninterp spec fn lossy_text(bytes: Seq<u8>) -> Seq<char>;

/// Reads `bytes` as text with `String::from_utf8_lossy`.
///
/// The result depends on the bytes alone. Valid UTF-8 is decoded as it
/// stands; how invalid input is replaced is left to the standard library.
#[verifier::external_body]
pub(crate) fn from_utf8_lossy(bytes: &[u8]) -> (text: String)
    ensures
        text@ == lossy_text(bytes@),
        valid_utf8(bytes@) ==> text@ == decode_utf8(bytes@),
{
    String::from_utf8_lossy(bytes).into_owned()
}

} // verus!
