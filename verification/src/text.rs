//! Strings and their UTF-8 bytes.

use vstd::prelude::*;
use vstd::utf8::*;

verus! {

/// `String::from_utf8` of the standard library, with its error dropped.
/// Believed of it: it succeeds exactly on well-formed UTF-8, and the string
/// it then returns holds the characters that those bytes encode.
#[verifier::external_body]
pub(crate) fn string_from_utf8(bytes: Vec<u8>) -> (text: Option<String>)
    ensures
        text.is_some() == valid_utf8(bytes@),
        text.is_some() ==> text.unwrap()@ == decode_utf8(bytes@),
{
    String::from_utf8(bytes).ok()
}

} // verus!
