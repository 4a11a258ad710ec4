//! Text and its bytes.

use vstd::prelude::*;
use vstd::utf8::*;

verus! {

/// The text that `bytes` encode, where they are well-formed UTF-8.
///
/// Stands on `String::from_utf8`, which accepts exactly the well-formed byte
/// sequences and then yields the string made of those very bytes.
#[verifier::external_body]
pub(crate) fn text_from_utf8(bytes: Vec<u8>) -> (text: Option<String>)
    ensures
        text is Some <==> valid_utf8(bytes@),
        text matches Some(s) ==> s@ == decode_utf8(bytes@),
{
    String::from_utf8(bytes).ok()
}

} // verus!
