use vstd::prelude::*;

verus! {

/// The bytes of `String::from_utf8_lossy(bytes)`: the bytes read as UTF-8, each invalid
/// sequence replaced by U+FFFD (EF BF BD).
pub uninterp spec fn utf8_lossy(bytes: Seq<u8>) -> Seq<u8>;

/// Calls `String::from_utf8_lossy` and takes the bytes of the text. The contract names the
/// result `utf8_lossy` of the input; it also states what the documentation says of valid UTF-8
/// (it comes back unchanged) for the simplest case, ASCII.
#[verifier::external_body]
pub(crate) fn from_utf8_lossy(bytes: &[u8]) -> (r: Vec<u8>)
    ensures
        r@ == utf8_lossy(bytes@),
        (forall|i: int| 0 <= i < bytes@.len() ==> bytes@[i] < 128) ==> r@ == bytes@,
{
    String::from_utf8_lossy(bytes).into_owned().into_bytes()
}

/// The bytes of `str::to_lowercase` of the text of `bytes`, read as `String::from_utf8_lossy`
/// reads it: each character made small as Unicode says.
pub uninterp spec fn text_lowercase(bytes: Seq<u8>) -> Seq<u8>;

/// Calls `str::to_lowercase` and takes the bytes of the result. The bytes are turned into the
/// text that the call takes with `String::from_utf8_lossy`, which leaves valid UTF-8 as it is.
/// The contract names the result `text_lowercase` of the input.
#[verifier::external_body]
pub(crate) fn to_lowercase(bytes: &[u8]) -> (r: Vec<u8>)
    ensures
        r@ == text_lowercase(bytes@),
{
    String::from_utf8_lossy(bytes).to_lowercase().into_bytes()
}

} // verus!
