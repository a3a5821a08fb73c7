//! Bytes as text.

use vstd::prelude::*;
use vstd::utf8::{decode_utf8, encode_utf8, valid_utf8};

verus! {

#[verifier::external_type_specification]
#[verifier::external_body]
pub struct ExUtf8Error(std::str::Utf8Error);

/// `std::str::from_utf8` accepts exactly the byte strings that are valid UTF-8,
/// and returns the text that they encode.
pub assume_specification[ std::str::from_utf8 ](v: &[u8]) -> (r: Result<
    &str,
    std::str::Utf8Error,
>)
    ensures
        match r {
            Ok(s) => valid_utf8(v@) && s@ == decode_utf8(v@) && encode_utf8(s@) == v@,
            Err(_) => !valid_utf8(v@),
        },
;

/// What the `Debug` of the refusal shows when `std::str::from_utf8` refuses bytes.
pub uninterp spec fn utf8_fault(bytes: Seq<u8>) -> Seq<char>;

/// Formats the `Utf8Error` of `std::str::from_utf8` by its `Debug`, for bytes that
/// are refused. The contract claims that the text depends on the bytes alone; what
/// it is is left unsaid.
#[verifier::external_body]
pub(crate) fn utf8_error_text(bytes: &[u8]) -> (r: String)
    requires
        !valid_utf8(bytes@),
    ensures
        r@ == utf8_fault(bytes@),
{
    format!("{:?}", std::str::from_utf8(bytes).unwrap_err())
}

/// What the `Debug` of the refusal shows when `String::from_utf8` refuses bytes.
pub uninterp spec fn string_fault(bytes: Seq<u8>) -> Seq<char>;

/// Formats the `FromUtf8Error` of `String::from_utf8` by its `Debug`, for bytes
/// that are refused. The contract claims that the text depends on the bytes alone;
/// what it is is left unsaid.
#[verifier::external_body]
pub(crate) fn string_error_text(bytes: Vec<u8>) -> (r: String)
    requires
        !valid_utf8(bytes@),
    ensures
        r@ == string_fault(bytes@),
{
    format!("{:?}", String::from_utf8(bytes).unwrap_err())
}

/// The text that `String::from_utf8_lossy` gives.
pub uninterp spec fn utf8_lossy(bytes: Seq<u8>) -> Seq<char>;

/// Calls `String::from_utf8_lossy`. The contract claims that the text depends on
/// the bytes alone, and that it is the text that the bytes encode where they are
/// valid UTF-8. Where the replacement characters come otherwise is left unsaid.
#[verifier::external_body]
pub(crate) fn from_utf8_lossy(bytes: &[u8]) -> (r: String)
    ensures
        r@ == utf8_lossy(bytes@),
        valid_utf8(bytes@) ==> r@ == decode_utf8(bytes@),
{
    String::from_utf8_lossy(bytes).into_owned()
}

} // verus!
