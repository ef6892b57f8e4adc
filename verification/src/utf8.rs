//! UTF-8 validation of the bytes that a tag holds as text.

use core::str::Utf8Error;
use vstd::prelude::*;
use vstd::utf8::{decode_utf8, encode_utf8, encode_utf8_decode_utf8, valid_utf8};

verus! {

/// True when `n` is the length of the longest prefix of `bytes` that is
/// valid UTF-8. Where `bytes` is not valid as a whole, this is the offset of
/// its first invalid sequence.
pub open spec fn is_valid_up_to(bytes: Seq<u8>, n: int) -> bool {
    &&& 0 <= n <= bytes.len()
    &&& valid_utf8(bytes.subrange(0, n))
    &&& forall|m: int| n < m <= bytes.len() ==> !valid_utf8(#[trigger] bytes.subrange(0, m))
}

/// The error of `core::str::from_utf8`. Nothing of it is visible here but
/// what `utf8_error_valid_up_to` names.
#[verifier::external_type_specification]
#[verifier::external_body]
pub struct ExUtf8Error(Utf8Error);

/// What `Utf8Error::valid_up_to` returns for `e`.
pub uninterp spec fn utf8_error_valid_up_to(e: Utf8Error) -> usize;

/// `core::str::from_utf8` succeeds on valid UTF-8 and on nothing else. The
/// string it returns is a view of the same bytes. Its error says up to where
/// the input was valid: by the documentation of `Utf8Error::valid_up_to`, the
/// greatest index such that the input up to there is valid.
pub assume_specification[ core::str::from_utf8 ](v: &[u8]) -> (r: Result<&str, Utf8Error>)
    ensures
        r is Ok <==> valid_utf8(v@),
        r matches Ok(s) ==> encode_utf8(s@) == v@,
        r matches Err(e) ==> is_valid_up_to(v@, utf8_error_valid_up_to(e) as int),
;

/// `Utf8Error::valid_up_to` reads the offset that the error carries.
pub assume_specification[ Utf8Error::valid_up_to ](e: &Utf8Error) -> (r: usize)
    ensures
        r == utf8_error_valid_up_to(*e),
;

/// Why a run of bytes is not text.
#[derive(Clone, Copy, Debug, PartialEq, Eq, PartialOrd, Ord, Hash, Structural)]
pub struct Utf8DecodeError {
    /// Offset of the first byte that is not part of valid UTF-8: the bytes
    /// before it are valid, and no longer prefix is.
    pub valid_up_to: usize,
}

impl Utf8DecodeError {
    /// Offset of the first byte that is not part of valid UTF-8.
    pub fn valid_up_to(&self) -> (r: usize)
        ensures
            r == self.valid_up_to,
    {
        self.valid_up_to
    }
}

/// True when `r` is what reading `bytes` as UTF-8 gives: their text where
/// they are valid, else the offset of the first invalid sequence.
pub open spec fn decodes_to(bytes: Seq<u8>, r: Result<&str, Utf8DecodeError>) -> bool {
    match r {
        Ok(s) => valid_utf8(bytes) && s@ == decode_utf8(bytes),
        Err(e) => !valid_utf8(bytes) && is_valid_up_to(bytes, e.valid_up_to as int),
    }
}

/// Reads `bytes` as UTF-8 text, without copying.
pub fn parse_utf8(bytes: &[u8]) -> (r: Result<&str, Utf8DecodeError>)
    ensures
        decodes_to(bytes@, r),
{
    match core::str::from_utf8(bytes) {
        Ok(s) => {
            proof {
                encode_utf8_decode_utf8(s@);
            }
            Ok(s)
        },
        Err(e) => Err(Utf8DecodeError { valid_up_to: e.valid_up_to() }),
    }
}

} // verus!
