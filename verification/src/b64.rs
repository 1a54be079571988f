//! Base64 transport encoding, as the token wire format uses it.
//!
//! The encoding itself is done by the `base64` crate's `STANDARD` engine
//! (padded, canonical); its result is named by `b64_of`, and the contracts
//! state exactly the facts that engine documents: the alphabet, the output
//! length, and that decoding accepts precisely the canonical encodings.

use base64::Engine;
use vstd::prelude::*;

verus! {

/// Whether `c` belongs to the standard base64 alphabet (with padding).
pub open spec fn is_b64_char(c: char) -> bool {
    let u = c as u32;
    (65 <= u && u <= 90)  // 'A'..'Z'
     || (97 <= u && u <= 122)  // 'a'..'z'
     || (48 <= u && u <= 57)  // '0'..'9'
     || u == 43  // '+'
     || u == 47  // '/'
     || u == 61  // '='

}

pub open spec fn is_b64_seq(s: Seq<char>) -> bool {
    forall|i: int| 0 <= i < s.len() ==> is_b64_char(#[trigger] s[i])
}

/// The standard padded base64 rendering of a byte sequence.
pub uninterp spec fn b64_of(bytes: Seq<u8>) -> Seq<char>;

/// What the STANDARD engine's decoder returns: the encoded bytes for a
/// canonical encoding, nothing otherwise.
pub uninterp spec fn b64_inv(s: Seq<char>) -> Option<Seq<u8>>;

/// Whether a character sequence is the canonical encoding of some bytes.
pub open spec fn b64_decodable(s: Seq<char>) -> bool {
    b64_inv(s) is Some
}

/// The bytes a canonical encoding stands for.
pub open spec fn b64_decode_spec(s: Seq<char>) -> Seq<u8> {
    b64_inv(s)->0
}

/// Relies on `base64::engine::general_purpose::STANDARD.encode`: the
/// canonical padded base64 of the input, four alphabet characters for
/// every three bytes begun; the same engine's decoder reads it back to
/// exactly the input.
#[verifier::external_body]
pub fn b64_encode(data: &[u8]) -> (r: String)
    ensures
        r@ == b64_of(data@),
        is_b64_seq(r@),
        r@.len() == 4 * ((data@.len() + 2) / 3),
        b64_inv(r@) == Some(data@),
{
    base64::engine::general_purpose::STANDARD.encode(data)
}

#[verifier::external_type_specification]
#[verifier::external_body]
pub struct ExDecodeError(base64::DecodeError);

/// Relies on `base64::engine::general_purpose::STANDARD.decode`: that
/// engine requires canonical padding and rejects non-zero trailing bits,
/// so it succeeds exactly on the strings `encode` produces, returning the
/// encoded bytes.
#[verifier::external_body]
pub fn b64_decode(s: &str) -> (r: Result<Vec<u8>, base64::DecodeError>)
    ensures
        r is Ok <==> b64_inv(s@) is Some,
        r is Ok ==> Some(r->Ok_0@) == b64_inv(s@),
        r is Ok ==> s@ == b64_of(r->Ok_0@),
{
    base64::engine::general_purpose::STANDARD.decode(s.as_bytes())
}

} // verus!
