//! Password storage: PBKDF2-HMAC-SHA256 over a random salt, recorded as
//! `hex(salt) $ hex(hash)`. The derivation itself is the pbkdf2 crate's;
//! everything around it — the record format, parsing and comparison — is
//! specified exactly.

use crate::security::generate_salt;
use crate::strutil::{
    free_of, lemma_split_sep_join, lemma_split_sep_whole, split_on_char, split_sep, string_push,
};
use vstd::prelude::*;
use vstd::string::*;
use vstd::utf8::encode_utf8;

verus! {

pub const PBKDF2_ROUNDS: u32 = 10000;

pub const PASSWORD_HASH_BYTES: usize = 32;

/// The PBKDF2-HMAC-SHA256 derivation: a pure function of password, salt,
/// round count and output length.
pub uninterp spec fn pbkdf2_of(password: Seq<u8>, salt: Seq<u8>, rounds: u32, out_len: usize) -> Seq<
    u8,
>;

/// Relies on `pbkdf2::pbkdf2_hmac::<sha2::Sha256>`: fills the output
/// buffer with the derived key, a deterministic function of password,
/// salt, rounds and the buffer length.
#[verifier::external_body]
fn pbkdf2_sha256(password: &[u8], salt: &[u8], rounds: u32, out_len: usize) -> (r: Vec<u8>)
    requires
        rounds >= 1,
    ensures
        r@ == pbkdf2_of(password@, salt@, rounds, out_len),
        r@.len() == out_len,
{
    let mut out = vec![0u8; out_len];
    pbkdf2::pbkdf2_hmac::<sha2::Sha256>(password, salt, rounds, &mut out);
    out
}

/// The lowercase hex digit for a value below sixteen.
pub open spec fn hex_digit_char(d: nat) -> char
    recommends
        d < 16,
{
    if d < 10 {
        ((48 + d) as u8) as char
    } else {
        ((87 + d) as u8) as char
    }
}

/// Lowercase hex rendering, two digits per byte.
pub open spec fn hex_chars(b: Seq<u8>) -> Seq<char>
    decreases b.len(),
{
    if b.len() == 0 {
        Seq::empty()
    } else {
        seq![
            hex_digit_char((b[0] / 16) as nat),
            hex_digit_char((b[0] % 16) as nat),
        ] + hex_chars(b.drop_first())
    }
}

pub open spec fn is_hex_digit(c: char) -> bool {
    let u = c as u32;
    (48 <= u && u <= 57) || (97 <= u && u <= 102) || (65 <= u && u <= 70)
}

pub open spec fn hex_val(c: char) -> nat
    recommends
        is_hex_digit(c),
{
    let u = c as u32;
    if 48 <= u && u <= 57 {
        (u - 48) as nat
    } else if 97 <= u && u <= 102 {
        (u - 87) as nat
    } else {
        (u - 55) as nat
    }
}

/// What `hex::decode` accepts: an even number of hex digits, upper or
/// lower case.
pub open spec fn hex_decodable(s: Seq<char>) -> bool {
    s.len() % 2 == 0 && forall|i: int| 0 <= i < s.len() ==> is_hex_digit(#[trigger] s[i])
}

/// The bytes a hex string stands for, two digits each.
pub open spec fn hex_bytes(s: Seq<char>) -> Seq<u8>
    recommends
        hex_decodable(s),
    decreases s.len(),
{
    if s.len() < 2 {
        Seq::empty()
    } else {
        seq![((hex_val(s[0]) * 16 + hex_val(s[1])) % 256) as u8] + hex_bytes(s.skip(2))
    }
}

/// Relies on `hex::encode`: two lowercase hex digits per input byte.
#[verifier::external_body]
fn hex_encode(data: &[u8]) -> (r: String)
    ensures
        r@ == hex_chars(data@),
{
    hex::encode(data)
}

/// Relies on `hex::decode`: succeeds exactly on an even number of hex
/// digits of either case, returning the bytes they spell.
#[verifier::external_body]
fn hex_decode(s: &str) -> (r: Option<Vec<u8>>)
    ensures
        r is Some <==> hex_decodable(s@),
        r is Some ==> r->0@ == hex_bytes(s@),
{
    hex::decode(s).ok()
}

/// Derives the 32-byte password hash for a given salt.
pub fn hash_password(password: &str, salt: &[u8]) -> (r: Vec<u8>)
    ensures
        r@ == pbkdf2_of(encode_utf8(password@), salt@, PBKDF2_ROUNDS, PASSWORD_HASH_BYTES),
        r@.len() == PASSWORD_HASH_BYTES,
{
    pbkdf2_sha256(password.as_bytes(), salt, PBKDF2_ROUNDS, PASSWORD_HASH_BYTES)
}

/// The stored record for a password hashed under a given salt.
pub open spec fn stored_password_chars(salt: Seq<u8>, password: Seq<char>) -> Seq<char> {
    hex_chars(salt) + seq!['$'] + hex_chars(
        pbkdf2_of(encode_utf8(password), salt, PBKDF2_ROUNDS, PASSWORD_HASH_BYTES),
    )
}

/// Hashes the password under a fresh random 16-byte salt and renders the
/// record to store; `None` only if the random source fails.
pub fn store_password(password: &str) -> (r: Option<String>)
    ensures
        r is Some ==> exists|salt: Seq<u8>|
            salt.len() == 16 && r->0@ == #[trigger] stored_password_chars(salt, password@),
{
    let salt = match generate_salt() {
        Some(s) => s,
        None => {
            return None;
        },
    };
    let hashed = hash_password(password, salt.as_slice());
    let mut out = hex_encode(salt.as_slice());
    string_push(&mut out, '$');
    let hex_hash = hex_encode(hashed.as_slice());
    out.append(hex_hash.as_str());
    proof {
        assert(out@ =~= stored_password_chars(salt@, password@));
    }
    Some(out)
}

/// When a stored record accepts a candidate password: the record splits
/// on `$` into exactly two hex strings, and the hash derived from the
/// candidate under the recorded salt equals the recorded hash. A record
/// that does not parse accepts nothing.
pub open spec fn check_password_spec(stored: Seq<char>, password: Seq<char>) -> bool {
    let parts = split_sep(stored, '$');
    &&& parts.len() == 2
    &&& hex_decodable(parts[0])
    &&& hex_decodable(parts[1])
    &&& hex_bytes(parts[1]) == pbkdf2_of(
        encode_utf8(password),
        hex_bytes(parts[0]),
        PBKDF2_ROUNDS,
        PASSWORD_HASH_BYTES,
    )
}

fn bytes_eq(a: &[u8], b: &[u8]) -> (r: bool)
    ensures
        r == (a@ == b@),
{
    if a.len() != b.len() {
        return false;
    }
    let n = a.len();
    let mut i: usize = 0;
    while i < n
        invariant
            i <= n,
            n == a@.len(),
            n == b@.len(),
            forall|k: int| 0 <= k < i ==> a@[k] == b@[k],
        decreases n - i,
    {
        if a[i] != b[i] {
            return false;
        }
        i = i + 1;
    }
    proof {
        assert(a@ =~= b@);
    }
    true
}

/// Checks a candidate password against a stored record.
pub fn check_password(stored: &str, password: &str) -> (r: bool)
    ensures
        r == check_password_spec(stored@, password@),
{
    let parts = split_on_char(stored, '$');
    if parts.len() != 2 {
        return false;
    }
    let salt = match hex_decode(parts[0].as_str()) {
        Some(v) => v,
        None => {
            return false;
        },
    };
    let stored_hash = match hex_decode(parts[1].as_str()) {
        Some(v) => v,
        None => {
            return false;
        },
    };
    let new_hash = hash_password(password, salt.as_slice());
    bytes_eq(new_hash.as_slice(), stored_hash.as_slice())
}


proof fn lemma_hex_chars_shape(b: Seq<u8>)
    ensures
        hex_chars(b).len() == 2 * b.len(),
        hex_decodable(hex_chars(b)),
        free_of(hex_chars(b), '$'),
    decreases b.len(),
{
    if b.len() > 0 {
        lemma_hex_chars_shape(b.drop_first());
        assert(is_hex_digit(hex_digit_char((b[0] / 16) as nat)));
        assert(is_hex_digit(hex_digit_char((b[0] % 16) as nat)));
        assert forall|i: int| 0 <= i < hex_chars(b).len() implies is_hex_digit(
            #[trigger] hex_chars(b)[i],
        ) && hex_chars(b)[i] != '$' by {
            if i >= 2 {
                assert(hex_chars(b)[i] == hex_chars(b.drop_first())[i - 2]);
            }
        }
    }
}

proof fn lemma_hex_round_trip(b: Seq<u8>)
    ensures
        hex_bytes(hex_chars(b)) == b,
    decreases b.len(),
{
    if b.len() == 0 {
        assert(hex_bytes(hex_chars(b)) =~= b);
    } else {
        lemma_hex_round_trip(b.drop_first());
        let hc = hex_chars(b);
        assert(hc.skip(2) =~= hex_chars(b.drop_first()));
        assert(hex_val(hc[0]) == b[0] / 16 && hex_val(hc[1]) == b[0] % 16);
        assert((b[0] / 16) * 16 + (b[0] % 16) == b[0]) by {
            vstd::arithmetic::div_mod::lemma_fundamental_div_mod(b[0] as int, 16);
        }
        assert(hex_bytes(hc) =~= b);
    }
}

/// Storing a password and then checking the same password against the
/// stored record always succeeds, whatever salt the store drew.
pub proof fn lemma_store_then_check(salt: Seq<u8>, password: Seq<char>)
    ensures
        check_password_spec(stored_password_chars(salt, password), password),
{
    let hash = pbkdf2_of(encode_utf8(password), salt, PBKDF2_ROUNDS, PASSWORD_HASH_BYTES);
    let stored = stored_password_chars(salt, password);
    lemma_hex_chars_shape(salt);
    lemma_hex_chars_shape(hash);
    lemma_hex_round_trip(salt);
    lemma_hex_round_trip(hash);
    assert(stored =~= hex_chars(salt) + seq!['$'] + hex_chars(hash));
    lemma_split_sep_join(hex_chars(salt), hex_chars(hash), '$');
    lemma_split_sep_whole(hex_chars(hash), '$');
    assert(split_sep(stored, '$') =~~= seq![hex_chars(salt), hex_chars(hash)]);
}

} // verus!
