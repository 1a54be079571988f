//! The signed bearer-token codec.
//!
//! Wire format: `"LV " + base64(payload) + "." + base64(hmac_sha256(base64(payload)))`,
//! where the payload is `user_id`, expiration (decimal seconds), secret,
//! session id and kind, joined with NUL separators. `decode_spec` is the
//! exact mathematical statement of what `decode_token_at` returns, and
//! `token_chars` of what `generate_token_at` produces.

use crate::b64::{
    b64_decodable, b64_decode, b64_decode_spec, b64_encode, b64_inv, b64_of, is_b64_char,
    is_b64_seq,
};
use crate::clock::now_seconds;
use crate::decimal::{dec_chars, parse_u64, parse_u64_chars, u64_to_dec_string};
use crate::strutil::{
    lemma_split_nul_join, lemma_split_nul_whole, no_nul, split_nul, split_on_nul, str_eq,
    string_push,
};
use vstd::prelude::*;
use vstd::string::*;
use vstd::utf8::{decode_utf8, encode_utf8, valid_utf8};

verus! {

pub const ACCESS_TOKEN_LIFETIME_SECONDS: u64 = 3600;

pub const REFRESH_TOKEN_LIFETIME_SECONDS: u64 = 2592000;

/// The 32-byte tag of HMAC-SHA256, a pure function of key and message.
pub uninterp spec fn hmac_sha256_of(key: Seq<u8>, msg: Seq<u8>) -> Seq<u8>;

/// Relies on `hmac::Hmac<sha2::Sha256>` (`new_from_slice`, `update`,
/// `finalize`): the HMAC-SHA256 tag of the message under the key, 32 bytes,
/// depending on nothing but the two arguments. `new_from_slice` accepts
/// keys of any length for an HMAC, so it cannot fail here.
#[verifier::external_body]
fn hmac_sha256(key: &[u8], msg: &[u8]) -> (r: Vec<u8>)
    ensures
        r@ == hmac_sha256_of(key@, msg@),
        r@.len() == 32,
{
    let mut mac = <hmac::Hmac<sha2::Sha256> as hmac::KeyInit>::new_from_slice(key).unwrap();
    hmac::Mac::update(&mut mac, msg);
    hmac::Mac::finalize(mac).into_bytes().to_vec()
}

/// Relies on `String::from_utf8`: succeeds exactly on valid UTF-8 and
/// returns the string those bytes encode.
#[verifier::external_body]
fn string_from_utf8(v: Vec<u8>) -> (r: Option<String>)
    ensures
        r is Some <==> valid_utf8(v@),
        r is Some ==> r->0@ == decode_utf8(v@),
{
    String::from_utf8(v).ok()
}

/// Relies on `rand::rngs::SysRng::try_fill_bytes` (the operating system
/// source): on success the buffer is filled to its full length; nothing is
/// promised of the values.
#[verifier::external_body]
fn os_random_bytes(len: usize) -> (r: Option<Vec<u8>>)
    ensures
        r is Some ==> r->0@.len() == len,
{
    let mut buf = vec![0u8; len];
    match rand::TryRng::try_fill_bytes(&mut rand::rngs::SysRng, &mut buf) {
        Ok(()) => Some(buf),
        Err(_) => None,
    }
}

/// A fresh random key of `length` bytes, base64-encoded; `None` only if the
/// operating system's random source fails.
pub fn generate_key(length: usize) -> (r: Option<String>)
    ensures
        r is Some ==> is_b64_seq(r->0@),
        r is Some ==> exists|b: Seq<u8>| b.len() == length && r->0@ == b64_of(b),
{
    match os_random_bytes(length) {
        Some(bytes) => Some(b64_encode(bytes.as_slice())),
        None => None,
    }
}

/// A fresh random 16-byte salt; `None` only if the operating system's
/// random source fails.
pub fn generate_salt() -> (r: Option<Vec<u8>>)
    ensures
        r is Some ==> r->0@.len() == 16,
{
    os_random_bytes(16)
}

/// The base64 HMAC-SHA256 signature of a message string under a key string.
pub open spec fn hmac_b64_chars(msg: Seq<char>, key: Seq<char>) -> Seq<char> {
    b64_of(hmac_sha256_of(encode_utf8(key), encode_utf8(msg)))
}

/// Computes the base64 HMAC-SHA256 signature of `message` under
/// `signature_key`.
fn hmac_sha256_b64(message: &str, signature_key: &str) -> (r: String)
    ensures
        r@ == hmac_b64_chars(message@, signature_key@),
        is_b64_seq(r@),
{
    let digest = hmac_sha256(signature_key.as_bytes(), message.as_bytes());
    b64_encode(digest.as_slice())
}

/// Checks a base64 signature against the one recomputed for `message`.
pub fn verify_hmac_b64(message: &str, sig_b64: &str, signature_key: &str) -> (r: bool)
    ensures
        r == (sig_b64@ == hmac_b64_chars(message@, signature_key@)),
{
    let expected = hmac_sha256_b64(message, signature_key);
    str_eq(expected.as_str(), sig_b64)
}

/// A decoded token's fields, with its character-level view below.
#[derive(Debug, Clone)]
pub struct DecodedToken {
    pub user_id: String,
    pub is_expired: bool,
    pub expiration_timestamp: u64,
    pub secret: String,
    pub key_type: String,
    pub session_id: String,
}

/// The mathematical content of a decoded token.
pub struct TokenView {
    pub user_id: Seq<char>,
    pub is_expired: bool,
    pub expiration_timestamp: u64,
    pub secret: Seq<char>,
    pub key_type: Seq<char>,
    pub session_id: Seq<char>,
}

impl View for DecodedToken {
    type V = TokenView;

    open spec fn view(&self) -> TokenView {
        TokenView {
            user_id: self.user_id@,
            is_expired: self.is_expired,
            expiration_timestamp: self.expiration_timestamp,
            secret: self.secret@,
            key_type: self.key_type@,
            session_id: self.session_id@,
        }
    }
}

/// Why a token was rejected: not shaped like a token at all, carrying a
/// signature that does not match its payload, or of the wrong kind for the
/// caller's purpose. Expiry is reported in `DecodedToken::is_expired`, not
/// as an error.
#[derive(Clone, Copy, Debug, PartialEq, Eq, Structural)]
pub enum TokenError {
    MalformedToken,
    InvalidSignature,
    WrongTokenKind,
}

pub open spec fn lv_prefix() -> Seq<char> {
    seq!['L', 'V', ' ']
}

/// The payload before transport encoding: the five fields joined with NUL.
pub open spec fn payload_chars(
    user_id: Seq<char>,
    expiration: u64,
    secret: Seq<char>,
    session_id: Seq<char>,
    kind: Seq<char>,
) -> Seq<char> {
    user_id + seq!['\0'] + dec_chars(expiration as nat) + seq!['\0'] + secret + seq!['\0']
        + session_id + seq!['\0'] + kind
}

/// The transport-encoded payload segment of a token.
pub open spec fn payload_b64_chars(
    user_id: Seq<char>,
    expiration: u64,
    secret: Seq<char>,
    session_id: Seq<char>,
    kind: Seq<char>,
) -> Seq<char> {
    b64_of(encode_utf8(payload_chars(user_id, expiration, secret, session_id, kind)))
}

/// The complete wire form of a token.
pub open spec fn token_chars(
    user_id: Seq<char>,
    expiration: u64,
    secret: Seq<char>,
    session_id: Seq<char>,
    kind: Seq<char>,
    key: Seq<char>,
) -> Seq<char> {
    let p = payload_b64_chars(user_id, expiration, secret, session_id, kind);
    lv_prefix() + p + seq!['.'] + hmac_b64_chars(p, key)
}

/// What the transport layer guarantees of a freshly minted token: both
/// segments use the base64 alphabet, and the payload segment decodes back
/// to the payload. Every caller that reasons about a token's shape needs
/// these.
pub open spec fn token_wire_facts(
    user_id: Seq<char>,
    expiration: u64,
    secret: Seq<char>,
    session_id: Seq<char>,
    kind: Seq<char>,
    key: Seq<char>,
) -> bool {
    let p = payload_b64_chars(user_id, expiration, secret, session_id, kind);
    &&& is_b64_seq(p)
    &&& is_b64_seq(hmac_b64_chars(p, key))
    &&& b64_inv(p) == Some(encode_utf8(payload_chars(user_id, expiration, secret, session_id, kind)))
}

/// When a token minted at `now` expires: refresh tokens after 30 days,
/// access tokens after one hour.
pub open spec fn spec_expiration(long_term: bool, now: u64) -> u64
    recommends
        now + REFRESH_TOKEN_LIFETIME_SECONDS <= u64::MAX,
{
    if long_term {
        (now + REFRESH_TOKEN_LIFETIME_SECONDS) as u64
    } else {
        (now + ACCESS_TOKEN_LIFETIME_SECONDS) as u64
    }
}

/// Mints the signed token for the given fields as of time `now` (seconds
/// since the Unix epoch).
pub fn generate_token_at(
    user_id: &str,
    key_type: &str,
    long_term: bool,
    secret: &str,
    session_id: &str,
    signature_key: &str,
    now: u64,
) -> (r: String)
    requires
        now <= u64::MAX - REFRESH_TOKEN_LIFETIME_SECONDS,
    ensures
        r@ == token_chars(
            user_id@,
            spec_expiration(long_term, now),
            secret@,
            session_id@,
            key_type@,
            signature_key@,
        ),
        token_wire_facts(
            user_id@,
            spec_expiration(long_term, now),
            secret@,
            session_id@,
            key_type@,
            signature_key@,
        ),
{
    let expiration: u64 = if long_term {
        now + REFRESH_TOKEN_LIFETIME_SECONDS
    } else {
        now + ACCESS_TOKEN_LIFETIME_SECONDS
    };
    let exp_str = u64_to_dec_string(expiration);

    let mut combined = user_id.to_owned();
    string_push(&mut combined, '\0');
    combined.append(exp_str.as_str());
    string_push(&mut combined, '\0');
    combined.append(secret);
    string_push(&mut combined, '\0');
    combined.append(session_id);
    string_push(&mut combined, '\0');
    combined.append(key_type);
    proof {
        assert(combined@ =~= payload_chars(user_id@, expiration, secret@, session_id@, key_type@));
    }

    let payload = b64_encode(combined.as_str().as_bytes());
    let signature = hmac_sha256_b64(payload.as_str(), signature_key);

    let mut token = "LV ".to_owned();
    token.append(payload.as_str());
    string_push(&mut token, '.');
    token.append(signature.as_str());
    proof {
        reveal_strlit("LV ");
        assert(("LV ")@ =~= lv_prefix());
        assert(token@ =~= token_chars(
            user_id@,
            spec_expiration(long_term, now),
            secret@,
            session_id@,
            key_type@,
            signature_key@,
        ));
    }
    token
}

/// Mints a token expiring 30 days (refresh) or one hour (access) from the
/// current wall-clock time.
pub fn generate_token(
    user_id: &str,
    key_type: &str,
    long_term: bool,
    secret: &str,
    session_id: &str,
    signature_key: &str,
) -> (r: String)
    ensures
        exists|now: u64|
            now <= u64::MAX - REFRESH_TOKEN_LIFETIME_SECONDS && r@ == #[trigger] token_chars(
                user_id@,
                spec_expiration(long_term, now),
                secret@,
                session_id@,
                key_type@,
                signature_key@,
            ),
{
    let mut now = now_seconds();
    if now > u64::MAX - REFRESH_TOKEN_LIFETIME_SECONDS {
        now = u64::MAX - REFRESH_TOKEN_LIFETIME_SECONDS;
    }
    generate_token_at(user_id, key_type, long_term, secret, session_id, signature_key, now)
}

pub open spec fn has_dot(s: Seq<char>) -> bool {
    exists|i: int| 0 <= i < s.len() && s[i] == '.'
}

/// The index of the last `'.'` in `s`, or -1 if there is none.
pub open spec fn last_dot(s: Seq<char>) -> int
    decreases s.len(),
{
    if s.len() == 0 {
        -1
    } else if s.last() == '.' {
        s.len() - 1
    } else {
        last_dot(s.drop_last())
    }
}

proof fn lemma_last_dot_at(s: Seq<char>, i: int)
    requires
        0 <= i < s.len(),
        s[i] == '.',
        forall|j: int| i < j < s.len() ==> s[j] != '.',
    ensures
        last_dot(s) == i,
        has_dot(s),
    decreases s.len(),
{
    if i == s.len() - 1 {
    } else {
        assert(s.last() != '.');
        lemma_last_dot_at(s.drop_last(), i);
    }
}

/// The spec-level reading of the optional expected kind.
pub open spec fn opt_chars(v: Option<&str>) -> Option<Seq<char>> {
    match v {
        Some(s) => Some(s@),
        None => None,
    }
}

/// The spec-level reading of an optional owned expected kind.
pub open spec fn opt_string_chars(v: &Option<String>) -> Option<Seq<char>> {
    match v {
        Some(s) => Some(s@),
        None => None,
    }
}

/// What decoding a token returns, step for step: the prefix must be
/// present, the signature segment after the last dot must match the HMAC
/// of the payload segment, the payload must be canonical base64 of valid
/// UTF-8 splitting into exactly five NUL-separated fields with a decimal
/// expiration, and the kind must match the expected one if any; expiry
/// only sets a flag.
pub open spec fn decode_spec(
    t: Seq<char>,
    expected: Option<Seq<char>>,
    key: Seq<char>,
    now: u64,
) -> Result<TokenView, TokenError> {
    if !(t.len() >= 3 && t[0] == 'L' && t[1] == 'V' && t[2] == ' ') {
        Err(TokenError::MalformedToken)
    } else {
        let body = t.skip(3);
        if !has_dot(body) {
            Err(TokenError::MalformedToken)
        } else {
            let payload = body.take(last_dot(body));
            let sig = body.skip(last_dot(body) + 1);
            if sig != hmac_b64_chars(payload, key) {
                Err(TokenError::InvalidSignature)
            } else if !b64_decodable(payload) {
                Err(TokenError::MalformedToken)
            } else if !valid_utf8(b64_decode_spec(payload)) {
                Err(TokenError::MalformedToken)
            } else {
                let parts = split_nul(decode_utf8(b64_decode_spec(payload)));
                if parts.len() != 5 {
                    Err(TokenError::MalformedToken)
                } else if parse_u64_chars(parts[1]) is None {
                    Err(TokenError::MalformedToken)
                } else {
                    let exp = parse_u64_chars(parts[1])->0;
                    if expected is Some && expected->0 != parts[4] {
                        Err(TokenError::WrongTokenKind)
                    } else {
                        Ok(
                            TokenView {
                                user_id: parts[0],
                                is_expired: now > exp,
                                expiration_timestamp: exp,
                                secret: parts[2],
                                key_type: parts[4],
                                session_id: parts[3],
                            },
                        )
                    }
                }
            }
        }
    }
}

/// The view of a decode result.
pub open spec fn token_result_view(r: Result<DecodedToken, TokenError>) -> Result<
    TokenView,
    TokenError,
> {
    match r {
        Ok(d) => Ok(d@),
        Err(e) => Err(e),
    }
}

/// The index of the last `'.'` in `s`, if any.
fn find_last_dot(s: &str) -> (r: Option<usize>)
    ensures
        match r {
            Some(i) => has_dot(s@) && i == last_dot(s@),
            None => !has_dot(s@),
        },
{
    let n = s.unicode_len();
    let mut j: usize = n;
    while j > 0
        invariant
            j <= n,
            n == s@.len(),
            forall|k: int| j <= k < n ==> s@[k] != '.',
        decreases j,
    {
        j = j - 1;
        if s.get_char(j) == '.' {
            proof {
                lemma_last_dot_at(s@, j as int);
            }
            return Some(j);
        }
    }
    None
}

/// Decodes and checks a token as of time `now` (seconds since the Unix
/// epoch); `verify_type`, when given, is the kind the caller will accept.
pub fn decode_token_at(
    token: &str,
    verify_type: Option<&str>,
    signature_key: &str,
    now: u64,
) -> (r: Result<DecodedToken, TokenError>)
    ensures
        token_result_view(r) == decode_spec(token@, opt_chars(verify_type), signature_key@, now),
{
    let n = token.unicode_len();
    if n < 3 || token.get_char(0) != 'L' || token.get_char(1) != 'V' || token.get_char(2) != ' ' {
        return Err(TokenError::MalformedToken);
    }

    let body = token.substring_char(3, n);
    proof {
        assert(body@ =~= token@.skip(3));
    }

    let dot = match find_last_dot(body) {
        Some(i) => i,
        None => {
            return Err(TokenError::MalformedToken);
        },
    };
    proof {
        lemma_last_dot_props(body@);
    }
    let m = body.unicode_len();
    let payload = body.substring_char(0, dot);
    let sig_str = body.substring_char(dot + 1, m);
    proof {
        assert(payload@ =~= body@.take(last_dot(body@)));
        assert(sig_str@ =~= body@.skip(last_dot(body@) + 1));
    }

    if !verify_hmac_b64(payload, sig_str, signature_key) {
        return Err(TokenError::InvalidSignature);
    }

    let decoded = match b64_decode(payload) {
        Ok(bytes) => bytes,
        Err(_) => {
            proof {
                assert(!b64_decodable(payload@));
            }
            return Err(TokenError::MalformedToken);
        },
    };
    proof {
        assert(decoded@ == b64_decode_spec(payload@));
    }

    let payload_str = match string_from_utf8(decoded) {
        Some(s) => s,
        None => {
            return Err(TokenError::MalformedToken);
        },
    };

    let parts = split_on_nul(payload_str.as_str());
    if parts.len() != 5 {
        return Err(TokenError::MalformedToken);
    }

    let expiration_ts = match parse_u64(parts[1].as_str()) {
        Some(v) => v,
        None => {
            return Err(TokenError::MalformedToken);
        },
    };

    if let Some(expected) = verify_type {
        if !str_eq(expected, parts[4].as_str()) {
            return Err(TokenError::WrongTokenKind);
        }
    }

    let is_expired = now > expiration_ts;
    Ok(
        DecodedToken {
            user_id: parts[0].clone(),
            is_expired,
            expiration_timestamp: expiration_ts,
            secret: parts[2].clone(),
            key_type: parts[4].clone(),
            session_id: parts[3].clone(),
        },
    )
}

proof fn lemma_last_dot_props(s: Seq<char>)
    requires
        has_dot(s),
    ensures
        0 <= last_dot(s) < s.len(),
        s[last_dot(s)] == '.',
    decreases s.len(),
{
    if s.len() > 0 {
        if s.last() == '.' {
        } else {
            assert(has_dot(s.drop_last())) by {
                let i = choose|i: int| 0 <= i < s.len() && s[i] == '.';
                assert(s.drop_last()[i] == '.');
            }
            lemma_last_dot_props(s.drop_last());
        }
    }
}

/// Decodes a token against the current wall-clock time.
pub fn decode_token(token: &str, verify_type: Option<String>, signature_key: &str) -> (r: Result<
    DecodedToken,
    TokenError,
>)
    ensures
        exists|now: u64|
            token_result_view(r) == #[trigger] decode_spec(
                token@,
                opt_string_chars(&verify_type),
                signature_key@,
                now,
            ),
{
    let now = now_seconds();
    match &verify_type {
        Some(t) => decode_token_at(token, Some(t.as_str()), signature_key, now),
        None => decode_token_at(token, None, signature_key, now),
    }
}


/// Decoding the exact wire form of a token walks every check through:
/// the fields come back unchanged, and only the kind comparison can
/// still reject it.
pub proof fn lemma_decode_token_chars(
    user_id: Seq<char>,
    expiration: u64,
    secret: Seq<char>,
    session_id: Seq<char>,
    kind: Seq<char>,
    key: Seq<char>,
    expected: Option<Seq<char>>,
    now: u64,
)
    requires
        no_nul(user_id),
        no_nul(secret),
        no_nul(session_id),
        no_nul(kind),
        token_wire_facts(user_id, expiration, secret, session_id, kind, key),
    ensures
        decode_spec(token_chars(user_id, expiration, secret, session_id, kind, key), expected, key, now)
            == (if expected is Some && expected->0 != kind {
            Err::<TokenView, TokenError>(TokenError::WrongTokenKind)
        } else {
            Ok::<TokenView, TokenError>(
                TokenView {
                    user_id,
                    is_expired: now > expiration,
                    expiration_timestamp: expiration,
                    secret,
                    key_type: kind,
                    session_id,
                },
            )
        }),
{
    let pc = payload_chars(user_id, expiration, secret, session_id, kind);
    let p = payload_b64_chars(user_id, expiration, secret, session_id, kind);
    let sig = hmac_b64_chars(p, key);
    let t = token_chars(user_id, expiration, secret, session_id, kind, key);
    assert(t[0] == 'L' && t[1] == 'V' && t[2] == ' ');
    let body = t.skip(3);
    assert(body =~= p + seq!['.'] + sig);
    assert(body[p.len() as int] == '.');
    assert forall|j: int| p.len() < j < body.len() implies body[j] != '.' by {
        assert(body[j] == sig[j - p.len() - 1]);
        assert(is_b64_char(sig[j - p.len() - 1]));
    }
    lemma_last_dot_at(body, p.len() as int);
    assert(body.take(last_dot(body)) =~= p);
    assert(body.skip(last_dot(body) + 1) =~= sig);

    assert(b64_decodable(p));
    assert(b64_decode_spec(p) == encode_utf8(pc));
    vstd::utf8::encode_utf8_valid_utf8(pc);
    vstd::utf8::encode_utf8_decode_utf8(pc);

    crate::decimal::lemma_dec_chars_digits(expiration as nat);
    let dc = dec_chars(expiration as nat);
    assert(no_nul(dc));
    let r3 = session_id + seq!['\0'] + kind;
    let r2 = secret + seq!['\0'] + r3;
    let r1 = dc + seq!['\0'] + r2;
    assert(pc =~= user_id + seq!['\0'] + r1);
    lemma_split_nul_join(user_id, r1);
    lemma_split_nul_join(dc, r2);
    lemma_split_nul_join(secret, r3);
    lemma_split_nul_join(session_id, kind);
    lemma_split_nul_whole(kind);
    assert(split_nul(pc) =~~= seq![user_id, dc, secret, session_id, kind]);
    assert(split_nul(pc).len() == 5);
    assert(split_nul(pc)[1] == dc);

    crate::decimal::lemma_parse_dec_chars(expiration);
}

/// Round trip: a freshly minted token, decoded with the matching expected
/// kind and the same key, yields exactly the fields that were encoded,
/// and `is_expired` is false whenever the check happens no later than the
/// expiration time. The `token_wire_facts` hypothesis is exactly what
/// `generate_token_at` ensures of every token it mints.
pub proof fn lemma_token_round_trip(
    user_id: Seq<char>,
    long_term: bool,
    secret: Seq<char>,
    session_id: Seq<char>,
    kind: Seq<char>,
    key: Seq<char>,
    now_issue: u64,
    now_check: u64,
)
    requires
        no_nul(user_id),
        no_nul(secret),
        no_nul(session_id),
        no_nul(kind),
        now_issue <= u64::MAX - REFRESH_TOKEN_LIFETIME_SECONDS,
        token_wire_facts(
            user_id,
            spec_expiration(long_term, now_issue),
            secret,
            session_id,
            kind,
            key,
        ),
    ensures
        ({
            let exp = spec_expiration(long_term, now_issue);
            decode_spec(
                token_chars(user_id, exp, secret, session_id, kind, key),
                Some(kind),
                key,
                now_check,
            ) == Ok::<TokenView, TokenError>(
                TokenView {
                    user_id,
                    is_expired: now_check > exp,
                    expiration_timestamp: exp,
                    secret,
                    key_type: kind,
                    session_id,
                },
            )
        }),
{
    lemma_decode_token_chars(
        user_id,
        spec_expiration(long_term, now_issue),
        secret,
        session_id,
        kind,
        key,
        Some(kind),
        now_check,
    );
}

/// Expiry boundary: a token is reported unexpired one second before its
/// expiration time, and expired one second after it. The
/// `token_wire_facts` hypothesis is what `generate_token_at` ensures.
pub proof fn lemma_expiry_boundary(
    user_id: Seq<char>,
    long_term: bool,
    secret: Seq<char>,
    session_id: Seq<char>,
    kind: Seq<char>,
    key: Seq<char>,
    now_issue: u64,
)
    requires
        no_nul(user_id),
        no_nul(secret),
        no_nul(session_id),
        no_nul(kind),
        now_issue <= u64::MAX - REFRESH_TOKEN_LIFETIME_SECONDS,
        token_wire_facts(
            user_id,
            spec_expiration(long_term, now_issue),
            secret,
            session_id,
            kind,
            key,
        ),
    ensures
        ({
            let exp = spec_expiration(long_term, now_issue);
            let t = token_chars(user_id, exp, secret, session_id, kind, key);
            &&& (decode_spec(t, Some(kind), key, (exp - 1) as u64) matches Ok(d) && !d.is_expired)
            &&& exp < u64::MAX ==> (decode_spec(t, Some(kind), key, (exp + 1) as u64) matches Ok(d)
                && d.is_expired)
        }),
{
    let exp = spec_expiration(long_term, now_issue);
    lemma_decode_token_chars(
        user_id,
        exp,
        secret,
        session_id,
        kind,
        key,
        Some(kind),
        (exp - 1) as u64,
    );
    if exp < u64::MAX {
        lemma_decode_token_chars(
            user_id,
            exp,
            secret,
            session_id,
            kind,
            key,
            Some(kind),
            (exp + 1) as u64,
        );
    }
}

/// Kind enforcement: a token decoded with a different expected kind than
/// the one it carries fails with `WrongTokenKind`. The
/// `token_wire_facts` hypothesis is what `generate_token_at` ensures.
pub proof fn lemma_wrong_kind_rejected(
    user_id: Seq<char>,
    expiration: u64,
    secret: Seq<char>,
    session_id: Seq<char>,
    kind: Seq<char>,
    expected: Seq<char>,
    key: Seq<char>,
    now: u64,
)
    requires
        no_nul(user_id),
        no_nul(secret),
        no_nul(session_id),
        no_nul(kind),
        token_wire_facts(user_id, expiration, secret, session_id, kind, key),
        expected != kind,
    ensures
        decode_spec(
            token_chars(user_id, expiration, secret, session_id, kind, key),
            Some(expected),
            key,
            now,
        ) == Err::<TokenView, TokenError>(TokenError::WrongTokenKind),
{
    lemma_decode_token_chars(
        user_id,
        expiration,
        secret,
        session_id,
        kind,
        key,
        Some(expected),
        now,
    );
}

/// Tamper detection, for the signature segment: replacing it with
/// anything that is not the HMAC of the payload segment makes decoding
/// fail with `InvalidSignature`, whatever the rest of the token says. A
/// tampered payload is likewise rejected unless its forged signature
/// matches the HMAC of the tampered payload; that no such signature can
/// be produced without the key is collision resistance of HMAC itself,
/// which these contracts do not model.
pub proof fn lemma_signature_tamper(
    user_id: Seq<char>,
    expiration: u64,
    secret: Seq<char>,
    session_id: Seq<char>,
    kind: Seq<char>,
    key: Seq<char>,
    forged: Seq<char>,
    expected: Option<Seq<char>>,
    now: u64,
)
    requires
        token_wire_facts(user_id, expiration, secret, session_id, kind, key),
        forall|i: int| 0 <= i < forged.len() ==> #[trigger] forged[i] != '.',
        forged != hmac_b64_chars(
            payload_b64_chars(user_id, expiration, secret, session_id, kind),
            key,
        ),
    ensures
        decode_spec(
            lv_prefix() + payload_b64_chars(user_id, expiration, secret, session_id, kind)
                + seq!['.'] + forged,
            expected,
            key,
            now,
        ) == Err::<TokenView, TokenError>(TokenError::InvalidSignature),
{
    let p = payload_b64_chars(user_id, expiration, secret, session_id, kind);
    let t = lv_prefix() + p + seq!['.'] + forged;
    assert(t[0] == 'L' && t[1] == 'V' && t[2] == ' ');
    let body = t.skip(3);
    assert(body =~= p + seq!['.'] + forged);
    assert(body[p.len() as int] == '.');
    assert forall|j: int| p.len() < j < body.len() implies body[j] != '.' by {
        assert(body[j] == forged[j - p.len() - 1]);
    }
    lemma_last_dot_at(body, p.len() as int);
    assert(body.take(last_dot(body)) =~= p);
    assert(body.skip(last_dot(body) + 1) =~= forged);
}

} // verus!
