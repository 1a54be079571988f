//! Sessions: one rotating secret per `(user_id, session_id)`, the token
//! pairs minted against it, and authentication of presented tokens.
//!
//! The secret store is modelled as a map from `(user_id, session_id)` to
//! the session's one current secret; putting a new secret for a key
//! supersedes the old one atomically, deleting the key revokes the
//! session. `authenticate_spec` states exactly when a presented token is
//! accepted: it must decode, be unexpired, and carry the secret the store
//! currently holds for its session.

use crate::clock::now_seconds;
use crate::decimal::u64_to_dec_string;
use crate::security::{
    decode_spec, decode_token_at, generate_key, generate_token_at, lemma_decode_token_chars,
    opt_chars, spec_expiration, token_chars, token_wire_facts, TokenError,
    REFRESH_TOKEN_LIFETIME_SECONDS,
};
use crate::snowflake::SnowflakeGenerator;
use crate::strutil::{no_nul, str_eq};
use vstd::prelude::*;

verus! {

/// The kind string carried by short-lived tokens.
pub open spec fn access_kind() -> Seq<char> {
    seq!['a', 'c', 'c', 'e', 's', 's']
}

/// The kind string carried by long-lived tokens.
pub open spec fn refresh_kind() -> Seq<char> {
    seq!['r', 'e', 'f', 'r', 'e', 's', 'h']
}

/// The pair every login and refresh hands out: both tokens carry the same
/// session id and secret.
#[derive(Debug, Clone)]
pub struct Tokens {
    pub refresh: String,
    pub access: String,
}

/// The identity a successfully authenticated request acts as.
#[derive(Debug, Clone)]
pub struct AuthSession {
    pub user_id: String,
    pub session_id: String,
}

pub struct AuthSessionView {
    pub user_id: Seq<char>,
    pub session_id: Seq<char>,
}

impl View for AuthSession {
    type V = AuthSessionView;

    open spec fn view(&self) -> AuthSessionView {
        AuthSessionView { user_id: self.user_id@, session_id: self.session_id@ }
    }
}

/// Why authentication failed. The first three mirror the token decode
/// errors; `ExpiredToken` is a structurally valid token past its time;
/// `StaleSecret` is one whose session was rotated or revoked after it was
/// issued.
#[derive(Clone, Copy, Debug, PartialEq, Eq, Structural)]
pub enum AuthError {
    MalformedToken,
    InvalidSignature,
    WrongTokenKind,
    ExpiredToken,
    StaleSecret,
}

struct SessionRecord {
    user_id: String,
    session_id: String,
    secret: String,
}

spec fn rec_key(r: SessionRecord) -> (Seq<char>, Seq<char>) {
    (r.user_id@, r.session_id@)
}

spec fn unique_keys(rs: Seq<SessionRecord>) -> bool {
    forall|i: int, j: int|
        0 <= i < j < rs.len() ==> rec_key(#[trigger] rs[i]) != rec_key(#[trigger] rs[j])
}

spec fn records_map(rs: Seq<SessionRecord>) -> Map<(Seq<char>, Seq<char>), Seq<char>>
    decreases rs.len(),
{
    if rs.len() == 0 {
        Map::empty()
    } else {
        records_map(rs.drop_last()).insert(rec_key(rs.last()), rs.last().secret@)
    }
}

proof fn lemma_records_map_props(rs: Seq<SessionRecord>)
    requires
        unique_keys(rs),
    ensures
        forall|k: (Seq<char>, Seq<char>)|
            #[trigger] records_map(rs).contains_key(k) <==> exists|i: int|
                0 <= i < rs.len() && rec_key(#[trigger] rs[i]) == k,
        forall|i: int|
            0 <= i < rs.len() ==> records_map(rs)[rec_key(#[trigger] rs[i])] == rs[i].secret@,
    decreases rs.len(),
{
    if rs.len() > 0 {
        let dl = rs.drop_last();
        lemma_records_map_props(dl);
        assert forall|k: (Seq<char>, Seq<char>)| #[trigger]
            records_map(rs).contains_key(k) implies exists|i: int|
            0 <= i < rs.len() && rec_key(#[trigger] rs[i]) == k by {
            if k == rec_key(rs.last()) {
                assert(rec_key(rs[rs.len() - 1]) == k);
            } else {
                assert(records_map(dl).contains_key(k));
                let i = choose|i: int| 0 <= i < dl.len() && rec_key(#[trigger] dl[i]) == k;
                assert(dl[i] == rs[i]);
                assert(rec_key(rs[i]) == k);
            }
        }
        assert forall|k: (Seq<char>, Seq<char>)|
            exists|i: int| 0 <= i < rs.len() && rec_key(#[trigger] rs[i]) == k implies #[trigger]
            records_map(rs).contains_key(k) by {
            let i = choose|i: int| 0 <= i < rs.len() && rec_key(#[trigger] rs[i]) == k;
            if i < rs.len() - 1 {
                assert(rec_key(dl[i]) == k);
            }
        }
        assert forall|i: int| 0 <= i < rs.len() implies records_map(rs)[rec_key(
            #[trigger] rs[i],
        )] == rs[i].secret@ by {
            if i < rs.len() - 1 {
                assert(rec_key(rs[i]) != rec_key(rs[rs.len() - 1]));
                assert(dl[i] == rs[i]);
            }
        }
    }
}

proof fn lemma_unique_remove(rs: Seq<SessionRecord>, i: int)
    requires
        unique_keys(rs),
        0 <= i < rs.len(),
    ensures
        unique_keys(rs.remove(i)),
{
    let rr = rs.remove(i);
    assert forall|a: int, b: int| 0 <= a < b < rr.len() implies rec_key(#[trigger] rr[a])
        != rec_key(#[trigger] rr[b]) by {
        let a0 = if a < i {
            a
        } else {
            a + 1
        };
        let b0 = if b < i {
            b
        } else {
            b + 1
        };
        assert(rr[a] == rs[a0] && rr[b] == rs[b0]);
    }
}

proof fn lemma_records_map_remove(rs: Seq<SessionRecord>, i: int)
    requires
        unique_keys(rs),
        0 <= i < rs.len(),
    ensures
        records_map(rs.remove(i)) == records_map(rs).remove(rec_key(rs[i])),
    decreases rs.len(),
{
    let dl = rs.drop_last();
    lemma_records_map_props(dl);
    if i == rs.len() - 1 {
        assert(rs.remove(i) =~= dl);
        assert(!records_map(dl).contains_key(rec_key(rs.last())));
        assert(records_map(rs.remove(i)) =~= records_map(rs).remove(rec_key(rs[i])));
    } else {
        lemma_unique_remove(rs, rs.len() - 1);
        lemma_records_map_remove(dl, i);
        assert(rs.remove(i).drop_last() =~= dl.remove(i));
        assert(rs.remove(i).last() == rs.last());
        assert(rec_key(rs[i]) != rec_key(rs.last()));
        assert(records_map(rs.remove(i)) =~= records_map(rs).remove(rec_key(rs[i])));
    }
}

/// The secret store: at most one live secret per `(user_id, session_id)`.
/// Its view is the map from those keys to the current secrets.
pub struct SecretStore {
    records: Vec<SessionRecord>,
}

impl View for SecretStore {
    type V = Map<(Seq<char>, Seq<char>), Seq<char>>;

    closed spec fn view(&self) -> Map<(Seq<char>, Seq<char>), Seq<char>> {
        records_map(self.records@)
    }
}

impl SecretStore {
    pub closed spec fn wf(&self) -> bool {
        unique_keys(self.records@)
    }

    pub fn new() -> (r: SecretStore)
        ensures
            r.wf(),
            r@ == Map::<(Seq<char>, Seq<char>), Seq<char>>::empty(),
    {
        proof {
            assert(records_map(Seq::<SessionRecord>::empty()) =~= Map::<
                (Seq<char>, Seq<char>),
                Seq<char>,
            >::empty());
        }
        let r = SecretStore { records: Vec::new() };
        proof {
            assert(r.records@ =~= Seq::<SessionRecord>::empty());
        }
        r
    }

    fn find(&self, user_id: &str, session_id: &str) -> (r: Option<usize>)
        requires
            self.wf(),
        ensures
            match r {
                Some(i) => i < self.records@.len() && rec_key(self.records@[i as int]) == (
                user_id@,
                session_id@,
                ),
                None => forall|i: int|
                    0 <= i < self.records@.len() ==> rec_key(#[trigger] self.records@[i]) != (
                    user_id@,
                    session_id@,
                    ),
            },
    {
        let n = self.records.len();
        let mut i: usize = 0;
        while i < n
            invariant
                i <= n,
                n == self.records@.len(),
                forall|j: int|
                    0 <= j < i ==> rec_key(#[trigger] self.records@[j]) != (user_id@, session_id@),
            decreases n - i,
        {
            let rec = &self.records[i];
            if str_eq(rec.user_id.as_str(), user_id) && str_eq(rec.session_id.as_str(), session_id)
            {
                return Some(i);
            }
            i = i + 1;
        }
        None
    }

    /// The current secret for a session, if the session is live.
    pub fn get(&self, user_id: &str, session_id: &str) -> (r: Option<&String>)
        requires
            self.wf(),
        ensures
            r is Some <==> self@.contains_key((user_id@, session_id@)),
            r is Some ==> r->0@ == self@[(user_id@, session_id@)],
    {
        proof {
            lemma_records_map_props(self.records@);
        }
        match self.find(user_id, session_id) {
            Some(i) => Some(&self.records[i].secret),
            None => None,
        }
    }

    /// Stores `secret` as the one current secret of the session,
    /// superseding any previous one.
    pub fn put(&mut self, user_id: &str, session_id: &str, secret: String)
        requires
            old(self).wf(),
        ensures
            final(self).wf(),
            final(self)@ == old(self)@.insert((user_id@, session_id@), secret@),
    {
        self.delete(user_id, session_id);
        let ghost mid = self.records@;
        let user_id_owned = user_id.to_owned();
        let session_id_owned = session_id.to_owned();
        self.records.push(
            SessionRecord { user_id: user_id_owned, session_id: session_id_owned, secret },
        );
        proof {
            let k = (user_id@, session_id@);
            lemma_records_map_props(mid);
            assert(!records_map(mid).contains_key(k));
            assert(self.records@.drop_last() =~= mid);
            assert forall|a: int, b: int| 0 <= a < b < self.records@.len() implies rec_key(
                #[trigger] self.records@[a],
            ) != rec_key(#[trigger] self.records@[b]) by {
                if b == self.records@.len() - 1 {
                    assert(self.records@[a] == mid[a]);
                    assert(rec_key(mid[a]) != k);
                    assert(rec_key(self.records@[b]) == k);
                } else {
                    assert(self.records@[a] == mid[a] && self.records@[b] == mid[b]);
                }
            }
            assert(rec_key(self.records@.last()) == k);
            assert(final(self)@ =~= old(self)@.insert(k, secret@));
        }
    }

    /// Removes the session's record, if any; the session is revoked from
    /// then on.
    pub fn delete(&mut self, user_id: &str, session_id: &str)
        requires
            old(self).wf(),
        ensures
            final(self).wf(),
            final(self)@ == old(self)@.remove((user_id@, session_id@)),
    {
        proof {
            lemma_records_map_props(self.records@);
        }
        match self.find(user_id, session_id) {
            Some(i) => {
                proof {
                    lemma_unique_remove(self.records@, i as int);
                    lemma_records_map_remove(self.records@, i as int);
                }
                self.records.remove(i);
            },
            None => {
                proof {
                    assert(!old(self)@.contains_key((user_id@, session_id@)));
                    assert(final(self)@ =~= old(self)@.remove((user_id@, session_id@)));
                }
            },
        }
    }
}

/// Whether the store holds exactly this secret for the session: the live
/// check every protected request makes after decoding its token.
pub fn check_session_secret(
    user_id: &str,
    session_id: &str,
    secret: &str,
    store: &SecretStore,
) -> (r: bool)
    requires
        store.wf(),
    ensures
        r == (store@.contains_key((user_id@, session_id@)) && store@[(user_id@, session_id@)]
            == secret@),
{
    match store.get(user_id, session_id) {
        Some(current) => str_eq(current.as_str(), secret),
        None => false,
    }
}

/// Deletes the session's store record; tokens carrying this session id
/// keep their valid signatures but fail the live secret check thereafter.
pub fn remove_session(session_id: &str, user_id: &str, store: &mut SecretStore)
    requires
        old(store).wf(),
    ensures
        final(store).wf(),
        final(store)@ == old(store)@.remove((user_id@, session_id@)),
{
    store.delete(user_id, session_id);
}

/// Mints the access and refresh pair for a session and stores its secret:
/// the deterministic core of login, taking the freshly drawn secret,
/// session id and clock reading as arguments.
pub fn issue_token_pair(
    user_id: &str,
    secret: &str,
    session_id: &str,
    signature_key: &str,
    now: u64,
    store: &mut SecretStore,
) -> (r: Tokens)
    requires
        old(store).wf(),
        now <= u64::MAX - REFRESH_TOKEN_LIFETIME_SECONDS,
    ensures
        final(store).wf(),
        final(store)@ == old(store)@.insert((user_id@, session_id@), secret@),
        r.access@ == token_chars(
            user_id@,
            spec_expiration(false, now),
            secret@,
            session_id@,
            access_kind(),
            signature_key@,
        ),
        r.refresh@ == token_chars(
            user_id@,
            spec_expiration(true, now),
            secret@,
            session_id@,
            refresh_kind(),
            signature_key@,
        ),
        token_wire_facts(
            user_id@,
            spec_expiration(false, now),
            secret@,
            session_id@,
            access_kind(),
            signature_key@,
        ),
        token_wire_facts(
            user_id@,
            spec_expiration(true, now),
            secret@,
            session_id@,
            refresh_kind(),
            signature_key@,
        ),
{
    proof {
        reveal_strlit("access");
        reveal_strlit("refresh");
        assert(("access")@ =~= access_kind());
        assert(("refresh")@ =~= refresh_kind());
    }
    let refresh = generate_token_at(
        user_id,
        "refresh",
        true,
        secret,
        session_id,
        signature_key,
        now,
    );
    let access = generate_token_at(user_id, "access", false, secret, session_id, signature_key, now);
    store.put(user_id, session_id, secret.to_owned());
    Tokens { refresh, access }
}

/// Replaces the session's secret and mints a new pair under it: the
/// deterministic core of refresh. The store record is updated in place
/// when the session exists and left untouched otherwise, as the row
/// update it models would be.
pub fn rotate_token_pair(
    user_id: &str,
    session_id: &str,
    new_secret: &str,
    signature_key: &str,
    now: u64,
    store: &mut SecretStore,
) -> (r: Tokens)
    requires
        old(store).wf(),
        now <= u64::MAX - REFRESH_TOKEN_LIFETIME_SECONDS,
    ensures
        final(store).wf(),
        final(store)@ == (if old(store)@.contains_key((user_id@, session_id@)) {
            old(store)@.insert((user_id@, session_id@), new_secret@)
        } else {
            old(store)@
        }),
        r.access@ == token_chars(
            user_id@,
            spec_expiration(false, now),
            new_secret@,
            session_id@,
            access_kind(),
            signature_key@,
        ),
        r.refresh@ == token_chars(
            user_id@,
            spec_expiration(true, now),
            new_secret@,
            session_id@,
            refresh_kind(),
            signature_key@,
        ),
        token_wire_facts(
            user_id@,
            spec_expiration(false, now),
            new_secret@,
            session_id@,
            access_kind(),
            signature_key@,
        ),
        token_wire_facts(
            user_id@,
            spec_expiration(true, now),
            new_secret@,
            session_id@,
            refresh_kind(),
            signature_key@,
        ),
{
    proof {
        reveal_strlit("access");
        reveal_strlit("refresh");
        assert(("access")@ =~= access_kind());
        assert(("refresh")@ =~= refresh_kind());
    }
    let refresh = generate_token_at(
        user_id,
        "refresh",
        true,
        new_secret,
        session_id,
        signature_key,
        now,
    );
    let access = generate_token_at(
        user_id,
        "access",
        false,
        new_secret,
        session_id,
        signature_key,
        now,
    );
    let exists_already = match store.get(user_id, session_id) {
        Some(_) => true,
        None => false,
    };
    if exists_already {
        store.put(user_id, session_id, new_secret.to_owned());
    }
    Tokens { refresh, access }
}


/// When a presented token is accepted, step for step: it must decode
/// against the key and the expected kind, be unexpired, and carry
/// exactly the secret the store currently holds for its session.
pub open spec fn authenticate_spec(
    t: Seq<char>,
    expected: Option<Seq<char>>,
    key: Seq<char>,
    now: u64,
    store: Map<(Seq<char>, Seq<char>), Seq<char>>,
) -> Result<AuthSessionView, AuthError> {
    match decode_spec(t, expected, key, now) {
        Err(TokenError::MalformedToken) => Err(AuthError::MalformedToken),
        Err(TokenError::InvalidSignature) => Err(AuthError::InvalidSignature),
        Err(TokenError::WrongTokenKind) => Err(AuthError::WrongTokenKind),
        Ok(d) => {
            if d.is_expired {
                Err(AuthError::ExpiredToken)
            } else if !(store.contains_key((d.user_id, d.session_id)) && store[
                (d.user_id, d.session_id)
            ] == d.secret) {
                Err(AuthError::StaleSecret)
            } else {
                Ok(AuthSessionView { user_id: d.user_id, session_id: d.session_id })
            }
        },
    }
}

/// The view of an authentication result.
pub open spec fn auth_result_view(r: Result<AuthSession, AuthError>) -> Result<
    AuthSessionView,
    AuthError,
> {
    match r {
        Ok(s) => Ok(s@),
        Err(e) => Err(e),
    }
}

/// Authenticates a presented token as of time `now`: decode, expiry
/// check, then the live comparison against the store's current secret.
pub fn authenticate_at(
    token: &str,
    expected_kind: Option<&str>,
    signature_key: &str,
    now: u64,
    store: &SecretStore,
) -> (r: Result<AuthSession, AuthError>)
    requires
        store.wf(),
    ensures
        auth_result_view(r) == authenticate_spec(
            token@,
            opt_chars(expected_kind),
            signature_key@,
            now,
            store@,
        ),
{
    let decoded = match decode_token_at(token, expected_kind, signature_key, now) {
        Ok(d) => d,
        Err(TokenError::MalformedToken) => {
            return Err(AuthError::MalformedToken);
        },
        Err(TokenError::InvalidSignature) => {
            return Err(AuthError::InvalidSignature);
        },
        Err(TokenError::WrongTokenKind) => {
            return Err(AuthError::WrongTokenKind);
        },
    };
    if decoded.is_expired {
        return Err(AuthError::ExpiredToken);
    }
    if !check_session_secret(
        decoded.user_id.as_str(),
        decoded.session_id.as_str(),
        decoded.secret.as_str(),
        store,
    ) {
        return Err(AuthError::StaleSecret);
    }
    Ok(AuthSession { user_id: decoded.user_id, session_id: decoded.session_id })
}

/// Authenticates a presented token against the current wall-clock time.
pub fn authenticate(
    token: &str,
    expected_kind: Option<&str>,
    signature_key: &str,
    store: &SecretStore,
) -> (r: Result<AuthSession, AuthError>)
    requires
        store.wf(),
    ensures
        exists|now: u64|
            auth_result_view(r) == #[trigger] authenticate_spec(
                token@,
                opt_chars(expected_kind),
                signature_key@,
                now,
                store@,
            ),
{
    let now = now_seconds();
    authenticate_at(token, expected_kind, signature_key, now, store)
}

/// Login's token minting: draws a fresh random secret and a fresh session
/// id, stores the secret, and mints the pair. `None` only if the random
/// source fails or the clock stays unusable.
pub fn create_tokens(
    user_id: &str,
    generator: &mut SnowflakeGenerator,
    store: &mut SecretStore,
    signature_key: &str,
) -> (r: Option<Tokens>)
    requires
        old(generator).wf(),
        old(store).wf(),
    ensures
        final(generator).wf(),
        final(store).wf(),
        final(generator).spec_server_id() == old(generator).spec_server_id(),
        final(generator).spec_worker_id() == old(generator).spec_worker_id(),
        r is None ==> final(store)@ == old(store)@,
        r is Some ==> exists|secret: Seq<char>, session_id: Seq<char>, now: u64|
            {
                &&& no_nul(secret)
                &&& no_nul(session_id)
                &&& now <= u64::MAX - REFRESH_TOKEN_LIFETIME_SECONDS
                &&& final(store)@ == old(store)@.insert((user_id@, session_id), secret)
                &&& r->0.access@ == #[trigger] token_chars(
                    user_id@,
                    spec_expiration(false, now),
                    secret,
                    session_id,
                    access_kind(),
                    signature_key@,
                )
                &&& r->0.refresh@ == token_chars(
                    user_id@,
                    spec_expiration(true, now),
                    secret,
                    session_id,
                    refresh_kind(),
                    signature_key@,
                )
                &&& token_wire_facts(
                    user_id@,
                    spec_expiration(false, now),
                    secret,
                    session_id,
                    access_kind(),
                    signature_key@,
                )
                &&& token_wire_facts(
                    user_id@,
                    spec_expiration(true, now),
                    secret,
                    session_id,
                    refresh_kind(),
                    signature_key@,
                )
            },
{
    let secret = match generate_key(16) {
        Some(s) => s,
        None => {
            return None;
        },
    };
    let id = match generator.generate() {
        Some(id) => id,
        None => {
            return None;
        },
    };
    let session_id = u64_to_dec_string(id);
    let mut now = now_seconds();
    if now > u64::MAX - REFRESH_TOKEN_LIFETIME_SECONDS {
        now = u64::MAX - REFRESH_TOKEN_LIFETIME_SECONDS;
    }
    proof {
        assert forall|i: int| 0 <= i < secret@.len() implies #[trigger] secret@[i] != '\0' by {
            assert(crate::b64::is_b64_char(secret@[i]));
        }
        crate::decimal::lemma_dec_chars_digits(id as nat);
    }
    let tokens = issue_token_pair(
        user_id,
        secret.as_str(),
        session_id.as_str(),
        signature_key,
        now,
        store,
    );
    Some(tokens)
}

/// Refresh's token minting: draws a fresh random secret, overwrites the
/// session's store record in place (the session id persists), and mints
/// a new pair. `None` only if the random source fails.
pub fn update_tokens(
    user_id: &str,
    session_id: &str,
    store: &mut SecretStore,
    signature_key: &str,
) -> (r: Option<Tokens>)
    requires
        old(store).wf(),
    ensures
        final(store).wf(),
        r is None ==> final(store)@ == old(store)@,
        r is Some ==> exists|secret: Seq<char>, now: u64|
            {
                &&& no_nul(secret)
                &&& now <= u64::MAX - REFRESH_TOKEN_LIFETIME_SECONDS
                &&& final(store)@ == (if old(store)@.contains_key((user_id@, session_id@)) {
                    old(store)@.insert((user_id@, session_id@), secret)
                } else {
                    old(store)@
                })
                &&& r->0.access@ == #[trigger] token_chars(
                    user_id@,
                    spec_expiration(false, now),
                    secret,
                    session_id@,
                    access_kind(),
                    signature_key@,
                )
                &&& r->0.refresh@ == token_chars(
                    user_id@,
                    spec_expiration(true, now),
                    secret,
                    session_id@,
                    refresh_kind(),
                    signature_key@,
                )
                &&& token_wire_facts(
                    user_id@,
                    spec_expiration(false, now),
                    secret,
                    session_id@,
                    access_kind(),
                    signature_key@,
                )
                &&& token_wire_facts(
                    user_id@,
                    spec_expiration(true, now),
                    secret,
                    session_id@,
                    refresh_kind(),
                    signature_key@,
                )
            },
{
    let secret = match generate_key(16) {
        Some(s) => s,
        None => {
            return None;
        },
    };
    let mut now = now_seconds();
    if now > u64::MAX - REFRESH_TOKEN_LIFETIME_SECONDS {
        now = u64::MAX - REFRESH_TOKEN_LIFETIME_SECONDS;
    }
    proof {
        assert forall|i: int| 0 <= i < secret@.len() implies #[trigger] secret@[i] != '\0' by {
            assert(crate::b64::is_b64_char(secret@[i]));
        }
    }
    let tokens = rotate_token_pair(
        user_id,
        session_id,
        secret.as_str(),
        signature_key,
        now,
        store,
    );
    Some(tokens)
}

/// An unexpired token whose secret the store still holds authenticates
/// as exactly its user and session. The `token_wire_facts` hypothesis is
/// what `issue_token_pair` and `rotate_token_pair` ensure of every token
/// they mint.
pub proof fn lemma_fresh_token_authenticates(
    user_id: Seq<char>,
    expiration: u64,
    secret: Seq<char>,
    session_id: Seq<char>,
    kind: Seq<char>,
    key: Seq<char>,
    now: u64,
    store: Map<(Seq<char>, Seq<char>), Seq<char>>,
)
    requires
        no_nul(user_id),
        no_nul(secret),
        no_nul(session_id),
        no_nul(kind),
        token_wire_facts(user_id, expiration, secret, session_id, kind, key),
        now <= expiration,
        store.contains_key((user_id, session_id)),
        store[(user_id, session_id)] == secret,
    ensures
        authenticate_spec(
            token_chars(user_id, expiration, secret, session_id, kind, key),
            Some(kind),
            key,
            now,
            store,
        ) == Ok::<AuthSessionView, AuthError>(AuthSessionView { user_id, session_id }),
{
    lemma_decode_token_chars(user_id, expiration, secret, session_id, kind, key, Some(kind), now);
}

/// Secret rotation revokes prior tokens: once the store maps the session
/// to a different secret, a token issued under the old secret fails with
/// `StaleSecret`, even though its signature is valid and it has not
/// expired. (A rotation that happened to draw the same secret again
/// would not revoke; the hypotheses require the secrets to differ.)
pub proof fn lemma_rotation_revokes(
    user_id: Seq<char>,
    expiration: u64,
    old_secret: Seq<char>,
    new_secret: Seq<char>,
    session_id: Seq<char>,
    kind: Seq<char>,
    key: Seq<char>,
    now: u64,
    store: Map<(Seq<char>, Seq<char>), Seq<char>>,
)
    requires
        no_nul(user_id),
        no_nul(old_secret),
        no_nul(session_id),
        no_nul(kind),
        token_wire_facts(user_id, expiration, old_secret, session_id, kind, key),
        now <= expiration,
        new_secret != old_secret,
    ensures
        authenticate_spec(
            token_chars(user_id, expiration, old_secret, session_id, kind, key),
            Some(kind),
            key,
            now,
            store.insert((user_id, session_id), new_secret),
        ) == Err::<AuthSessionView, AuthError>(AuthError::StaleSecret),
{
    lemma_decode_token_chars(user_id, expiration, old_secret, session_id, kind, key, Some(kind), now);
}

/// Logout revokes: once the session's record is gone from the store, a
/// token carrying that session id fails with `StaleSecret` although its
/// signature and expiry still pass.
pub proof fn lemma_logout_revokes(
    user_id: Seq<char>,
    expiration: u64,
    secret: Seq<char>,
    session_id: Seq<char>,
    kind: Seq<char>,
    key: Seq<char>,
    now: u64,
    store: Map<(Seq<char>, Seq<char>), Seq<char>>,
)
    requires
        no_nul(user_id),
        no_nul(secret),
        no_nul(session_id),
        no_nul(kind),
        token_wire_facts(user_id, expiration, secret, session_id, kind, key),
        now <= expiration,
    ensures
        authenticate_spec(
            token_chars(user_id, expiration, secret, session_id, kind, key),
            Some(kind),
            key,
            now,
            store.remove((user_id, session_id)),
        ) == Err::<AuthSessionView, AuthError>(AuthError::StaleSecret),
{
    lemma_decode_token_chars(user_id, expiration, secret, session_id, kind, key, Some(kind), now);
}

} // verus!
