//! Credential store, session registry and the authentication manager that
//! composes them: signup, login, access codes, validation, revocation and
//! the periodic sweep.

use argon2::password_hash::{rand_core::OsRng, SaltString};
use argon2::{Argon2, PasswordHash, PasswordHasher, PasswordVerifier};
use vstd::hash_map::StringHashMap;
use vstd::prelude::*;
use vstd::utf8::encode_utf8;

use crate::protocol::unix_time_millis;
use crate::security::{is_token_text, random_token};
use crate::text::{ascii_string, ascii_text, is_ascii_bytes};

verus! {

/// Lifetime of a login session, in seconds.
pub const SESSION_TTL_SECS: u64 = 3600;

/// Lifetime of an access code, in seconds.
pub const ACCESS_CODE_TTL_SECS: u64 = 300;

/// Draws of a random token before a login gives up on finding an unused one.
pub const TOKEN_DRAWS: usize = 4;

/// Draws of a random access code before issuing gives up on finding an
/// unused one.
pub const ACCESS_CODE_DRAWS: usize = 16;

/// Text of the error when the access code drawn is already in use.
pub const CODE_UNAVAILABLE: &'static str = "access code unavailable";

/// Start of every PHC string that Argon2id hashing produces.
pub const ARGON2ID_PREFIX: &'static str = "$argon2id";

/// Number of digits of an access code.
pub const ACCESS_CODE_DIGITS: usize = 6;

/// Whether Argon2 verification accepts a password against a PHC hash string.
pub uninterp spec fn argon2_verifies(password: Seq<u8>, phc: Seq<char>) -> bool;

/// A PHC string of Argon2id: it starts with `$argon2id`.
pub open spec fn is_argon2id_phc(h: Seq<char>) -> bool {
    h.len() >= ARGON2ID_PREFIX@.len() && h.take(ARGON2ID_PREFIX@.len() as int) == ARGON2ID_PREFIX@
}

/// Relies on argon2's `PasswordHasher::hash_password` with the default
/// parameters and a salt from `SaltString::generate` on the operating
/// system's random source. Whatever the salt, the PHC string produced
/// verifies the password it was made from; with these parameters and a
/// generated salt, hashing fails only on a password longer than
/// `u32::MAX` bytes. The default algorithm is Argon2id, and the PHC string
/// starts with `$` and the algorithm's name.
#[verifier::external_body]
fn argon2_hash(password: &[u8]) -> (r: Option<String>)
    ensures
        r matches Some(h) ==> argon2_verifies(password@, h@),
        r matches Some(h) ==> is_argon2id_phc(h@),
        password@.len() <= u32::MAX ==> r is Some,
{
    let salt = SaltString::generate(&mut OsRng);
    Argon2::default().hash_password(password, &salt).ok().map(|h| h.to_string())
}

/// Relies on argon2's `PasswordVerifier::verify_password`, after parsing the
/// stored string with `PasswordHash::new`; a string that does not parse
/// verifies nothing.
#[verifier::external_body]
fn argon2_check(password: &[u8], phc: &str) -> (r: bool)
    ensures
        r == argon2_verifies(password@, phc@),
{
    match PasswordHash::new(phc) {
        Ok(parsed) => Argon2::default().verify_password(password, &parsed).is_ok(),
        Err(_) => false,
    }
}

/// Relies on rand's `random`, here for a `u32`: nothing is known of the value.
pub assume_specification<T>[ rand::random::<T> ]() -> (r: T)
    where
        rand::distributions::Standard: rand::distributions::Distribution<T>,
;

/// Whole seconds since the Unix epoch, by the system clock.
pub(crate) fn unix_time_secs() -> (r: u64) {
    unix_time_millis() / 1000
}

/// An issued session token or access code, with its owner and lifetime.
/// Times are whole seconds since the Unix epoch.
#[derive(Debug)]
pub struct Session {
    pub token: String,
    pub user_id: String,
    pub created_at: u64,
    pub expires_at: u64,
    pub is_active: bool,
}

impl Clone for Session {
    fn clone(&self) -> (r: Self)
        ensures
            r == *self,
    {
        Session {
            token: self.token.clone(),
            user_id: self.user_id.clone(),
            created_at: self.created_at,
            expires_at: self.expires_at,
            is_active: self.is_active,
        }
    }
}

/// A registered identity with its salted Argon2 hash (PHC string).
#[derive(Debug)]
pub struct User {
    pub id: String,
    pub password_hash: String,
    pub created_at: u64,
    pub last_login: Option<u64>,
    pub is_active: bool,
}

impl Clone for User {
    fn clone(&self) -> (r: Self)
        ensures
            r == *self,
    {
        User {
            id: self.id.clone(),
            password_hash: self.password_hash.clone(),
            created_at: self.created_at,
            last_login: self.last_login,
            is_active: self.is_active,
        }
    }
}

/// Errors of authentication and session handling.
#[derive(Debug, Clone)]
pub enum AuthError {
    InvalidCredentials,
    UserExists,
    UserInactive,
    InvalidSession,
    SessionInactive,
    SessionExpired,
    HashingFailed(String),
    DatabaseError(String),
}

/// A session is valid iff it is active and `now` is before its expiry.
pub open spec fn session_valid(s: Session, now: u64) -> bool {
    s.is_active && now < s.expires_at
}

/// `now + ttl`, or the largest time when that does not fit.
pub open spec fn expiry(now: u64, ttl: u64) -> u64 {
    if now + ttl <= u64::MAX {
        (now + ttl) as u64
    } else {
        u64::MAX
    }
}

/// The session that issuing `token` to `user_id` at `now` for `ttl` records.
pub open spec fn issued_session(token: Seq<char>, user_id: Seq<char>, now: u64, ttl: u64) -> (
    Seq<char>,
    Seq<char>,
    u64,
    u64,
    bool,
) {
    (token, user_id, now, expiry(now, ttl), true)
}

/// The fields of a session, in order.
pub open spec fn session_fields(s: Session) -> (Seq<char>, Seq<char>, u64, u64, bool) {
    (s.token@, s.user_id@, s.created_at, s.expires_at, s.is_active)
}

/// Outcome of validating `token` at `now` against the registry `m`.
pub open spec fn validation(m: Map<Seq<char>, Session>, token: Seq<char>, now: u64) -> Result<
    Session,
    AuthError,
> {
    if !m.contains_key(token) {
        Err(AuthError::InvalidSession)
    } else if !m[token].is_active {
        Err(AuthError::SessionInactive)
    } else if m[token].expires_at <= now {
        Err(AuthError::SessionExpired)
    } else {
        Ok(m[token])
    }
}

/// `r` is the outcome of validating `token` at `now` against `m`.
pub open spec fn validated(
    m: Map<Seq<char>, Session>,
    token: Seq<char>,
    now: u64,
    r: Result<Session, AuthError>,
) -> bool {
    match validation(m, token, now) {
        Ok(s) => r matches Ok(q) && q == s,
        Err(AuthError::InvalidSession) => r matches Err(AuthError::InvalidSession),
        Err(AuthError::SessionInactive) => r matches Err(AuthError::SessionInactive),
        Err(_) => r matches Err(AuthError::SessionExpired),
    }
}

/// The registry `m` after a sweep at `now`: exactly its valid sessions.
pub open spec fn swept(m: Map<Seq<char>, Session>, now: u64) -> Map<Seq<char>, Session> {
    Map::new(|t: Seq<char>| m.contains_key(t) && session_valid(m[t], now), |t: Seq<char>| m[t])
}

/// Whether a login of `id` with `password` is accepted by the store `users`:
/// the identity exists, is active, and Argon2 accepts the password.
pub open spec fn login_accepted(users: Map<Seq<char>, User>, id: Seq<char>, password: Seq<char>) -> bool {
    &&& users.contains_key(id)
    &&& users[id].is_active
    &&& argon2_verifies(encode_utf8(password), users[id].password_hash@)
}

/// The record `u` after a login at `now`: only the last login changes.
pub open spec fn after_login(u: User, now: u64) -> User {
    User {
        id: u.id,
        password_hash: u.password_hash,
        created_at: u.created_at,
        last_login: Some(now),
        is_active: u.is_active,
    }
}

/// `after` is the store `before` with `id` signed up with `password` at `now`.
pub open spec fn signed_up(
    before: Map<Seq<char>, User>,
    after: Map<Seq<char>, User>,
    id: Seq<char>,
    password: Seq<char>,
    now: u64,
) -> bool {
    &&& !before.contains_key(id)
    &&& after.contains_key(id)
    &&& after == before.insert(id, after[id])
    &&& after[id].id@ == id
    &&& after[id].created_at == now
    &&& after[id].last_login is None
    &&& after[id].is_active
    &&& argon2_verifies(encode_utf8(password), after[id].password_hash@)
    &&& is_argon2id_phc(after[id].password_hash@)
}

/// Text of an access code: the value below a million as six decimal digits,
/// zero-padded.
pub open spec fn access_code_text(n: u32) -> Seq<char> {
    Seq::new(
        6,
        |i: int| ((48 as int) + ((n as int) % 1_000_000) / pow10((5 - i) as nat) % 10) as u8
            as char,
    )
}

pub open spec fn pow10(e: nat) -> int
    decreases e,
{
    if e == 0 {
        1
    } else {
        10 * pow10((e - 1) as nat)
    }
}

/// No stored key has the shape of a session token.
pub open spec fn no_token_keys(m: Map<Seq<char>, Session>) -> bool {
    forall|t: Seq<char>| #[trigger] m.contains_key(t) ==> !is_token_text(t)
}

/// No stored key is an access code.
pub open spec fn no_code_keys(m: Map<Seq<char>, Session>) -> bool {
    forall|n: u32| !m.contains_key(#[trigger] access_code_text(n))
}

/// `after` and `r` are what a login of `id` with `password` at `now` may
/// leave and return, starting from `before`: a refusal, which is always
/// `InvalidCredentials` and changes nothing, which comes whenever the
/// login is not accepted, and which does not come for an accepted login
/// when no stored key has the shape of a token; or a fresh token under which exactly one session
/// for `id` was added, with only the user's last login updated.
pub open spec fn logged_in(
    before: AuthManager,
    after: AuthManager,
    id: Seq<char>,
    password: Seq<char>,
    now: u64,
    r: Result<String, AuthError>,
) -> bool {
    &&& !login_accepted(before.users(), id, password) ==> r is Err
    &&& login_accepted(before.users(), id, password) && no_token_keys(before.sessions()) ==> r is Ok
    &&& r is Err ==> (r matches Err(AuthError::InvalidCredentials) && after.users() == before.users()
        && after.sessions() == before.sessions())
    &&& r matches Ok(token) ==> {
        &&& login_accepted(before.users(), id, password)
        &&& is_token_text(token@)
        &&& !before.sessions().contains_key(token@)
        &&& after.sessions().contains_key(token@)
        &&& after.sessions() == before.sessions().insert(token@, after.sessions()[token@])
        &&& session_fields(after.sessions()[token@]) == issued_session(
            token@,
            id,
            now,
            before.ttls().0,
        )
        &&& after.users() == before.users().insert(id, after_login(before.users()[id], now))
        &&& login_accepted(after.users(), id, password)
    }
}

/// `after` and `r` are what issuing an access code for `user_id` at `now`
/// may leave and return, starting from `before`: a code of six digits that
/// no stored session used, now holding exactly one new session for
/// `user_id`; or, when the code drawn was in use, the error with its fixed
/// text and nothing changed, which cannot happen while no stored key is an
/// access code.
pub open spec fn code_issued(
    before: AuthManager,
    after: AuthManager,
    user_id: Seq<char>,
    now: u64,
    r: Result<String, AuthError>,
) -> bool {
    &&& after.users() == before.users()
    &&& no_code_keys(before.sessions()) ==> r is Ok
    &&& r is Err ==> (r matches Err(AuthError::DatabaseError(m)) && m@ == CODE_UNAVAILABLE@
        && after.sessions() == before.sessions())
    &&& r matches Ok(code) ==> {
        &&& exists|n: u32| code@ == access_code_text(n)
        &&& !before.sessions().contains_key(code@)
        &&& after.sessions().contains_key(code@)
        &&& after.sessions() == before.sessions().insert(code@, after.sessions()[code@])
        &&& session_fields(after.sessions()[code@]) == issued_session(
            code@,
            user_id,
            now,
            before.ttls().1,
        )
    }
}

/// Some string of `tokens` has the text `t`.
pub open spec fn listed(tokens: Seq<String>, t: Seq<char>) -> bool {
    exists|i: int| 0 <= i < tokens.len() && #[trigger] tokens[i]@ == t
}

/// Authentication manager: user records keyed by identity, and sessions and
/// access codes keyed by token.
pub struct AuthManager {
    sessions: StringHashMap<Session>,
    tokens: Vec<String>,
    users: StringHashMap<User>,
    session_ttl: u64,
    access_code_ttl: u64,
}

impl AuthManager {
    /// Lifetimes, in seconds, of login sessions and of access codes.
    pub closed spec fn ttls(&self) -> (u64, u64) {
        (self.session_ttl, self.access_code_ttl)
    }

    /// Sessions and access codes, by token.
    pub closed spec fn sessions(&self) -> Map<Seq<char>, Session> {
        self.sessions@
    }

    /// User records, by identity.
    pub closed spec fn users(&self) -> Map<Seq<char>, User> {
        self.users@
    }

    /// Each record sits under its own key, and `tokens` lists exactly the
    /// keys of the registry.
    pub closed spec fn wf(&self) -> bool {
        &&& forall|t: Seq<char>| #[trigger]
            self.sessions@.contains_key(t) ==> self.sessions@[t].token@ == t
        &&& forall|id: Seq<char>| #[trigger]
            self.users@.contains_key(id) ==> self.users@[id].id@ == id
        &&& forall|i: int|
            0 <= i < self.tokens@.len() ==> self.sessions@.contains_key(#[trigger] self.tokens@[i]@)
        &&& forall|t: Seq<char>| #[trigger]
            self.sessions@.contains_key(t) ==> listed(self.tokens@, t)
    }

    /// Empty stores; sessions last an hour and access codes five minutes.
    pub fn new() -> (r: Self)
        ensures
            r.wf(),
            r.sessions() == Map::<Seq<char>, Session>::empty(),
            r.users() == Map::<Seq<char>, User>::empty(),
            r.ttls() == (SESSION_TTL_SECS, ACCESS_CODE_TTL_SECS),
    {
        Self::with_ttls(SESSION_TTL_SECS, ACCESS_CODE_TTL_SECS)
    }

    /// Empty stores with the given lifetimes, in seconds.
    pub fn with_ttls(session_ttl: u64, access_code_ttl: u64) -> (r: Self)
        ensures
            r.wf(),
            r.sessions() == Map::<Seq<char>, Session>::empty(),
            r.users() == Map::<Seq<char>, User>::empty(),
            r.ttls() == (session_ttl, access_code_ttl),
    {
        AuthManager {
            sessions: StringHashMap::new(),
            tokens: Vec::new(),
            users: StringHashMap::new(),
            session_ttl,
            access_code_ttl,
        }
    }

    /// Records `session` under its token, replacing any session already
    /// there.
    fn put_session(&mut self, session: Session)
        requires
            old(self).wf(),
        ensures
            final(self).wf(),
            final(self).ttls() == old(self).ttls(),
            final(self).sessions() == old(self).sessions().insert(session.token@, session),
            final(self).users() == old(self).users(),
    {
        let ghost before = self.tokens@;
        if !self.sessions.contains_key(session.token.as_str()) {
            self.tokens.push(session.token.clone());
            proof {
                assert forall|i: int| 0 <= i < before.len() implies #[trigger] self.tokens@[i]
                    == before[i] by {}
            }
        }
        let key = session.token.clone();
        self.sessions.insert(key, session);
        proof {
            let m = self.sessions@;
            assert forall|t: Seq<char>| #[trigger] m.contains_key(t) implies listed(self.tokens@, t) by {
                if t == session.token@ {
                    if self.tokens@.len() > before.len() {
                        assert(self.tokens@[before.len() as int]@ == t);
                    } else {
                        let i = choose|i: int| 0 <= i < before.len() && #[trigger] before[i]@ == t;
                        assert(self.tokens@[i]@ == t);
                    }
                } else {
                    let i = choose|i: int| 0 <= i < before.len() && #[trigger] before[i]@ == t;
                    assert(self.tokens@[i]@ == t);
                }
            }
        }
    }

    /// Issues a session for `user_id` under `token`, valid from `now` for
    /// `ttl` seconds.
    fn issue(&mut self, token: String, user_id: String, now: u64, ttl: u64)
        requires
            old(self).wf(),
        ensures
            final(self).wf(),
            final(self).ttls() == old(self).ttls(),
            final(self).users() == old(self).users(),
            final(self).sessions().contains_key(token@),
            final(self).sessions() == old(self).sessions().insert(
                token@,
                final(self).sessions()[token@],
            ),
            session_fields(final(self).sessions()[token@]) == issued_session(
                token@,
                user_id@,
                now,
                ttl,
            ),
    {
        let expires_at = now.saturating_add(ttl);
        let session = Session { token, user_id, created_at: now, expires_at, is_active: true };
        self.put_session(session);
    }

    /// Signs up `id` with `password` at time `now`: the password is stored
    /// only as a salted Argon2 hash.
    pub fn create_user_at(&mut self, id: String, password: String, now: u64) -> (r: Result<
        (),
        AuthError,
    >)
        requires
            old(self).wf(),
        ensures
            final(self).wf(),
            final(self).ttls() == old(self).ttls(),
            final(self).sessions() == old(self).sessions(),
            old(self).users().contains_key(id@) <==> r matches Err(AuthError::UserExists),
            !old(self).users().contains_key(id@) && encode_utf8(password@).len() <= u32::MAX ==> r is Ok,
            r is Ok ==> signed_up(old(self).users(), final(self).users(), id@, password@, now),
            r is Err ==> final(self).users() == old(self).users(),
            r matches Err(e) ==> e is UserExists || e is HashingFailed,
    {
        if self.users.contains_key(id.as_str()) {
            return Err(AuthError::UserExists);
        }
        let hashed = argon2_hash(password.as_str().as_bytes());
        let password_hash = match hashed {
            Some(h) => h,
            None => return Err(AuthError::HashingFailed("password hashing failed".to_string())),
        };
        let user = User {
            id: id.clone(),
            password_hash,
            created_at: now,
            last_login: None,
            is_active: true,
        };
        let ghost key = id@;
        self.users.insert(id, user);
        proof {
            assert forall|k: Seq<char>| #[trigger] self.users@.contains_key(k) implies self.users@[k].id@
                == k by {
                if k != key {
                    assert(old(self).users@.contains_key(k));
                }
            }
        }
        Ok(())
    }

    /// Signs up `id` with `password` at the current time.
    pub fn create_user(&mut self, id: String, password: String) -> (r: Result<(), AuthError>)
        requires
            old(self).wf(),
        ensures
            final(self).wf(),
            final(self).ttls() == old(self).ttls(),
            final(self).sessions() == old(self).sessions(),
            old(self).users().contains_key(id@) <==> r matches Err(AuthError::UserExists),
            !old(self).users().contains_key(id@) && encode_utf8(password@).len() <= u32::MAX ==> r is Ok,
            r is Ok ==> exists|now: u64|
                signed_up(old(self).users(), final(self).users(), id@, password@, now),
            r is Err ==> final(self).users() == old(self).users(),
            r matches Err(e) ==> e is UserExists || e is HashingFailed,
    {
        let now = unix_time_secs();
        self.create_user_at(id, password, now)
    }

    /// Deactivates the account `id`: accounts are never deleted, and a
    /// deactivated one can no longer log in. Says whether `id` exists.
    pub fn deactivate_user(&mut self, id: &str) -> (r: bool)
        requires
            old(self).wf(),
        ensures
            final(self).wf(),
            final(self).ttls() == old(self).ttls(),
            final(self).sessions() == old(self).sessions(),
            r == old(self).users().contains_key(id@),
            !r ==> final(self).users() == old(self).users(),
            r ==> {
                let u = old(self).users()[id@];
                let v = final(self).users()[id@];
                &&& final(self).users() == old(self).users().insert(id@, v)
                &&& v.id == u.id && v.password_hash == u.password_hash
                &&& v.created_at == u.created_at && v.last_login == u.last_login
                &&& !v.is_active
            },
    {
        let user = match self.users.get(id) {
            Some(u) => u.clone(),
            None => return false,
        };
        let key = user.id.clone();
        let updated = User {
            id: user.id,
            password_hash: user.password_hash,
            created_at: user.created_at,
            last_login: user.last_login,
            is_active: false,
        };
        proof {
            assert(old(self).users@.contains_key(id@));
            assert(key@ == id@);
        }
        self.users.insert(key, updated);
        proof {
            assert forall|k: Seq<char>| #[trigger] self.users@.contains_key(k) implies self.users@[k].id@
                == k by {
                if k != id@ {
                    assert(old(self).users@.contains_key(k));
                }
            }
        }
        true
    }

    /// Logs `id` in with `password` at `now` under `token`, a token drawn
    /// by the caller. It succeeds exactly when the login is accepted and no
    /// stored session uses `token`: the user's last login becomes `now` and
    /// exactly one new session is issued under `token`; earlier sessions
    /// stay. Every refusal is the same `InvalidCredentials` and changes
    /// nothing.
    pub fn authenticate_with_token(
        &mut self,
        id: String,
        password: String,
        token: String,
        now: u64,
    ) -> (r: Result<String, AuthError>)
        requires
            old(self).wf(),
            is_token_text(token@),
        ensures
            final(self).wf(),
            final(self).ttls() == old(self).ttls(),
            logged_in(*old(self), *final(self), id@, password@, now, r),
            r is Ok <==> login_accepted(old(self).users(), id@, password@) && !old(
                self,
            ).sessions().contains_key(token@),
            r matches Ok(t) ==> t@ == token@,
    {
        let user = match self.users.get(id.as_str()) {
            Some(u) => u.clone(),
            None => return Err(AuthError::InvalidCredentials),
        };
        if !user.is_active {
            return Err(AuthError::InvalidCredentials);
        }
        if !argon2_check(password.as_str().as_bytes(), user.password_hash.as_str()) {
            return Err(AuthError::InvalidCredentials);
        }
        if self.sessions.contains_key(token.as_str()) {
            return Err(AuthError::InvalidCredentials);
        }
        let updated = User {
            id: user.id,
            password_hash: user.password_hash,
            created_at: user.created_at,
            last_login: Some(now),
            is_active: user.is_active,
        };
        proof {
            assert(old(self).users@.contains_key(id@));
            assert(updated.id@ == id@);
            assert(updated == after_login(old(self).users@[id@], now));
        }
        self.users.insert(id.clone(), updated);
        proof {
            assert forall|k: Seq<char>| #[trigger] self.users@.contains_key(k) implies self.users@[k].id@
                == k by {
                if k != id@ {
                    assert(old(self).users@.contains_key(k));
                }
            }
        }
        self.issue(token.clone(), id, now, self.session_ttl);
        Ok(token)
    }

    /// Logs `id` in with `password` at `now` under a fresh random token. A
    /// refusal also covers the unlikely case that no unused token was
    /// drawn.
    pub fn authenticate_at(&mut self, id: String, password: String, now: u64) -> (r: Result<
        String,
        AuthError,
    >)
        requires
            old(self).wf(),
        ensures
            final(self).wf(),
            final(self).ttls() == old(self).ttls(),
            logged_in(*old(self), *final(self), id@, password@, now, r),
    {
        match self.draw_unused_token() {
            Some(token) => self.authenticate_with_token(id, password, token, now),
            None => Err(AuthError::InvalidCredentials),
        }
    }

    /// A random token that no stored session uses, if one of a few draws
    /// gives one; the first draw serves when no stored key has the shape of
    /// a token.
    fn draw_unused_token(&self) -> (r: Option<String>)
        ensures
            r matches Some(t) ==> !self.sessions().contains_key(t@) && is_token_text(t@),
            no_token_keys(self.sessions()) ==> r is Some,
    {
        let first = random_token();
        if !self.sessions.contains_key(first.as_str()) {
            return Some(first);
        }
        let mut k: usize = 1;
        while k < TOKEN_DRAWS
            decreases TOKEN_DRAWS - k,
        {
            let t = random_token();
            if !self.sessions.contains_key(t.as_str()) {
                return Some(t);
            }
            k = k + 1;
        }
        None
    }

    /// Logs `id` in with `password` at the current time.
    pub fn authenticate(&mut self, id: String, password: String) -> (r: Result<String, AuthError>)
        requires
            old(self).wf(),
        ensures
            final(self).wf(),
            final(self).ttls() == old(self).ttls(),
            exists|now: u64| logged_in(*old(self), *final(self), id@, password@, now, r),
    {
        let now = unix_time_secs();
        self.authenticate_at(id, password, now)
    }

    /// Checks `token` at `now`: unknown, revoked and expired tokens are
    /// refused, each with its own error; a valid one yields its session.
    /// Access codes take the same path.
    pub fn validate_session_at(&self, token: &str, now: u64) -> (r: Result<Session, AuthError>)
        requires
            self.wf(),
        ensures
            validated(self.sessions(), token@, now, r),
            r matches Ok(s) ==> s.token@ == token@ && session_valid(s, now),
    {
        let session = match self.sessions.get(token) {
            Some(s) => s,
            None => return Err(AuthError::InvalidSession),
        };
        if !session.is_active {
            return Err(AuthError::SessionInactive);
        }
        if session.expires_at <= now {
            return Err(AuthError::SessionExpired);
        }
        Ok(session.clone())
    }

    /// Checks `token` at the current time.
    pub fn validate_session(&self, token: &str) -> (r: Result<Session, AuthError>)
        requires
            self.wf(),
        ensures
            exists|now: u64| validated(self.sessions(), token@, now, r),
            !self.sessions().contains_key(token@) ==> r matches Err(AuthError::InvalidSession),
            self.sessions().contains_key(token@) && !self.sessions()[token@].is_active ==> r matches Err(
                AuthError::SessionInactive,
            ),
            r matches Ok(s) ==> s.token@ == token@ && self.sessions()[token@] == s && s.is_active,
    {
        let now = unix_time_secs();
        self.validate_session_at(token, now)
    }

    /// Marks the session under `token` inactive; an unknown token is left
    /// alone.
    pub fn revoke_session(&mut self, token: &str) -> (r: Result<(), AuthError>)
        requires
            old(self).wf(),
        ensures
            final(self).wf(),
            final(self).ttls() == old(self).ttls(),
            r is Ok,
            final(self).users() == old(self).users(),
            !old(self).sessions().contains_key(token@) ==> final(self).sessions() == old(self).sessions(),
            old(self).sessions().contains_key(token@) ==> {
                let s = old(self).sessions()[token@];
                &&& final(self).sessions().dom() == old(self).sessions().dom()
                &&& final(self).sessions() == old(self).sessions().insert(
                    token@,
                    final(self).sessions()[token@],
                )
                &&& session_fields(final(self).sessions()[token@]) == (
                    s.token@,
                    s.user_id@,
                    s.created_at,
                    s.expires_at,
                    false,
                )
            },
    {
        let found = match self.sessions.get(token) {
            Some(s) => s.clone(),
            None => return Ok(()),
        };
        let revoked = Session {
            token: found.token,
            user_id: found.user_id,
            created_at: found.created_at,
            expires_at: found.expires_at,
            is_active: false,
        };
        self.put_session(revoked);
        proof {
            assert(self.sessions@.dom() =~= old(self).sessions@.dom());
        }
        Ok(())
    }

    /// Removes every session that is inactive or expired at `now` and keeps
    /// the others untouched.
    pub fn cleanup_expired_sessions_at(&mut self, now: u64)
        requires
            old(self).wf(),
        ensures
            final(self).wf(),
            final(self).ttls() == old(self).ttls(),
            final(self).users() == old(self).users(),
            final(self).sessions() == swept(old(self).sessions(), now),
    {
        let ghost old_map = self.sessions@;
        let ghost old_tokens = self.tokens@;
        let ghost old_ttls = self.ttls();
        let mut kept: StringHashMap<Session> = StringHashMap::new();
        let mut kept_tokens: Vec<String> = Vec::new();
        let mut i: usize = 0;
        while i < self.tokens.len()
            invariant
                self.sessions@ == old_map,
                self.ttls() == old_ttls,
                self.tokens@ == old_tokens,
                0 <= i <= old_tokens.len(),
                forall|j: int|
                    0 <= j < old_tokens.len() ==> old_map.contains_key(#[trigger] old_tokens[j]@),
                forall|t: Seq<char>| #[trigger]
                    old_map.contains_key(t) ==> old_map[t].token@ == t,
                forall|t: Seq<char>| #[trigger]
                    kept@.contains_key(t) <==> (old_map.contains_key(t) && session_valid(
                        old_map[t],
                        now,
                    ) && exists|j: int| 0 <= j < i && #[trigger] old_tokens[j]@ == t),
                forall|t: Seq<char>| #[trigger] kept@.contains_key(t) ==> kept@[t] == old_map[t],
                forall|j: int|
                    0 <= j < kept_tokens@.len() ==> kept@.contains_key(#[trigger] kept_tokens@[j]@),
                forall|t: Seq<char>| #[trigger] kept@.contains_key(t) ==> listed(kept_tokens@, t),
            decreases old_tokens.len() - i,
        {
            let token = &self.tokens[i];
            let ghost t = token@;
            let session = match self.sessions.get(token.as_str()) {
                Some(s) => s,
                None => {
                    proof {
                        assert(old_map.contains_key(old_tokens[i as int]@));
                    }
                    i = i + 1;
                    continue;
                },
            };
            let ghost kept_before = kept@;
            let ghost list_before = kept_tokens@;
            if session.is_active && now < session.expires_at && !kept.contains_key(token.as_str()) {
                kept_tokens.push(token.clone());
                kept.insert(token.clone(), session.clone());
                proof {
                    assert forall|j: int| 0 <= j < list_before.len() implies #[trigger] kept_tokens@[j]
                        == list_before[j] by {}
                    assert(kept_tokens@[list_before.len() as int]@ == t);
                    assert forall|u: Seq<char>| #[trigger] kept@.contains_key(u) implies listed(
                        kept_tokens@,
                        u,
                    ) by {
                        if u == t {
                            assert(kept_tokens@[list_before.len() as int]@ == u);
                        } else {
                            let j = choose|j: int|
                                0 <= j < list_before.len() && #[trigger] list_before[j]@ == u;
                            assert(kept_tokens@[j]@ == u);
                        }
                    }
                }
            }
            proof {
                assert forall|u: Seq<char>| #[trigger]
                    kept@.contains_key(u) <==> (old_map.contains_key(u) && session_valid(
                        old_map[u],
                        now,
                    ) && exists|j: int| 0 <= j < i + 1 && #[trigger] old_tokens[j]@ == u) by {
                    if old_map.contains_key(u) && session_valid(old_map[u], now) && exists|j: int|
                        0 <= j < i + 1 && #[trigger] old_tokens[j]@ == u {
                        let j = choose|j: int| 0 <= j < i + 1 && #[trigger] old_tokens[j]@ == u;
                        if j < i {
                            assert(kept_before.contains_key(u));
                        }
                    }
                    if kept_before.contains_key(u) {
                        let j = choose|j: int| 0 <= j < i && #[trigger] old_tokens[j]@ == u;
                        assert(0 <= j < i + 1 && old_tokens[j]@ == u);
                    }
                    if u == t && kept@.contains_key(u) {
                        assert(old_tokens[i as int]@ == u);
                    }
                }
            }
            i = i + 1;
        }
        proof {
            assert(kept@ =~= swept(old_map, now)) by {
                assert forall|t: Seq<char>| #[trigger]
                    swept(old_map, now).contains_key(t) implies kept@.contains_key(t) by {
                    let j = choose|j: int|
                        0 <= j < old_tokens.len() && #[trigger] old_tokens[j]@ == t;
                    assert(0 <= j < i && old_tokens[j]@ == t);
                }
            }
        }
        self.sessions = kept;
        self.tokens = kept_tokens;
        proof {
            assert forall|t: Seq<char>| #[trigger] self.sessions@.contains_key(t) implies self.sessions@[
                t].token@ == t by {
                assert(old_map.contains_key(t));
            }
        }
    }

    /// Sweeps at the current time.
    pub fn cleanup_expired_sessions(&mut self)
        requires
            old(self).wf(),
        ensures
            final(self).wf(),
            final(self).ttls() == old(self).ttls(),
            final(self).users() == old(self).users(),
            exists|now: u64| final(self).sessions() == swept(old(self).sessions(), now),
    {
        let now = unix_time_secs();
        self.cleanup_expired_sessions_at(now);
    }

    /// Issues the access code of `n` (its value below a million, in six
    /// digits) for `user_id`, valid from `now` for the access-code lifetime.
    /// It succeeds exactly when no stored session uses that code: a stored
    /// one is never replaced.
    pub fn issue_access_code(&mut self, user_id: String, n: u32, now: u64) -> (r: Result<
        String,
        AuthError,
    >)
        requires
            old(self).wf(),
        ensures
            final(self).wf(),
            final(self).ttls() == old(self).ttls(),
            code_issued(*old(self), *final(self), user_id@, now, r),
            r is Ok <==> !old(self).sessions().contains_key(access_code_text(n)),
            r matches Ok(code) ==> code@ == access_code_text(n),
    {
        let code = access_code(n);
        if self.sessions.contains_key(code.as_str()) {
            return Err(AuthError::DatabaseError(CODE_UNAVAILABLE.to_string()));
        }
        self.issue(code.clone(), user_id, now, self.access_code_ttl);
        Ok(code)
    }

    /// Issues a random six-digit access code for `user_id`, valid from `now`
    /// for the access-code lifetime. A stored code is never replaced: when a
    /// few draws find no unused code, nothing is issued.
    pub fn generate_access_code_at(&mut self, user_id: String, now: u64) -> (r: Result<
        String,
        AuthError,
    >)
        requires
            old(self).wf(),
        ensures
            final(self).wf(),
            final(self).ttls() == old(self).ttls(),
            code_issued(*old(self), *final(self), user_id@, now, r),
    {
        match self.draw_unused_code() {
            Some(n) => self.issue_access_code(user_id, n, now),
            None => Err(AuthError::DatabaseError(CODE_UNAVAILABLE.to_string())),
        }
    }

    /// A random number whose access code no stored session uses, if one of
    /// a few draws gives one; the first draw serves when no stored key is
    /// an access code.
    fn draw_unused_code(&self) -> (r: Option<u32>)
        ensures
            r matches Some(n) ==> !self.sessions().contains_key(access_code_text(n)),
            no_code_keys(self.sessions()) ==> r is Some,
    {
        let first: u32 = rand::random::<u32>();
        if !self.sessions.contains_key(access_code(first).as_str()) {
            return Some(first);
        }
        let mut k: usize = 1;
        while k < ACCESS_CODE_DRAWS
            decreases ACCESS_CODE_DRAWS - k,
        {
            let n: u32 = rand::random::<u32>();
            if !self.sessions.contains_key(access_code(n).as_str()) {
                return Some(n);
            }
            k = k + 1;
        }
        None
    }

    /// Issues an access code for `user_id` at the current time.
    pub fn generate_access_code(&mut self, user_id: String) -> (r: Result<String, AuthError>)
        requires
            old(self).wf(),
        ensures
            final(self).wf(),
            final(self).ttls() == old(self).ttls(),
            exists|now: u64| code_issued(*old(self), *final(self), user_id@, now, r),
    {
        let now = unix_time_secs();
        self.generate_access_code_at(user_id, now)
    }
}

/// The six-digit, zero-padded decimal text of `n % 1_000_000`.
pub fn access_code(n: u32) -> (r: String)
    ensures
        r@ == access_code_text(n),
{
    let mut v: u32 = n % 1_000_000;
    let mut digits: Vec<u8> = Vec::new();
    let mut k: usize = 0;
    let mut divisor: u32 = 100_000;
    proof {
        lemma_pow10_5();
        vstd::arithmetic::div_mod::lemma_mod_twice(n as int, 1_000_000);
    }
    while k < ACCESS_CODE_DIGITS
        invariant
            k <= 6,
            divisor as int == pow10((5 - k) as nat) || k == 6,
            digits@.len() == k,
            v as int == (n as int % 1_000_000) % (if k == 6 {
                1
            } else {
                10 * pow10((5 - k) as nat)
            }),
            forall|j: int|
                0 <= j < k ==> #[trigger] digits@[j] == ((48 as int) + ((n as int)
                    % 1_000_000) / pow10((5 - j) as nat) % 10) as u8,
            forall|j: int| 0 <= j < k ==> #[trigger] digits@[j] < 128,
        decreases 6 - k,
    {
        proof {
            lemma_pow10_facts((5 - k) as nat);
        }
        let d = v / divisor;
        proof {
            lemma_digit_step(n as int % 1_000_000, v as int, divisor as int, (5 - k) as nat);
        }
        digits.push(48u8 + (d as u8));
        v = v % divisor;
        if k < 5 {
            divisor = divisor / 10;
        }
        k = k + 1;
    }
    proof {
        assert(is_ascii_bytes(digits@));
        assert(ascii_text(digits@) =~= access_code_text(n));
    }
    ascii_string(digits)
}

proof fn lemma_pow10_5()
    ensures
        pow10(0) == 1,
        pow10(1) == 10,
        pow10(2) == 100,
        pow10(3) == 1000,
        pow10(4) == 10_000,
        pow10(5) == 100_000,
{
    assert(pow10(0) == 1);
    assert(pow10(1) == 10);
    assert(pow10(2) == 100);
    assert(pow10(3) == 1000);
    assert(pow10(4) == 10_000);
}

proof fn lemma_pow10_facts(e: nat)
    requires
        e <= 5,
    ensures
        pow10(e) >= 1,
        pow10(e) <= 100_000,
        e > 0 ==> pow10(e) == 10 * pow10((e - 1) as nat),
{
    lemma_pow10_5();
    if e == 0 {
    } else if e == 1 {
    } else if e == 2 {
    } else if e == 3 {
    } else if e == 4 {
    } else {
    }
}

proof fn lemma_digit_step(x: int, v: int, p: int, e: nat)
    requires
        0 <= x < 1_000_000,
        p == pow10(e),
        e <= 5,
        v == x % (10 * p) || (e == 5 && v == x),
    ensures
        v / p == x / p % 10,
        0 <= v / p < 10,
        v % p == x % p,
{
    lemma_pow10_facts(e);
    lemma_pow10_5();
    if e == 5 {
        assert(v == x) by {
            if v != x {
                assert(v == x % 1_000_000);
                assert(x % 1_000_000 == x) by (nonlinear_arith)
                    requires 0 <= x < 1_000_000;
            }
        }
        assert(x / p < 10) by (nonlinear_arith)
            requires p == 100_000, 0 <= x < 1_000_000;
        assert(x / p % 10 == x / p) by (nonlinear_arith)
            requires 0 <= x / p < 10;
    } else {
        vstd::arithmetic::div_mod::lemma_breakdown(x, p, 10);
        let q = (x / p) % 10;
        let r = x % p;
        vstd::arithmetic::div_mod::lemma_mod_bound(x / p, 10);
        vstd::arithmetic::div_mod::lemma_mod_bound(x, p);
        assert(p * 10 == 10 * p) by (nonlinear_arith);
        assert(v == q * p + r) by (nonlinear_arith)
            requires
                v == p * q + r,
        ;
        vstd::arithmetic::div_mod::lemma_fundamental_div_mod_converse(v, p, q, r);
    }
}

/// Logging in with the pair that signed up succeeds, and the session it
/// issues is accepted by validation at every time before its expiry.
pub proof fn lemma_signup_then_login(
    before: Map<Seq<char>, User>,
    after: Map<Seq<char>, User>,
    id: Seq<char>,
    password: Seq<char>,
    signup_time: u64,
    sessions: Map<Seq<char>, Session>,
    token: Seq<char>,
    session: Session,
    login_time: u64,
    ttl: u64,
    later: u64,
)
    requires
        signed_up(before, after, id, password, signup_time),
        session_fields(session) == issued_session(token, id, login_time, ttl),
        login_time <= later < expiry(login_time, ttl),
    ensures
        login_accepted(after, id, password),
        validation(sessions.insert(token, session), token, later) == Ok::<Session, AuthError>(
            session,
        ),
{
    assert(sessions.insert(token, session).contains_key(token));
}

/// A session past its expiry is refused even while it is active.
pub proof fn lemma_expired_session_refused(m: Map<Seq<char>, Session>, token: Seq<char>, now: u64)
    requires
        m.contains_key(token),
        m[token].is_active,
        m[token].expires_at <= now,
    ensures
        validation(m, token, now) == Err::<Session, AuthError>(AuthError::SessionExpired),
{
}

/// The sweep keeps exactly the valid sessions, untouched, and it commutes
/// with issuing a session that is valid at the sweep's time: either order
/// leaves the same registry.
pub proof fn lemma_sweep_exact(
    m: Map<Seq<char>, Session>,
    now: u64,
    token: Seq<char>,
    session: Session,
)
    requires
        session_valid(session, now),
    ensures
        forall|t: Seq<char>| #[trigger]
            swept(m, now).contains_key(t) <==> m.contains_key(t) && session_valid(m[t], now),
        forall|t: Seq<char>| #[trigger] swept(m, now).contains_key(t) ==> swept(m, now)[t] == m[t],
        swept(m.insert(token, session), now) == swept(m, now).insert(token, session),
{
    assert(swept(m.insert(token, session), now) =~= swept(m, now).insert(token, session));
}

} // verus!
