//! The authentication client: configuration parsed from a connection
//! string, a cached session token with a fixed time-to-live, and a
//! TTL-bounded cache of group-membership answers.
//!
//! The client performs no network calls itself. Each query either
//! answers from its caches or names the exact request the embedding
//! program must perform; the response is then handed back through an
//! `apply_*` method, which folds it into the client's state. Every
//! expiry rule is stated over an explicit clock value `now`.

use vstd::prelude::*;
use vstd::string::{StrSliceExecFns, StringExecFns};

use crate::member_cache::{cache_find, spec_lookup, CacheEntry, MemberCache, MEMBER_CACHE_CAPACITY};
use crate::{MEMBER_TTL_SECS, SESSION_TTL_SECS};

verus! {

/// Smallest index at or after `from` where `s` carries a `#`, or the
/// length of `s` if there is none.
fn find_hash(s: &str, from: usize) -> (r: usize)
    requires
        from <= s@.len(),
    ensures
        r == find_from(s@, '#', from as int),
        from <= r <= s@.len(),
{
    let n = s.unicode_len();
    let mut i = from;
    while i < n
        invariant
            n == s@.len(),
            from <= i <= n,
            find_from(s@, '#', from as int) == find_from(s@, '#', i as int),
        decreases n - i,
    {
        if s.get_char(i) == '#' {
            return i;
        }
        i = i + 1;
    }
    n
}

/// Why an operation failed: a malformed connection string, a network
/// failure, or a response body that could not be decoded as text.
#[derive(Debug)]
pub enum AuthError {
    Config(String),
    Transport(String),
    Decode(String),
}

/// What one outbound fetch produced, as the embedding program saw it:
/// a body decoded as UTF-8 text, a network failure, or a body that was
/// not valid text.
pub enum FetchOutcome {
    Body(String),
    TransportFailed(String),
    DecodeFailed(String),
}

/// A bearer token together with the instant (in seconds) at which it
/// stops being valid.
pub struct Session {
    pub token: String,
    pub expires_at: u64,
}

/// The next step of a session-token request: a still-valid cached
/// token, or the URI the embedding program must fetch to obtain one.
pub enum TokenStep {
    Cached(String),
    Fetch(String),
}

/// The next step of a membership query: a cached answer, the session
/// URI to fetch first, or the membership URI to fetch with the given
/// bearer token in the `Authorization` header.
pub enum MembershipStep {
    Answer(bool),
    FetchSession(String),
    FetchMembership { uri: String, token: String },
}

/// The cache key under which a membership answer is stored.
pub open spec fn member_key(group: Seq<char>, user: Seq<char>) -> Seq<char> {
    group + "#"@ + user
}

/// Smallest index at or after `i` where `s` carries `c`, or the length
/// of `s` if there is none.
pub open spec fn find_from(s: Seq<char>, c: char, i: int) -> int
    decreases s.len() - i
        when 0 <= i <= s.len()
{
    if i >= s.len() {
        s.len() as int
    } else if s[i] == c {
        i
    } else {
        find_from(s, c, i + 1)
    }
}

/// Authentication client: immutable configuration, the cached session,
/// and the membership cache.
pub struct AuthClient {
    is_member_of_group_cache: MemberCache,
    session: Option<Session>,
    user: String,
    base_path: String,
    password: String,
}

impl AuthClient {
    /// The configured principal user name.
    pub closed spec fn spec_user(self) -> Seq<char> {
        self.user@
    }

    /// The configured base URL of the authentication service.
    pub closed spec fn spec_base_path(self) -> Seq<char> {
        self.base_path@
    }

    /// The configured shared secret.
    pub closed spec fn spec_password(self) -> Seq<char> {
        self.password@
    }

    /// The cached session, if any.
    pub closed spec fn spec_session(self) -> Option<Session> {
        self.session
    }

    /// The membership-cache entries, oldest first.
    pub closed spec fn spec_cache(self) -> Seq<CacheEntry> {
        self.is_member_of_group_cache@
    }

    /// The membership cache holds no duplicate key and stays bounded.
    pub closed spec fn wf(self) -> bool {
        self.is_member_of_group_cache.wf()
    }

    /// The three configuration fields, packed for unchanged-ness claims.
    pub open spec fn spec_config(self) -> (Seq<char>, Seq<char>, Seq<char>) {
        (self.spec_user(), self.spec_base_path(), self.spec_password())
    }

    /// The token a session-token request answers without a network
    /// call, if any: a session is valid while the clock reads strictly
    /// less than its expiry instant.
    pub open spec fn token_answer(self, now: u64) -> Option<Seq<char>> {
        match self.spec_session() {
            Some(s) => if now < s.expires_at {
                Some(s.token@)
            } else {
                None
            },
            None => None,
        }
    }

    /// The boolean a membership query answers without a network call,
    /// if any.
    pub open spec fn membership_answer(self, group: Seq<char>, user: Seq<char>, now: u64) -> Option<
        bool,
    > {
        spec_lookup(self.spec_cache(), member_key(group, user), now)
    }

    /// The URI of the session endpoint, carrying the configured user
    /// and secret as query parameters.
    pub open spec fn spec_session_uri(self) -> Seq<char> {
        self.spec_base_path() + "/session?username="@ + self.spec_user() + "&password="@
            + self.spec_password() + "&service_name=authentication"@
    }

    /// The URI of the membership endpoint for `user` and `group`.
    pub open spec fn spec_membership_uri(self, user: Seq<char>, group: Seq<char>) -> Seq<char> {
        self.spec_base_path() + "/is-member/"@ + user + "/"@ + group
    }

    /// Create an `AuthClient` from a `username#base_url#password`
    /// connection string. The string splits at its first two `#`
    /// separators, so the password may itself contain `#`; with fewer
    /// than three fields, construction fails.
    pub fn from_conn_str(connection_string: &str) -> (r: Result<AuthClient, AuthError>)
        ensures
            match r {
                Ok(c) => ({
                    let s = connection_string@;
                    let i = find_from(s, '#', 0);
                    let j = find_from(s, '#', i + 1);
                    &&& i < s.len()
                    &&& j < s.len()
                    &&& c.spec_user() == s.subrange(0, i)
                    &&& c.spec_base_path() == s.subrange(i + 1, j)
                    &&& c.spec_password() == s.subrange(j + 1, s.len() as int)
                    &&& c.spec_session() is None
                    &&& c.spec_cache() == Seq::<CacheEntry>::empty()
                    &&& c.wf()
                }),
                Err(e) => ({
                    let s = connection_string@;
                    let i = find_from(s, '#', 0);
                    &&& e matches AuthError::Config(m)
                    &&& (i == s.len() ==> m@ == "Missing URL"@)
                    &&& (i < s.len() ==> find_from(s, '#', i + 1) == s.len() && m@
                        == "Missing password"@)
                }),
            },
    {
        let n = connection_string.unicode_len();
        let i = find_hash(connection_string, 0);
        if i == n {
            return Err(AuthError::Config(String::from_str("Missing URL")));
        }
        let j = find_hash(connection_string, i + 1);
        if j == n {
            return Err(AuthError::Config(String::from_str("Missing password")));
        }
        let user = String::from_str(connection_string.substring_char(0, i));
        let base_path = String::from_str(connection_string.substring_char(i + 1, j));
        let password = String::from_str(connection_string.substring_char(j + 1, n));
        Ok(
            AuthClient {
                is_member_of_group_cache: Self::new_member_of_group_cache(),
                session: None,
                user,
                base_path,
                password,
            },
        )
    }

    /// The configured principal user name.
    pub fn user(&self) -> (r: &String)
        ensures
            r@ == self.spec_user(),
    {
        &self.user
    }

    /// The configured base URL of the authentication service.
    pub fn base_path(&self) -> (r: &String)
        ensures
            r@ == self.spec_base_path(),
    {
        &self.base_path
    }

    /// The configured shared secret.
    pub fn password(&self) -> (r: &String)
        ensures
            r@ == self.spec_password(),
    {
        &self.password
    }

    /// An empty membership cache.
    fn new_member_of_group_cache() -> (r: MemberCache)
        ensures
            r@ == Seq::<CacheEntry>::empty(),
            r.wf(),
    {
        MemberCache::new()
    }

    /// The `group#user` cache key for a membership query.
    fn member_key_exec(group: &str, user: &str) -> (r: String)
        ensures
            r@ == member_key(group@, user@),
    {
        let mut k = String::from_str(group);
        k.append("#");
        k.append(user);
        k
    }

    /// The session-endpoint URI, built from the configuration.
    fn session_uri(&self) -> (r: String)
        ensures
            r@ == self.spec_session_uri(),
    {
        let mut u = self.base_path.clone();
        u.append("/session?username=");
        u.append(self.user.as_str());
        u.append("&password=");
        u.append(self.password.as_str());
        u.append("&service_name=authentication");
        u
    }

    /// The membership-endpoint URI for `user` and `group`.
    fn membership_uri(&self, user: &str, group: &str) -> (r: String)
        ensures
            r@ == self.spec_membership_uri(user@, group@),
    {
        let mut u = self.base_path.clone();
        u.append("/is-member/");
        u.append(user);
        u.append("/");
        u.append(group);
        u
    }

    /// Fast path of token acquisition: return the cached token while it
    /// is valid; otherwise name the session URI the embedding program
    /// must fetch.
    pub fn get_session_token(&self, now: u64) -> (r: TokenStep)
        ensures
            match r {
                TokenStep::Cached(t) => self.token_answer(now) == Some(t@),
                TokenStep::Fetch(uri) => self.token_answer(now) is None && uri@
                    == self.spec_session_uri(),
            },
    {
        match &self.session {
            Some(s) => {
                if now < s.expires_at {
                    TokenStep::Cached(s.token.clone())
                } else {
                    TokenStep::Fetch(self.session_uri())
                }
            },
            None => TokenStep::Fetch(self.session_uri()),
        }
    }

    /// Fold the session endpoint's response into the client: a body is
    /// the new token verbatim, stored with a fresh expiry and replacing
    /// any prior session unconditionally; a failure changes nothing and
    /// surfaces as the matching error.
    pub fn apply_session_response(&mut self, outcome: FetchOutcome, now: u64) -> (r: Result<
        String,
        AuthError,
    >)
        requires
            now + SESSION_TTL_SECS <= u64::MAX,
        ensures
            final(self).spec_config() == old(self).spec_config(),
            final(self).spec_cache() == old(self).spec_cache(),
            final(self).wf() == old(self).wf(),
            match outcome {
                FetchOutcome::Body(token) => {
                    &&& r matches Ok(t) && t@ == token@
                    &&& final(self).spec_session() matches Some(s) && s.token@ == token@
                        && s.expires_at == now + SESSION_TTL_SECS
                },
                FetchOutcome::TransportFailed(m) => {
                    &&& r matches Err(AuthError::Transport(mm)) && mm@ == m@
                    &&& *final(self) == *old(self)
                },
                FetchOutcome::DecodeFailed(m) => {
                    &&& r matches Err(AuthError::Decode(mm)) && mm@ == m@
                    &&& *final(self) == *old(self)
                },
            },
    {
        match outcome {
            FetchOutcome::Body(token) => {
                self.session = Some(
                    Session { token: token.clone(), expires_at: now + SESSION_TTL_SECS },
                );
                Ok(token)
            },
            FetchOutcome::TransportFailed(m) => Err(AuthError::Transport(m)),
            FetchOutcome::DecodeFailed(m) => Err(AuthError::Decode(m)),
        }
    }

    /// Answer a membership query from the cache if a live entry exists;
    /// otherwise name the next fetch: the session endpoint when no
    /// valid token is at hand, else the membership endpoint with the
    /// cached token.
    pub fn is_member_of_group(&self, group: &str, user: &str, now: u64) -> (r: MembershipStep)
        ensures
            match r {
                MembershipStep::Answer(b) => self.membership_answer(group@, user@, now) == Some(b),
                MembershipStep::FetchSession(uri) => {
                    &&& self.membership_answer(group@, user@, now) is None
                    &&& self.token_answer(now) is None
                    &&& uri@ == self.spec_session_uri()
                },
                MembershipStep::FetchMembership { uri, token } => {
                    &&& self.membership_answer(group@, user@, now) is None
                    &&& self.token_answer(now) == Some(token@)
                    &&& uri@ == self.spec_membership_uri(user@, group@)
                },
            },
    {
        let key = Self::member_key_exec(group, user);
        match self.is_member_of_group_cache.lookup(&key, now) {
            Some(b) => MembershipStep::Answer(b),
            None => match self.get_session_token(now) {
                TokenStep::Cached(token) => MembershipStep::FetchMembership {
                    uri: self.membership_uri(user, group),
                    token,
                },
                TokenStep::Fetch(uri) => MembershipStep::FetchSession(uri),
            },
        }
    }

    /// Fold the membership endpoint's response into the client. A body
    /// means the query succeeded: the answer is `true` exactly when the
    /// body reads `true`, and it is cached for the membership TTL. A
    /// failure caches nothing and surfaces as the matching error.
    pub fn apply_membership_response(
        &mut self,
        group: &str,
        user: &str,
        outcome: FetchOutcome,
        now: u64,
    ) -> (r: Result<bool, AuthError>)
        requires
            old(self).wf(),
            now + MEMBER_TTL_SECS <= u64::MAX,
        ensures
            final(self).wf(),
            final(self).spec_config() == old(self).spec_config(),
            final(self).spec_session() == old(self).spec_session(),
            match outcome {
                FetchOutcome::Body(text) => {
                    &&& r matches Ok(b) && b == (text@ == "true"@)
                    &&& cache_find(final(self).spec_cache(), member_key(group@, user@))
                        matches Some(e) && e.value == (text@ == "true"@) && e.expires_at == now
                        + MEMBER_TTL_SECS
                    &&& forall|t: u64|
                        t < now + MEMBER_TTL_SECS ==> final(self).membership_answer(
                            group@,
                            user@,
                            t,
                        ) == Some(text@ == "true"@)
                    &&& forall|k: Seq<char>|
                        k != member_key(group@, user@) && (old(self).spec_cache().len()
                            < MEMBER_CACHE_CAPACITY || cache_find(
                            old(self).spec_cache(),
                            member_key(group@, user@),
                        ) is Some) ==> #[trigger] cache_find(final(self).spec_cache(), k)
                            == cache_find(old(self).spec_cache(), k)
                    &&& forall|k: Seq<char>|
                        k != member_key(group@, user@) ==> (#[trigger] cache_find(
                            final(self).spec_cache(),
                            k,
                        ) == cache_find(old(self).spec_cache(), k) || cache_find(
                            final(self).spec_cache(),
                            k,
                        ) is None)
                },
                FetchOutcome::TransportFailed(m) => {
                    &&& r matches Err(AuthError::Transport(mm)) && mm@ == m@
                    &&& *final(self) == *old(self)
                },
                FetchOutcome::DecodeFailed(m) => {
                    &&& r matches Err(AuthError::Decode(mm)) && mm@ == m@
                    &&& *final(self) == *old(self)
                },
            },
    {
        match outcome {
            FetchOutcome::Body(text) => {
                let is_member = text.eq(&String::from_str("true"));
                let key = Self::member_key_exec(group, user);
                self.is_member_of_group_cache.insert(key, is_member, now + MEMBER_TTL_SECS);
                Ok(is_member)
            },
            FetchOutcome::TransportFailed(m) => Err(AuthError::Transport(m)),
            FetchOutcome::DecodeFailed(m) => Err(AuthError::Decode(m)),
        }
    }
}

/// A membership answer recorded at `t0` is served from the cache, with
/// the same boolean, by every query issued strictly within the TTL: no
/// such query goes to the network.
pub proof fn lemma_repeat_query_within_ttl(
    c: AuthClient,
    group: Seq<char>,
    user: Seq<char>,
    v: bool,
    t0: u64,
    t1: u64,
)
    requires
        cache_find(c.spec_cache(), member_key(group, user)) matches Some(e) && e.value == v
            && e.expires_at == t0 + MEMBER_TTL_SECS,
        t1 < t0 + MEMBER_TTL_SECS,
    ensures
        c.membership_answer(group, user, t1) == Some(v),
{
}

/// Once the TTL of a recorded answer has passed, the cache no longer
/// serves it: a query for the same pair must go to the network.
pub proof fn lemma_repeat_query_after_ttl(
    c: AuthClient,
    group: Seq<char>,
    user: Seq<char>,
    t0: u64,
    t1: u64,
)
    requires
        cache_find(c.spec_cache(), member_key(group, user)) matches Some(e) && e.expires_at == t0
            + MEMBER_TTL_SECS,
        t1 >= t0 + MEMBER_TTL_SECS,
    ensures
        c.membership_answer(group, user, t1) is None,
{
}

/// After a refresh at `t0`, every request issued before the new expiry
/// instant reuses the fresh token: no second refresh occurs until the
/// full session TTL has passed.
pub proof fn lemma_single_refresh(c: AuthClient, token: Seq<char>, t0: u64, t1: u64)
    requires
        c.spec_session() matches Some(s) && s.token@ == token && s.expires_at == t0
            + SESSION_TTL_SECS,
        t0 <= t1 < t0 + SESSION_TTL_SECS,
    ensures
        c.token_answer(t1) == Some(token),
{
}

/// A stored session token is reused by every request issued before its
/// expiry instant, and by none from that instant on.
pub proof fn lemma_session_token_reuse(c: AuthClient, s: Session, t: u64)
    requires
        c.spec_session() == Some(s),
    ensures
        t < s.expires_at ==> c.token_answer(t) == Some(s.token@),
        t >= s.expires_at ==> c.token_answer(t) is None,
{
}

} // verus!
