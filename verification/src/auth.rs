//! Token verification: the claims record, the error taxonomy, and the
//! time-bounded cache of verified claims.
//!
//! The remote authority checks a bearer token's signature, issuer and
//! audience and hands back its claim set; that exchange happens outside
//! this crate and reaches it as a [`RemoteVerification`] event.  This
//! module decides everything else: when a cached result answers a token
//! without a fresh remote check, how long a verified result stays valid,
//! and which error each remote outcome surfaces.

use vstd::prelude::*;

verus! {

/// The verified identity extracted from a bearer token.
pub struct Claims {
    /// Subject identifier: the unique user id.
    pub sub: String,
    /// Expiration time, as a Unix timestamp.
    pub exp: usize,
    /// The client application the token was issued to.
    pub client_id: String,
    /// Permissions granted to the token.
    pub scope: String,
    /// The kind of token, such as an access token.
    pub token_use: String,
    /// The username used for audit attribution.
    pub username: String,
    /// When the user authenticated, as a Unix timestamp.
    pub auth_time: usize,
    /// The issuer: the user-pool URL.
    pub iss: String,
    /// When the token was issued, as a Unix timestamp.
    pub iat: usize,
    /// The token's unique identifier.
    pub jti: String,
    /// The original token's identifier.
    pub origin_jti: String,
    /// The authentication event's identifier.
    pub event_id: String,
}

impl Clone for Claims {
    fn clone(&self) -> (r: Claims)
        ensures
            r == *self,
    {
        Claims {
            sub: self.sub.clone(),
            exp: self.exp,
            client_id: self.client_id.clone(),
            scope: self.scope.clone(),
            token_use: self.token_use.clone(),
            username: self.username.clone(),
            auth_time: self.auth_time,
            iss: self.iss.clone(),
            iat: self.iat,
            jti: self.jti.clone(),
            origin_jti: self.origin_jti.clone(),
            event_id: self.event_id.clone(),
        }
    }
}

/// Why a token was not accepted.
#[derive(Debug)]
pub enum AuthError {
    /// The token's signature does not verify.
    InvalidSignature,
    /// The token is past its expiry.
    TokenExpired,
    /// The claim payload could not be parsed into the expected shape.
    MalformedToken,
    /// The verification mechanism could not be built or reached.
    VerifierUnavailable(String),
    /// The authority rejected the token for another reason.
    VerificationFailed(String),
}

impl AuthError {
    /// The status code and message the error answers with: refused tokens
    /// are the client's fault, a failing verifier is the server's.
    pub fn response_parts(&self) -> (r: (u16, String))
        ensures
            self is InvalidSignature ==> r.0 == 401 && r.1@ == "Invalid token signature"@,
            self is TokenExpired ==> r.0 == 401 && r.1@ == "Token has expired"@,
            self is MalformedToken ==> r.0 == 400 && r.1@ == "Malformed token"@,
            self matches AuthError::VerifierUnavailable(m) ==> r.0 == 500 && r.1 == m,
            self matches AuthError::VerificationFailed(m) ==> r.0 == 500 && r.1 == m,
    {
        match self {
            AuthError::InvalidSignature => (401, "Invalid token signature".to_owned()),
            AuthError::TokenExpired => (401, "Token has expired".to_owned()),
            AuthError::MalformedToken => (400, "Malformed token".to_owned()),
            AuthError::VerifierUnavailable(m) => (500, m.clone()),
            AuthError::VerificationFailed(m) => (500, m.clone()),
        }
    }
}

/// What the remote authority reported for a token, handed in by the caller
/// that performed the remote exchange.
pub enum RemoteVerification {
    /// Signature, issuer and audience checked out; the parsed claims.
    Verified(Claims),
    /// The signature did not verify.
    SignatureInvalid,
    /// The token is past its expiry.
    Expired,
    /// The token verified but its claim payload did not parse.
    ClaimsUnparsable,
    /// The verifier could not be built or reached.
    Unavailable(String),
    /// The token was rejected for another reason.
    Rejected(String),
}

/// A cached verification: the verified claims and when the cache entry
/// lapses, keyed by the literal token string.
pub struct CacheEntry {
    pub token: String,
    pub claims: Claims,
    pub expires_at: usize,
}

/// No two entries share a token.
pub open spec fn tokens_distinct(s: Seq<CacheEntry>) -> bool {
    forall|i: int, j: int| 0 <= i < j < s.len() ==> s[i].token@ != s[j].token@
}

/// Some entry carries the given token.
pub open spec fn has_token(s: Seq<CacheEntry>, token: Seq<char>) -> bool {
    exists|i: int| 0 <= i < s.len() && s[i].token@ == token
}

/// The position of the entry with the given token.
pub open spec fn index_of_token(s: Seq<CacheEntry>, token: Seq<char>) -> int {
    choose|i: int| 0 <= i < s.len() && s[i].token@ == token
}

/// The entry cached under the given token.
pub open spec fn entry_for(s: Seq<CacheEntry>, token: Seq<char>) -> CacheEntry {
    s[index_of_token(s, token)]
}

/// When tokens are distinct, any position holding the token is the
/// position of the cached entry.
pub proof fn lemma_index_of_token(s: Seq<CacheEntry>, i: int)
    requires
        tokens_distinct(s),
        0 <= i < s.len(),
    ensures
        has_token(s, s[i].token@),
        index_of_token(s, s[i].token@) == i,
        entry_for(s, s[i].token@) == s[i],
{
    let token = s[i].token@;
    assert(has_token(s, token));
    let j = index_of_token(s, token);
    if i < j {
        assert(s[i].token@ != s[j].token@);
    } else if j < i {
        assert(s[j].token@ != s[i].token@);
    }
}

/// What a cache lookup at a given time returns: the cached claims while an
/// entry for the token exists and has not lapsed, and nothing otherwise.
pub open spec fn lookup(s: Seq<CacheEntry>, token: Seq<char>, now: int) -> Option<Claims> {
    if has_token(s, token) && now < entry_for(s, token).expires_at {
        Some(entry_for(s, token).claims)
    } else {
        None
    }
}

/// When a cached verification lapses: the verification time plus the
/// token's own validity window, bounded by the token's absolute expiry.
pub open spec fn cache_expiry(now: int, iat: int, exp: int) -> int {
    let delta = if exp >= iat { exp - iat } else { 0 };
    if now + delta <= exp {
        now + delta
    } else {
        exp
    }
}

/// What recording a remote outcome does to the cache and returns to the
/// caller: a verified outcome is cached under the token — replacing any
/// earlier entry for it — and its claims returned; every other outcome
/// leaves the cache unchanged and surfaces the matching error.
pub open spec fn verification_post(
    pre: Seq<CacheEntry>,
    post: Seq<CacheEntry>,
    token: String,
    outcome: RemoteVerification,
    now: int,
    r: Result<Claims, AuthError>,
) -> bool {
    match outcome {
        RemoteVerification::Verified(c) => {
            let entry = CacheEntry {
                token,
                claims: c,
                expires_at: cache_expiry(now, c.iat as int, c.exp as int) as usize,
            };
            &&& r == Ok::<Claims, AuthError>(c)
            &&& post == if has_token(pre, token@) {
                pre.update(index_of_token(pre, token@), entry)
            } else {
                pre.push(entry)
            }
        },
        RemoteVerification::SignatureInvalid => post == pre
            && r == Err::<Claims, AuthError>(AuthError::InvalidSignature),
        RemoteVerification::Expired => post == pre
            && r == Err::<Claims, AuthError>(AuthError::TokenExpired),
        RemoteVerification::ClaimsUnparsable => post == pre
            && r == Err::<Claims, AuthError>(AuthError::MalformedToken),
        RemoteVerification::Unavailable(m) => post == pre
            && r == Err::<Claims, AuthError>(AuthError::VerifierUnavailable(m)),
        RemoteVerification::Rejected(m) => post == pre
            && r == Err::<Claims, AuthError>(AuthError::VerificationFailed(m)),
    }
}

/// The cache of verified claims, keyed by the literal token string.
///
/// The verifier holds no remote machinery itself: callers look the token
/// up first, perform the remote exchange only on a miss, and record the
/// outcome; the shared-access discipline around the cache is the owner's.
pub struct TokenVerifier {
    entries: Vec<CacheEntry>,
}

impl View for TokenVerifier {
    type V = Seq<CacheEntry>;

    closed spec fn view(&self) -> Seq<CacheEntry> {
        self.entries@
    }
}

impl TokenVerifier {
    /// The verifier's invariant: one entry per token.
    pub open spec fn wf(&self) -> bool {
        tokens_distinct(self@)
    }

    /// An empty cache.
    pub fn new() -> (r: TokenVerifier)
        ensures
            r@ == Seq::<CacheEntry>::empty(),
            r.wf(),
    {
        TokenVerifier { entries: Vec::new() }
    }

    /// The position of the entry for the given token, if any.
    fn find(&self, token: &String) -> (r: Option<usize>)
        requires
            self.wf(),
        ensures
            match r {
                Some(i) => i < self@.len() && self@[i as int].token@ == token@
                    && index_of_token(self@, token@) == i && has_token(self@, token@),
                None => !has_token(self@, token@),
            },
    {
        let n = self.entries.len();
        let mut i: usize = 0;
        while i < n
            invariant
                n == self@.len(),
                i <= n,
                self.wf(),
                forall|j: int| 0 <= j < i ==> self@[j].token@ != token@,
            decreases n - i,
        {
            if self.entries[i].token == *token {
                proof {
                    lemma_index_of_token(self@, i as int);
                }
                return Some(i);
            }
            i = i + 1;
        }
        return None;
    }

    /// Step one of a verification: answers from the cache while the entry
    /// has not lapsed, so that no remote exchange is needed.  A lapsed
    /// entry is not removed here; it is replaced when the token is next
    /// verified.
    pub fn check_cache(&self, token: &String, now: usize) -> (r: Option<Claims>)
        requires
            self.wf(),
        ensures
            r == lookup(self@, token@, now as int),
    {
        match self.find(token) {
            Some(i) => {
                if now < self.entries[i].expires_at {
                    Some(self.entries[i].claims.clone())
                } else {
                    None
                }
            },
            None => None,
        }
    }

    /// Steps two to four of a verification: records what the remote
    /// authority reported, caching a verified outcome for the token's
    /// validity window, and surfaces the claims or the matching error.
    pub fn complete_verification(
        &mut self,
        token: &String,
        outcome: RemoteVerification,
        now: usize,
    ) -> (r: Result<Claims, AuthError>)
        requires
            old(self).wf(),
        ensures
            final(self).wf(),
            verification_post(old(self)@, final(self)@, *token, outcome, now as int, r),
    {
        match outcome {
            RemoteVerification::Verified(claims) => {
                let expires_at = compute_expiry(now, claims.iat, claims.exp);
                let entry = CacheEntry {
                    token: token.clone(),
                    claims: claims.clone(),
                    expires_at,
                };
                match self.find(token) {
                    Some(i) => {
                        self.entries[i] = entry;
                        proof {
                            assert forall|p: int, q: int|
                                0 <= p < q < self@.len() implies
                                self@[p].token@ != self@[q].token@ by {
                                assert(old(self)@[p].token@ != old(self)@[q].token@);
                            }
                        }
                    },
                    None => {
                        self.entries.push(entry);
                        proof {
                            assert forall|p: int, q: int|
                                0 <= p < q < self@.len() implies
                                self@[p].token@ != self@[q].token@ by {
                                if q < self@.len() - 1 {
                                    assert(old(self)@[p].token@ != old(self)@[q].token@);
                                } else {
                                    assert(self@[p] == old(self)@[p]);
                                    assert(!has_token(old(self)@, token@));
                                }
                            }
                        }
                    },
                }
                Ok(claims)
            },
            RemoteVerification::SignatureInvalid => Err(AuthError::InvalidSignature),
            RemoteVerification::Expired => Err(AuthError::TokenExpired),
            RemoteVerification::ClaimsUnparsable => Err(AuthError::MalformedToken),
            RemoteVerification::Unavailable(m) => Err(AuthError::VerifierUnavailable(m)),
            RemoteVerification::Rejected(m) => Err(AuthError::VerificationFailed(m)),
        }
    }
}

/// The cache expiry, computed without overflow.
fn compute_expiry(now: usize, iat: usize, exp: usize) -> (r: usize)
    ensures
        r as int == cache_expiry(now as int, iat as int, exp as int),
{
    let delta = if exp >= iat {
        exp - iat
    } else {
        0
    };
    match now.checked_add(delta) {
        Some(total) => {
            if total <= exp {
                total
            } else {
                exp
            }
        },
        None => exp,
    }
}

/// A verified token answers later lookups from the cache until the
/// computed expiry — a second verification in that window needs no remote
/// exchange — and answers nothing from it afterwards, so a later
/// verification performs a fresh remote exchange.
pub proof fn lemma_cache_window(
    pre: Seq<CacheEntry>,
    post: Seq<CacheEntry>,
    token: String,
    claims: Claims,
    verified_at: int,
    asked_at: int,
)
    requires
        tokens_distinct(pre),
        0 <= verified_at,
        verification_post(
            pre,
            post,
            token,
            RemoteVerification::Verified(claims),
            verified_at,
            Ok(claims),
        ),
    ensures
        asked_at < cache_expiry(verified_at, claims.iat as int, claims.exp as int)
            ==> lookup(post, token@, asked_at) == Some(claims),
        asked_at >= cache_expiry(verified_at, claims.iat as int, claims.exp as int)
            ==> lookup(post, token@, asked_at) is None,
{
    let entry = CacheEntry {
        token,
        claims,
        expires_at: cache_expiry(verified_at, claims.iat as int, claims.exp as int) as usize,
    };
    let k: int = if has_token(pre, token@) {
        index_of_token(pre, token@)
    } else {
        pre.len() as int
    };
    assert(post[k] == entry);
    assert forall|p: int, q: int| 0 <= p < q < post.len() implies
        post[p].token@ != post[q].token@ by {
        if has_token(pre, token@) {
            assert(pre[p].token@ != pre[q].token@);
        } else {
            if q < post.len() - 1 {
                assert(pre[p].token@ != pre[q].token@);
            } else {
                assert(post[p] == pre[p]);
            }
        }
    }
    lemma_index_of_token(post, k);
}

} // verus!
