//! Admin-token issuance and single-use consumption.

use crate::bytes::constant_time_eq;
use crate::clock::{instant_now, max_nanos, nanos_since};
use crate::codec::{blake3_digest, blake3_hash, crockford_encode, crockford_text, random32};
use crate::proto::consts::ADMIN_TOKEN_TTL_SECS;
use crate::server::error::ServerError;
use vstd::prelude::*;
use vstd::string::*;
use vstd::utf8::encode_utf8;

verus! {

/// A token as it was made: the text for the operator, and the hash to keep.
pub struct IssuedToken {
    pub token: String,
    pub hash: [u8; 32],
}

/// The token that can be consumed now.
pub struct TokenState {
    pub hash: [u8; 32],
    /// Nanoseconds after the store's origin.
    pub expires_at: u128,
}

/// Holder of the currently valid admin token, if there is one.
pub struct AdminTokenStore {
    pub state: Option<TokenState>,
    pub origin: std::time::Instant,
}

/// The hash under which a token is kept.
pub open spec fn token_hash(token: Seq<char>) -> Seq<u8> {
    blake3_digest(encode_utf8(token))
}

/// The lifetime of an admin token in nanoseconds.
pub open spec fn admin_ttl_nanos() -> nat {
    ADMIN_TOKEN_TTL_SECS as nat * 1_000_000_000
}

/// The deadline of a token that was issued at `now`.
pub open spec fn deadline_from(now: u128) -> nat {
    now as nat + admin_ttl_nanos()
}

/// What became of a token that was presented.
pub enum ConsumeOutcome {
    NoneIssued,
    Expired,
    Mismatch,
    Accepted,
}

impl AdminTokenStore {
    /// What happens to the token `presented` at `now`.
    pub open spec fn verdict(self, presented: Seq<char>, now: u128) -> ConsumeOutcome {
        match self.state {
            None => ConsumeOutcome::NoneIssued,
            Some(s) => if now >= s.expires_at {
                ConsumeOutcome::Expired
            } else if token_hash(presented) != s.hash@ {
                ConsumeOutcome::Mismatch
            } else {
                ConsumeOutcome::Accepted
            },
        }
    }

    /// What presenting a token at `now` returns and leaves behind: an
    /// accepted or expired token is gone.
    pub open spec fn consumed(
        self,
        post: AdminTokenStore,
        presented: Seq<char>,
        now: u128,
        r: Result<(), ServerError>,
    ) -> bool {
        &&& post.origin == self.origin
        &&& match self.verdict(presented, now) {
            ConsumeOutcome::NoneIssued => {
                &&& post.state == self.state
                &&& r is Err && r->Err_0 is AdminToken && r->Err_0->AdminToken_0@
                    == "no admin token issued"@
            },
            ConsumeOutcome::Expired => {
                &&& post.state is None
                &&& r is Err && r->Err_0 is AdminToken && r->Err_0->AdminToken_0@
                    == "admin token expired"@
            },
            ConsumeOutcome::Mismatch => {
                &&& post.state == self.state
                &&& r is Err && r->Err_0 is AdminToken && r->Err_0->AdminToken_0@
                    == "admin token mismatch"@
            },
            ConsumeOutcome::Accepted => post.state is None && r is Ok,
        }
    }

    /// A store without a token.
    pub fn new() -> (r: AdminTokenStore)
        ensures
            r.state is None,
    {
        AdminTokenStore { state: None, origin: instant_now() }
    }

    /// Make a token from fresh random bytes: 32 of them in Crockford base32.
    pub fn mint() -> (r: IssuedToken)
        ensures
            exists|raw: Seq<u8>| raw.len() == 32 && r.token@ == #[trigger] crockford_text(raw),
            r.hash@ == token_hash(r.token@),
    {
        AdminTokenStore::token_from(&random32())
    }

    /// The token that stands for these bytes.
    pub fn token_from(raw: &[u8; 32]) -> (r: IssuedToken)
        ensures
            r.token@ == crockford_text(raw@),
            r.hash@ == token_hash(r.token@),
    {
        let token = crockford_encode(raw);
        let hash = blake3_hash(token.as_str().as_bytes());
        IssuedToken { token, hash }
    }

    /// Make `issued` the valid token, in place of any other, from `now` on.
    pub fn install(&mut self, issued: &IssuedToken, now: u128)
        requires
            now <= max_nanos(),
        ensures
            final(self).origin == old(self).origin,
            final(self).state == Some(
                TokenState { hash: issued.hash, expires_at: (now + admin_ttl_nanos()) as u128 },
            ),
    {
        self.state = Some(
            TokenState {
                hash: issued.hash,
                expires_at: now + ADMIN_TOKEN_TTL_SECS as u128 * 1_000_000_000,
            },
        );
    }

    /// Issue a fresh token: it replaces any other and is valid for ten minutes.
    pub fn issue(&mut self) -> (r: String)
        ensures
            exists|raw: Seq<u8>| raw.len() == 32 && r@ == #[trigger] crockford_text(raw),
            final(self).origin == old(self).origin,
            final(self).state is Some,
            final(self).state->0.hash@ == token_hash(r@),
            exists|now: u128|
                now <= max_nanos() && final(self).state->0.expires_at == #[trigger] deadline_from(now),
    {
        let issued = AdminTokenStore::mint();
        let now = nanos_since(&self.origin);
        self.install(&issued, now);
        assert(self.state->0.expires_at == deadline_from(now));
        issued.token
    }

    /// Check `presented` against the valid token. The token can be consumed once.
    pub fn consume(&mut self, presented: &str) -> (r: Result<(), ServerError>)
        ensures
            exists|now: u128|
                now <= max_nanos() && #[trigger] old(self).consumed(*final(self), presented@, now, r),
    {
        let now = nanos_since(&self.origin);
        self.consume_at(presented, now)
    }

    /// Check `presented` against the valid token at `now`.
    pub fn consume_at(&mut self, presented: &str, now: u128) -> (r: Result<(), ServerError>)
        ensures
            old(self).consumed(*final(self), presented@, now, r),
    {
        let (hash, expires_at) = match &self.state {
            None => return Err(ServerError::AdminToken("no admin token issued")),
            Some(s) => (s.hash, s.expires_at),
        };
        if now >= expires_at {
            self.state = None;
            return Err(ServerError::AdminToken("admin token expired"));
        }
        let candidate = blake3_hash(presented.as_bytes());
        if !constant_time_eq_public(candidate.as_slice(), hash.as_slice()) {
            return Err(ServerError::AdminToken("admin token mismatch"));
        }
        self.state = None;
        Ok(())
    }

    /// Whether a token is held, expired or not.
    pub fn is_active(&self) -> (r: bool)
        ensures
            r == self.state is Some,
    {
        self.state.is_some()
    }
}

/// Compares without stopping at the first difference; equal bytes give `true`.
pub fn constant_time_eq_public(a: &[u8], b: &[u8]) -> (r: bool)
    ensures
        r == (a@ == b@),
{
    constant_time_eq(a, b)
}

/// A token is consumed at most once: after it was accepted, whatever is
/// presented next is refused, until another token is issued.
pub proof fn law_token_single_use(
    pre: AdminTokenStore,
    mid: AdminTokenStore,
    post: AdminTokenStore,
    first: Seq<char>,
    second: Seq<char>,
    t1: u128,
    t2: u128,
    r1: Result<(), ServerError>,
    r2: Result<(), ServerError>,
)
    requires
        pre.consumed(mid, first, t1, r1),
        mid.consumed(post, second, t2, r2),
        r1 is Ok,
    ensures
        r2 is Err,
{
}

/// An issued token is accepted until it expires, and never after.
pub proof fn law_issued_token_accepted(
    store: AdminTokenStore,
    post: AdminTokenStore,
    token: Seq<char>,
    now: u128,
    r: Result<(), ServerError>,
)
    requires
        store.state is Some,
        store.state->0.hash@ == token_hash(token),
        store.consumed(post, token, now, r),
    ensures
        r is Ok <==> now < store.state->0.expires_at,
{
}

/// A wrong token before the deadline is refused and changes nothing: the real
/// token can still be used.
pub proof fn law_wrong_token_keeps_store(
    store: AdminTokenStore,
    post: AdminTokenStore,
    token: Seq<char>,
    now: u128,
    r: Result<(), ServerError>,
)
    requires
        store.state is Some,
        store.state->0.hash@ != token_hash(token),
        now < store.state->0.expires_at,
        store.consumed(post, token, now, r),
    ensures
        r is Err,
        post == store,
{
}

/// The life of an issued token: while it is valid, presenting a text with
/// another hash is refused and leaves the store active; presenting the token
/// is accepted and leaves the store inactive; presenting it again is refused,
/// and the store stays inactive.
pub proof fn law_token_life(
    issued: AdminTokenStore,
    tried: AdminTokenStore,
    used: AdminTokenStore,
    after: AdminTokenStore,
    token: Seq<char>,
    wrong: Seq<char>,
    t1: u128,
    t2: u128,
    t3: u128,
    r1: Result<(), ServerError>,
    r2: Result<(), ServerError>,
    r3: Result<(), ServerError>,
)
    requires
        issued.state is Some,
        issued.state->0.hash@ == token_hash(token),
        token_hash(wrong) != token_hash(token),
        t1 < issued.state->0.expires_at,
        t2 < issued.state->0.expires_at,
        issued.consumed(tried, wrong, t1, r1),
        tried.consumed(used, token, t2, r2),
        used.consumed(after, token, t3, r3),
    ensures
        r1 is Err && tried.state is Some,
        r2 is Ok && used.state is None,
        r3 is Err && after.state is None,
{
}

} // verus!
