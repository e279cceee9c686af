use vstd::prelude::*;

use crate::error::{check_status, is_success, RelayError, Service};

verus! {

/// Seconds taken off a token's reported lifetime, so that it is never used
/// right at the edge of its expiry.
pub const SAFETY_MARGIN_SECS: u64 = 60;

/// A bearer token for one upstream service, with the client identity used to
/// obtain a new one. Times are whole seconds on one monotonic clock.
pub struct CredentialCache {
    pub client_id: String,
    pub client_secret: String,
    /// The token and the first instant at which it may no longer be used.
    pub cached: Option<(String, u64)>,
}

/// The token that may be used at `now`, if any.
pub open spec fn usable_token(c: CredentialCache, now: u64) -> Option<Seq<char>> {
    match c.cached {
        Some((token, expires_at)) => if now < expires_at {
            Some(token@)
        } else {
            None
        },
        None => None,
    }
}

/// The instant at which a token obtained at `now` with lifetime `ttl` expires:
/// the lifetime less the safety margin, never below zero, and the sum held at
/// the clock's largest value.
pub open spec fn expiry_after(now: u64, ttl: u64) -> u64 {
    let life: int = if ttl > SAFETY_MARGIN_SECS {
        ttl - SAFETY_MARGIN_SECS
    } else {
        0
    };
    if now + life > u64::MAX {
        u64::MAX
    } else {
        (now + life) as u64
    }
}

/// The cache once `token`, with lifetime `ttl`, was obtained at `now`.
pub open spec fn refreshed(c: CredentialCache, token: String, ttl: u64, now: u64) -> CredentialCache {
    CredentialCache { cached: Some((token, expiry_after(now, ttl))), ..c }
}

impl CredentialCache {
    /// A cache for the given client identity, holding no token yet.
    pub fn new(client_id: String, client_secret: String) -> (r: Self)
        ensures
            r.client_id == client_id,
            r.client_secret == client_secret,
            r.cached is None,
    {
        CredentialCache { client_id, client_secret, cached: None }
    }

    /// Whether a new token is needed at `now`.
    pub fn is_expired(&self, now: u64) -> (r: bool)
        ensures
            r == (usable_token(*self, now) is None),
    {
        match &self.cached {
            Some((_, expires_at)) => now >= *expires_at,
            None => true,
        }
    }

    /// The token to use at `now`, or `None` where it must be refreshed first.
    pub fn cached_token(&self, now: u64) -> (r: Option<String>)
        ensures
            match r {
                Some(t) => usable_token(*self, now) == Some(t@),
                None => usable_token(*self, now) is None,
            },
    {
        match &self.cached {
            Some((token, expires_at)) => if now < *expires_at {
                Some(token.clone())
            } else {
                None
            },
            None => None,
        }
    }

    /// Takes in the outcome of a credential exchange made at `now`: a token with
    /// its reported lifetime in seconds, or the error that stopped it. A token is
    /// stored and returned; an error is returned and the cache is left as it was.
    pub fn complete_refresh(&mut self, outcome: Result<(String, u64), RelayError>, now: u64) -> (r:
        Result<String, RelayError>)
        ensures
            match outcome {
                Ok((token, ttl)) => {
                    &&& *final(self) == refreshed(*old(self), token, ttl, now)
                    &&& r matches Ok(t) && t == token
                },
                Err(e) => *final(self) == *old(self) && r == Err::<String, RelayError>(e),
            },
    {
        match outcome {
            Ok((token, ttl)) => {
                let expires_at = now.saturating_add(ttl.saturating_sub(SAFETY_MARGIN_SECS));
                let handed = token.clone();
                self.cached = Some((token, expires_at));
                Ok(handed)
            },
            Err(e) => Err(e),
        }
    }
}

/// Reads the answer of the credential-exchange endpoint: its status, and its
/// body as the token with its lifetime or the fault that kept it from being
/// read. A status outside 200..=299 is an upstream error, whatever the body.
pub fn read_token_answer(status: u16, body: Result<(String, u64), String>) -> (r: Result<
    (String, u64),
    RelayError,
>)
    ensures
        !is_success(status) ==> r == Err::<(String, u64), RelayError>(RelayError::Status(Service::Auth, status)),
        is_success(status) ==> match body {
            Err(d) => r == Err::<(String, u64), RelayError>(RelayError::Malformed(Service::Auth, d)),
            Ok(t) => r == Ok::<(String, u64), RelayError>(t),
        },
{
    match check_status(Service::Auth, status, "") {
        Err(e) => Err(e),
        Ok(()) => match body {
            Err(d) => Err(RelayError::Malformed(Service::Auth, d)),
            Ok(t) => Ok(t),
        },
    }
}

/// Once a refresh has stored a token whose lifetime exceeds the safety margin,
/// every caller that checks the cache before that token's expiry is served the
/// same token, and none of them starts another refresh: callers that queued
/// behind the refresh share its single result.
pub proof fn lemma_waiters_share_refresh(
    c: CredentialCache,
    token: String,
    ttl: u64,
    t0: u64,
    checks: Seq<u64>,
)
    requires
        ttl > SAFETY_MARGIN_SECS,
        forall|i: int|
            0 <= i < checks.len() ==> t0 <= #[trigger] checks[i] && checks[i] < expiry_after(t0, ttl),
    ensures
        forall|i: int|
            0 <= i < checks.len() ==> usable_token(refreshed(c, token, ttl, t0), #[trigger] checks[i])
                == Some(token@),
{
}

/// Callers that take the cache's lock one after another at the times `nows`:
/// each uses the token it finds usable, or else refreshes, the exchange
/// answering with `token` and lifetime `ttl`. Gives the cache afterwards, the
/// number of refreshes made, and the token each caller received.
pub open spec fn serve_in_turn(c: CredentialCache, nows: Seq<u64>, token: String, ttl: u64) -> (
    CredentialCache,
    nat,
    Seq<Seq<char>>,
)
    decreases nows.len(),
{
    if nows.len() == 0 {
        (c, 0, Seq::empty())
    } else {
        let (c1, n1, got) = serve_in_turn(c, nows.drop_last(), token, ttl);
        let t = nows.last();
        match usable_token(c1, t) {
            Some(tok) => (c1, n1, got.push(tok)),
            None => (refreshed(c1, token, ttl, t), n1 + 1, got.push(token@)),
        }
    }
}

/// Callers that race on an expired token and are served in turn under the lock
/// cause exactly one refresh, and all of them receive the token it obtained,
/// as long as all of them arrive before that token's expiry.
pub proof fn lemma_one_refresh_for_racing_callers(
    c: CredentialCache,
    nows: Seq<u64>,
    token: String,
    ttl: u64,
)
    requires
        nows.len() > 0,
        usable_token(c, nows[0]) is None,
        ttl > SAFETY_MARGIN_SECS,
        forall|i: int|
            0 <= i < nows.len() ==> nows[0] <= #[trigger] nows[i] && nows[i] < expiry_after(
                nows[0],
                ttl,
            ),
    ensures
        serve_in_turn(c, nows, token, ttl).1 == 1,
        serve_in_turn(c, nows, token, ttl).0 == refreshed(c, token, ttl, nows[0]),
        serve_in_turn(c, nows, token, ttl).2.len() == nows.len(),
        forall|i: int|
            0 <= i < nows.len() ==> #[trigger] serve_in_turn(c, nows, token, ttl).2[i] == token@,
    decreases nows.len(),
{
    if nows.len() > 1 {
        let p = nows.drop_last();
        assert(p[0] == nows[0]);
        assert forall|i: int| 0 <= i < p.len() implies p[0] <= #[trigger] p[i] && p[i]
            < expiry_after(p[0], ttl) by {
            assert(p[i] == nows[i]);
        }
        lemma_one_refresh_for_racing_callers(c, p, token, ttl);
        let t = nows.last();
        assert(t == nows[nows.len() - 1]);
        assert(usable_token(refreshed(c, token, ttl, nows[0]), t) == Some(token@));
        let got = serve_in_turn(c, nows, token, ttl).2;
        assert forall|i: int| 0 <= i < nows.len() implies #[trigger] got[i] == token@ by {
            if i < p.len() {
                assert(got[i] == serve_in_turn(c, p, token, ttl).2[i]);
            }
        }
    } else {
        assert(nows.drop_last().len() == 0);
        assert(serve_in_turn(c, nows.drop_last(), token, ttl).1 == 0);
        let got = serve_in_turn(c, nows, token, ttl).2;
        assert(got =~= seq![token@]);
    }
}

/// A refresh whose lifetime is no more than the safety margin leaves a token
/// that is already expired.
pub proof fn lemma_short_lifetime_expired(c: CredentialCache, token: String, ttl: u64, t0: u64)
    requires
        ttl <= SAFETY_MARGIN_SECS,
    ensures
        usable_token(refreshed(c, token, ttl, t0), t0) is None,
{
}

} // verus!
