//! Access tokens that run out.
use vstd::prelude::*;
use vstd::string::*;

use crate::types;

verus! {

/// A token is renewed so many seconds before it runs out.
pub const TOKEN_EXPIRY_MARGIN: u64 = 300;

/// An access token with the time at which it came, in milliseconds, and the
/// seconds for which it holds.
#[derive(Debug)]
pub struct TokenCache {
    pub token: String,
    pub acquired_at: u64,
    pub expires_in: u64,
}

/// Whether a token that came at `acquired_at` is due for renewal at `now`.
pub open spec fn token_expired(acquired_at: u64, expires_in: u64, now: u64) -> bool {
    let elapsed = if now >= acquired_at {
        now - acquired_at
    } else {
        0
    };
    elapsed + TOKEN_EXPIRY_MARGIN * 1000 >= expires_in * 1000
}

impl TokenCache {
    /// Whether this token is due for renewal.
    pub fn is_expired(&self, now: u64) -> (r: bool)
        ensures
            r == token_expired(self.acquired_at, self.expires_in, now),
    {
        let elapsed: u64 = if now >= self.acquired_at {
            now - self.acquired_at
        } else {
            0
        };
        elapsed as u128 + TOKEN_EXPIRY_MARGIN as u128 * 1000 >= self.expires_in as u128 * 1000
    }
}

/// The token to use without a request: the cached one, unless it is due.
pub open spec fn usable_token(cache: Option<TokenCache>, now: u64) -> Option<Seq<char>> {
    match cache {
        Some(c) => if token_expired(c.acquired_at, c.expires_in, now) {
            None
        } else {
            Some(c.token@)
        },
        None => None,
    }
}

/// The token to use without a request.
pub fn cached_token(cache: &Option<TokenCache>, now: u64) -> (r: Option<String>)
    ensures
        types::opt_text(r) == usable_token(*cache, now),
{
    match cache {
        Some(c) => if c.is_expired(now) {
            None
        } else {
            Some(c.token.clone())
        },
        None => None,
    }
}

/// The seconds that a token holds, read as an unsigned number; two hours where
/// the platform does not say.
pub open spec fn lifetime(expire: Option<i64>) -> int {
    match expire {
        Some(n) => if n < 0 {
            n + 0x1_0000_0000_0000_0000
        } else {
            n as int
        },
        None => 7200,
    }
}

/// The seconds that a token holds.
pub fn token_lifetime(expire: Option<i64>) -> (r: u64)
    ensures
        r == lifetime(expire),
{
    match expire {
        Some(n) => if n < 0 {
            (n as i128 + 0x1_0000_0000_0000_0000) as u64
        } else {
            n as u64
        },
        None => 7200,
    }
}

/// Once due, a token stays due.
pub proof fn law_expiry_is_final(acquired_at: u64, expires_in: u64, now: u64, later: u64)
    requires
        token_expired(acquired_at, expires_in, now),
        now <= later,
    ensures
        token_expired(acquired_at, expires_in, later),
{
}

/// A token is used as it is until five minutes before it runs out, and not after.
pub proof fn law_token_is_used_while_it_holds(cache: TokenCache, now: u64)
    requires
        now >= cache.acquired_at,
    ensures
        usable_token(Some(cache), now) == Some(cache.token@) <==> (now - cache.acquired_at) + 300_000
            < cache.expires_in * 1000,
        usable_token(None, now) is None,
{
}

/// A token holds as long as the platform says, or two hours.
pub proof fn law_lifetime_is_what_the_platform_says(n: i64)
    ensures
        n >= 0 ==> lifetime(Some(n)) == n,
        lifetime(None) == 7200,
{
}

} // verus!
