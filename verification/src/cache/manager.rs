//! What a cache offers.

use vstd::prelude::*;

use crate::error::Result;

verus! {

/// A cache of texts that expire. Times are in nanoseconds.
pub trait CacheManager {
    /// Whether a text with this life, which begins at `now`, has an end that can be told.
    spec fn can_expire(&self, ttl_seconds: u64, now: u128) -> bool;

    /// Whether there is a text under a key.
    fn has(&mut self, key: &str, now: u128) -> Result<bool>;

    /// The text under a key; none where there is none, or it has expired.
    fn get(&mut self, key: &str, now: u128) -> Result<Option<String>>;

    /// Puts a text under a key, in place of what was there.
    fn set(&mut self, key: &str, value: &str, ttl_seconds: u64, now: u128) -> Result<()>
        requires
            old(self).can_expire(ttl_seconds, now),
    ;

    /// Gives the cache up.
    fn disconnect(&mut self) -> Result<()>;

    /// Whether the cache works.
    fn is_healthy(&self) -> Result<bool>;
}

} // verus!
