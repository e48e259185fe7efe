//! Which cache a server uses.

use vstd::prelude::*;
use vstd::std_specs::convert::FromSpecImpl;

use crate::error::{Error, ErrorView, Result};
use crate::text::same;
use crate::webhook::headers::lower;

verus! {

/// A text in lower case.
pub uninterp spec fn lowercase(text: Seq<char>) -> Seq<char>;

/// A text of ASCII characters only.
pub open spec fn is_ascii_text(text: Seq<char>) -> bool {
    forall|i: int| 0 <= i < text.len() ==> (#[trigger] text[i]) as u32 <= 127
}

/// `str::to_lowercase`: the text in lower case. On ASCII text that is letter by letter; what it is
/// on other text Unicode says.
#[verifier::external_body]
pub(crate) fn to_lower(text: &str) -> (r: String)
    ensures
        r@ == lowercase(text@),
        is_ascii_text(text@) ==> r@ == text@.map_values(|c: char| lower(c)),
{
    text.to_lowercase()
}

/// The kind of a cache.
#[derive(Debug, Clone, Copy, PartialEq, Eq, Structural)]
pub enum CacheDriver {
    Redis,
    Memory,
    NoDriver,
}

/// The kind of the cache with this name, in lower case.
pub open spec fn driver_named(name: Seq<char>) -> CacheDriver {
    if name == "redis"@ {
        CacheDriver::Redis
    } else if name == "memory"@ {
        CacheDriver::Memory
    } else {
        CacheDriver::NoDriver
    }
}

impl From<&str> for CacheDriver {
    /// The kind of the cache with this name, in whatever case it is written.
    fn from(s: &str) -> (r: Self) {
        driver_of_name(s)
    }
}

impl FromSpecImpl<&str> for CacheDriver {
    open spec fn obeys_from_spec() -> bool {
        true
    }

    open spec fn from_spec(s: &str) -> CacheDriver {
        driver_named(lowercase(s@))
    }
}

/// The kind of the cache with this name, in whatever case it is written.
pub fn driver_of_name(s: &str) -> (r: CacheDriver)
    ensures
        r == driver_named(lowercase(s@)),
        is_ascii_text(s@) ==> r == driver_named(s@.map_values(|c: char| lower(c))),
{
    let name = to_lower(s);
    if same(name.as_str(), "redis") {
        CacheDriver::Redis
    } else if same(name.as_str(), "memory") {
        CacheDriver::Memory
    } else {
        CacheDriver::NoDriver
    }
}

/// Chooses caches.
pub struct CacheFactory;

impl CacheFactory {
    /// The cache of this kind. Only one in Redis can be had; `opened` is the outcome of opening it,
    /// and counts for that kind only.
    pub fn create<C>(driver: CacheDriver, opened: Result<C>) -> (r: Result<C>)
        ensures
            match driver {
                CacheDriver::Redis => r == opened,
                CacheDriver::Memory => r is Err && r->Err_0@ == ErrorView::CacheError(
                    "Memory cache not implemented yet"@,
                ),
                CacheDriver::NoDriver => r is Err && r->Err_0@ == ErrorView::CacheError(
                    "No cache driver specified"@,
                ),
            },
    {
        match driver {
            CacheDriver::Redis => opened,
            CacheDriver::Memory => Err(
                Error::CacheError("Memory cache not implemented yet".to_string()),
            ),
            CacheDriver::NoDriver => Err(Error::CacheError("No cache driver specified".to_string())),
        }
    }

    /// The cache in Redis, where `opened` is the outcome of opening it: a cache that could not be
    /// opened is an error.
    pub fn create_redis<C>(opened: Result<C>) -> (r: Result<C>)
        ensures
            r == opened,
    {
        CacheFactory::create(CacheDriver::Redis, opened)
    }
}

/// The names `redis` and `memory` name caches in Redis and in memory, in whatever case they are
/// written; any other name names none.
pub proof fn driver_is_named_in_any_case(name: Seq<char>)
    ensures
        driver_named("redis"@) == CacheDriver::Redis,
        driver_named("memory"@) == CacheDriver::Memory,
        name != "redis"@ && name != "memory"@ ==> driver_named(name) == CacheDriver::NoDriver,
{
    reveal_strlit("redis");
    reveal_strlit("memory");
    assert("redis"@.len() == 5);
    assert("memory"@.len() == 6);
}

} // verus!
