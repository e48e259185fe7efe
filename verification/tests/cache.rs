use sockudo::cache::factory::{driver_of_name, CacheDriver, CacheFactory};
use sockudo::cache::manager::CacheManager;
use sockudo::cache::memory_cache_manager::{MemoryCacheConfig, MemoryCacheManager, HOUR, NANOS};
use sockudo::error::Error;

fn cache(default_ttl: Option<u128>) -> MemoryCacheManager {
    let mut config = MemoryCacheConfig::default();
    config.prefix = "p".to_string();
    config.default_ttl = default_ttl;
    MemoryCacheManager::new(config)
}

#[test]
fn cache_config_has_defaults() {
    let config = MemoryCacheConfig::default();
    assert_eq!(config.prefix, "memory_cache");
    assert_eq!(config.response_timeout, Some(5 * NANOS));
    assert_eq!(config.default_ttl, Some(HOUR));
    assert_eq!(config.cleanup_interval_ms, 1000);
}

#[test]
fn written_text_is_read_until_it_expires() {
    let mut cache = cache(None);
    cache.set("k", "v", 2, 100).unwrap();
    assert_eq!(cache.get("k", 100 + 2 * NANOS - 1).unwrap(), Some("v".to_string()));
    assert!(cache.has("k", 100).unwrap());
    assert!(!cache.has("k", 100 + 2 * NANOS).unwrap());
    assert_eq!(cache.ttl("k", 100).unwrap(), 2);
    assert_eq!(cache.ttl("k", 100 + NANOS / 2).unwrap(), 1);
    assert_eq!(cache.ttl("k", 100 + 5 * NANOS).unwrap(), 0);
    assert_eq!(cache.get("k", 100 + 2 * NANOS).unwrap(), None);
    assert_eq!(cache.ttl("k", 0).unwrap(), -1);
}

#[test]
fn a_text_without_a_life_lives_as_the_cache_says() {
    let mut forever = cache(None);
    forever.set("k", "v", 0, 5).unwrap();
    assert_eq!(forever.get("k", u128::MAX).unwrap(), Some("v".to_string()));
    assert_eq!(forever.ttl("k", 5).unwrap(), -1);
    let mut hourly = cache(Some(HOUR));
    hourly.set("k", "v", 0, 5).unwrap();
    assert_eq!(hourly.get("k", HOUR + 4).unwrap(), Some("v".to_string()));
    assert_eq!(hourly.get("k", HOUR + 5).unwrap(), None);
}

#[test]
fn deleted_key_is_gone() {
    let mut cache = cache(None);
    cache.set("a", "1", 0, 0).unwrap();
    cache.set("b", "2", 0, 0).unwrap();
    assert!(cache.delete("a").unwrap());
    assert!(!cache.delete("a").unwrap());
    assert_eq!(cache.get("a", 0).unwrap(), None);
    assert_eq!(cache.get("b", 0).unwrap(), Some("2".to_string()));
}

#[test]
fn many_keys_are_read_and_written() {
    let mut cache = cache(None);
    cache.set_many(&vec![("a", "1"), ("b", "2"), ("a", "3")], 1, 0).unwrap();
    let found = cache.get_many(&vec!["a", "x", "b", "a"], 0).unwrap();
    assert_eq!(
        found,
        vec![Some("3".to_string()), None, Some("2".to_string()), Some("3".to_string())]
    );
    let found = cache.get_many(&vec!["a", "b"], NANOS).unwrap();
    assert_eq!(found, vec![None, None]);
}

#[test]
fn expired_texts_are_cleaned_up() {
    let mut cache = cache(None);
    cache.set("a", "1", 1, 0).unwrap();
    cache.set("b", "2", 5, 0).unwrap();
    cache.cleanup_expired_entries(NANOS);
    assert_eq!(cache.ttl("a", 0).unwrap(), -1);
    assert_eq!(cache.ttl("b", 0).unwrap(), 5);
}

#[test]
fn clearing_the_prefix_counts() {
    let mut cache = cache(None);
    cache.set("a", "1", 0, 0).unwrap();
    cache.set("b", "2", 0, 0).unwrap();
    assert_eq!(cache.clear_prefix().unwrap(), 2);
    assert_eq!(cache.clear_prefix().unwrap(), 0);
    assert_eq!(cache.get("a", 0).unwrap(), None);
}

#[test]
fn disconnecting_empties_the_cache() {
    let mut cache = MemoryCacheManager::with_prefix("q");
    assert_eq!(cache.prefixed_key("k"), "q:k");
    assert_eq!(cache.cleanup_interval_ms(), 1000);
    cache.set("a", "1", 0, 0).unwrap();
    assert!(cache.is_healthy().unwrap());
    cache.disconnect().unwrap();
    assert_eq!(cache.get("a", 0).unwrap(), None);
}

#[test]
fn disconnecting_stops_the_cleanup() {
    let mut cache = cache(None);
    cache.set("a", "1", 1, 0).unwrap();
    assert!(!cache.cleanup_tick(NANOS));
    assert_eq!(cache.ttl("a", 0).unwrap(), 1);
    assert_eq!(cache.start_cleanup_task(), cache.cleanup_interval_ms());
    assert!(cache.cleanup_tick(NANOS));
    assert_eq!(cache.ttl("a", 0).unwrap(), -1);
    cache.disconnect().unwrap();
    cache.set("b", "2", 1, 0).unwrap();
    assert!(!cache.cleanup_tick(NANOS));
    assert_eq!(cache.ttl("b", 0).unwrap(), 1);
}

#[test]
fn cache_drivers_are_named_in_any_case() {
    assert_eq!(driver_of_name("REDIS"), CacheDriver::Redis);
    assert_eq!(CacheDriver::from("Memory"), CacheDriver::Memory);
    assert_eq!(CacheDriver::from("disk"), CacheDriver::NoDriver);
}

#[test]
fn only_a_redis_cache_can_be_chosen() {
    assert_eq!(CacheFactory::create(CacheDriver::Redis, Ok(7)).unwrap(), 7);
    assert_eq!(CacheFactory::create_redis(Ok(7)).unwrap(), 7);
    match CacheFactory::create_redis::<u8>(Err(Error::RedisError("refused".to_string()))) {
        Err(Error::RedisError(m)) => assert_eq!(m, "refused"),
        _ => panic!("expected an error"),
    }
    match CacheFactory::create(CacheDriver::Memory, Ok(7)) {
        Err(Error::CacheError(m)) => assert_eq!(m, "Memory cache not implemented yet"),
        _ => panic!("expected an error"),
    }
    match CacheFactory::create(CacheDriver::NoDriver, Ok(7)) {
        Err(Error::CacheError(m)) => assert_eq!(m, "No cache driver specified"),
        _ => panic!("expected an error"),
    }
}

#[test]
fn create_memory_makes_an_empty_cache() {
    assert_eq!(CacheFactory::create_memory(None).unwrap().prefixed_key("k"), "memory_cache:k");
    let mut cache = CacheFactory::create_memory(Some("x")).unwrap();
    assert_eq!(cache.prefixed_key("k"), "x:k");
    assert!(cache.cleanup_tick(0));
    assert_eq!(cache.get("k", 0).unwrap(), None);
}
