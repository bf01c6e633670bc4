use kiln::prelude_cache::{accept_loaded, cache_dir, cache_is_current, cache_path, compute_source_hash, CacheEnv, Platform, PreludeCache, CACHE_VERSION};
use kiln::solve::TypeRegistry;

fn env(over: Option<&str>, lad: Option<&str>, xdg: Option<&str>, home: Option<&str>) -> CacheEnv {
    CacheEnv {
        kiln_cache_dir: over.map(String::from),
        local_app_data: lad.map(String::from),
        xdg_cache_home: xdg.map(String::from),
        home: home.map(String::from),
    }
}

#[test]
fn override_wins_everywhere() {
    let e = env(Some("/tmp/c"), Some("C:/L"), Some("/x"), Some("/h"));
    for p in [Platform::Windows, Platform::MacOs, Platform::Other] {
        assert_eq!(cache_dir(p, &e), vec!["/tmp/c".to_string()]);
    }
}

#[test]
fn platform_defaults() {
    let e = env(None, Some("C:/L"), Some("/x"), Some("/h"));
    assert_eq!(cache_dir(Platform::Windows, &e), vec!["C:/L", "kiln"]);
    assert_eq!(cache_dir(Platform::MacOs, &e), vec!["/h", "Library", "Caches", "kiln"]);
    assert_eq!(cache_dir(Platform::Other, &e), vec!["/x", "kiln"]);
    let no_xdg = env(None, None, None, Some("/h"));
    assert_eq!(cache_dir(Platform::Other, &no_xdg), vec!["/h", ".cache", "kiln"]);
}

#[test]
fn fallback_and_file_name() {
    let e = env(None, None, None, None);
    assert_eq!(cache_dir(Platform::Windows, &e), vec![".kiln"]);
    assert_eq!(cache_path(Platform::Other, &e), vec![".kiln", "prelude_cache_v1.bin"]);
}

#[test]
fn cache_currency() {
    assert!(cache_is_current(CACHE_VERSION, 42, 42));
    assert!(!cache_is_current(CACHE_VERSION, 42, 43));
    assert!(!cache_is_current(CACHE_VERSION + 1, 42, 42));
}

#[test]
fn source_hash_is_stable_and_order_sensitive() {
    let a = compute_source_hash(&["fn main()", "struct S"]);
    assert_eq!(a, compute_source_hash(&["fn main()", "struct S"]));
    assert_ne!(a, compute_source_hash(&["struct S", "fn main()"]));
    assert_ne!(a, compute_source_hash(&["fn main()", "struct T"]));
}

#[test]
fn loaded_cache_is_kept_only_for_this_version_and_sources() {
    use_accept(CACHE_VERSION, 7, 7, true);
    use_accept(CACHE_VERSION, 7, 8, false);
    use_accept(CACHE_VERSION + 1, 7, 7, false);
}

fn use_accept(version: u8, hash: u64, current: u64, kept: bool) {
    let cache = PreludeCache {
        version,
        source_hash: hash,
        typed_items: vec![],
        registry: TypeRegistry::new(),
        env_symbols: vec![],
    };
    let r = accept_loaded(cache, current);
    assert_eq!(r.is_some(), kept);
    if let Some(c) = r {
        assert_eq!(c.source_hash, hash);
    }
}
