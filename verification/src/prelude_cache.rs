use vstd::prelude::*;
use crate::env::Symbol;
use crate::solve::TypeRegistry;
use crate::typed_ast::TypedItem;
use std::collections::hash_map::DefaultHasher;
use std::hash::{Hash, Hasher};

verus! {

// Where the prelude cache lives and when a cached prelude may be used. Reading the
// environment and the file system is left to the caller; this module decides.

/// The format version written into every cache file.
pub const CACHE_VERSION: u8 = 1;

/// The operating-system family, which decides the default cache location.
#[derive(Clone, Copy, Debug, PartialEq, Eq, Structural)]
pub enum Platform {
    Windows,
    MacOs,
    Other,
}

/// The environment variables that the cache location depends on.
pub struct CacheEnv {
    /// `KILN_CACHE_DIR`
    pub kiln_cache_dir: Option<String>,
    /// `LOCALAPPDATA`
    pub local_app_data: Option<String>,
    /// `XDG_CACHE_HOME`
    pub xdg_cache_home: Option<String>,
    /// `HOME`
    pub home: Option<String>,
}

/// The characters of each string of a list.
pub open spec fn texts(s: Seq<String>) -> Seq<Seq<char>> {
    s.map_values(|x: String| x@)
}

/// The cache directory as path components: the explicit override if set; else the
/// platform's cache location (`%LOCALAPPDATA%\kiln`, `~/Library/Caches/kiln`,
/// `$XDG_CACHE_HOME/kiln` or `~/.cache/kiln`) when its variable is set; else `.kiln`.
pub open spec fn cache_dir_spec(
    platform: Platform,
    over: Option<Seq<char>>,
    local_app_data: Option<Seq<char>>,
    xdg: Option<Seq<char>>,
    home: Option<Seq<char>>,
) -> Seq<Seq<char>> {
    if over is Some {
        seq![over->Some_0]
    } else if platform == Platform::Windows && local_app_data is Some {
        seq![local_app_data->Some_0, "kiln"@]
    } else if platform == Platform::MacOs && home is Some {
        seq![home->Some_0, "Library"@, "Caches"@, "kiln"@]
    } else if platform == Platform::Other && xdg is Some {
        seq![xdg->Some_0, "kiln"@]
    } else if platform == Platform::Other && home is Some {
        seq![home->Some_0, ".cache"@, "kiln"@]
    } else {
        seq![".kiln"@]
    }
}

pub open spec fn opt_text(o: Option<String>) -> Option<Seq<char>> {
    match o {
        Some(s) => Some(s@),
        None => None,
    }
}

/// The cache directory for `platform` under the variables in `env`, as path components.
pub fn cache_dir(platform: Platform, env: &CacheEnv) -> (r: Vec<String>)
    ensures
        texts(r@) == cache_dir_spec(
            platform,
            opt_text(env.kiln_cache_dir),
            opt_text(env.local_app_data),
            opt_text(env.xdg_cache_home),
            opt_text(env.home),
        ),
{
    let mut out: Vec<String> = Vec::new();
    if let Some(dir) = &env.kiln_cache_dir {
        out.push(dir.clone());
    } else if platform == Platform::Windows && env.local_app_data.is_some() {
        out.push(env.local_app_data.as_ref().unwrap().clone());
        out.push(String::from_str("kiln"));
    } else if platform == Platform::MacOs && env.home.is_some() {
        out.push(env.home.as_ref().unwrap().clone());
        out.push(String::from_str("Library"));
        out.push(String::from_str("Caches"));
        out.push(String::from_str("kiln"));
    } else if platform == Platform::Other && env.xdg_cache_home.is_some() {
        out.push(env.xdg_cache_home.as_ref().unwrap().clone());
        out.push(String::from_str("kiln"));
    } else if platform == Platform::Other && env.home.is_some() {
        out.push(env.home.as_ref().unwrap().clone());
        out.push(String::from_str(".cache"));
        out.push(String::from_str("kiln"));
    } else {
        out.push(String::from_str(".kiln"));
    }
    assert(texts(out@) =~= cache_dir_spec(
        platform,
        opt_text(env.kiln_cache_dir),
        opt_text(env.local_app_data),
        opt_text(env.xdg_cache_home),
        opt_text(env.home),
    ));
    out
}

/// The cache file: `prelude_cache_v1.bin` in the cache directory, as path components.
pub fn cache_path(platform: Platform, env: &CacheEnv) -> (r: Vec<String>)
    ensures
        texts(r@) == cache_dir_spec(
            platform,
            opt_text(env.kiln_cache_dir),
            opt_text(env.local_app_data),
            opt_text(env.xdg_cache_home),
            opt_text(env.home),
        ).push("prelude_cache_v1.bin"@),
{
    let mut p = cache_dir(platform, env);
    let ghost d = p@;
    p.push(String::from_str("prelude_cache_v1.bin"));
    assert(texts(p@) =~= texts(d).push("prelude_cache_v1.bin"@));
    p
}

/// A cache that decoded is used only if it was written in this format version for the
/// same prelude sources.
pub fn cache_is_current(version: u8, source_hash: u64, current_hash: u64) -> (r: bool)
    ensures
        r == (version == CACHE_VERSION && source_hash == current_hash),
{
    version == CACHE_VERSION && source_hash == current_hash
}

/// Feeds `s` to `h` through `str`'s `Hash` impl (std's `Hash::hash`). Nothing is claimed
/// of the hasher's state afterwards: std documents neither the bytes this writes nor the
/// hashing algorithm, which may change between Rust releases.
#[verifier::external_body]
fn hash_str(s: &str, h: &mut DefaultHasher) {
    s.hash(h);
}

/// Hashes the prelude sources, in order, with std's default hasher, so that a cache
/// built from other sources is not used. The value rests on std's unspecified hashing
/// algorithm, so no contract states it.
pub fn compute_source_hash(sources: &[&str]) -> u64 {
    let mut h = DefaultHasher::new();
    let mut i: usize = 0;
    while i < sources.len()
        invariant
            i <= sources@.len(),
        decreases sources@.len() - i,
    {
        hash_str(sources[i], &mut h);
        i += 1;
    }
    h.finish()
}

/// A prelude analyzed once and kept for later runs: the format version, the hash of the
/// prelude sources it was built from, and what analyzing the prelude produced.
pub struct PreludeCache {
    pub version: u8,
    pub source_hash: u64,
    pub typed_items: Vec<TypedItem>,
    pub registry: TypeRegistry,
    pub env_symbols: Vec<(String, Symbol)>,
}

/// The use of a decoded cache: kept when it was written in this format version for the
/// current prelude sources, refused otherwise.
pub fn accept_loaded(cache: PreludeCache, current_hash: u64) -> (r: Option<PreludeCache>)
    ensures
        r is Some <==> (cache.version == CACHE_VERSION && cache.source_hash == current_hash),
        r matches Some(c) ==> c == cache,
{
    if cache_is_current(cache.version, cache.source_hash, current_hash) {
        Some(cache)
    } else {
        None
    }
}

} // verus!
