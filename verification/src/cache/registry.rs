//! The registry cache: latest versions by package.
use vstd::prelude::*;

use super::sanitized;
use crate::text::push_str;

verus! {

/// How long a cached latest version stays fresh, in seconds.
pub const DEFAULT_REGISTRY_TTL: u64 = 3600;

/// How long a cached latest version stays fresh, in seconds.
pub fn default_ttl() -> (t: u64)
    ensures
        t == DEFAULT_REGISTRY_TTL,
{
    DEFAULT_REGISTRY_TTL
}

/// The cache file of a package: its sanitized name with `.json`.
pub fn cache_filename(name: &str) -> (r: String)
    ensures
        r@ == sanitized(name@) + ".json"@,
{
    let mut s = super::sanitize_for_filename(name);
    push_str(&mut s, ".json");
    s
}

} // verus!
