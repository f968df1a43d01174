//! The vulnerability cache: vulnerabilities by package and version.
use vstd::prelude::*;

use super::sanitized;
use crate::text::push_str;

verus! {

/// The cache file of a package version: `name@version.json`, both
/// sanitized.
pub fn cache_filename(name: &str, version: &str) -> (r: String)
    ensures
        r@ == sanitized(name@) + "@"@ + sanitized(version@) + ".json"@,
{
    let mut s = super::sanitize_for_filename(name);
    push_str(&mut s, "@");
    let v = super::sanitize_for_filename(version);
    push_str(&mut s, v.as_str());
    push_str(&mut s, ".json");
    s
}

} // verus!
