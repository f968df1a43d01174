//! Scanning a project for the packages it uses.
pub mod unused;
pub mod scripts;
pub mod imports;
pub mod config;

use vstd::prelude::*;

use crate::text::str_eq;

verus! {

/// The extensions of the JS/TS files that are scanned.
pub open spec fn source_extensions() -> Seq<Seq<char>> {
    seq!["js"@, "ts"@, "jsx"@, "tsx"@, "mjs"@, "cjs"@, "mts"@, "cts"@]
}

/// The directories whose files are never scanned.
pub open spec fn excluded_dirs() -> Seq<Seq<char>> {
    seq!["node_modules"@, "dist"@, "build"@, ".git"@, ".next"@, "coverage"@]
}

/// A file is scanned when its extension is a JS/TS one and no component of
/// its path is an excluded directory.
pub open spec fn is_source_spec(ext: Option<Seq<char>>, components: Seq<Seq<char>>) -> bool {
    &&& ext matches Some(e) && source_extensions().contains(e)
    &&& forall|i: int| 0 <= i < components.len() ==> !excluded_dirs().contains(#[trigger] components[i])
}

/// Whether `s` is one of `names`.
pub(crate) fn one_of(names: &[&str], s: &str) -> (b: bool)
    ensures
        b == names@.map_values(|n: &str| n@).contains(s@),
{
    let ghost nv = names@.map_values(|n: &str| n@);
    let mut i: usize = 0;
    while i < names.len()
        invariant
            i <= names@.len(),
            nv == names@.map_values(|n: &str| n@),
            forall|k: int| 0 <= k < i ==> nv[k] != s@,
        decreases names@.len() - i,
    {
        if str_eq(names[i], s) {
            assert(nv[i as int] == s@);
            return true;
        }
        i = i + 1;
    }
    false
}

/// Whether a file is a JS/TS source file to scan, given its extension and
/// the components of its path.
pub fn is_source_file(ext: Option<&str>, components: &Vec<String>) -> (b: bool)
    ensures
        b == is_source_spec(
            match ext {
                Some(e) => Some(e@),
                None => None,
            },
            components.deep_view(),
        ),
{
    let exts: [&str; 8] = ["js", "ts", "jsx", "tsx", "mjs", "cjs", "mts", "cts"];
    let dirs: [&str; 6] = ["node_modules", "dist", "build", ".git", ".next", "coverage"];
    proof {
        assert(exts@.map_values(|n: &str| n@) =~= source_extensions());
        assert(dirs@.map_values(|n: &str| n@) =~= excluded_dirs());
    }
    let e = match ext {
        Some(e) => e,
        None => return false,
    };
    if !one_of(exts.as_slice(), e) {
        return false;
    }
    let ghost cv = components.deep_view();
    let mut i: usize = 0;
    while i < components.len()
        invariant
            i <= components@.len(),
            cv == components.deep_view(),
            dirs@.map_values(|n: &str| n@) == excluded_dirs(),
            forall|k: int| 0 <= k < i ==> !excluded_dirs().contains(#[trigger] cv[k]),
        decreases components@.len() - i,
    {
        if one_of(dirs.as_slice(), components[i].as_str()) {
            assert(excluded_dirs().contains(cv[i as int]));
            return false;
        }
        i = i + 1;
    }
    true
}

} // verus!
