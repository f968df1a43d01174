//! What the tree screen remembers besides the widget's own selection: the
//! search query and the packages that occur more than once.
use vstd::prelude::*;

use crate::strmap::StrMap;
use crate::text::push_str;

verus! {

/// The state of the dependency tree screen.
#[derive(Debug)]
pub struct TreeState {
    pub search_query: String,
    pub duplicate_packages: StrMap<usize>,
}

impl TreeState {
    /// No search, and no duplicates counted yet.
    pub fn new() -> (s: Self)
        ensures
            s.search_query@.len() == 0,
            s.duplicate_packages.keys().len() == 0,
    {
        TreeState { search_query: String::new(), duplicate_packages: StrMap::new() }
    }
}

impl Default for TreeState {
    fn default() -> (s: Self)
        ensures
            s.search_query@.len() == 0,
            s.duplicate_packages.keys().len() == 0,
    {
        TreeState::new()
    }
}

/// The title of the tree screen: it shows the search query while there is
/// one.
pub open spec fn tree_title_spec(state: Option<&TreeState>) -> Seq<char> {
    match state {
        Some(s) => if s.search_query@.len() > 0 {
            "🌲 Dependency Tree - Search: "@ + s.search_query@
        } else {
            "🌲 Dependency Tree"@
        },
        None => "🌲 Dependency Tree"@,
    }
}

/// The title of the tree screen.
pub fn tree_title(state: Option<&TreeState>) -> (r: String)
    ensures
        r@ == tree_title_spec(state),
{
    let mut r = String::new();
    match state {
        Some(s) => {
            if s.search_query.unicode_len() > 0 {
                push_str(&mut r, "🌲 Dependency Tree - Search: ");
                push_str(&mut r, s.search_query.as_str());
            } else {
                push_str(&mut r, "🌲 Dependency Tree");
            }
        },
        None => {
            push_str(&mut r, "🌲 Dependency Tree");
        },
    }
    r
}

} // verus!
