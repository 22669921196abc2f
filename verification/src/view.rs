//! Where the entries of the store lie, for the program that shows them.

use vstd::prelude::*;
use vstd::string::*;
use crate::hook::Hook;
use crate::store::Store;
use crate::storeid::{entry_path, last_segment, push_path, version_segment};

verus! {

/// `s` without its first character, where that is a path separator.
fn strip_separator(s: &str) -> (r: &str)
    ensures
        r@ == crate::storeid::strip_leading_separator(s@),
{
    let n: usize = s.unicode_len();
    if n > 0 && s.get_char(0) == '/' {
        s.substring_char(1, n)
    } else {
        s
    }
}

/// The path in `store` of the entry `id` in the version `version`: the
/// identifier, `~` and the version, under the store. Without a version given
/// the last `~`-delimited segment of the identifier is taken for it.
pub fn versioned_path<H: Hook>(store: &Store<H>, id: &str, version: Option<&str>) -> (path: String)
    ensures
        path@ == entry_path(
            store.location(),
            id@ + seq!['~'] + (match version {
                Some(v) => v@,
                None => last_segment(id@),
            }),
        ),
{
    let version = match version {
        Some(v) => v,
        None => version_segment(id),
    };
    let mut name = String::from_str(id);
    name.append("~");
    name.append(version);
    proof {
        reveal_strlit("~");
    }
    push_path(store.path(), strip_separator(name.as_str()))
}

/// The pattern that the paths of all versions of the entry `id` in `store`
/// match: the identifier and `~*`, under the store.
pub fn versions_pattern<H: Hook>(store: &Store<H>, id: &str) -> (pattern: String)
    ensures
        pattern@ == entry_path(store.location(), id@ + seq!['~', '*']),
{
    let mut name = String::from_str(id);
    name.append("~*");
    proof {
        reveal_strlit("~*");
    }
    push_path(store.path(), strip_separator(name.as_str()))
}

} // verus!
