//! The points in the life of an entry at which hooks run.

use vstd::prelude::*;

verus! {

/// Where in the life of an entry a hook runs.
#[derive(Clone, Copy, Debug, PartialEq, Eq, Structural)]
pub enum HookPosition {
    PreCreate,
    PostCreate,
    PreRetrieve,
    PostRetrieve,
    PreUpdate,
    PostUpdate,
    PreDelete,
    PostDelete,
}

} // verus!
