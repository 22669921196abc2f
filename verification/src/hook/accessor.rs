//! What a hook works on: the identifier of an entry, an entry that it only
//! reads, or an entry that it may change.

use vstd::prelude::*;
use crate::entry::{EntryView, FileLockEntry};
use crate::hook::error::HookResult;
use crate::storeid::StoreId;

verus! {

/// A hook that works on the identifier of an entry alone.
pub trait StoreIdAccessor {
    /// Whether this hook may answer `r` when handed the identifier `id`. A
    /// hook that does not say may answer anything.
    open spec fn answers(&self, id: Seq<char>, r: HookResult<()>) -> bool {
        true
    }

    /// Runs the hook on `id`.
    fn access(&self, id: &StoreId) -> (r: HookResult<()>)
        ensures
            self.answers(id@, r),
    ;
}

/// A hook that may change the entry it is handed.
pub trait MutableHookDataAccessor {
    /// Whether this hook may turn the entry `before` into `after` and
    /// answer `r`. A hook that does not say may do anything.
    open spec fn rewrites(&self, before: EntryView, after: EntryView, r: HookResult<()>) -> bool {
        true
    }

    /// Runs the hook on `fle`. The entry stays with its holder.
    fn access_mut(&self, fle: &mut FileLockEntry) -> (r: HookResult<()>)
        ensures
            self.rewrites(old(fle)@, final(fle)@, r),
            final(fle).key() == old(fle).key(),
    ;
}

/// A hook that reads the entry it is handed.
pub trait NonMutableHookDataAccessor {
    /// Whether this hook may answer `r` when handed the entry `entry`. A
    /// hook that does not say may answer anything.
    open spec fn observes(&self, entry: EntryView, r: HookResult<()>) -> bool {
        true
    }

    /// Runs the hook on `fle`.
    fn access(&self, fle: &FileLockEntry) -> (r: HookResult<()>)
        ensures
            self.observes(fle@, r),
    ;
}

/// The three kinds of hook.
#[derive(Clone, Copy, Debug, PartialEq, Eq, Structural)]
pub enum AccessKind {
    StoreId,
    Mutable,
    NonMutable,
}

/// A hook by what it works on.
pub enum HookDataAccessor<'a> {
    StoreIdAccess(&'a dyn StoreIdAccessor),
    MutableAccess(&'a dyn MutableHookDataAccessor),
    NonMutableAccess(&'a dyn NonMutableHookDataAccessor),
}

impl<'a> HookDataAccessor<'a> {
    /// The kind of this hook.
    pub open spec fn kind(&self) -> AccessKind {
        match self {
            HookDataAccessor::StoreIdAccess(_) => AccessKind::StoreId,
            HookDataAccessor::MutableAccess(_) => AccessKind::Mutable,
            HookDataAccessor::NonMutableAccess(_) => AccessKind::NonMutable,
        }
    }

    /// The kind of this hook.
    pub fn access_kind(&self) -> (k: AccessKind)
        ensures
            k == self.kind(),
    {
        match self {
            HookDataAccessor::StoreIdAccess(_) => AccessKind::StoreId,
            HookDataAccessor::MutableAccess(_) => AccessKind::Mutable,
            HookDataAccessor::NonMutableAccess(_) => AccessKind::NonMutable,
        }
    }
}

/// What hands out a hook by what it works on. The kind is fixed: every call
/// of `accessor` gives the same one, and what the hook handed out does is
/// what this trait says of its kind.
pub trait HookDataAccessorProvider {
    /// The kind of this hook.
    open spec fn kind(&self) -> AccessKind {
        arbitrary()
    }

    /// Whether this hook, if it works on identifiers, may answer `r` when
    /// handed `id`. A hook that does not say may answer anything.
    open spec fn id_answers(&self, id: Seq<char>, r: HookResult<()>) -> bool {
        true
    }

    /// Whether this hook, if it may change entries, may turn `before` into
    /// `after` and answer `r`. A hook that does not say may do anything.
    open spec fn entry_rewrites(&self, before: EntryView, after: EntryView, r: HookResult<()>) -> bool {
        true
    }

    /// Whether this hook, if it reads entries, may answer `r` when handed
    /// `entry`. A hook that does not say may answer anything.
    open spec fn entry_observes(&self, entry: EntryView, r: HookResult<()>) -> bool {
        true
    }

    /// This hook by what it works on.
    fn accessor(&self) -> (a: HookDataAccessor<'_>)
        ensures
            a.kind() == self.kind(),
            a matches HookDataAccessor::StoreIdAccess(x) ==> forall|
                id: Seq<char>,
                r: HookResult<()>,
            | #[trigger] x.answers(id, r) ==> self.id_answers(id, r),
            a matches HookDataAccessor::MutableAccess(x) ==> forall|
                before: EntryView,
                after: EntryView,
                r: HookResult<()>,
            | #[trigger] x.rewrites(before, after, r) ==> self.entry_rewrites(before, after, r),
            a matches HookDataAccessor::NonMutableAccess(x) ==> forall|
                entry: EntryView,
                r: HookResult<()>,
            | #[trigger] x.observes(entry, r) ==> self.entry_observes(entry, r),
    ;
}

} // verus!
