//! Identifiers of entries: relative paths whose last segment names a version.

use vstd::prelude::*;
use vstd::std_specs::cmp::{PartialEqSpec, PartialEqSpecImpl};
use vstd::string::*;
use crate::error::Error;
use crate::hook::Hook;
use crate::store::{Store, StoreError, StoreErrorKind};
use crate::text::{holds, lemma_split, split, split_text};
use crate::version::{is_semver, semver_text, version_text};

verus! {

/// The character that separates the name of an entry from its version.
pub open spec fn version_separator() -> char {
    '~'
}

/// The character that separates the parts of a path.
pub open spec fn path_separator() -> char {
    '/'
}

/// The last `~`-delimited segment of `s`: what follows the last `~`, or all
/// of `s` where it holds none.
pub open spec fn last_segment(s: Seq<char>) -> Seq<char> {
    split(s, version_separator()).last()
}

/// `s` without its first character, where that is a path separator.
pub open spec fn strip_leading_separator(s: Seq<char>) -> Seq<char> {
    if s.len() > 0 && s[0] == path_separator() {
        s.subrange(1, s.len() as int)
    } else {
        s
    }
}

/// `rel` appended under `root`, with one separator between them unless `root`
/// is empty or ends in one.
pub open spec fn join_path(root: Seq<char>, rel: Seq<char>) -> Seq<char> {
    if root.len() == 0 || root.last() == path_separator() {
        root + rel
    } else {
        root + seq![path_separator()] + rel
    }
}

/// The path of the entry `path_elem` in the store at `root`.
pub open spec fn entry_path(root: Seq<char>, path_elem: Seq<char>) -> Seq<char> {
    join_path(root, strip_leading_separator(path_elem))
}

/// The last segment ends the text, holds no `~`, and is all of the text or
/// stands directly behind a `~`.
pub proof fn lemma_last_segment(s: Seq<char>)
    ensures
        last_segment(s).len() <= s.len(),
        last_segment(s) == s.subrange(s.len() - last_segment(s).len(), s.len() as int),
        !holds(last_segment(s), version_separator()),
        last_segment(s).len() < s.len() ==> s[s.len() - last_segment(s).len() - 1]
            == version_separator(),
    decreases s.len(),
{
    let sep = version_separator();
    lemma_split(s, sep);
    if s.len() > 0 && s.last() != sep {
        let t = s.drop_last();
        lemma_last_segment(t);
        lemma_split(t, sep);
    }
}

/// The last `~`-delimited segment of `path_elem`: the part that has to name
/// a version.
pub fn version_segment(path_elem: &str) -> (segment: &str)
    ensures
        segment@ == last_segment(path_elem@),
{
    let parts = split_text(path_elem, '~');
    proof {
        lemma_split(path_elem@, '~');
    }
    parts[parts.len() - 1]
}

/// `rel` appended under `root`.
pub fn push_path(root: &str, rel: &str) -> (path: String)
    ensures
        path@ == join_path(root@, rel@),
{
    let n: usize = root.unicode_len();
    let mut path = String::from_str(root);
    if n > 0 && root.get_char(n - 1) != '/' {
        path.append("/");
        proof {
            reveal_strlit("/");
        }
    }
    path.append(rel);
    path
}

/// The path of the entry `path_elem` in the store at `root`, given whether
/// the last segment of `path_elem` names a version: without one the path is
/// refused.
pub fn compose_entry_path(root: &str, path_elem: &str, versioned: bool) -> (r: Result<
    String,
    StoreError,
>)
    ensures
        versioned ==> r is Ok && r.unwrap()@ == entry_path(root@, path_elem@),
        !versioned ==> r is Err && r.unwrap_err().is_bare(StoreErrorKind::StorePathLacksVersion),
{
    if !versioned {
        return Err(Error::new(StoreErrorKind::StorePathLacksVersion, None));
    }
    let n: usize = path_elem.unicode_len();
    if n > 0 && path_elem.get_char(0) == '/' {
        Ok(push_path(root, path_elem.substring_char(1, n)))
    } else {
        Ok(push_path(root, path_elem))
    }
}

/// The path of the entry `path_elem` in `store`. The last `~`-delimited
/// segment of `path_elem` has to be a version number; a leading separator is
/// dropped, so that the path always lies under the store.
pub fn build_entry_path<H: Hook>(store: &Store<H>, path_elem: &str) -> (r: Result<String, StoreError>)
    ensures
        is_semver(last_segment(path_elem@)) ==> r is Ok && r.unwrap()@ == entry_path(
            store.location(),
            path_elem@,
        ),
        !is_semver(last_segment(path_elem@)) ==> r is Err && r.unwrap_err().is_bare(
            StoreErrorKind::StorePathLacksVersion,
        ),
{
    let versioned = version_text(version_segment(path_elem)).is_some();
    compose_entry_path(store.path(), path_elem, versioned)
}

/// The identifier of an entry: its path, relative to the store or under it.
#[derive(Debug, Hash, Eq, Ord)]
pub struct StoreId {
    path: String,
}

impl View for StoreId {
    type V = Seq<char>;

    closed spec fn view(&self) -> Seq<char> {
        self.path@
    }
}

impl PartialEq for StoreId {
    fn eq(&self, other: &Self) -> (r: bool) {
        self.path == other.path
    }
}

impl PartialEqSpecImpl for StoreId {
    open spec fn obeys_eq_spec() -> bool {
        true
    }

    open spec fn eq_spec(&self, other: &Self) -> bool {
        self@ == other@
    }
}

impl Clone for StoreId {
    fn clone(&self) -> (id: Self)
        ensures
            id@ == self@,
    {
        StoreId { path: self.path.clone() }
    }
}

impl StoreId {
    /// The identifier with the given path. The path is taken as it is: that
    /// its last segment names a version is the caller's business.
    pub fn from_path(path: String) -> (id: StoreId)
        ensures
            id@ == path@,
    {
        StoreId { path }
    }

    /// The path of this identifier.
    pub fn as_str(&self) -> (path: &str)
        ensures
            path@ == self@,
    {
        self.path.as_str()
    }

    /// The path of this identifier, given up by it.
    pub fn into_path(self) -> (path: String)
        ensures
            path@ == self@,
    {
        self.path
    }

    /// Whether the last segment of this identifier names a version.
    pub fn has_version(&self) -> (r: bool)
        ensures
            r == is_semver(last_segment(self@)),
    {
        version_text(version_segment(self.path.as_str())).is_some()
    }
}

/// What can be turned into the identifier of an entry.
pub trait IntoStoreId: Sized {
    /// The path of the identifier that this turns into.
    open spec fn storeid_path(&self) -> Seq<char> {
        arbitrary()
    }

    /// The identifier of the entry that this names.
    fn into_storeid(self) -> (id: StoreId)
        ensures
            id@ == self.storeid_path(),
    ;
}

impl IntoStoreId for String {
    open spec fn storeid_path(&self) -> Seq<char> {
        self@
    }

    fn into_storeid(self) -> (id: StoreId) {
        StoreId::from_path(self)
    }
}

impl IntoStoreId for StoreId {
    open spec fn storeid_path(&self) -> Seq<char> {
        self@
    }

    fn into_storeid(self) -> (id: StoreId) {
        self
    }
}

/// The path of the entry `name` of the module `module` in the version
/// written `version`.
pub open spec fn module_entry_path(module: Seq<char>, name: Seq<char>, version: Seq<char>) -> Seq<
    char,
> {
    module + seq![path_separator()] + name + seq![version_separator()] + version
}

/// A module of the store and the version in which it writes its entries.
#[derive(Debug)]
pub struct ModulePath {
    module: String,
    version: String,
}

impl ModulePath {
    /// The name of the module.
    pub closed spec fn module(&self) -> Seq<char> {
        self.module@
    }

    /// The version of the module's entries, as it is written into paths.
    pub closed spec fn version(&self) -> Seq<char> {
        self.version@
    }

    /// The module `module`, given what its version reads as: without a
    /// version there is no such module.
    pub fn with_version(module: &str, version: Option<String>) -> (r: Result<
        ModulePath,
        StoreError,
    >)
        ensures
            match version {
                Some(v) => r matches Ok(m) && m.module() == module@ && m.version() == v@,
                None => r matches Err(e) && e.is_bare(StoreErrorKind::StorePathLacksVersion),
            },
    {
        match version {
            Some(v) => Ok(ModulePath { module: String::from_str(module), version: v }),
            None => Err(Error::new(StoreErrorKind::StorePathLacksVersion, None)),
        }
    }

    /// The module `module` with entries of the version `version`, which has
    /// to be a version number.
    pub fn new(module: &str, version: &str) -> (r: Result<ModulePath, StoreError>)
        ensures
            match semver_text(version@) {
                Some(v) => r matches Ok(m) && m.module() == module@ && m.version() == v,
                None => r matches Err(e) && e.is_bare(StoreErrorKind::StorePathLacksVersion),
            },
    {
        ModulePath::with_version(module, version_text(version))
    }
}

/// The path of one entry of a module.
#[derive(Debug)]
pub struct ModuleEntryPath {
    path: String,
}

impl View for ModuleEntryPath {
    type V = Seq<char>;

    closed spec fn view(&self) -> Seq<char> {
        self.path@
    }
}

impl ModuleEntryPath {
    /// The path of the entry `name` of `module`: the module, the name, and
    /// the module's version behind a `~`.
    pub fn new(module: &ModulePath, name: &str) -> (p: ModuleEntryPath)
        ensures
            p@ == module_entry_path(module.module(), name@, module.version()),
    {
        let mut path = module.module.clone();
        path.append("/");
        path.append(name);
        path.append("~");
        path.append(module.version.as_str());
        proof {
            reveal_strlit("/");
            reveal_strlit("~");
        }
        ModuleEntryPath { path }
    }
}

impl IntoStoreId for ModuleEntryPath {
    open spec fn storeid_path(&self) -> Seq<char> {
        self@
    }

    fn into_storeid(self) -> (id: StoreId) {
        StoreId::from_path(self.path)
    }
}

/// Two entries of one module under one name have the same path exactly when
/// their versions are written the same.
pub proof fn lemma_module_entry_path_version(
    module: Seq<char>,
    name: Seq<char>,
    v1: Seq<char>,
    v2: Seq<char>,
)
    ensures
        module_entry_path(module, name, v1) == module_entry_path(module, name, v2) <==> v1 == v2,
{
    let prefix = module + seq![path_separator()] + name + seq![version_separator()];
    let first = module_entry_path(module, name, v1);
    let second = module_entry_path(module, name, v2);
    if first == second {
        assert(v1 =~= first.subrange(prefix.len() as int, first.len() as int));
        assert(v2 =~= second.subrange(prefix.len() as int, second.len() as int));
    }
}

/// Identifiers made from one module, name and version are equal; made from
/// one module and name in versions that are written differently, they are
/// not.
pub proof fn lemma_storeid_eq(a: StoreId, b: StoreId, module: Seq<char>, name: Seq<char>, v1: Seq<
    char,
>, v2: Seq<char>)
    requires
        a@ == module_entry_path(module, name, v1),
        b@ == module_entry_path(module, name, v2),
    ensures
        PartialEqSpec::eq_spec(&a, &b) <==> v1 == v2,
{
    lemma_module_entry_path_version(module, name, v1, v2);
}

/// The identifiers that a query of the store found, handed out one by one.
#[derive(Debug)]
pub struct StoreIdIterator {
    ids: Vec<StoreId>,
    next: usize,
}

impl StoreIdIterator {
    /// The paths of the identifiers that are still to come, in order.
    pub closed spec fn remaining(&self) -> Seq<Seq<char>> {
        Seq::new(
            (self.ids.len() - self.next) as nat,
            |i: int| self.ids[self.next + i]@,
        )
    }

    #[verifier::type_invariant]
    spec fn in_bounds(&self) -> bool {
        self.next <= self.ids.len()
    }

    /// The iterator that hands out `ids` in order.
    pub fn new(ids: Vec<StoreId>) -> (iter: StoreIdIterator)
        ensures
            iter.remaining() == Seq::new(ids.len() as nat, |i: int| ids[i]@),
    {
        let iter = StoreIdIterator { ids, next: 0 };
        iter
    }

    /// The next identifier, or `None` when all have been handed out.
    pub fn next(&mut self) -> (r: Option<StoreId>)
        ensures
            old(self).remaining().len() == 0 ==> r is None && final(self).remaining() == old(
                self,
            ).remaining(),
            old(self).remaining().len() > 0 ==> (r matches Some(id) && id@ == old(
                self,
            ).remaining()[0]) && final(self).remaining() == old(self).remaining().drop_first(),
    {
        proof {
            use_type_invariant(&*self);
        }
        if self.next < self.ids.len() {
            let id = self.ids[self.next].clone();
            self.next = self.next + 1;
            Some(id)
        } else {
            None
        }
    }
}

} // verus!
