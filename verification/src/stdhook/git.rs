//! The hook that keeps the store under version control with git.

use vstd::prelude::*;
use vstd::string::*;
use crate::entry::EntryView;
use crate::error::ErrorKind;
use crate::hook::accessor::{AccessKind, HookDataAccessor, HookDataAccessorProvider, StoreIdAccessor};
use crate::hook::aspect::{run_reported, stops, Aspect};
use crate::hook::error::{HookError, HookResult};
use crate::hook::position::HookPosition;
use crate::hook::Hook;
use crate::entry::FileLockEntry;
use crate::hook::aspect::run_result;
use crate::store::{
    aspects_on_entry, aspects_on_id, entry_runs, fresh_entry, handed_out, id_runs, is_runs,
    runs_result, wraps, NoCustomData, Store, StoreError, StoreErrorKind,
};
use crate::storeid::StoreId;
use crate::value::{Value, ValueView};

verus! {

/// The kinds of error that working with the repository gives.
#[derive(Clone, Copy, Debug, PartialEq, Eq, Structural)]
pub enum GitHookErrorKind {
    ConfigError,
    ConfigTypeError,
    RepositoryError,
    RepositoryBranchError,
    RepositoryBranchNameFetchingError,
    MkRepo,
}

impl ErrorKind for GitHookErrorKind {
    open spec fn text(&self) -> Seq<char> {
        match self {
            GitHookErrorKind::ConfigError => "Configuration Error"@,
            GitHookErrorKind::ConfigTypeError => "Configuration value type wrong"@,
            GitHookErrorKind::RepositoryError => "Error while interacting with git repository"@,
            GitHookErrorKind::RepositoryBranchError => "Error while interacting with git branch(es)"@,
            GitHookErrorKind::RepositoryBranchNameFetchingError => "Error while fetching branch name"@,
            GitHookErrorKind::MkRepo => "Repository creation error"@,
        }
    }

    fn as_str(&self) -> (s: &'static str) {
        match self {
            GitHookErrorKind::ConfigError => "Configuration Error",
            GitHookErrorKind::ConfigTypeError => "Configuration value type wrong",
            GitHookErrorKind::RepositoryError => "Error while interacting with git repository",
            GitHookErrorKind::RepositoryBranchError => "Error while interacting with git branch(es)",
            GitHookErrorKind::RepositoryBranchNameFetchingError => "Error while fetching branch name",
            GitHookErrorKind::MkRepo => "Repository creation error",
        }
    }
}

/// An error of working with the repository.
pub type GitHookError = crate::error::Error<GitHookErrorKind, NoCustomData>;

/// The hook that runs when an entry is created. It holds the repository of
/// the store, where one could be opened; `R` is the handle of a repository.
/// The hook works on the identifier of the entry and lets every entry pass.
#[derive(Debug)]
pub struct CreateHook<R> {
    storepath: String,
    repository: Option<R>,
    position: HookPosition,
    config: Option<Value>,
}

impl<R> CreateHook<R> {
    /// The path of the store.
    pub closed spec fn storepath(&self) -> Seq<char> {
        self.storepath@
    }

    /// The repository of the store, where there is one.
    pub closed spec fn repository(&self) -> Option<R> {
        self.repository
    }

    /// Where the hook runs.
    pub closed spec fn position(&self) -> HookPosition {
        self.position
    }

    /// The configuration of the hook, once it has one.
    pub closed spec fn config(&self) -> Option<ValueView> {
        match self.config {
            Some(v) => Some(v@),
            None => None,
        }
    }

    /// The hook for the store at `storepath` that runs at `p`, with the
    /// repository that was found there, if one was. The hook has no
    /// configuration yet.
    pub fn new(storepath: String, repository: Option<R>, p: HookPosition) -> (hook: CreateHook<R>)
        ensures
            hook.storepath() == storepath@,
            hook.repository() == repository,
            hook.position() == p,
            hook.config() is None,
    {
        CreateHook { storepath, repository, position: p, config: None }
    }

    /// Whether the hook holds a repository.
    pub fn has_repository(&self) -> (b: bool)
        ensures
            b == self.repository().is_some(),
    {
        self.repository.is_some()
    }

    /// Where the hook runs.
    pub fn get_position(&self) -> (p: HookPosition)
        ensures
            p == self.position(),
    {
        self.position
    }

    /// The configuration of the hook, once it has one.
    pub fn get_config(&self) -> (r: Option<&Value>)
        ensures
            r.is_some() == self.config().is_some(),
            r matches Some(v) ==> v@ == self.config().unwrap(),
    {
        self.config.as_ref()
    }
}

impl<R> StoreIdAccessor for CreateHook<R> {
    open spec fn answers(&self, id: Seq<char>, r: HookResult<()>) -> bool {
        r is Ok
    }

    fn access(&self, id: &StoreId) -> (r: HookResult<()>) {
        Ok(())
    }
}

impl<R> HookDataAccessorProvider for CreateHook<R> {
    open spec fn kind(&self) -> AccessKind {
        AccessKind::StoreId
    }

    open spec fn id_answers(&self, id: Seq<char>, r: HookResult<()>) -> bool {
        r is Ok
    }

    open spec fn entry_rewrites(&self, before: EntryView, after: EntryView, r: HookResult<()>) -> bool {
        false
    }

    open spec fn entry_observes(&self, entry: EntryView, r: HookResult<()>) -> bool {
        false
    }

    fn accessor(&self) -> (a: HookDataAccessor<'_>) {
        HookDataAccessor::StoreIdAccess(self)
    }
}

impl<R> Hook for CreateHook<R> {
    fn name(&self) -> (n: &'static str)
        ensures
            n@ == "stdhook_git_create"@,
    {
        "stdhook_git_create"
    }

    fn set_config(&mut self, cfg: &Value)
        ensures
            final(self).config() == Some(cfg@),
            final(self).storepath() == old(self).storepath(),
            final(self).repository() == old(self).repository(),
            final(self).position() == old(self).position(),
    {
        self.config = Some(cfg.clone());
    }
}

/// A run in which every hook succeeded reports nothing.
proof fn lemma_nothing_reported(outs: Seq<HookResult<()>>)
    requires
        forall|i: int| 0 <= i < outs.len() ==> (#[trigger] outs[i]) is Ok,
    ensures
        run_reported(outs).len() == 0,
    decreases outs.len(),
{
    if outs.len() > 0 {
        assert forall|i: int| 0 <= i < outs.drop_last().len() implies (#[trigger] outs.drop_last()[i])
            is Ok by {
            assert(outs.drop_last()[i] == outs[i]);
        }
        lemma_nothing_reported(outs.drop_last());
        assert(outs[outs.len() - 1] is Ok);
    }
}

/// An aspect that holds nothing but these hooks lets every identifier pass,
/// and reports nothing.
pub proof fn lemma_create_hooks_pass<R>(
    aspect: Aspect<CreateHook<R>>,
    id: Seq<char>,
    r: HookResult<()>,
    reported: Seq<HookError>,
)
    requires
        aspect.on_id(id, r, reported),
    ensures
        r is Ok,
        reported.len() == 0,
{
    assert(aspect.all_id_only());
    let outs = choose|outs: Seq<HookResult<()>>|
        #[trigger] aspect.id_run(id, outs) && r == run_result(outs) && reported
            == run_reported(outs);
    assert forall|i: int| 0 <= i < outs.len() implies (#[trigger] outs[i]) is Ok by {
        assert(aspect.hooks()[i].id_answers(id, outs[i]));
    }
    lemma_nothing_reported(outs);
    if outs.len() > 0 {
        assert(!stops(outs.last()));
    }
}

/// Runs that report nothing leave nothing reported.
proof fn lemma_no_reports(
    rs: Seq<HookResult<()>>,
    cuts: Seq<int>,
    reported: Seq<HookError>,
    total: nat,
    k: int,
)
    requires
        is_runs(rs, cuts, reported, total),
        forall|i: int| 0 <= i < rs.len() ==> #[trigger] cuts[i] == cuts[i + 1],
        0 <= k <= rs.len(),
    ensures
        cuts[k] == 0,
    decreases k,
{
    if k > 0 {
        lemma_no_reports(rs, cuts, reported, total, k - 1);
        assert(cuts[k - 1] == cuts[k - 1 + 1]);
    }
}

/// Aspects that hold nothing but these hooks let every identifier pass, and
/// report nothing.
pub proof fn lemma_create_aspects_pass<R>(
    aspects: Seq<Aspect<CreateHook<R>>>,
    id: Seq<char>,
    r: HookResult<()>,
    reported: Seq<HookError>,
)
    requires
        aspects_on_id(aspects, id, r, reported),
    ensures
        r is Ok,
        reported.len() == 0,
{
    let (rs, cuts) = choose|rs: Seq<HookResult<()>>, cuts: Seq<int>| #[trigger]
        id_runs(aspects, id, rs, cuts, reported) && r == runs_result(rs);
    assert forall|k: int| 0 <= k < rs.len() implies (#[trigger] rs[k]) is Ok && cuts[k] == cuts[k
        + 1] by {
        let part = reported.subrange(cuts[k], cuts[k + 1]);
        assert(aspects[k].on_id(id, rs[k], part));
        lemma_create_hooks_pass(aspects[k], id, rs[k], part);
    }
    assert forall|i: int| 0 <= i < rs.len() implies #[trigger] cuts[i] == cuts[i + 1] by {
        assert(rs[i] is Ok);
    }
    lemma_no_reports(rs, cuts, reported, aspects.len(), rs.len() as int);
    if rs.len() > 0 {
        assert(rs[rs.len() - 1] is Ok);
    }
}

/// A store that runs nothing but these hooks before it creates an entry, and
/// nothing after, creates every entry that it does not know: new, empty and
/// handed out, with nothing reported.
pub proof fn lemma_create_with_git_hooks<R>(
    before: &Store<CreateHook<R>>,
    after: &Store<CreateHook<R>>,
    id: Seq<char>,
    r: Result<FileLockEntry, StoreError>,
    reported: Seq<HookError>,
)
    requires
        before.created(after, id, r, reported),
        before.aspects_at(HookPosition::PostCreate).len() == 0,
        !before.known().contains(id),
    ensures
        r is Ok,
        r->Ok_0@ == fresh_entry(id),
        r->Ok_0.key() == id,
        after.took_in(before, id),
        reported.len() == 0,
{
    let (pre, cut) = choose|pre: HookResult<()>, cut: int| #[trigger]
        before.create_steps(after, id, r, reported, pre, cut);
    lemma_create_aspects_pass(
        before.aspects_at(HookPosition::PreCreate),
        id,
        pre,
        reported.take(cut),
    );
    assert(cut == 0);
    let none = before.aspects_at(HookPosition::PostCreate);
    assert(handed_out(none, fresh_entry(id), id, r, reported.skip(cut)));
    let (post, end) = choose|post: HookResult<()>, end: EntryView| #[trigger]
        aspects_on_entry(none, fresh_entry(id), end, post, reported.skip(cut)) && (match post {
            Ok(_) => r matches Ok(fle) && fle@ == end && fle.key() == id,
            Err(h) => r matches Err(e) && wraps(e, StoreErrorKind::PostHookExecuteError, h),
        });
    let (rs, cuts, states) = choose|
        rs: Seq<HookResult<()>>,
        cuts: Seq<int>,
        states: Seq<EntryView>,
    | #[trigger]
        entry_runs(none, states, rs, cuts, reported.skip(cut)) && states[0] == fresh_entry(id)
            && states.last() == end && post == runs_result(rs);
    assert(rs.len() == 0);
    assert(reported.skip(cut).len() == 0);
}

} // verus!
