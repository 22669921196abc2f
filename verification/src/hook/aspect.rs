//! Aspects: named groups of hooks of one kind, run in the order in which
//! they were registered.

use vstd::prelude::*;
use crate::entry::{EntryView, FileLockEntry};
use crate::error::Error;
use crate::hook::accessor::{AccessKind, HookDataAccessor};
use crate::hook::error::{HookError, HookErrorKind, HookResult};
use crate::hook::Hook;
use crate::storeid::StoreId;
use crate::value::Value;

verus! {

/// The configuration of an aspect.
#[derive(Debug)]
pub struct AspectConfig {
    config: Value,
}

impl AspectConfig {
    /// The configuration that holds `config`.
    pub fn new(config: Value) -> (cfg: AspectConfig)
        ensures
            cfg.config()@ == config@,
    {
        AspectConfig { config }
    }

    /// What the configuration holds.
    pub closed spec fn config(&self) -> Value {
        self.config
    }

    /// What the configuration holds.
    pub fn get_config(&self) -> (v: &Value)
        ensures
            *v == self.config(),
    {
        &self.config
    }
}

/// Whether the answer `r` of a hook stops the hooks after it.
pub open spec fn stops(r: HookResult<()>) -> bool {
    r matches Err(e) && e.aborts()
}

/// Whether `outs` can be the answers of the hooks that ran, in order, when
/// an aspect of `total` hooks ran: every hook runs unless one before it
/// stopped the run.
pub open spec fn is_run(outs: Seq<HookResult<()>>, total: nat) -> bool {
    &&& outs.len() <= total
    &&& forall|i: int| 0 <= i < outs.len() - 1 ==> !stops(#[trigger] outs[i])
    &&& outs.len() < total ==> outs.len() > 0 && stops(outs.last())
}

/// What the run of an aspect gives whose hooks answered `outs`: the error
/// that stopped it, or success.
pub open spec fn run_result(outs: Seq<HookResult<()>>) -> HookResult<()> {
    if outs.len() > 0 && stops(outs.last()) {
        outs.last()
    } else {
        Ok(())
    }
}

/// The errors among `outs`, in order: what the run reports, be it that the
/// error stops the run or that the run passes over it.
pub open spec fn run_reported(outs: Seq<HookResult<()>>) -> Seq<HookError>
    decreases outs.len(),
{
    if outs.len() == 0 {
        Seq::empty()
    } else {
        match outs.last() {
            Err(e) => run_reported(outs.drop_last()).push(e),
            Ok(_) => run_reported(outs.drop_last()),
        }
    }
}

/// One more answer adds to what a run reports exactly if it is an error.
pub proof fn lemma_reported_push(outs: Seq<HookResult<()>>, r: HookResult<()>)
    ensures
        run_reported(outs.push(r)) == match r {
            Err(e) => run_reported(outs).push(e),
            Ok(_) => run_reported(outs),
        },
{
    assert(outs.push(r).drop_last() =~= outs);
}

/// The hook whose answer stops a run is the last that ran, and its error is
/// what the run gives: no hook behind it runs.
pub proof fn lemma_stop_ends_run(outs: Seq<HookResult<()>>, total: nat, k: int)
    requires
        is_run(outs, total),
        0 <= k < outs.len(),
        stops(outs[k]),
    ensures
        outs.len() == k + 1,
        run_result(outs) == outs[k],
{
}

/// Where no answer stops the run, every hook runs and the run succeeds,
/// whatever errors were reported on the way.
pub proof fn lemma_run_completes(outs: Seq<HookResult<()>>, total: nat)
    requires
        is_run(outs, total),
        forall|i: int| 0 <= i < outs.len() ==> !stops(#[trigger] outs[i]),
    ensures
        outs.len() == total,
        run_result(outs) is Ok,
{
}

/// At most one error leaves a run: the run gives success or an error that
/// stops it. That error is the last that the run reports, and every error
/// reported before it is one that does not stop a run.
pub proof fn lemma_one_error_escapes(outs: Seq<HookResult<()>>, total: nat)
    requires
        is_run(outs, total),
    ensures
        run_result(outs) matches Err(e) ==> e.aborts() && run_reported(outs).len() > 0
            && run_reported(outs).last() == e,
        forall|i: int|
            0 <= i < run_reported(outs).len() - 1 ==> !(#[trigger] run_reported(outs)[i]).aborts(),
        run_result(outs) is Ok ==> forall|i: int|
            0 <= i < run_reported(outs).len() ==> !(#[trigger] run_reported(outs)[i]).aborts(),
        run_reported(outs).len() <= outs.len(),
{
    lemma_reported_quiet(outs);
    if outs.len() > 0 {
        let head = outs.drop_last();
        assert forall|i: int| 0 <= i < head.len() implies !stops(#[trigger] head[i]) by {}
        lemma_reported_quiet(head);
    }
}

/// What a run reports are errors of its hooks, no more than it has hooks;
/// and where no answer stops the run, no error that it reports does.
pub proof fn lemma_reported_quiet(outs: Seq<HookResult<()>>)
    ensures
        run_reported(outs).len() <= outs.len(),
        (forall|i: int| 0 <= i < outs.len() ==> !stops(#[trigger] outs[i])) ==> forall|i: int|
            0 <= i < run_reported(outs).len() ==> !(#[trigger] run_reported(outs)[i]).aborts(),
    decreases outs.len(),
{
    if outs.len() > 0 {
        let head = outs.drop_last();
        lemma_reported_quiet(head);
        if forall|i: int| 0 <= i < outs.len() ==> !stops(#[trigger] outs[i]) {
            assert forall|i: int| 0 <= i < head.len() implies !stops(#[trigger] head[i]) by {}
        }
    }
}

/// Whether `after` can be what has been reported once hooks have run with the
/// result `r`, where `before` had been reported before they ran: nothing
/// that was reported is lost; an error that stops the run is the result, and
/// is the last that was reported; no error reported before it, or in a run
/// that succeeds, is one that stops a run.
pub open spec fn reported_run(before: Seq<HookError>, after: Seq<HookError>, r: HookResult<()>) -> bool {
    &&& before.is_prefix_of(after)
    &&& forall|i: int| before.len() <= i < after.len() - 1 ==> !(#[trigger] after[i]).aborts()
    &&& match r {
        Err(e) => e.aborts() && after.len() > before.len() && after.last() == e,
        Ok(_) => after.len() > before.len() ==> !after.last().aborts(),
    }
}

/// What has been reported since `before` had been reported, where `after`
/// has been reported now.
pub open spec fn added(before: Seq<HookError>, after: Seq<HookError>) -> Seq<HookError> {
    after.skip(before.len() as int)
}

/// A run reports as `reported_run` says.
pub proof fn lemma_run_reports(outs: Seq<HookResult<()>>, total: nat, before: Seq<HookError>)
    requires
        is_run(outs, total),
    ensures
        reported_run(before, before + run_reported(outs), run_result(outs)),
{
    lemma_one_error_escapes(outs, total);
    let after = before + run_reported(outs);
    assert forall|i: int| before.len() <= i < after.len() implies after[i] == run_reported(
        outs,
    )[i - before.len()] by {}
}

/// Hooks that run after hooks that succeeded add to what those reported.
pub proof fn lemma_reported_run_then(
    a: Seq<HookError>,
    b: Seq<HookError>,
    c: Seq<HookError>,
    r: HookResult<()>,
)
    requires
        reported_run(a, b, Ok(())),
        reported_run(b, c, r),
    ensures
        reported_run(a, c, r),
{
    assert(a =~= c.subrange(0, a.len() as int)) by {
        assert forall|i: int| 0 <= i < a.len() implies a[i] == c.subrange(0, a.len() as int)[i] by {}
    }
    assert forall|i: int| a.len() <= i < c.len() - 1 implies !(#[trigger] c[i]).aborts() by {
        if i < b.len() {
            if i < b.len() - 1 {
                assert(!b[i].aborts());
            }
        }
    }
}

/// What becomes of the answer of one hook: every error is reported to
/// `sink`; one that does not stop the run counts as success from there on,
/// one that does is handed on.
pub fn settle(res: HookResult<()>, sink: &mut Vec<HookError>) -> (r: HookResult<()>)
    ensures
        match res {
            Ok(_) => r is Ok && final(sink)@ == old(sink)@,
            Err(e) => final(sink)@ == old(sink)@.push(e) && if e.aborts() {
                r == res
            } else {
                r is Ok
            },
        },
{
    match res {
        Ok(_) => Ok(()),
        Err(e) => {
            if !e.is_aborting() {
                sink.push(e);
                Ok(())
            } else {
                sink.push(e.clone());
                Err(e)
            }
        },
    }
}

/// The error of an aspect that holds a hook of the wrong kind, reported to
/// `sink`.
fn violation(sink: &mut Vec<HookError>) -> (r: HookResult<()>)
    ensures
        r matches Err(e) && e.is_bare(HookErrorKind::AccessTypeViolation) && final(sink)@ == old(
            sink,
        )@.push(e),
        reported_run(old(sink)@, final(sink)@, r),
{
    let e: HookError = Error::new(HookErrorKind::AccessTypeViolation, None);
    sink.push(e.clone());
    Err(e)
}

/// A named group of hooks.
pub struct Aspect<H: Hook> {
    cfg: Option<AspectConfig>,
    name: String,
    hooks: Vec<H>,
}

impl<H: Hook> Aspect<H> {
    /// The name of this aspect.
    pub closed spec fn spec_name(&self) -> Seq<char> {
        self.name@
    }

    /// The hooks of this aspect, in the order in which they run.
    pub closed spec fn hooks(&self) -> Seq<H> {
        self.hooks@
    }

    /// The configuration of this aspect.
    pub closed spec fn cfg(&self) -> Option<AspectConfig> {
        self.cfg
    }

    /// Whether every hook of this aspect works on identifiers.
    pub open spec fn all_id_only(&self) -> bool {
        forall|i: int| 0 <= i < self.hooks().len() ==> (#[trigger] self.hooks()[i]).kind() is StoreId
    }

    /// Whether every hook of this aspect works on entries.
    pub open spec fn all_on_entries(&self) -> bool {
        forall|i: int|
            0 <= i < self.hooks().len() ==> !((#[trigger] self.hooks()[i]).kind() is StoreId)
    }

    /// Whether every hook of this aspect reads entries and changes none.
    pub open spec fn all_read_only(&self) -> bool {
        forall|i: int|
            0 <= i < self.hooks().len() ==> (#[trigger] self.hooks()[i]).kind() is NonMutable
    }

    /// Whether `outs` can be the answers of the hooks of this aspect that
    /// ran, in order, when the aspect ran on the identifier `id`.
    pub open spec fn id_run(&self, id: Seq<char>, outs: Seq<HookResult<()>>) -> bool {
        &&& is_run(outs, self.hooks().len())
        &&& forall|i: int|
            0 <= i < outs.len() ==> self.hooks()[i].id_answers(id, #[trigger] outs[i])
    }

    /// Whether the hook `i` of this aspect, which works on entries, may
    /// turn `before` into `after` and answer `r`. A hook that only reads
    /// leaves the entry as it is.
    pub open spec fn entry_step(&self, i: int, before: EntryView, after: EntryView, r: HookResult<
        (),
    >) -> bool {
        match self.hooks()[i].kind() {
            AccessKind::Mutable => self.hooks()[i].entry_rewrites(before, after, r),
            AccessKind::NonMutable => after == before && self.hooks()[i].entry_observes(before, r),
            AccessKind::StoreId => false,
        }
    }

    /// Whether `outs` can be the answers of the hooks of this aspect that
    /// ran, in order, and `states` what the entry held before the first and
    /// after each of them.
    pub open spec fn entry_run(&self, states: Seq<EntryView>, outs: Seq<HookResult<()>>) -> bool {
        &&& is_run(outs, self.hooks().len())
        &&& states.len() == outs.len() + 1
        &&& forall|i: int|
            0 <= i < outs.len() ==> self.entry_step(i, states[i], states[i + 1], #[trigger] outs[i])
    }

    /// Whether `outs` can be the answers of the hooks of this aspect that
    /// ran, in order, when the aspect ran on the entry `entry` without
    /// changing it.
    pub open spec fn read_run(&self, entry: EntryView, outs: Seq<HookResult<()>>) -> bool {
        &&& is_run(outs, self.hooks().len())
        &&& forall|i: int|
            0 <= i < outs.len() ==> self.hooks()[i].entry_observes(entry, #[trigger] outs[i])
    }

    /// In a run on an entry, the first hook that cannot but stop the run
    /// ends it: the hooks before it ran and left their marks, it ran, its
    /// error is what the run gives, and no hook behind it ran.
    pub proof fn lemma_entry_run_stops_at(
        &self,
        states: Seq<EntryView>,
        outs: Seq<HookResult<()>>,
        k: int,
    )
        requires
            self.entry_run(states, outs),
            0 <= k < self.hooks().len(),
            forall|i: int, before: EntryView, after: EntryView, r: HookResult<()>|
                0 <= i < k && #[trigger] self.entry_step(i, before, after, r) ==> !stops(r),
            forall|before: EntryView, after: EntryView, r: HookResult<()>| #[trigger]
                self.entry_step(k, before, after, r) ==> stops(r),
        ensures
            outs.len() == k + 1,
            states.len() == k + 2,
            run_result(outs) == outs[k],
            stops(outs[k]),
            forall|i: int| 0 <= i <= k ==> self.entry_step(i, states[i], states[i + 1], #[trigger] outs[i]),
    {
        // A run that ended before the hook at `k` was stopped by its last
        // answer; but the hook that gave it is one of those that never stop
        // a run. So the hook at `k` ran.
        if outs.len() > k {
            lemma_stop_ends_run(outs, self.hooks().len(), k);
        }
    }

    /// In a run on an entry whose hooks cannot stop it, every hook runs
    /// and the run succeeds.
    pub proof fn lemma_entry_run_completes(&self, states: Seq<EntryView>, outs: Seq<HookResult<()>>)
        requires
            self.entry_run(states, outs),
            forall|i: int, before: EntryView, after: EntryView, r: HookResult<()>|
                0 <= i < self.hooks().len() && #[trigger] self.entry_step(i, before, after, r)
                    ==> !stops(r),
        ensures
            outs.len() == self.hooks().len(),
            run_result(outs) is Ok,
    {
        assert forall|i: int| 0 <= i < outs.len() implies !stops(#[trigger] outs[i]) by {}
        lemma_run_completes(outs, self.hooks().len());
    }

    /// Whether this aspect, run on the identifier `id`, may give `r` and
    /// report `reported`. Unless all its hooks work on identifiers, none
    /// runs: the aspect gives an `AccessTypeViolation`, and reports it.
    pub open spec fn on_id(&self, id: Seq<char>, r: HookResult<()>, reported: Seq<HookError>) -> bool {
        if self.all_id_only() {
            exists|outs: Seq<HookResult<()>>|
                #[trigger] self.id_run(id, outs) && r == run_result(outs) && reported
                    == run_reported(outs)
        } else {
            r matches Err(e) && e.is_bare(HookErrorKind::AccessTypeViolation) && reported == seq![e]
        }
    }

    /// Whether this aspect, run on an entry that holds `before`, may leave
    /// the entry holding `after`, give `r` and report `reported`. Unless
    /// all its hooks work on entries, none runs: the entry stays as it is,
    /// and the aspect gives an `AccessTypeViolation`, and reports it.
    pub open spec fn on_entry(
        &self,
        before: EntryView,
        after: EntryView,
        r: HookResult<()>,
        reported: Seq<HookError>,
    ) -> bool {
        if self.all_on_entries() {
            exists|states: Seq<EntryView>, outs: Seq<HookResult<()>>|
                #[trigger] self.entry_run(states, outs) && states[0] == before && states.last()
                    == after && r == run_result(outs) && reported == run_reported(outs)
        } else {
            after == before && (r matches Err(e) && e.is_bare(HookErrorKind::AccessTypeViolation)
                && reported == seq![e])
        }
    }

    /// Whether this aspect, run on the entry `entry` without changing it,
    /// may give `r` and report `reported`. Unless all its hooks read
    /// entries, none runs: the aspect gives an `AccessTypeViolation`, and
    /// reports it.
    pub open spec fn on_read(&self, entry: EntryView, r: HookResult<()>, reported: Seq<HookError>) -> bool {
        if self.all_read_only() {
            exists|outs: Seq<HookResult<()>>|
                #[trigger] self.read_run(entry, outs) && r == run_result(outs) && reported
                    == run_reported(outs)
        } else {
            r matches Err(e) && e.is_bare(HookErrorKind::AccessTypeViolation) && reported == seq![e]
        }
    }

    /// The aspect `name` with the given configuration and no hooks.
    pub fn new(name: String, cfg: Option<AspectConfig>) -> (aspect: Aspect<H>)
        ensures
            aspect.spec_name() == name@,
            aspect.cfg() == cfg,
            aspect.hooks().len() == 0,
    {
        Aspect { cfg, name, hooks: Vec::new() }
    }

    /// The name of this aspect.
    pub fn name(&self) -> (name: &String)
        ensures
            name@ == self.spec_name(),
    {
        &self.name
    }

    /// The configuration of this aspect.
    pub fn config(&self) -> (cfg: Option<&AspectConfig>)
        ensures
            cfg.is_some() == self.cfg().is_some(),
            cfg matches Some(c) ==> *c == self.cfg().unwrap(),
    {
        self.cfg.as_ref()
    }

    /// The number of hooks of this aspect.
    pub fn len(&self) -> (n: usize)
        ensures
            n == self.hooks().len(),
    {
        self.hooks.len()
    }

    /// Adds `h` behind the hooks that this aspect has.
    pub fn register_hook(&mut self, h: H)
        ensures
            final(self).hooks() == old(self).hooks().push(h),
            final(self).spec_name() == old(self).spec_name(),
            final(self).cfg() == old(self).cfg(),
    {
        self.hooks.push(h);
    }
}

impl<H: Hook> Aspect<H> {
    /// Whether every hook of this aspect is of a kind that `fits` accepts.
    fn check_kinds(&self, id_only: bool, mutable: bool, read_only: bool) -> (ok: bool)
        ensures
            ok == forall|i: int|
                0 <= i < self.hooks().len() ==> match (#[trigger] self.hooks()[i]).kind() {
                    AccessKind::StoreId => id_only,
                    AccessKind::Mutable => mutable,
                    AccessKind::NonMutable => read_only,
                },
    {
        let n = self.hooks.len();
        let mut i: usize = 0;
        while i < n
            invariant
                n == self.hooks().len(),
                i <= n,
                forall|j: int|
                    0 <= j < i ==> match (#[trigger] self.hooks()[j]).kind() {
                        AccessKind::StoreId => id_only,
                        AccessKind::Mutable => mutable,
                        AccessKind::NonMutable => read_only,
                    },
            decreases n - i,
        {
            let fits = match self.hooks[i].accessor().access_kind() {
                AccessKind::StoreId => id_only,
                AccessKind::Mutable => mutable,
                AccessKind::NonMutable => read_only,
            };
            if !fits {
                proof {
                    let h = self.hooks()[i as int];
                    assert(!match h.kind() {
                        AccessKind::StoreId => id_only,
                        AccessKind::Mutable => mutable,
                        AccessKind::NonMutable => read_only,
                    });
                }
                return false;
            }
            i = i + 1;
        }
        true
    }

    /// Runs the hooks of this aspect on the identifier `id`, in the order in
    /// which they were registered. Unless all of them work on identifiers,
    /// none runs, and the result is an `AccessTypeViolation`. Otherwise each
    /// runs until one answers with an error that stops the run, which is
    /// then the result. Every error goes to `sink`.
    pub fn run_id_only(&self, id: &StoreId, sink: &mut Vec<HookError>) -> (r: HookResult<()>)
        ensures
            reported_run(old(sink)@, final(sink)@, r),
            self.on_id(id@, r, added(old(sink)@, final(sink)@)),
    {
        if !self.check_kinds(true, false, false) {
            let r = violation(sink);
            proof {
                assert(added(old(sink)@, sink@) =~= seq![r->Err_0]);
            }
            return r;
        }
        let n = self.hooks.len();
        let ghost mut outs: Seq<HookResult<()>> = Seq::empty();
        let mut i: usize = 0;
        while i < n
            invariant
                n == self.hooks().len(),
                i <= n,
                self.all_id_only(),
                outs.len() == i,
                forall|j: int| 0 <= j < i ==> !stops(#[trigger] outs[j]),
                forall|j: int| 0 <= j < i ==> self.hooks()[j].id_answers(id@, #[trigger] outs[j]),
                sink@ == old(sink)@ + run_reported(outs),
            decreases n - i,
        {
            let ghost before = outs;
            let accessor = self.hooks[i].accessor();
            let res = match accessor {
                HookDataAccessor::StoreIdAccess(a) => a.access(id),
                _ => {
                    // No hook of another kind is left after the check.
                    assert(false);
                    Ok(())
                },
            };
            proof {
                outs = outs.push(res);
                lemma_reported_push(before, res);
            }
            let settled = settle(res, sink);
            if settled.is_err() {
                proof {
                    assert(self.id_run(id@, outs));
                    lemma_run_reports(outs, self.hooks().len(), old(sink)@);
                    assert(added(old(sink)@, sink@) =~= run_reported(outs));
                }
                return settled;
            }
            i = i + 1;
        }
        proof {
            assert(self.id_run(id@, outs));
            lemma_run_reports(outs, self.hooks().len(), old(sink)@);
            assert(added(old(sink)@, sink@) =~= run_reported(outs));
        }
        Ok(())
    }

    /// Runs the hooks of this aspect on the entry `fle`, in the order in
    /// which they were registered. Unless all of them work on entries, none
    /// runs, the entry stays as it is, and the result is an
    /// `AccessTypeViolation`. Otherwise each runs on what the
    /// hooks before it left of the entry, until one answers with an error
    /// that stops the run, which is then the result. Every error goes to
    /// `sink`.
    pub fn run_mutating(&self, fle: &mut FileLockEntry, sink: &mut Vec<HookError>) -> (r:
        HookResult<()>)
        ensures
            reported_run(old(sink)@, final(sink)@, r),
            final(fle).key() == old(fle).key(),
            self.on_entry(old(fle)@, final(fle)@, r, added(old(sink)@, final(sink)@)),
    {
        if !self.check_kinds(false, true, true) {
            let r = violation(sink);
            proof {
                assert(added(old(sink)@, sink@) =~= seq![r->Err_0]);
            }
            return r;
        }
        let n = self.hooks.len();
        let ghost mut outs: Seq<HookResult<()>> = Seq::empty();
        let ghost mut states: Seq<EntryView> = seq![fle@];
        let mut i: usize = 0;
        while i < n
            invariant
                n == self.hooks().len(),
                i <= n,
                self.all_on_entries(),
                fle.key() == old(fle).key(),
                outs.len() == i,
                states.len() == i + 1,
                states[0] == old(fle)@,
                states.last() == fle@,
                forall|j: int| 0 <= j < i ==> !stops(#[trigger] outs[j]),
                forall|j: int|
                    0 <= j < i ==> self.entry_step(j, states[j], states[j + 1], #[trigger] outs[j]),
                sink@ == old(sink)@ + run_reported(outs),
            decreases n - i,
        {
            let ghost outs_before = outs;
            let accessor = self.hooks[i].accessor();
            let res = match accessor {
                HookDataAccessor::MutableAccess(a) => a.access_mut(fle),
                HookDataAccessor::NonMutableAccess(a) => a.access(fle),
                _ => {
                    // No hook of another kind is left after the check.
                    assert(false);
                    Ok(())
                },
            };
            proof {
                outs = outs.push(res);
                states = states.push(fle@);
                lemma_reported_push(outs_before, res);
                assert forall|j: int| 0 <= j < outs.len() implies self.entry_step(
                    j,
                    states[j],
                    states[j + 1],
                    #[trigger] outs[j],
                ) by {}
            }
            let settled = settle(res, sink);
            if settled.is_err() {
                proof {
                    assert(self.entry_run(states, outs));
                    lemma_run_reports(outs, self.hooks().len(), old(sink)@);
                    assert(added(old(sink)@, sink@) =~= run_reported(outs));
                }
                return settled;
            }
            i = i + 1;
        }
        proof {
            assert(self.entry_run(states, outs));
            lemma_run_reports(outs, self.hooks().len(), old(sink)@);
            assert(added(old(sink)@, sink@) =~= run_reported(outs));
        }
        Ok(())
    }

    /// Runs the hooks of this aspect on the entry `fle`, which none of them
    /// changes, in the order in which they were registered. Unless all of
    /// them read entries, none runs, and the result is an
    /// `AccessTypeViolation`. Otherwise each runs until one answers
    /// with an error that stops the run, which is then the result. Every
    /// error goes to `sink`.
    pub fn run_read_only(&self, fle: &FileLockEntry, sink: &mut Vec<HookError>) -> (r: HookResult<
        (),
    >)
        ensures
            reported_run(old(sink)@, final(sink)@, r),
            self.on_read(fle@, r, added(old(sink)@, final(sink)@)),
    {
        if !self.check_kinds(false, false, true) {
            let r = violation(sink);
            proof {
                assert(added(old(sink)@, sink@) =~= seq![r->Err_0]);
            }
            return r;
        }
        let n = self.hooks.len();
        let ghost mut outs: Seq<HookResult<()>> = Seq::empty();
        let mut i: usize = 0;
        while i < n
            invariant
                n == self.hooks().len(),
                i <= n,
                self.all_read_only(),
                outs.len() == i,
                forall|j: int| 0 <= j < i ==> !stops(#[trigger] outs[j]),
                forall|j: int|
                    0 <= j < i ==> self.hooks()[j].entry_observes(fle@, #[trigger] outs[j]),
                sink@ == old(sink)@ + run_reported(outs),
            decreases n - i,
        {
            let ghost before = outs;
            let accessor = self.hooks[i].accessor();
            let res = match accessor {
                HookDataAccessor::NonMutableAccess(a) => a.access(fle),
                _ => {
                    // No hook of another kind is left after the check.
                    assert(false);
                    Ok(())
                },
            };
            proof {
                outs = outs.push(res);
                lemma_reported_push(before, res);
            }
            let settled = settle(res, sink);
            if settled.is_err() {
                proof {
                    assert(self.read_run(fle@, outs));
                    lemma_run_reports(outs, self.hooks().len(), old(sink)@);
                    assert(added(old(sink)@, sink@) =~= run_reported(outs));
                }
                return settled;
            }
            i = i + 1;
        }
        proof {
            assert(self.read_run(fle@, outs));
            lemma_run_reports(outs, self.hooks().len(), old(sink)@);
            assert(added(old(sink)@, sink@) =~= run_reported(outs));
        }
        Ok(())
    }
}

} // verus!
