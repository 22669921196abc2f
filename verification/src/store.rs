//! The store: where entries live, and which of them are handed out.

use vstd::prelude::*;
use vstd::string::*;
use crate::entry::{Entry, EntryView, FileLockEntry};
use crate::error::{Error, ErrorKind};
use crate::hook::aspect::{added, lemma_reported_run_then, reported_run, Aspect};
use crate::hook::error::{HookError, HookResult};
use crate::hook::position::HookPosition;
use crate::hook::Hook;
use crate::storeid::{join_path, push_path, StoreId, StoreIdIterator};
use crate::value::ValueView;

verus! {

/// The kinds of error that the store reports.
#[derive(Clone, Copy, Debug, PartialEq, Eq, Structural)]
pub enum StoreErrorKind {
    FileNotFound,
    FileNotCreated,
    IoError,
    StorePathLacksVersion,
    EntryAlreadyBorrowed,
    EntryAlreadyExists,
    IdLocked,
    HeaderPathSyntaxError,
    HeaderPathTypeFailure,
    HeaderKeyNotFound,
    AspectNameNotFoundError,
    PreHookExecuteError,
    PostHookExecuteError,
}

impl ErrorKind for StoreErrorKind {
    open spec fn text(&self) -> Seq<char> {
        match self {
            StoreErrorKind::FileNotFound => "File not found"@,
            StoreErrorKind::FileNotCreated => "File not created"@,
            StoreErrorKind::IoError => "File Error"@,
            StoreErrorKind::StorePathLacksVersion => "The supplied store path has no version part"@,
            StoreErrorKind::EntryAlreadyBorrowed => "Entry is already borrowed"@,
            StoreErrorKind::EntryAlreadyExists => "Entry already exists"@,
            StoreErrorKind::IdLocked => "ID locked"@,
            StoreErrorKind::HeaderPathSyntaxError => "Syntax error in accessor string"@,
            StoreErrorKind::HeaderPathTypeFailure => "Header has wrong type for path"@,
            StoreErrorKind::HeaderKeyNotFound => "Header Key not found"@,
            StoreErrorKind::AspectNameNotFoundError => "Aspect name not found"@,
            StoreErrorKind::PreHookExecuteError => "Pre-Hook execution error"@,
            StoreErrorKind::PostHookExecuteError => "Post-Hook execution error"@,
        }
    }

    fn as_str(&self) -> (s: &'static str) {
        match self {
            StoreErrorKind::FileNotFound => "File not found",
            StoreErrorKind::FileNotCreated => "File not created",
            StoreErrorKind::IoError => "File Error",
            StoreErrorKind::StorePathLacksVersion => "The supplied store path has no version part",
            StoreErrorKind::EntryAlreadyBorrowed => "Entry is already borrowed",
            StoreErrorKind::EntryAlreadyExists => "Entry already exists",
            StoreErrorKind::IdLocked => "ID locked",
            StoreErrorKind::HeaderPathSyntaxError => "Syntax error in accessor string",
            StoreErrorKind::HeaderPathTypeFailure => "Header has wrong type for path",
            StoreErrorKind::HeaderKeyNotFound => "Header Key not found",
            StoreErrorKind::AspectNameNotFoundError => "Aspect name not found",
            StoreErrorKind::PreHookExecuteError => "Pre-Hook execution error",
            StoreErrorKind::PostHookExecuteError => "Post-Hook execution error",
        }
    }
}

/// The payload of errors that carry none.
#[derive(Clone, Copy, Debug, PartialEq, Eq, Structural)]
pub struct NoCustomData {}

/// An error of the store.
pub type StoreError = Error<StoreErrorKind, NoCustomData>;

/// What the store knows of one entry: its identifier, and whether the entry
/// is handed out.
struct Record {
    id: StoreId,
    borrowed: bool,
}

/// The aspects of the store, by the point at which they run.
struct Aspects<H: Hook> {
    pre_create: Vec<Aspect<H>>,
    post_create: Vec<Aspect<H>>,
    pre_retrieve: Vec<Aspect<H>>,
    post_retrieve: Vec<Aspect<H>>,
    pre_update: Vec<Aspect<H>>,
    post_update: Vec<Aspect<H>>,
    pre_delete: Vec<Aspect<H>>,
    post_delete: Vec<Aspect<H>>,
}

impl<H: Hook> Aspects<H> {
    spec fn at(&self, position: HookPosition) -> Seq<Aspect<H>> {
        match position {
            HookPosition::PreCreate => self.pre_create@,
            HookPosition::PostCreate => self.post_create@,
            HookPosition::PreRetrieve => self.pre_retrieve@,
            HookPosition::PostRetrieve => self.post_retrieve@,
            HookPosition::PreUpdate => self.pre_update@,
            HookPosition::PostUpdate => self.post_update@,
            HookPosition::PreDelete => self.pre_delete@,
            HookPosition::PostDelete => self.post_delete@,
        }
    }

    fn new() -> (a: Aspects<H>)
        ensures
            forall|p: HookPosition| #[trigger] a.at(p) == Seq::<Aspect<H>>::empty(),
    {
        Aspects {
            pre_create: Vec::new(),
            post_create: Vec::new(),
            pre_retrieve: Vec::new(),
            post_retrieve: Vec::new(),
            pre_update: Vec::new(),
            post_update: Vec::new(),
            pre_delete: Vec::new(),
            post_delete: Vec::new(),
        }
    }

    fn list(&self, position: HookPosition) -> (l: &Vec<Aspect<H>>)
        ensures
            l@ == self.at(position),
    {
        match position {
            HookPosition::PreCreate => &self.pre_create,
            HookPosition::PostCreate => &self.post_create,
            HookPosition::PreRetrieve => &self.pre_retrieve,
            HookPosition::PostRetrieve => &self.post_retrieve,
            HookPosition::PreUpdate => &self.pre_update,
            HookPosition::PostUpdate => &self.post_update,
            HookPosition::PreDelete => &self.pre_delete,
            HookPosition::PostDelete => &self.post_delete,
        }
    }

    fn list_mut(&mut self, position: HookPosition) -> (l: &mut Vec<Aspect<H>>)
        ensures
            l@ == old(self).at(position),
            final(self).at(position) == final(l)@,
            forall|p: HookPosition| p != position ==> #[trigger] final(self).at(p) == old(self).at(p),
    {
        match position {
            HookPosition::PreCreate => &mut self.pre_create,
            HookPosition::PostCreate => &mut self.post_create,
            HookPosition::PreRetrieve => &mut self.pre_retrieve,
            HookPosition::PostRetrieve => &mut self.post_retrieve,
            HookPosition::PreUpdate => &mut self.pre_update,
            HookPosition::PostUpdate => &mut self.post_update,
            HookPosition::PreDelete => &mut self.pre_delete,
            HookPosition::PostDelete => &mut self.post_delete,
        }
    }
}

/// What aspects give that run one after the other until one fails, where
/// `rs` are the results of those that ran, in order: the error of the last,
/// where it failed; else success.
pub open spec fn runs_result(rs: Seq<HookResult<()>>) -> HookResult<()> {
    if rs.len() > 0 && rs.last() is Err {
        rs.last()
    } else {
        Ok(())
    }
}

/// Whether `rs` can be the results of the aspects among `total` that ran,
/// one after the other until one failed, and `cuts` can say how much of
/// `reported`, which they reported in all, had been reported before each of
/// them ran and after the last of them ran.
pub open spec fn is_runs(
    rs: Seq<HookResult<()>>,
    cuts: Seq<int>,
    reported: Seq<HookError>,
    total: nat,
) -> bool {
    &&& rs.len() <= total
    &&& cuts.len() == rs.len() + 1
    &&& cuts[0] == 0
    &&& cuts.last() == reported.len()
    &&& forall|k: int| 0 <= k < rs.len() ==> 0 <= #[trigger] cuts[k] <= cuts[k + 1] <= reported.len()
    &&& forall|k: int| 0 <= k < rs.len() - 1 ==> (#[trigger] rs[k]) is Ok
    &&& rs.len() < total ==> rs.len() > 0 && rs.last() is Err
}

/// Whether `aspects`, run on the identifier `id` one after the other until
/// one fails, may give `r` and report `reported`.
pub open spec fn aspects_on_id<H: Hook>(
    aspects: Seq<Aspect<H>>,
    id: Seq<char>,
    r: HookResult<()>,
    reported: Seq<HookError>,
) -> bool {
    exists|rs: Seq<HookResult<()>>, cuts: Seq<int>| #[trigger]
        id_runs(aspects, id, rs, cuts, reported) && r == runs_result(rs)
}

/// Whether the aspects of `aspects` that ran on the identifier `id` may have
/// given `rs`, in order, and reported `reported`, cut as `cuts` says.
pub open spec fn id_runs<H: Hook>(
    aspects: Seq<Aspect<H>>,
    id: Seq<char>,
    rs: Seq<HookResult<()>>,
    cuts: Seq<int>,
    reported: Seq<HookError>,
) -> bool {
    &&& is_runs(rs, cuts, reported, aspects.len())
    &&& forall|k: int|
        0 <= k < rs.len() ==> aspects[k].on_id(
            id,
            #[trigger] rs[k],
            reported.subrange(cuts[k], cuts[k + 1]),
        )
}

/// Whether `aspects`, run one after the other until one fails on an entry
/// that holds `before`, may leave the entry holding `after`, give `r` and
/// report `reported`.
pub open spec fn aspects_on_entry<H: Hook>(
    aspects: Seq<Aspect<H>>,
    before: EntryView,
    after: EntryView,
    r: HookResult<()>,
    reported: Seq<HookError>,
) -> bool {
    exists|rs: Seq<HookResult<()>>, cuts: Seq<int>, states: Seq<EntryView>| #[trigger]
        entry_runs(aspects, states, rs, cuts, reported) && states[0] == before && states.last()
            == after && r == runs_result(rs)
}

/// Whether the aspects of `aspects` that ran on an entry may have given
/// `rs`, in order, and reported `reported`, cut as `cuts` says, where
/// `states` is what the entry held before the first and after each of them.
pub open spec fn entry_runs<H: Hook>(
    aspects: Seq<Aspect<H>>,
    states: Seq<EntryView>,
    rs: Seq<HookResult<()>>,
    cuts: Seq<int>,
    reported: Seq<HookError>,
) -> bool {
    &&& is_runs(rs, cuts, reported, aspects.len())
    &&& states.len() == rs.len() + 1
    &&& forall|k: int|
        0 <= k < rs.len() ==> aspects[k].on_entry(
            states[k],
            states[k + 1],
            #[trigger] rs[k],
            reported.subrange(cuts[k], cuts[k + 1]),
        )
}

/// What one more aspect adds to what the aspects before it reported.
proof fn lemma_next_report(
    start: Seq<HookError>,
    before: Seq<HookError>,
    after: Seq<HookError>,
    cuts: Seq<int>,
)
    requires
        start.is_prefix_of(before),
        before.is_prefix_of(after),
        cuts.len() > 0,
        cuts.last() == before.len() - start.len(),
        forall|k: int| 0 <= k < cuts.len() - 1 ==> 0 <= #[trigger] cuts[k] <= cuts[k + 1] <= before.len()
            - start.len(),
    ensures
        start.is_prefix_of(after),
        added(start, after).subrange(cuts.last(), after.len() - start.len()) == added(before, after),
        forall|k: int|
            0 <= k < cuts.len() - 1 ==> added(start, after).subrange(#[trigger] cuts[k], cuts[k + 1])
                == added(start, before).subrange(cuts[k], cuts[k + 1]),
{
    assert(start =~= after.subrange(0, start.len() as int)) by {
        assert forall|i: int| 0 <= i < start.len() implies start[i] == after.subrange(
            0,
            start.len() as int,
        )[i] by {
            assert(start[i] == before.subrange(0, start.len() as int)[i]);
            assert(before[i] == after.subrange(0, before.len() as int)[i]);
        }
    }
    assert(added(start, after).subrange(cuts.last(), after.len() - start.len()) =~= added(
        before,
        after,
    ));
    assert forall|k: int| 0 <= k < cuts.len() - 1 implies added(start, after).subrange(
        #[trigger] cuts[k],
        cuts[k + 1],
    ) == added(start, before).subrange(cuts[k], cuts[k + 1]) by {
        let x = added(start, after).subrange(cuts[k], cuts[k + 1]);
        let y = added(start, before).subrange(cuts[k], cuts[k + 1]);
        assert forall|i: int| 0 <= i < x.len() implies x[i] == y[i] by {
            assert(before[start.len() + cuts[k] + i] == after.subrange(0, before.len() as int)[start.len()
                + cuts[k] + i]);
        }
        assert(x =~= y);
    }
}

/// Runs `aspects` on the identifier `id`, one after the other, until one
/// fails. No aspects, no failure; and whatever fails, its error is one that
/// stops a run, and the last that was reported.
pub fn run_aspects_on_id<H: Hook>(aspects: &Vec<Aspect<H>>, id: &StoreId, sink: &mut Vec<HookError>) -> (r:
    HookResult<()>)
    ensures
        aspects@.len() == 0 ==> r is Ok && final(sink)@ == old(sink)@,
        reported_run(old(sink)@, final(sink)@, r),
        aspects_on_id(aspects@, id@, r, added(old(sink)@, final(sink)@)),
{
    let mut i: usize = 0;
    let ghost mut rs: Seq<HookResult<()>> = Seq::empty();
    let ghost mut cuts: Seq<int> = seq![0int];
    proof {
        assert(sink@ =~= sink@.subrange(0, sink@.len() as int));
    }
    while i < aspects.len()
        invariant
            i <= aspects@.len(),
            aspects@.len() == 0 ==> sink@ == old(sink)@,
            reported_run(old(sink)@, sink@, Ok(())),
            rs.len() == i,
            is_runs(rs, cuts, added(old(sink)@, sink@), i as nat),
            forall|k: int| 0 <= k < i ==> (#[trigger] rs[k]) is Ok,
            forall|k: int|
                0 <= k < i ==> aspects@[k].on_id(
                    id@,
                    #[trigger] rs[k],
                    added(old(sink)@, sink@).subrange(cuts[k], cuts[k + 1]),
                ),
        decreases aspects@.len() - i,
    {
        let ghost before = sink@;
        let ghost rs0 = rs;
        let ghost cuts0 = cuts;
        let r = aspects[i].run_id_only(id, sink);
        proof {
            lemma_reported_run_then(old(sink)@, before, sink@, r);
            lemma_next_report(old(sink)@, before, sink@, cuts0);
            rs = rs0.push(r);
            cuts = cuts0.push(sink@.len() - old(sink)@.len());
            let reported = added(old(sink)@, sink@);
            assert forall|k: int| 0 <= k < rs.len() implies aspects@[k].on_id(
                id@,
                #[trigger] rs[k],
                reported.subrange(cuts[k], cuts[k + 1]),
            ) by {
                if k < i {
                    assert(rs[k] == rs0[k]);
                    assert(cuts[k] == cuts0[k] && cuts[k + 1] == cuts0[k + 1]);
                } else {
                    assert(cuts[k] == cuts0.last());
                }
            }
            assert forall|k: int| 0 <= k < rs.len() implies 0 <= #[trigger] cuts[k] <= cuts[k + 1]
                <= reported.len() by {
                if k < i {
                    assert(cuts[k] == cuts0[k] && cuts[k + 1] == cuts0[k + 1]);
                }
            }
        }
        if r.is_err() {
            proof {
                assert(id_runs(aspects@, id@, rs, cuts, added(old(sink)@, sink@)));
            }
            return r;
        }
        i = i + 1;
    }
    proof {
        assert(id_runs(aspects@, id@, rs, cuts, added(old(sink)@, sink@)));
    }
    Ok(())
}

/// Runs `aspects` on the entry `fle`, one after the other, until one fails.
/// No aspects, no failure and no change; and whatever fails, its error is one
/// that stops a run, and the last that was reported.
pub fn run_aspects_on_entry<H: Hook>(
    aspects: &Vec<Aspect<H>>,
    fle: &mut FileLockEntry,
    sink: &mut Vec<HookError>,
) -> (r: HookResult<()>)
    ensures
        final(fle).key() == old(fle).key(),
        aspects@.len() == 0 ==> r is Ok && final(sink)@ == old(sink)@ && final(fle)@ == old(fle)@,
        reported_run(old(sink)@, final(sink)@, r),
        aspects_on_entry(aspects@, old(fle)@, final(fle)@, r, added(old(sink)@, final(sink)@)),
{
    let mut i: usize = 0;
    let ghost mut rs: Seq<HookResult<()>> = Seq::empty();
    let ghost mut cuts: Seq<int> = seq![0int];
    let ghost mut states: Seq<EntryView> = seq![fle@];
    proof {
        assert(sink@ =~= sink@.subrange(0, sink@.len() as int));
    }
    while i < aspects.len()
        invariant
            i <= aspects@.len(),
            fle.key() == old(fle).key(),
            aspects@.len() == 0 ==> sink@ == old(sink)@ && fle@ == old(fle)@,
            reported_run(old(sink)@, sink@, Ok(())),
            rs.len() == i,
            states.len() == i + 1,
            states[0] == old(fle)@,
            states.last() == fle@,
            is_runs(rs, cuts, added(old(sink)@, sink@), i as nat),
            forall|k: int| 0 <= k < i ==> (#[trigger] rs[k]) is Ok,
            forall|k: int|
                0 <= k < i ==> aspects@[k].on_entry(
                    states[k],
                    states[k + 1],
                    #[trigger] rs[k],
                    added(old(sink)@, sink@).subrange(cuts[k], cuts[k + 1]),
                ),
        decreases aspects@.len() - i,
    {
        let ghost before = sink@;
        let ghost rs0 = rs;
        let ghost cuts0 = cuts;
        let ghost states0 = states;
        let r = aspects[i].run_mutating(fle, sink);
        proof {
            lemma_reported_run_then(old(sink)@, before, sink@, r);
            lemma_next_report(old(sink)@, before, sink@, cuts0);
            rs = rs0.push(r);
            cuts = cuts0.push(sink@.len() - old(sink)@.len());
            states = states0.push(fle@);
            let reported = added(old(sink)@, sink@);
            assert forall|k: int| 0 <= k < rs.len() implies aspects@[k].on_entry(
                states[k],
                states[k + 1],
                #[trigger] rs[k],
                reported.subrange(cuts[k], cuts[k + 1]),
            ) by {
                if k < i {
                    assert(rs[k] == rs0[k]);
                    assert(cuts[k] == cuts0[k] && cuts[k + 1] == cuts0[k + 1]);
                    assert(states[k] == states0[k] && states[k + 1] == states0[k + 1]);
                } else {
                    assert(cuts[k] == cuts0.last());
                    assert(states[k] == states0.last());
                }
            }
            assert forall|k: int| 0 <= k < rs.len() implies 0 <= #[trigger] cuts[k] <= cuts[k + 1]
                <= reported.len() by {
                if k < i {
                    assert(cuts[k] == cuts0[k] && cuts[k + 1] == cuts0[k + 1]);
                }
            }
        }
        if r.is_err() {
            proof {
                assert(entry_runs(aspects@, states, rs, cuts, added(old(sink)@, sink@)));
            }
            return r;
        }
        i = i + 1;
    }
    proof {
        assert(entry_runs(aspects@, states, rs, cuts, added(old(sink)@, sink@)));
    }
    Ok(())
}

/// Whether `e` is the error of the store of kind `kind` that the error `h` of
/// a hook caused.
pub open spec fn wraps(e: StoreError, kind: StoreErrorKind, h: HookError) -> bool {
    &&& e.kind() == kind
    &&& e.payload() is None
    &&& e.source() is Some
    &&& h.is_cause(e.source().unwrap())
}

/// Whether `after` can be what has been reported once an operation has ended
/// with the error `e`, where `before` had been reported before it began.
/// Where hooks stopped the operation, `e` is caused by the error that
/// stopped them, which is the last that was reported; else the hooks that
/// ran succeeded.
pub open spec fn hooks_reported(e: StoreError, before: Seq<HookError>, after: Seq<HookError>) -> bool {
    if e.kind() == StoreErrorKind::PreHookExecuteError || e.kind()
        == StoreErrorKind::PostHookExecuteError {
        exists|h: HookError| #[trigger] wraps(e, e.kind(), h) && reported_run(before, after, Err(h))
    } else {
        reported_run(before, after, Ok(()))
    }
}

/// Whether `after` can be what has been reported once an operation has ended
/// with `r`, where `before` had been reported before it began.
pub open spec fn after_hooks<T>(
    r: Result<T, StoreError>,
    before: Seq<HookError>,
    after: Seq<HookError>,
) -> bool {
    match r {
        Ok(_) => reported_run(before, after, Ok(())),
        Err(e) => hooks_reported(e, before, after),
    }
}

/// Whether `r` is what an operation gives that ends by handing out an entry:
/// the entry first holds `start`; then `aspects` run on it and report
/// `reported`; where they succeed the entry is handed out under `key` as they
/// left it, and where they fail their error is the cause of the error.
pub open spec fn handed_out<H: Hook>(
    aspects: Seq<Aspect<H>>,
    start: EntryView,
    key: Seq<char>,
    r: Result<FileLockEntry, StoreError>,
    reported: Seq<HookError>,
) -> bool {
    exists|post: HookResult<()>, end: EntryView| #[trigger]
        aspects_on_entry(aspects, start, end, post, reported) && (match post {
            Ok(_) => r matches Ok(fle) && fle@ == end && fle.key() == key,
            Err(h) => r matches Err(e) && wraps(e, StoreErrorKind::PostHookExecuteError, h),
        })
}

/// What the entry `id` holds as it was loaded: what was found, or what a new
/// entry holds where nothing was found.
pub open spec fn loaded_entry(found: Option<Entry>, id: Seq<char>) -> EntryView {
    match found {
        Some(entry) => entry@,
        None => fresh_entry(id),
    }
}

/// Whether `r` is `inner` with the entry, where there is one, as one that
/// was found.
pub open spec fn found_entry(
    inner: Result<FileLockEntry, StoreError>,
    r: Result<Option<FileLockEntry>, StoreError>,
) -> bool {
    match inner {
        Ok(fle) => r == Ok::<Option<FileLockEntry>, StoreError>(Some(fle)),
        Err(e) => r == Err::<Option<FileLockEntry>, StoreError>(e),
    }
}

/// Whether `r` is what `conclude` gives for `value` and `post`.
pub open spec fn concluded<T>(value: T, post: HookResult<()>, r: Result<T, StoreError>) -> bool {
    match post {
        Ok(_) => r == Ok::<T, StoreError>(value),
        Err(h) => r matches Err(e) && wraps(e, StoreErrorKind::PostHookExecuteError, h),
    }
}

/// What an operation of the store gives once the hooks behind it have run:
/// `value`, unless the hooks failed; then an error of the kind
/// `PostHookExecuteError` with their error as its cause.
pub fn conclude<T>(value: T, post: HookResult<()>) -> (r: Result<T, StoreError>)
    ensures
        concluded(value, post, r),
{
    match post {
        Ok(_) => Ok(value),
        Err(h) => Err(
            Error::new(StoreErrorKind::PostHookExecuteError, Some(Box::new(h.into_cause()))),
        ),
    }
}

/// What an operation of the store goes on with once the hooks before it
/// have run: nothing stands in its way unless the hooks failed; then it ends
/// with an error of the kind `PreHookExecuteError` with their error as its
/// cause.
pub fn proceed(pre: HookResult<()>) -> (r: Result<(), StoreError>)
    ensures
        match pre {
            Ok(_) => r is Ok,
            Err(h) => r matches Err(e) && wraps(e, StoreErrorKind::PreHookExecuteError, h),
        },
{
    match pre {
        Ok(_) => Ok(()),
        Err(h) => Err(
            Error::new(StoreErrorKind::PreHookExecuteError, Some(Box::new(h.into_cause()))),
        ),
    }
}

/// The leave to load an entry: the hooks before it have run.
#[derive(Debug)]
pub struct RetrieveTicket {
    id: StoreId,
}

impl RetrieveTicket {
    /// The identifier of the entry to load.
    pub closed spec fn id(&self) -> Seq<char> {
        self.id@
    }

    /// The identifier of the entry to load.
    pub fn get_id(&self) -> (id: &StoreId)
        ensures
            id@ == self.id(),
    {
        &self.id
    }
}

/// The leave to write an entry: the hooks before it have run.
#[derive(Debug)]
pub struct UpdateTicket {
    id: StoreId,
}

impl UpdateTicket {
    /// The identifier of the entry to write.
    pub closed spec fn id(&self) -> Seq<char> {
        self.id@
    }

    /// The identifier of the entry to write.
    pub fn get_id(&self) -> (id: &StoreId)
        ensures
            id@ == self.id(),
    {
        &self.id
    }
}

/// The leave to remove an entry: the hooks before it have run.
#[derive(Debug)]
pub struct DeleteTicket {
    id: StoreId,
}

impl DeleteTicket {
    /// The identifier of the entry to remove.
    pub closed spec fn id(&self) -> Seq<char> {
        self.id@
    }

    /// The identifier of the entry to remove.
    pub fn get_id(&self) -> (id: &StoreId)
        ensures
            id@ == self.id(),
    {
        &self.id
    }
}

/// What a new entry holds: its identifier, an empty header, no text.
pub open spec fn fresh_entry(id: Seq<char>) -> EntryView {
    EntryView { location: id, header: ValueView::Table(Seq::empty()), content: Seq::empty() }
}

/// The store: the directory in which the entries live, the entries that it
/// knows and which of them are handed out, and the aspects that run around
/// its operations. Of each entry at most one handle is out at any time.
pub struct Store<H: Hook> {
    location: String,
    records: Vec<Record>,
    aspects: Aspects<H>,
}

impl<H: Hook> Store<H> {
    #[verifier::type_invariant]
    spec fn no_id_twice(&self) -> bool {
        distinct(self.records@)
    }

    /// The path of the directory that holds the store.
    pub closed spec fn location(&self) -> Seq<char> {
        self.location@
    }

    /// The identifiers of the entries that the store knows.
    pub closed spec fn known(&self) -> Set<Seq<char>> {
        known_of(self.records@)
    }

    /// The identifiers of the entries that are handed out.
    pub closed spec fn borrowed(&self) -> Set<Seq<char>> {
        borrowed_of(self.records@)
    }

    /// The aspects that run at `position`, in the order in which they run.
    pub closed spec fn aspects_at(&self, position: HookPosition) -> Seq<Aspect<H>> {
        self.aspects.at(position)
    }

    /// Whether this store lies where `other` lies and runs the aspects that
    /// `other` runs.
    pub open spec fn same_setup(&self, other: &Store<H>) -> bool {
        &&& self.location() == other.location()
        &&& forall|p: HookPosition| #[trigger] self.aspects_at(p) == other.aspects_at(p)
    }

    /// Whether this store knows the entries that `other` knows, with the same
    /// ones handed out.
    pub open spec fn same_entries(&self, other: &Store<H>) -> bool {
        self.known() == other.known() && self.borrowed() == other.borrowed()
    }

    /// Whether this store knows the entries that `other` knows and `id`
    /// besides, with the same ones handed out and `id` besides.
    pub open spec fn took_in(&self, other: &Store<H>, id: Seq<char>) -> bool {
        self.known() == other.known().insert(id) && self.borrowed() == other.borrowed().insert(id)
    }

    /// An entry that is handed out is known.
    pub proof fn lemma_borrowed_is_known(&self)
        ensures
            self.borrowed().subset_of(self.known()),
    {
    }

    /// A store in the directory at `location` that knows no entries and has
    /// no aspects.
    pub fn new(location: String) -> (store: Store<H>)
        ensures
            store.location() == location@,
            store.known() == Set::<Seq<char>>::empty(),
            store.borrowed() == Set::<Seq<char>>::empty(),
            forall|p: HookPosition| #[trigger] store.aspects_at(p) == Seq::<Aspect<H>>::empty(),
    {
        let store = Store { location, records: Vec::new(), aspects: Aspects::new() };
        store
    }

    /// The path of the directory that holds the store.
    pub fn path(&self) -> (p: &str)
        ensures
            p@ == self.location(),
    {
        self.location.as_str()
    }

    /// Where the store keeps what it knows of `id`.
    fn find(&self, id: &StoreId) -> (r: Option<usize>)
        ensures
            match r {
                Some(i) => i < self.records@.len() && self.records@[i as int].id@ == id@,
                None => forall|i: int|
                    0 <= i < self.records@.len() ==> (#[trigger] self.records@[i]).id@ != id@,
            },
    {
        let mut i: usize = 0;
        while i < self.records.len()
            invariant
                i <= self.records@.len(),
                forall|j: int| 0 <= j < i ==> (#[trigger] self.records@[j]).id@ != id@,
            decreases self.records@.len() - i,
        {
            if self.records[i].id == *id {
                return Some(i);
            }
            i = i + 1;
        }
        None
    }

    /// Whether the store knows the entry `id`.
    pub fn is_known(&self, id: &StoreId) -> (b: bool)
        ensures
            b == self.known().contains(id@),
    {
        self.find(id).is_some()
    }

    /// Whether the entry `id` is handed out.
    pub fn is_borrowed(&self, id: &StoreId) -> (b: bool)
        ensures
            b == self.borrowed().contains(id@),
    {
        proof {
            use_type_invariant(self);
        }
        match self.find(id) {
            Some(i) => {
                let b = self.records[i].borrowed;
                b
            },
            None => false,
        }
    }

    /// Notes that the entry `id` is handed out.
    fn mark(&mut self, id: StoreId)
        ensures
            final(self).known() == old(self).known().insert(id@),
            final(self).borrowed() == old(self).borrowed().insert(id@),
            final(self).same_setup(old(self)),
    {
        proof {
            use_type_invariant(&*self);
        }
        let found = self.find(&id);
        let mut records: Vec<Record> = Vec::new();
        core::mem::swap(&mut self.records, &mut records);
        let ghost before = records@;
        let record = Record { id, borrowed: true };
        match found {
            Some(i) => {
                proof {
                    lemma_flagged(before, i as int, record);
                }
                records.set(i, record);
            },
            None => {
                proof {
                    lemma_added(before, record);
                }
                records.push(record);
            },
        }
        self.records = records;
    }

    /// Notes that the entry `id` is handed out no longer.
    fn unmark(&mut self, id: StoreId)
        ensures
            final(self).known() == old(self).known(),
            final(self).borrowed() == old(self).borrowed().remove(id@),
            final(self).same_setup(old(self)),
    {
        proof {
            use_type_invariant(&*self);
        }
        match self.find(&id) {
            Some(i) => {
                let mut records: Vec<Record> = Vec::new();
                core::mem::swap(&mut self.records, &mut records);
                let record = Record { id, borrowed: false };
                proof {
                    lemma_flagged(records@, i as int, record);
                }
                records.set(i, record);
                self.records = records;
            },
            None => {},
        }
    }

    /// Forgets the entry `id`.
    fn forget(&mut self, id: &StoreId)
        ensures
            final(self).known() == old(self).known().remove(id@),
            final(self).borrowed() == old(self).borrowed().remove(id@),
            final(self).same_setup(old(self)),
    {
        proof {
            use_type_invariant(&*self);
        }
        match self.find(id) {
            Some(i) => {
                let mut records: Vec<Record> = Vec::new();
                core::mem::swap(&mut self.records, &mut records);
                proof {
                    lemma_removed(records@, i as int);
                }
                let _ = records.remove(i);
                self.records = records;
            },
            None => {},
        }
    }
}

/// Whether no two of `records` are of one entry.
spec fn distinct(records: Seq<Record>) -> bool {
    forall|i: int, j: int|
        0 <= i < j < records.len() ==> (#[trigger] records[i]).id@ != (#[trigger] records[j]).id@
}

/// The identifiers of the entries of `records`.
spec fn known_of(records: Seq<Record>) -> Set<Seq<char>> {
    Set::new(|p: Seq<char>| exists|i: int| 0 <= i < records.len() && (#[trigger] records[i]).id@ == p)
}

/// The identifiers of the entries of `records` that are handed out.
spec fn borrowed_of(records: Seq<Record>) -> Set<Seq<char>> {
    Set::new(
        |p: Seq<char>|
            exists|i: int|
                0 <= i < records.len() && (#[trigger] records[i]).id@ == p && records[i].borrowed,
    )
}

/// A record in the place of the record of its entry changes what is known
/// of that entry alone.
proof fn lemma_flagged(records: Seq<Record>, i: int, r: Record)
    requires
        distinct(records),
        0 <= i < records.len(),
        records[i].id@ == r.id@,
    ensures
        distinct(records.update(i, r)),
        known_of(records.update(i, r)) == known_of(records),
        known_of(records) == known_of(records).insert(r.id@),
        r.borrowed ==> borrowed_of(records.update(i, r)) == borrowed_of(records).insert(r.id@),
        !r.borrowed ==> borrowed_of(records.update(i, r)) == borrowed_of(records).remove(r.id@),
{
    let after = records.update(i, r);
    assert forall|q: Seq<char>| known_of(after).contains(q) == known_of(records).contains(q) by {
        if known_of(records).contains(q) {
            let j = choose|j: int| 0 <= j < records.len() && (#[trigger] records[j]).id@ == q;
            assert(after[j].id@ == q);
        }
    }
    assert forall|q: Seq<char>|
        borrowed_of(after).contains(q) == (if q == r.id@ {
            r.borrowed
        } else {
            borrowed_of(records).contains(q)
        }) by {
        if q == r.id@ {
            if r.borrowed {
                assert(after[i].id@ == q && after[i].borrowed);
            }
        } else if borrowed_of(records).contains(q) {
            let j = choose|j: int|
                0 <= j < records.len() && (#[trigger] records[j]).id@ == q && records[j].borrowed;
            assert(after[j].id@ == q && after[j].borrowed);
        }
    }
}

/// A record of an entry that was not known makes that entry known.
proof fn lemma_added(records: Seq<Record>, r: Record)
    requires
        distinct(records),
        forall|i: int| 0 <= i < records.len() ==> (#[trigger] records[i]).id@ != r.id@,
        r.borrowed,
    ensures
        distinct(records.push(r)),
        known_of(records.push(r)) == known_of(records).insert(r.id@),
        borrowed_of(records.push(r)) == borrowed_of(records).insert(r.id@),
{
    let after = records.push(r);
    let n = records.len() as int;
    assert forall|q: Seq<char>|
        known_of(after).contains(q) == known_of(records).insert(r.id@).contains(q) by {
        if q == r.id@ {
            assert(after[n].id@ == q);
        } else if known_of(records).contains(q) {
            let j = choose|j: int| 0 <= j < records.len() && (#[trigger] records[j]).id@ == q;
            assert(after[j].id@ == q);
        }
    }
    assert forall|q: Seq<char>|
        borrowed_of(after).contains(q) == borrowed_of(records).insert(r.id@).contains(q) by {
        if q == r.id@ {
            assert(after[n].id@ == q && after[n].borrowed);
        } else if borrowed_of(records).contains(q) {
            let j = choose|j: int|
                0 <= j < records.len() && (#[trigger] records[j]).id@ == q && records[j].borrowed;
            assert(after[j].id@ == q && after[j].borrowed);
        }
    }
}

/// Without its record an entry is known no longer.
proof fn lemma_removed(records: Seq<Record>, i: int)
    requires
        distinct(records),
        0 <= i < records.len(),
    ensures
        distinct(records.remove(i)),
        known_of(records.remove(i)) == known_of(records).remove(records[i].id@),
        borrowed_of(records.remove(i)) == borrowed_of(records).remove(records[i].id@),
{
    let after = records.remove(i);
    let p = records[i].id@;
    assert forall|j: int| 0 <= j < after.len() implies #[trigger] after[j] == (if j < i {
        records[j]
    } else {
        records[j + 1]
    }) by {}
    assert forall|q: Seq<char>|
        known_of(after).contains(q) == known_of(records).remove(p).contains(q) by {
        if known_of(records).remove(p).contains(q) {
            let j = choose|j: int| 0 <= j < records.len() && (#[trigger] records[j]).id@ == q;
            if j < i {
                assert(after[j].id@ == q);
            } else {
                assert(after[j - 1].id@ == q);
            }
        }
    }
    assert forall|q: Seq<char>|
        borrowed_of(after).contains(q) == borrowed_of(records).remove(p).contains(q) by {
        if borrowed_of(records).remove(p).contains(q) {
            let j = choose|j: int|
                0 <= j < records.len() && (#[trigger] records[j]).id@ == q && records[j].borrowed;
            if j < i {
                assert(after[j].id@ == q && after[j].borrowed);
            } else {
                assert(after[j - 1].id@ == q && after[j - 1].borrowed);
            }
        }
    }
}

impl<H: Hook> Store<H> {
    /// Adds `aspect` behind the aspects that run at `position`.
    pub fn add_aspect(&mut self, position: HookPosition, aspect: Aspect<H>)
        ensures
            final(self).location() == old(self).location(),
            final(self).same_entries(old(self)),
            final(self).aspects_at(position) == old(self).aspects_at(position).push(aspect),
            forall|p: HookPosition|
                p != position ==> #[trigger] final(self).aspects_at(p) == old(self).aspects_at(p),
    {
        proof {
            use_type_invariant(&*self);
        }
        let mut aspects = Aspects::new();
        core::mem::swap(&mut self.aspects, &mut aspects);
        let list = aspects.list_mut(position);
        list.push(aspect);
        self.aspects = aspects;
    }

    /// Adds the hook `h` to the aspect named `aspect_name` among those that
    /// run at `position`: to the first of that name. Without such an aspect
    /// the hook is refused.
    pub fn register_hook(&mut self, position: HookPosition, aspect_name: &str, h: H) -> (r:
        Result<(), StoreError>)
        ensures
            final(self).location() == old(self).location(),
            final(self).same_entries(old(self)),
            forall|p: HookPosition|
                p != position ==> #[trigger] final(self).aspects_at(p) == old(self).aspects_at(p),
            match r {
                Ok(_) => {
                    let before = old(self).aspects_at(position);
                    let after = final(self).aspects_at(position);
                    let k = first_named(before, aspect_name@);
                    &&& named(before, aspect_name@)
                    &&& changed_at(before, after, k)
                    &&& after[k].hooks() == before[k].hooks().push(h)
                },
                Err(e) => {
                    let before = old(self).aspects_at(position);
                    let after = final(self).aspects_at(position);
                    &&& e.is_bare(StoreErrorKind::AspectNameNotFoundError)
                    &&& after == before
                    &&& !named(before, aspect_name@)
                },
            },
    {
        proof {
            use_type_invariant(&*self);
        }
        let mut aspects = Aspects::new();
        core::mem::swap(&mut self.aspects, &mut aspects);
        let ghost before = aspects.at(position);
        let list = aspects.list_mut(position);
        let wanted = String::from_str(aspect_name);
        let mut found: Option<usize> = None;
        let mut i: usize = 0;
        while i < list.len()
            invariant_except_break
                i <= list@.len(),
                found is None,
                forall|j: int| 0 <= j < i ==> (#[trigger] list@[j]).spec_name() != aspect_name@,
            invariant
                list@ == before,
                wanted@ == aspect_name@,
            ensures
                list@ == before,
                match found {
                    Some(k) => k < list@.len() && named_first(list@, aspect_name@, k as int),
                    None => forall|j: int|
                        0 <= j < list@.len() ==> (#[trigger] list@[j]).spec_name() != aspect_name@,
                },
            decreases list@.len() - i,
        {
            if *list[i].name() == wanted {
                found = Some(i);
                break ;
            }
            i = i + 1;
        }
        match found {
            Some(k) => {
                list[k].register_hook(h);
                self.aspects = aspects;
                Ok(())
            },
            None => {
                self.aspects = aspects;
                Err(Error::new(StoreErrorKind::AspectNameNotFoundError, None))
            },
        }
    }
}

impl<H: Hook> Store<H> {
    /// Whether creating the entry `id` may leave the store as `after`,
    /// give `r` and report `reported`.
    pub open spec fn created(
        &self,
        after: &Store<H>,
        id: Seq<char>,
        r: Result<FileLockEntry, StoreError>,
        reported: Seq<HookError>,
    ) -> bool {
        exists|pre: HookResult<()>, cut: int| #[trigger]
            self.create_steps(after, id, r, reported, pre, cut)
    }

    /// Whether creating the entry `id` may leave the store as `after`,
    /// give `r` and report `reported`, where the aspects for before gave
    /// `pre` and reported the first `cut` of what was reported: where they
    /// failed, or the store knows the entry, nothing else happens; else the
    /// entry is new, empty and handed out, and the aspects for after run on
    /// it and report the rest.
    pub open spec fn create_steps(
        &self,
        after: &Store<H>,
        id: Seq<char>,
        r: Result<FileLockEntry, StoreError>,
        reported: Seq<HookError>,
        pre: HookResult<()>,
        cut: int,
    ) -> bool {
        &&& 0 <= cut <= reported.len()
        &&& aspects_on_id(self.aspects_at(HookPosition::PreCreate), id, pre, reported.take(cut))
        &&& match pre {
            Err(h) => {
                &&& cut == reported.len()
                &&& after.same_entries(self)
                &&& r matches Err(e) && wraps(e, StoreErrorKind::PreHookExecuteError, h)
            },
            Ok(_) => if self.known().contains(id) {
                &&& cut == reported.len()
                &&& after.same_entries(self)
                &&& r matches Err(e) && e.is_bare(StoreErrorKind::EntryAlreadyExists)
            } else {
                &&& after.took_in(self, id)
                &&& handed_out(
                    self.aspects_at(HookPosition::PostCreate),
                    fresh_entry(id),
                    id,
                    r,
                    reported.skip(cut),
                )
            },
        }
    }

    /// Whether asking for leave to load the entry `id` may give `r` and
    /// report `reported`: the aspects for before run on the identifier, and
    /// `permit_retrieve` decides by what they give.
    pub open spec fn pre_retrieved(
        &self,
        id: Seq<char>,
        r: Result<RetrieveTicket, StoreError>,
        reported: Seq<HookError>,
    ) -> bool {
        exists|pre: HookResult<()>| #[trigger]
            aspects_on_id(self.aspects_at(HookPosition::PreRetrieve), id, pre, reported)
                && self.permits_retrieve(id, pre, r)
    }

    /// Whether asking for leave to remove the entry `id` may give `r` and
    /// report `reported`: the aspects for before run on the identifier, and
    /// `permit_delete` decides by what they give.
    pub open spec fn pre_deleted(
        &self,
        id: Seq<char>,
        r: Result<DeleteTicket, StoreError>,
        reported: Seq<HookError>,
    ) -> bool {
        exists|pre: HookResult<()>| #[trigger]
            aspects_on_id(self.aspects_at(HookPosition::PreDelete), id, pre, reported)
                && self.permits_delete(id, pre, r)
    }

    /// Whether asking for leave to write an entry that holds `before` and
    /// was handed out under `key` may leave the entry holding `after`, give
    /// `r` and report `reported`: the aspects for before run on the entry;
    /// where they fail their error is the cause of the error.
    pub open spec fn pre_updated(
        &self,
        before: EntryView,
        after: EntryView,
        key: Seq<char>,
        r: Result<UpdateTicket, StoreError>,
        reported: Seq<HookError>,
    ) -> bool {
        exists|pre: HookResult<()>| #[trigger]
            aspects_on_entry(self.aspects_at(HookPosition::PreUpdate), before, after, pre, reported)
                && (match pre {
                Ok(_) => r matches Ok(t) && t.id() == key,
                Err(h) => r matches Err(e) && wraps(e, StoreErrorKind::PreHookExecuteError, h),
            })
    }

    /// Whether ending the writing of an entry that holds `before`, where
    /// the writing went as `written` says, may leave the entry holding
    /// `after`, give `r` and report `reported`: a failure of the writing is
    /// handed on; else the aspects for after run on the entry.
    pub open spec fn updated(
        &self,
        before: EntryView,
        after: EntryView,
        written: Result<(), StoreError>,
        r: Result<(), StoreError>,
        reported: Seq<HookError>,
    ) -> bool {
        match written {
            Err(e) => r == Err::<(), StoreError>(e) && after == before && reported.len() == 0,
            Ok(_) => exists|post: HookResult<()>| #[trigger]
                aspects_on_entry(
                    self.aspects_at(HookPosition::PostUpdate),
                    before,
                    after,
                    post,
                    reported,
                ) && concluded((), post, r),
        }
    }

    /// Whether handing out the entry `id`, loaded as `loaded` says, may
    /// leave the store as `after`, give `r` and report `reported`: an entry
    /// that is handed out is not handed out again; a failure of the loading
    /// is handed on; else the entry is handed out, and the aspects for after
    /// run on it.
    pub open spec fn retrieved(
        &self,
        after: &Store<H>,
        id: Seq<char>,
        loaded: Result<Option<Entry>, StoreError>,
        r: Result<FileLockEntry, StoreError>,
        reported: Seq<HookError>,
    ) -> bool {
        if self.borrowed().contains(id) {
            &&& r matches Err(e) && e.is_bare(StoreErrorKind::EntryAlreadyBorrowed)
            &&& after.same_entries(self)
            &&& reported.len() == 0
        } else {
            match loaded {
                Err(e) => {
                    &&& r == Err::<FileLockEntry, StoreError>(e)
                    &&& after.same_entries(self)
                    &&& reported.len() == 0
                },
                Ok(found) => {
                    &&& after.took_in(self, id)
                    &&& handed_out(
                        self.aspects_at(HookPosition::PostRetrieve),
                        loaded_entry(found, id),
                        id,
                        r,
                        reported,
                    )
                },
            }
        }
    }

    /// Whether getting the entry `id`, loaded as `loaded` says, may leave
    /// the store as `after`, give `r` and report `reported`: an entry
    /// without a file that the store does not know is not there; every other
    /// is handed out as `retrieved` says.
    pub open spec fn got(
        &self,
        after: &Store<H>,
        id: Seq<char>,
        loaded: Result<Option<Entry>, StoreError>,
        r: Result<Option<FileLockEntry>, StoreError>,
        reported: Seq<HookError>,
    ) -> bool {
        if (loaded matches Ok(None)) && !self.known().contains(id) {
            &&& r matches Ok(None)
            &&& after.same_entries(self)
            &&& reported.len() == 0
        } else {
            exists|inner: Result<FileLockEntry, StoreError>| #[trigger]
                self.retrieved(after, id, loaded, inner, reported) && found_entry(inner, r)
        }
    }

    /// Whether ending the removal of the entry `id`, where removing its
    /// file went as `removed` says, may leave the store as `after`, give `r`
    /// and report `reported`: an entry that is handed out stays; every other
    /// is forgotten, a failure of the removing is handed on, and else the
    /// aspects for after run on the identifier.
    pub open spec fn deleted(
        &self,
        after: &Store<H>,
        id: Seq<char>,
        removed: Result<(), StoreError>,
        r: Result<(), StoreError>,
        reported: Seq<HookError>,
    ) -> bool {
        if self.borrowed().contains(id) {
            &&& r matches Err(e) && e.is_bare(StoreErrorKind::IdLocked)
            &&& after.same_entries(self)
            &&& reported.len() == 0
        } else {
            &&& after.known() == self.known().remove(id)
            &&& after.borrowed() == self.borrowed()
            &&& match removed {
                Err(e) => r == Err::<(), StoreError>(e) && reported.len() == 0,
                Ok(_) => exists|post: HookResult<()>| #[trigger]
                    aspects_on_id(self.aspects_at(HookPosition::PostDelete), id, post, reported)
                        && concluded((), post, r),
            }
        }
    }

    /// Whether `r` is what `permit_retrieve` gives for the entry `id`,
    /// where the hooks before gave `pre`.
    pub open spec fn permits_retrieve(
        &self,
        id: Seq<char>,
        pre: HookResult<()>,
        r: Result<RetrieveTicket, StoreError>,
    ) -> bool {
        match pre {
            Err(h) => r matches Err(e) && wraps(e, StoreErrorKind::PreHookExecuteError, h),
            Ok(_) => if self.borrowed().contains(id) {
                r matches Err(e) && e.is_bare(StoreErrorKind::EntryAlreadyBorrowed)
            } else {
                r matches Ok(t) && t.id() == id
            },
        }
    }

    /// Whether `r` is what `permit_delete` gives for the entry `id`, where
    /// the hooks before gave `pre`.
    pub open spec fn permits_delete(
        &self,
        id: Seq<char>,
        pre: HookResult<()>,
        r: Result<DeleteTicket, StoreError>,
    ) -> bool {
        match pre {
            Err(h) => r matches Err(e) && wraps(e, StoreErrorKind::PreHookExecuteError, h),
            Ok(_) => if !self.known().contains(id) {
                r matches Err(e) && e.is_bare(StoreErrorKind::FileNotFound)
            } else if self.borrowed().contains(id) {
                r matches Err(e) && e.is_bare(StoreErrorKind::IdLocked)
            } else {
                r matches Ok(t) && t.id() == id
            },
        }
    }

    /// Takes in the new entry `id`, given what the hooks that run before
    /// said: where they failed, or the store knows the entry already,
    /// nothing happens; else the entry is new, empty, and handed out.
    pub fn admit_new(&mut self, id: StoreId, pre: HookResult<()>) -> (r: Result<
        FileLockEntry,
        StoreError,
    >)
        ensures
            final(self).same_setup(old(self)),
            match pre {
                Err(h) => {
                    &&& r matches Err(e) && wraps(e, StoreErrorKind::PreHookExecuteError, h)
                    &&& final(self).same_entries(old(self))
                },
                Ok(_) => if old(self).known().contains(id@) {
                    &&& r matches Err(e) && e.is_bare(StoreErrorKind::EntryAlreadyExists)
                    &&& final(self).same_entries(old(self))
                } else {
                    &&& r matches Ok(fle) && fle@ == fresh_entry(id@) && fle.key() == id@
                    &&& final(self).took_in(old(self), id@)
                },
            },
    {
        match proceed(pre) {
            Err(e) => Err(e),
            Ok(_) => {
                if self.is_known(&id) {
                    Err(Error::new(StoreErrorKind::EntryAlreadyExists, None))
                } else {
                    let fle = FileLockEntry::new(Entry::new(id.clone()), id.clone());
                    self.mark(id);
                    Ok(fle)
                }
            },
        }
    }

    /// Creates the entry `id` and hands it out. The aspects for before run
    /// on the identifier; where they fail, nothing happens. The store must
    /// not know the entry yet. The aspects for after run on the new entry;
    /// where they fail, the entry stays created and handed out.
    pub fn create(&mut self, id: StoreId, sink: &mut Vec<HookError>) -> (r: Result<
        FileLockEntry,
        StoreError,
    >)
        ensures
            final(self).same_setup(old(self)),
            old(sink)@.is_prefix_of(final(sink)@),
            old(self).created(final(self), id@, r, added(old(sink)@, final(sink)@)),
            after_hooks(r, old(sink)@, final(sink)@),
            match r {
                Ok(fle) => {
                    &&& !old(self).known().contains(id@)
                    &&& fle.key() == id@
                    &&& final(self).took_in(old(self), id@)
                },
                Err(e) => match e.kind() {
                    StoreErrorKind::PreHookExecuteError => {
                        &&& final(self).same_entries(old(self))
                        &&& old(self).aspects_at(HookPosition::PreCreate).len() > 0
                    },
                    StoreErrorKind::EntryAlreadyExists => {
                        &&& final(self).same_entries(old(self))
                        &&& old(self).known().contains(id@)
                        &&& e.is_bare(StoreErrorKind::EntryAlreadyExists)
                    },
                    StoreErrorKind::PostHookExecuteError => {
                        &&& !old(self).known().contains(id@)
                        &&& final(self).took_in(old(self), id@)
                        &&& old(self).aspects_at(HookPosition::PostCreate).len() > 0
                    },
                    _ => false,
                },
            },
            old(self).aspects_at(HookPosition::PreCreate).len() == 0 && old(self).aspects_at(
                HookPosition::PostCreate,
            ).len() == 0 ==> {
                &&& final(sink)@ == old(sink)@
                &&& old(self).known().contains(id@) ==> r is Err
                &&& !old(self).known().contains(id@) ==> (r matches Ok(fle) && fle@ == fresh_entry(
                    id@,
                ))
            },
    {
        let pre = run_aspects_on_id(self.aspects.list(HookPosition::PreCreate), &id, sink);
        let ghost mid = sink@;
        let ghost cut = mid.len() - old(sink)@.len();
        match self.admit_new(id, pre) {
            Err(e) => {
                proof {
                    let reported = added(old(sink)@, sink@);
                    assert(reported.take(cut) =~= reported);
                    assert(old(self).create_steps(self, id@, Err(e), reported, pre, cut));
                }
                Err(e)
            },
            Ok(fle) => {
                let mut fle = fle;
                assert(self.aspects_at(HookPosition::PostCreate) == old(self).aspects_at(
                    HookPosition::PostCreate,
                ));
                let post = run_aspects_on_entry(
                    self.aspects.list(HookPosition::PostCreate),
                    &mut fle,
                    sink,
                );
                let ghost end = fle@;
                let r = conclude(fle, post);
                proof {
                    lemma_reported_run_then(old(sink)@, mid, sink@, post);
                    let reported = added(old(sink)@, sink@);
                    assert(reported.take(cut) =~= added(old(sink)@, mid));
                    assert(reported.skip(cut) =~= added(mid, sink@));
                    assert(aspects_on_entry(
                        old(self).aspects_at(HookPosition::PostCreate),
                        fresh_entry(id@),
                        end,
                        post,
                        reported.skip(cut),
                    ));
                    assert(old(self).create_steps(self, id@, r, reported, pre, cut));
                }
                r
            },
        }
    }
}

impl<H: Hook> Store<H> {
    /// Gives leave to load the entry `id`, given what the hooks that run
    /// before said: there is none where they failed, and none while the entry
    /// is handed out.
    pub fn permit_retrieve(&self, id: StoreId, pre: HookResult<()>) -> (r: Result<
        RetrieveTicket,
        StoreError,
    >)
        ensures
            self.permits_retrieve(id@, pre, r),
    {
        match proceed(pre) {
            Err(e) => Err(e),
            Ok(_) => {
                if self.is_borrowed(&id) {
                    Err(Error::new(StoreErrorKind::EntryAlreadyBorrowed, None))
                } else {
                    Ok(RetrieveTicket { id })
                }
            },
        }
    }

    /// Runs the aspects for before an entry is retrieved on `id` and gives
    /// leave to load the entry. An entry that is handed out is not handed
    /// out again.
    pub fn pre_retrieve(&self, id: StoreId, sink: &mut Vec<HookError>) -> (r: Result<
        RetrieveTicket,
        StoreError,
    >)
        ensures
            old(sink)@.is_prefix_of(final(sink)@),
            self.pre_retrieved(id@, r, added(old(sink)@, final(sink)@)),
            after_hooks(r, old(sink)@, final(sink)@),
            match r {
                Ok(t) => t.id() == id@ && !self.borrowed().contains(id@),
                Err(e) => match e.kind() {
                    StoreErrorKind::PreHookExecuteError => self.aspects_at(
                        HookPosition::PreRetrieve,
                    ).len() > 0,
                    StoreErrorKind::EntryAlreadyBorrowed => self.borrowed().contains(id@)
                        && e.is_bare(StoreErrorKind::EntryAlreadyBorrowed),
                    _ => false,
                },
            },
            self.aspects_at(HookPosition::PreRetrieve).len() == 0 ==> {
                &&& final(sink)@ == old(sink)@
                &&& r is Ok <==> !self.borrowed().contains(id@)
            },
    {
        let pre = run_aspects_on_id(self.aspects.list(HookPosition::PreRetrieve), &id, sink);
        let r = self.permit_retrieve(id, pre);
        proof {
            assert(aspects_on_id(
                self.aspects_at(HookPosition::PreRetrieve),
                id@,
                pre,
                added(old(sink)@, sink@),
            ));
        }
        r
    }

    /// Takes in the entry for which `ticket` was given, as it was loaded:
    /// `Ok(None)` where there is no file for it yet. Where loading failed,
    /// or the entry is handed out, nothing happens; else the entry is handed
    /// out, new and empty where there was no file.
    pub fn admit_loaded(&mut self, ticket: RetrieveTicket, loaded: Result<Option<Entry>, StoreError>) -> (r:
        Result<FileLockEntry, StoreError>)
        ensures
            final(self).same_setup(old(self)),
            if old(self).borrowed().contains(ticket.id()) {
                &&& r matches Err(e) && e.is_bare(StoreErrorKind::EntryAlreadyBorrowed)
                &&& final(self).same_entries(old(self))
            } else {
                match loaded {
                    Err(e) => r == Err::<FileLockEntry, StoreError>(e) && final(self).same_entries(
                        old(self),
                    ),
                    Ok(found) => {
                        &&& r matches Ok(fle) && fle.key() == ticket.id() && fle@ == loaded_entry(
                            found,
                            ticket.id(),
                        )
                        &&& final(self).took_in(old(self), ticket.id())
                    },
                }
            },
    {
        if self.is_borrowed(&ticket.id) {
            return Err(Error::new(StoreErrorKind::EntryAlreadyBorrowed, None));
        }
        match loaded {
            Err(e) => Err(e),
            Ok(found) => {
                let id = ticket.id;
                let entry = match found {
                    Some(entry) => entry,
                    None => Entry::new(id.clone()),
                };
                let fle = FileLockEntry::new(entry, id.clone());
                self.mark(id);
                Ok(fle)
            },
        }
    }

    /// Hands out the entry for which `ticket` was given, as it was loaded:
    /// `Ok(None)` where there is no file for it yet, which gives a new and
    /// empty entry. The aspects for after run on the entry; where they fail,
    /// the entry stays handed out.
    pub fn retrieve(
        &mut self,
        ticket: RetrieveTicket,
        loaded: Result<Option<Entry>, StoreError>,
        sink: &mut Vec<HookError>,
    ) -> (r: Result<FileLockEntry, StoreError>)
        ensures
            final(self).same_setup(old(self)),
            old(sink)@.is_prefix_of(final(sink)@),
            old(self).retrieved(
                final(self),
                ticket.id(),
                loaded,
                r,
                added(old(sink)@, final(sink)@),
            ),
            !old(self).borrowed().contains(ticket.id()) ==> (loaded matches Ok(found) ==> {
                &&& after_hooks(r, old(sink)@, final(sink)@)
                &&& r matches Ok(fle) ==> fle.key() == ticket.id()
                &&& r matches Err(e) ==> e.kind() == StoreErrorKind::PostHookExecuteError
                    && old(self).aspects_at(HookPosition::PostRetrieve).len() > 0
                &&& old(self).aspects_at(HookPosition::PostRetrieve).len() == 0 ==> (r matches Ok(
                    fle,
                ) && fle@ == loaded_entry(found, ticket.id())) && final(sink)@ == old(sink)@
            }),
    {
        match self.admit_loaded(ticket, loaded) {
            Err(e) => Err(e),
            Ok(fle) => {
                let mut fle = fle;
                assert(self.aspects_at(HookPosition::PostRetrieve) == old(self).aspects_at(
                    HookPosition::PostRetrieve,
                ));
                let ghost start = fle@;
                let post = run_aspects_on_entry(
                    self.aspects.list(HookPosition::PostRetrieve),
                    &mut fle,
                    sink,
                );
                proof {
                    assert(aspects_on_entry(
                        old(self).aspects_at(HookPosition::PostRetrieve),
                        start,
                        fle@,
                        post,
                        added(old(sink)@, sink@),
                    ));
                }
                let r = conclude(fle, post);
                r
            },
        }
    }

    /// Hands out the entry for which `ticket` was given, if there is one:
    /// where no file was found for it and the store does not know it, there
    /// is none, and nothing happens. Else as `retrieve`.
    pub fn get(
        &mut self,
        ticket: RetrieveTicket,
        loaded: Result<Option<Entry>, StoreError>,
        sink: &mut Vec<HookError>,
    ) -> (r: Result<Option<FileLockEntry>, StoreError>)
        ensures
            final(self).same_setup(old(self)),
            old(sink)@.is_prefix_of(final(sink)@),
            old(self).got(final(self), ticket.id(), loaded, r, added(old(sink)@, final(sink)@)),
            (loaded matches Ok(None)) && !old(self).known().contains(ticket.id()) ==> {
                &&& r matches Ok(None)
                &&& final(self).same_entries(old(self))
                &&& final(sink)@ == old(sink)@
            },
            !((loaded matches Ok(None)) && !old(self).known().contains(ticket.id())) ==> {
                &&& !(r matches Ok(None))
                &&& old(self).borrowed().contains(ticket.id()) ==> (r matches Err(e) && e.is_bare(
                    StoreErrorKind::EntryAlreadyBorrowed,
                )) && final(self).same_entries(old(self))
                &&& !old(self).borrowed().contains(ticket.id()) && loaded is Ok ==> final(self)
                    .took_in(old(self), ticket.id())
                &&& r matches Ok(Some(fle)) ==> fle.key() == ticket.id()
            },
    {
        proof {
            self.lemma_borrowed_is_known();
        }
        let absent = match &loaded {
            Ok(None) => !self.is_known(&ticket.id),
            _ => false,
        };
        if absent {
            return Ok(None);
        }
        let inner = self.retrieve(ticket, loaded, sink);
        let ghost kept = inner;
        let r = match inner {
            Ok(fle) => Ok(Some(fle)),
            Err(e) => Err(e),
        };
        proof {
            assert(found_entry(kept, r));
            assert(old(self).retrieved(self, ticket.id(), loaded, kept, added(old(sink)@, sink@)));
        }
        r
    }

    /// Runs the aspects for before an entry is written on `fle`, which they
    /// may change, and gives leave to write it.
    pub fn pre_update(&self, fle: &mut FileLockEntry, sink: &mut Vec<HookError>) -> (r: Result<
        UpdateTicket,
        StoreError,
    >)
        ensures
            final(fle).key() == old(fle).key(),
            old(sink)@.is_prefix_of(final(sink)@),
            self.pre_updated(
                old(fle)@,
                final(fle)@,
                old(fle).key(),
                r,
                added(old(sink)@, final(sink)@),
            ),
            after_hooks(r, old(sink)@, final(sink)@),
            r matches Ok(t) ==> t.id() == old(fle).key(),
            r matches Err(e) ==> e.kind() == StoreErrorKind::PreHookExecuteError && self.aspects_at(
                HookPosition::PreUpdate,
            ).len() > 0,
            self.aspects_at(HookPosition::PreUpdate).len() == 0 ==> {
                &&& r is Ok
                &&& final(sink)@ == old(sink)@
                &&& final(fle)@ == old(fle)@
            },
    {
        let pre = run_aspects_on_entry(self.aspects.list(HookPosition::PreUpdate), fle, sink);
        proof {
            assert(aspects_on_entry(
                self.aspects_at(HookPosition::PreUpdate),
                old(fle)@,
                fle@,
                pre,
                added(old(sink)@, sink@),
            ));
        }
        match proceed(pre) {
            Err(e) => Err(e),
            Ok(_) => Ok(UpdateTicket { id: fle.get_key().clone() }),
        }
    }

    /// Ends the writing of the entry `fle`, for which `ticket` was given,
    /// with how the writing went. Where it failed, its error is handed on.
    /// Else the aspects for after run on the entry, which they may change;
    /// where they fail, the entry stays written.
    pub fn update(
        &self,
        ticket: UpdateTicket,
        fle: &mut FileLockEntry,
        written: Result<(), StoreError>,
        sink: &mut Vec<HookError>,
    ) -> (r: Result<(), StoreError>)
        ensures
            final(fle).key() == old(fle).key(),
            old(sink)@.is_prefix_of(final(sink)@),
            self.updated(old(fle)@, final(fle)@, written, r, added(old(sink)@, final(sink)@)),
            match written {
                Err(e) => {
                    &&& r == Err::<(), StoreError>(e)
                    &&& final(fle)@ == old(fle)@
                    &&& final(sink)@ == old(sink)@
                },
                Ok(_) => {
                    &&& after_hooks(r, old(sink)@, final(sink)@)
                    &&& r matches Err(e) ==> e.kind() == StoreErrorKind::PostHookExecuteError
                        && self.aspects_at(HookPosition::PostUpdate).len() > 0
                    &&& self.aspects_at(HookPosition::PostUpdate).len() == 0 ==> r is Ok
                        && final(fle)@ == old(fle)@ && final(sink)@ == old(sink)@
                },
            },
    {
        match written {
            Err(e) => Err(e),
            Ok(_) => {
                let post = run_aspects_on_entry(
                    self.aspects.list(HookPosition::PostUpdate),
                    fle,
                    sink,
                );
                proof {
                    assert(aspects_on_entry(
                        self.aspects_at(HookPosition::PostUpdate),
                        old(fle)@,
                        fle@,
                        post,
                        added(old(sink)@, sink@),
                    ));
                }
                conclude((), post)
            },
        }
    }

    /// Takes the entry `fle` back: it is handed out no longer, and the
    /// store goes on knowing it.
    pub fn release(&mut self, fle: FileLockEntry) -> (entry: Entry)
        ensures
            final(self).same_setup(old(self)),
            final(self).known() == old(self).known(),
            final(self).borrowed() == old(self).borrowed().remove(fle.key()),
            entry@ == fle@,
    {
        let (entry, key) = fle.into_parts();
        self.unmark(key);
        entry
    }

    /// Gives leave to remove the entry `id`, given what the hooks that run
    /// before said: there is none where they failed, none for an entry that
    /// the store does not know, and none while the entry is handed out.
    pub fn permit_delete(&self, id: StoreId, pre: HookResult<()>) -> (r: Result<
        DeleteTicket,
        StoreError,
    >)
        ensures
            self.permits_delete(id@, pre, r),
    {
        match proceed(pre) {
            Err(e) => Err(e),
            Ok(_) => {
                if !self.is_known(&id) {
                    Err(Error::new(StoreErrorKind::FileNotFound, None))
                } else if self.is_borrowed(&id) {
                    Err(Error::new(StoreErrorKind::IdLocked, None))
                } else {
                    Ok(DeleteTicket { id })
                }
            },
        }
    }

    /// Runs the aspects for before an entry is removed on `id` and gives
    /// leave to remove the entry.
    pub fn pre_delete(&self, id: StoreId, sink: &mut Vec<HookError>) -> (r: Result<
        DeleteTicket,
        StoreError,
    >)
        ensures
            old(sink)@.is_prefix_of(final(sink)@),
            self.pre_deleted(id@, r, added(old(sink)@, final(sink)@)),
            after_hooks(r, old(sink)@, final(sink)@),
            match r {
                Ok(t) => t.id() == id@ && self.known().contains(id@) && !self.borrowed().contains(
                    id@,
                ),
                Err(e) => match e.kind() {
                    StoreErrorKind::PreHookExecuteError => self.aspects_at(
                        HookPosition::PreDelete,
                    ).len() > 0,
                    StoreErrorKind::FileNotFound => !self.known().contains(id@) && e.is_bare(
                        StoreErrorKind::FileNotFound,
                    ),
                    StoreErrorKind::IdLocked => self.borrowed().contains(id@) && e.is_bare(
                        StoreErrorKind::IdLocked,
                    ),
                    _ => false,
                },
            },
            self.aspects_at(HookPosition::PreDelete).len() == 0 ==> {
                &&& final(sink)@ == old(sink)@
                &&& r is Ok <==> self.known().contains(id@) && !self.borrowed().contains(id@)
            },
    {
        let pre = run_aspects_on_id(self.aspects.list(HookPosition::PreDelete), &id, sink);
        let r = self.permit_delete(id, pre);
        proof {
            assert(aspects_on_id(
                self.aspects_at(HookPosition::PreDelete),
                id@,
                pre,
                added(old(sink)@, sink@),
            ));
        }
        r
    }

    /// Ends the removal of the entry for which `ticket` was given, with how
    /// removing its file went. An entry that is handed out stays. Else the
    /// store forgets the entry, also where removing the file failed, whose
    /// error is then handed on. After that the aspects for after run on the
    /// identifier.
    pub fn delete(
        &mut self,
        ticket: DeleteTicket,
        removed: Result<(), StoreError>,
        sink: &mut Vec<HookError>,
    ) -> (r: Result<(), StoreError>)
        ensures
            final(self).same_setup(old(self)),
            old(sink)@.is_prefix_of(final(sink)@),
            old(self).deleted(
                final(self),
                ticket.id(),
                removed,
                r,
                added(old(sink)@, final(sink)@),
            ),
            old(self).borrowed().contains(ticket.id()) ==> {
                &&& r matches Err(e) && e.is_bare(StoreErrorKind::IdLocked)
                &&& final(self).same_entries(old(self))
                &&& final(sink)@ == old(sink)@
            },
            !old(self).borrowed().contains(ticket.id()) ==> {
                &&& final(self).known() == old(self).known().remove(ticket.id())
                &&& final(self).borrowed() == old(self).borrowed()
                &&& match removed {
                    Err(e) => r == Err::<(), StoreError>(e) && final(sink)@ == old(sink)@,
                    Ok(_) => {
                        &&& after_hooks(r, old(sink)@, final(sink)@)
                        &&& r matches Err(e) ==> e.kind() == StoreErrorKind::PostHookExecuteError
                            && old(self).aspects_at(HookPosition::PostDelete).len() > 0
                        &&& old(self).aspects_at(HookPosition::PostDelete).len() == 0 ==> r is Ok
                            && final(sink)@ == old(sink)@
                    },
                }
            },
    {
        if self.is_borrowed(&ticket.id) {
            return Err(Error::new(StoreErrorKind::IdLocked, None));
        }
        self.forget(&ticket.id);
        proof {
            assert(self.aspects_at(HookPosition::PostDelete) == old(self).aspects_at(
                HookPosition::PostDelete,
            ));
            assert(self.borrowed() =~= old(self).borrowed());
        }
        match removed {
            Err(e) => Err(e),
            Ok(_) => {
                let post = run_aspects_on_id(
                    self.aspects.list(HookPosition::PostDelete),
                    &ticket.id,
                    sink,
                );
                proof {
                    assert(aspects_on_id(
                        old(self).aspects_at(HookPosition::PostDelete),
                        ticket.id(),
                        post,
                        added(old(sink)@, sink@),
                    ));
                }
                conclude((), post)
            },
        }
    }

    /// The pattern that the paths of all entries of the module `mod_name`
    /// match.
    pub fn module_pattern(&self, mod_name: &str) -> (pattern: String)
        ensures
            pattern@ == join_path(join_path(self.location(), mod_name@), seq!['*']),
    {
        let dir = push_path(self.location.as_str(), mod_name);
        let pattern = push_path(dir.as_str(), "*");
        proof {
            reveal_strlit("*");
        }
        pattern
    }

    /// The entries of a module, given the paths that match its pattern: their
    /// identifiers, in that order.
    pub fn retrieve_for_module(&self, found: Vec<String>) -> (iter: StoreIdIterator)
        ensures
            iter.remaining() == Seq::new(found@.len(), |i: int| found@[i]@),
    {
        let ghost paths = Seq::new(found@.len(), |i: int| found@[i]@);
        let mut ids: Vec<StoreId> = Vec::new();
        let mut found = found;
        let mut i: usize = 0;
        let n = found.len();
        while i < n
            invariant
                n == found@.len(),
                paths.len() == n,
                i <= n,
                ids@.len() == i,
                forall|j: int| 0 <= j < i ==> (#[trigger] ids@[j])@ == paths[j],
                forall|j: int| i <= j < n ==> (#[trigger] found@[j])@ == paths[j],
            decreases n - i,
        {
            let mut path = String::new();
            core::mem::swap(&mut found[i], &mut path);
            ids.push(StoreId::from_path(path));
            i = i + 1;
        }
        let iter = StoreIdIterator::new(ids);
        iter
    }
}

/// Whether one among `aspects` is named `name`.
pub open spec fn named<H: Hook>(aspects: Seq<Aspect<H>>, name: Seq<char>) -> bool {
    exists|j: int| 0 <= j < aspects.len() && (#[trigger] aspects[j]).spec_name() == name
}

/// The place of the first among `aspects` that is named `name`, where
/// there is one.
pub open spec fn first_named<H: Hook>(aspects: Seq<Aspect<H>>, name: Seq<char>) -> int {
    choose|k: int| named_first(aspects, name, k)
}

/// Whether `after` is `before` but for the hooks of the aspect at `k`.
pub open spec fn changed_at<H: Hook>(before: Seq<Aspect<H>>, after: Seq<Aspect<H>>, k: int) -> bool {
    &&& 0 <= k < before.len()
    &&& after.len() == before.len()
    &&& after[k].spec_name() == before[k].spec_name()
    &&& after[k].cfg() == before[k].cfg()
    &&& forall|j: int| 0 <= j < before.len() && j != k ==> #[trigger] after[j] == before[j]
}

/// Whether the aspect at `k` is the first among `aspects` that is named
/// `name`.
pub open spec fn named_first<H: Hook>(aspects: Seq<Aspect<H>>, name: Seq<char>, k: int) -> bool {
    &&& 0 <= k < aspects.len()
    &&& aspects[k].spec_name() == name
    &&& forall|j: int| 0 <= j < k ==> (#[trigger] aspects[j]).spec_name() != name
}

} // verus!
