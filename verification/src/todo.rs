//! Tasks of taskwarrior, kept as entries of the store.

use vstd::prelude::*;
use vstd::string::*;
use crate::entry::{EntryView, FileLockEntry};
use crate::error::{Error, ErrorKind};
use crate::header::{
    is_path, lemma_field_is_there, lemma_write_under, read_path, write_path, Lookup, Written,
};
use crate::hook::aspect::added;
use crate::hook::error::HookError;
use crate::hook::Hook;
use crate::store::{
    DeleteTicket, NoCustomData, RetrieveTicket, Store, StoreError, StoreErrorKind,
};
use crate::storeid::{module_entry_path, IntoStoreId, ModuleEntryPath, ModulePath, StoreId, StoreIdIterator};
use crate::text::{holds, lemma_split_append, lemma_split_whole, split};
use crate::value::{Value, ValueView};

verus! {

/// The kinds of error that working with tasks gives.
#[derive(Clone, Copy, Debug, PartialEq, Eq, Structural)]
pub enum TodoErrorKind {
    StoreError,
    ImportError,
}

impl ErrorKind for TodoErrorKind {
    open spec fn text(&self) -> Seq<char> {
        match self {
            TodoErrorKind::StoreError => "Store Error"@,
            TodoErrorKind::ImportError => "Error importing"@,
        }
    }

    fn as_str(&self) -> (s: &'static str) {
        match self {
            TodoErrorKind::StoreError => "Store Error",
            TodoErrorKind::ImportError => "Error importing",
        }
    }
}

/// An error of working with tasks.
pub type TodoError = Error<TodoErrorKind, NoCustomData>;

/// Whether `e` is the error of kind `StoreError` that the error `cause` of
/// the store caused.
pub open spec fn from_store(e: TodoError, cause: StoreError) -> bool {
    &&& e.kind() == TodoErrorKind::StoreError
    &&& e.payload() is None
    &&& e.source() is Some
    &&& cause.is_cause(e.source().unwrap())
}

/// Whether `r` is what the store gave, `inner`, with an error of the store as
/// the cause of an error of kind `StoreError`.
pub open spec fn store_gave<T>(inner: Result<T, StoreError>, r: Result<T, TodoError>) -> bool {
    match inner {
        Ok(v) => r == Ok::<T, TodoError>(v),
        Err(cause) => r matches Err(e) && from_store(e, cause),
    }
}

/// The error of kind `StoreError` that `cause` caused.
fn store_error(cause: StoreError) -> (e: TodoError)
    ensures
        from_store(e, cause),
{
    Error::new(TodoErrorKind::StoreError, Some(Box::new(cause.into_cause())))
}

/// The state of a task in taskwarrior.
#[derive(Clone, Copy, Debug, PartialEq, Eq, Structural)]
pub enum TaskStatus {
    Pending,
    Deleted,
    Completed,
    Waiting,
    Recurring,
}

/// What the store needs of a task that taskwarrior handed over: its UUID,
/// written out, and its state.
#[derive(Debug)]
pub struct ImportedTask {
    pub uuid: String,
    pub status: TaskStatus,
}

/// What an imported task holds.
pub ghost struct ImportedTaskView {
    pub uuid: Seq<char>,
    pub status: TaskStatus,
}

impl View for ImportedTask {
    type V = ImportedTaskView;

    open spec fn view(&self) -> ImportedTaskView {
        ImportedTaskView { uuid: self.uuid@, status: self.status }
    }
}

/// The task that `task_hookrs::import::import_task` reads from the line
/// `line` of JSON, as far as the store needs it: `None` where the line holds
/// no task.
pub uninterp spec fn imported_task(line: Seq<char>) -> Option<ImportedTaskView>;

/// Calls `task_hookrs::import::import_task`, for the format of taskwarrior
/// 2.6, on `line`, and takes from the task that it gives the UUID, written
/// out by `to_string`, and the state. The call reads `line` alone and gives
/// an error for every line that holds no task.
#[verifier::external_body]
fn import_line(line: &str) -> (r: Option<ImportedTask>)
    ensures
        r.is_some() == imported_task(line@).is_some(),
        r matches Some(t) ==> t@ == imported_task(line@).unwrap(),
{
    match task_hookrs::import::import_task::<task_hookrs::task::TW26>(line) {
        Ok(task) => Some(ImportedTask {
            uuid: task.uuid().to_string(),
            status: match task.status() {
                task_hookrs::status::TaskStatus::Pending => TaskStatus::Pending,
                task_hookrs::status::TaskStatus::Deleted => TaskStatus::Deleted,
                task_hookrs::status::TaskStatus::Completed => TaskStatus::Completed,
                task_hookrs::status::TaskStatus::Waiting => TaskStatus::Waiting,
                task_hookrs::status::TaskStatus::Recurring => TaskStatus::Recurring,
            },
        }),
        Err(_) => None,
    }
}

/// The name under which the module keeps the task with the UUID `uuid`.
pub open spec fn task_name(uuid: Seq<char>) -> Seq<char> {
    "taskwarrior/"@ + uuid
}

/// The identifier of the task with the UUID `uuid` among the entries of
/// `module`.
pub fn task_id(module: &ModulePath, uuid: &str) -> (id: StoreId)
    ensures
        id@ == module_entry_path(module.module(), task_name(uuid@), module.version()),
{
    let mut name = String::from_str("taskwarrior/");
    name.append(uuid);
    ModuleEntryPath::new(module, name.as_str()).into_storeid()
}

/// What taskwarrior's hook for changed tasks does with the task that comes
/// in at the place `counter`, counted from 0: whether it hands the task back
/// to taskwarrior, and whether it removes the task from the store.
/// Taskwarrior sends each task twice, as it was and as it is, and wants the
/// second back; a task that is deleted now leaves the store.
pub fn on_modify(counter: usize, status: TaskStatus) -> (r: (bool, bool))
    ensures
        r.0 == (counter % 2 == 1),
        r.1 == (counter % 2 == 1 && status == TaskStatus::Deleted),
{
    let second = counter % 2 == 1;
    let deleted = match status {
        TaskStatus::Deleted => true,
        _ => false,
    };
    (second, second && deleted)
}

/// The header `h` once it holds the UUID `uuid` of a task: under `todo`, a
/// table that is added where the header has none, the field `uuid`. `None`
/// where the header cannot take it: where it is no table itself, or `todo`
/// is there and is none.
pub open spec fn with_task_uuid(h: ValueView, uuid: Seq<char>) -> Option<ValueView> {
    let prepared = match read_path(h, seq!["todo"@]) {
        Lookup::Found(_) => Written::Done { tree: h, previous: None },
        Lookup::Missing => write_path(h, seq!["todo"@], ValueView::Table(Seq::empty())),
        Lookup::NotATable => Written::NotATable,
    };
    match prepared {
        Written::Done { tree, previous } => match write_path(
            tree,
            seq!["todo"@, "uuid"@],
            ValueView::String(uuid),
        ) {
            Written::Done { tree, previous } => Some(tree),
            _ => None,
        },
        _ => None,
    }
}

/// Whether `e` is the error of a header that cannot take the UUID of a
/// task: of kind `StoreError`, caused by the error of the store for a path
/// that runs through a value that is no table.
pub open spec fn is_header_refusal(e: TodoError) -> bool {
    exists|cause: StoreError| #[trigger]
        from_store(e, cause) && cause.is_bare(StoreErrorKind::HeaderPathTypeFailure)
}

/// The error of a header that refused a path with `cause`.
fn refused(cause: StoreError) -> (r: Result<Task, TodoError>)
    ensures
        r matches Err(e) && from_store(e, cause),
        cause.is_bare(StoreErrorKind::HeaderPathTypeFailure) ==> (r matches Err(e)
            && is_header_refusal(e)),
{
    Err(store_error(cause))
}

/// A task: an entry of the store that holds the UUID of a task of
/// taskwarrior.
#[derive(Debug)]
pub struct Task {
    fle: FileLockEntry,
}

impl View for Task {
    type V = EntryView;

    closed spec fn view(&self) -> EntryView {
        self.fle@
    }
}

impl Task {
    /// The identifier under which the store handed the entry out.
    pub closed spec fn key(&self) -> Seq<char> {
        self.fle.key()
    }

    /// The task that the entry `fle` holds.
    pub fn new(fle: FileLockEntry) -> (task: Task)
        ensures
            task@ == fle@,
            task.key() == fle.key(),
    {
        Task { fle }
    }

    /// The entry that holds the task.
    pub fn entry(&self) -> (fle: &FileLockEntry)
        ensures
            fle@ == self@,
            fle.key() == self.key(),
    {
        &self.fle
    }

    /// The entry that holds the task, to be changed in place.
    pub fn entry_mut(&mut self) -> (fle: &mut FileLockEntry)
        ensures
            fle@ == old(self)@,
            fle.key() == old(self).key(),
            final(self)@ == final(fle)@,
            final(self).key() == final(fle).key(),
    {
        &mut self.fle
    }

    /// The entry, given up by the task.
    pub fn into_entry(self) -> (fle: FileLockEntry)
        ensures
            fle@ == self@,
            fle.key() == self.key(),
    {
        self.fle
    }
}

/// The paths `todo` and `todo.uuid`, cut at their dots.
proof fn lemma_task_paths()
    ensures
        split("todo"@, '.') == seq!["todo"@],
        split("todo.uuid"@, '.') == seq!["todo"@, "uuid"@],
        is_path("todo"@),
        is_path("todo.uuid"@),
{
    reveal_strlit("todo");
    reveal_strlit("uuid");
    reveal_strlit("todo.uuid");
    let t = "todo"@;
    let u = "uuid"@;
    lemma_split_whole(t, '.');
    lemma_split_append(t, u, '.');
    assert("todo.uuid"@ =~= t + seq!['.'] + u);
    assert(is_path(t));
    assert(is_path("todo.uuid"@)) by {}
}

/// What can be made a task of the store.
pub trait IntoTask: Sized {
    /// The UUID of the task.
    open spec fn task_uuid(&self) -> Seq<char> {
        arbitrary()
    }

    /// Makes the entry `fle`, which the store handed out for it, the
    /// task: its header takes the UUID under `todo.uuid`, and the rest of the
    /// entry stays. Where the header cannot take it, the error of the store
    /// is the cause of the error.
    fn into_task(self, fle: FileLockEntry) -> (r: Result<Task, TodoError>)
        ensures
            match with_task_uuid(fle@.header, self.task_uuid()) {
                Some(header) => r matches Ok(task) && task@ == (EntryView { header, ..fle@ })
                    && task.key() == fle.key(),
                None => r matches Err(e) && is_header_refusal(e),
            },
    ;
}

impl IntoTask for ImportedTask {
    open spec fn task_uuid(&self) -> Seq<char> {
        self.uuid@
    }

    fn into_task(self, fle: FileLockEntry) -> (r: Result<Task, TodoError>) {
        let mut fle = fle;
        proof {
            lemma_task_paths();
        }
        let ghost given = fle@.header;
        let header = fle.entry_mut().get_header_mut();
        match header.read("todo") {
            Ok(None) => {
                match header.set("todo", Value::empty_table()) {
                    Ok(_) => {},
                    Err(e) => {
                        return refused(e);
                    },
                }
            },
            Ok(Some(_)) => {},
            Err(e) => {
                return refused(e);
            },
        }
        proof {
            lemma_field_is_there(given, "todo"@, ValueView::Table(Seq::empty()));
            lemma_write_under(header@, "todo"@, "uuid"@, ValueView::String(self.uuid@));
        }
        match header.set("todo.uuid", Value::String(self.uuid)) {
            Ok(_) => {},
            Err(e) => {
                return refused(e);
            },
        }
        Ok(Task::new(fle))
    }
}

impl Task {
    /// The task that the line `line` of taskwarrior's JSON holds, as far as
    /// the store needs it. A line that holds no task is an `ImportError`.
    pub fn import(line: &str) -> (r: Result<ImportedTask, TodoError>)
        ensures
            match imported_task(line@) {
                Some(t) => r matches Ok(task) && task@ == t,
                None => r matches Err(e) && e.is_bare(TodoErrorKind::ImportError),
            },
    {
        Task::imported(import_line(line))
    }

    /// What importing a line gave: the task, or an `ImportError` where the
    /// line held none.
    pub fn imported(task: Option<ImportedTask>) -> (r: Result<ImportedTask, TodoError>)
        ensures
            match task {
                Some(t) => r == Ok::<ImportedTask, TodoError>(t),
                None => r matches Err(e) && e.is_bare(TodoErrorKind::ImportError),
            },
    {
        match task {
            Some(t) => Ok(t),
            None => Err(Error::new(TodoErrorKind::ImportError, None)),
        }
    }

    /// Asks `store` for leave to remove the task with the UUID `uuid` among
    /// the entries of `module`. Where the store refuses, its error is the
    /// cause of the error.
    pub fn delete_by_uuid<H: Hook>(
        store: &Store<H>,
        module: &ModulePath,
        uuid: &str,
        sink: &mut Vec<HookError>,
    ) -> (r: Result<DeleteTicket, TodoError>)
        ensures
            old(sink)@.is_prefix_of(final(sink)@),
            exists|inner: Result<DeleteTicket, StoreError>| #[trigger]
                store.pre_deleted(
                    module_entry_path(module.module(), task_name(uuid@), module.version()),
                    inner,
                    added(old(sink)@, final(sink)@),
                ) && store_gave(inner, r),
            r matches Ok(t) ==> t.id() == module_entry_path(
                module.module(),
                task_name(uuid@),
                module.version(),
            ) && store.known().contains(t.id()) && !store.borrowed().contains(t.id()),
            r matches Err(e) ==> e.kind() == TodoErrorKind::StoreError,
    {
        let inner = store.pre_delete(task_id(module, uuid), sink);
        let ghost given = inner;
        let r = match inner {
            Ok(ticket) => Ok(ticket),
            Err(e) => Err(store_error(e)),
        };
        proof {
            assert(store_gave(given, r));
        }
        r
    }

    /// The pattern that the paths of all tasks in `store` match.
    pub fn all_pattern<H: Hook>(store: &Store<H>) -> (pattern: String)
        ensures
            pattern@ == crate::storeid::join_path(
                crate::storeid::join_path(store.location(), "todo/taskwarrior"@),
                seq!['*'],
            ),
    {
        store.module_pattern("todo/taskwarrior")
    }

    /// The identifiers of all tasks, given the paths that match the pattern
    /// of the tasks.
    pub fn all_as_ids<H: Hook>(store: &Store<H>, found: Vec<String>) -> (iter: StoreIdIterator)
        ensures
            iter.remaining() == Seq::new(found@.len(), |i: int| found@[i]@),
    {
        store.retrieve_for_module(found)
    }

    /// All tasks, given the paths that match the pattern of the tasks.
    pub fn all<H: Hook>(store: &Store<H>, found: Vec<String>) -> (iter: TaskIterator)
        ensures
            iter.remaining() == Seq::new(found@.len(), |i: int| found@[i]@),
    {
        TaskIterator::new(Task::all_as_ids(store, found))
    }

    /// The task for which `ticket` was given, as it was loaded: as
    /// `Store::retrieve` hands it out. Where the store refuses, its error is
    /// the cause of the error.
    pub fn from_storeid<H: Hook>(
        store: &mut Store<H>,
        ticket: RetrieveTicket,
        loaded: Result<Option<crate::entry::Entry>, StoreError>,
        sink: &mut Vec<HookError>,
    ) -> (r: Result<Task, TodoError>)
        ensures
            final(store).same_setup(old(store)),
            old(sink)@.is_prefix_of(final(sink)@),
            exists|inner: Result<FileLockEntry, StoreError>| #[trigger]
                old(store).retrieved(
                    final(store),
                    ticket.id(),
                    loaded,
                    inner,
                    added(old(sink)@, final(sink)@),
                ) && (match inner {
                    Ok(fle) => r matches Ok(task) && task@ == fle@ && task.key() == fle.key(),
                    Err(cause) => r matches Err(e) && from_store(e, cause),
                }),
            r matches Ok(task) ==> task.key() == ticket.id() && final(store).took_in(
                old(store),
                ticket.id(),
            ),
            r matches Err(e) ==> e.kind() == TodoErrorKind::StoreError,
            old(store).borrowed().contains(ticket.id()) ==> r is Err && final(store).same_entries(
                old(store),
            ),
    {
        let inner = store.retrieve(ticket, loaded, sink);
        let ghost given = inner;
        let r = match inner {
            Ok(fle) => Ok(Task::new(fle)),
            Err(e) => Err(store_error(e)),
        };
        proof {
            assert(old(store).retrieved(store, ticket.id(), loaded, given, added(old(sink)@, sink@)));
        }
        r
    }
}

/// The tasks of the store, handed out one by one.
#[derive(Debug)]
pub struct TaskIterator {
    iditer: StoreIdIterator,
}

impl TaskIterator {
    /// The paths of the tasks that are still to come, in order.
    pub closed spec fn remaining(&self) -> Seq<Seq<char>> {
        self.iditer.remaining()
    }

    /// The iterator over the tasks with the identifiers of `iditer`.
    pub fn new(iditer: StoreIdIterator) -> (iter: TaskIterator)
        ensures
            iter.remaining() == iditer.remaining(),
    {
        TaskIterator { iditer }
    }

    /// The identifier of the next task, or `None` when all have been handed
    /// out.
    pub fn next(&mut self) -> (r: Option<StoreId>)
        ensures
            old(self).remaining().len() == 0 ==> r is None && final(self).remaining() == old(
                self,
            ).remaining(),
            old(self).remaining().len() > 0 ==> (r matches Some(id) && id@ == old(
                self,
            ).remaining()[0]) && final(self).remaining() == old(self).remaining().drop_first(),
    {
        self.iditer.next()
    }
}

} // verus!
