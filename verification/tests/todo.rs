use imag::entry::{Entry, FileLockEntry};
use imag::header::EntryHeader;
use imag::hook::accessor::{HookDataAccessor, HookDataAccessorProvider, StoreIdAccessor};
use imag::hook::error::HookResult;
use imag::hook::Hook;
use imag::store::Store;
use imag::storeid::{ModulePath, StoreId, StoreIdIterator};
use imag::todo::{on_modify, task_id, ImportedTask, IntoTask, Task, TaskIterator, TaskStatus, TodoErrorKind};
use imag::value::Value;

struct NoHook;

impl StoreIdAccessor for NoHook {
    fn access(&self, _id: &StoreId) -> HookResult<()> {
        Ok(())
    }
}

impl HookDataAccessorProvider for NoHook {
    fn accessor(&self) -> HookDataAccessor<'_> {
        HookDataAccessor::StoreIdAccess(self)
    }
}

impl Hook for NoHook {
    fn name(&self) -> &'static str {
        "none"
    }

    fn set_config(&mut self, _cfg: &Value) {}
}

const UUID: &str = "8ca953d5-18b4-4eb9-bd56-18f2e5b752f0";

fn line(status: &str) -> String {
    format!(
        "{{\"description\":\"some description\",\"entry\":\"20150619T165438Z\",\"status\":\"{}\",\"uuid\":\"{}\"}}",
        status, UUID
    )
}

fn module() -> ModulePath {
    ModulePath::new("todo", "0.2.0").unwrap()
}

fn entry_for(id: &StoreId, header: EntryHeader) -> FileLockEntry {
    let mut store: Store<NoHook> = Store::new(String::from("/store"));
    let mut sink = Vec::new();
    let ticket = store.pre_retrieve(id.clone(), &mut sink).unwrap();
    let loaded = Entry::from_parts(id.clone(), header, String::from("text"));
    store.retrieve(ticket, Ok(Some(loaded)), &mut sink).unwrap()
}

#[test]
fn import_reads_uuid_and_status() {
    let t = Task::import(&line("pending")).unwrap();
    assert_eq!(t.uuid, UUID);
    assert_eq!(t.status, TaskStatus::Pending);
    assert_eq!(Task::import(&line("deleted")).unwrap().status, TaskStatus::Deleted);
    assert_eq!(Task::import(&line("completed")).unwrap().status, TaskStatus::Completed);
    assert_eq!(Task::import(&line("waiting")).unwrap().status, TaskStatus::Waiting);
    assert_eq!(Task::import(&line("recurring")).unwrap().status, TaskStatus::Recurring);
}

#[test]
fn import_refuses_what_is_no_task() {
    for bad in ["", "{}", "not json", "[1, 2]", "{\"uuid\":\"x\"}"] {
        let e = Task::import(bad).unwrap_err();
        assert_eq!(e.err_type(), TodoErrorKind::ImportError);
    }
    assert_eq!(Task::imported(None).unwrap_err().err_type(), TodoErrorKind::ImportError);
    let t = ImportedTask { uuid: String::from("u"), status: TaskStatus::Waiting };
    assert_eq!(Task::imported(Some(t)).unwrap().uuid, "u");
}

#[test]
fn task_id_lies_under_taskwarrior() {
    let id = task_id(&module(), UUID);
    assert_eq!(id.as_str(), "todo/taskwarrior/8ca953d5-18b4-4eb9-bd56-18f2e5b752f0~0.2.0");
}

#[test]
fn into_task_writes_the_uuid_into_the_header() {
    let id = task_id(&module(), UUID);
    let imported = Task::import(&line("pending")).unwrap();
    let mut task = imported.into_task(entry_for(&id, EntryHeader::new())).unwrap();
    task.entry_mut().entry_mut().get_content_mut().push_str("!");
    assert_eq!(task.entry().entry().get_content(), "text!");
    *task.entry_mut().entry_mut().get_content_mut() = String::from("text");
    let header = task.entry().entry().get_header();
    match header.read("todo.uuid").unwrap().unwrap() {
        Value::String(s) => assert_eq!(s, UUID),
        other => panic!("no string: {:?}", other),
    }
    assert_eq!(task.entry().entry().get_content(), "text");
    assert_eq!(task.entry().get_key().as_str(), id.as_str());
}

#[test]
fn into_task_keeps_what_the_header_holds() {
    let id = task_id(&module(), UUID);
    let mut header = EntryHeader::new();
    header.set("other", Value::Integer(1)).unwrap();
    header.set("todo", Value::empty_table()).unwrap();
    header.set("todo.seen", Value::Boolean(true)).unwrap();
    header.set("todo.uuid", Value::String(String::from("old"))).unwrap();
    let imported = ImportedTask { uuid: String::from("new"), status: TaskStatus::Pending };
    let task = imported.into_task(entry_for(&id, header)).unwrap().into_entry();
    let header = task.entry().get_header();
    assert!(matches!(header.read("other").unwrap().unwrap(), Value::Integer(1)));
    assert!(matches!(header.read("todo.seen").unwrap().unwrap(), Value::Boolean(true)));
    assert!(matches!(header.read("todo.uuid").unwrap().unwrap(), Value::String(s) if s == "new"));
    assert!(matches!(header.read("todo").unwrap().unwrap(), Value::Table(f) if f.len() == 2));
}

#[test]
fn into_task_fails_where_the_header_cannot_take_the_uuid() {
    let id = task_id(&module(), UUID);
    let mut header = EntryHeader::new();
    header.set("todo", Value::Integer(3)).unwrap();
    let imported = ImportedTask { uuid: String::from("new"), status: TaskStatus::Pending };
    let e = imported.into_task(entry_for(&id, header)).unwrap_err();
    assert_eq!(e.err_type(), TodoErrorKind::StoreError);
    assert_eq!(e.cause().unwrap().to_text(), "[Header has wrong type for path]");
    let imported = ImportedTask { uuid: String::from("new"), status: TaskStatus::Pending };
    let no_table = EntryHeader::from_value(Value::Boolean(false));
    assert!(imported.into_task(entry_for(&id, no_table)).is_err());
}

#[test]
fn on_modify_answers_every_second_task() {
    assert_eq!(on_modify(0, TaskStatus::Deleted), (false, false));
    assert_eq!(on_modify(1, TaskStatus::Deleted), (true, true));
    assert_eq!(on_modify(1, TaskStatus::Pending), (true, false));
    assert_eq!(on_modify(2, TaskStatus::Deleted), (false, false));
    assert_eq!(on_modify(3, TaskStatus::Completed), (true, false));
}

#[test]
fn tasks_come_and_go_through_the_store() {
    let mut store: Store<NoHook> = Store::new(String::from("/store"));
    let mut sink = Vec::new();
    let e = Task::delete_by_uuid(&store, &module(), UUID, &mut sink).unwrap_err();
    assert_eq!(e.err_type(), TodoErrorKind::StoreError);
    assert_eq!(e.cause().unwrap().to_text(), "[File not found]");

    let ticket = store.pre_retrieve(task_id(&module(), UUID), &mut sink).unwrap();
    let task = Task::from_storeid(&mut store, ticket, Ok(None), &mut sink).unwrap();
    assert_eq!(task.entry().get_key().as_str(), task_id(&module(), UUID).as_str());
    let ticket = store.pre_retrieve(StoreId::from_path(String::from("x~1.0.0")), &mut sink).unwrap();
    let wrapped = Task::new(store.retrieve(ticket, Ok(None), &mut sink).unwrap());
    assert_eq!(wrapped.entry().get_key().as_str(), "x~1.0.0");

    let e = Task::delete_by_uuid(&store, &module(), UUID, &mut sink).unwrap_err();
    assert_eq!(e.cause().unwrap().to_text(), "[ID locked]");
    store.release(task.into_entry());
    let ticket = Task::delete_by_uuid(&store, &module(), UUID, &mut sink).unwrap();
    assert!(store.delete(ticket, Ok(()), &mut sink).is_ok());
}

#[test]
fn all_tasks_are_listed_in_order() {
    let store: Store<NoHook> = Store::new(String::from("/store"));
    assert_eq!(Task::all_pattern(&store), "/store/todo/taskwarrior/*");
    let found = vec![String::from("/store/todo/taskwarrior/a~0.2.0"), String::from("/store/todo/taskwarrior/b~0.2.0")];
    let mut ids = Task::all_as_ids(&store, found.clone());
    assert_eq!(ids.next().unwrap().as_str(), found[0]);
    let mut tasks = Task::all(&store, found.clone());
    assert_eq!(tasks.next().unwrap().as_str(), found[0]);
    assert_eq!(tasks.next().unwrap().as_str(), found[1]);
    assert!(tasks.next().is_none());
    let mut own = TaskIterator::new(StoreIdIterator::new(vec![StoreId::from_path(String::from("z"))]));
    assert_eq!(own.next().unwrap().as_str(), "z");
    assert!(own.next().is_none());
}
