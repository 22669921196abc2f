use imag::entry::Entry;
use imag::header::EntryHeader;
use imag::hook::accessor::{HookDataAccessor, HookDataAccessorProvider, StoreIdAccessor};
use imag::hook::error::HookResult;
use imag::hook::Hook;
use imag::store::Store;
use imag::store::StoreErrorKind;
use imag::storeid::StoreId;
use imag::text::split_text;
use imag::value::Value;

struct NoHook;

impl StoreIdAccessor for NoHook {
    fn access(&self, _id: &StoreId) -> HookResult<()> {
        Ok(())
    }
}

impl HookDataAccessorProvider for NoHook {
    fn accessor(&self) -> HookDataAccessor<'_> {
        HookDataAccessor::StoreIdAccess(self)
    }
}

impl Hook for NoHook {
    fn name(&self) -> &'static str {
        "none"
    }

    fn set_config(&mut self, _cfg: &Value) {}
}

fn text_of(v: &Value) -> String {
    match v {
        Value::String(s) => s.clone(),
        other => panic!("no string: {:?}", other),
    }
}

#[test]
fn header_starts_as_an_empty_table() {
    let h = EntryHeader::new();
    assert!(matches!(h.toml(), Value::Table(fields) if fields.is_empty()));
    assert!(h.read("anything").unwrap().is_none());
    assert!(h.read("a.b").unwrap().is_none());
}

#[test]
fn set_adds_and_replaces_fields() {
    let mut h = EntryHeader::new();
    assert!(h.set("title", Value::String(String::from("first"))).unwrap().is_none());
    let old = h.set("title", Value::String(String::from("second"))).unwrap().unwrap();
    assert_eq!(text_of(&old), "first");
    assert_eq!(text_of(&h.read("title").unwrap().unwrap()), "second");
    assert!(h.set("count", Value::Integer(3)).unwrap().is_none());
    match h.toml() {
        Value::Table(fields) => {
            assert_eq!(fields.len(), 2);
            assert_eq!(fields[0].0, "title");
            assert_eq!(fields[1].0, "count");
        }
        _ => panic!("no table"),
    }
}

#[test]
fn set_walks_through_tables_that_exist() {
    let mut h = EntryHeader::new();
    let e = h.set("todo.uuid", Value::String(String::from("x"))).unwrap_err();
    assert_eq!(e.err_type(), StoreErrorKind::HeaderKeyNotFound);
    h.set("todo", Value::empty_table()).unwrap();
    h.set("todo.uuid", Value::String(String::from("x"))).unwrap();
    assert_eq!(text_of(&h.read("todo.uuid").unwrap().unwrap()), "x");
    assert!(matches!(h.read("todo").unwrap().unwrap(), Value::Table(f) if f.len() == 1));
    let e = h.set("todo.uuid.deeper", Value::Boolean(true)).unwrap_err();
    assert_eq!(e.err_type(), StoreErrorKind::HeaderPathTypeFailure);
    let e = h.read("todo.uuid.deeper").unwrap_err();
    assert_eq!(e.err_type(), StoreErrorKind::HeaderPathTypeFailure);
    assert_eq!(text_of(&h.read("todo.uuid").unwrap().unwrap()), "x");
}

#[test]
fn paths_have_no_empty_names() {
    let mut h = EntryHeader::new();
    for bad in ["", ".", "a.", ".a", "a..b"] {
        assert_eq!(h.read(bad).unwrap_err().err_type(), StoreErrorKind::HeaderPathSyntaxError);
        let e = h.set(bad, Value::Boolean(true)).unwrap_err();
        assert_eq!(e.err_type(), StoreErrorKind::HeaderPathSyntaxError);
    }
    assert!(matches!(h.toml(), Value::Table(fields) if fields.is_empty()));
}

#[test]
fn header_that_is_no_table_refuses_paths() {
    let mut h = EntryHeader::from_value(Value::Integer(1));
    assert_eq!(h.read("a").unwrap_err().err_type(), StoreErrorKind::HeaderPathTypeFailure);
    let e = h.set("a", Value::Boolean(true)).unwrap_err();
    assert_eq!(e.err_type(), StoreErrorKind::HeaderPathTypeFailure);
}

#[test]
fn clone_copies_the_whole_tree() {
    let v = Value::Table(vec![
        (String::from("list"), Value::Array(vec![Value::Integer(1), Value::Boolean(false)])),
        (String::from("name"), Value::String(String::from("n"))),
    ]);
    let h = EntryHeader::from_value(v);
    let c = h.clone();
    assert_eq!(format!("{:?}", c.toml()), format!("{:?}", h.toml()));
    assert!(matches!(c.read("list").unwrap().unwrap(), Value::Array(items) if items.len() == 2));
}

#[test]
fn split_cuts_at_every_separator() {
    assert_eq!(split_text("a.b.c", '.'), vec!["a", "b", "c"]);
    assert_eq!(split_text("", '.'), vec![""]);
    assert_eq!(split_text(".", '.'), vec!["", ""]);
    assert_eq!(split_text("a,,b,", ','), vec!["a", "", "b", ""]);
    assert_eq!(split_text("äö~ü", '~'), vec!["äö", "ü"]);
}

#[test]
fn entry_hands_out_header_and_content() {
    let id = StoreId::from_path(String::from("a~1.0.0"));
    let mut e = Entry::new(id.clone());
    assert_eq!(e.get_location().as_str(), "a~1.0.0");
    assert_eq!(e.get_content(), "");
    e.get_content_mut().push_str("text");
    e.get_header_mut().set("k", Value::Integer(1)).unwrap();
    assert_eq!(e.get_content(), "text");
    assert!(e.get_header().read("k").unwrap().is_some());

    let mut store: Store<NoHook> = Store::new(String::from("/store"));
    let mut sink = Vec::new();
    let ticket = store.pre_retrieve(id, &mut sink).unwrap();
    let mut fle = store.retrieve(ticket, Ok(Some(e)), &mut sink).unwrap();
    assert_eq!(fle.get_key().as_str(), "a~1.0.0");
    *fle.entry_mut().get_content_mut() = String::from("other");
    assert_eq!(fle.entry().get_content(), "other");
    let (entry, key) = fle.into_parts();
    assert_eq!(entry.get_content(), "other");
    assert_eq!(key.as_str(), "a~1.0.0");
    let built = Entry::from_parts(key, EntryHeader::new(), String::from("c"));
    assert_eq!(built.get_content(), "c");
}
