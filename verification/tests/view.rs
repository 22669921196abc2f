use imag::error::Cause;
use imag::hook::accessor::{HookDataAccessor, HookDataAccessorProvider, StoreIdAccessor};
use imag::hook::error::HookResult;
use imag::hook::position::HookPosition;
use imag::hook::Hook;
use imag::runtime::{after_editor, edit_in_tmpfile, Edit, Edited, EditorRun, RuntimeError, RuntimeErrorKind};
use imag::stdhook::git::{CreateHook, GitHookError, GitHookErrorKind};
use imag::store::Store;
use imag::storeid::StoreId;
use imag::value::Value;
use imag::view::{versioned_path, versions_pattern};
use imag::entry::Entry;
use imag::hook::aspect::Aspect;

struct NoHook;

impl StoreIdAccessor for NoHook {
    fn access(&self, _id: &StoreId) -> HookResult<()> {
        Ok(())
    }
}

impl HookDataAccessorProvider for NoHook {
    fn accessor(&self) -> HookDataAccessor<'_> {
        HookDataAccessor::StoreIdAccess(self)
    }
}

impl Hook for NoHook {
    fn name(&self) -> &'static str {
        "none"
    }

    fn set_config(&mut self, _cfg: &Value) {}
}

fn edited(run: EditorRun, read: Option<(&str, Option<&str>)>) -> Edited {
    Edited {
        run,
        read: read.map(|(text, failure)| (String::from(text), failure.map(|f| Cause::new(String::from(f))))),
    }
}

#[test]
fn versioned_path_appends_the_version() {
    let store: Store<NoHook> = Store::new(String::from("/store"));
    assert_eq!(versioned_path(&store, "notes/a", Some("1.0.0")), "/store/notes/a~1.0.0");
    assert_eq!(versioned_path(&store, "/notes/a", Some("1.0.0")), "/store/notes/a~1.0.0");
    assert_eq!(versioned_path(&store, "notes/a~2.0.0", None), "/store/notes/a~2.0.0~2.0.0");
    assert_eq!(versioned_path(&store, "notes/a", None), "/store/notes/a~notes/a");
}

#[test]
fn versions_pattern_matches_every_version() {
    let store: Store<NoHook> = Store::new(String::from("/store"));
    assert_eq!(versions_pattern(&store, "notes/a"), "/store/notes/a~*");
    assert_eq!(versions_pattern(&store, "/notes/a"), "/store/notes/a~*");
}

#[test]
fn editor_has_to_end_with_success() {
    assert!(after_editor(EditorRun::Exited(true)).is_ok());
    let e = after_editor(EditorRun::Exited(false)).unwrap_err();
    assert_eq!(e.err_type(), RuntimeErrorKind::ProcessExitFailure);
    assert_eq!(after_editor(EditorRun::NoEditor).unwrap_err().err_type(), RuntimeErrorKind::Instantiate);
    let e = after_editor(EditorRun::Failed(Cause::new(String::from("no such program")))).unwrap_err();
    assert_eq!(e.err_type(), RuntimeErrorKind::IOError);
    assert_eq!(e.cause().unwrap().to_text(), "no such program");
    assert_eq!(e.to_text(), "[IO Error]");
}

#[test]
fn edited_text_replaces_the_text() {
    let mut s = String::from("before");
    assert!(edit_in_tmpfile(edited(EditorRun::Exited(true), Some(("after", None))), &mut s).is_ok());
    assert_eq!(s, "after");
    let e = edit_in_tmpfile(edited(EditorRun::Exited(true), Some(("half", Some("broke")))), &mut s).unwrap_err();
    assert_eq!(e.err_type(), RuntimeErrorKind::IOError);
    assert_eq!(s, "half");
    assert!(edit_in_tmpfile(edited(EditorRun::Exited(false), Some(("ignored", None))), &mut s).is_err());
    assert_eq!(s, "half");
    assert!(edit_in_tmpfile(edited(EditorRun::NoEditor, None), &mut s).is_err());
    assert!(edit_in_tmpfile(edited(EditorRun::Exited(true), None), &mut s).is_ok());
    assert_eq!(s, "half");
}

#[test]
fn entries_are_edited_in_their_content() {
    let id = StoreId::from_path(String::from("a~1.0.0"));
    let mut text = String::from("t");
    text.edit_content(edited(EditorRun::Exited(true), Some(("u", None)))).unwrap();
    assert_eq!(text, "u");
    let mut entry = Entry::new(id.clone());
    entry.edit_content(edited(EditorRun::Exited(true), Some(("content", None)))).unwrap();
    assert_eq!(entry.get_content(), "content");
    let mut store: Store<NoHook> = Store::new(String::from("/store"));
    let mut sink = Vec::new();
    let ticket = store.pre_retrieve(id, &mut sink).unwrap();
    let mut fle = store.retrieve(ticket, Ok(Some(entry)), &mut sink).unwrap();
    assert!(fle.edit_content(edited(EditorRun::Exited(false), None)).is_err());
    fle.edit_content(edited(EditorRun::Exited(true), Some(("again", None)))).unwrap();
    assert_eq!(fle.entry().get_content(), "again");
    assert_eq!(fle.get_key().as_str(), "a~1.0.0");
    let io = RuntimeError::from_io(Cause::new(String::from("disk")));
    assert_eq!(io.err_type(), RuntimeErrorKind::IOError);
}

#[test]
fn create_hook_lets_every_entry_pass() {
    let mut hook: CreateHook<u8> = CreateHook::new(String::from("/store"), None, HookPosition::PreCreate);
    assert_eq!(hook.name(), "stdhook_git_create");
    assert!(!hook.has_repository());
    assert_eq!(hook.get_position(), HookPosition::PreCreate);
    assert!(hook.get_config().is_none());
    hook.set_config(&Value::Boolean(true));
    assert!(matches!(hook.get_config(), Some(Value::Boolean(true))));
    assert!(matches!(hook.accessor(), HookDataAccessor::StoreIdAccess(_)));
    assert!(hook.access(&StoreId::from_path(String::from("a~1.0.0"))).is_ok());
    assert!(CreateHook::new(String::new(), Some(1u8), HookPosition::PostCreate).has_repository());

    let mut aspect = Aspect::new(String::from("git"), None);
    aspect.register_hook(hook);
    let mut sink = Vec::new();
    assert!(aspect.run_id_only(&StoreId::from_path(String::from("a~1.0.0")), &mut sink).is_ok());
    let mut store: Store<NoHook> = Store::new(String::from("/store"));
    let mut fle = store.create(StoreId::from_path(String::from("a")), &mut Vec::new()).unwrap();
    assert!(aspect.run_mutating(&mut fle, &mut sink).is_err());
    let e = GitHookError::new(GitHookErrorKind::MkRepo, None);
    assert_eq!(e.to_text(), "[Repository creation error]");
}
