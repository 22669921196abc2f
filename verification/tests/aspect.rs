use std::cell::RefCell;
use std::rc::Rc;

use imag::entry::FileLockEntry;
use imag::hook::accessor::{
    AccessKind, HookDataAccessor, HookDataAccessorProvider, MutableHookDataAccessor,
    NonMutableHookDataAccessor, StoreIdAccessor,
};
use imag::hook::aspect::{settle, Aspect, AspectConfig};
use imag::hook::error::{CustomData, HookError, HookErrorKind, HookResult};
use imag::hook::Hook;
use imag::store::Store;
use imag::storeid::StoreId;
use imag::value::Value;

#[derive(Clone, Copy, PartialEq)]
enum Answer {
    Fine,
    Aborting,
    NotAborting,
}

/// A hook that notes each of its runs in a log shared with the test.
struct Probe {
    kind: AccessKind,
    name: &'static str,
    answer: Answer,
    log: Rc<RefCell<Vec<&'static str>>>,
}

impl Probe {
    fn run(&self) -> HookResult<()> {
        self.log.borrow_mut().push(self.name);
        match self.answer {
            Answer::Fine => Ok(()),
            Answer::Aborting => Err(HookError::new(HookErrorKind::HookExecutionError, None)
                .with_custom_data(CustomData::default().aborting(true))),
            Answer::NotAborting => Err(HookError::new(HookErrorKind::HookExecutionError, None)
                .with_custom_data(CustomData::default().aborting(false))),
        }
    }
}

impl StoreIdAccessor for Probe {
    fn access(&self, _id: &StoreId) -> HookResult<()> {
        self.run()
    }
}

impl MutableHookDataAccessor for Probe {
    fn access_mut(&self, fle: &mut FileLockEntry) -> HookResult<()> {
        fle.entry_mut().get_content_mut().push_str(self.name);
        self.run()
    }
}

impl NonMutableHookDataAccessor for Probe {
    fn access(&self, _fle: &FileLockEntry) -> HookResult<()> {
        self.run()
    }
}

impl HookDataAccessorProvider for Probe {
    fn accessor(&self) -> HookDataAccessor<'_> {
        match self.kind {
            AccessKind::StoreId => HookDataAccessor::StoreIdAccess(self),
            AccessKind::Mutable => HookDataAccessor::MutableAccess(self),
            AccessKind::NonMutable => HookDataAccessor::NonMutableAccess(self),
        }
    }
}

impl Hook for Probe {
    fn name(&self) -> &'static str {
        self.name
    }

    fn set_config(&mut self, _cfg: &Value) {}
}

type Log = Rc<RefCell<Vec<&'static str>>>;

fn aspect_of(hooks: &[(AccessKind, &'static str, Answer)]) -> (Aspect<Probe>, Log) {
    let log: Log = Rc::new(RefCell::new(Vec::new()));
    let mut aspect = Aspect::new(String::from("test"), None);
    for &(kind, name, answer) in hooks {
        aspect.register_hook(Probe { kind, name, answer, log: log.clone() });
    }
    (aspect, log)
}

fn entry() -> FileLockEntry {
    let mut store: Store<Probe> = Store::new(String::from("/store"));
    let mut sink = Vec::new();
    store.create(StoreId::from_path(String::from("test/entry~1.0.0")), &mut sink).unwrap()
}

#[test]
fn id_only_aspect_with_a_mutating_hook_is_a_violation_before_any_hook_runs() {
    let (aspect, log) = aspect_of(&[
        (AccessKind::StoreId, "one", Answer::Fine),
        (AccessKind::Mutable, "two", Answer::Fine),
    ]);
    let mut sink = Vec::new();
    let id = StoreId::from_path(String::from("test/entry~1.0.0"));
    let e = aspect.run_id_only(&id, &mut sink).unwrap_err();
    assert_eq!(e.err_type(), HookErrorKind::AccessTypeViolation);
    assert!(e.is_aborting());
    assert!(log.borrow().is_empty());
    assert_eq!(sink.len(), 1);
    assert_eq!(sink[0].err_type(), HookErrorKind::AccessTypeViolation);
}

#[test]
fn mutating_aspect_stops_at_the_aborting_hook() {
    let (aspect, log) = aspect_of(&[
        (AccessKind::Mutable, "one", Answer::Fine),
        (AccessKind::Mutable, "two", Answer::Aborting),
        (AccessKind::Mutable, "three", Answer::Fine),
    ]);
    let mut sink = Vec::new();
    let mut fle = entry();
    let e = aspect.run_mutating(&mut fle, &mut sink).unwrap_err();
    assert_eq!(e.err_type(), HookErrorKind::HookExecutionError);
    assert!(e.is_aborting());
    assert_eq!(*log.borrow(), vec!["one", "two"]);
    assert_eq!(fle.entry().get_content().as_str(), "onetwo");
    assert_eq!(sink.len(), 1);
    assert!(sink[0].is_aborting());
}

#[test]
fn mutating_aspect_goes_on_after_an_error_that_does_not_abort() {
    let (aspect, log) = aspect_of(&[
        (AccessKind::Mutable, "one", Answer::Fine),
        (AccessKind::Mutable, "two", Answer::NotAborting),
        (AccessKind::Mutable, "three", Answer::Fine),
    ]);
    let mut sink = Vec::new();
    let mut fle = entry();
    assert!(aspect.run_mutating(&mut fle, &mut sink).is_ok());
    assert_eq!(*log.borrow(), vec!["one", "two", "three"]);
    assert_eq!(fle.entry().get_content().as_str(), "onetwothree");
    assert_eq!(sink.len(), 1);
    assert!(!sink[0].is_aborting());
    assert_eq!(sink[0].err_type(), HookErrorKind::HookExecutionError);
}

#[test]
fn mutating_aspect_takes_hooks_that_read_and_hooks_that_write() {
    let (aspect, log) = aspect_of(&[
        (AccessKind::NonMutable, "reader", Answer::Fine),
        (AccessKind::Mutable, "writer", Answer::Fine),
    ]);
    let mut sink = Vec::new();
    let mut fle = entry();
    assert!(aspect.run_mutating(&mut fle, &mut sink).is_ok());
    assert_eq!(*log.borrow(), vec!["reader", "writer"]);
    assert_eq!(fle.entry().get_content().as_str(), "writer");
}

#[test]
fn mutating_aspect_refuses_a_hook_on_identifiers() {
    let (aspect, log) = aspect_of(&[
        (AccessKind::Mutable, "writer", Answer::Fine),
        (AccessKind::StoreId, "id", Answer::Fine),
    ]);
    let mut sink = Vec::new();
    let mut fle = entry();
    let e = aspect.run_mutating(&mut fle, &mut sink).unwrap_err();
    assert_eq!(e.err_type(), HookErrorKind::AccessTypeViolation);
    assert!(log.borrow().is_empty());
    assert_eq!(fle.entry().get_content().as_str(), "");
}

#[test]
fn read_only_aspect_refuses_a_mutating_hook() {
    let (aspect, log) = aspect_of(&[
        (AccessKind::NonMutable, "reader", Answer::Fine),
        (AccessKind::Mutable, "writer", Answer::Fine),
    ]);
    let mut sink = Vec::new();
    let fle = entry();
    let e = aspect.run_read_only(&fle, &mut sink).unwrap_err();
    assert_eq!(e.err_type(), HookErrorKind::AccessTypeViolation);
    assert!(log.borrow().is_empty());
}

#[test]
fn read_only_aspect_runs_in_the_order_of_registration() {
    let (aspect, log) = aspect_of(&[
        (AccessKind::NonMutable, "a", Answer::NotAborting),
        (AccessKind::NonMutable, "b", Answer::NotAborting),
        (AccessKind::NonMutable, "c", Answer::Aborting),
        (AccessKind::NonMutable, "d", Answer::Fine),
    ]);
    let mut sink = Vec::new();
    let fle = entry();
    let e = aspect.run_read_only(&fle, &mut sink).unwrap_err();
    assert!(e.is_aborting());
    assert_eq!(*log.borrow(), vec!["a", "b", "c"]);
    assert_eq!(sink.len(), 3);
    assert!(!sink[0].is_aborting() && !sink[1].is_aborting() && sink[2].is_aborting());
}

#[test]
fn id_only_aspect_runs_all_hooks() {
    let (aspect, log) = aspect_of(&[
        (AccessKind::StoreId, "a", Answer::Fine),
        (AccessKind::StoreId, "b", Answer::NotAborting),
        (AccessKind::StoreId, "c", Answer::Fine),
    ]);
    let mut sink = Vec::new();
    let id = StoreId::from_path(String::from("test/entry~1.0.0"));
    assert!(aspect.run_id_only(&id, &mut sink).is_ok());
    assert_eq!(*log.borrow(), vec!["a", "b", "c"]);
    assert_eq!(sink.len(), 1);
    assert_eq!(aspect.len(), 3);
}

#[test]
fn aspect_without_hooks_succeeds_on_every_entry_point() {
    let aspect: Aspect<Probe> = Aspect::new(String::from("empty"), None);
    let mut sink = Vec::new();
    let mut fle = entry();
    let id = StoreId::from_path(String::from("x~1.0.0"));
    assert!(aspect.run_id_only(&id, &mut sink).is_ok());
    assert!(aspect.run_mutating(&mut fle, &mut sink).is_ok());
    assert!(aspect.run_read_only(&fle, &mut sink).is_ok());
    assert!(sink.is_empty());
    assert_eq!(aspect.name(), "empty");
    assert!(aspect.config().is_none());
}

#[test]
fn aspect_keeps_its_configuration() {
    let cfg = AspectConfig::new(Value::Boolean(true));
    let aspect: Aspect<Probe> = Aspect::new(String::from("cfg"), Some(cfg));
    match aspect.config().unwrap().get_config() {
        Value::Boolean(b) => assert!(*b),
        _ => panic!("the configuration changed"),
    }
}

#[test]
fn settle_reports_what_does_not_abort() {
    let mut sink = Vec::new();
    assert!(settle(Ok(()), &mut sink).is_ok());
    assert!(sink.is_empty());
    let soft = HookError::new(HookErrorKind::HookExecutionError, None)
        .with_custom_data(CustomData::default().aborting(false));
    assert!(settle(Err(soft), &mut sink).is_ok());
    assert_eq!(sink.len(), 1);
    let hard = HookError::new(HookErrorKind::HookExecutionError, None);
    let e = settle(Err(hard), &mut sink).unwrap_err();
    assert!(e.is_aborting());
    assert_eq!(sink.len(), 2);
    assert!(sink[1].is_aborting());
}

#[test]
fn hook_error_aborts_unless_it_says_otherwise() {
    assert!(HookError::new(HookErrorKind::HookExecutionError, None).is_aborting());
    assert!(CustomData::default().aborting);
    let e = HookError::new(HookErrorKind::AccessTypeViolation, None)
        .with_custom_data(CustomData::default().aborting(false));
    assert!(!e.is_aborting());
    assert_eq!(e.to_text(), "[Hook access type violation]");
    assert_eq!(HookError::new(HookErrorKind::HookExecutionError, None).description(), "Hook exec error");
}
