use imag::bookmark::BookmarkErrorKind;
use imag::error::{Cause, Error, ErrorKind};
use imag::hook::error::HookErrorKind;
use imag::runtime::RuntimeErrorKind;
use imag::stdhook::git::GitHookErrorKind;
use imag::store::{NoCustomData, StoreErrorKind};
use imag::todo::TodoErrorKind;

#[derive(Clone, Copy, Debug, PartialEq)]
enum TestErrorKind {
    TestErrorKindA,
    TestErrorKindB,
}

impl ErrorKind for TestErrorKind {
    fn as_str(&self) -> &'static str {
        match *self {
            TestErrorKind::TestErrorKindA => "testerrorkind a",
            TestErrorKind::TestErrorKindB => "testerrorkind B",
        }
    }
}

type TestError = Error<TestErrorKind, NoCustomData>;

#[derive(Clone, Copy, Debug, PartialEq)]
enum OtherErrorKind {
    TestErrorKindA,
    TestErrorKindB,
}

impl ErrorKind for OtherErrorKind {
    fn as_str(&self) -> &'static str {
        match *self {
            OtherErrorKind::TestErrorKindA => "testerrorkind a",
            OtherErrorKind::TestErrorKindB => "testerrorkind B",
        }
    }
}

type OtherError = Error<OtherErrorKind, NoCustomData>;

fn boxed(c: Cause) -> Option<Box<Cause>> {
    Some(Box::new(c))
}

#[test]
fn test_a() {
    let kind = TestErrorKind::TestErrorKindA;
    assert_eq!(String::from("testerrorkind a"), format!("{}", kind.as_str()));

    let e = TestError::new(kind, None);
    assert_eq!(String::from("[testerrorkind a]"), format!("{}", e.to_text()));
}

#[test]
fn test_b() {
    let kind = TestErrorKind::TestErrorKindB;
    assert_eq!(String::from("testerrorkind B"), format!("{}", kind.as_str()));

    let e = TestError::new(kind, None);
    assert_eq!(String::from("[testerrorkind B]"), format!("{}", e.to_text()));
}

#[test]
fn test_ab() {
    let kinda = TestErrorKind::TestErrorKindA;
    let kindb = TestErrorKind::TestErrorKindB;
    assert_eq!(String::from("testerrorkind a"), format!("{}", kinda.as_str()));
    assert_eq!(String::from("testerrorkind B"), format!("{}", kindb.as_str()));

    let e = TestError::new(kinda, boxed(TestError::new(kindb, None).into_cause()));
    assert_eq!(String::from("[testerrorkind a]"), format!("{}", e.to_text()));
    assert_eq!(TestErrorKind::TestErrorKindA, e.err_type());
    assert_eq!(String::from("[testerrorkind B]"), format!("{}", e.cause().unwrap().to_text()));
}

#[test]
fn test_other_a() {
    let kind = OtherErrorKind::TestErrorKindA;
    assert_eq!(String::from("testerrorkind a"), format!("{}", kind.as_str()));

    let e = OtherError::new(kind, None);
    assert_eq!(String::from("[testerrorkind a]"), format!("{}", e.to_text()));
}

#[test]
fn test_other_b() {
    let kind = OtherErrorKind::TestErrorKindB;
    assert_eq!(String::from("testerrorkind B"), format!("{}", kind.as_str()));

    let e = OtherError::new(kind, None);
    assert_eq!(String::from("[testerrorkind B]"), format!("{}", e.to_text()));
}

#[test]
fn test_other_ab() {
    let kinda = OtherErrorKind::TestErrorKindA;
    let kindb = OtherErrorKind::TestErrorKindB;
    assert_eq!(String::from("testerrorkind a"), format!("{}", kinda.as_str()));
    assert_eq!(String::from("testerrorkind B"), format!("{}", kindb.as_str()));

    let e = OtherError::new(kinda, boxed(OtherError::new(kindb, None).into_cause()));
    assert_eq!(String::from("[testerrorkind a]"), format!("{}", e.to_text()));
    assert_eq!(OtherErrorKind::TestErrorKindA, e.err_type());
    assert_eq!(String::from("[testerrorkind B]"), format!("{}", e.cause().unwrap().to_text()));
}

#[test]
fn description_is_the_text_of_the_kind() {
    let e = TestError::new(TestErrorKind::TestErrorKindB, None);
    assert_eq!(e.description(), "testerrorkind B");
    assert!(e.cause().is_none());
    assert!(e.custom_data().is_none());
}

#[test]
fn cause_keeps_its_own_cause() {
    let inner = Cause::new(String::from("disk full"));
    let outer = Cause::with_source(String::from("write failed"), inner);
    let e = TestError::new(TestErrorKind::TestErrorKindA, boxed(outer));
    let c = e.cause().unwrap();
    assert_eq!(c.to_text(), "write failed");
    assert_eq!(c.cause().unwrap().to_text(), "disk full");
    let as_cause = e.into_cause();
    assert_eq!(as_cause.to_text(), "[testerrorkind a]");
    assert_eq!(as_cause.cause().unwrap().to_text(), "write failed");
}

#[test]
fn every_kind_has_its_text() {
    assert_eq!(StoreErrorKind::FileNotFound.as_str(), "File not found");
    assert_eq!(StoreErrorKind::FileNotCreated.as_str(), "File not created");
    assert_eq!(StoreErrorKind::IoError.as_str(), "File Error");
    assert_eq!(
        StoreErrorKind::StorePathLacksVersion.as_str(),
        "The supplied store path has no version part"
    );
    assert_eq!(StoreErrorKind::EntryAlreadyBorrowed.as_str(), "Entry is already borrowed");
    assert_eq!(StoreErrorKind::EntryAlreadyExists.as_str(), "Entry already exists");
    assert_eq!(StoreErrorKind::IdLocked.as_str(), "ID locked");
    assert_eq!(StoreErrorKind::HeaderPathSyntaxError.as_str(), "Syntax error in accessor string");
    assert_eq!(StoreErrorKind::HeaderPathTypeFailure.as_str(), "Header has wrong type for path");
    assert_eq!(StoreErrorKind::HeaderKeyNotFound.as_str(), "Header Key not found");
    assert_eq!(StoreErrorKind::AspectNameNotFoundError.as_str(), "Aspect name not found");
    assert_eq!(StoreErrorKind::PreHookExecuteError.as_str(), "Pre-Hook execution error");
    assert_eq!(StoreErrorKind::PostHookExecuteError.as_str(), "Post-Hook execution error");
    assert_eq!(HookErrorKind::HookExecutionError.as_str(), "Hook exec error");
    assert_eq!(HookErrorKind::AccessTypeViolation.as_str(), "Hook access type violation");
    assert_eq!(TodoErrorKind::StoreError.as_str(), "Store Error");
    assert_eq!(TodoErrorKind::ImportError.as_str(), "Error importing");
    assert_eq!(BookmarkErrorKind::StoreReadError.as_str(), "Store read error");
    assert_eq!(BookmarkErrorKind::LinkError.as_str(), "Link error");
    assert_eq!(BookmarkErrorKind::LinkParsingError.as_str(), "Link parsing error");
    assert_eq!(BookmarkErrorKind::LinkingError.as_str(), "Error while linking");
    assert_eq!(BookmarkErrorKind::CollectionNotFound.as_str(), "Link-Collection not found");
    assert_eq!(RuntimeErrorKind::Instantiate.as_str(), "Could not instantiate");
    assert_eq!(RuntimeErrorKind::IOError.as_str(), "IO Error");
    assert_eq!(RuntimeErrorKind::ProcessExitFailure.as_str(), "Process exited with failure");
    assert_eq!(GitHookErrorKind::ConfigError.as_str(), "Configuration Error");
    assert_eq!(GitHookErrorKind::ConfigTypeError.as_str(), "Configuration value type wrong");
    assert_eq!(
        GitHookErrorKind::RepositoryError.as_str(),
        "Error while interacting with git repository"
    );
    assert_eq!(
        GitHookErrorKind::RepositoryBranchError.as_str(),
        "Error while interacting with git branch(es)"
    );
    assert_eq!(
        GitHookErrorKind::RepositoryBranchNameFetchingError.as_str(),
        "Error while fetching branch name"
    );
    assert_eq!(GitHookErrorKind::MkRepo.as_str(), "Repository creation error");
}
