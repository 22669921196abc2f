//! What the programs around the store share: their errors, and editing a
//! text in the editor of the user.

use vstd::prelude::*;
use crate::entry::{Entry, EntryView, FileLockEntry};
use crate::error::{Cause, Error, ErrorKind};
use crate::store::NoCustomData;

verus! {

/// The kinds of error that the runtime gives.
#[derive(Clone, Copy, Debug, PartialEq, Eq, Structural)]
pub enum RuntimeErrorKind {
    Instantiate,
    IOError,
    ProcessExitFailure,
}

impl ErrorKind for RuntimeErrorKind {
    open spec fn text(&self) -> Seq<char> {
        match self {
            RuntimeErrorKind::Instantiate => "Could not instantiate"@,
            RuntimeErrorKind::IOError => "IO Error"@,
            RuntimeErrorKind::ProcessExitFailure => "Process exited with failure"@,
        }
    }

    fn as_str(&self) -> (s: &'static str) {
        match self {
            RuntimeErrorKind::Instantiate => "Could not instantiate",
            RuntimeErrorKind::IOError => "IO Error",
            RuntimeErrorKind::ProcessExitFailure => "Process exited with failure",
        }
    }
}

/// An error of the runtime.
pub type RuntimeError = Error<RuntimeErrorKind, NoCustomData>;

/// What editing gives.
pub type EditResult<T> = Result<T, RuntimeError>;

/// Whether `e` is the error of kind `IOError` with the cause `cause`.
pub open spec fn is_io_error(e: RuntimeError, cause: Cause) -> bool {
    e.kind() == RuntimeErrorKind::IOError && e.source() == Some(cause) && e.payload() is None
}

impl Error<RuntimeErrorKind, NoCustomData> {
    /// The error of the runtime that a failure of input or output caused.
    pub fn from_io(cause: Cause) -> (e: RuntimeError)
        ensures
            is_io_error(e, cause),
    {
        Error::new(RuntimeErrorKind::IOError, Some(Box::new(cause)))
    }
}

/// How the editor ran.
#[derive(Debug)]
pub enum EditorRun {
    /// There is no editor to run.
    NoEditor,
    /// The editor could not be run, for this reason.
    Failed(Cause),
    /// The editor ran and ended: with success, or without.
    Exited(bool),
}

/// How a text was edited: how the editor ran on the file that held the text
/// and, where the file was read after that, what was read from it and why
/// reading stopped, if it failed.
#[derive(Debug)]
pub struct Edited {
    pub run: EditorRun,
    pub read: Option<(String, Option<Cause>)>,
}

/// What the run `run` of the editor means for the text that was edited:
/// only after an editor that ended with success is there anything to read.
pub fn after_editor(run: EditorRun) -> (r: EditResult<()>)
    ensures
        match run {
            EditorRun::NoEditor => r matches Err(e) && e.is_bare(RuntimeErrorKind::Instantiate),
            EditorRun::Failed(c) => r matches Err(e) && is_io_error(e, c),
            EditorRun::Exited(success) => if success {
                r is Ok
            } else {
                r matches Err(e) && e.is_bare(RuntimeErrorKind::ProcessExitFailure)
            },
        },
{
    match run {
        EditorRun::NoEditor => Err(Error::new(RuntimeErrorKind::Instantiate, None)),
        EditorRun::Failed(c) => Err(Error::from_io(c)),
        EditorRun::Exited(true) => Ok(()),
        EditorRun::Exited(false) => Err(Error::new(RuntimeErrorKind::ProcessExitFailure, None)),
    }
}

/// The text `before` after the editing `edited`, and whether the editing
/// succeeded. An editor that did not end with success leaves the text; after
/// one that did, the text is what was read from the file, be it all of the
/// file or what came before reading failed.
pub open spec fn edited_text(before: Seq<char>, edited: Edited) -> Seq<char> {
    match (edited.run, edited.read) {
        (EditorRun::Exited(true), Some(read)) => read.0@,
        _ => before,
    }
}

/// Whether `r` is what the editing `edited` gives: success after an editor
/// that ended with success and a file that was read to its end; else the
/// error of what went wrong first.
pub open spec fn edit_result(edited: Edited, r: EditResult<()>) -> bool {
    match edited.run {
        EditorRun::NoEditor => r matches Err(e) && e.is_bare(RuntimeErrorKind::Instantiate),
        EditorRun::Failed(c) => r matches Err(e) && is_io_error(e, c),
        EditorRun::Exited(success) => if !success {
            r matches Err(e) && e.is_bare(RuntimeErrorKind::ProcessExitFailure)
        } else {
            match edited.read {
                Some((_, Some(c))) => r matches Err(e) && is_io_error(e, c),
                _ => r is Ok,
            }
        },
    }
}

/// Puts the outcome of the editing `edited` into the text `s`.
pub fn edit_in_tmpfile(edited: Edited, s: &mut String) -> (r: EditResult<()>)
    ensures
        final(s)@ == edited_text(old(s)@, edited),
        edit_result(edited, r),
{
    match after_editor(edited.run) {
        Err(e) => Err(e),
        Ok(_) => match edited.read {
            Some((text, failure)) => {
                *s = text;
                match failure {
                    Some(c) => Err(Error::from_io(c)),
                    None => Ok(()),
                }
            },
            None => Ok(()),
        },
    }
}

/// What holds a text that the user can edit.
pub trait Edit {
    /// The text that is edited.
    open spec fn content(&self) -> Seq<char> {
        arbitrary()
    }

    /// Puts the outcome of the editing `edited` into the text.
    fn edit_content(&mut self, edited: Edited) -> (r: EditResult<()>)
        ensures
            final(self).content() == edited_text(old(self).content(), edited),
            edit_result(edited, r),
    ;
}

impl Edit for String {
    open spec fn content(&self) -> Seq<char> {
        self@
    }

    fn edit_content(&mut self, edited: Edited) -> (r: EditResult<()>) {
        edit_in_tmpfile(edited, self)
    }
}

impl Edit for Entry {
    open spec fn content(&self) -> Seq<char> {
        self@.content
    }

    fn edit_content(&mut self, edited: Edited) -> (r: EditResult<()>)
        ensures
            final(self)@ == (EntryView { content: final(self)@.content, ..old(self)@ }),
    {
        edit_in_tmpfile(edited, self.get_content_mut())
    }
}

impl Edit for FileLockEntry {
    open spec fn content(&self) -> Seq<char> {
        self@.content
    }

    fn edit_content(&mut self, edited: Edited) -> (r: EditResult<()>)
        ensures
            final(self)@ == (EntryView { content: final(self)@.content, ..old(self)@ }),
            final(self).key() == old(self).key(),
    {
        self.entry_mut().edit_content(edited)
    }
}

} // verus!
