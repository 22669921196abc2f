//! Files that are opened when they are first needed.
//!
//! A `LazyFile` decides what has to happen to the file and what follows from
//! how that went. Whoever owns it does the work: it takes the request, asks
//! the file system, and hands the outcome back.

use vstd::prelude::*;
use vstd::string::*;
use crate::error::{Cause, Error};
use crate::store::{StoreError, StoreErrorKind};

verus! {

/// A file that is either still absent, with the path at which to find it, or
/// open, with its handle. A file that is open stays open.
#[derive(Debug)]
pub enum LazyFile<F> {
    Absent(String),
    File(F),
}

/// What a `LazyFile` asks of the file system.
#[derive(Debug)]
pub enum FileRequest {
    /// Nothing: the handle is used as it is.
    Nothing,
    /// Set the open handle back to the start of the file.
    Rewind,
    /// Open the file at this path for reading and writing. The file has to
    /// exist: it is not created.
    Open(String),
    /// Create the directories above this path that are missing, then open the
    /// file at the path for reading and writing, creating it if it does not
    /// exist.
    Create(String),
}

/// What a request looks like.
pub ghost enum FileRequestView {
    Nothing,
    Rewind,
    Open(Seq<char>),
    Create(Seq<char>),
}

impl View for FileRequest {
    type V = FileRequestView;

    open spec fn view(&self) -> FileRequestView {
        match self {
            FileRequest::Nothing => FileRequestView::Nothing,
            FileRequest::Rewind => FileRequestView::Rewind,
            FileRequest::Open(p) => FileRequestView::Open(p@),
            FileRequest::Create(p) => FileRequestView::Create(p@),
        }
    }
}

/// How a request went.
#[derive(Debug)]
pub enum FileOutcome<F> {
    /// It was done, and gave no new handle.
    Done,
    /// It gave this handle, at the start of the file.
    Opened(F),
    /// It failed, for this reason.
    Failed(Cause),
}

impl<F> LazyFile<F> {
    /// What `get_file_mut` asks of the file system: an absent file is
    /// opened where it is, without creating it; an open file is set back to
    /// its start, so that every access reads it from there.
    pub fn get_file_request(&self) -> (req: FileRequest)
        ensures
            req@ == match self {
                LazyFile::Absent(p) => FileRequestView::Open(p@),
                LazyFile::File(_) => FileRequestView::Rewind,
            },
    {
        match self {
            LazyFile::Absent(p) => FileRequest::Open(p.clone()),
            LazyFile::File(_) => FileRequest::Rewind,
        }
    }

    /// What `create_file` asks of the file system: an absent file is
    /// created with the directories above it; an open file is left as it is.
    pub fn create_file_request(&self) -> (req: FileRequest)
        ensures
            req@ == match self {
                LazyFile::Absent(p) => FileRequestView::Create(p@),
                LazyFile::File(_) => FileRequestView::Nothing,
            },
    {
        match self {
            LazyFile::Absent(p) => FileRequest::Create(p.clone()),
            LazyFile::File(_) => FileRequest::Nothing,
        }
    }

    /// The open handle, if the file is open, where it stands.
    pub fn handle_mut(&mut self) -> (r: Option<&mut F>)
        ensures
            match *old(self) {
                LazyFile::Absent(_) => r is None && *final(self) == *old(self),
                LazyFile::File(f) => r matches Some(h) && *h == f && *final(self)
                    == LazyFile::<F>::File(*final(h)),
            },
    {
        match self {
            LazyFile::Absent(_) => None,
            LazyFile::File(f) => Some(f),
        }
    }

    /// The handle of the file, once the file system has answered `outcome`
    /// to `get_file_request`. A handle that was opened is kept from now on.
    /// Where the request failed the file is as it was: an open file that
    /// could not be set back gives `FileNotCreated`, an absent one that
    /// could not be opened `FileNotFound`, each with the reason as its cause.
    pub fn get_file_mut(&mut self, outcome: FileOutcome<F>) -> (r: Result<&mut F, StoreError>)
        ensures
            *old(self) is File ==> *final(self) is File,
            match outcome {
                FileOutcome::Opened(f) => r matches Ok(h) && *h == f && *final(self)
                    == LazyFile::<F>::File(*final(h)),
                FileOutcome::Done => match *old(self) {
                    LazyFile::File(f) => r matches Ok(h) && *h == f && *final(self)
                        == LazyFile::<F>::File(*final(h)),
                    LazyFile::Absent(_) => (r matches Err(e) && e.is_bare(
                        StoreErrorKind::FileNotFound,
                    )) && *final(self) == *old(self),
                },
                FileOutcome::Failed(c) => (r matches Err(e) && e.kind() == (match *old(self) {
                    LazyFile::File(_) => StoreErrorKind::FileNotCreated,
                    LazyFile::Absent(_) => StoreErrorKind::FileNotFound,
                }) && e.source() == Some(c) && e.payload() is None) && *final(self) == *old(self),
            },
    {
        match outcome {
            FileOutcome::Opened(f) => {
                *self = LazyFile::File(f);
                match self {
                    LazyFile::File(h) => Ok(h),
                    LazyFile::Absent(_) => {
                        // The file has just been opened.
                        assert(false);
                        Err(Error::new(StoreErrorKind::FileNotFound, None))
                    },
                }
            },
            FileOutcome::Done => match self {
                LazyFile::File(h) => Ok(h),
                LazyFile::Absent(_) => Err(Error::new(StoreErrorKind::FileNotFound, None)),
            },
            FileOutcome::Failed(c) => {
                let kind = match self {
                    LazyFile::File(_) => StoreErrorKind::FileNotCreated,
                    LazyFile::Absent(_) => StoreErrorKind::FileNotFound,
                };
                Err(Error::new(kind, Some(Box::new(c))))
            },
        }
    }

    /// The handle of the file, once the file system has answered `outcome`
    /// to `create_file_request`. A handle that was opened is kept from now
    /// on; a file that was open already is handed out where it stands.
    /// Where the request failed, be it for the directories or for the file,
    /// the file is as it was and the error is `FileNotFound` with the reason
    /// as its cause.
    pub fn create_file(&mut self, outcome: FileOutcome<F>) -> (r: Result<&mut F, StoreError>)
        ensures
            *old(self) is File ==> *final(self) is File,
            match outcome {
                FileOutcome::Opened(f) => r matches Ok(h) && *h == f && *final(self)
                    == LazyFile::<F>::File(*final(h)),
                FileOutcome::Done => match *old(self) {
                    LazyFile::File(f) => r matches Ok(h) && *h == f && *final(self)
                        == LazyFile::<F>::File(*final(h)),
                    LazyFile::Absent(_) => (r matches Err(e) && e.is_bare(
                        StoreErrorKind::FileNotFound,
                    )) && *final(self) == *old(self),
                },
                FileOutcome::Failed(c) => (r matches Err(e) && e.kind()
                    == StoreErrorKind::FileNotFound && e.source() == Some(c) && e.payload()
                    is None) && *final(self) == *old(self),
            },
    {
        match outcome {
            FileOutcome::Opened(f) => {
                *self = LazyFile::File(f);
                match self {
                    LazyFile::File(h) => Ok(h),
                    LazyFile::Absent(_) => {
                        // The file has just been opened.
                        assert(false);
                        Err(Error::new(StoreErrorKind::FileNotFound, None))
                    },
                }
            },
            FileOutcome::Done => match self {
                LazyFile::File(h) => Ok(h),
                LazyFile::Absent(_) => Err(Error::new(StoreErrorKind::FileNotFound, None)),
            },
            FileOutcome::Failed(c) => Err(
                Error::new(StoreErrorKind::FileNotFound, Some(Box::new(c))),
            ),
        }
    }
}

} // verus!
