//! Errors of one shape for every part of the library: a kind, an optional
//! chain of causes, and an optional payload that the owner of the kind defines.

use vstd::prelude::*;
use vstd::string::*;

verus! {

/// The kinds of one family of errors. Each kind has a fixed text.
pub trait ErrorKind: Copy {
    /// The text of this kind. A family that does not say what it is leaves
    /// it open.
    open spec fn text(&self) -> Seq<char> {
        arbitrary()
    }

    /// The text of this kind, as a string.
    fn as_str(&self) -> (s: &'static str)
        ensures
            s@ == self.text(),
    ;
}

/// What led to an error: the text of the underlying failure and, where that
/// failure had a cause of its own, the cause behind it.
#[derive(Debug)]
pub struct Cause {
    text: String,
    source: Option<Box<Cause>>,
}

impl Clone for Cause {
    fn clone(&self) -> (c: Cause)
        ensures
            c == *self,
        decreases self,
    {
        let source = match &self.source {
            Some(b) => Some(Box::new((**b).clone())),
            None => None,
        };
        Cause { text: self.text.clone(), source }
    }
}

impl Cause {
    /// The text of this cause.
    pub closed spec fn text(&self) -> Seq<char> {
        self.text@
    }

    /// The cause behind this one.
    pub closed spec fn source(&self) -> Option<Cause> {
        match self.source {
            Some(b) => Some(*b),
            None => None,
        }
    }

    /// A cause with the given text and nothing behind it.
    pub fn new(text: String) -> (c: Cause)
        ensures
            c.text() == text@,
            c.source() is None,
    {
        Cause { text, source: None }
    }

    /// A cause with the given text and the given cause behind it.
    pub fn with_source(text: String, source: Cause) -> (c: Cause)
        ensures
            c.text() == text@,
            c.source() == Some(source),
    {
        Cause { text, source: Some(Box::new(source)) }
    }

    /// The text of this cause.
    pub fn to_text(&self) -> (s: String)
        ensures
            s@ == self.text(),
    {
        self.text.clone()
    }

    /// The cause behind this one, if there is one.
    pub fn cause(&self) -> (r: Option<&Cause>)
        ensures
            r.is_some() == self.source().is_some(),
            r matches Some(c) ==> *c == self.source().unwrap(),
    {
        match &self.source {
            Some(b) => Some(&**b),
            None => None,
        }
    }
}

/// The text that an error of the kind text `kind` shows: the kind in square
/// brackets.
pub open spec fn bracketed(kind: Seq<char>) -> Seq<char> {
    seq!['['] + kind + seq![']']
}

/// An error: its kind, what caused it, and the payload of its family.
#[derive(Debug)]
pub struct Error<K, D> {
    err_type: K,
    cause: Option<Box<Cause>>,
    custom_data: Option<D>,
}

impl<K: ErrorKind, D: Copy> Clone for Error<K, D> {
    fn clone(&self) -> (e: Self)
        ensures
            e == *self,
    {
        let cause = match &self.cause {
            Some(b) => Some(Box::new((**b).clone())),
            None => None,
        };
        Error { err_type: self.err_type, cause, custom_data: self.custom_data }
    }
}

impl<K: ErrorKind, D> Error<K, D> {
    /// The kind of this error.
    pub closed spec fn kind(&self) -> K {
        self.err_type
    }

    /// What caused this error.
    pub closed spec fn source(&self) -> Option<Cause> {
        match self.cause {
            Some(b) => Some(*b),
            None => None,
        }
    }

    /// The payload of this error.
    pub closed spec fn payload(&self) -> Option<D> {
        self.custom_data
    }

    /// Whether this error is of kind `kind` and has neither cause nor
    /// payload.
    pub open spec fn is_bare(&self, kind: K) -> bool {
        self.kind() == kind && self.source() is None && self.payload() is None
    }

    /// An error of the given kind with the given cause and no payload.
    pub fn new(errtype: K, cause: Option<Box<Cause>>) -> (e: Self)
        ensures
            e.kind() == errtype,
            e.source() == match cause {
                Some(b) => Some(*b),
                None => None,
            },
            e.payload() is None,
    {
        Error { err_type: errtype, cause, custom_data: None }
    }

    /// The same error carrying the given payload.
    pub fn with_custom_data(self, data: D) -> (e: Self)
        ensures
            e.kind() == self.kind(),
            e.source() == self.source(),
            e.payload() == Some(data),
    {
        Error { err_type: self.err_type, cause: self.cause, custom_data: Some(data) }
    }

    /// The kind of this error.
    pub fn err_type(&self) -> (k: K)
        ensures
            k == self.kind(),
    {
        self.err_type
    }

    /// The text of this error's kind.
    pub fn description(&self) -> (s: &'static str)
        ensures
            s@ == self.kind().text(),
    {
        self.err_type.as_str()
    }

    /// What caused this error, if anything did.
    pub fn cause(&self) -> (r: Option<&Cause>)
        ensures
            r.is_some() == self.source().is_some(),
            r matches Some(c) ==> *c == self.source().unwrap(),
    {
        match &self.cause {
            Some(b) => Some(&**b),
            None => None,
        }
    }

    /// The payload of this error, if it has one.
    pub fn custom_data(&self) -> (r: Option<&D>)
        ensures
            r.is_some() == self.payload().is_some(),
            r matches Some(d) ==> *d == self.payload().unwrap(),
    {
        self.custom_data.as_ref()
    }

    /// The text that this error shows: its kind in square brackets.
    pub fn to_text(&self) -> (s: String)
        ensures
            s@ == bracketed(self.kind().text()),
    {
        let mut s = String::from_str("[");
        s.append(self.err_type.as_str());
        s.append("]");
        proof {
            reveal_strlit("[");
            reveal_strlit("]");
        }
        s
    }

    /// Whether `c` is this error as the cause of another: its text, and its
    /// own cause behind it.
    pub open spec fn is_cause(&self, c: Cause) -> bool {
        c.text() == bracketed(self.kind().text()) && c.source() == self.source()
    }

    /// This error as the cause of another: its text, and its own cause
    /// behind it.
    pub fn into_cause(self) -> (c: Cause)
        ensures
            self.is_cause(c),
    {
        let text = self.to_text();
        Cause { text, source: self.cause }
    }
}

} // verus!
