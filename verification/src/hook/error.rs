//! The errors of hooks.

use vstd::prelude::*;
use crate::error::{Error, ErrorKind};

verus! {

/// The kinds of error that running hooks gives.
#[derive(Clone, Copy, Debug, PartialEq, Eq, Structural)]
pub enum HookErrorKind {
    HookExecutionError,
    AccessTypeViolation,
}

impl ErrorKind for HookErrorKind {
    open spec fn text(&self) -> Seq<char> {
        match self {
            HookErrorKind::HookExecutionError => "Hook exec error"@,
            HookErrorKind::AccessTypeViolation => "Hook access type violation"@,
        }
    }

    fn as_str(&self) -> (s: &'static str) {
        match self {
            HookErrorKind::HookExecutionError => "Hook exec error",
            HookErrorKind::AccessTypeViolation => "Hook access type violation",
        }
    }
}

/// What an error of a hook carries beside kind and cause: whether it stops
/// the hooks that would run after it.
#[derive(Clone, Copy, Debug, PartialEq, Eq, Structural)]
pub struct CustomData {
    pub aborting: bool,
}

impl Default for CustomData {
    /// An error stops the hooks after it unless it says otherwise.
    fn default() -> (d: CustomData)
        ensures
            d.aborting,
    {
        CustomData { aborting: true }
    }
}

impl CustomData {
    /// The same data, stopping the hooks after it exactly if `b`.
    pub fn aborting(self, b: bool) -> (d: CustomData)
        ensures
            d.aborting == b,
    {
        CustomData { aborting: b }
    }
}

/// An error of a hook.
pub type HookError = Error<HookErrorKind, CustomData>;

/// What a hook answers.
pub type HookResult<T> = Result<T, HookError>;

impl Error<HookErrorKind, CustomData> {
    /// Whether this error stops the hooks that would run after it: it does
    /// unless its payload says otherwise.
    pub open spec fn aborts(&self) -> bool {
        match self.payload() {
            Some(data) => data.aborting,
            None => true,
        }
    }

    /// Whether this error stops the hooks that would run after it.
    pub fn is_aborting(&self) -> (b: bool)
        ensures
            b == self.aborts(),
    {
        match self.custom_data() {
            Some(data) => data.aborting,
            None => true,
        }
    }
}

} // verus!
