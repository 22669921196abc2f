//! Hooks: what plugins hang into the store, and how the store runs them.

use vstd::prelude::*;
use crate::hook::accessor::HookDataAccessorProvider;
use crate::value::Value;

pub mod accessor;
pub mod aspect;
pub mod error;
pub mod position;

verus! {

/// A plugin of the store. It says once and for all what it works on (see
/// `HookDataAccessorProvider`), has a name, and takes a configuration.
pub trait Hook: HookDataAccessorProvider {
    /// The name of this hook.
    fn name(&self) -> &'static str;

    /// Hands this hook its configuration. The kind of the hook stays what it
    /// was.
    fn set_config(&mut self, cfg: &Value)
        ensures
            final(self).kind() == old(self).kind(),
    ;
}

} // verus!
