//! Hooks that come with the store.

pub mod git;
