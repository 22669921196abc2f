//! A store of entries for a suite of personal information management: each
//! entry is a header of structured values and free text, kept in a file
//! under an identifier that names a module, a name and a version. Around the
//! operations of the store run hooks, grouped into aspects.

pub mod bookmark;
pub mod entry;
pub mod error;
pub mod header;
pub mod hook;
pub mod lazyfile;
pub mod link;
pub mod order;
pub mod runtime;
pub mod stdhook;
pub mod store;
pub mod storeid;
pub mod text;
pub mod timeui;
pub mod todo;
pub mod value;
pub mod version;
pub mod view;
