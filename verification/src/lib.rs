//! Copying and synchronizing files and directories between locations of
//! different kinds, through one interface.
//!
//! The crate holds the rules: what a location string means, which entries
//! pass a filter, what a synchronization has to copy and to delete, in which
//! order a directory tree is worked off, how a copy is counted and verified.
//! Reading and writing is done behind the [`Backend`] trait.

pub mod backend;
pub mod config;
pub mod copy;
pub mod filters;
pub mod operations;
pub mod path;
pub mod protocol;
pub mod remote;
pub mod scan;
pub mod text;
pub mod utils;

pub use backend::{backend_kind, Backend, BackendError, BackendKind, LocalBackend};
pub use filters::{AnyFilter, DateFilter, Filter, FilterChain, PatternFilter, SizeFilter};
pub use operations::{CopyOperation, ListOperation, SyncOperation};
