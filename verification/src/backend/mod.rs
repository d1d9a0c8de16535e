pub mod checksum;
pub mod cli;
pub mod error;
pub mod factory;
pub mod local;
pub mod traits;
pub mod walk;

pub use error::BackendError;
pub use factory::{backend_kind, BackendKind};
pub use local::LocalBackend;
pub use traits::Backend;
