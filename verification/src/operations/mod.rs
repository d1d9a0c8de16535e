pub mod copy;
pub mod list;
pub mod sync;

pub use copy::CopyOperation;
pub use list::ListOperation;
pub use sync::SyncOperation;
