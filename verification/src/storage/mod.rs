//! Storage backends for session state.

pub mod file;
pub mod listing;
pub mod memory;
pub mod traits;

pub use file::FileBackend;
pub use listing::list_newest;
pub use memory::MemoryBackend;
pub use traits::{MessageStore, SessionSummary};
