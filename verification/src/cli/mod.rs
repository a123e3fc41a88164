//! The logic behind the command-line commands.

pub mod clean;
pub mod context;
pub mod decide;
pub mod list;
pub mod stats;
