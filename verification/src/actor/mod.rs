//! The local actor runtime.

pub mod table;
pub mod refs;
pub mod system;
pub mod supervised;
pub mod context;
pub mod mailbox;
pub mod lifecycle;
pub mod scheduler;
