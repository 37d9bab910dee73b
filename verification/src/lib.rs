//! Process-tree containment.
pub mod command;
pub mod containment;
pub mod elevation;
pub mod errno;
pub mod error;
pub mod graceful;
pub mod identity;
pub mod report;
pub mod stdio;
pub mod text;
