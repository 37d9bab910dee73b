//! The Linux cgroup v2 mechanism.

pub mod abandon;
pub mod channel;
pub mod create;
pub mod degrade;
pub mod dir;
pub mod drain;
pub mod hook;
pub mod leaf;
pub mod parse;
pub mod placement;
pub mod removal;
pub mod turn;
pub mod watcher;
pub mod wire;
