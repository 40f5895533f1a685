//! An in-process actor runtime: cells that own one actor each, addresses that
//! post messages into a cell's mailbox, and schedulers that apply lifecycle
//! commands and deliver at most one message per cell on every tick.
pub mod actor;
pub mod mailbox;
pub mod address;
pub mod cell;
pub mod scheduler;
pub mod system;
pub mod laws;
pub mod print_manager;

pub use actor::{Actor, Receives};
pub use address::Address;
pub use system::System;
