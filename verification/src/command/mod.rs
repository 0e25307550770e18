//! The commands on links.

pub mod add;
pub mod args;
pub mod fetch;
pub mod handle;
pub mod push;
pub mod shared;
pub mod update;
