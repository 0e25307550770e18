//! Links between repositories: what a link file records, and the steps by which links are added,
//! fetched, updated, exported and pushed.

pub mod add;
pub mod collect;
pub mod command;
pub mod error;
pub mod export;
pub mod filter;
pub mod laws;
pub mod link;
pub mod materialize;
pub mod notice;
pub mod oid;
pub mod path;
pub mod push;
pub mod repository;
pub mod signature;
pub mod step;
pub mod text;
pub mod turn;
pub mod update;
