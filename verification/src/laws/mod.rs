//! Laws that span several operations on one repository, and laws that say of an operation or a
//! command what it asks of a repository.

pub mod add_command;
pub mod adding;
pub mod collecting;
pub mod failing;
pub mod fetch_command;
pub mod materializing;
pub mod operations;
pub mod places;
pub mod push_command;
pub mod pushing;
pub mod records;
pub mod update_command;
pub mod updating;
pub mod wording;
pub mod words;
