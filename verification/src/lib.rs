//! Password-manager core: vault file format, command language, fuzzy search
//! and the state machine behind the user interface.

pub mod text;
pub mod model;
pub mod search;
pub mod message;
pub mod vault;
pub mod history;
pub mod password;
pub mod entries;
pub mod update;
pub mod cli;
pub mod laws;
