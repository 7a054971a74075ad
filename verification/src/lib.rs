//! The logic of the `diurn` command: which registry file to read and how its
//! vintage is settled, where fetched registries live, how records are selected
//! and turned into text, and the calendar arithmetic behind the ISO publication
//! schedule.
//!
//! A registry file's bytes are parsed here, through `diurn-mic`, into plain
//! values that every command works on. Reading files, the network and the
//! terminal stay with the program that drives this library.

pub mod cli;
pub mod date;
pub mod text;
pub mod table;
pub mod order;
pub mod source;
pub mod load;
pub mod fetch;
pub mod output;
pub mod render;
pub mod codes;
pub mod commands;
pub mod registry;

