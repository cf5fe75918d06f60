//! Verified core of a desktop control panel for Conan Exiles Enhanced
//! dedicated servers, which it administers over Source RCON.
//!
//! - `text`: trimming, lines, splitting, case-insensitive comparison and
//!   number parsing over the character view of strings.
//! - `parsers`: the replies of the server's RCON commands.
//! - `state`, `lifecycle`: a connection's states and the decisions that
//!   move it between them.
//! - `registry`: the table of live connections, one per server.
//! - `config`, `error`, `placeholder`: server ids, defaults and errors.
//! - `desktop`: the panel's commands, checks and errors.
pub mod config;
pub mod desktop;
pub mod error;
pub mod lifecycle;
pub mod parsers;
pub mod placeholder;
pub mod registry;
pub mod state;
pub mod text;
