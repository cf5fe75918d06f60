//! The logic of the desktop control panel: the errors it reports, the
//! commands it sends for the player screens, the checks on a saved server,
//! the dashboard overview, and the names of keychain entries.
pub mod app_error;
pub mod overview;
pub mod players;
pub mod records;
pub mod secrets;
pub mod servers;
