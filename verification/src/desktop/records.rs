//! The rows of the saved-servers table and the input that creates or
//! updates one. Passwords never reach a row: they live in the keychain.
use vstd::prelude::*;

verus! {

/// A saved server as the database stores it.
#[derive(Clone, Debug, PartialEq, Eq)]
pub struct Server {
    pub id: String,
    pub name: String,
    pub host: String,
    pub rcon_port: u16,
    pub has_admin_pw: bool,
    pub created_at: i64,
    pub last_used_at: Option<i64>,
}

impl Server {
    /// The server that a row of the table holds: the port column is read as
    /// a 16-bit port (keeping its low bits) and the flag column is true when
    /// it is not 0.
    pub fn from_columns(
        id: String,
        name: String,
        host: String,
        port_column: i64,
        admin_flag_column: i64,
        created_at: i64,
        last_used_at: Option<i64>,
    ) -> (s: Server)
        ensures
            s.id == id,
            s.name == name,
            s.host == host,
            s.rcon_port == port_column as u16,
            s.has_admin_pw == (admin_flag_column != 0),
            s.created_at == created_at,
            s.last_used_at == last_used_at,
    {
        Server {
            id,
            name,
            host,
            rcon_port: port_column as u16,
            has_admin_pw: admin_flag_column != 0,
            created_at,
            last_used_at,
        }
    }

    /// The row a new server gets: the given fields, created `now`, never
    /// used yet.
    pub fn created(
        id: String,
        name: &str,
        host: &str,
        rcon_port: u16,
        has_admin_pw: bool,
        now: i64,
    ) -> (s: Server)
        ensures
            s.id == id,
            s.name@ == name@,
            s.host@ == host@,
            s.rcon_port == rcon_port,
            s.has_admin_pw == has_admin_pw,
            s.created_at == now,
            s.last_used_at is None,
    {
        Server {
            id,
            name: name.to_owned(),
            host: host.to_owned(),
            rcon_port,
            has_admin_pw,
            created_at: now,
            last_used_at: None,
        }
    }
}

/// What the UI sends to create (`id` is `None`) or update a server.
#[derive(Clone, Debug)]
pub struct ServerInput {
    pub id: Option<String>,
    pub name: String,
    pub host: String,
    pub rcon_port: u16,
    /// Always required on save: the keychain entry is rewritten each time.
    pub rcon_password: String,
    /// `None` (or empty) clears any stored admin password.
    pub admin_password: Option<String>,
}

} // verus!
