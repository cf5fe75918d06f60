//! The checks and decisions of the saved-server commands.
use vstd::prelude::*;
use vstd::string::*;

use crate::config::{uuid_parsed, ServerId};
use crate::desktop::app_error::AppError;
use crate::desktop::records::ServerInput;
use crate::text::{trim, trim_str};

verus! {

#[verifier::external_type_specification]
#[verifier::external_body]
pub struct ExSystemTime(std::time::SystemTime);

/// The current time of the system clock (`SystemTime::now`). Nothing is
/// claimed of it.
#[verifier::external_body]
fn system_now() -> (t: std::time::SystemTime) {
    std::time::SystemTime::now()
}

/// Whole seconds from the Unix epoch to `t` (`SystemTime::duration_since`
/// with `UNIX_EPOCH`, then `Duration::as_secs`); `None` when `t` is before
/// the epoch. Nothing is claimed of the value.
#[verifier::external_body]
fn secs_since_epoch(t: std::time::SystemTime) -> (r: Option<u64>) {
    match t.duration_since(std::time::UNIX_EPOCH) {
        Ok(d) => Some(d.as_secs()),
        Err(_) => None,
    }
}

/// The timestamp stored for a clock reading: its seconds as an `i64`
/// (keeping the low 64 bits), or 0 for a clock set before the epoch.
pub fn timestamp_of(secs: Option<u64>) -> (t: i64)
    ensures
        t == match secs {
            Some(s) => s as i64,
            None => 0,
        },
{
    match secs {
        Some(s) => s as i64,
        None => 0,
    }
}

/// The current time as stored in the database: seconds since the Unix
/// epoch, or 0 when the clock reads before it.
pub fn now_secs() -> i64 {
    timestamp_of(secs_since_epoch(system_now()))
}

/// What the UI sends to test credentials without saving anything.
#[derive(Debug)]
pub struct TestConnectionInput {
    pub host: String,
    pub rcon_port: u16,
    pub rcon_password: String,
}

/// The message of the first check that `input` fails, if any: a name and a
/// host that are not blank, a port other than 0, and an RCON password.
pub open spec fn validation_failure(input: ServerInput) -> Option<Seq<char>> {
    if trim(input.name@).len() == 0 {
        Some("name must not be empty"@)
    } else if trim(input.host@).len() == 0 {
        Some("host must not be empty"@)
    } else if input.rcon_port == 0 {
        Some("rcon port must be 1..=65535"@)
    } else if input.rcon_password@.len() == 0 {
        Some("rcon password must not be empty"@)
    } else {
        None
    }
}

/// Check a server input before it is saved.
pub fn validate(input: &ServerInput) -> (r: Result<(), AppError>)
    ensures
        match r {
            Ok(()) => validation_failure(*input) is None,
            Err(e) => validation_failure(*input) matches Some(m) && e matches AppError::Invalid {
                message,
            } && message@ == m,
        },
        r is Ok <==> (trim(input.name@).len() > 0 && trim(input.host@).len() > 0
            && input.rcon_port != 0 && input.rcon_password@.len() > 0),
{
    if trim_str(input.name.as_str()).is_empty() {
        return Err(AppError::invalid("name must not be empty"));
    }
    if trim_str(input.host.as_str()).is_empty() {
        return Err(AppError::invalid("host must not be empty"));
    }
    if input.rcon_port == 0 {
        return Err(AppError::invalid("rcon port must be 1..=65535"));
    }
    if input.rcon_password.as_str().is_empty() {
        return Err(AppError::invalid("rcon password must not be empty"));
    }
    Ok(())
}

/// An input passes the checks exactly when its name and host are not blank,
/// its port is not 0 and its RCON password is not empty; any password, with
/// or without white space, is accepted as it is.
pub proof fn law_valid_input_is_accepted(input: ServerInput)
    ensures
        validation_failure(input) is None <==> (trim(input.name@).len() > 0 && trim(
            input.host@,
        ).len() > 0 && input.rcon_port != 0 && input.rcon_password@.len() > 0),
{
}

/// Read a server id sent by the UI: `Invalid` when it is not a UUID.
pub fn parse_server_id(id: &str) -> (r: Result<ServerId, AppError>)
    ensures
        match uuid_parsed(id@) {
            Some(v) => r == Ok::<ServerId, AppError>(ServerId(v)),
            None => r matches Err(AppError::Invalid { message }) && message@
                == "server id must be a uuid"@,
        },
{
    match ServerId::parse_str(id) {
        Some(sid) => Ok(sid),
        None => Err(AppError::invalid("server id must be a uuid")),
    }
}

/// What happens to the keychain's admin-password entry on save.
#[derive(Debug)]
pub enum AdminPasswordAction {
    /// Store this password.
    Store(String),
    /// Delete any stored admin password.
    Delete,
}

/// What saving a server writes: the row's fields, trimmed, and the two
/// keychain entries. The RCON password is always rewritten, so that a bad
/// password can be corrected by saving again.
#[derive(Debug)]
pub struct SavePlan {
    pub id: Option<String>,
    pub name: String,
    pub host: String,
    pub rcon_port: u16,
    pub has_admin_pw: bool,
    pub rcon_password: String,
    pub admin: AdminPasswordAction,
}

/// Whether the input carries a non-empty admin password.
pub open spec fn has_admin_password(input: ServerInput) -> bool {
    input.admin_password matches Some(p) && p@.len() > 0
}

/// Decide what saving `input` writes, after checking it.
pub fn plan_save(input: ServerInput) -> (r: Result<SavePlan, AppError>)
    ensures
        match r {
            Err(e) => validation_failure(input) matches Some(m) && e matches AppError::Invalid {
                message,
            } && message@ == m,
            Ok(plan) => {
                &&& validation_failure(input) is None
                &&& plan.id == input.id
                &&& plan.name@ == trim(input.name@)
                &&& plan.host@ == trim(input.host@)
                &&& plan.rcon_port == input.rcon_port
                &&& plan.has_admin_pw == has_admin_password(input)
                &&& plan.rcon_password == input.rcon_password
                &&& match plan.admin {
                    AdminPasswordAction::Store(p) => has_admin_password(input) && input.admin_password
                        == Some(p),
                    AdminPasswordAction::Delete => !has_admin_password(input),
                }
            },
        },
{
    match validate(&input) {
        Err(e) => return Err(e),
        Ok(()) => {},
    }
    let name = trim_str(input.name.as_str()).to_owned();
    let host = trim_str(input.host.as_str()).to_owned();
    let ServerInput { id, rcon_port, rcon_password, admin_password, .. } = input;
    let (has_admin_pw, admin) = match admin_password {
        Some(p) => if p.as_str().is_empty() {
            (false, AdminPasswordAction::Delete)
        } else {
            (true, AdminPasswordAction::Store(p))
        },
        None => (false, AdminPasswordAction::Delete),
    };
    Ok(SavePlan { id, name, host, rcon_port, has_admin_pw, rcon_password, admin })
}

} // verus!
