//! The names of the keychain entries that hold a server's passwords.
//!
//! Two entries per server, under one service name: `cesm:<server id>:rcon`
//! for the RCON password and `cesm:<server id>:admin` for the optional
//! in-game admin password.
use vstd::prelude::*;
use vstd::string::*;

verus! {

/// The service under which every keychain entry is stored.
pub const SERVICE: &'static str = "dev.brandonbridges.cesm";

/// Which of a server's passwords an entry holds.
#[derive(Clone, Copy, Debug, PartialEq, Eq, Structural)]
pub enum Slot {
    Rcon,
    Admin,
}

/// The last part of the account name of a slot.
pub open spec fn slot_suffix(slot: Slot) -> Seq<char> {
    match slot {
        Slot::Rcon => "rcon"@,
        Slot::Admin => "admin"@,
    }
}

impl Slot {
    /// The last part of the account name of this slot.
    pub fn suffix(self) -> (s: &'static str)
        ensures
            s@ == slot_suffix(self),
    {
        match self {
            Slot::Rcon => "rcon",
            Slot::Admin => "admin",
        }
    }
}

/// The account name of an entry: `cesm:<server id>:<suffix>`.
pub open spec fn account_name(server_id: Seq<char>, slot: Slot) -> Seq<char> {
    "cesm:"@ + server_id + ":"@ + slot_suffix(slot)
}

/// The account name under which `slot` of `server_id` is stored.
pub fn account_for(server_id: &str, slot: Slot) -> (s: String)
    ensures
        s@ == account_name(server_id@, slot),
{
    let mut s = String::from_str("cesm:");
    s.append(server_id);
    s.append(":");
    s.append(slot.suffix());
    s
}

/// Every server and slot has an entry of its own: two account names are
/// equal only for the same server id and the same slot.
pub proof fn law_accounts_are_distinct(a: Seq<char>, sa: Slot, b: Seq<char>, sb: Slot)
    requires
        a != b || sa != sb,
    ensures
        account_name(a, sa) != account_name(b, sb),
{
    reveal_strlit("cesm:");
    reveal_strlit(":");
    reveal_strlit("rcon");
    reveal_strlit("admin");
    let x = account_name(a, sa);
    let y = account_name(b, sb);
    if x == y {
        if sa == sb {
            let n = slot_suffix(sa).len();
            assert(x.len() == 5 + a.len() + 1 + n);
            assert(a.len() == b.len());
            assert forall|i: int| 0 <= i < a.len() implies a[i] == b[i] by {
                assert(x[5 + i] == a[i]);
                assert(y[5 + i] == b[i]);
            }
            assert(a =~= b);
        } else {
            // "rcon" and "admin" end in "on" and "in".
            assert(x[x.len() - 2] != y[y.len() - 2]);
        }
    }
}

} // verus!
