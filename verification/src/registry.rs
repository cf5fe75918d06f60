//! The table of live connection handles, keyed by server.
//!
//! At most one handle per server: the RCON protocol is single-session, so
//! opening a server that already has a handle replaces it, and the table
//! hands the old one back so that its owner can close it.
use vstd::prelude::*;

use std::collections::HashMap;

use crate::config::ServerId;
use crate::error::RconError;

verus! {

broadcast use vstd::std_specs::hash::group_hash_axioms;

/// The handles of the open servers.
pub struct Registry<H> {
    handles: HashMap<u128, H>,
}

/// The handle of `id` in `m`, if there is one.
pub open spec fn lookup<H>(m: Map<u128, H>, id: ServerId) -> Option<H> {
    if m.contains_key(id.0) {
        Some(m[id.0])
    } else {
        None
    }
}

impl<H> View for Registry<H> {
    type V = Map<u128, H>;

    closed spec fn view(&self) -> Map<u128, H> {
        self.handles@
    }
}

impl<H> Registry<H> {
    /// An empty table.
    pub fn new() -> (r: Registry<H>)
        ensures
            r@ == Map::<u128, H>::empty(),
    {
        Registry { handles: HashMap::new() }
    }

    /// Put `handle` in place for `id`, and give back the handle it replaces.
    pub fn open(&mut self, id: ServerId, handle: H) -> (prev: Option<H>)
        ensures
            final(self)@ == old(self)@.insert(id.0, handle),
            prev == lookup(old(self)@, id),
    {
        self.handles.insert(id.0, handle)
    }

    /// The handle of `id`, if the server is open.
    pub fn handle(&self, id: ServerId) -> (r: Option<&H>)
        ensures
            match r {
                Some(h) => lookup(self@, id) == Some(*h),
                None => lookup(self@, id) is None,
            },
    {
        self.handles.get(&id.0)
    }

    /// The handle that a command for `id` goes to: `UnknownServer` when the
    /// server is not open.
    pub fn route(&self, id: ServerId) -> (r: Result<&H, RconError>)
        ensures
            match r {
                Ok(h) => lookup(self@, id) == Some(*h),
                Err(e) => lookup(self@, id) is None && e is UnknownServer,
            },
    {
        match self.handles.get(&id.0) {
            Some(h) => Ok(h),
            None => Err(RconError::UnknownServer),
        }
    }

    /// Take the handle of `id` out of the table, if it is there.
    pub fn close(&mut self, id: ServerId) -> (removed: Option<H>)
        ensures
            final(self)@ == old(self)@.remove(id.0),
            removed == lookup(old(self)@, id),
    {
        self.handles.remove(&id.0)
    }

    /// Take every handle out of the table, as it was keyed.
    pub fn close_all(&mut self) -> (all: HashMap<u128, H>)
        ensures
            final(self)@ == Map::<u128, H>::empty(),
            all@ == old(self)@,
    {
        let mut all: HashMap<u128, H> = HashMap::new();
        std::mem::swap(&mut all, &mut self.handles);
        all
    }
}

/// Opening a server makes its new handle the one commands reach, leaves
/// every other server's handle as it was, and replaces any earlier handle
/// of the same server, so that a server never has two.
pub proof fn law_open_replaces<H>(m: Map<u128, H>, id: ServerId, other: ServerId, h: H, h2: H)
    requires
        other != id,
    ensures
        lookup(m.insert(id.0, h), id) == Some(h),
        lookup(m.insert(id.0, h), other) == lookup(m, other),
        m.insert(id.0, h).insert(id.0, h2) == m.insert(id.0, h2),
{
    assert(m.insert(id.0, h).insert(id.0, h2) =~= m.insert(id.0, h2));
}

/// Closing a server removes its handle, so that commands for it are
/// refused, and leaves every other server's handle as it was.
pub proof fn law_close_removes<H>(m: Map<u128, H>, id: ServerId, other: ServerId)
    requires
        other != id,
    ensures
        lookup(m.remove(id.0), id) is None,
        lookup(m.remove(id.0), other) == lookup(m, other),
{
}

} // verus!
