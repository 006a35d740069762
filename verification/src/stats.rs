//! Live progress counters shared by every client, and the warm-up gate.
//! In the running harness these are relaxed atomics read by the progress
//! printer; their meaning — what each event does to each counter — is
//! pinned down here. The warm-up flag is written once and never cleared: no
//! operation of this type takes it back to false.

use vstd::prelude::*;
use crate::bytes::{saturating_add_u64, saturating_sub_u64, spec_sat_add, spec_sat_sub};

verus! {

/// Process-wide counters for progress observation, and the warm-up gate.
pub struct LiveStats {
    pub active_connections: u64,
    pub messages_received: u64,
    pub subscribe_successes: u64,
    pub connection_errors: u64,
    pub warmup_complete: bool,
}

impl LiveStats {
    /// All counters zero, gate unset.
    pub fn new() -> (r: LiveStats)
        ensures
            r.active_connections == 0,
            r.messages_received == 0,
            r.subscribe_successes == 0,
            r.connection_errors == 0,
            !r.warmup_complete,
    {
        LiveStats {
            active_connections: 0,
            messages_received: 0,
            subscribe_successes: 0,
            connection_errors: 0,
            warmup_complete: false,
        }
    }

    /// A client connected: one more active connection.
    pub fn connection_opened(&mut self)
        ensures
            *final(self) == (LiveStats {
                active_connections: spec_sat_add(old(self).active_connections, 1),
                ..*old(self)
            }),
    {
        self.active_connections = saturating_add_u64(self.active_connections, 1);
    }

    /// A client terminated: one less active connection, guarded against
    /// underflow so increment/decrement asymmetry cannot wrap.
    pub fn connection_closed(&mut self)
        ensures
            *final(self) == (LiveStats {
                active_connections: spec_sat_sub(old(self).active_connections, 1),
                ..*old(self)
            }),
    {
        self.active_connections = saturating_sub_u64(self.active_connections, 1);
    }

    /// A data delivery was observed by some client.
    pub fn message_received(&mut self)
        ensures
            *final(self) == (LiveStats {
                messages_received: spec_sat_add(old(self).messages_received, 1),
                ..*old(self)
            }),
    {
        self.messages_received = saturating_add_u64(self.messages_received, 1);
    }

    /// An initial subscription was acknowledged.
    pub fn subscribe_succeeded(&mut self)
        ensures
            *final(self) == (LiveStats {
                subscribe_successes: spec_sat_add(old(self).subscribe_successes, 1),
                ..*old(self)
            }),
    {
        self.subscribe_successes = saturating_add_u64(self.subscribe_successes, 1);
    }

    /// A connection attempt failed, or a transport error tore a client
    /// down.
    pub fn connection_failed(&mut self)
        ensures
            *final(self) == (LiveStats {
                connection_errors: spec_sat_add(old(self).connection_errors, 1),
                ..*old(self)
            }),
    {
        self.connection_errors = saturating_add_u64(self.connection_errors, 1);
    }

    /// Set the warm-up gate, which only ever moves from false to true:
    /// no operation of this type clears it.
    pub fn complete_warmup(&mut self)
        ensures
            *final(self) == (LiveStats { warmup_complete: true, ..*old(self) }),
    {
        self.warmup_complete = true;
    }
}

} // verus!
