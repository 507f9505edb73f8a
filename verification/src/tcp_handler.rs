//! Reconnect bookkeeping for a single outbound TCP connection: at most one
//! live socket, re-established lazily, with connect attempts throttled so
//! that no two stand closer together than a configured interval.
//!
//! The socket itself and the clock live with the caller; this state machine
//! decides, from a millisecond timestamp it is handed, how long to wait
//! before the next connect attempt and records attempts and outcomes.

use vstd::prelude::*;

verus! {

/// The policy state of one reconnecting connection.
pub struct TcpHandler {
    /// Host the connection is bound to for its whole life.
    pub addr: String,
    /// Port the connection is bound to for its whole life.
    pub port: u16,
    /// Whether a live socket is currently held.
    pub connected: bool,
    /// Least distance between two connect attempts, in milliseconds.
    pub reconnect_ms: u64,
    /// Time of the last connect attempt, if there was one.
    pub last_connect_ms: Option<u64>,
}

/// Milliseconds that must still pass at `now` before the next connect
/// attempt may be made.
pub open spec fn spec_wait(h: TcpHandler, now: int) -> int {
    match h.last_connect_ms {
        None => 0,
        Some(t) => {
            if t + h.reconnect_ms > now {
                t + h.reconnect_ms - now
            } else {
                0
            }
        },
    }
}

impl TcpHandler {
    /// Times are consistent: the last attempt does not lie after `now`.
    pub open spec fn now_valid(self, now_ms: u64) -> bool {
        match self.last_connect_ms {
            None => true,
            Some(t) => t <= now_ms,
        }
    }

    /// A fresh policy: no socket, no attempt made yet, so the first connect
    /// attempt may be made at once.
    pub fn new(addr: String, port: u16, reconnect_ms: u64) -> (r: TcpHandler)
        ensures
            r.addr@ == addr@,
            r.port == port,
            !r.connected,
            r.reconnect_ms == reconnect_ms,
            r.last_connect_ms is None,
    {
        TcpHandler { addr, port, connected: false, reconnect_ms, last_connect_ms: None }
    }

    /// How long the caller must sleep at `now_ms` before it may attempt to
    /// connect.
    pub fn wait_ms(&self, now_ms: u64) -> (r: u64)
        requires
            self.now_valid(now_ms),
        ensures
            r == spec_wait(*self, now_ms as int),
    {
        match self.last_connect_ms {
            None => 0,
            Some(t) => {
                let elapsed = now_ms - t;
                if elapsed >= self.reconnect_ms {
                    0
                } else {
                    self.reconnect_ms - elapsed
                }
            },
        }
    }

    /// Records a connect attempt made at `now_ms`, whatever its outcome.
    pub fn note_attempt(&mut self, now_ms: u64)
        ensures
            final(self).addr@ == old(self).addr@,
            final(self).port == old(self).port,
            final(self).connected == old(self).connected,
            final(self).reconnect_ms == old(self).reconnect_ms,
            final(self).last_connect_ms == Some(now_ms),
    {
        self.last_connect_ms = Some(now_ms);
    }

    /// Records that a connect attempt succeeded and a socket is now held.
    pub fn note_connected(&mut self)
        ensures
            final(self).addr@ == old(self).addr@,
            final(self).port == old(self).port,
            final(self).connected,
            final(self).reconnect_ms == old(self).reconnect_ms,
            final(self).last_connect_ms == old(self).last_connect_ms,
    {
        self.connected = true;
    }

    /// Drops the held socket, if any; the next acquisition will connect
    /// afresh, subject to the wait.
    pub fn discard_stream(&mut self)
        ensures
            final(self).addr@ == old(self).addr@,
            final(self).port == old(self).port,
            !final(self).connected,
            final(self).reconnect_ms == old(self).reconnect_ms,
            final(self).last_connect_ms == old(self).last_connect_ms,
    {
        self.connected = false;
    }

    /// Whether a socket is currently held.
    pub fn is_connected(&self) -> (r: bool)
        ensures
            r == self.connected,
    {
        self.connected
    }
}

/// Rate-limit law: once an attempt has been recorded at some time `t`, a
/// caller consulting the policy at any `now_ms` before `t + reconnect_ms`
/// is told to wait exactly until `t + reconnect_ms`; so the next connect
/// attempt, made after sleeping the returned wait, never stands closer to
/// the previous one than the configured interval.
pub proof fn lemma_reconnect_throttle(h: TcpHandler, now_ms: u64)
    requires
        h.last_connect_ms is Some,
        h.now_valid(now_ms),
    ensures
        now_ms + spec_wait(h, now_ms as int) >= h.last_connect_ms->0 + h.reconnect_ms,
        now_ms < h.last_connect_ms->0 + h.reconnect_ms ==> spec_wait(h, now_ms as int) > 0,
{
}

} // verus!
