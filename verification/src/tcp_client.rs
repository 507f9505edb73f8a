//! Byte-stream discipline over a reconnecting connection: how the outcome of
//! one socket read or write is reported to the caller, and when the
//! connection is discarded so that the next access reconnects.

use vstd::prelude::*;
use crate::tcp_handler::TcpHandler;

verus! {

/// What one read or write on the underlying socket returned: a byte count,
/// or an I/O error.
pub enum IoResult {
    Done(usize),
    Failed,
}

/// What the stream reports to its caller for that read or write.
pub enum IoVerdict {
    /// The bytes were moved; the connection stays.
    Delivered(usize),
    /// The peer closed the stream: the connection is discarded and the
    /// caller sees a not-connected condition, so its retry loop reconnects.
    NotConnected,
    /// Another I/O error: the connection is discarded and the error is
    /// passed on.
    Failed,
}

/// A TCP byte stream over a reconnecting connection.
pub struct TcpClient {
    pub tcp_handler: TcpHandler,
}

/// The verdict owed for an I/O result: a zero-length transfer counts as a
/// peer-initiated close, any error is passed on, and both discard the
/// connection.
pub open spec fn spec_verdict(r: IoResult) -> IoVerdict {
    match r {
        IoResult::Done(n) => if n == 0 {
            IoVerdict::NotConnected
        } else {
            IoVerdict::Delivered(n)
        },
        IoResult::Failed => IoVerdict::Failed,
    }
}

/// Whether the connection survives the I/O result.
pub open spec fn spec_keeps_connection(r: IoResult) -> bool {
    r matches IoResult::Done(n) && n > 0
}

impl TcpClient {
    /// A client stream for the given endpoint; `reconnect` is the least
    /// distance between two connect attempts, in seconds.
    pub fn new(addr: String, port: u16, reconnect: u64) -> (r: TcpClient)
        requires
            reconnect * 1000 <= u64::MAX,
        ensures
            r.tcp_handler.addr@ == addr@,
            r.tcp_handler.port == port,
            !r.tcp_handler.connected,
            r.tcp_handler.reconnect_ms == reconnect * 1000,
            r.tcp_handler.last_connect_ms is None,
    {
        TcpClient { tcp_handler: TcpHandler::new(addr, port, reconnect * 1000) }
    }

    /// Settles one read or write: reports the verdict the stream contract
    /// owes and discards the connection unless bytes were moved.
    pub fn on_io_result(&mut self, r: IoResult) -> (v: IoVerdict)
        ensures
            v == spec_verdict(r),
            final(self).tcp_handler.connected == (old(self).tcp_handler.connected
                && spec_keeps_connection(r)),
            final(self).tcp_handler.addr@ == old(self).tcp_handler.addr@,
            final(self).tcp_handler.port == old(self).tcp_handler.port,
            final(self).tcp_handler.reconnect_ms == old(self).tcp_handler.reconnect_ms,
            final(self).tcp_handler.last_connect_ms == old(self).tcp_handler.last_connect_ms,
    {
        match r {
            IoResult::Done(n) => {
                if n == 0 {
                    self.tcp_handler.discard_stream();
                    IoVerdict::NotConnected
                } else {
                    IoVerdict::Delivered(n)
                }
            },
            IoResult::Failed => {
                self.tcp_handler.discard_stream();
                IoVerdict::Failed
            },
        }
    }

    /// Whether a flush may be performed: only over a currently open
    /// connection; a flush never triggers a reconnect, so without one the
    /// caller reports a not-connected condition.
    pub fn flush_allowed(&self) -> (r: bool)
        ensures
            r == self.tcp_handler.connected,
    {
        self.tcp_handler.is_connected()
    }

    /// Settles a flush that was performed: a failed flush discards the
    /// connection.
    pub fn on_flush_result(&mut self, ok: bool)
        requires
            old(self).tcp_handler.connected,
        ensures
            final(self).tcp_handler.connected == ok,
            final(self).tcp_handler.addr@ == old(self).tcp_handler.addr@,
            final(self).tcp_handler.port == old(self).tcp_handler.port,
            final(self).tcp_handler.reconnect_ms == old(self).tcp_handler.reconnect_ms,
            final(self).tcp_handler.last_connect_ms == old(self).tcp_handler.last_connect_ms,
    {
        if !ok {
            self.tcp_handler.discard_stream();
        }
    }
}

} // verus!
