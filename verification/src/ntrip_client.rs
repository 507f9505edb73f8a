//! The NTRIP v1 client session: the handshake request addressed to a
//! mountpoint, with optional Basic authentication; the byte-for-byte
//! verification of the caster's fixed response; and the timing of periodic
//! GGA position reports layered over reads.
//!
//! The socket and the clock live with the caller; every function here works
//! on plain values.

use vstd::prelude::*;
use base64::Engine as _;
use crate::coordinate::GgaPosition;
use crate::numfmt::{append_slice, append_vec};
use crate::tcp_handler::TcpHandler;
use vstd::utf8::encode_utf8;

verus! {

/// The bytes of `GET /`.
pub open spec fn request_get() -> Seq<u8> {
    seq![71u8, 69, 84, 32, 47]
}

/// The bytes of ` HTTP/1.0`, a `User-Agent` header naming this client, and
/// an `Accept` header, each line ended by a carriage return and line feed.
pub open spec fn request_headers() -> Seq<u8> {
    seq![
        32u8, 72, 84, 84, 80, 47, 49, 46, 48, 13, 10, 85, 115, 101, 114, 45, 65, 103, 101, 110,
        116, 58, 32, 78, 84, 82, 73, 80, 32, 114, 116, 99, 109, 45, 106, 115, 111, 110, 47, 48,
        46, 49, 13, 10, 65, 99, 99, 101, 112, 116, 58, 32, 42, 47, 42, 13, 10,
    ]
}

/// The bytes of `Authorization: Basic `.
pub open spec fn auth_prefix() -> Seq<u8> {
    seq![65u8, 117, 116, 104, 111, 114, 105, 122, 97, 116, 105, 111, 110, 58, 32, 66, 97, 115,
        105, 99, 32]
}

/// The bytes of `ICY 200 OK` followed by a carriage return and line feed:
/// the only response a caster may answer with.
pub open spec fn icy_bytes() -> Seq<u8> {
    seq![73u8, 67, 89, 32, 50, 48, 48, 32, 79, 75, 13, 10]
}

/// The blob placed under Basic authentication: user name, a colon, password.
pub open spec fn spec_auth_blob(u: Seq<u8>, p: Seq<u8>) -> Seq<u8> {
    u + seq![58u8] + p
}

/// What base64's standard, padded encoding returns for the given bytes.
pub uninterp spec fn base64_of(s: Seq<u8>) -> Seq<u8>;

/// Relies on base64's `Engine::encode` over the `STANDARD` engine: the
/// encoding is a function of the input bytes alone.
#[verifier::external_body]
fn base64_encode(data: &Vec<u8>) -> (r: Vec<u8>)
    ensures
        r@ == base64_of(data@),
{
    base64::engine::general_purpose::STANDARD.encode(data).into_bytes()
}

/// A user name and password for the caster.
pub struct Credentials {
    pub username: Vec<u8>,
    pub password: Vec<u8>,
}

/// The credential pair as the sequences its fields hold.
pub open spec fn spec_cred(c: Option<Credentials>) -> Option<(Seq<u8>, Seq<u8>)> {
    match c {
        Some(cr) => Some((cr.username@, cr.password@)),
        None => None,
    }
}

/// The whole handshake request for a mountpoint: the request line, the fixed
/// headers, the optional Basic authentication line, and the empty line that
/// ends the request.
pub open spec fn spec_request(mp: Seq<u8>, cred: Option<(Seq<u8>, Seq<u8>)>) -> Seq<u8> {
    request_get() + mp + request_headers() + (match cred {
        Some(c) => auth_prefix() + base64_of(spec_auth_blob(c.0, c.1)) + seq![13u8, 10],
        None => Seq::<u8>::empty(),
    }) + seq![13u8, 10]
}

/// The expected response byte at position `i`.
fn icy_byte(i: usize) -> (r: u8)
    requires
        i < 12,
    ensures
        r == icy_bytes()[i as int],
{
    let a: [u8; 12] = [73, 67, 89, 32, 50, 48, 48, 32, 79, 75, 13, 10];
    proof {
        assert(a@ =~= icy_bytes());
    }
    a[i]
}

/// Incremental verification of the caster's response: the bytes received so
/// far must at every point be a prefix of `ICY 200 OK` and its line break,
/// twelve bytes in all; one mismatched byte fails the handshake for good.
pub struct HandshakeVerify {
    pub matched: usize,
}

impl HandshakeVerify {
    /// No more than the whole response can have been matched.
    pub open spec fn wf(self) -> bool {
        self.matched <= 12
    }

    /// A verification with nothing received yet.
    pub fn new() -> (r: HandshakeVerify)
        ensures
            r.wf(),
            r.matched == 0,
    {
        HandshakeVerify { matched: 0 }
    }

    /// Checks the bytes read next against the expected response; `true`
    /// extends the verified prefix, `false` is a handshake failure and
    /// leaves the state as it stood.
    pub fn advance(&mut self, chunk: &[u8]) -> (ok: bool)
        requires
            old(self).wf(),
            old(self).matched + chunk@.len() <= 12,
        ensures
            final(self).wf(),
            ok <==> chunk@ == icy_bytes().subrange(
                old(self).matched as int,
                old(self).matched + chunk@.len(),
            ),
            ok ==> final(self).matched == old(self).matched + chunk@.len(),
            !ok ==> final(self).matched == old(self).matched,
    {
        let ghost want = icy_bytes().subrange(
            self.matched as int,
            self.matched + chunk@.len(),
        );
        let mut k: usize = 0;
        while k < chunk.len()
            invariant
                k <= chunk@.len(),
                self.matched + chunk@.len() <= 12,
                want == icy_bytes().subrange(
                    self.matched as int,
                    self.matched + chunk@.len(),
                ),
                forall|m: int| 0 <= m < k ==> chunk@[m] == want[m],
            decreases chunk@.len() - k,
        {
            let b = chunk[k];
            if b != icy_byte(self.matched + k) {
                proof {
                    assert(want[k as int] == icy_bytes()[self.matched + k]);
                }
                return false;
            }
            k = k + 1;
        }
        proof {
            assert(chunk@ =~= want);
        }
        self.matched = self.matched + chunk.len();
        true
    }

    /// Whether the whole twelve-byte response has been seen and verified.
    pub fn complete(&self) -> (r: bool)
        ensures
            r == (self.matched == 12),
    {
        self.matched == 12
    }
}

/// The session state of an NTRIP client: a reconnecting connection, the
/// mountpoint, optional credentials, and the optional position report with
/// its re-send interval and the time it was last sent.
pub struct NtripClient {
    pub tcp_handler: TcpHandler,
    pub mountpoint: Vec<u8>,
    pub credentials: Option<Credentials>,
    pub nmea_freq_ms: Option<u64>,
    pub nmea_coord: Option<GgaPosition>,
    pub latest_nmea_write_ms: Option<u64>,
}

/// Whether a position report is due: one is configured, one was already sent
/// on this connection, and more than the configured interval has passed.
pub open spec fn spec_nmea_due(c: NtripClient, now: int) -> bool {
    match (c.nmea_freq_ms, c.nmea_coord, c.latest_nmea_write_ms) {
        (Some(freq), Some(_), Some(latest)) => now - latest > freq,
        _ => false,
    }
}

impl NtripClient {
    /// A configured position report lies in the ranges a sentence can print.
    pub open spec fn wf(self) -> bool {
        match self.nmea_coord {
            Some(p) => p.wf(),
            None => true,
        }
    }

    /// A fresh session for a caster and mountpoint; `reconnect` is the least
    /// distance between two connect attempts, in seconds.
    pub fn new(addr: String, port: u16, reconnect: u64, mountpoint: String) -> (r: NtripClient)
        requires
            reconnect * 1000 <= u64::MAX,
        ensures
            r.wf(),
            r.tcp_handler.addr@ == addr@,
            r.tcp_handler.port == port,
            !r.tcp_handler.connected,
            r.tcp_handler.reconnect_ms == reconnect * 1000,
            r.tcp_handler.last_connect_ms is None,
            r.mountpoint@ == encode_utf8(mountpoint@),
            r.credentials is None,
            r.nmea_freq_ms is None,
            r.nmea_coord is None,
            r.latest_nmea_write_ms is None,
    {
        let mountpoint_bytes = mountpoint.as_str().as_bytes_vec();
        NtripClient {
            tcp_handler: TcpHandler::new(addr, port, reconnect * 1000),
            mountpoint: mountpoint_bytes,
            credentials: None,
            nmea_freq_ms: None,
            nmea_coord: None,
            latest_nmea_write_ms: None,
        }
    }

    /// Configures Basic authentication for the handshake.
    pub fn set_credentials(&mut self, username: String, password: String)
        ensures
            final(self).tcp_handler == old(self).tcp_handler,
            final(self).mountpoint@ == old(self).mountpoint@,
            spec_cred(final(self).credentials) == Some(
                (encode_utf8(username@), encode_utf8(password@)),
            ),
            final(self).nmea_freq_ms == old(self).nmea_freq_ms,
            final(self).nmea_coord == old(self).nmea_coord,
            final(self).latest_nmea_write_ms == old(self).latest_nmea_write_ms,
    {
        let username_bytes = username.as_str().as_bytes_vec();
        let password_bytes = password.as_str().as_bytes_vec();
        self.credentials = Some(Credentials { username: username_bytes, password: password_bytes });
    }

    /// Configures the position report and, optionally, its re-send interval
    /// in seconds.
    pub fn set_nmea(&mut self, nmea_coord: GgaPosition, nmea_freq: Option<u64>)
        requires
            nmea_coord.wf(),
            match nmea_freq {
                Some(f) => f * 1000 <= u64::MAX,
                None => true,
            },
        ensures
            final(self).wf(),
            final(self).tcp_handler == old(self).tcp_handler,
            final(self).mountpoint@ == old(self).mountpoint@,
            final(self).credentials == old(self).credentials,
            final(self).nmea_coord == Some(nmea_coord),
            final(self).nmea_freq_ms == match nmea_freq {
                Some(f) => Some((f * 1000) as u64),
                None => None::<u64>,
            },
            final(self).latest_nmea_write_ms == old(self).latest_nmea_write_ms,
    {
        self.nmea_coord = Some(nmea_coord);
        self.nmea_freq_ms = match nmea_freq {
            Some(f) => Some(f * 1000),
            None => None,
        };
    }

    /// Builds the handshake request sent once on every fresh connection.
    pub fn request_bytes(&self) -> (r: Vec<u8>)
        ensures
            r@ == spec_request(self.mountpoint@, spec_cred(self.credentials)),
    {
        let mut v: Vec<u8> = Vec::new();
        append_slice(&mut v, &[71, 69, 84, 32, 47]);
        proof {
            assert(v@ =~= request_get());
        }
        append_vec(&mut v, &self.mountpoint);
        let headers = headers_vec();
        append_vec(&mut v, &headers);
        match &self.credentials {
            Some(cr) => {
                let mut blob: Vec<u8> = Vec::new();
                append_vec(&mut blob, &cr.username);
                blob.push(58);
                append_vec(&mut blob, &cr.password);
                proof {
                    assert(blob@ =~= spec_auth_blob(cr.username@, cr.password@));
                }
                let b64 = base64_encode(&blob);
                let prefix = auth_prefix_vec();
                append_vec(&mut v, &prefix);
                append_vec(&mut v, &b64);
                v.push(13);
                v.push(10);
            },
            None => {},
        }
        v.push(13);
        v.push(10);
        proof {
            assert(v@ =~= spec_request(self.mountpoint@, spec_cred(self.credentials)));
        }
        v
    }

    /// Whether a position report must be sent before the next read at
    /// `now_ms`.
    pub fn should_send_nmea(&self, now_ms: u64) -> (r: bool)
        requires
            match self.latest_nmea_write_ms {
                Some(t) => t <= now_ms,
                None => true,
            },
        ensures
            r == spec_nmea_due(*self, now_ms as int),
    {
        match (&self.nmea_freq_ms, &self.nmea_coord, &self.latest_nmea_write_ms) {
            (Some(freq), Some(_), Some(latest)) => now_ms - *latest > *freq,
            _ => false,
        }
    }

    /// Records that a position report went out at `now_ms`.
    pub fn note_nmea_sent(&mut self, now_ms: u64)
        ensures
            final(self).tcp_handler == old(self).tcp_handler,
            final(self).mountpoint@ == old(self).mountpoint@,
            final(self).credentials == old(self).credentials,
            final(self).nmea_freq_ms == old(self).nmea_freq_ms,
            final(self).nmea_coord == old(self).nmea_coord,
            final(self).latest_nmea_write_ms == Some(now_ms),
    {
        self.latest_nmea_write_ms = Some(now_ms);
    }
}

fn headers_vec() -> (r: Vec<u8>)
    ensures
        r@ == request_headers(),
{
    let mut v: Vec<u8> = Vec::new();
    append_slice(
        &mut v,
        &[
            32, 72, 84, 84, 80, 47, 49, 46, 48, 13, 10, 85, 115, 101, 114, 45, 65, 103, 101, 110,
            116, 58, 32, 78, 84, 82, 73, 80, 32, 114, 116, 99, 109, 45, 106, 115, 111, 110, 47,
            48, 46, 49, 13, 10, 65, 99, 99, 101, 112, 116, 58, 32, 42, 47, 42, 13, 10,
        ],
    );
    proof {
        assert(v@ =~= request_headers());
    }
    v
}

fn auth_prefix_vec() -> (r: Vec<u8>)
    ensures
        r@ == auth_prefix(),
{
    let mut v: Vec<u8> = Vec::new();
    append_slice(
        &mut v,
        &[65, 117, 116, 104, 111, 114, 105, 122, 97, 116, 105, 111, 110, 58, 32, 66, 97, 115, 105,
            99, 32],
    );
    proof {
        assert(v@ =~= auth_prefix());
    }
    v
}

} // verus!
