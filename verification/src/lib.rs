//! Conversion of RTCM v3 correction streams to and from newline-delimited
//! JSON, together with the transport discipline around it: a reconnecting
//! TCP connection with throttled retries, a broadcasting server's client
//! bookkeeping, the NTRIP v1 handshake and keep-alive, and NMEA GGA
//! position sentences. Sockets, clocks and files stay with the caller;
//! everything here works on plain values and carries its contract.

pub mod arguments;
pub mod convert;
pub mod coordinate;
pub mod ntrip_client;
pub mod numfmt;
pub mod tcp_client;
pub mod tcp_handler;
pub mod tcp_server;
