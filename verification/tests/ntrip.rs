use base64::Engine as _;
use rtcm_json::coordinate::GgaPosition;
use rtcm_json::ntrip_client::{HandshakeVerify, NtripClient};

fn pos() -> GgaPosition {
    GgaPosition {
        lat_deg: 57,
        lat_min: 2,
        lat_min_frac: 500000,
        north: true,
        lon_deg: 9,
        lon_min: 55,
        lon_min_frac: 0,
        east: true,
        height_neg: false,
        height_m: 48,
        height_mmm: 0,
    }
}

#[test]
fn request_without_credentials() {
    let c = NtripClient::new("caster.example".to_string(), 2101, 10, "MOUNT".to_string());
    let expected = "GET /MOUNT HTTP/1.0\r\nUser-Agent: NTRIP rtcm-json/0.1\r\nAccept: */*\r\n\r\n";
    assert_eq!(c.request_bytes(), expected.as_bytes().to_vec());
}

#[test]
fn request_with_credentials() {
    let mut c = NtripClient::new("caster.example".to_string(), 2101, 10, "MP".to_string());
    c.set_credentials("user".to_string(), "pass".to_string());
    let b64 = base64::engine::general_purpose::STANDARD.encode("user:pass");
    assert_eq!(b64, "dXNlcjpwYXNz");
    let expected = format!(
        "GET /MP HTTP/1.0\r\nUser-Agent: NTRIP rtcm-json/0.1\r\nAccept: */*\r\nAuthorization: Basic {}\r\n\r\n",
        b64
    );
    assert_eq!(c.request_bytes(), expected.as_bytes().to_vec());
}

#[test]
fn handshake_accepts_expected_response_in_pieces() {
    let mut v = HandshakeVerify::new();
    assert!(v.advance(b"ICY 2"));
    assert!(!v.complete());
    assert!(v.advance(b"00 OK\r\n"));
    assert!(v.complete());
}

#[test]
fn handshake_accepts_whole_response() {
    let mut v = HandshakeVerify::new();
    assert!(v.advance(b"ICY 200 OK\r\n"));
    assert!(v.complete());
}

#[test]
fn handshake_rejects_first_wrong_byte() {
    let mut v = HandshakeVerify::new();
    assert!(!v.advance(b"HTTP/"));
    assert!(!v.complete());

    let mut v = HandshakeVerify::new();
    assert!(v.advance(b"ICY "));
    assert!(!v.advance(b"401 "));
    assert!(!v.complete());
}

#[test]
fn handshake_empty_chunk_is_fine() {
    let mut v = HandshakeVerify::new();
    assert!(v.advance(b""));
    assert!(!v.complete());
}

#[test]
fn nmea_resend_timing() {
    let mut c = NtripClient::new("h".to_string(), 1, 10, "M".to_string());
    // Nothing configured: never due.
    assert!(!c.should_send_nmea(1_000_000));

    c.set_nmea(pos(), Some(1));
    // Configured but nothing sent yet on this connection: the handshake
    // sends the first report, not the read path.
    assert!(!c.should_send_nmea(1_000_000));

    c.note_nmea_sent(1000);
    assert!(!c.should_send_nmea(1999));
    assert!(!c.should_send_nmea(2000));
    assert!(c.should_send_nmea(2001));

    c.note_nmea_sent(2001);
    assert!(!c.should_send_nmea(2500));
}

#[test]
fn nmea_without_interval_never_resends() {
    let mut c = NtripClient::new("h".to_string(), 1, 10, "M".to_string());
    c.set_nmea(pos(), None);
    c.note_nmea_sent(0);
    assert!(!c.should_send_nmea(10_000_000));
}
