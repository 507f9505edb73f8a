use rtcm_json::tcp_client::{IoResult, IoVerdict, TcpClient};
use rtcm_json::tcp_handler::TcpHandler;
use rtcm_json::tcp_server::{TcpServer, WriteOutcome};

#[test]
fn first_connect_attempt_needs_no_wait() {
    let h = TcpHandler::new("caster.example".to_string(), 2101, 10_000);
    assert_eq!(h.wait_ms(0), 0);
    assert_eq!(h.wait_ms(123), 0);
}

#[test]
fn reconnect_throttle_rate_limit() {
    // A failed attempt at 100 ms with a 1000 ms interval: a second
    // acquisition 400 ms later must still wait out the remainder, so no two
    // connect attempts stand closer than the interval.
    let mut h = TcpHandler::new("caster.example".to_string(), 2101, 1000);
    h.note_attempt(100);
    assert_eq!(h.wait_ms(100), 1000);
    let wait = h.wait_ms(500);
    assert!(wait > 0);
    assert_eq!(500 + wait, 100 + 1000);
    assert_eq!(h.wait_ms(1100), 0);
    assert_eq!(h.wait_ms(5000), 0);
}

#[test]
fn discard_forces_reconnect_but_keeps_throttle() {
    let mut h = TcpHandler::new("h".to_string(), 1, 1000);
    h.note_attempt(0);
    h.note_connected();
    assert!(h.is_connected());
    h.discard_stream();
    assert!(!h.is_connected());
    assert_eq!(h.wait_ms(400), 600);
}

#[test]
fn client_read_write_verdicts() {
    let mut c = TcpClient::new("h".to_string(), 1, 10);
    c.tcp_handler.note_attempt(0);
    c.tcp_handler.note_connected();

    let v = c.on_io_result(IoResult::Done(5));
    assert!(matches!(v, IoVerdict::Delivered(5)));
    assert!(c.tcp_handler.connected);

    let v = c.on_io_result(IoResult::Done(0));
    assert!(matches!(v, IoVerdict::NotConnected));
    assert!(!c.tcp_handler.connected);

    c.tcp_handler.note_connected();
    let v = c.on_io_result(IoResult::Failed);
    assert!(matches!(v, IoVerdict::Failed));
    assert!(!c.tcp_handler.connected);
}

#[test]
fn client_flush_discipline() {
    let mut c = TcpClient::new("h".to_string(), 1, 10);
    assert!(!c.flush_allowed());
    c.tcp_handler.note_attempt(0);
    c.tcp_handler.note_connected();
    assert!(c.flush_allowed());
    c.on_flush_result(true);
    assert!(c.tcp_handler.connected);
    c.on_flush_result(false);
    assert!(!c.tcp_handler.connected);
}

#[test]
fn server_would_block_retained_fatal_removed() {
    let mut s = TcpServer::new();
    let a = s.add_new_connection();
    let b = s.add_new_connection();
    let c = s.add_new_connection();
    assert_eq!((a, b, c), (0, 1, 2));
    assert_eq!(s.connections, vec![0, 1, 2]);

    s.apply_outcomes(&vec![WriteOutcome::Completed, WriteOutcome::WouldBlock, WriteOutcome::Fatal]);
    assert_eq!(s.connections, vec![0, 1]);

    // The client that would have blocked is still written to on the next
    // call; the fatally failed one never appears again.
    s.apply_outcomes(&vec![WriteOutcome::Fatal, WriteOutcome::WouldBlock]);
    assert_eq!(s.connections, vec![1]);

    let d = s.add_new_connection();
    assert_eq!(d, 3);
    assert_eq!(s.connections, vec![1, 3]);
}

#[test]
fn server_keeps_order_of_survivors() {
    let mut s = TcpServer::new();
    for _ in 0..5 {
        s.add_new_connection();
    }
    s.apply_outcomes(&vec![
        WriteOutcome::Fatal,
        WriteOutcome::Completed,
        WriteOutcome::Fatal,
        WriteOutcome::WouldBlock,
        WriteOutcome::Completed,
    ]);
    assert_eq!(s.connections, vec![1, 3, 4]);
}
