use rtcm_json::arguments::{parse_host_port, ConvDir, CoordinateParseError, Output};

#[test]
fn parse_host_port_plain() {
    assert_eq!(parse_host_port("localhost:2101"), Ok(("localhost".to_string(), 2101)));
    assert_eq!(parse_host_port("10.0.0.1:80"), Ok(("10.0.0.1".to_string(), 80)));
}

#[test]
fn parse_host_port_empty_host() {
    assert_eq!(parse_host_port(":80"), Ok(("".to_string(), 80)));
}

#[test]
fn parse_host_port_ignores_text_after_second_colon() {
    assert_eq!(parse_host_port("h:80:extra"), Ok(("h".to_string(), 80)));
}

#[test]
fn parse_host_port_trims_whitespace_and_plus() {
    assert_eq!(parse_host_port("h: 80 "), Ok(("h".to_string(), 80)));
    assert_eq!(parse_host_port("h:\t+80"), Ok(("h".to_string(), 80)));
}

#[test]
fn parse_host_port_rejects_bad_ports() {
    assert_eq!(parse_host_port("noport"), Err(()));
    assert_eq!(parse_host_port("h:"), Err(()));
    assert_eq!(parse_host_port("h:x80"), Err(()));
    assert_eq!(parse_host_port("h:-80"), Err(()));
    assert_eq!(parse_host_port("h:65536"), Err(()));
    assert_eq!(parse_host_port("h:999999999999"), Err(()));
    assert_eq!(parse_host_port("h: "), Err(()));
}

#[test]
fn parse_host_port_accepts_bounds() {
    assert_eq!(parse_host_port("h:0"), Ok(("h".to_string(), 0)));
    assert_eq!(parse_host_port("h:65535"), Ok(("h".to_string(), 65535)));
    assert_eq!(parse_host_port("h:0000065535"), Ok(("h".to_string(), 65535)));
}

#[test]
fn parse_host_port_unicode_host() {
    assert_eq!(parse_host_port("h\u{e9}te:42"), Ok(("h\u{e9}te".to_string(), 42)));
}

#[test]
fn output_and_direction_variants_exist() {
    let o = Output::TcpServer { host: "h".to_string(), port: 1 };
    assert!(matches!(o, Output::TcpServer { .. }));
    let d = ConvDir::Backward;
    assert!(matches!(d, ConvDir::Backward));
}

#[test]
fn coordinate_parse_error_message() {
    let e = CoordinateParseError;
    assert_eq!(e.message(), "error parsing coordinate");
}
