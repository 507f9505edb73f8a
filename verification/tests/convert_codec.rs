use rtcm_json::convert::{BackwardState, ForwardState};

fn msg_json(station_id: u16) -> String {
    format!(
        "{{\"Msg1005\":{{\"reference_station_id\":{},\"reserved_24_6\":0,\
         \"gps_flag\":1,\"glonass_flag\":0,\"galileo_flag\":0,\
         \"reference_station_ind\":0,\"antenna_ref_point_ecef_x_m\":0.0,\
         \"single_receiver_osc_ind\":0,\"reserved_73_1\":0,\
         \"antenna_ref_point_ecef_y_m\":0.0,\"quarter_cycle_ind\":0,\
         \"antenna_ref_point_ecef_z_m\":0.0}}}}",
        station_id
    )
}

fn frame_for(station_id: u16) -> Vec<u8> {
    let mut b = BackwardState::new();
    b.line_to_binary(&msg_json(station_id)).expect("message must encode")
}

#[test]
fn backward_encodes_a_valid_line() {
    let frame = frame_for(100);
    assert!(frame.len() >= 6);
    assert_eq!(frame[0], 0xd3);
}

#[test]
fn backward_rejects_invalid_lines() {
    let mut b = BackwardState::new();
    assert_eq!(b.line_to_binary("this is not json"), None);
    assert_eq!(b.line_to_binary("{\"no_such_message\":1}"), None);
    // Parses as a message without a number: it cannot encode.
    assert_eq!(b.line_to_binary("\"Empty\""), None);
}

#[test]
fn backward_skips_invalid_lines_keeps_order() {
    let good1 = msg_json(100);
    let good2 = msg_json(7);
    let frame1 = frame_for(100);
    let frame2 = frame_for(7);

    let mut b = BackwardState::new();
    let lines = vec![good1, "not json at all".to_string(), good2];
    let out = b.convert_lines(&lines);

    let mut expected = frame1.clone();
    expected.extend_from_slice(&frame2);
    assert_eq!(out, expected);
}

#[test]
fn forward_round_trips_one_frame() {
    let frame = frame_for(100);
    let mut f = ForwardState::new();
    let lines = f.step(&frame);
    assert_eq!(lines.len(), 1);
    let line = &lines[0];
    assert!(line.ends_with(b"\r\n"));
    let got: serde_json::Value = serde_json::from_slice(&line[..line.len() - 2]).unwrap();
    let want: serde_json::Value = serde_json::from_str(&msg_json(100)).unwrap();
    assert_eq!(got, want);
    assert_eq!(f.buf.len(), 0);
}

#[test]
fn forward_keeps_partial_frame_for_next_read() {
    let frame = frame_for(100);
    let mut chunk = frame.clone();
    chunk.extend_from_slice(&frame[..10]);

    let mut f = ForwardState::new();
    let lines = f.step(&chunk);
    assert_eq!(lines.len(), 1);
    // The half frame is neither decoded nor dropped.
    assert_eq!(f.buf, frame[..10].to_vec());

    let lines = f.step(&frame[10..]);
    assert_eq!(lines.len(), 1);
    assert_eq!(f.buf.len(), 0);
}

#[test]
fn forward_skips_garbage_between_frames() {
    let frame = frame_for(100);
    let mut chunk = vec![0u8, 1, 2, 3];
    chunk.extend_from_slice(&frame);

    let mut f = ForwardState::new();
    let lines = f.step(&chunk);
    assert_eq!(lines.len(), 1);
    assert_eq!(f.buf.len(), 0);

    let lines = f.step(b"no frame here");
    assert_eq!(lines.len(), 0);
    assert_eq!(f.buf.len(), 0);
}

#[test]
fn forward_n_frames_give_n_lines_in_order() {
    let frame1 = frame_for(100);
    let frame2 = frame_for(7);
    let frame3 = frame_for(4095);
    let mut chunk = frame1.clone();
    chunk.extend_from_slice(&frame2);
    chunk.extend_from_slice(&frame3);

    let mut f = ForwardState::new();
    assert!(chunk.len() <= f.space());
    let lines = f.step(&chunk);
    assert_eq!(lines.len(), 3);
    for line in &lines {
        assert!(line.ends_with(b"\r\n"));
    }
    let ids: Vec<i64> = lines
        .iter()
        .map(|l| {
            let v: serde_json::Value = serde_json::from_slice(&l[..l.len() - 2]).unwrap();
            v["Msg1005"]["reference_station_id"].as_i64().unwrap()
        })
        .collect();
    assert_eq!(ids, vec![100, 7, 4095]);
}

#[test]
fn end_to_end_backward_then_forward() {
    // JSON lines to binary, binary back to JSON: the frames survive in
    // order and nothing else appears.
    let mut b = BackwardState::new();
    let lines_in = vec![msg_json(1), msg_json(2), msg_json(3)];
    let binary = b.convert_lines(&lines_in);

    let mut f = ForwardState::new();
    let lines_out = f.step(&binary);
    assert_eq!(lines_out.len(), 3);
    for (line, source) in lines_out.iter().zip(lines_in.iter()) {
        let got: serde_json::Value = serde_json::from_slice(&line[..line.len() - 2]).unwrap();
        let want: serde_json::Value = serde_json::from_str(source).unwrap();
        assert_eq!(got, want);
    }
}
