use rtcm_json::coordinate::{gga_sentence, gga_time_now, GgaPosition, GgaTime};
use rtcm_json::numfmt::{dec_pad_u32, dec_u32, hex2, xor_bytes};

fn pos_example() -> GgaPosition {
    GgaPosition {
        lat_deg: 37,
        lat_min: 57,
        lat_min_frac: 123456,
        north: true,
        lon_deg: 5,
        lon_min: 8,
        lon_min_frac: 42,
        east: true,
        height_neg: false,
        height_m: 12,
        height_mmm: 345,
    }
}

#[test]
fn dec_renders_digits() {
    assert_eq!(dec_u32(0), b"0".to_vec());
    assert_eq!(dec_u32(7), b"7".to_vec());
    assert_eq!(dec_u32(12345), b"12345".to_vec());
    assert_eq!(dec_u32(4294967295), b"4294967295".to_vec());
}

#[test]
fn dec_pad_pads_short_values_only() {
    assert_eq!(dec_pad_u32(7, 3), b"007".to_vec());
    assert_eq!(dec_pad_u32(123, 2), b"123".to_vec());
    assert_eq!(dec_pad_u32(0, 6), b"000000".to_vec());
    assert_eq!(dec_pad_u32(42, 0), b"42".to_vec());
}

#[test]
fn hex_renders_uppercase() {
    assert_eq!(hex2(0x5A), b"5A".to_vec());
    assert_eq!(hex2(0x00), b"00".to_vec());
    assert_eq!(hex2(0xFF), b"FF".to_vec());
    assert_eq!(hex2(0x0B), b"0B".to_vec());
}

#[test]
fn xor_of_bytes() {
    assert_eq!(xor_bytes(&[]), 0);
    assert_eq!(xor_bytes(&[0x12]), 0x12);
    assert_eq!(xor_bytes(&[0x12, 0x34, 0x56]), 0x12 ^ 0x34 ^ 0x56);
}

#[test]
fn gga_sentence_exact_bytes() {
    let t = GgaTime { hour: 12, minute: 34, second: 56, millis: 780 };
    let body = "GPGGA,123456.78,3757.123456,N,00508.000042,E,0,0,1.0,12.345,M,0.0,M,,";
    let mut cs = 0u8;
    for b in body.as_bytes() {
        cs ^= b;
    }
    let expected = format!("${}*{:02X}\r\n", body, cs);
    let got = gga_sentence(&t, &pos_example());
    assert_eq!(got, expected.as_bytes().to_vec());
}

#[test]
fn gga_sentence_negative_height_and_south_west() {
    let t = GgaTime { hour: 0, minute: 0, second: 9, millis: 0 };
    let p = GgaPosition {
        lat_deg: 3,
        lat_min: 0,
        lat_min_frac: 0,
        north: false,
        lon_deg: 110,
        lon_min: 59,
        lon_min_frac: 999999,
        east: false,
        height_neg: true,
        height_m: 0,
        height_mmm: 50,
    };
    let body = "GPGGA,000009.00,0300.000000,S,11059.999999,W,0,0,1.0,-0.050,M,0.0,M,,";
    let mut cs = 0u8;
    for b in body.as_bytes() {
        cs ^= b;
    }
    let expected = format!("${}*{:02X}\r\n", body, cs);
    assert_eq!(gga_sentence(&t, &p), expected.as_bytes().to_vec());
}

#[test]
fn gga_checksum_law_on_generated_sentence() {
    let t = GgaTime { hour: 23, minute: 59, second: 59, millis: 1999 };
    let s = gga_sentence(&t, &pos_example());
    let n = s.len();
    assert_eq!(s[0], b'$');
    assert_eq!(s[n - 5], b'*');
    assert_eq!(&s[n - 2..], b"\r\n");
    let mut cs = 0u8;
    for b in &s[1..n - 5] {
        cs ^= b;
    }
    let hex = format!("{:02X}", cs);
    assert_eq!(&s[n - 4..n - 2], hex.as_bytes());
}

#[test]
fn gga_time_now_in_clock_ranges() {
    let t = gga_time_now();
    assert!(t.hour < 24);
    assert!(t.minute < 60);
    assert!(t.second < 60);
    assert!(t.millis < 2000);
}

#[test]
fn gga_leap_second_hundredths_wrap() {
    let t = GgaTime { hour: 1, minute: 2, second: 3, millis: 1005 };
    let s = gga_sentence(&t, &pos_example());
    // 1005 ms within a leap second prints as zero hundredths.
    assert!(s.starts_with(b"$GPGGA,010203.00,"));
}
