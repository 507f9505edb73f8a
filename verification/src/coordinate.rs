//! Building NMEA GGA position sentences, byte for byte, with their XOR
//! checksum, from a position already broken into whole and fractional parts.

use vstd::prelude::*;
use crate::numfmt::{
    append_slice, append_vec, dec_u32, dec_pad_u32, hex2, hex_nibble_val, lemma_hex_round_trip,
    spec_dec, spec_dec_pad, spec_hex2, xor_all, xor_bytes,
};

verus! {

/// A UTC time of day, to the millisecond.
pub struct GgaTime {
    pub hour: u32,
    pub minute: u32,
    pub second: u32,
    pub millis: u32,
}

impl GgaTime {
    /// The ranges a clock reading can take; milliseconds reach 1999 only
    /// within a leap second.
    pub open spec fn wf(self) -> bool {
        self.hour < 24 && self.minute < 60 && self.second < 60 && self.millis < 2000
    }
}

/// A geodetic position, held as the whole and fractional parts that a GGA
/// sentence prints: degrees, whole minutes and millionths of a minute for
/// each of latitude and longitude, and metres and thousandths of a metre of
/// height above the ellipsoid.
pub struct GgaPosition {
    pub lat_deg: u32,
    pub lat_min: u32,
    pub lat_min_frac: u32,
    pub north: bool,
    pub lon_deg: u32,
    pub lon_min: u32,
    pub lon_min_frac: u32,
    pub east: bool,
    pub height_neg: bool,
    pub height_m: u32,
    pub height_mmm: u32,
}

impl GgaPosition {
    /// The ranges the parts of a position can take.
    pub open spec fn wf(self) -> bool {
        self.lat_deg <= 90 && self.lat_min < 60 && self.lat_min_frac < 1000000
            && self.lon_deg <= 180 && self.lon_min < 60 && self.lon_min_frac < 1000000
            && self.height_mmm < 1000
    }
}

/// Hundredths of a second printed for a millisecond count; a count above 999
/// stands within a leap second and wraps back below one hundred.
pub open spec fn spec_hundredths(millis: nat) -> nat {
    if millis < 1000 {
        millis / 10
    } else {
        (millis / 10 - 100) as nat
    }
}

/// Hemisphere letter for a latitude.
pub open spec fn hemi_ns(north: bool) -> u8 {
    if north {
        78
    } else {
        83
    }
}

/// Hemisphere letter for a longitude.
pub open spec fn hemi_ew(east: bool) -> u8 {
    if east {
        69
    } else {
        87
    }
}

/// The height field of a GGA sentence: metres with three decimals.
pub open spec fn spec_height_bytes(p: GgaPosition) -> Seq<u8> {
    (if p.height_neg {
        seq![45u8]
    } else {
        Seq::<u8>::empty()
    }) + spec_dec(p.height_m as nat) + seq![46u8] + spec_dec_pad(p.height_mmm as nat, 3)
}

/// The body of a GGA sentence: everything between the leading `$` and the
/// `*` before the checksum.
pub open spec fn spec_gga_body(t: GgaTime, p: GgaPosition) -> Seq<u8> {
    seq![71u8, 80, 71, 71, 65, 44] + spec_dec_pad(t.hour as nat, 2) + spec_dec_pad(
        t.minute as nat,
        2,
    ) + spec_dec_pad(t.second as nat, 2) + seq![46u8] + spec_dec_pad(
        spec_hundredths(t.millis as nat),
        2,
    ) + seq![44u8] + spec_dec_pad(p.lat_deg as nat, 2) + spec_dec_pad(p.lat_min as nat, 2)
        + seq![46u8] + spec_dec_pad(p.lat_min_frac as nat, 6) + seq![44u8, hemi_ns(p.north), 44]
        + spec_dec_pad(p.lon_deg as nat, 3) + spec_dec_pad(p.lon_min as nat, 2) + seq![46u8]
        + spec_dec_pad(p.lon_min_frac as nat, 6) + seq![44u8, hemi_ew(p.east)] + seq![
        44u8,
        48,
        44,
        48,
        44,
        49,
        46,
        48,
        44,
    ] + spec_height_bytes(p) + seq![44u8, 77, 44, 48, 46, 48, 44, 77, 44, 44]
}

/// A whole GGA sentence: `$`, the body, `*`, the checksum of the body as two
/// uppercase hexadecimal digits, and a carriage return and line feed.
pub open spec fn spec_gga_sentence(t: GgaTime, p: GgaPosition) -> Seq<u8> {
    seq![36u8] + spec_gga_body(t, p) + seq![42u8] + spec_hex2(xor_all(spec_gga_body(t, p)))
        + seq![13u8, 10]
}

#[verifier::rlimit(100)]
fn gga_body(t: &GgaTime, p: &GgaPosition) -> (r: Vec<u8>)
    requires
        t.wf(),
        p.wf(),
    ensures
        r@ == spec_gga_body(*t, *p),
{
    let mut v: Vec<u8> = Vec::new();
    append_slice(&mut v, &[71, 80, 71, 71, 65, 44]);
    proof {
        assert(v@ =~= seq![71u8, 80, 71, 71, 65, 44]);
    }
    let d = dec_pad_u32(t.hour, 2);
    append_vec(&mut v, &d);
    let d = dec_pad_u32(t.minute, 2);
    append_vec(&mut v, &d);
    let d = dec_pad_u32(t.second, 2);
    append_vec(&mut v, &d);
    v.push(46);
    let hh: u32 = if t.millis < 1000 {
        t.millis / 10
    } else {
        t.millis / 10 - 100
    };
    proof {
        assert(hh as nat == spec_hundredths(t.millis as nat));
    }
    let d = dec_pad_u32(hh, 2);
    append_vec(&mut v, &d);
    v.push(44);
    let d = dec_pad_u32(p.lat_deg, 2);
    append_vec(&mut v, &d);
    let d = dec_pad_u32(p.lat_min, 2);
    append_vec(&mut v, &d);
    v.push(46);
    let d = dec_pad_u32(p.lat_min_frac, 6);
    append_vec(&mut v, &d);
    v.push(44);
    v.push(if p.north { 78 } else { 83 });
    v.push(44);
    let d = dec_pad_u32(p.lon_deg, 3);
    append_vec(&mut v, &d);
    let d = dec_pad_u32(p.lon_min, 2);
    append_vec(&mut v, &d);
    v.push(46);
    let d = dec_pad_u32(p.lon_min_frac, 6);
    append_vec(&mut v, &d);
    v.push(44);
    v.push(if p.east { 69 } else { 87 });
    append_slice(&mut v, &[44, 48, 44, 48, 44, 49, 46, 48, 44]);
    if p.height_neg {
        v.push(45);
    }
    let d = dec_u32(p.height_m);
    append_vec(&mut v, &d);
    v.push(46);
    let d = dec_pad_u32(p.height_mmm, 3);
    append_vec(&mut v, &d);
    append_slice(&mut v, &[44, 77, 44, 48, 46, 48, 44, 77, 44, 44]);
    proof {
        assert(v@ =~= spec_gga_body(*t, *p));
    }
    v
}

/// Builds the GGA sentence for a time of day and a position.
pub fn gga_sentence(t: &GgaTime, p: &GgaPosition) -> (r: Vec<u8>)
    requires
        t.wf(),
        p.wf(),
    ensures
        r@ == spec_gga_sentence(*t, *p),
{
    let body = gga_body(t, p);
    let cs = xor_bytes(body.as_slice());
    let mut r: Vec<u8> = Vec::new();
    r.push(36);
    append_vec(&mut r, &body);
    r.push(42);
    let hx = hex2(cs);
    append_vec(&mut r, &hx);
    r.push(13);
    r.push(10);
    proof {
        assert(r@ =~= spec_gga_sentence(*t, *p));
    }
    r
}

/// Checksum law of a generated sentence: it starts with `$`, ends with a
/// `*`, two hexadecimal digits and a line break, and the value of the two
/// digits is the XOR of every byte between the `$` and the `*`.
pub proof fn lemma_gga_checksum(t: GgaTime, p: GgaPosition)
    ensures
        ({
            let s = spec_gga_sentence(t, p);
            let n = s.len() as int;
            &&& s.len() >= 6
            &&& s[0] == 36
            &&& s[n - 5] == 42
            &&& s[n - 2] == 13
            &&& s[n - 1] == 10
            &&& 16 * hex_nibble_val(s[n - 4]) + hex_nibble_val(s[n - 3]) == xor_all(
                s.subrange(1, n - 5),
            )
        }),
{
    let body = spec_gga_body(t, p);
    let s = spec_gga_sentence(t, p);
    let cs = xor_all(body);
    assert(s.len() == body.len() + 6);
    assert(s.subrange(1, s.len() - 5) =~= body);
    assert(s[s.len() - 4] == hex_digit_byte_of(cs, true));
    assert(s[s.len() - 3] == hex_digit_byte_of(cs, false));
    lemma_hex_round_trip((cs / 16) as nat);
    lemma_hex_round_trip((cs % 16) as nat);
}

/// The high or low hexadecimal digit byte of `v`.
spec fn hex_digit_byte_of(v: u8, high: bool) -> u8 {
    if high {
        spec_hex2(v)[0]
    } else {
        spec_hex2(v)[1]
    }
}

/// Relies on chrono's `Utc::now` and its `Timelike` accessors: the hour,
/// minute and second of the current UTC time lie in their clock ranges, and
/// `timestamp_subsec_millis` exceeds 999 only within a leap second, staying
/// below 2000.
#[verifier::external_body]
fn utc_now_fields() -> (r: (u32, u32, u32, u32))
    ensures
        r.0 < 24 && r.1 < 60 && r.2 < 60 && r.3 < 2000,
{
    let t = chrono::Utc::now();
    (
        chrono::Timelike::hour(&t),
        chrono::Timelike::minute(&t),
        chrono::Timelike::second(&t),
        t.timestamp_subsec_millis(),
    )
}

/// Reads the current UTC time of day, for a position report.
pub fn gga_time_now() -> (t: GgaTime)
    ensures
        t.wf(),
{
    let f = utc_now_fields();
    GgaTime { hour: f.0, minute: f.1, second: f.2, millis: f.3 }
}

} // verus!
