//! Resolved configuration values: the output and direction selections and the
//! parsing of `host:port` endpoint strings.

use vstd::prelude::*;
use crate::numfmt::{all_digits, digit_char_val, digits_val, is_digit_char, lemma_digits_val_prefix};

verus! {

/// Where the converted stream is sent.
pub enum Output {
    StdOut,
    File { path: String },
    TcpClient { host: String, port: u16 },
    TcpServer { host: String, port: u16 },
}

/// Direction of the conversion run.
pub enum ConvDir {
    Forward,
    Backward,
}

/// Error returned when a coordinate argument cannot be read.
#[derive(Debug)]
pub struct CoordinateParseError;

impl CoordinateParseError {
    /// Human-readable description of the error.
    pub fn message(&self) -> (r: &'static str)
        ensures
            r@ == "error parsing coordinate"@,
    {
        "error parsing coordinate"
    }
}

/// Index of the first occurrence of `c` in `s` at or after position `i`.
pub open spec fn idx_of(s: Seq<char>, c: char, i: nat) -> Option<nat>
    decreases s.len() - i,
{
    if i >= s.len() {
        None
    } else if s[i as int] == c {
        Some(i)
    } else {
        idx_of(s, c, (i + 1) as nat)
    }
}

/// Whether `c` is an ASCII whitespace character: space, tab, line feed,
/// vertical tab, form feed or carriage return.
pub open spec fn is_space_char(c: char) -> bool {
    c == ' ' || c == '\t' || c == '\n' || c == '\r' || c as int == 11 || c as int == 12
}

/// First position at or after `i` in `s` that does not hold whitespace.
pub open spec fn ltrim_idx(s: Seq<char>, i: nat) -> nat
    decreases s.len() - i,
{
    if i >= s.len() || !is_space_char(s[i as int]) {
        i
    } else {
        ltrim_idx(s, (i + 1) as nat)
    }
}

/// Largest position at or before `i` with no whitespace standing just before it.
pub open spec fn rtrim_idx(s: Seq<char>, i: nat) -> nat
    decreases i,
{
    if i == 0 || i > s.len() || !is_space_char(s[i - 1]) {
        i
    } else {
        rtrim_idx(s, (i - 1) as nat)
    }
}

/// `s` with leading and trailing ASCII whitespace removed.
pub open spec fn spec_trim(s: Seq<char>) -> Seq<char> {
    let t0 = s.skip(ltrim_idx(s, 0) as int);
    t0.take(rtrim_idx(t0, t0.len()) as int)
}

/// The value a port string denotes: an optional leading plus sign, then
/// decimal digits whose value fits in sixteen bits.
pub open spec fn spec_parse_u16(s: Seq<char>) -> Option<u16> {
    let t = if s.len() > 0 && s[0] == '+' {
        s.skip(1)
    } else {
        s
    };
    if t.len() > 0 && all_digits(t) && digits_val(t) <= 65535 {
        Some(digits_val(t) as u16)
    } else {
        None
    }
}

/// The host and port an endpoint string denotes: the host is everything before
/// the first colon, the port is read from between the first and second colons
/// (or the end of the string), with surrounding ASCII whitespace ignored.
pub open spec fn spec_host_port(s: Seq<char>) -> Option<(Seq<char>, u16)> {
    match idx_of(s, ':', 0) {
        None => None,
        Some(i) => {
            let j = match idx_of(s, ':', (i + 1) as nat) {
                Some(j) => j as int,
                None => s.len() as int,
            };
            let seg = s.subrange(i as int + 1, j);
            match spec_parse_u16(spec_trim(seg)) {
                Some(p) => Some((s.subrange(0, i as int), p)),
                None => None,
            }
        },
    }
}

/// A search for `c` that has excluded every position before `k` may resume at `k`.
proof fn lemma_idx_of_resume(s: Seq<char>, c: char, i: nat, k: nat)
    requires
        i <= k <= s.len(),
        forall|m: int| i <= m < k ==> s[m] != c,
    ensures
        idx_of(s, c, i) == idx_of(s, c, k),
    decreases k - i,
{
    if i < k {
        lemma_idx_of_resume(s, c, (i + 1) as nat, k);
    }
}

/// Finds the first occurrence of `c` in `s` at or after character position `from`.
fn find_char(s: &str, c: char, from: usize, n: usize) -> (r: Option<usize>)
    requires
        from <= n,
        n == s@.len(),
    ensures
        match r {
            Some(i) => idx_of(s@, c, from as nat) == Some(i as nat) && from <= i < n,
            None => idx_of(s@, c, from as nat) is None,
        },
{
    let mut k: usize = from;
    while k < n
        invariant
            from <= k <= n,
            n == s@.len(),
            forall|m: int| from <= m < k ==> s@[m] != c,
        decreases n - k,
    {
        if s.get_char(k) == c {
            proof {
                lemma_idx_of_resume(s@, c, from as nat, k as nat);
            }
            return Some(k);
        }
        k = k + 1;
    }
    proof {
        lemma_idx_of_resume(s@, c, from as nat, n as nat);
    }
    None
}

/// Whether `c` is ASCII whitespace, as `is_space_char` defines it.
fn is_space(c: char) -> (r: bool)
    ensures
        r == is_space_char(c),
{
    c == ' ' || c == '\t' || c == '\n' || c == '\r' || c == '\u{b}' || c == '\u{c}'
}

/// Scans past leading ASCII whitespace between positions `from` and `to`.
fn ltrim_scan(s: &str, from: usize, to: usize) -> (lo: usize)
    requires
        from <= to <= s@.len(),
    ensures
        from <= lo <= to,
        ltrim_idx(s@.subrange(from as int, to as int), 0) == (lo - from) as nat,
{
    let ghost seg = s@.subrange(from as int, to as int);
    let mut lo: usize = from;
    while lo < to
        invariant
            from <= lo <= to <= s@.len(),
            seg == s@.subrange(from as int, to as int),
            ltrim_idx(seg, 0) == ltrim_idx(seg, (lo - from) as nat),
        ensures
            from <= lo <= to,
            ltrim_idx(seg, 0) == (lo - from) as nat,
        decreases to - lo,
    {
        let c = s.get_char(lo);
        proof {
            assert(seg[lo - from] == c);
        }
        if !is_space(c) {
            break;
        }
        lo = lo + 1;
    }
    lo
}

/// Scans past trailing ASCII whitespace between positions `lo` and `to`.
fn rtrim_scan(s: &str, lo: usize, to: usize) -> (hi: usize)
    requires
        lo <= to <= s@.len(),
    ensures
        lo <= hi <= to,
        ({
            let t0 = s@.subrange(lo as int, to as int);
            rtrim_idx(t0, t0.len()) == (hi - lo) as nat
        }),
{
    let ghost t0 = s@.subrange(lo as int, to as int);
    let mut hi: usize = to;
    while hi > lo
        invariant
            lo <= hi <= to <= s@.len(),
            t0 == s@.subrange(lo as int, to as int),
            rtrim_idx(t0, t0.len()) == rtrim_idx(t0, (hi - lo) as nat),
        ensures
            lo <= hi <= to,
            rtrim_idx(t0, t0.len()) == (hi - lo) as nat,
        decreases hi,
    {
        let c = s.get_char(hi - 1);
        proof {
            assert(t0[hi - 1 - lo] == c);
        }
        if !is_space(c) {
            break;
        }
        hi = hi - 1;
    }
    hi
}

/// Reads an unsigned decimal number from the characters of `s` between
/// positions `start` and `hi`.
fn parse_digits(s: &str, start: usize, hi: usize) -> (r: Result<u16, ()>)
    requires
        start <= hi <= s@.len(),
    ensures
        ({
            let digits = s@.subrange(start as int, hi as int);
            match r {
                Ok(p) => digits.len() > 0 && all_digits(digits) && digits_val(digits) == p,
                Err(()) => digits.len() == 0 || !all_digits(digits) || digits_val(digits) > 65535,
            }
        }),
{
    let ghost digits = s@.subrange(start as int, hi as int);
    if start == hi {
        return Err(());
    }
    let mut val: u32 = 0;
    let mut k: usize = start;
    while k < hi
        invariant
            start <= k <= hi <= s@.len(),
            digits == s@.subrange(start as int, hi as int),
            all_digits(digits.take((k - start) as int)),
            val == digits_val(digits.take((k - start) as int)),
            val <= 65535,
        decreases hi - k,
    {
        let c = s.get_char(k);
        let cv = c as u32;
        if !(48 <= cv && cv <= 57) {
            proof {
                assert(digits[k - start] == c);
                assert(!is_digit_char(digits[k - start]));
            }
            return Err(());
        }
        let d: u32 = cv - 48;
        val = val * 10 + d;
        k = k + 1;
        proof {
            assert(digits.take((k - start) as int).drop_last() =~= digits.take((k - start) as int - 1));
            assert(digits.take((k - start) as int).last() == c);
        }
        if val > 65535 {
            proof {
                lemma_digits_val_prefix(digits, (k - start) as int);
            }
            return Err(());
        }
    }
    proof {
        assert(digits.take((hi - start) as int) =~= digits);
    }
    Ok(val as u16)
}

/// Reads a port number from the characters of `s` between positions `from`
/// and `to`, ignoring surrounding ASCII whitespace.
fn parse_u16_in(s: &str, from: usize, to: usize) -> (r: Result<u16, ()>)
    requires
        from <= to <= s@.len(),
    ensures
        ({
            let seg = s@.subrange(from as int, to as int);
            match r {
                Ok(p) => spec_parse_u16(spec_trim(seg)) == Some(p),
                Err(()) => spec_parse_u16(spec_trim(seg)) is None,
            }
        }),
{
    let ghost seg = s@.subrange(from as int, to as int);
    let lo = ltrim_scan(s, from, to);
    let hi = rtrim_scan(s, lo, to);
    let ghost t = spec_trim(seg);
    proof {
        assert(seg.skip(ltrim_idx(seg, 0) as int) =~= s@.subrange(lo as int, to as int));
        assert(t =~= s@.subrange(lo as int, hi as int));
    }
    // Skip one leading plus sign, as a decimal number parse allows.
    let start: usize = if lo < hi && s.get_char(lo) == '+' {
        lo + 1
    } else {
        lo
    };
    let ghost digits = s@.subrange(start as int, hi as int);
    proof {
        if t.len() > 0 && t[0] == '+' {
            assert(s@[lo as int] == '+');
            assert(t.skip(1) =~= digits);
        } else {
            assert(t =~= digits);
        }
    }
    match parse_digits(s, start, hi) {
        Ok(p) => {
            proof {
                assert(spec_parse_u16(t) == Some(p));
            }
            Ok(p)
        },
        Err(()) => {
            proof {
                assert(spec_parse_u16(t) is None);
            }
            Err(())
        },
    }
}

/// Splits an endpoint string of the shape `host:port` into its host and port.
///
/// The host is everything before the first colon; the port is read from the
/// characters between the first and second colons (or the end of the string).
pub fn parse_host_port(addr: &str) -> (r: Result<(String, u16), ()>)
    ensures
        match r {
            Ok(hp) => spec_host_port(addr@) == Some((hp.0@, hp.1)),
            Err(()) => spec_host_port(addr@) is None,
        },
{
    let n = addr.unicode_len();
    let i = match find_char(addr, ':', 0, n) {
        Some(i) => i,
        None => {
            return Err(());
        },
    };
    let j = match find_char(addr, ':', i + 1, n) {
        Some(j) => j,
        None => n,
    };
    let port = match parse_u16_in(addr, i + 1, j) {
        Ok(p) => p,
        Err(()) => {
            return Err(());
        },
    };
    let host_str = addr.substring_char(0, i);
    let host = host_str.to_owned();
    Ok((host, port))
}

} // verus!
