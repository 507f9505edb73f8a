//! Decimal and hexadecimal rendering of unsigned values, XOR checksums, and
//! digit-string parsing, all over byte and character sequences.

use vstd::prelude::*;

verus! {

/// ASCII byte of the decimal digit `n`, for `n` below ten.
pub open spec fn digit_byte(n: nat) -> u8 {
    (48 + n) as u8
}

/// Decimal digits of `n`, most significant first.
pub open spec fn spec_dec(n: nat) -> Seq<u8>
    decreases n,
{
    if n < 10 {
        seq![digit_byte(n)]
    } else {
        spec_dec(n / 10).push(digit_byte(n % 10))
    }
}

/// Decimal digits of `n`, padded on the left with zeros to at least `w` bytes.
pub open spec fn spec_dec_pad(n: nat, w: nat) -> Seq<u8> {
    if spec_dec(n).len() >= w {
        spec_dec(n)
    } else {
        Seq::new((w - spec_dec(n).len()) as nat, |i: int| 48u8) + spec_dec(n)
    }
}

/// Renders `n` in decimal.
pub fn dec_u32(n: u32) -> (r: Vec<u8>)
    ensures
        r@ == spec_dec(n as nat),
    decreases n,
{
    if n < 10 {
        let mut v: Vec<u8> = Vec::new();
        v.push(48 + (n as u8));
        proof {
            assert(v@ =~= spec_dec(n as nat));
        }
        v
    } else {
        let mut v = dec_u32(n / 10);
        v.push(48 + ((n % 10) as u8));
        proof {
            assert(v@ =~= spec_dec(n as nat));
        }
        v
    }
}

/// Renders `n` in decimal, left-padded with zeros to at least `w` bytes.
pub fn dec_pad_u32(n: u32, w: usize) -> (r: Vec<u8>)
    ensures
        r@ == spec_dec_pad(n as nat, w as nat),
{
    let d = dec_u32(n);
    let mut r: Vec<u8> = Vec::new();
    while r.len() + d.len() < w
        invariant
            d@ == spec_dec(n as nat),
            r@ =~= Seq::new(r@.len(), |i: int| 48u8),
            r@.len() == 0 || r@.len() + d@.len() <= w,
        decreases w - r.len(),
    {
        r.push(48);
        proof {
            assert(r@ =~= Seq::new(r@.len(), |i: int| 48u8));
        }
    }
    let ghost zeros = r@;
    let mut k: usize = 0;
    while k < d.len()
        invariant
            d@ == spec_dec(n as nat),
            k <= d@.len(),
            zeros.len() == 0 || zeros.len() + d@.len() <= w as nat,
            zeros.len() + d@.len() >= w as nat,
            zeros =~= Seq::new(zeros.len(), |i: int| 48u8),
            r@ == zeros + d@.take(k as int),
        decreases d.len() - k,
    {
        let b = d[k];
        r.push(b);
        k = k + 1;
        proof {
            assert(zeros + d@.take(k as int) =~= (zeros + d@.take(k as int - 1)).push(d@[k as int - 1]));
        }
    }
    proof {
        assert(d@.take(d@.len() as int) =~= d@);
        assert(r@ =~= spec_dec_pad(n as nat, w as nat));
    }
    r
}

/// ASCII byte of the uppercase hexadecimal digit `n`, for `n` below sixteen.
pub open spec fn hex_digit_byte(n: nat) -> u8 {
    if n < 10 {
        (48 + n) as u8
    } else {
        (55 + n) as u8
    }
}

/// Numeric value of a hexadecimal digit byte.
pub open spec fn hex_nibble_val(b: u8) -> nat {
    if 48 <= b && b <= 57 {
        (b - 48) as nat
    } else {
        (b - 55) as nat
    }
}

/// Rendering a value below sixteen as a hexadecimal digit and reading it back
/// returns the value.
pub proof fn lemma_hex_round_trip(n: nat)
    requires
        n < 16,
    ensures
        hex_nibble_val(hex_digit_byte(n)) == n,
{
}

/// Two uppercase hexadecimal digits of `v`, high nibble first.
pub open spec fn spec_hex2(v: u8) -> Seq<u8> {
    seq![hex_digit_byte((v / 16) as nat), hex_digit_byte((v % 16) as nat)]
}

fn hex_digit(n: u8) -> (r: u8)
    requires
        n < 16,
    ensures
        r == hex_digit_byte(n as nat),
{
    if n < 10 {
        48 + n
    } else {
        55 + n
    }
}

/// Renders `v` as two uppercase hexadecimal digits.
pub fn hex2(v: u8) -> (r: Vec<u8>)
    ensures
        r@ == spec_hex2(v),
{
    let mut r: Vec<u8> = Vec::new();
    r.push(hex_digit(v / 16));
    r.push(hex_digit(v % 16));
    proof {
        assert(r@ =~= spec_hex2(v));
    }
    r
}

/// XOR of all bytes of `s`.
pub open spec fn xor_all(s: Seq<u8>) -> u8
    decreases s.len(),
{
    if s.len() == 0 {
        0
    } else {
        xor_all(s.drop_last()) ^ s.last()
    }
}

/// Computes the XOR of all bytes of a slice.
pub fn xor_bytes(v: &[u8]) -> (r: u8)
    ensures
        r == xor_all(v@),
{
    let mut r: u8 = 0;
    let mut k: usize = 0;
    proof {
        assert(v@.take(0) =~= Seq::<u8>::empty());
    }
    while k < v.len()
        invariant
            k <= v@.len(),
            r == xor_all(v@.take(k as int)),
        decreases v@.len() - k,
    {
        r = r ^ v[k];
        k = k + 1;
        proof {
            assert(v@.take(k as int).drop_last() =~= v@.take(k as int - 1));
            assert(v@.take(k as int).last() == v@[k as int - 1]);
        }
    }
    proof {
        assert(v@.take(v@.len() as int) =~= v@);
    }
    r
}

/// Whether `c` is an ASCII decimal digit.
pub open spec fn is_digit_char(c: char) -> bool {
    48 <= c as int && c as int <= 57
}

/// Numeric value of an ASCII decimal digit character.
pub open spec fn digit_char_val(c: char) -> nat {
    (c as int - 48) as nat
}

/// Whether every character of `s` is an ASCII decimal digit.
pub open spec fn all_digits(s: Seq<char>) -> bool {
    forall|i: int| 0 <= i < s.len() ==> is_digit_char(s[i])
}

/// Value of a digit string read as a decimal number.
pub open spec fn digits_val(s: Seq<char>) -> nat
    decreases s.len(),
{
    if s.len() == 0 {
        0
    } else {
        digits_val(s.drop_last()) * 10 + digit_char_val(s.last())
    }
}

/// A digit string is worth at least as much as any of its prefixes.
pub proof fn lemma_digits_val_prefix(s: Seq<char>, m: int)
    requires
        0 <= m <= s.len(),
    ensures
        digits_val(s) >= digits_val(s.take(m)),
    decreases s.len() - m,
{
    if m < s.len() {
        lemma_digits_val_prefix(s, m + 1);
        assert(s.take(m + 1).drop_last() =~= s.take(m));
        assert(digits_val(s.take(m + 1)) == digits_val(s.take(m)) * 10 + digit_char_val(s.take(m + 1).last()));
    } else {
        assert(s.take(m) =~= s);
    }
}

/// Appends every byte of `w` to `v`.
pub fn append_slice(v: &mut Vec<u8>, w: &[u8])
    ensures
        final(v)@ == old(v)@ + w@,
{
    let mut k: usize = 0;
    proof {
        assert(v@ =~= v@ + w@.take(0));
    }
    while k < w.len()
        invariant
            k <= w@.len(),
            v@ == old(v)@ + w@.take(k as int),
        decreases w@.len() - k,
    {
        let b = w[k];
        v.push(b);
        k = k + 1;
        proof {
            assert(old(v)@ + w@.take(k as int) =~= (old(v)@ + w@.take(k as int - 1)).push(w@[k as int - 1]));
        }
    }
    proof {
        assert(w@.take(w@.len() as int) =~= w@);
    }
}

/// Appends every byte of `w` to `v`.
pub fn append_vec(v: &mut Vec<u8>, w: &Vec<u8>)
    ensures
        final(v)@ == old(v)@ + w@,
{
    append_slice(v, w.as_slice());
}

} // verus!
