//! Rendering of integers as text: decimal, lower-case hexadecimal and
//! zero-padded forms, as `{}`, `{:x}` and `{:0N}` format them.

use vstd::prelude::*;

verus! {

/// The character for digit `d` (0..=15), lower case for 10..=15.
pub open spec fn digit_char(d: int) -> char {
    if d == 0 { '0' }
    else if d == 1 { '1' }
    else if d == 2 { '2' }
    else if d == 3 { '3' }
    else if d == 4 { '4' }
    else if d == 5 { '5' }
    else if d == 6 { '6' }
    else if d == 7 { '7' }
    else if d == 8 { '8' }
    else if d == 9 { '9' }
    else if d == 10 { 'a' }
    else if d == 11 { 'b' }
    else if d == 12 { 'c' }
    else if d == 13 { 'd' }
    else if d == 14 { 'e' }
    else { 'f' }
}

/// Digits of `n` in base `b`, most significant first, without leading zeros
/// (zero is the single digit `0`).
pub open spec fn in_base(n: nat, b: nat) -> Seq<char>
    decreases n,
{
    if b < 2 || n < b {
        seq![digit_char(n as int)]
    } else {
        proof {
            assert(n / b < n) by (nonlinear_arith)
                requires
                    b >= 2,
                    n >= b,
            ;
        }
        in_base(n / b, b).push(digit_char((n % b) as int))
    }
}

/// Decimal rendering of `n`.
pub open spec fn decimal(n: nat) -> Seq<char> {
    in_base(n, 10)
}

/// Lower-case hexadecimal rendering of `n`.
pub open spec fn hex(n: nat) -> Seq<char> {
    in_base(n, 16)
}

/// `s` left-padded with `0` to at least `width` characters.
pub open spec fn zero_pad(s: Seq<char>, width: nat) -> Seq<char> {
    if s.len() >= width {
        s
    } else {
        Seq::new((width - s.len()) as nat, |i: int| '0') + s
    }
}

/// Decimal rendering of a signed integer (with a leading `-` when negative).
pub open spec fn signed_decimal(n: int) -> Seq<char> {
    if n < 0 {
        seq!['-'] + decimal((-n) as nat)
    } else {
        decimal(n as nat)
    }
}

fn digit(d: u64) -> (c: char)
    requires
        d < 16,
    ensures
        c == digit_char(d as int),
{
    if d == 0 { '0' }
    else if d == 1 { '1' }
    else if d == 2 { '2' }
    else if d == 3 { '3' }
    else if d == 4 { '4' }
    else if d == 5 { '5' }
    else if d == 6 { '6' }
    else if d == 7 { '7' }
    else if d == 8 { '8' }
    else if d == 9 { '9' }
    else if d == 10 { 'a' }
    else if d == 11 { 'b' }
    else if d == 12 { 'c' }
    else if d == 13 { 'd' }
    else if d == 14 { 'e' }
    else { 'f' }
}

/// Digits of `n` in base `b`.
pub fn u64_in_base(n: u64, b: u64) -> (r: Vec<char>)
    requires
        2 <= b <= 16,
    ensures
        r@ == in_base(n as nat, b as nat),
    decreases n,
{
    if n < b {
        let mut v: Vec<char> = Vec::new();
        v.push(digit(n));
        v
    } else {
        assert(n / b < n) by (nonlinear_arith)
            requires
                b >= 2,
                n >= b,
        ;
        let mut v = u64_in_base(n / b, b);
        v.push(digit(n % b));
        v
    }
}

/// Decimal digits of `n`.
pub fn u64_decimal(n: u64) -> (r: Vec<char>)
    ensures
        r@ == decimal(n as nat),
{
    u64_in_base(n, 10)
}

/// Hexadecimal digits of `n`.
pub fn u64_hex(n: u64) -> (r: Vec<char>)
    ensures
        r@ == hex(n as nat),
{
    u64_in_base(n, 16)
}

/// `s` left-padded with zeros to `width` characters.
pub fn pad_zeros(s: Vec<char>, width: usize) -> (r: Vec<char>)
    ensures
        r@ == zero_pad(s@, width as nat),
{
    if s.len() >= width {
        return s;
    }
    let mut r: Vec<char> = Vec::new();
    let pad = width - s.len();
    while r.len() < pad
        invariant
            r@.len() <= pad,
            forall|j: int| 0 <= j < r@.len() ==> r@[j] == '0',
        decreases pad - r@.len(),
    {
        r.push('0');
    }
    let mut i: usize = 0;
    while i < s.len()
        invariant
            i <= s@.len(),
            r@ == Seq::new(pad as nat, |k: int| '0') + s@.take(i as int),
        decreases s@.len() - i,
    {
        r.push(s[i]);
        i = i + 1;
        assert(r@ =~= Seq::new(pad as nat, |k: int| '0') + s@.take(i as int));
    }
    assert(s@.take(s@.len() as int) =~= s@);
    r
}

/// Decimal rendering of a signed 32-bit integer.
pub fn i32_decimal(n: i32) -> (r: Vec<char>)
    ensures
        r@ == signed_decimal(n as int),
{
    if n < 0 {
        let m: u64 = (0i64 - (n as i64)) as u64;
        let d = u64_decimal(m);
        let mut r: Vec<char> = Vec::new();
        r.push('-');
        crate::text::push_all(&mut r, d.as_slice());
        assert(r@ =~= seq!['-'] + d@);
        r
    } else {
        u64_decimal(n as u64)
    }
}

} // verus!
