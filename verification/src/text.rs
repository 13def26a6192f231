//! Numbers in text: the decimal and hexadecimal renderings the bench prints and the test
//! scripts read back, and the decimal parsing of its build settings and port arguments.
use vstd::prelude::*;

verus! {

/// The decimal digits of `n`, most significant first, with no leading zero.
pub open spec fn decimal_digits(n: nat) -> Seq<u8>
    decreases n,
{
    if n < 10 {
        seq![n as u8]
    } else {
        decimal_digits(n / 10).push((n % 10) as u8)
    }
}

/// The character of a digit value below 16: `0` to `9`, then `A` to `F`.
pub open spec fn digit_char(d: nat) -> char {
    if d < 10 {
        ((48 + d) as u8) as char
    } else {
        ((55 + d) as u8) as char
    }
}

/// `n` written in decimal, as `Display` writes it.
pub open spec fn decimal(n: nat) -> Seq<char> {
    decimal_digits(n).map_values(|d: u8| digit_char(d as nat))
}

/// `n` in decimal, left-padded with zeros to `width` digits.
pub open spec fn decimal_padded(n: nat, width: nat) -> Seq<char> {
    Seq::new((width - decimal(n).len()) as nat, |i: int| '0') + decimal(n)
}

/// The `k`-th hexadecimal digit of `v`, counting from the most significant of eight.
pub open spec fn hex_digit(v: u32, k: int) -> nat {
    ((v >> ((28 - 4 * k) as u32)) & 0xFu32) as nat
}

/// `v` as `{:#010X}` writes it: `0x` and eight upper-case hexadecimal digits.
pub open spec fn hex_u32(v: u32) -> Seq<char> {
    seq!['0', 'x'] + Seq::new(8, |k: int| digit_char(hex_digit(v, k)))
}

/// The one-character string of a digit value below 16.
fn digit_str(d: u32) -> (s: &'static str)
    requires
        d < 16,
    ensures
        s@ == seq![digit_char(d as nat)],
{
    match d {
        0 => { proof { reveal_strlit("0"); } "0" },
        1 => { proof { reveal_strlit("1"); } "1" },
        2 => { proof { reveal_strlit("2"); } "2" },
        3 => { proof { reveal_strlit("3"); } "3" },
        4 => { proof { reveal_strlit("4"); } "4" },
        5 => { proof { reveal_strlit("5"); } "5" },
        6 => { proof { reveal_strlit("6"); } "6" },
        7 => { proof { reveal_strlit("7"); } "7" },
        8 => { proof { reveal_strlit("8"); } "8" },
        9 => { proof { reveal_strlit("9"); } "9" },
        10 => { proof { reveal_strlit("A"); } "A" },
        11 => { proof { reveal_strlit("B"); } "B" },
        12 => { proof { reveal_strlit("C"); } "C" },
        13 => { proof { reveal_strlit("D"); } "D" },
        14 => { proof { reveal_strlit("E"); } "E" },
        _ => { proof { reveal_strlit("F"); } "F" },
    }
}

/// The decimal rendering has one character per digit.
pub proof fn lemma_decimal_len(n: nat)
    ensures
        decimal(n).len() == decimal_digits(n).len(),
        1 <= decimal_digits(n).len(),
        n < 10 ==> decimal_digits(n).len() == 1,
        n < 100 ==> decimal_digits(n).len() <= 2,
        n < 1000 ==> decimal_digits(n).len() <= 3,
        n < 10000 ==> decimal_digits(n).len() <= 4,
        n < 100000 ==> decimal_digits(n).len() <= 5,
        n < 1000000 ==> decimal_digits(n).len() <= 6,
        n < 10000000 ==> decimal_digits(n).len() <= 7,
        n < 100000000 ==> decimal_digits(n).len() <= 8,
        n < 1000000000 ==> decimal_digits(n).len() <= 9,
        n < 10000000000 ==> decimal_digits(n).len() <= 10,
    decreases n,
{
    if n >= 10 {
        lemma_decimal_len(n / 10);
    }
}

/// Appends the decimal rendering of `n` to `out`.
pub fn push_decimal(out: &mut String, n: u32)
    ensures
        final(out)@ == old(out)@ + decimal(n as nat),
    decreases n,
{
    if n >= 10 {
        push_decimal(out, n / 10);
    }
    let ghost mid = out@;
    out.append(digit_str(n % 10));
    proof {
        let ds = decimal_digits(n as nat);
        if n >= 10 {
            assert(ds == decimal_digits((n / 10) as nat).push((n % 10) as u8));
            assert(decimal(n as nat) =~= decimal((n / 10) as nat).push(digit_char((n % 10) as nat)));
        } else {
            assert(decimal(n as nat) =~= seq![digit_char(n as nat)]);
        }
        assert(out@ =~= old(out)@ + decimal(n as nat));
    }
}

/// Appends `n` in decimal, left-padded with zeros to `width` digits.
pub fn push_decimal_padded(out: &mut String, n: u32, width: usize)
    requires
        decimal(n as nat).len() <= width,
    ensures
        final(out)@ == old(out)@ + decimal_padded(n as nat, width as nat),
{
    proof { lemma_decimal_len(n as nat); }
    let mut digits: usize = 1;
    let mut rest = n;
    while rest >= 10
        invariant
            1 <= digits,
            decimal_digits(n as nat).len() == digits - 1 + decimal_digits(rest as nat).len(),
            decimal_digits(n as nat).len() <= 10,
        decreases rest,
    {
        proof { lemma_decimal_len((rest / 10) as nat); }
        assert(decimal_digits(rest as nat).len() == decimal_digits((rest / 10) as nat).len() + 1);
        rest = rest / 10;
        digits = digits + 1;
    }
    assert(decimal_digits(rest as nat).len() == 1);
    let ghost start = out@;
    let mut i: usize = digits;
    while i < width
        invariant
            digits <= i <= width,
            digits == decimal(n as nat).len(),
            out@ =~= start + Seq::new((i - digits) as nat, |k: int| '0'),
        decreases width - i,
    {
        proof { reveal_strlit("0"); }
        out.append("0");
        i = i + 1;
    }
    let ghost pad = out@;
    push_decimal(out, n);
    assert(out@ =~= start + decimal_padded(n as nat, width as nat));
}

/// Appends `v` as `{:#010X}` writes it.
pub fn push_hex_u32(out: &mut String, v: u32)
    ensures
        final(out)@ == old(out)@ + hex_u32(v),
{
    let ghost start = out@;
    proof { reveal_strlit("0x"); }
    out.append("0x");
    let mut k: u32 = 0;
    while k < 8
        invariant
            k <= 8,
            out@ =~= start + seq!['0', 'x'] + Seq::new(k as nat, |j: int| digit_char(hex_digit(v, j))),
        decreases 8 - k,
    {
        let shift: u32 = 28 - 4 * k;
        let d = (v >> shift) & 0xF;
        assert(d < 16) by (bit_vector)
            requires
                d == (v >> shift) & 0xF,
        ;
        out.append(digit_str(d));
        k = k + 1;
    }
}

/// `v` as `{:#010X}` writes it.
pub fn hex_string(v: u32) -> (s: String)
    ensures
        s@ == hex_u32(v),
{
    let mut s = String::new();
    push_hex_u32(&mut s, v);
    s
}

/// `n` in decimal.
pub fn decimal_string(n: u32) -> (s: String)
    ensures
        s@ == decimal(n as nat),
{
    let mut s = String::new();
    push_decimal(&mut s, n);
    s
}

/// The value a build setting such as `COUNT` holds: each byte counts `byte - b'0'` times the
/// power of ten of its place, whether or not it is a digit.
pub open spec fn digits_value(s: Seq<u8>) -> int
    decreases s.len(),
{
    if s.len() == 0 {
        0
    } else {
        digits_value(s.drop_last()) * 10 + (s.last() - 48)
    }
}

/// Every prefix of a string whose bytes are at least `b'0'` is worth no more than the whole.
pub proof fn lemma_digits_value_prefix(s: Seq<u8>, n: int)
    requires
        0 <= n <= s.len(),
        forall|i: int| 0 <= i < s.len() ==> s[i] >= 48,
    ensures
        0 <= digits_value(s.take(n)) <= digits_value(s),
    decreases s.len(),
{
    if s.len() > 0 {
        let init = s.drop_last();
        assert forall|i: int| 0 <= i < init.len() implies init[i] >= 48 by {
            assert(init[i] == s[i]);
        }
        if n == s.len() {
            assert(s.take(n) =~= s);
            lemma_digits_value_prefix(init, 0);
            assert(init.take(0) =~= Seq::<u8>::empty());
        } else {
            assert(s.take(n) =~= init.take(n));
            lemma_digits_value_prefix(init, n);
        }
        assert(digits_value(init) <= digits_value(s)) by (nonlinear_arith)
            requires
                digits_value(s) == digits_value(init) * 10 + (s.last() - 48),
                s.last() >= 48,
                digits_value(init) >= 0,
        ;
    } else {
        assert(s.take(n) =~= s);
    }
}

/// Reads a build setting such as `COUNT` as a decimal number, as the firmware's `const fn`
/// does at compile time: a byte below `b'0'` or a value past `u32::MAX` stops the build there,
/// so they are left out.
pub fn parse_u32(s: &[u8]) -> (n: u32)
    requires
        forall|i: int| 0 <= i < s@.len() ==> s@[i] >= 48,
        digits_value(s@) <= u32::MAX,
    ensures
        n == digits_value(s@),
{
    let mut n: u32 = 0;
    let mut i: usize = 0;
    while i < s.len()
        invariant
            0 <= i <= s.len(),
            n == digits_value(s@.take(i as int)),
            forall|j: int| 0 <= j < s@.len() ==> s@[j] >= 48,
            digits_value(s@) <= u32::MAX,
        decreases s.len() - i,
    {
        proof {
            lemma_digits_value_prefix(s@, i + 1);
            assert(s@.take(i + 1).drop_last() =~= s@.take(i as int));
        }
        n = n * 10 + (s[i] - 48) as u32;
        i = i + 1;
    }
    assert(s@.take(s.len() as int) =~= s@);
    n
}

/// Whether `parse_u32` accepts `s`: no byte below `b'0'`, and a value within `u32`.
pub fn decimal_fits_u32(s: &[u8]) -> (ok: bool)
    ensures
        ok == ((forall|i: int| 0 <= i < s@.len() ==> s@[i] >= 48) && digits_value(s@) <= u32::MAX),
{
    let mut n: u64 = 0;
    let mut i: usize = 0;
    while i < s.len()
        invariant
            0 <= i <= s.len(),
            n == digits_value(s@.take(i as int)),
            n <= u32::MAX,
            forall|j: int| 0 <= j < i ==> s@[j] >= 48,
        decreases s.len() - i,
    {
        assert(s@.take(i + 1).drop_last() =~= s@.take(i as int));
        if s[i] < 48 {
            return false;
        }
        n = n * 10 + (s[i] - 48) as u64;
        if n > u32::MAX as u64 {
            proof {
                assert forall|j: int| 0 <= j < s@.len() implies s@[j] >= 48 || !(forall|k: int|
                    0 <= k < s@.len() ==> s@[k] >= 48) by {}
                if forall|k: int| 0 <= k < s@.len() ==> s@[k] >= 48 {
                    lemma_digits_value_prefix(s@, i + 1);
                }
            }
            return false;
        }
        i = i + 1;
    }
    assert(s@.take(s.len() as int) =~= s@);
    true
}

/// A decimal digit, as a byte.
pub open spec fn is_digit(b: u8) -> bool {
    48 <= b <= 57
}

/// The digits of an unsigned number: the bytes after an optional leading `+`.
pub open spec fn unsigned_body(s: Seq<u8>) -> Seq<u8> {
    if s.len() > 0 && s[0] == 43 {
        s.drop_first()
    } else {
        s
    }
}

/// What `str::parse::<usize>` gives for the bytes `s`: an optional `+` followed by one or
/// more digits whose value fits in `usize`; anything else is an error.
pub open spec fn parse_usize_spec(s: Seq<u8>) -> Option<usize> {
    let body = unsigned_body(s);
    if body.len() > 0 && (forall|i: int| 0 <= i < body.len() ==> is_digit(#[trigger] body[i]))
        && digits_value(body) <= usize::MAX {
        Some(digits_value(body) as usize)
    } else {
        None
    }
}

/// `str::parse::<usize>` on the bytes of a string.
pub fn parse_usize(s: &[u8]) -> (r: Option<usize>)
    ensures
        r == parse_usize_spec(s@),
{
    let start: usize = if s.len() > 0 && s[0] == 43 { 1 } else { 0 };
    let ghost body = unsigned_body(s@);
    assert(body =~= s@.subrange(start as int, s@.len() as int));
    if start >= s.len() {
        assert(body.len() == 0);
        assert(parse_usize_spec(s@) is None);
        return None;
    }
    let mut n: usize = 0;
    let mut i: usize = start;
    while i < s.len()
        invariant
            start <= i <= s.len(),
            start < s.len(),
            body == unsigned_body(s@),
            body =~= s@.subrange(start as int, s@.len() as int),
            forall|j: int| 0 <= j < i - start ==> is_digit(#[trigger] body[j]),
            n == digits_value(body.take(i - start)),
        decreases s.len() - i,
    {
        let b = s[i];
        if b < 48 || b > 57 {
            assert(body[i - start] == b);
            assert(!is_digit(body[i - start]));
            return None;
        }
        assert(body.take(i - start + 1).drop_last() =~= body.take(i - start));
        assert(body.take(i - start + 1).last() == b);
        let d = (b - 48) as usize;
        if n > (usize::MAX - d) / 10 {
            proof {
                // the value only grows with more digits
                assert forall|j: int| 0 <= j < i - start + 1 implies is_digit(#[trigger] body[j]) by {}
                assert(digits_value(body.take(i - start + 1)) > usize::MAX) by (nonlinear_arith)
                    requires
                        digits_value(body.take(i - start + 1)) == n * 10 + d,
                        n > (usize::MAX - d) / 10,
                        d <= 9,
                ;
                lemma_digits_value_monotone(body, i - start + 1);
                assert(parse_usize_spec(s@) is None);
            }
            return None;
        }
        n = n * 10 + d;
        i = i + 1;
    }
    assert(body.take(body.len() as int) =~= body);
    assert(parse_usize_spec(s@) == Some(n));
    Some(n)
}

/// Digits only add to the value: a prefix of a digit string is worth no more than the whole.
proof fn lemma_digits_value_monotone(s: Seq<u8>, n: int)
    requires
        0 <= n <= s.len(),
        forall|i: int| 0 <= i < n ==> is_digit(#[trigger] s[i]),
    ensures
        (forall|i: int| 0 <= i < s.len() ==> is_digit(#[trigger] s[i])) ==> digits_value(s.take(n))
            <= digits_value(s),
{
    if forall|i: int| 0 <= i < s.len() ==> is_digit(#[trigger] s[i]) {
        assert forall|i: int| 0 <= i < s.len() implies s[i] >= 48 by {
            assert(is_digit(s[i]));
        }
        lemma_digits_value_prefix(s, n);
    }
}

/// The decimal digits of `n`, most significant first.
pub fn decimal_digit_values(n: u32) -> (v: Vec<u8>)
    ensures
        v@ == decimal_digits(n as nat),
    decreases n,
{
    let mut v = if n >= 10 {
        decimal_digit_values(n / 10)
    } else {
        Vec::new()
    };
    v.push((n % 10) as u8);
    proof {
        if n < 10 {
            assert(v@ =~= decimal_digits(n as nat));
        }
    }
    v
}

/// Whether the bytes of `a` and `b` are the same.
pub(crate) fn bytes_equal(a: &[u8], b: &[u8]) -> (r: bool)
    ensures
        r == (a@ == b@),
{
    if a.len() != b.len() {
        return false;
    }
    let mut i: usize = 0;
    while i < a.len()
        invariant
            i <= a.len(),
            a.len() == b.len(),
            forall|j: int| 0 <= j < i ==> a@[j] == b@[j],
        decreases a.len() - i,
    {
        if a[i] != b[i] {
            return false;
        }
        i = i + 1;
    }
    assert(a@ =~= b@);
    true
}

} // verus!
