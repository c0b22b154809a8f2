//! Formatting helpers used by the pages: regex escaping, thousands separators,
//! percent-encoding and human-readable file sizes.

use vstd::prelude::*;
use crate::text::{self, chars_of, digit_to_char, push_char, push_chars, slice_to_vec, u128_digits};
use vstd::arithmetic::power2::{
    lemma2_to64, lemma2_to64_rest, lemma_pow2_adds, lemma_pow2_pos, lemma_pow2_strictly_increases,
    lemma_pow2_unfold, pow2,
};

verus! {

// ---------------------------------------------------------------------------
// regex_escape
// ---------------------------------------------------------------------------

/// The characters that carry meaning in a MongoDB `$regex` pattern.
pub open spec fn is_regex_meta(c: char) -> bool {
    c == '\\' || c == '.' || c == '+' || c == '*' || c == '?' || c == '(' || c == ')' || c == '|'
        || c == '[' || c == ']' || c == '{' || c == '}' || c == '^' || c == '$'
}

/// One character as it appears in an escaped pattern.
pub open spec fn escape_one(c: char) -> Seq<char> {
    if is_regex_meta(c) {
        seq!['\\', c]
    } else {
        seq![c]
    }
}

/// `s` with a backslash in front of every regex metacharacter.
pub open spec fn escape_regex(s: Seq<char>) -> Seq<char>
    decreases s.len(),
{
    if s.len() == 0 {
        Seq::empty()
    } else {
        escape_one(s[0]) + escape_regex(s.drop_first())
    }
}

/// Reads an escaped pattern back: a backslash makes the next character literal.
pub open spec fn unescape_regex(s: Seq<char>) -> Seq<char>
    decreases s.len(),
{
    if s.len() == 0 {
        Seq::empty()
    } else if s[0] == '\\' && s.len() >= 2 {
        seq![s[1]] + unescape_regex(s.skip(2))
    } else {
        seq![s[0]] + unescape_regex(s.drop_first())
    }
}

proof fn lemma_escape_push(s: Seq<char>, c: char)
    ensures
        escape_regex(s.push(c)) == escape_regex(s) + escape_one(c),
    decreases s.len(),
{
    if s.len() == 0 {
        assert(s.push(c).drop_first() == Seq::<char>::empty());
        assert(escape_regex(s.push(c)) == escape_one(c) + escape_regex(Seq::<char>::empty()));
    } else {
        lemma_escape_push(s.drop_first(), c);
        assert(s.push(c).drop_first() == s.drop_first().push(c));
        assert(s.push(c)[0] == s[0]);
    }
}

/// Escapes regex metacharacters so a raw search term is matched literally.
pub fn regex_escape(s: &str) -> (out: String)
    ensures
        out@ == escape_regex(s@),
{
    let v = chars_of(s);
    let mut out = String::new();
    let mut i: usize = 0;
    proof {
        assert(v@.take(0) == Seq::<char>::empty());
    }
    while i < v.len()
        invariant
            i <= v@.len(),
            out@ == escape_regex(v@.take(i as int)),
        decreases v@.len() - i,
    {
        let c = v[i];
        proof {
            lemma_escape_push(v@.take(i as int), c);
            assert(v@.take(i + 1) == v@.take(i as int).push(c));
        }
        if c == '\\' || c == '.' || c == '+' || c == '*' || c == '?' || c == '(' || c == ')' || c
            == '|' || c == '[' || c == ']' || c == '{' || c == '}' || c == '^' || c == '$' {
            push_char(&mut out, '\\');
        }
        push_char(&mut out, c);
        i = i + 1;
    }
    proof {
        assert(v@.take(v@.len() as int) == v@);
    }
    out
}

/// Law: escaping loses nothing; reading the escaped pattern back gives the term.
pub proof fn lemma_regex_escape_roundtrip(s: Seq<char>)
    ensures
        unescape_regex(escape_regex(s)) == s,
    decreases s.len(),
{
    if s.len() > 0 {
        lemma_regex_escape_roundtrip(s.drop_first());
        let e = escape_regex(s);
        let rest = escape_regex(s.drop_first());
        if is_regex_meta(s[0]) {
            assert(e == seq!['\\', s[0]] + rest);
            assert(e.skip(2) == rest);
            assert(e[1] == s[0]);
        } else {
            assert(e == seq![s[0]] + rest);
            assert(e.drop_first() == rest);
            assert(e[0] == s[0]);
        }
        assert(s == seq![s[0]] + s.drop_first());
    }
}

// ---------------------------------------------------------------------------
// commas
// ---------------------------------------------------------------------------

/// Digits grouped in threes from the right, separated by commas.
pub open spec fn group3(ds: Seq<char>) -> Seq<char>
    decreases ds.len(),
{
    if ds.len() <= 3 {
        ds
    } else {
        group3(ds.take(ds.len() - 3)) + seq![','] + ds.skip(ds.len() - 3)
    }
}

/// `commas(n)`: the decimal form of `n` with thousands separators.
pub open spec fn spec_commas(n: int) -> Seq<char> {
    if n < 0 {
        seq!['-'] + group3(text::nat_digits((-n) as nat))
    } else {
        group3(text::nat_digits(n as nat))
    }
}

fn push_grouped(out: &mut String, ds: &[char], len: usize)
    requires
        len <= ds@.len(),
    ensures
        final(out)@ == old(out)@ + group3(ds@.take(len as int)),
    decreases len,
{
    let ghost p = ds@.take(len as int);
    if len <= 3 {
        let part = slice_to_vec(ds, 0, len);
        push_chars(out, part.as_slice());
        proof {
            assert(ds@.subrange(0, len as int) == p);
        }
    } else {
        push_grouped(out, ds, len - 3);
        push_char(out, ',');
        let part = slice_to_vec(ds, len - 3, len);
        push_chars(out, part.as_slice());
        proof {
            assert(p.take(p.len() - 3) == ds@.take(len - 3));
            assert(p.skip(p.len() - 3) == ds@.subrange(len - 3, len as int));
            assert(group3(p) == group3(ds@.take(len - 3)) + seq![','] + ds@.subrange(
                len - 3,
                len as int,
            ));
        }
    }
}

/// Formats an integer with thousands separators, e.g. 1234567 -> "1,234,567".
pub fn commas(n: i64) -> (s: String)
    ensures
        s@ == spec_commas(n as int),
{
    let mut s = String::new();
    let m: u128 = if n < 0 {
        push_char(&mut s, '-');
        (0i128 - n as i128) as u128
    } else {
        n as u128
    };
    let ds = u128_digits(m);
    let ghost s0 = s@;
    push_grouped(&mut s, ds.as_slice(), ds.len());
    proof {
        assert(ds@.take(ds@.len() as int) == ds@);
        if n >= 0 {
            assert(s0 == Seq::<char>::empty());
            assert(s0 + group3(ds@) == group3(ds@));
        }
    }
    s
}

/// The characters of `s` other than commas.
pub open spec fn without_commas(s: Seq<char>) -> Seq<char>
    decreases s.len(),
{
    if s.len() == 0 {
        Seq::empty()
    } else if s.last() == ',' {
        without_commas(s.drop_last())
    } else {
        without_commas(s.drop_last()).push(s.last())
    }
}

proof fn lemma_without_commas_append(a: Seq<char>, b: Seq<char>)
    ensures
        without_commas(a + b) == without_commas(a) + without_commas(b),
    decreases b.len(),
{
    if b.len() == 0 {
        assert(a + b == a);
        assert(without_commas(b) == Seq::<char>::empty());
    } else {
        lemma_without_commas_append(a, b.drop_last());
        assert((a + b).drop_last() == a + b.drop_last());
        assert((a + b).last() == b.last());
    }
}

proof fn lemma_without_commas_digits(ds: Seq<char>)
    requires
        text::all_digits(ds),
    ensures
        without_commas(ds) == ds,
    decreases ds.len(),
{
    if ds.len() > 0 {
        assert(text::all_digits(ds.drop_last())) by {
            assert forall|i: int| 0 <= i < ds.drop_last().len() implies text::is_digit(
                #[trigger] ds.drop_last()[i],
            ) by {
                assert(ds.drop_last()[i] == ds[i]);
            }
        }
        lemma_without_commas_digits(ds.drop_last());
        assert(text::is_digit(ds[ds.len() - 1]));
        assert(ds.drop_last().push(ds.last()) == ds);
    }
}

proof fn lemma_group3_digits(ds: Seq<char>)
    requires
        text::all_digits(ds),
    ensures
        without_commas(group3(ds)) == ds,
    decreases ds.len(),
{
    if ds.len() <= 3 {
        lemma_without_commas_digits(ds);
    } else {
        let a = ds.take(ds.len() - 3);
        let b = ds.skip(ds.len() - 3);
        assert(text::all_digits(a)) by {
            assert forall|i: int| 0 <= i < a.len() implies text::is_digit(#[trigger] a[i]) by {
                assert(a[i] == ds[i]);
            }
        }
        assert(text::all_digits(b)) by {
            assert forall|i: int| 0 <= i < b.len() implies text::is_digit(#[trigger] b[i]) by {
                assert(b[i] == ds[i + ds.len() - 3]);
            }
        }
        lemma_group3_digits(a);
        lemma_without_commas_digits(b);
        lemma_without_commas_append(group3(a) + seq![','], b);
        lemma_without_commas_append(group3(a), seq![',']);
        let sep = seq![','];
        assert(sep.len() == 1 && sep.last() == ',');
        assert(sep.drop_last() == Seq::<char>::empty());
        assert(without_commas(Seq::<char>::empty()) == Seq::<char>::empty());
        assert(without_commas(sep) == Seq::<char>::empty());
        assert(a + b == ds);
    }
}

pub proof fn lemma_nat_digits_are_digits(n: nat)
    ensures
        text::all_digits(text::nat_digits(n)),
        text::nat_digits(n).len() >= 1,
    decreases n,
{
    if n >= 10 {
        lemma_nat_digits_are_digits(n / 10);
        let p = text::nat_digits(n / 10);
        let d = text::digit_char((n % 10) as int);
        assert forall|i: int| 0 <= i < p.push(d).len() implies text::is_digit(#[trigger] p.push(d)[i]) by {
            if i < p.len() {
                assert(p.push(d)[i] == p[i]);
            }
        }
    }
}

/// Law: the separators are all `commas` adds: dropping them gives `n.to_string()`.
pub proof fn lemma_commas_strip(n: i64)
    ensures
        without_commas(spec_commas(n as int)) == text::int_decimal(n as int),
{
    if n < 0 {
        let m = (-(n as int)) as nat;
        lemma_nat_digits_are_digits(m);
        lemma_group3_digits(text::nat_digits(m));
        lemma_without_commas_append(seq!['-'], group3(text::nat_digits(m)));
        let minus = seq!['-'];
        assert(minus.len() == 1 && minus.last() == '-');
        assert(minus.drop_last() == Seq::<char>::empty());
        assert(without_commas(Seq::<char>::empty()) == Seq::<char>::empty());
        assert(Seq::<char>::empty().push('-') == minus);
        assert(without_commas(minus) == minus);
    } else {
        lemma_nat_digits_are_digits(n as nat);
        lemma_group3_digits(text::nat_digits(n as nat));
    }
}

// ---------------------------------------------------------------------------
// url_encode
// ---------------------------------------------------------------------------

/// Bytes that are left alone by percent-encoding.
pub open spec fn is_unreserved(b: u8) -> bool {
    ||| (65 <= b && b <= 90)
    ||| (97 <= b && b <= 122)
    ||| (48 <= b && b <= 57)
    ||| b == 45
    ||| b == 95
    ||| b == 46
    ||| b == 126
}

/// Upper-case hex digit for `d` in 0..16.
pub open spec fn hex_upper(d: int) -> char {
    if d < 10 {
        ('0' as int + d) as char
    } else {
        ('A' as int + d - 10) as char
    }
}

/// One byte as it appears percent-encoded.
pub open spec fn pct_one(b: u8) -> Seq<char> {
    if is_unreserved(b) {
        seq![b as char]
    } else {
        seq!['%', hex_upper(b as int / 16), hex_upper(b as int % 16)]
    }
}

pub open spec fn pct_encode(bs: Seq<u8>) -> Seq<char>
    decreases bs.len(),
{
    if bs.len() == 0 {
        Seq::empty()
    } else {
        pct_encode(bs.drop_last()) + pct_one(bs.last())
    }
}

fn hex_digit_upper(d: u8) -> (c: char)
    requires
        d < 16,
    ensures
        c == hex_upper(d as int),
{
    if d < 10 {
        digit_to_char(d)
    } else {
        let c = match d {
            10 => 'A',
            11 => 'B',
            12 => 'C',
            13 => 'D',
            14 => 'E',
            _ => 'F',
        };
        c
    }
}

fn byte_char(b: u8) -> (c: char)
    requires
        b < 128,
    ensures
        c == b as char,
{
    b as char
}

/// Percent-encodes a string (its UTF-8 bytes) for use as a URL query value.
pub fn url_encode(s: &str) -> (out: String)
    ensures
        out@ == pct_encode(vstd::utf8::encode_utf8(s@)),
{
    let bytes = s.as_bytes();
    let mut out = String::new();
    let mut i: usize = 0;
    proof {
        assert(bytes@.take(0) == Seq::<u8>::empty());
    }
    while i < bytes.len()
        invariant
            i <= bytes@.len(),
            bytes@ == vstd::utf8::encode_utf8(s@),
            out@ == pct_encode(bytes@.take(i as int)),
        decreases bytes@.len() - i,
    {
        let b = bytes[i];
        proof {
            assert(bytes@.take(i + 1).drop_last() == bytes@.take(i as int));
            assert(bytes@.take(i + 1).last() == b);
        }
        if (65 <= b && b <= 90) || (97 <= b && b <= 122) || (48 <= b && b <= 57) || b == 45 || b
            == 95 || b == 46 || b == 126 {
            push_char(&mut out, byte_char(b));
            proof {
                assert(pct_one(b) == seq![b as char]);
            }
        } else {
            let ghost o = out@;
            push_char(&mut out, '%');
            push_char(&mut out, hex_digit_upper(b / 16));
            push_char(&mut out, hex_digit_upper(b % 16));
            proof {
                assert(out@ == o + pct_one(b));
            }
        }
        i = i + 1;
    }
    proof {
        assert(bytes@.take(bytes@.len() as int) == bytes@);
    }
    out
}

} // verus!

verus! {

// ---------------------------------------------------------------------------
// format_file_size
// ---------------------------------------------------------------------------

/// 2^53: integers below it are exactly representable as `f64`.
pub open spec fn two_pow_53() -> nat {
    0x20000000000000
}

/// The power of two an integer is scaled down by to fit the 53-bit `f64`
/// significand (1 when it already fits).
pub open spec fn f64_scale(a: nat) -> nat
    decreases a,
{
    if a < two_pow_53() {
        1
    } else {
        2 * f64_scale(a / 2)
    }
}

/// `x / d` rounded to the nearest integer, ties to the even one.
pub open spec fn round_half_even(x: nat, d: nat) -> nat {
    let q = x / d;
    let r = x % d;
    if 2 * r > d || (2 * r == d && q % 2 == 1) {
        q + 1
    } else {
        q
    }
}

/// The value of `a as f64` for a natural number `a`: the nearest double, ties to even.
pub open spec fn f64_of_nat(a: nat) -> nat {
    round_half_even(a, f64_scale(a)) * f64_scale(a)
}

/// Which unit (`B`, `KB`, `MB`, `GB`, `TB` = 0..4) a magnitude is shown in:
/// the first whose scaled value is below 1024.
pub open spec fn size_unit(m: nat) -> nat {
    if m < 1024 {
        0
    } else if m < 1048576 {
        1
    } else if m < 1073741824 {
        2
    } else if m < 1099511627776 {
        3
    } else {
        4
    }
}

/// 1024^u for u in 0..=4.
pub open spec fn unit_divisor(u: nat) -> nat {
    if u == 0 {
        1
    } else if u == 1 {
        1024
    } else if u == 2 {
        1048576
    } else if u == 3 {
        1073741824
    } else {
        1099511627776
    }
}

pub open spec fn unit_name(u: nat) -> Seq<char> {
    if u == 0 {
        seq!['B']
    } else if u == 1 {
        seq!['K', 'B']
    } else if u == 2 {
        seq!['M', 'B']
    } else if u == 3 {
        seq!['G', 'B']
    } else {
        seq!['T', 'B']
    }
}

/// A count of hundredths shown with two decimals, e.g. 12345 -> "123.45".
pub open spec fn fixed2(h: nat) -> Seq<char> {
    text::nat_digits(h / 100) + seq![
        '.',
        text::digit_char(((h / 10) % 10) as int),
        text::digit_char((h % 10) as int),
    ]
}

/// `format_file_size(bytes)`: the byte count converted to `f64`, divided by 1024 until
/// it is below 1024 (at most down to TB) and printed with two decimals.
pub open spec fn spec_format_file_size(bytes: int) -> Seq<char> {
    let a = if bytes < 0 {
        (-bytes) as nat
    } else {
        bytes as nat
    };
    let m = f64_of_nat(a);
    let u = size_unit(m);
    let sign = if bytes < 0 {
        seq!['-']
    } else {
        Seq::<char>::empty()
    };
    sign + fixed2(round_half_even(m * 100, unit_divisor(u))) + seq![' '] + unit_name(u)
}

fn round_half_even_exec(x: u128, d: u128) -> (r: u128)
    requires
        d > 0,
        x < 0x4000_0000_0000_0000_0000_0000_0000_0000u128,
    ensures
        r == round_half_even(x as nat, d as nat),
{
    let q = x / d;
    let rm = x % d;
    if rm > d - rm || (rm == d - rm && q % 2 == 1) {
        q + 1
    } else {
        q
    }
}

/// `a as f64` for `a` up to 2^64, as an exact integer.
fn f64_of_u128(a: u128) -> (m: u128)
    requires
        a <= 0x1_0000_0000_0000_0000,
    ensures
        m == f64_of_nat(a as nat),
        m <= 2 * a,
        a >= 1 ==> m >= 1,
{
    let mut t: u128 = a;
    let mut p: u128 = 1;
    while t >= 0x20000000000000
        invariant
            1 <= p <= a || (p == 1),
            a <= 0x1_0000_0000_0000_0000,
            t == a / p,
            p * f64_scale(t as nat) == f64_scale(a as nat),
        decreases t,
    {
        proof {
            vstd::arithmetic::div_mod::lemma_div_denominator(a as int, p as int, 2);
            assert(p <= a) by (nonlinear_arith)
                requires
                    t == a / p,
                    t >= 1,
                    p >= 1,
            {
                assert(p * (a / p) <= a);
                assert(p <= p * (a / p));
            }
            assert(f64_scale(t as nat) == 2 * f64_scale((t / 2) as nat));
            assert(p * f64_scale(t as nat) == (p * 2) * f64_scale((t / 2) as nat)) by (
            nonlinear_arith)
                requires
                    f64_scale(t as nat) == 2 * f64_scale((t / 2) as nat),
            ;
        }
        t = t / 2;
        p = p * 2;
        proof {
            assert(p <= a) by (nonlinear_arith)
                requires
                    t == a / p,
                    t >= 1,
                    p >= 1,
            {
                assert(p * (a / p) <= a);
                assert(p <= p * (a / p));
            }
        }
    }
    proof {
        assert(f64_scale(t as nat) == 1);
        assert(p == f64_scale(a as nat)) by (nonlinear_arith)
            requires
                f64_scale(t as nat) == 1,
                p * f64_scale(t as nat) == f64_scale(a as nat),
        ;
    }
    let q = t;
    proof {
        vstd::arithmetic::div_mod::lemma_fundamental_div_mod(a as int, p as int);
        assert(q * p <= a) by (nonlinear_arith)
            requires
                a == p * (a / p) + a % p,
                a % p >= 0,
                q == a / p,
        ;
    }
    let rm = a - q * p;
    proof {
        assert(rm == a % p) by (nonlinear_arith)
            requires
                a == p * (a / p) + a % p,
                q == a / p,
                rm == a - q * p,
        ;
    }
    let up = rm > p - rm || (rm == p - rm && q % 2 == 1);
    let r = if up {
        q + 1
    } else {
        q
    };
    proof {
        assert(r == round_half_even(a as nat, p as nat));
        if a >= 1 {
            assert(q >= 1) by (nonlinear_arith)
                requires
                    q == a / p,
                    p >= 1,
                    p <= a,
            ;
            assert(r * p >= 1) by (nonlinear_arith)
                requires
                    r >= q,
                    q >= 1,
                    p >= 1,
            ;
        }
        assert(r * p <= 2 * a) by (nonlinear_arith)
            requires
                r <= q + 1,
                q == a / p,
                p >= 1,
                p <= a || p == 1,
                a >= 0,
                a == p * q + a % p,
                a % p >= 0,
                (r == q + 1) ==> (a % p) * 2 >= p,
        ;
    }
    r * p
}

fn push_unit_name(s: &mut String, u: u8)
    requires
        u <= 4,
    ensures
        final(s)@ == old(s)@ + unit_name(u as nat),
{
    let ghost s0 = s@;
    if u == 0 {
        push_char(s, 'B');
    } else {
        let c = if u == 1 {
            'K'
        } else if u == 2 {
            'M'
        } else if u == 3 {
            'G'
        } else {
            'T'
        };
        push_char(s, c);
        push_char(s, 'B');
    }
    proof {
        assert(s@ == s0 + unit_name(u as nat));
    }
}

/// Convert a byte count to a human readable string (1024-based units, two decimals),
/// e.g. 1536 -> "1.50 KB".
pub fn format_file_size(bytes: i64) -> (out: String)
    ensures
        out@ == spec_format_file_size(bytes as int),
{
    let a: u128 = if bytes < 0 {
        (0i128 - bytes as i128) as u128
    } else {
        bytes as u128
    };
    let m = f64_of_u128(a);
    let u: u8 = if m < 1024 {
        0
    } else if m < 1048576 {
        1
    } else if m < 1073741824 {
        2
    } else if m < 1099511627776 {
        3
    } else {
        4
    };
    let d: u128 = if u == 0 {
        1
    } else if u == 1 {
        1024
    } else if u == 2 {
        1048576
    } else if u == 3 {
        1073741824
    } else {
        1099511627776
    };
    let h = round_half_even_exec(m * 100, d);
    let mut out = String::new();
    if bytes < 0 {
        push_char(&mut out, '-');
    }
    let ghost o0 = out@;
    let int_digits = u128_digits(h / 100);
    push_chars(&mut out, int_digits.as_slice());
    push_char(&mut out, '.');
    push_char(&mut out, digit_to_char(((h / 10) % 10) as u8));
    push_char(&mut out, digit_to_char((h % 10) as u8));
    proof {
        assert(out@ == o0 + fixed2(h as nat));
    }
    push_char(&mut out, ' ');
    push_unit_name(&mut out, u);
    proof {
        if bytes >= 0 {
            assert(o0 == Seq::<char>::empty());
        }
        assert(out@ == o0 + fixed2(h as nat) + seq![' '] + unit_name(u as nat));
    }
    out
}

} // verus!

verus! {

// ---------------------------------------------------------------------------
// Percentages
// ---------------------------------------------------------------------------

/// `e` puts `a / b` in the binade of 53-bit significands: `2^52 <= a / (b * 2^e) < 2^53`.
pub open spec fn in_binade(a: nat, b: nat, e: int) -> bool {
    if e >= 0 {
        pow2(52) * (b * pow2(e as nat)) <= a && a < pow2(53) * (b * pow2(e as nat))
    } else {
        pow2(52) * b <= a * pow2((-e) as nat) && a * pow2((-e) as nat) < pow2(53) * b
    }
}

/// The exponent of the `f64` nearest to `a / b`, less 52.
pub open spec fn div_exponent(a: nat, b: nat) -> int {
    choose|e: int| in_binade(a, b, e)
}

/// The significand of the `f64` nearest to `a / b` (ties to even): the quotient
/// scaled into the binade and rounded. Its value is `div_significand(a, b) * 2^e`
/// with `e = div_exponent(a, b)`.
pub open spec fn div_significand(a: nat, b: nat) -> nat {
    let e = div_exponent(a, b);
    if e >= 0 {
        round_half_even(a, b * pow2(e as nat))
    } else {
        round_half_even(a * pow2((-e) as nat), b)
    }
}

/// `(n as f64 / d as f64) * 100.0` for `n, d >= 1`, in tenths rounded half to even:
/// both integers rounded to `f64`, their quotient rounded to `f64`, the product by
/// 100 rounded again (scaling by `2^e` is exact), then tenths of the exact result.
pub open spec fn pct_tenths(n: nat, d: nat) -> nat {
    let a = f64_of_nat(n);
    let b = f64_of_nat(d);
    let e = div_exponent(a, b);
    let p = f64_of_nat(div_significand(a, b) * 100);
    if e >= 0 {
        p * 10 * pow2(e as nat)
    } else {
        round_half_even(p * 10, pow2((-e) as nat))
    }
}

/// `fmt_pct1(n, d)`: the percentage `n / d * 100` as `f64` arithmetic computes it,
/// printed with one decimal (`0.0` when `d` is not positive).
pub open spec fn spec_fmt_pct1(n: i64, d: i64) -> Seq<char> {
    if d <= 0 || n == 0 {
        seq!['0', '.', '0']
    } else {
        let t = pct_tenths(
            if n < 0 {
                (-n) as nat
            } else {
                n as nat
            },
            d as nat,
        );
        (if n < 0 {
            seq!['-']
        } else {
            Seq::<char>::empty()
        }) + text::nat_digits(t / 10) + seq!['.', text::digit_char((t % 10) as int)]
    }
}

proof fn lemma_pow2_facts()
    ensures
        pow2(0) == 1,
        pow2(12) == 0x1000,
        pow2(13) == 0x2000,
        pow2(52) == 0x10_0000_0000_0000,
        pow2(53) == 0x20_0000_0000_0000,
        pow2(64) == 0x1_0000_0000_0000_0000,
        pow2(117) == 0x20_0000_0000_0000_0000_0000_0000_0000,
        pow2(120) == 0x100_0000_0000_0000_0000_0000_0000_0000,
{
    lemma2_to64();
    lemma2_to64_rest();
    lemma_pow2_adds(64, 53);
    lemma_pow2_adds(64, 56);
}

/// A quotient `a / b` lies in one binade only, so the exponent that
/// [`div_exponent`] chooses is the one in whose binade it lies.
pub proof fn lemma_binade_unique(a: nat, b: nat, e1: int, e2: int)
    requires
        b >= 1,
        in_binade(a, b, e1),
        in_binade(a, b, e2),
    ensures
        e1 == e2,
{
    if e1 < e2 {
        lemma_binade_lt(a, b, e1, e2);
    } else if e2 < e1 {
        lemma_binade_lt(a, b, e2, e1);
    }
}

proof fn lemma_binade_lt(a: nat, b: nat, e1: int, e2: int)
    requires
        b >= 1,
        e1 < e2,
        in_binade(a, b, e1),
    ensures
        !in_binade(a, b, e2),
{
    lemma_pow2_facts();
    let p52 = pow2(52);
    let p53 = pow2(53);
    assert(p53 == 2 * p52);
    if e1 >= 0 {
        let k1 = e1 as nat;
        let k2 = e2 as nat;
        lemma_pow2_adds(k1 + 1, (k2 - k1 - 1) as nat);
        lemma_pow2_unfold(k1 + 1);
        lemma_pow2_pos((k2 - k1 - 1) as nat);
        let x = pow2(k1);
        let y = pow2((k2 - k1 - 1) as nat);
        assert(pow2(k2) == 2 * x * y);
        assert(p52 * (b * pow2(k2)) >= p53 * (b * x)) by (nonlinear_arith)
            requires
                pow2(k2) == 2 * x * y,
                y >= 1,
                p53 == 2 * p52,
                b >= 1,
                x >= 0,
                p52 >= 0,
        ;
    } else if e2 >= 0 {
        let k1 = (-e1) as nat;
        let k2 = e2 as nat;
        lemma_pow2_unfold(k1);
        lemma_pow2_pos((k1 - 1) as nat);
        lemma_pow2_pos(k2);
        assert(a * pow2(k1) >= 2 * a) by (nonlinear_arith)
            requires
                pow2(k1) == 2 * pow2((k1 - 1) as nat),
                pow2((k1 - 1) as nat) >= 1,
        ;
        assert(p52 * (b * pow2(k2)) >= p52 * b) by (nonlinear_arith)
            requires
                pow2(k2) >= 1,
                b >= 1,
                p52 >= 0,
        ;
    } else {
        let k1 = (-e1) as nat;
        let k2 = (-e2) as nat;
        lemma_pow2_adds(k2 + 1, (k1 - k2 - 1) as nat);
        lemma_pow2_unfold(k2 + 1);
        lemma_pow2_pos((k1 - k2 - 1) as nat);
        let x = pow2(k2);
        let y = pow2((k1 - k2 - 1) as nat);
        assert(pow2(k1) == 2 * x * y);
        assert(a * pow2(k1) >= 2 * (a * x)) by (nonlinear_arith)
            requires
                pow2(k1) == 2 * x * y,
                y >= 1,
                x >= 0,
        ;
    }
}

/// `2^k`.
fn pow2_u128(k: u32) -> (r: u128)
    requires
        k <= 120,
    ensures
        r == pow2(k as nat),
{
    let mut r: u128 = 1;
    let mut i: u32 = 0;
    proof {
        lemma_pow2_facts();
    }
    while i < k
        invariant
            i <= k <= 120,
            r == pow2(i as nat),
            pow2(120) == 0x100_0000_0000_0000_0000_0000_0000_0000,
        decreases k - i,
    {
        proof {
            lemma_pow2_unfold((i + 1) as nat);
            if i + 1 < 120 {
                lemma_pow2_strictly_increases((i + 1) as nat, 120);
            }
        }
        r = r * 2;
        i = i + 1;
    }
    r
}

/// The `f64` nearest to `a / b`, as `(significand, exponent)`.
fn div_to_f64(a: u128, b: u128) -> (r: (u128, i32))
    requires
        1 <= a <= 0x2_0000_0000_0000_0000,
        1 <= b <= 0x2_0000_0000_0000_0000,
    ensures
        r.1 == div_exponent(a as nat, b as nat),
        r.0 == div_significand(a as nat, b as nat),
        r.0 <= 0x20_0000_0000_0000,
        -120 <= r.1 <= 13,
{
    proof {
        lemma_pow2_facts();
    }
    let mut num: u128 = a;
    let mut den: u128 = b;
    let mut e: i32 = 0;
    proof {
        assert(den == b * pow2(0));
    }
    while num >= 0x20_0000_0000_0000 * den
        invariant
            1 <= b <= den <= 0x2_0000_0000_0000_0000,
            num == a,
            1 <= a <= 0x2_0000_0000_0000_0000,
            0 <= e <= 13,
            den == b * pow2(e as nat),
            e > 0 ==> num >= 0x10_0000_0000_0000 * den,
            pow2(13) == 0x2000,
        decreases num - den,
    {
        proof {
            lemma_pow2_unfold((e + 1) as nat);
            lemma_pow2_pos(e as nat);
            assert(pow2(e as nat) <= 0x1000) by (nonlinear_arith)
                requires
                    den == b * pow2(e as nat),
                    b >= 1,
                    num >= 0x20_0000_0000_0000 * den,
                    num <= 0x2_0000_0000_0000_0000,
            ;
            if e >= 13 {
                if e > 13 {
                    lemma_pow2_strictly_increases(13, e as nat);
                }
            }
        }
        den = den * 2;
        e = e + 1;
        proof {
            assert(den == b * pow2(e as nat)) by (nonlinear_arith)
                requires
                    den == 2 * (b * pow2((e - 1) as nat)),
                    pow2(e as nat) == 2 * pow2((e - 1) as nat),
            ;
        }
    }
    while num < 0x10_0000_0000_0000 * den
        invariant
            1 <= b <= den <= 0x2_0000_0000_0000_0000,
            1 <= a <= 0x2_0000_0000_0000_0000,
            num < 0x20_0000_0000_0000 * den,
            -120 <= e <= 13,
            e >= 0 ==> num == a && den == b * pow2(e as nat),
            e < 0 ==> num == a * pow2((-e) as nat) && den == b,
            e > 0 ==> num >= 0x10_0000_0000_0000 * den,
            pow2(117) == 0x20_0000_0000_0000_0000_0000_0000_0000,
            pow2(0) == 1,
        decreases e + 120,
    {
        proof {
            assert(e <= 0);
            if e == 0 {
                assert(b * pow2(0) == b);
                assert(den == b);
            }
            let k = (-e) as nat;
            lemma_pow2_unfold(k + 1);
            lemma_pow2_pos(k);
            assert(num >= pow2(k)) by (nonlinear_arith)
                requires
                    num == a * pow2(k),
                    a >= 1,
                    pow2(k) >= 0,
            ;
            if k > 117 {
                lemma_pow2_strictly_increases(117, k);
            }
            assert(num >= 1);
        }
        num = num * 2;
        e = e - 1;
        proof {
            let k = (-e) as nat;
            assert(num == a * pow2(k)) by (nonlinear_arith)
                requires
                    num == 2 * (a * pow2((k - 1) as nat)),
                    pow2(k) == 2 * pow2((k - 1) as nat),
            ;
        }
    }
    proof {
        assert(in_binade(a as nat, b as nat, e as int));
        let c = choose|c: int| in_binade(a as nat, b as nat, c);
        lemma_binade_unique(a as nat, b as nat, c, e as int);
    }
    let m = round_half_even_exec(num, den);
    proof {
        assert(m <= 0x20_0000_0000_0000) by (nonlinear_arith)
            requires
                m == round_half_even(num as nat, den as nat),
                num < 0x20_0000_0000_0000 * den,
                den >= 1,
        {
            let q = num as nat / den as nat;
            assert(q * den <= num);
            assert(q < 0x20_0000_0000_0000);
        }
    }
    (m, e)
}

/// `(p as f64 / q as f64).round()` for `p, q >= 1`: the quotient as `f64`
/// arithmetic computes it, rounded half away from zero to an integer.
pub open spec fn f64_round_quotient(p: nat, q: nat) -> nat {
    let a = f64_of_nat(p);
    let b = f64_of_nat(q);
    let e = div_exponent(a, b);
    let m = div_significand(a, b);
    if e >= 0 {
        m * pow2(e as nat)
    } else {
        (2 * m + pow2((-e) as nat)) / (2 * pow2((-e) as nat))
    }
}

/// `(p as f64 / q as f64).round() as i64` for `p, q >= 1` (the cast saturates).
pub fn round_quotient(p: i64, q: i64) -> (r: i64)
    requires
        p >= 1,
        q >= 1,
    ensures
        r == (if f64_round_quotient(p as nat, q as nat) > i64::MAX {
            i64::MAX as nat
        } else {
            f64_round_quotient(p as nat, q as nat)
        }),
{
    let a = f64_of_u128(p as u128);
    let b = f64_of_u128(q as u128);
    let (m, e) = div_to_f64(a, b);
    let v: u128 = if e >= 0 {
        let s = pow2_u128(e as u32);
        proof {
            lemma_pow2_facts();
            if e < 13 {
                lemma_pow2_strictly_increases(e as nat, 13);
            }
        }
        assert(m * s <= 0x1_0000_0000_0000_0000_0000) by (nonlinear_arith)
            requires
                m <= 0x20_0000_0000_0000,
                s <= 0x2000,
        ;
        m * s
    } else {
        let s = pow2_u128((0 - e) as u32);
        proof {
            lemma_pow2_pos((-e) as nat);
            lemma_pow2_facts();
            if -e < 120 {
                lemma_pow2_strictly_increases((-e) as nat, 120);
            }
        }
        (2 * m + s) / (2 * s)
    };
    if v > i64::MAX as u128 {
        i64::MAX
    } else {
        v as i64
    }
}

/// `p as f64 / q as f64` for `p, q >= 1`, in hundredths rounded half to even.
pub open spec fn quotient_hundredths(p: nat, q: nat) -> nat {
    let a = f64_of_nat(p);
    let b = f64_of_nat(q);
    let e = div_exponent(a, b);
    let m = div_significand(a, b);
    if e >= 0 {
        m * 100 * pow2(e as nat)
    } else {
        round_half_even(m * 100, pow2((-e) as nat))
    }
}

/// `format!("{:.2}", p as f64 / q as f64)` for `p, q >= 1`.
pub fn quotient_fixed2(p: i64, q: i64) -> (out: String)
    requires
        p >= 1,
        q >= 1,
    ensures
        out@ == fixed2(quotient_hundredths(p as nat, q as nat)),
{
    let a = f64_of_u128(p as u128);
    let b = f64_of_u128(q as u128);
    let (m, e) = div_to_f64(a, b);
    let h: u128 = if e >= 0 {
        let s = pow2_u128(e as u32);
        proof {
            lemma_pow2_facts();
            if e < 13 {
                lemma_pow2_strictly_increases(e as nat, 13);
            }
        }
        assert(m * 100 * s <= 0x1_0000_0000_0000_0000_0000) by (nonlinear_arith)
            requires
                m <= 0x20_0000_0000_0000,
                s <= 0x2000,
        ;
        m * 100 * s
    } else {
        let s = pow2_u128((0 - e) as u32);
        proof {
            lemma_pow2_pos((-e) as nat);
        }
        round_half_even_exec(m * 100, s)
    };
    let mut out = String::new();
    let int_digits = u128_digits(h / 100);
    push_chars(&mut out, int_digits.as_slice());
    push_char(&mut out, '.');
    push_char(&mut out, digit_to_char(((h / 10) % 10) as u8));
    push_char(&mut out, digit_to_char((h % 10) as u8));
    proof {
        assert(out@ == fixed2(h as nat));
    }
    out
}

/// Percentage formatted to one decimal place, e.g. "42.3": `(n as f64 / d as f64)
/// * 100.0` (0 when `d` is not positive) printed with `{:.1}`.
pub fn fmt_pct1(n: i64, d: i64) -> (out: String)
    ensures
        out@ == spec_fmt_pct1(n, d),
{
    if d <= 0 || n == 0 {
        let mut out = String::new();
        push_char(&mut out, '0');
        push_char(&mut out, '.');
        push_char(&mut out, '0');
        return out;
    }
    let an: u128 = if n < 0 {
        (0i128 - n as i128) as u128
    } else {
        n as u128
    };
    let a = f64_of_u128(an);
    let b = f64_of_u128(d as u128);
    let (m, e) = div_to_f64(a, b);
    let p = f64_of_u128(m * 100);
    let t: u128 = if e >= 0 {
        let s = pow2_u128(e as u32);
        proof {
            lemma_pow2_facts();
            if e < 13 {
                lemma_pow2_strictly_increases(e as nat, 13);
            }
        }
        assert(p * 10 * s <= 0x1_0000_0000_0000_0000_0000) by (nonlinear_arith)
            requires
                p <= 2 * (m * 100),
                m <= 0x20_0000_0000_0000,
                s <= 0x2000,
        ;
        p * 10 * s
    } else {
        let s = pow2_u128((0 - e) as u32);
        proof {
            lemma_pow2_pos((-e) as nat);
        }
        round_half_even_exec(p * 10, s)
    };
    let mut out = String::new();
    if n < 0 {
        push_char(&mut out, '-');
    }
    let ghost o0 = out@;
    let digits = u128_digits(t / 10);
    push_chars(&mut out, digits.as_slice());
    push_char(&mut out, '.');
    push_char(&mut out, digit_to_char((t % 10) as u8));
    proof {
        if n >= 0 {
            assert(o0 == Seq::<char>::empty());
        }
        assert(out@ == o0 + text::nat_digits((t / 10) as nat) + seq!['.', text::digit_char((t % 10) as int)]);
    }
    out
}

} // verus!

verus! {

// ---------------------------------------------------------------------------
// Query strings
// ---------------------------------------------------------------------------

/// `url_encode` as a function of the string's characters.
pub open spec fn url_encoded(s: Seq<char>) -> Seq<char> {
    pct_encode(vstd::utf8::encode_utf8(s))
}

/// `k1=v1&k2=v2&...`, each value percent-encoded.
pub open spec fn join_params(ps: Seq<(Seq<char>, Seq<char>)>) -> Seq<char>
    decreases ps.len(),
{
    if ps.len() == 0 {
        Seq::empty()
    } else if ps.len() == 1 {
        ps[0].0 + seq!['='] + url_encoded(ps[0].1)
    } else {
        join_params(ps.drop_last()) + seq!['&'] + ps.last().0 + seq!['='] + url_encoded(ps.last().1)
    }
}

pub open spec fn params_view(ps: Seq<(String, String)>) -> Seq<(Seq<char>, Seq<char>)> {
    Seq::new(ps.len(), |i: int| (ps[i].0@, ps[i].1@))
}

/// Joins `key=value` pairs with `&`, percent-encoding the values.
pub fn query_string(params: &[(String, String)]) -> (r: String)
    ensures
        r@ == join_params(params_view(params@)),
{
    let mut r = String::new();
    let mut i: usize = 0;
    while i < params.len()
        invariant
            i <= params@.len(),
            r@ == join_params(params_view(params@).take(i as int)),
        decreases params@.len() - i,
    {
        let ghost pv = params_view(params@);
        proof {
            assert(pv.take(i + 1).drop_last() == pv.take(i as int));
            assert(pv.take(i + 1).last() == pv[i as int]);
            assert(pv.take(0) == Seq::<(Seq<char>, Seq<char>)>::empty());
            assert(pv.take(1)[0] == pv[0]);
        }
        if i > 0 {
            crate::text::push_char(&mut r, '&');
        }
        crate::text::push_str(&mut r, params[i].0.as_str());
        crate::text::push_char(&mut r, '=');
        let v = url_encode(params[i].1.as_str());
        crate::text::push_str(&mut r, v.as_str());
        proof {
            if i == 0 {
                assert(Seq::<char>::empty() + pv[0].0 + seq!['='] + url_encoded(pv[0].1) == pv[0].0
                    + seq!['='] + url_encoded(pv[0].1));
            }
        }
        i = i + 1;
    }
    proof {
        assert(params_view(params@).take(params@.len() as int) == params_view(params@));
    }
    r
}

} // verus!
