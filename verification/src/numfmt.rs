//! Decimal rendering of integers, and of byte sizes in binary units.

use vstd::prelude::*;

use crate::text::push_char;

verus! {

/// The decimal digit character for `d < 10`.
pub open spec fn digit_char(d: nat) -> char {
    ((48 + d) as u8) as char
}

/// The decimal representation of `n` (no sign, no leading zeros).
pub open spec fn dec(n: nat) -> Seq<char>
    decreases n,
{
    if n < 10 {
        seq![digit_char(n)]
    } else {
        dec(n / 10).push(digit_char(n % 10))
    }
}

/// The decimal representation of a signed integer.
pub open spec fn dec_signed(n: int) -> Seq<char> {
    if n < 0 {
        seq!['-'] + dec((-n) as nat)
    } else {
        dec(n as nat)
    }
}

fn digit(d: u64) -> (c: char)
    requires
        d < 10,
    ensures
        c == digit_char(d as nat),
{
    ((48 + d) as u8) as char
}

/// Appends the decimal representation of `n` to `s`.
pub fn push_decimal(s: &mut String, n: u64)
    ensures
        final(s)@ == old(s)@ + dec(n as nat),
    decreases n,
{
    if n < 10 {
        push_char(s, digit(n));
        assert(old(s)@.push(digit_char(n as nat)) =~= old(s)@ + dec(n as nat));
    } else {
        push_decimal(s, n / 10);
        let ghost mid = s@;
        push_char(s, digit(n % 10));
        assert(mid.push(digit_char((n % 10) as nat)) =~= old(s)@ + dec(n as nat));
    }
}

/// The decimal representation of `n`.
pub fn format_u64(n: u64) -> (s: String)
    ensures
        s@ == dec(n as nat),
{
    let mut s = String::new();
    push_decimal(&mut s, n);
    assert(Seq::<char>::empty() + dec(n as nat) =~= dec(n as nat));
    s
}

/// The decimal representation of a signed `n`.
pub fn format_i64(n: i64) -> (s: String)
    ensures
        s@ == dec_signed(n as int),
{
    let mut s = String::new();
    if n < 0 {
        push_char(&mut s, '-');
        let magnitude: u64 = if n == i64::MIN {
            9223372036854775808u64
        } else {
            (-n) as u64
        };
        push_decimal(&mut s, magnitude);
    } else {
        push_decimal(&mut s, n as u64);
        assert(Seq::<char>::empty() + dec(n as nat) =~= dec(n as nat));
    }
    s
}

// ==================== Byte sizes ====================

/// One kibibyte.
pub const KB: u64 = 1024;
/// One mebibyte.
pub const MB: u64 = 1048576;
/// One gibibyte.
pub const GB: u64 = 1073741824;
/// One tebibyte.
pub const TB: u64 = 1099511627776;

/// 2^53: the integers below it are exactly representable as `f64`.
pub const F64_EXACT_LIMIT: u64 = 9007199254740992;

/// The spacing of `f64` values around `b`: 1 below 2^53, doubling with
/// each doubling of `b` above it.
pub open spec fn f64_spacing(b: nat) -> nat
    decreases b,
{
    if b < F64_EXACT_LIMIT {
        1
    } else {
        2 * f64_spacing(b / 2)
    }
}

/// `b` converted to `f64`: rounded to the nearest multiple of the spacing,
/// ties to an even multiple.
pub open spec fn f64_round(b: nat) -> nat {
    let p = f64_spacing(b);
    let q = b / p;
    let r = b % p;
    if r * 2 > p || (r * 2 == p && q % 2 == 1) {
        (q + 1) * p
    } else {
        q * p
    }
}

/// `num / unit` in hundredths, rounded to nearest, ties to even.
pub open spec fn hundredths(num: nat, unit: nat) -> nat {
    let t = num * 100;
    let q = t / unit;
    let r = t % unit;
    if r * 2 > unit || (r * 2 == unit && q % 2 == 1) {
        q + 1
    } else {
        q
    }
}

/// `num / unit` written with exactly two decimals.
pub open spec fn fixed2(num: nat, unit: nat) -> Seq<char> {
    let h = hundredths(num, unit);
    dec(h / 100) + seq!['.', digit_char((h % 100) / 10), digit_char(h % 10)]
}

/// The human-readable size of `b` bytes in binary units (B, KB, MB, GB, TB):
/// a whole number of bytes below 1 KB, else the size in the largest unit not
/// above it, with two decimals, as `f64` arithmetic computes it.
pub open spec fn size_text(b: nat) -> Seq<char> {
    if b >= TB {
        fixed2(f64_round(b), TB as nat) + " TB"@
    } else if b >= GB {
        fixed2(f64_round(b), GB as nat) + " GB"@
    } else if b >= MB {
        fixed2(f64_round(b), MB as nat) + " MB"@
    } else if b >= KB {
        fixed2(f64_round(b), KB as nat) + " KB"@
    } else {
        dec(b) + " B"@
    }
}

/// Rounds `b` as its conversion to `f64` does.
fn round_like_f64(b: u64) -> (r: u128)
    ensures
        r == f64_round(b as nat),
        r <= 2 * (b as nat) + 1,
{
    if b < F64_EXACT_LIMIT {
        assert(f64_spacing(b as nat) == 1);
        assert((b as nat) / 1 == b && (b as nat) % 1 == 0);
        return b as u128;
    }
    let mut t: u64 = b;
    let mut p: u64 = 1;
    while t >= F64_EXACT_LIMIT
        invariant
            1 <= p <= b,
            t as nat == (b as nat) / (p as nat),
            p * t <= b,
            f64_spacing(b as nat) == p * f64_spacing(t as nat),
        decreases t,
    {
        proof {
            vstd::arithmetic::div_mod::lemma_div_denominator(b as int, p as int, 2);
            assert(f64_spacing(t as nat) == 2 * f64_spacing((t / 2) as nat));
            assert(p * (2 * f64_spacing((t / 2) as nat)) == (p * 2) * f64_spacing((t / 2) as nat)) by (nonlinear_arith);
            assert(p * t >= p * 2) by (nonlinear_arith)
                requires
                    t >= 2,
                    p >= 1,
            ;
            assert((p * 2) * (t / 2) <= p * t) by (nonlinear_arith)
                requires
                    p >= 1,
                    t >= 0,
            ;
        }
        t = t / 2;
        p = p * 2;
    }
    assert(f64_spacing(t as nat) == 1);
    assert(f64_spacing(b as nat) == p as nat) by (nonlinear_arith)
        requires
            f64_spacing(b as nat) == p * f64_spacing(t as nat),
            f64_spacing(t as nat) == 1,
    ;
    proof {
        vstd::arithmetic::div_mod::lemma_fundamental_div_mod(b as int, p as int);
    }
    let q = t as u128;
    let pw = p as u128;
    assert(q * pw == (p as int) * (t as int)) by (nonlinear_arith)
        requires
            q == t,
            pw == p,
    ;
    let r = (b as u128) - q * pw;
    assert(r == (b as nat) % (p as nat));
    assert(q == (b as nat) / (f64_spacing(b as nat)));
    assert(r == (b as nat) % (f64_spacing(b as nat)));
    if r * 2 > pw || (r * 2 == pw && q % 2 == 1) {
        assert((q + 1) * pw == q * pw + pw) by (nonlinear_arith);
        assert(r * 2 <= 2 * pw);
        (q + 1) * pw
    } else {
        q * pw
    }
}

/// `num / unit` in hundredths, rounded to nearest with ties to even.
fn hundredths_exec(num: u128, unit: u64) -> (h: u128)
    requires
        unit > 0,
        num <= 73786976294838206464u128,
    ensures
        h == hundredths(num as nat, unit as nat),
        h <= (num as nat * 100) / (unit as nat) + 1,
{
    let t = num * 100;
    let q = t / (unit as u128);
    let r = t % (unit as u128);
    assert(q <= t) by (nonlinear_arith)
        requires
            q == t / (unit as u128),
            unit > 0,
            t >= 0,
    ;
    if r * 2 > (unit as u128) || (r * 2 == (unit as u128) && q % 2 == 1) {
        q + 1
    } else {
        q
    }
}

/// Appends `num / unit` written with exactly two decimals.
fn push_fixed2(s: &mut String, num: u128, unit: u64)
    requires
        unit >= 1024,
        num <= 73786976294838206464u128,
    ensures
        final(s)@ == old(s)@ + fixed2(num as nat, unit as nat),
{
    let h = hundredths_exec(num, unit);
    let whole = h / 100;
    assert((num as nat * 100) / (unit as nat) <= (num as nat * 100) / 1024) by (nonlinear_arith)
        requires
            unit >= 1024,
            num >= 0,
    ;
    assert(whole <= u64::MAX);
    push_decimal(s, whole as u64);
    let frac = (h % 100) as u64;
    push_char(s, '.');
    push_char(s, digit(frac / 10));
    push_char(s, digit(frac % 10));
    assert(s@ =~= old(s)@ + fixed2(num as nat, unit as nat));
}

/// Human-readable size of a non-negative number of bytes (see `size_text`).
pub fn format_size(bytes: u64) -> (s: String)
    ensures
        s@ == size_text(bytes as nat),
{
    let mut s = String::new();
    if bytes >= KB {
        let rounded = round_like_f64(bytes);
        if bytes >= TB {
            push_fixed2(&mut s, rounded, TB);
            s.append(" TB");
        } else if bytes >= GB {
            push_fixed2(&mut s, rounded, GB);
            s.append(" GB");
        } else if bytes >= MB {
            push_fixed2(&mut s, rounded, MB);
            s.append(" MB");
        } else {
            push_fixed2(&mut s, rounded, KB);
            s.append(" KB");
        }
        assert(s@ =~= size_text(bytes as nat));
    } else {
        push_decimal(&mut s, bytes);
        s.append(" B");
        assert(s@ =~= size_text(bytes as nat));
    }
    s
}

/// The human-readable size of `b` bytes: a negative count is written as it
/// is, in bytes; otherwise as [`size_text`].
pub open spec fn bytes_text(b: int) -> Seq<char> {
    if b < 0 {
        dec_signed(b) + " B"@
    } else {
        size_text(b as nat)
    }
}

/// Human-readable byte size (binary units, 1024 base; see [`bytes_text`]).
pub fn format_bytes(bytes: i64) -> (s: String)
    ensures
        s@ == bytes_text(bytes as int),
{
    if bytes < 0 {
        let mut s = format_i64(bytes);
        s.append(" B");
        return s;
    }
    format_size(bytes as u64)
}

} // verus!
