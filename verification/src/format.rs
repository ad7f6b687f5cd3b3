//! Human-readable byte counts.
use vstd::prelude::*;
use vstd::arithmetic::power2::{pow2, lemma_pow2_unfold, lemma2_to64, lemma_pow2_adds};
use vstd::arithmetic::div_mod::lemma_div_is_ordered_by_denominator;

use crate::text::{decimal, digit_char, push_char, push_decimal, push_str};

verus! {

/// The number of binary digits of `n` (zero for zero).
pub open spec fn bit_len(n: nat) -> nat
    decreases n,
{
    if n == 0 {
        0
    } else {
        1 + bit_len(n / 2)
    }
}

/// The value an integer takes when converted to `f64`: rounded to 53 significant bits,
/// ties to an even significand (IEEE 754 round-to-nearest-even).
pub open spec fn f64_of(n: nat) -> nat {
    if n < pow2(53) {
        n
    } else {
        let unit = pow2((bit_len(n) - 53) as nat);
        let m = n / unit;
        let rem = n % unit;
        let up = rem * 2 > unit || (rem * 2 == unit && m % 2 == 1);
        (if up {
            m + 1
        } else {
            m
        }) * unit
    }
}

/// `num / den` rounded to the nearest integer, ties to even.
pub open spec fn round_half_even(num: nat, den: nat) -> nat {
    let q = num / den;
    let r = num % den;
    if r * 2 > den || (r * 2 == den && q % 2 == 1) {
        q + 1
    } else {
        q
    }
}

/// `10` to the power `decimals`, for one or two decimals.
pub open spec fn decimal_scale(decimals: nat) -> nat {
    if decimals == 1 {
        10
    } else {
        100
    }
}

/// The fraction digits of `f`: one digit, or two with a leading zero kept.
pub open spec fn fraction_digits(f: nat, decimals: nat) -> Seq<char> {
    if decimals == 1 {
        seq![digit_char(f)]
    } else {
        seq![digit_char(f / 10), digit_char(f % 10)]
    }
}

/// `num / den` written with `decimals` digits after the point, rounded to nearest with
/// ties to even: how `format!("{:.N}", x)` prints an `f64` `x` whose exact value is
/// `num / den`.
pub open spec fn fixed_point(num: nat, den: nat, decimals: nat) -> Seq<char> {
    let scale = decimal_scale(decimals);
    let q = round_half_even(num * scale, den);
    decimal(q / scale) + seq!['.'] + fraction_digits(q % scale, decimals)
}

/// A byte count in the largest binary unit it reaches: `B` as an integer, `KB` and `MB`
/// with one decimal, `GB` and `TB` with two, each from the `f64` quotient of the count
/// (as an `f64`) by the unit.
pub open spec fn format_bytes_spec(b: nat) -> Seq<char> {
    if b >= 1099511627776 {
        fixed_point(f64_of(b), 1099511627776, 2) + " TB"@
    } else if b >= 1073741824 {
        fixed_point(f64_of(b), 1073741824, 2) + " GB"@
    } else if b >= 1048576 {
        fixed_point(f64_of(b), 1048576, 1) + " MB"@
    } else if b >= 1024 {
        fixed_point(f64_of(b), 1024, 1) + " KB"@
    } else {
        decimal(b) + " B"@
    }
}

proof fn lemma_bit_len_upper(n: nat, k: nat)
    requires
        n < pow2(k),
    ensures
        bit_len(n) <= k,
    decreases k,
{
    if n > 0 {
        if k == 0 {
            lemma2_to64();
        } else {
            lemma_pow2_unfold(k);
            lemma_bit_len_upper(n / 2, (k - 1) as nat);
        }
    }
}

proof fn lemma_bit_len_lower(n: nat, k: nat)
    requires
        n >= pow2(k),
    ensures
        bit_len(n) >= k + 1,
    decreases k,
{
    lemma2_to64();
    if k > 0 {
        lemma_pow2_unfold(k);
        lemma_bit_len_lower(n / 2, (k - 1) as nat);
    }
}

proof fn lemma_pow2_53()
    ensures
        pow2(53) == 9007199254740992,
        pow2(64) == 18446744073709551616,
{
    lemma2_to64();
    lemma_pow2_adds(32, 21);
    assert(pow2(21) == 2097152) by {
        lemma_pow2_adds(16, 5);
    }
}

/// `2` to the power `t`, for small `t`.
fn pow2_exec(t: u32) -> (r: u128)
    requires
        t <= 16,
    ensures
        r == pow2(t as nat),
        r <= 65536,
{
    let mut r: u128 = 1;
    let mut i: u32 = 0;
    proof {
        lemma2_to64();
    }
    while i < t
        invariant
            i <= t <= 16,
            r == pow2(i as nat),
            r <= pow2(i as nat),
            pow2(i as nat) <= 65536 ==> r <= 65536,
            forall|j: nat| j <= 16 ==> pow2(j) <= 65536,
        decreases t - i,
    {
        proof {
            lemma_pow2_unfold((i + 1) as nat);
        }
        r = r * 2;
        i = i + 1;
    }
    r
}

proof fn lemma_pow2_small()
    ensures
        forall|j: nat| j <= 16 ==> pow2(j) <= 65536,
{
    lemma2_to64();
    assert forall|j: nat| j <= 16 implies pow2(j) <= 65536 by {
        lemma2_to64();
    }
}

/// Rounding a value below `2^64` up to the next multiple of a power of two stays at
/// most `2^64`.
proof fn lemma_round_up_bound(m: nat, unit: nat, t: nat)
    requires
        unit == pow2(t),
        t <= 64,
        m * unit < pow2(64),
    ensures
        (m + 1) * unit <= pow2(64),
{
    let k = pow2((64 - t) as nat);
    lemma_pow2_adds(t, (64 - t) as nat);
    vstd::arithmetic::power2::lemma_pow2_pos(t);
    assert(unit * k == pow2(64));
    assert((m + 1) * unit <= unit * k) by (nonlinear_arith)
        requires
            m * unit < unit * k,
            unit > 0,
    {
        assert(m < k);
    }
}

/// The `f64` value of an unsigned integer, as an exact integer.
fn f64_value(b: u64) -> (r: u128)
    ensures
        r == f64_of(b as nat),
        r <= 18446744073709551616,
{
    proof {
        lemma_pow2_53();
    }
    if b < 9007199254740992 {
        return b as u128;
    }
    proof {
        lemma_bit_len_upper(b as nat, 64);
        lemma_bit_len_lower(b as nat, 53);
    }
    let mut x: u64 = b;
    let mut len: u32 = 0;
    while x > 0
        invariant
            len as nat + bit_len(x as nat) == bit_len(b as nat),
            bit_len(b as nat) <= 64,
        decreases x,
    {
        x = x / 2;
        len = len + 1;
    }
    let t: u32 = len - 53;
    assert(t <= 11);
    proof {
        lemma_pow2_small();
    }
    let unit = pow2_exec(t);
    let bb: u128 = b as u128;
    assert(unit >= 1) by {
        vstd::arithmetic::power2::lemma_pow2_pos(t as nat);
    }
    let m: u128 = bb / unit;
    let rem: u128 = bb % unit;
    assert(m <= bb) by (nonlinear_arith)
        requires
            m == bb / unit,
            unit >= 1,
    ;
    let up = rem * 2 > unit || (rem * 2 == unit && m % 2 == 1);
    let mm: u128 = if up {
        m + 1
    } else {
        m
    };
    assert(mm * unit <= 18446744073709551616 * 65536) by (nonlinear_arith)
        requires
            mm <= 18446744073709551616,
            unit <= 65536,
    ;
    let r = mm * unit;
    proof {
        assert(m * unit + rem == bb) by (nonlinear_arith)
            requires
                m == bb / unit,
                rem == bb % unit,
                unit >= 1,
        ;
        if up {
            assert(m * unit <= bb) by (nonlinear_arith)
                requires
                    m * unit + rem == bb,
                    rem >= 0,
            ;
            lemma_round_up_bound(m as nat, unit as nat, t as nat);
        }
    }
    r
}

/// Rounds `num / den` to the nearest integer, ties to even.
fn round_half_even_exec(num: u128, den: u128) -> (r: u128)
    requires
        den > 0,
        num <= 1844674407370955161600,
    ensures
        r == round_half_even(num as nat, den as nat),
{
    let q = num / den;
    let rem = num % den;
    assert(q <= num) by (nonlinear_arith)
        requires
            q == num / den,
            den >= 1,
    ;
    assert(rem < den);
    if rem > den - rem || (rem == den - rem && q % 2 == 1) {
        q + 1
    } else {
        q
    }
}

/// Appends `num / den` with one or two decimals, rounded half to even.
fn push_fixed_point(out: &mut String, num: u128, den: u128, decimals: u32)
    requires
        decimals == 1 || decimals == 2,
        den >= 1024,
        num <= 18446744073709551616,
    ensures
        final(out)@ == old(out)@ + fixed_point(num as nat, den as nat, decimals as nat),
{
    let scale: u128 = if decimals == 1 {
        10
    } else {
        100
    };
    let scaled: u128 = num * scale;
    assert(scaled <= 1844674407370955161600);
    let q = round_half_even_exec(scaled, den);
    proof {
        lemma_div_is_ordered_by_denominator(scaled as int, 1024, den as int);
    }
    assert(q <= scaled / 1024 + 1);
    let whole: u128 = q / scale;
    let frac: u128 = q % scale;
    assert(whole <= q);
    push_decimal(out, whole as u64);
    push_char(out, '.');
    let ghost before_frac = out@;
    if decimals == 1 {
        let c: char = ((frac as u8) + 48) as char;
        assert(c == digit_char(frac as nat));
        push_char(out, c);
    } else {
        let hi: char = (((frac / 10) as u8) + 48) as char;
        let lo: char = (((frac % 10) as u8) + 48) as char;
        assert(hi == digit_char((frac / 10) as nat));
        assert(lo == digit_char((frac % 10) as nat));
        push_char(out, hi);
        push_char(out, lo);
    }
    assert(out@ =~= old(out)@ + fixed_point(num as nat, den as nat, decimals as nat));
}

/// A byte count as text: `"512 B"`, `"1.5 KB"`, `"2.0 MB"`, `"1.25 GB"`, `"3.00 TB"`.
pub fn format_bytes(bytes: u64) -> (out: String)
    ensures
        out@ == format_bytes_spec(bytes as nat),
{
    let mut out = String::new();
    if bytes >= 1099511627776 {
        let v = f64_value(bytes);
        push_fixed_point(&mut out, v, 1099511627776, 2);
        push_str(&mut out, " TB");
    } else if bytes >= 1073741824 {
        let v = f64_value(bytes);
        push_fixed_point(&mut out, v, 1073741824, 2);
        push_str(&mut out, " GB");
    } else if bytes >= 1048576 {
        let v = f64_value(bytes);
        push_fixed_point(&mut out, v, 1048576, 1);
        push_str(&mut out, " MB");
    } else if bytes >= 1024 {
        let v = f64_value(bytes);
        push_fixed_point(&mut out, v, 1024, 1);
        push_str(&mut out, " KB");
    } else {
        push_decimal(&mut out, bytes);
        push_str(&mut out, " B");
    }
    assert(out@ =~= format_bytes_spec(bytes as nat));
    out
}

} // verus!
