//! Human-readable file sizes (matches the Ruby `filesize` gem's `pretty`
//! output: KiB/MiB/GiB binary suffixes with two decimals).
//!
//! The value printed is the byte count converted to a double (round to
//! nearest, ties to even, 53 significant bits), divided by a power of 1024,
//! and rounded to two decimals with ties to even. Everything is computed
//! exactly in integers.

use vstd::prelude::*;

use crate::text::{decimal, decimal_string, decimal_string_wide, digit, digit_char, push_char, push_str};

verus! {

/// Color bucket of a file size.
#[derive(Debug, Clone, Copy, PartialEq, Eq, Structural)]
pub enum SizeBucket {
    Small,
    Medium,
    Large,
}

/// Size buckets: at least 512 MiB is large, at least 128 MiB medium.
pub open spec fn bucket_of(bytes: nat) -> SizeBucket {
    if bytes >= 512 * 1024 * 1024 {
        SizeBucket::Large
    } else if bytes >= 128 * 1024 * 1024 {
        SizeBucket::Medium
    } else {
        SizeBucket::Small
    }
}

/// Classifies `bytes` into a color bucket.
pub fn bucket(bytes: u64) -> (r: SizeBucket)
    ensures
        r == bucket_of(bytes as nat),
{
    if bytes >= 512 * 1024 * 1024 {
        SizeBucket::Large
    } else if bytes >= 128 * 1024 * 1024 {
        SizeBucket::Medium
    } else {
        SizeBucket::Small
    }
}

/// 2^53: integers below it are exact doubles.
pub open spec fn two53() -> nat {
    0x20_0000_0000_0000
}

/// The power of two by which `n` must be scaled down to fit in 53 bits.
pub open spec fn f64_scale(n: nat) -> nat
    decreases n,
{
    if n < two53() { 1 } else { 2 * f64_scale(n / 2) }
}

/// `n / d` rounded to the nearest integer, ties to even.
pub open spec fn div_round_even(n: nat, d: nat) -> nat
    recommends
        d > 0,
{
    let q = n / d;
    let r = n % d;
    if 2 * r > d || (2 * r == d && q % 2 == 1) { q + 1 } else { q }
}

/// The value of `n as f64`: `n` rounded to 53 significant bits, ties to even.
pub open spec fn as_f64(n: nat) -> nat {
    div_round_even(n, f64_scale(n)) * f64_scale(n)
}

/// 1024^k.
pub open spec fn pow1024(k: nat) -> nat
    decreases k,
{
    if k == 0 { 1 } else { 1024 * pow1024((k - 1) as nat) }
}

/// Index into `B, KiB, ..., EiB` reached by dividing `v` by 1024 while the
/// quotient stays at least 1024, starting from unit `k`.
pub open spec fn unit_from(v: nat, k: nat) -> nat
    decreases 6 - k,
{
    if k < 6 && v >= pow1024(k + 1) { unit_from(v, k + 1) } else { k }
}

/// Unit names by index.
pub open spec fn unit_name(k: nat) -> Seq<char> {
    if k == 0 { "B"@ }
    else if k == 1 { "KiB"@ }
    else if k == 2 { "MiB"@ }
    else if k == 3 { "GiB"@ }
    else if k == 4 { "TiB"@ }
    else if k == 5 { "PiB"@ }
    else { "EiB"@ }
}

/// `h / 100` with exactly two decimals, as `{:.2}` prints it.
pub open spec fn two_decimals(h: nat) -> Seq<char> {
    decimal(h / 100) + seq!['.', digit_char((h % 100) / 10), digit_char(h % 10)]
}

/// The unit index used for `bytes` (at least 1024 bytes).
pub open spec fn pretty_unit(bytes: nat) -> nat {
    unit_from(as_f64(bytes), 0)
}

/// The number printed for `bytes`: hundredths of the scaled value, rounded
/// half to even.
pub open spec fn pretty_hundredths(bytes: nat) -> nat {
    div_round_even(as_f64(bytes) * 100, pow1024(pretty_unit(bytes)))
}

/// What `pretty` returns for `bytes`.
pub open spec fn pretty_spec(bytes: nat) -> (Seq<char>, Seq<char>) {
    if bytes < 1024 {
        (decimal(bytes), "B"@)
    } else {
        (two_decimals(pretty_hundredths(bytes)), unit_name(pretty_unit(bytes)))
    }
}

proof fn lemma_pow1024_bounds(k: nat)
    requires
        k <= 7,
    ensures
        pow1024(k) >= 1,
        k >= 1 ==> pow1024(k) >= 1024,
        pow1024(k) <= 0x40_0000_0000_0000_0000nat,
        k <= 6 ==> pow1024(k) <= 0x1000_0000_0000_0000nat,
    decreases k,
{
    assert(pow1024(0) == 1);
    assert(pow1024(1) == 1024);
    assert(pow1024(2) == 0x10_0000);
    assert(pow1024(3) == 0x4000_0000);
    assert(pow1024(4) == 0x100_0000_0000nat);
    assert(pow1024(5) == 0x4_0000_0000_0000nat);
    assert(pow1024(6) == 0x1000_0000_0000_0000nat);
    assert(pow1024(7) == 0x40_0000_0000_0000_0000nat);
}

proof fn lemma_div_halves(n: nat, p: nat)
    requires
        p > 0,
    ensures
        (n / p) / 2 == n / (p * 2),
{
    vstd::arithmetic::div_mod::lemma_div_denominator(n as int, p as int, 2);
}

/// `n` rounded to a double, as an exact integer.
fn to_f64_exact(n: u64) -> (r: u128)
    ensures
        r == as_f64(n as nat),
        r <= 0x2_0000_0000_0000_0000nat,
{
    let mut m: u64 = n;
    let mut p: u128 = 1;
    while m >= 0x20_0000_0000_0000
        invariant
            p >= 1,
            p * 0x10_0000_0000_0000nat <= 0x1_0000_0000_0000_0000nat,
            m as nat == (n as nat) / (p as nat),
            f64_scale(n as nat) == p * f64_scale(m as nat),
        decreases m,
    {
        proof {
            lemma_div_halves(n as nat, p as nat);
            assert(p * 0x20_0000_0000_0000nat <= 0x1_0000_0000_0000_0000nat) by (nonlinear_arith)
                requires
                    m as nat == (n as nat) / (p as nat),
                    p >= 1,
                    m >= 0x20_0000_0000_0000nat,
                    n < 0x1_0000_0000_0000_0000nat,
            {
                assert(p * m <= n) by {
                    vstd::arithmetic::div_mod::lemma_fundamental_div_mod(n as int, p as int);
                }
            }
            let fm = f64_scale((m / 2) as nat);
            assert(f64_scale(m as nat) == 2 * fm);
            assert(p * (2 * fm) == (p * 2) * fm) by (nonlinear_arith);
        }
        m = m / 2;
        p = p * 2;
    }
    let q: u128 = (n as u128) / p;
    let rem: u128 = (n as u128) % p;
    let rounded: u128 = if 2 * rem > p || (2 * rem == p && q % 2 == 1) { q + 1 } else { q };
    assert(q == m);
    assert(f64_scale(m as nat) == 1);
    assert(f64_scale(n as nat) == p) by (nonlinear_arith)
        requires
            f64_scale(n as nat) == p * f64_scale(m as nat),
            f64_scale(m as nat) == 1,
    ;
    assert(rounded * p <= 0x2_0000_0000_0000_0000nat) by (nonlinear_arith)
        requires
            rounded <= q + 1,
            q < 0x20_0000_0000_0000nat,
            p * 0x10_0000_0000_0000nat <= 0x1_0000_0000_0000_0000nat,
            p >= 1,
    ;
    rounded * p
}

/// "1.23 KiB" style. Returns (number, unit) for column alignment.
pub fn pretty(bytes: u64) -> (r: (String, &'static str))
    ensures
        r.0@ == pretty_spec(bytes as nat).0,
        r.1@ == pretty_spec(bytes as nat).1,
{
    if bytes < 1024 {
        proof {
            reveal_strlit("B");
        }
        return (decimal_string(bytes), "B");
    }
    let v = to_f64_exact(bytes);
    let mut unit: usize = 0;
    let mut d: u128 = 1;
    proof {
        lemma_pow1024_bounds(0);
    }
    while unit < 6 && v >= d * 1024
        invariant
            unit <= 6,
            d == pow1024(unit as nat),
            d <= 0x1000_0000_0000_0000nat,
            v == as_f64(bytes as nat),
            v <= 0x2_0000_0000_0000_0000nat,
            unit_from(v as nat, 0) == unit_from(v as nat, unit as nat),
        decreases 6 - unit,
    {
        proof {
            lemma_pow1024_bounds((unit + 1) as nat);
        }
        d = d * 1024;
        unit = unit + 1;
    }
    proof {
        lemma_pow1024_bounds(unit as nat);
        lemma_pow1024_bounds((unit + 1) as nat);
    }
    let scaled: u128 = v * 100;
    let q: u128 = scaled / d;
    let rem: u128 = scaled % d;
    let h: u128 = if 2 * rem > d || (2 * rem == d && q % 2 == 1) { q + 1 } else { q };
    let int_part = decimal_string_wide(h / 100);
    let mut s = int_part;
    push_char(&mut s, '.');
    push_char(&mut s, digit(((h % 100) / 10) as u64));
    push_char(&mut s, digit((h % 10) as u64));
    assert(s@ =~= two_decimals(h as nat));
    let name: &'static str = match unit {
        0 => "B",
        1 => "KiB",
        2 => "MiB",
        3 => "GiB",
        4 => "TiB",
        5 => "PiB",
        _ => "EiB",
    };
    proof {
        reveal_strlit("B");
        reveal_strlit("KiB");
        reveal_strlit("MiB");
        reveal_strlit("GiB");
        reveal_strlit("TiB");
        reveal_strlit("PiB");
        reveal_strlit("EiB");
    }
    (s, name)
}

/// Raw bytes as a number string (used with `--non-human-readable`).
pub fn raw(bytes: u64) -> (r: String)
    ensures
        r@ == decimal(bytes as nat),
{
    decimal_string(bytes)
}

} // verus!
