//! Sizes for people: kilobytes, or megabytes and gigabytes with one decimal.
use vstd::prelude::*;
use crate::number::{decimal, digit_char, digit_to_char, push_decimal};
use crate::text::{append_str, push_char};

verus! {

/// Two to the power `e`.
pub open spec fn two_to(e: nat) -> nat
    decreases e,
{
    if e == 0 {
        1
    } else {
        2 * two_to((e - 1) as nat)
    }
}

/// The number of binary digits of `n`.
pub open spec fn bit_length(n: nat) -> nat
    decreases n,
{
    if n == 0 {
        0
    } else {
        1 + bit_length(n / 2)
    }
}

/// The value of `n as f64`: `n` rounded to 53 significant binary digits,
/// to the nearest, ties to the even one.
pub open spec fn as_double(n: nat) -> nat {
    if bit_length(n) <= 53 {
        n
    } else {
        let u = two_to((bit_length(n) - 53) as nat);
        let q = n / u;
        let r = n % u;
        if r * 2 > u || (r * 2 == u && q % 2 == 1) {
            (q + 1) * u
        } else {
            q * u
        }
    }
}

/// `x / d` in tenths, rounded to the nearest tenth, ties to the even one:
/// what `{:.1}` writes of the exact quotient.
pub open spec fn tenths(x: nat, d: nat) -> nat {
    let q = (x * 10) / d;
    let r = (x * 10) % d;
    if r * 2 > d || (r * 2 == d && q % 2 == 1) {
        q + 1
    } else {
        q
    }
}

/// `format!("{:.1}", t as f64 / 10.0)` for a number of tenths.
pub open spec fn one_decimal(t: nat) -> Seq<char> {
    decimal(t / 10) + seq!['.', digit_char(t % 10)]
}

/// Bytes in a gibibyte and in a mebibyte.
pub open spec fn gib() -> nat {
    1073741824
}

pub open spec fn mib() -> nat {
    1048576
}

/// How a size in bytes is shown: `N.N GB` from a gibibyte on, `N.N MB` from
/// a mebibyte on, whole `N KB` below.
pub open spec fn size_text(bytes: nat) -> Seq<char> {
    if bytes >= gib() {
        one_decimal(tenths(as_double(bytes), gib())) + " GB"@
    } else if bytes >= mib() {
        one_decimal(tenths(as_double(bytes), mib())) + " MB"@
    } else {
        decimal(bytes / 1024) + " KB"@
    }
}

proof fn lemma_bit_length_bound(n: nat, k: nat)
    requires
        n < two_to(k),
    ensures
        bit_length(n) <= k,
    decreases k,
{
    if k > 0 && n > 0 {
        lemma_bit_length_bound(n / 2, (k - 1) as nat);
    }
}

proof fn lemma_two_to_64()
    ensures
        two_to(64) == 0x1_0000_0000_0000_0000,
        two_to(11) == 2048,
{
    reveal_with_fuel(two_to, 65);
}

proof fn lemma_two_to_monotone(a: nat, b: nat)
    requires
        a <= b,
    ensures
        two_to(a) <= two_to(b),
        two_to(a) >= 1,
    decreases b,
{
    if a < b {
        lemma_two_to_monotone(a, (b - 1) as nat);
    } else if b > 0 {
        lemma_two_to_monotone(0, (b - 1) as nat);
    }
}

fn rounded_to_double(n: u64) -> (r: u128)
    ensures
        r == as_double(n as nat),
        r <= 0x1_0000_0000_0000_0800,
{
    proof {
        lemma_two_to_64();
        lemma_bit_length_bound(n as nat, 64);
    }
    let mut bits: u64 = 0;
    let mut m: u64 = n;
    while m > 0
        invariant
            bits + bit_length(m as nat) == bit_length(n as nat),
            bit_length(n as nat) <= 64,
        decreases m,
    {
        m = m / 2;
        bits = bits + 1;
    }
    if bits <= 53 {
        return n as u128;
    }
    let e = bits - 53;
    let mut u: u128 = 1;
    let mut k: u64 = 0;
    while k < e
        invariant
            k <= e,
            e <= 11,
            u == two_to(k as nat),
            u <= 2048,
        decreases e - k,
    {
        proof {
            lemma_two_to_64();
            lemma_two_to_monotone(k as nat + 1, 11);
        }
        u = u * 2;
        k = k + 1;
    }
    proof {
        lemma_two_to_monotone(0, k as nat);
    }
    let big: u128 = n as u128;
    let q: u128 = big / u;
    let rem: u128 = big % u;
    assert(q * u + rem == big && rem < u && q <= big) by (nonlinear_arith)
        requires
            q == big / u,
            rem == big % u,
            u >= 1,
    ;
    assert((q + 1) * u <= big + u) by (nonlinear_arith)
        requires
            q * u + rem == big,
    ;
    if rem * 2 > u || (rem * 2 == u && q % 2 == 1) {
        (q + 1) * u
    } else {
        q * u
    }
}

fn push_one_decimal(out: &mut String, t: u128)
    requires
        t <= u64::MAX,
    ensures
        final(out)@ == old(out)@ + one_decimal(t as nat),
{
    push_decimal(out, (t / 10) as u64);
    push_char(out, '.');
    push_char(out, digit_to_char((t % 10) as u64));
    assert(final(out)@ =~= old(out)@ + one_decimal(t as nat));
}

fn tenths_of(x: u128, d: u128) -> (r: u128)
    requires
        x <= 0x1_0000_0000_0000_0800,
        1048576 <= d <= 1073741824,
    ensures
        r == tenths(x as nat, d as nat),
        r <= u64::MAX,
{
    let q = (x * 10) / d;
    let rem = (x * 10) % d;
    assert(q <= (x as int * 10) / 1048576) by (nonlinear_arith)
        requires
            q == (x as int * 10) / (d as int),
            d >= 1048576,
            x >= 0,
    ;
    assert(rem < d) by (nonlinear_arith)
        requires
            rem == (x as int * 10) % (d as int),
            d >= 1,
    ;
    if rem * 2 > d || (rem * 2 == d && q % 2 == 1) {
        q + 1
    } else {
        q
    }
}

/// Formats a size in bytes as the window shows it: `N.N GB`, `N.N MB` or
/// `N KB`, the first two rounded as `{:.1}` rounds the `f64` quotient.
pub fn format_size(bytes: u64) -> (r: String)
    ensures
        r@ == size_text(bytes as nat),
{
    let mut r = String::new();
    if bytes >= 1073741824 {
        let x = rounded_to_double(bytes);
        let t = tenths_of(x, 1073741824);
        push_one_decimal(&mut r, t);
        append_str(&mut r, " GB");
    } else if bytes >= 1048576 {
        let x = rounded_to_double(bytes);
        let t = tenths_of(x, 1048576);
        push_one_decimal(&mut r, t);
        append_str(&mut r, " MB");
    } else {
        push_decimal(&mut r, bytes / 1024);
        append_str(&mut r, " KB");
    }
    r
}

} // verus!
