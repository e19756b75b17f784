//! Sizes, lengths and rates as people read them. Numbers with a decimal are written as the
//! nearest double-precision number would be, with one digit behind the point.
use vstd::prelude::*;
use vstd::string::*;

use crate::text::{decimal, decimal_padded, push_decimal, to_decimal, to_decimal_padded};

verus! {

/// `n / d`, rounded to the nearest whole number; halfway between two, to the even one.
pub open spec fn half_even(n: nat, d: nat) -> nat
    recommends
        d > 0,
{
    let q = n / d;
    let r = n % d;
    if 2 * r < d || (2 * r == d && q % 2 == 0) {
        q
    } else {
        q + 1
    }
}

fn round_half_even(n: u128, d: u128) -> (r: u128)
    requires
        d > 0,
        n < 0x1_0000_0000_0000_0000_0000,
        d < 0x1_0000_0000_0000_0000,
    ensures
        r == half_even(n as nat, d as nat),
{
    let q: u128 = n / d;
    let r: u128 = n % d;
    proof {
        assert(q <= n) by (nonlinear_arith)
            requires
                q == n / d,
                d > 0,
        ;
        assert(r < d) by (nonlinear_arith)
            requires
                r == n % d,
                d > 0,
        ;
    }
    if 2 * r < d || (2 * r == d && q % 2 == 0) {
        q
    } else {
        q + 1
    }
}

/// How far apart double-precision numbers are around `n`, which has 64 binary digits at most, of
/// which 53 are kept; `step` is the least distance that comes into question.
pub open spec fn double_step(n: nat, step: nat) -> nat
    decreases 4096 - step,
{
    if n < 0x20_0000_0000_0000 * step || step == 0 || step >= 2048 {
        step
    } else {
        double_step(n, step * 2)
    }
}

/// The double-precision number nearest to a whole number below 2^64.
pub open spec fn nearest_double(n: nat) -> nat {
    half_even(n, double_step(n, 1)) * double_step(n, 1)
}

fn to_nearest_double(n: u64) -> (r: u128)
    ensures
        r == nearest_double(n as nat),
        r < 0x2_0000_0000_0000_0000,
        n < 1024 ==> r == n,
{
    let mut step: u128 = 1;
    while step < 2048 && n as u128 >= 0x20_0000_0000_0000 * step
        invariant
            1 <= step < 4096,
            n < 1024 ==> step == 1,
            double_step(n as nat, 1) == double_step(n as nat, step as nat),
        decreases 4096 - step,
    {
        step = step * 2;
    }
    assert(double_step(n as nat, 1) == step);
    let m: u128 = round_half_even(n as u128, step);
    proof {
        let q = n as nat / step as nat;
        assert(q * step <= n) by (nonlinear_arith)
            requires
                q == n as nat / step as nat,
                step > 0,
        ;
        assert(m <= q + 1);
        assert(m * step <= q * step + step) by (nonlinear_arith)
            requires
                m <= q + 1,
                step > 0,
        ;
        if n < 1024 {
            assert(half_even(n as nat, 1) == n);
        }
    }
    m * step
}

/// Which unit a size is written in: bytes, or so many powers of 1024, four at most.
pub open spec fn unit_of(m: nat) -> nat {
    if m < 0x400 {
        0
    } else if m < 0x10_0000 {
        1
    } else if m < 0x4000_0000 {
        2
    } else if m < 0x100_0000_0000 {
        3
    } else {
        4
    }
}

/// How many bytes a unit is.
pub open spec fn unit_size(unit: nat) -> nat {
    if unit == 0 {
        1
    } else if unit == 1 {
        0x400
    } else if unit == 2 {
        0x10_0000
    } else if unit == 3 {
        0x4000_0000
    } else {
        0x100_0000_0000
    }
}

pub open spec fn unit_name(unit: nat) -> Seq<char> {
    if unit == 0 {
        " B"@
    } else if unit == 1 {
        " KB"@
    } else if unit == 2 {
        " MB"@
    } else if unit == 3 {
        " GB"@
    } else {
        " TB"@
    }
}

/// A number of tenths, with a decimal point.
pub open spec fn tenths_text(t: nat) -> Seq<char> {
    decimal(t / 10) + "."@ + decimal(t % 10)
}

/// A size as people read it.
pub open spec fn size_text(bytes: u64) -> Seq<char> {
    let m = nearest_double(bytes as nat);
    let unit = unit_of(m);
    if unit == 0 {
        decimal(bytes as nat) + unit_name(0)
    } else {
        tenths_text(half_even(10 * m, unit_size(unit))) + unit_name(unit)
    }
}

/// Bytes as a compact size (`4.2 MB`).
pub fn human_size(bytes: u64) -> (r: String)
    ensures
        r@ == size_text(bytes),
{
    let m: u128 = to_nearest_double(bytes);
    if m < 0x400 {
        let mut out = to_decimal(bytes);
        out.append(" B");
        return out;
    }
    let (size, name): (u128, &str) = if m < 0x10_0000 {
        (0x400, " KB")
    } else if m < 0x4000_0000 {
        (0x10_0000, " MB")
    } else if m < 0x100_0000_0000 {
        (0x4000_0000, " GB")
    } else {
        (0x100_0000_0000, " TB")
    };
    let t: u128 = round_half_even(10 * m, size);
    assert(t <= 10 * m / size as int + 1);
    assert(10 * m / size as int <= 10 * m / 0x400) by (nonlinear_arith)
        requires
            size >= 0x400,
            m >= 0,
    ;
    let mut out = to_decimal((t / 10) as u64);
    out.append(".");
    push_decimal(&mut out, (t % 10) as u64);
    out.append(name);
    out
}

/// A rate scaled by a power of two until it has 53 binary digits as a number of thousands.
pub open spec fn scaled_rate(n: nat) -> nat
    decreases 0x20_0000_0000_0000 * 1000 - n,
{
    if n == 0 || n >= 0x10_0000_0000_0000 * 1000 {
        n
    } else {
        scaled_rate(n * 2)
    }
}

/// The tenths of kHz of a sample rate in Hz. Halfway between two of them, the double-precision
/// number nearest to the rate in kHz decides, and the even one where that is halfway too.
pub open spec fn khz_tenths(rate: u32) -> nat {
    let x = scaled_rate(rate as nat);
    let m = half_even(x, 1000);
    if rate % 100 != 50 || m * 1000 == x {
        half_even(rate as nat, 100)
    } else if m * 1000 < x {
        (rate / 100) as nat
    } else {
        (rate / 100 + 1) as nat
    }
}

/// A sample rate in kHz as people read it.
pub open spec fn khz_text(rate: u32) -> Seq<char> {
    if rate % 1000 == 0 {
        decimal((rate / 1000) as nat)
    } else {
        tenths_text(khz_tenths(rate))
    }
}

/// A sample rate in Hz as kHz (`44100` is `44.1`, `48000` is `48`).
pub fn khz(rate: u32) -> (r: String)
    ensures
        r@ == khz_text(rate),
{
    if rate % 1000 == 0 {
        return to_decimal((rate / 1000) as u64);
    }
    let mut x: u128 = rate as u128;
    while x < 0x10_0000_0000_0000 * 1000
        invariant
            0 < x < 0x20_0000_0000_0000 * 1000,
            scaled_rate(rate as nat) == scaled_rate(x as nat),
        decreases 0x20_0000_0000_0000 * 1000 - x,
    {
        x = x * 2;
    }
    let m: u128 = round_half_even(x, 1000);
    let t: u64 = if rate % 100 != 50 || m * 1000 == x {
        round_half_even(rate as u128, 100) as u64
    } else if m * 1000 < x {
        (rate / 100) as u64
    } else {
        (rate / 100) as u64 + 1
    };
    let mut out = to_decimal(t / 10);
    out.append(".");
    push_decimal(&mut out, t % 10);
    out
}

/// A length in seconds as `M:SS`, or `H:MM:SS` from an hour on.
pub open spec fn length_text(secs: u32) -> Seq<char> {
    let h = (secs / 3600) as nat;
    let m = (secs / 60 % 60) as nat;
    let s = (secs % 60) as nat;
    if h > 0 {
        decimal(h) + ":"@ + decimal_padded(m, 2) + ":"@ + decimal_padded(s, 2)
    } else {
        decimal(m) + ":"@ + decimal_padded(s, 2)
    }
}

/// Seconds as `M:SS`, or `H:MM:SS` from an hour on.
pub fn length_str(secs: u32) -> (r: String)
    ensures
        r@ == length_text(secs),
{
    let h: u32 = secs / 3600;
    let m: u32 = secs / 60 % 60;
    let s: u32 = secs % 60;
    if h > 0 {
        let mut out = to_decimal(h as u64);
        out.append(":");
        out.append(to_decimal_padded(m as u64, 2).as_str());
        out.append(":");
        out.append(to_decimal_padded(s as u64, 2).as_str());
        out
    } else {
        let mut out = to_decimal(m as u64);
        out.append(":");
        out.append(to_decimal_padded(s as u64, 2).as_str());
        out
    }
}

/// Rounding goes to the nearest whole number, and halfway between two to the even one.
pub proof fn law_rounding_goes_to_the_nearest(n: nat, d: nat)
    requires
        d > 0,
    ensures
        2 * n <= 2 * half_even(n, d) * d + d,
        2 * half_even(n, d) * d <= 2 * n + d,
        2 * n == 2 * half_even(n, d) * d + d || 2 * half_even(n, d) * d == 2 * n + d ==> half_even(
            n,
            d,
        ) % 2 == 0,
{
    let q = n / d;
    let r = n % d;
    assert(n == q * d + r && r < d) by {
        vstd::arithmetic::div_mod::lemma_fundamental_div_mod(n as int, d as int);
        vstd::arithmetic::div_mod::lemma_mod_bound(n as int, d as int);
        assert(d * q == q * d) by (nonlinear_arith);
    }
    assert((q + 1) * d == q * d + d) by (nonlinear_arith);
    assert(2 * q * d == 2 * (q * d)) by (nonlinear_arith);
    assert(2 * (q + 1) * d == 2 * ((q + 1) * d)) by (nonlinear_arith);
    if 2 * r == d && q % 2 == 1 {
        assert((q + 1) % 2 == 0);
    }
}

/// The unit of a size is the greatest that it holds a whole one of.
pub proof fn law_sizes_are_told_in_the_greatest_unit(m: nat)
    ensures
        unit_size(unit_of(m)) <= m || m == 0,
        unit_of(m) < 4 ==> m < unit_size(unit_of(m) + 1),
        unit_size(1) == 1024 * unit_size(0),
        unit_size(2) == 1024 * unit_size(1),
        unit_size(3) == 1024 * unit_size(2),
        unit_size(4) == 1024 * unit_size(3),
{
}

/// A size below 1024 bytes is told to the byte, and a size below 2^53 bytes to the nearest tenth of
/// its unit.
pub proof fn law_sizes_are_told_to_a_tenth(bytes: u64)
    ensures
        bytes < 1024 ==> size_text(bytes) == decimal(bytes as nat) + " B"@,
        1024 <= bytes < 0x20_0000_0000_0000 ==> {
            let unit = unit_of(bytes as nat);
            let tenths = half_even(10 * bytes as nat, unit_size(unit));
            &&& size_text(bytes) == decimal(tenths / 10) + "."@ + decimal(tenths % 10) + unit_name(
                unit,
            )
            &&& 2 * tenths * unit_size(unit) <= 20 * bytes + unit_size(unit)
            &&& 20 * bytes <= 2 * tenths * unit_size(unit) + unit_size(unit)
        },
{
    if bytes < 0x20_0000_0000_0000 {
        assert(double_step(bytes as nat, 1) == 1);
        assert(half_even(bytes as nat, 1) == bytes);
        assert(nearest_double(bytes as nat) == bytes);
        let unit = unit_of(bytes as nat);
        law_rounding_goes_to_the_nearest((10 * bytes) as nat, unit_size(unit));
    }
}

/// A length is told in hours, minutes and seconds that add up to it, the minutes and seconds below
/// sixty and with two digits behind a colon.
pub proof fn law_lengths_add_up(h: nat, m: nat, s: nat, secs: u32)
    requires
        m < 60,
        s < 60,
        secs == 3600 * h + 60 * m + s,
    ensures
        h == 0 ==> length_text(secs) == decimal(m) + ":"@ + decimal_padded(s, 2),
        h > 0 ==> length_text(secs) == decimal(h) + ":"@ + decimal_padded(m, 2) + ":"@
            + decimal_padded(s, 2),
{
    let t = secs as int;
    assert(t / 3600 == h);
    assert(t / 60 == 60 * h + m);
    assert((60 * h + m) % 60 == m);
    assert(t % 60 == s);
}

/// A whole number of kHz is told as such.
pub proof fn law_whole_khz_are_told_whole(khz: u32)
    requires
        khz <= 4_000_000,
    ensures
        khz_text((khz * 1000) as u32) == decimal(khz as nat),
{
    assert((khz * 1000) % 1000 == 0);
    assert((khz * 1000) / 1000 == khz);
}

} // verus!
