//! Human-readable byte counts.
use crate::text;
use crate::text::{push_decimal, push_digit};
use vstd::prelude::*;
use vstd::string::StringExecFns;

verus! {

/// Double precision holds every integer up to this one, and leaves some out from there on.
pub const EXACT_LIMIT: u64 = 9007199254740992;

/// Index of the largest unit, the petabyte.
pub const LAST_UNIT: usize = 5;

/// `n / d` rounded to the nearest integer, to the even one where two are equally near.
pub open spec fn half_even(n: nat, d: nat) -> nat {
    let q = n / d;
    let r = n % d;
    if 2 * r < d {
        q
    } else if 2 * r > d {
        q + 1
    } else if q % 2 == 0 {
        q
    } else {
        q + 1
    }
}

/// Distance between neighbouring double-precision numbers around `n`, at least one.
pub open spec fn float_step(n: nat) -> nat
    decreases n,
{
    if n < EXACT_LIMIT {
        1
    } else {
        2 * float_step(n / 2)
    }
}

/// The double-precision number nearest to `n`.
pub open spec fn nearest_double(n: nat) -> nat {
    half_even(n, float_step(n)) * float_step(n)
}

/// Bytes in one unit: the powers of 1024.
pub open spec fn unit_size(unit: nat) -> nat
    decreases unit,
{
    if unit == 0 {
        1
    } else {
        1024 * unit_size((unit - 1) as nat)
    }
}

/// The unit that `v` bytes are shown in: the largest one, up to the petabyte, that fits in `v`.
pub open spec fn unit_for(v: nat) -> nat {
    if v >= unit_size(5) {
        5
    } else if v >= unit_size(4) {
        4
    } else if v >= unit_size(3) {
        3
    } else if v >= unit_size(2) {
        2
    } else if v >= unit_size(1) {
        1
    } else {
        0
    }
}

/// The unit's symbol.
pub open spec fn unit_symbol(unit: nat) -> Seq<char> {
    if unit == 0 {
        "B"@
    } else if unit == 1 {
        "KB"@
    } else if unit == 2 {
        "MB"@
    } else if unit == 3 {
        "GB"@
    } else if unit == 4 {
        "TB"@
    } else {
        "PB"@
    }
}

/// `v` bytes in hundredths of `unit`.
pub open spec fn hundredths(v: nat, unit: nat) -> nat {
    half_even(v * 100, unit_size(unit))
}

/// `h` hundredths, written with two decimals.
pub open spec fn two_decimals(h: nat) -> Seq<char> {
    text::decimal(h / 100) + seq!['.', text::digit_char(h / 10 % 10), text::digit_char(h % 10)]
}

/// The text for a count of bytes: a whole number of bytes below one kilobyte, two decimals of
/// the fitting unit from there on. Counts are taken in double precision.
pub open spec fn bytes_text(bytes: nat) -> Seq<char> {
    let v = nearest_double(bytes);
    let unit = unit_for(v);
    let number = if unit == 0 {
        text::decimal(v)
    } else {
        two_decimals(hundredths(v, unit))
    };
    number + " "@ + unit_symbol(unit)
}

proof fn float_step_bounds(n: nat)
    ensures
        float_step(n) >= 1,
        n >= EXACT_LIMIT ==> float_step(n) * 4503599627370496 <= n,
        n < EXACT_LIMIT ==> float_step(n) == 1,
    decreases n,
{
    if n >= EXACT_LIMIT {
        float_step_bounds(n / 2);
    }
}

fn step_around(n: u64) -> (step: u64)
    ensures
        step == float_step(n as nat),
        1 <= step <= 4096,
    decreases n,
{
    proof {
        float_step_bounds(n as nat);
    }
    if n < EXACT_LIMIT {
        1
    } else {
        proof {
            float_step_bounds((n / 2) as nat);
        }
        2 * step_around(n / 2)
    }
}

fn divide_half_even(n: u128, d: u128) -> (q: u128)
    requires
        0 < d <= 0x1_0000_0000_0000_0000,
        n <= 0x100_0000_0000_0000_0000,
    ensures
        q == half_even(n as nat, d as nat),
{
    let q: u128 = n / d;
    let r: u128 = n % d;
    assert(q <= n) by (nonlinear_arith)
        requires
            d > 0,
            q == n / d,
    ;
    assert(r < d) by (nonlinear_arith)
        requires
            d > 0,
            r == n % d,
    ;
    if 2 * r < d {
        q
    } else if 2 * r > d {
        q + 1
    } else if q % 2 == 0 {
        q
    } else {
        q + 1
    }
}

/// What rounding to the nearest means: the result is at most half a divisor away.
proof fn half_even_is_nearest(n: nat, d: nat)
    requires
        d > 0,
    ensures
        2 * (half_even(n, d) * d) <= 2 * n + d,
        2 * n <= 2 * (half_even(n, d) * d) + d,
{
    let q = n / d;
    let r = n % d;
    assert(n == q * d + r && r < d && (q + 1) * d == q * d + d) by (nonlinear_arith)
        requires
            d > 0,
            q == n / d,
            r == n % d,
    ;
}

fn as_double(n: u64) -> (v: u128)
    ensures
        v == nearest_double(n as nat),
        v <= 0x1_0000_0000_0000_1000,
{
    let step: u64 = step_around(n);
    let q: u128 = divide_half_even(n as u128, step as u128);
    proof {
        half_even_is_nearest(n as nat, step as nat);
        assert(0 <= q * step);
    }
    q * (step as u128)
}

proof fn unit_sizes()
    ensures
        unit_size(0) == 1,
        unit_size(1) == 1024,
        unit_size(2) == 1048576,
        unit_size(3) == 1073741824,
        unit_size(4) == 1099511627776,
        unit_size(5) == 1125899906842624,
{
    reveal_with_fuel(unit_size, 6);
}

fn symbol(unit: usize) -> (name: &'static str)
    requires
        unit <= LAST_UNIT,
    ensures
        name@ == unit_symbol(unit as nat),
{
    match unit {
        0 => "B",
        1 => "KB",
        2 => "MB",
        3 => "GB",
        4 => "TB",
        _ => "PB",
    }
}

/// Writes a count of bytes for a human reader.
pub fn format_bytes(bytes: u64) -> (text: String)
    ensures
        text@ == bytes_text(bytes as nat),
{
    proof {
        unit_sizes();
    }
    let v: u128 = as_double(bytes);
    let mut size: u128 = 1;
    let mut unit: usize = 0;
    while unit < LAST_UNIT && v >= size * 1024
        invariant
            unit <= LAST_UNIT,
            size == unit_size(unit as nat),
            1 <= size <= 1125899906842624,
            unit > 0 ==> v >= size,
            unit_size(0) == 1,
            unit_size(1) == 1024,
            unit_size(2) == 1048576,
            unit_size(3) == 1073741824,
            unit_size(4) == 1099511627776,
            unit_size(5) == 1125899906842624,
        decreases LAST_UNIT - unit,
    {
        size = size * 1024;
        unit = unit + 1;
    }
    assert(unit == unit_for(v as nat));
    let mut text: String = String::new();
    if unit == 0 {
        push_decimal(&mut text, v as u64);
        assert(text@ =~= text::decimal(v as nat));
    } else {
        let h: u128 = divide_half_even(v * 100, size);
        proof {
            hundredths_fit(v as nat, unit as nat);
        }
        push_decimal(&mut text, (h / 100) as u64);
        text.push('.');
        push_digit(&mut text, (h / 10 % 10) as u64);
        push_digit(&mut text, (h % 10) as u64);
        assert(text@ =~= two_decimals(h as nat));
    }
    text.append(" ");
    text.append(symbol(unit));
    text
}

proof fn hundredths_fit(v: nat, unit: nat)
    requires
        unit == unit_for(v),
        unit > 0,
        v <= 0x1_0000_0000_0000_1000,
    ensures
        hundredths(v, unit) <= 1800000,
{
    unit_sizes();
    let h = hundredths(v, unit);
    let size = unit_size(unit);
    half_even_is_nearest(v * 100, size);
    assert(h <= 1800000) by (nonlinear_arith)
        requires
            2 * (h * size) <= 2 * (v * 100) + size,
            size > 0,
            v < 17000 * size,
    ;
}

/// Counts that double precision holds exactly are not altered by it.
pub proof fn small_counts_are_exact(bytes: nat)
    requires
        bytes < EXACT_LIMIT,
    ensures
        nearest_double(bytes) == bytes,
{
    assert(float_step(bytes) == 1);
    assert(bytes / 1 == bytes && bytes % 1 == 0);
}

/// Double precision moves no 64-bit count by more than 1024 bytes.
pub proof fn counts_are_close(bytes: u64)
    ensures
        bytes - 1024 <= nearest_double(bytes as nat) <= bytes + 1024,
{
    let n = bytes as nat;
    float_step_bounds(n);
    half_even_is_nearest(n, float_step(n));
    if n >= EXACT_LIMIT {
        step_is_small(n);
    }
}

proof fn step_is_small(n: nat)
    requires
        n <= u64::MAX,
    ensures
        float_step(n) <= 2048,
{
    reveal_with_fuel(float_step, 13);
}

/// The number shown is the nearest one with two decimals: it is off by at most half a hundredth
/// of its unit.
pub proof fn shown_number_is_nearest(v: nat)
    ensures
        2 * hundredths(v, unit_for(v)) * unit_size(unit_for(v)) <= 200 * v + unit_size(unit_for(v)),
        200 * v <= 2 * hundredths(v, unit_for(v)) * unit_size(unit_for(v)) + unit_size(unit_for(v)),
{
    unit_sizes();
    let h = hundredths(v, unit_for(v));
    let size = unit_size(unit_for(v));
    half_even_is_nearest(v * 100, size);
    assert(2 * h * size == 2 * (h * size)) by (nonlinear_arith);
}

/// Below the largest unit, the number shown never exceeds 1024.00; from the kilobyte on it is
/// never below 1.00.
pub proof fn shown_number_is_in_range(v: nat)
    ensures
        unit_for(v) < LAST_UNIT ==> hundredths(v, unit_for(v)) <= 102400,
        unit_for(v) > 0 ==> hundredths(v, unit_for(v)) >= 100,
{
    unit_sizes();
    let unit = unit_for(v);
    let size = unit_size(unit);
    let h = hundredths(v, unit);
    half_even_is_nearest(v * 100, size);
    if unit < LAST_UNIT {
        assert(h <= 102400) by (nonlinear_arith)
            requires
                2 * (h * size) <= 2 * (v * 100) + size,
                v < 1024 * size,
                size > 0,
        ;
    }
    if unit > 0 {
        assert(h >= 100) by (nonlinear_arith)
            requires
                2 * (v * 100) <= 2 * (h * size) + size,
                v >= size,
                size > 0,
        ;
    }
}

/// Below one kilobyte the count itself is shown.
pub proof fn single_bytes_are_shown_in_full(bytes: u64, text: String)
    requires
        call_ensures(format_bytes, (bytes,), text),
        bytes < 1024,
    ensures
        text@ == text::decimal(bytes as nat) + " "@ + "B"@,
{
    unit_sizes();
    small_counts_are_exact(bytes as nat);
}

/// What stands for a count from one kilobyte on: the number of hundredths of the unit that is
/// nearest to it, the even one of two, with a point before the last two digits, and the unit.
pub open spec fn shows_in_unit(
    shown: Seq<char>,
    v: nat,
    size: nat,
    symbol: Seq<char>,
    h: nat,
) -> bool {
    &&& shown == text::decimal(h / 100) + "."@ + text::decimal(h / 10 % 10) + text::decimal(h % 10)
        + " "@ + symbol
    &&& 2 * (h * size) <= 200 * v + size
    &&& 200 * v <= 2 * (h * size) + size
    &&& (2 * (h * size) == 200 * v + size || 200 * v == 2 * (h * size) + size) ==> h % 2 == 0
}

/// The unit and its size for each range of counts.
pub open spec fn unit_range(v: nat, size: nat, symbol: Seq<char>) -> bool {
    ||| 1024 <= v < 1048576 && size == 1024 && symbol == "KB"@
    ||| 1048576 <= v < 1073741824 && size == 1048576 && symbol == "MB"@
    ||| 1073741824 <= v < 1099511627776 && size == 1073741824 && symbol == "GB"@
    ||| 1099511627776 <= v < 1125899906842624 && size == 1099511627776 && symbol == "TB"@
    ||| 1125899906842624 <= v && size == 1125899906842624 && symbol == "PB"@
}

proof fn shown_in_unit(v: nat, size: nat, symbol: Seq<char>) -> (h: nat)
    requires
        unit_range(v, size, symbol),
    ensures
        h == hundredths(v, unit_for(v)),
        shows_in_unit(
            two_decimals(h) + " "@ + unit_symbol(unit_for(v)),
            v,
            size,
            symbol,
            h,
        ),
{
    unit_sizes();
    let h = hundredths(v, unit_for(v));
    assert(size == unit_size(unit_for(v)));
    assert(symbol == unit_symbol(unit_for(v)));
    half_even_is_nearest(v * 100, size);
    if 2 * (h * size) == 200 * v + size || 200 * v == 2 * (h * size) + size {
        half_even_ties(v * 100, size);
    }
    reveal_strlit(".");
    text::decimal_steps(h / 10 % 10);
    text::decimal_steps(h % 10);
    assert(two_decimals(h) =~= text::decimal(h / 100) + "."@ + text::decimal(h / 10 % 10)
        + text::decimal(h % 10));
    h
}

proof fn half_even_ties(n: nat, d: nat)
    requires
        d > 0,
        2 * (half_even(n, d) * d) == 2 * n + d || 2 * n == 2 * (half_even(n, d) * d) + d,
    ensures
        half_even(n, d) % 2 == 0,
{
    let q = n / d;
    let r = n % d;
    assert(n == q * d + r && r < d && (q + 1) * d == q * d + d) by (nonlinear_arith)
        requires
            d > 0,
            q == n / d,
            r == n % d,
    ;
}

/// From one kilobyte up to nine petabytes the nearest hundredth of the fitting unit is shown.
pub proof fn exact_counts_are_shown_to_the_hundredth(
    bytes: u64,
    size: nat,
    symbol: Seq<char>,
    text: String,
)
    requires
        call_ensures(format_bytes, (bytes,), text),
        bytes < 9007199254740992,
        unit_range(bytes as nat, size, symbol),
    ensures
        exists|h: nat| #[trigger] shows_in_unit(text@, bytes as nat, size, symbol, h),
{
    small_counts_are_exact(bytes as nat);
    let h = shown_in_unit(bytes as nat, size, symbol);
    assert(shows_in_unit(text@, bytes as nat, size, symbol, h));
}

/// Counts beyond that are taken to the nearest multiple of a power of two that leaves 53 binary
/// digits, the one with an even factor of two, and then shown in petabytes.
pub proof fn huge_counts_are_rounded_to_53_digits(bytes: u64, step: nat, text: String)
    requires
        call_ensures(format_bytes, (bytes,), text),
        step == 2 || step == 4 || step == 8 || step == 16 || step == 32 || step == 64 || step
            == 128 || step == 256 || step == 512 || step == 1024 || step == 2048,
        4503599627370496 * step <= bytes < 9007199254740992 * step,
    ensures
        exists|q: nat, h: nat| #[trigger]
            shows_in_unit(text@, q * step, 1125899906842624, "PB"@, h) && 2 * (q * step) <= 2
                * bytes + step && 2 * bytes <= 2 * (q * step) + step && ((2 * (q * step) == 2
                * bytes + step || 2 * bytes == 2 * (q * step) + step) ==> q % 2 == 0),
{
    let n = bytes as nat;
    assert(float_step(n) == step) by {
        reveal_with_fuel(float_step, 13);
    }
    let q = half_even(n, step);
    half_even_is_nearest(n, step);
    if 2 * (q * step) == 2 * n + step || 2 * n == 2 * (q * step) + step {
        half_even_ties(n, step);
    }
    let h = shown_in_unit(q * step, 1125899906842624, "PB"@);
    assert(shows_in_unit(text@, q * step, 1125899906842624, "PB"@, h));
}

} // verus!
