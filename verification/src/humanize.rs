//! Counts scaled to a display unit.
//!
//! A byte count is shown in the largest binary unit that it reaches, with two
//! digits after the point. An instruction count is shown in thousands,
//! millions or billions, with as few digits as tell its double-precision
//! quotient apart from every other double.
use crate::binary64::{
    divide_nearest_even, nearest_double, nearest_double_of, nearest_even, quotient_double,
    quotient_double_of, shortest_decimal, shortest_decimal_of,
};
use crate::decimal::{decimal, point_numeral, pow10, push_decimal, push_parts};
use crate::style::{red, styled, RED};
use vstd::prelude::*;
use vstd::string::StringExecFns;

verus! {

/// Bytes in a kilobyte.
pub const KILOBYTE: u64 = 1024;

/// Bytes in a megabyte.
pub const MEGABYTE: u64 = 1_048_576;

/// Bytes in a gigabyte.
pub const GIGABYTE: u64 = 1_073_741_824;

/// The number of hundredths of `unit` that is nearest to the double of
/// `bytes`; halfway between two, the even one.
pub open spec fn hundredths(bytes: nat, unit: nat) -> nat {
    nearest_even(nearest_double(bytes) * 100, unit)
}

/// A byte count in its display unit: plain below a kilobyte, and with two
/// digits after the point from there on.
pub open spec fn size_numeral(bytes: nat) -> Seq<char> {
    if bytes < 1024 {
        decimal(bytes) + "B"@
    } else if bytes < 1_048_576 {
        point_numeral(hundredths(bytes, 1024), 2) + "KB"@
    } else if bytes < 1_073_741_824 {
        point_numeral(hundredths(bytes, 1_048_576), 2) + "MB"@
    } else {
        point_numeral(hundredths(bytes, 1_073_741_824), 2) + "GB"@
    }
}

/// The shortest decimal that rounds to the double quotient of `count` by
/// `unit`, where the count is first rounded to a double itself.
pub open spec fn quotient_numeral(count: nat, unit: nat) -> Seq<char> {
    let double = quotient_double(nearest_double(count), unit);
    let shortest = shortest_decimal(double.mantissa, double.scale);
    point_numeral(shortest.digits, shortest.places)
}

/// An instruction count in its display unit: plain below a thousand, then in
/// thousands, millions and billions.
pub open spec fn instructions_numeral(count: nat) -> Seq<char> {
    if count < 1000 {
        decimal(count)
    } else if count < 1_000_000 {
        quotient_numeral(count, 1000) + "K"@
    } else if count < 1_000_000_000 {
        quotient_numeral(count, 1_000_000) + "M"@
    } else {
        quotient_numeral(count, 1_000_000_000) + "B"@
    }
}

/// The text `title: numeral`.
pub open spec fn titled(title: Seq<char>, numeral: Seq<char>) -> Seq<char> {
    title + ": "@ + numeral
}

/// Appends the two-digit numeral of `bytes` in `unit` to `out`.
fn push_hundredths(out: &mut String, bytes: u64, unit: u64)
    requires
        unit >= 1024,
    ensures
        final(out)@ == old(out)@ + point_numeral(hundredths(bytes as nat, unit as nat), 2),
{
    let double: u128 = nearest_double_of(bytes as u128);
    let h: u128 = divide_nearest_even(double * 100, unit as u128);
    proof {
        reveal_with_fuel(pow10, 3);
        let d: int = double as int;
        let u: int = unit as int;
        assert((d * 100) / u <= d) by (nonlinear_arith)
            requires
                d >= 0,
                u >= 1024,
        ;
    }
    push_parts(out, (h / 100) as u64, (h % 100) as u64, 2);
}

/// Appends `size_numeral(bytes)` to `out`.
pub fn push_size(out: &mut String, bytes: u64)
    ensures
        final(out)@ == old(out)@ + size_numeral(bytes as nat),
{
    if bytes < KILOBYTE {
        push_decimal(out, bytes);
        out.append("B");
        assert(old(out)@ + decimal(bytes as nat) + "B"@ =~= old(out)@ + (decimal(bytes as nat)
            + "B"@));
    } else if bytes < MEGABYTE {
        push_hundredths(out, bytes, KILOBYTE);
        out.append("KB");
        assert(old(out)@ + point_numeral(hundredths(bytes as nat, 1024), 2) + "KB"@ =~= old(out)@
            + (point_numeral(hundredths(bytes as nat, 1024), 2) + "KB"@));
    } else if bytes < GIGABYTE {
        push_hundredths(out, bytes, MEGABYTE);
        out.append("MB");
        assert(old(out)@ + point_numeral(hundredths(bytes as nat, 1_048_576), 2) + "MB"@ =~= old(
            out,
        )@ + (point_numeral(hundredths(bytes as nat, 1_048_576), 2) + "MB"@));
    } else {
        push_hundredths(out, bytes, GIGABYTE);
        out.append("GB");
        assert(old(out)@ + point_numeral(hundredths(bytes as nat, 1_073_741_824), 2) + "GB"@
            =~= old(out)@ + (point_numeral(hundredths(bytes as nat, 1_073_741_824), 2) + "GB"@));
    }
}

/// Appends `quotient_numeral(count, unit)` to `out`.
fn push_quotient(out: &mut String, count: u64, unit: u64)
    requires
        0 < unit <= 1_000_000_000,
        unit <= count,
        count < unit * 1000 || unit == 1_000_000_000,
    ensures
        final(out)@ == old(out)@ + quotient_numeral(count as nat, unit as nat),
{
    let double: u128 = nearest_double_of(count as u128);
    let quotient: (u64, u64) = quotient_double_of(double, unit as u128);
    let parts: (u64, u64, u32) = shortest_decimal_of(quotient.0, quotient.1);
    push_parts(out, parts.0, parts.1, parts.2);
}

/// Appends `instructions_numeral(count)` to `out`.
pub fn push_instructions(out: &mut String, count: u64)
    ensures
        final(out)@ == old(out)@ + instructions_numeral(count as nat),
{
    if count < 1000 {
        push_decimal(out, count);
    } else if count < 1_000_000 {
        push_quotient(out, count, 1000);
        out.append("K");
        assert(old(out)@ + quotient_numeral(count as nat, 1000) + "K"@ =~= old(out)@ + (
        quotient_numeral(count as nat, 1000) + "K"@));
    } else if count < 1_000_000_000 {
        push_quotient(out, count, 1_000_000);
        out.append("M");
        assert(old(out)@ + quotient_numeral(count as nat, 1_000_000) + "M"@ =~= old(out)@ + (
        quotient_numeral(count as nat, 1_000_000) + "M"@));
    } else {
        push_quotient(out, count, 1_000_000_000);
        out.append("B");
        assert(old(out)@ + quotient_numeral(count as nat, 1_000_000_000) + "B"@ =~= old(out)@ + (
        quotient_numeral(count as nat, 1_000_000_000) + "B"@));
    }
}

/// The line `title: size`, with the size in its display unit. A size over
/// `size_limit` is handed to the highlighter and comes back in red wherever
/// styling is on; a size within the limit is never touched.
pub fn humanize_size(title: &str, size_bytes: u64, size_limit: u64) -> (line: String)
    ensures
        size_bytes <= size_limit ==> line@ == titled(title@, size_numeral(size_bytes as nat)),
        size_bytes > size_limit ==> styled(
            line@,
            RED@,
            titled(title@, size_numeral(size_bytes as nat)),
        ),
{
    let mut plain = String::new();
    plain.append(title);
    plain.append(": ");
    push_size(&mut plain, size_bytes);
    assert(plain@ =~= titled(title@, size_numeral(size_bytes as nat)));
    if size_bytes > size_limit {
        red(plain.as_str())
    } else {
        plain
    }
}

/// The line `title: count`, with the count in its display unit. A count over
/// `instructions_limit` is handed to the highlighter and comes back in red
/// wherever styling is on; a count within the limit is never touched.
pub fn humanize_instructions(title: &str, instructions: u64, instructions_limit: u64) -> (line:
    String)
    ensures
        instructions <= instructions_limit ==> line@ == titled(
            title@,
            instructions_numeral(instructions as nat),
        ),
        instructions > instructions_limit ==> styled(
            line@,
            RED@,
            titled(title@, instructions_numeral(instructions as nat)),
        ),
{
    let mut plain = String::new();
    plain.append(title);
    plain.append(": ");
    push_instructions(&mut plain, instructions);
    assert(plain@ =~= titled(title@, instructions_numeral(instructions as nat)));
    if instructions > instructions_limit {
        red(plain.as_str())
    } else {
        plain
    }
}

} // verus!
