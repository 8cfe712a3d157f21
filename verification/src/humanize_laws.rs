//! Where a quotient can be written out exactly, it is shown exactly.
use crate::binary64::{
    Decimal, floor_fits, nearest_double, nearest_even, places_needed, quotient_double, raised,
    reach_below, rounds_to, shortest_decimal, spacing, TWO_52, TWO_53,
};
use crate::binary64_laws::{
    lemma_fits_mean_rounding, lemma_nearest_even, lemma_places_needed, lemma_raised,
    lemma_shortest_decimal,
};
use crate::decimal::{
    decimal, lemma_pow10_grows, padded, parts_numeral, point_numeral, pow10,
};
use crate::humanize::{
    hundredths, instructions_numeral, quotient_numeral, size_numeral, titled,
};
use crate::text::{
    escape_free, lemma_decimal_escape_free, lemma_escape_free_joined,
    lemma_point_numeral_escape_free,
};
use vstd::prelude::*;

verus! {

/// A decimal written with more digits rounds as it did.
pub proof fn lemma_rounds_to_scales(x: nat, ten: nat, m: nat, s: nat, k: nat)
    requires
        rounds_to(x, ten, m, s),
        k >= 1,
    ensures
        rounds_to(x * k, ten * k, m, s),
{
    let low: int = 4 * m * ten - reach_below(m) * ten;
    let high: int = (4 * m * ten + 2 * ten) as int;
    let mid: int = (4 * s * x) as int;
    let kk: int = k as int;
    assert(4 * m * (ten * k) - reach_below(m) * (ten * k) == kk * low) by (nonlinear_arith)
        requires
            low == 4 * m * ten - reach_below(m) * ten,
            kk == k,
    ;
    assert(4 * m * (ten * k) + 2 * (ten * k) == kk * high) by (nonlinear_arith)
        requires
            high == 4 * m * ten + 2 * ten,
            kk == k,
    ;
    assert(4 * s * (x * k) == kk * mid) by (nonlinear_arith)
        requires
            mid == 4 * s * x,
            kk == k,
    ;
    assert(low <= mid ==> kk * low <= kk * mid) by (nonlinear_arith)
        requires
            kk >= 1,
    ;
    assert(low < mid ==> kk * low < kk * mid) by (nonlinear_arith)
        requires
            kk >= 1,
    ;
    assert(mid <= high ==> kk * mid <= kk * high) by (nonlinear_arith)
        requires
            kk >= 1,
    ;
    assert(mid < high ==> kk * mid < kk * high) by (nonlinear_arith)
        requires
            kk >= 1,
    ;
}

/// Where the doubles lie closer together than the decimals of one length,
/// at most one such decimal rounds to a given double.
pub proof fn lemma_one_decimal_rounds(x: nat, y: nat, ten: nat, m: nat, s: nat)
    requires
        rounds_to(x, ten, m, s),
        rounds_to(y, ten, m, s),
        s > ten,
    ensures
        x == y,
{
    let xx: int = x as int;
    let yy: int = y as int;
    let ss: int = s as int;
    let tt: int = ten as int;
    let below: int = (reach_below(m) * ten) as int;
    assert(below <= 2 * tt);
    if xx < yy {
        assert(4 * ss * yy - 4 * ss * xx >= 4 * ss) by (nonlinear_arith)
            requires
                yy >= xx + 1,
                ss >= 0,
        ;
    } else if yy < xx {
        assert(4 * ss * xx - 4 * ss * yy >= 4 * ss) by (nonlinear_arith)
            requires
                xx >= yy + 1,
                ss >= 0,
        ;
    }
}

/// Powers of ten multiply.
pub proof fn lemma_pow10_adds(i: nat, k: nat)
    ensures
        pow10(i + k) == pow10(i) * pow10(k),
    decreases k,
{
    if k == 0 {
        assert(pow10(i) * 1 == pow10(i)) by (nonlinear_arith);
    } else {
        lemma_pow10_adds(i, (k - 1) as nat);
        assert(pow10(i + k) == 10 * pow10((i + k - 1) as nat));
        let a: int = pow10(i) as int;
        let b: int = pow10((k - 1) as nat) as int;
        assert(10 * (a * b) == a * (10 * b)) by (nonlinear_arith);
    }
}

/// Where a count divided by its unit is the decimal `x / 10^places` in
/// lowest terms, the count is a double itself, and the doubles around the
/// quotient lie closer together than the decimals of that length, the
/// quotient is shown as exactly that decimal.
pub proof fn lemma_exact_quotient(count: nat, unit: nat, x: nat, places: nat)
    requires
        1 <= unit <= count < TWO_53,
        x * unit == count * pow10(places),
        places == 0 || x % 10 != 0,
        4 * count * pow10(places) <= unit * TWO_52,
    ensures
        nearest_double(count) == count,
        shortest_decimal(
            quotient_double(count, unit).mantissa,
            quotient_double(count, unit).scale,
        ) == (Decimal { digits: x, places }),
        quotient_numeral(count, unit) == point_numeral(x, places),
{
    let ten = pow10(places);
    lemma_pow10_grows(0, places);
    lemma_small_count_is_double(count);
    let cc: int = count as int;
    let uu: int = unit as int;
    let tt: int = ten as int;
    let xx: int = x as int;
    assert(cc < uu * TWO_52) by (nonlinear_arith)
        requires
            4 * cc * tt <= uu * TWO_52,
            tt >= 1,
            cc >= 1,
    ;
    lemma_raised(count, unit, 1);
    let num = raised(count, unit, 1).0;
    let scale = raised(count, unit, 1).1;
    let nn: int = num as int;
    let sc: int = scale as int;
    assert(nn == cc * sc) by (nonlinear_arith)
        requires
            nn * 1 == cc * sc,
    ;
    lemma_nearest_even(num, unit);
    let m0 = nearest_even(num, unit);
    let mm0: int = m0 as int;
    assert(TWO_52 <= nn / uu < TWO_53) by (nonlinear_arith)
        requires
            uu * TWO_52 <= nn < 2 * (uu * TWO_52),
            uu > 0,
    ;
    assert(sc < TWO_53 && sc >= 4 * tt) by (nonlinear_arith)
        requires
            nn == cc * sc,
            nn < 2 * (uu * TWO_52),
            nn >= uu * TWO_52,
            uu <= cc,
            uu >= 1,
            sc >= 1,
            4 * cc * tt <= uu * TWO_52,
    ;
    let m = quotient_double(count, unit).mantissa;
    let s = quotient_double(count, unit).scale;
    let ss: int = s as int;
    let mm: int = m as int;
    if m0 == TWO_53 {
        assert(mm == TWO_52 && 2 * ss == sc);
        assert(nn < mm0 * uu) by (nonlinear_arith)
            requires
                nn < 2 * (uu * TWO_52),
                mm0 == TWO_53,
        ;
        assert((4 * ss * xx) * uu == 2 * tt * nn) by (nonlinear_arith)
            requires
                xx * uu == cc * tt,
                nn == cc * sc,
                2 * ss == sc,
        ;
        assert((4 * mm * tt) * uu == 2 * tt * (mm0 * uu)) by (nonlinear_arith)
            requires
                2 * mm == mm0,
        ;
        assert(4 * mm * tt - tt <= 4 * ss * xx <= 4 * mm * tt) by (nonlinear_arith)
            requires
                (4 * ss * xx) * uu == 2 * tt * nn,
                (4 * mm * tt) * uu == 2 * tt * (mm0 * uu),
                2 * (mm0 * uu) <= 2 * nn + uu,
                nn < mm0 * uu,
                uu >= 1,
                tt >= 1,
        ;
    } else {
        assert(mm == mm0 && ss == sc);
        assert((4 * ss * xx) * uu == 4 * tt * nn) by (nonlinear_arith)
            requires
                xx * uu == cc * tt,
                nn == cc * sc,
                ss == sc,
        ;
        assert((4 * mm * tt) * uu == 4 * tt * (mm0 * uu)) by (nonlinear_arith)
            requires
                mm == mm0,
        ;
        assert(4 * mm * tt - 2 * tt <= 4 * ss * xx <= 4 * mm * tt + 2 * tt) by (nonlinear_arith)
            requires
                (4 * ss * xx) * uu == 4 * tt * nn,
                (4 * mm * tt) * uu == 4 * tt * (mm0 * uu),
                2 * (mm0 * uu) <= 2 * nn + uu,
                2 * nn <= 2 * (mm0 * uu) + uu,
                uu >= 1,
                tt >= 1,
        ;
        if mm % 2 == 1 {
            assert(4 * mm * tt - 2 * tt < 4 * ss * xx < 4 * mm * tt + 2 * tt) by (nonlinear_arith)
                requires
                    (4 * ss * xx) * uu == 4 * tt * nn,
                    (4 * mm * tt) * uu == 4 * tt * (mm0 * uu),
                    2 * (mm0 * uu) < 2 * nn + uu,
                    2 * nn < 2 * (mm0 * uu) + uu,
                    uu >= 1,
                    tt >= 1,
            ;
        }
        if mm == TWO_52 {
            assert(4 * mm * tt <= 4 * ss * xx) by (nonlinear_arith)
                requires
                    (4 * ss * xx) * uu == 4 * tt * nn,
                    (4 * mm * tt) * uu == 4 * tt * (mm0 * uu),
                    nn >= uu * TWO_52,
                    mm0 == TWO_52,
                    uu >= 1,
                    tt >= 1,
            ;
        }
    }
    assert(rounds_to(x, ten, m, s)) by {
        let below: int = (reach_below(m) * ten) as int;
        assert(below == (if mm == TWO_52 {
            tt
        } else {
            2 * tt
        })) by (nonlinear_arith)
            requires
                below == reach_below(m) * tt,
                reach_below(m) == (if mm == TWO_52 {
                    1nat
                } else {
                    2nat
                }),
        ;
        assert(4 * m * ten == 4 * mm * tt);
        assert(4 * s * x == 4 * ss * xx);
    }
    assert(ss > tt);
    assert forall|i: nat, y: nat| i < places implies !#[trigger] rounds_to(y, pow10(i), m, s) by {
        if rounds_to(y, pow10(i), m, s) {
            let k = pow10((places - i) as nat);
            lemma_pow10_grows(0, (places - i) as nat);
            lemma_pow10_adds(i, (places - i) as nat);
            lemma_rounds_to_scales(y, pow10(i), m, s, k);
            lemma_one_decimal_rounds(x, y * k, ten, m, s);
            let rest: int = pow10((places - i - 1) as nat) as int;
            let yy: int = y as int;
            assert(yy * (10 * rest) == 10 * (yy * rest)) by (nonlinear_arith);
            assert(xx == 10 * (yy * rest));
        }
    }
    lemma_places_needed(m, s, 0);
    let found = places_needed(m, s, 0);
    lemma_pow10_grows(0, found);
    lemma_fits_mean_rounding(m, s, pow10(found));
    assert(found == places) by {
        if found < places {
            if floor_fits(m, s, pow10(found)) {
                assert(rounds_to((m * pow10(found)) / s, pow10(found), m, s));
            } else {
                assert(rounds_to((m * pow10(found)) / s + 1, pow10(found), m, s));
            }
        }
    }
    lemma_shortest_decimal(m, s);
    lemma_one_decimal_rounds(x, shortest_decimal(m, s).digits, ten, m, s);
}

/// A decimal without the zeros at its end: as many places fewer as zeros
/// are dropped.
pub open spec fn trimmed(digits: nat, places: nat) -> Decimal
    decreases places,
{
    if places > 0 && digits % 10 == 0 {
        trimmed(digits / 10, (places - 1) as nat)
    } else {
        Decimal { digits, places }
    }
}

/// The numeral of `count / 10^places`, written out in full and without
/// zeros at its end.
pub open spec fn exact_numeral(count: nat, places: nat) -> Seq<char> {
    point_numeral(trimmed(count, places).digits, trimmed(count, places).places)
}

/// An instruction count as its exact quotient by a thousand, a million or a
/// billion.
pub open spec fn exact_instructions_numeral(count: nat) -> Seq<char> {
    if count < 1000 {
        decimal(count)
    } else if count < 1_000_000 {
        exact_numeral(count, 3) + "K"@
    } else if count < 1_000_000_000 {
        exact_numeral(count, 6) + "M"@
    } else {
        exact_numeral(count, 9) + "B"@
    }
}

/// Trimming keeps the value, and leaves no zero at the end.
pub proof fn lemma_trimmed(digits: nat, places: nat)
    ensures
        trimmed(digits, places).places <= places,
        trimmed(digits, places).digits * pow10((places - trimmed(digits, places).places) as nat)
            == digits,
        trimmed(digits, places).places == 0 || trimmed(digits, places).digits % 10 != 0,
    decreases places,
{
    if places > 0 && digits % 10 == 0 {
        lemma_trimmed(digits / 10, (places - 1) as nat);
        let t = trimmed(digits, places);
        let dropped = (places - 1 - t.places) as nat;
        assert(pow10(dropped + 1) == 10 * pow10(dropped));
        assert(t.digits * (10 * pow10(dropped)) == 10 * (t.digits * pow10(dropped)))
            by (nonlinear_arith);
    } else {
        assert(pow10(0) == 1);
        assert(digits * 1 == digits);
    }
}

/// A count below a thousand times its unit, where the unit is a power of
/// ten of at most nine places and the count is below `2^50`, is shown as its
/// exact quotient.
pub proof fn lemma_quotient_is_exact(count: nat, places: nat)
    requires
        1 <= places <= 9,
        pow10(places) <= count,
        count < 1000 * pow10(places) || places == 9,
        count < 1_125_899_906_842_624,
    ensures
        quotient_numeral(count, pow10(places)) == exact_numeral(count, places),
{
    let unit = pow10(places);
    let t = trimmed(count, places);
    lemma_trimmed(count, places);
    let dropped = (places - t.places) as nat;
    lemma_pow10_adds(dropped, t.places);
    lemma_pow10_grows(0, t.places);
    lemma_pow10_grows(t.places, places);
    lemma_pow10_grows(places, 9);
    assert(pow10(9) == 1_000_000_000) by {
        reveal_with_fuel(pow10, 10);
    }
    let x: int = t.digits as int;
    let d: int = pow10(dropped) as int;
    let p: int = pow10(t.places) as int;
    let c: int = count as int;
    let u: int = unit as int;
    assert(x * u == c * p) by (nonlinear_arith)
        requires
            x * d == c,
            u == d * p,
    ;
    assert(4 * c * p <= u * TWO_52) by (nonlinear_arith)
        requires
            0 <= c < 1_125_899_906_842_624,
            1 <= p <= u,
            u <= 1_000_000_000,
            c < 1000 * u || u == 1_000_000_000,
    ;
    lemma_exact_quotient(count, unit, t.digits, t.places);
}

/// Every instruction count below `2^50` is shown as its exact quotient,
/// without zeros at the end.
pub proof fn lemma_instructions_are_exact(count: nat)
    requires
        count < 1_125_899_906_842_624,
    ensures
        instructions_numeral(count) == exact_instructions_numeral(count),
{
    assert(pow10(3) == 1000 && pow10(6) == 1_000_000 && pow10(9) == 1_000_000_000) by {
        reveal_with_fuel(pow10, 10);
    }
    if count < 1000 {
    } else if count < 1_000_000 {
        lemma_quotient_is_exact(count, 3);
    } else if count < 1_000_000_000 {
        lemma_quotient_is_exact(count, 6);
    } else {
        lemma_quotient_is_exact(count, 9);
    }
}

/// Below `2^53` a count is a double as it stands.
pub proof fn lemma_small_count_is_double(count: nat)
    requires
        count < TWO_53,
    ensures
        nearest_double(count) == count,
{
    assert(spacing(count) == 1);
    assert(nearest_even(count, 1) == count);
}

/// The hundredths shown of a size below `2^53` bytes are the nearest to it:
/// at most half a hundredth of the unit off, and even where exactly half.
pub proof fn lemma_size_is_nearest_hundredth(bytes: nat, unit: nat)
    requires
        bytes < TWO_53,
        unit >= 1,
    ensures
        2 * (hundredths(bytes, unit) * unit) <= 200 * bytes + unit,
        200 * bytes <= 2 * (hundredths(bytes, unit) * unit) + unit,
        (2 * (hundredths(bytes, unit) * unit) == 200 * bytes + unit || 200 * bytes == 2 * (
        hundredths(bytes, unit) * unit) + unit) ==> hundredths(bytes, unit) % 2 == 0,
{
    lemma_small_count_is_double(bytes);
    lemma_nearest_even(bytes * 100, unit);
}

/// Below a kilobyte a size is its plain count of bytes.
pub proof fn lemma_small_size_is_plain(bytes: nat)
    requires
        bytes <= 1023,
    ensures
        size_numeral(bytes) == decimal(bytes) + "B"@,
{
}

/// Each unit of size starts at one, written with two zeros after the point.
pub proof fn lemma_size_units_start_at_one()
    ensures
        size_numeral(1024) == "1.00KB"@,
        size_numeral(1_048_576) == "1.00MB"@,
        size_numeral(1_073_741_824) == "1.00GB"@,
{
    reveal_with_fuel(pow10, 3);
    reveal_with_fuel(padded, 3);
    reveal_strlit("1.00KB");
    reveal_strlit("1.00MB");
    reveal_strlit("1.00GB");
    reveal_strlit("KB");
    reveal_strlit("MB");
    reveal_strlit("GB");
    reveal_strlit(".");
    lemma_small_count_is_double(1024);
    lemma_small_count_is_double(1_048_576);
    lemma_small_count_is_double(1_073_741_824);
    assert(hundredths(1024, 1024) == 100);
    assert(hundredths(1_048_576, 1_048_576) == 100);
    assert(hundredths(1_073_741_824, 1_073_741_824) == 100);
    let one = parts_numeral(1, 0, 2);
    assert(pow10(2) == 100);
    assert(100nat / 100 == 1 && 100nat % 100 == 0);
    assert(point_numeral(100, 2) == one);
    assert(one =~= seq!['1', '.', '0', '0']);
    assert(size_numeral(1024) =~= "1.00KB"@);
    assert(size_numeral(1_048_576) =~= "1.00MB"@);
    assert(size_numeral(1_073_741_824) =~= "1.00GB"@);
}

/// Counts at the edges of the units of instructions: no unit below a
/// thousand, and no digits after the point where none are needed.
pub proof fn lemma_instruction_examples()
    ensures
        instructions_numeral(999) == "999"@,
        instructions_numeral(1000) == "1K"@,
        instructions_numeral(1001) == "1.001K"@,
        instructions_numeral(1_000_000) == "1M"@,
        instructions_numeral(2_500_000) == "2.5M"@,
{
    reveal_with_fuel(pow10, 4);
    reveal_with_fuel(padded, 4);
    reveal_with_fuel(decimal, 4);
    reveal_strlit("999");
    reveal_strlit("1K");
    reveal_strlit("1.001K");
    reveal_strlit("1M");
    reveal_strlit("2.5M");
    reveal_strlit("K");
    reveal_strlit("M");
    reveal_strlit(".");
    assert(instructions_numeral(999) =~= "999"@);
    assert(pow10(0) == 1 && pow10(1) == 10 && pow10(3) == 1000);
    lemma_exact_quotient(1000, 1000, 1, 0);
    assert(point_numeral(1, 0) =~= seq!['1']);
    assert(instructions_numeral(1000) =~= "1K"@);
    lemma_exact_quotient(1001, 1000, 1001, 3);
    assert(point_numeral(1001, 3) =~= seq!['1', '.', '0', '0', '1']);
    assert(instructions_numeral(1001) =~= "1.001K"@);
    lemma_exact_quotient(1_000_000, 1_000_000, 1, 0);
    assert(instructions_numeral(1_000_000) =~= "1M"@);
    lemma_exact_quotient(2_500_000, 1_000_000, 25, 1);
    assert(point_numeral(25, 1) =~= seq!['2', '.', '5']);
    assert(instructions_numeral(2_500_000) =~= "2.5M"@);
}

/// A size in its display unit holds digits, a point and letters: no escape
/// character.
pub proof fn lemma_size_numeral_escape_free(bytes: nat)
    ensures
        escape_free(size_numeral(bytes)),
{
    reveal_strlit("B");
    reveal_strlit("KB");
    reveal_strlit("MB");
    reveal_strlit("GB");
    if bytes < 1024 {
        lemma_decimal_escape_free(bytes);
        lemma_escape_free_joined(decimal(bytes), "B"@);
    } else if bytes < 1_048_576 {
        lemma_point_numeral_escape_free(hundredths(bytes, 1024), 2);
        lemma_escape_free_joined(point_numeral(hundredths(bytes, 1024), 2), "KB"@);
    } else if bytes < 1_073_741_824 {
        lemma_point_numeral_escape_free(hundredths(bytes, 1_048_576), 2);
        lemma_escape_free_joined(point_numeral(hundredths(bytes, 1_048_576), 2), "MB"@);
    } else {
        lemma_point_numeral_escape_free(hundredths(bytes, 1_073_741_824), 2);
        lemma_escape_free_joined(point_numeral(hundredths(bytes, 1_073_741_824), 2), "GB"@);
    }
}

/// An instruction count in its display unit holds no escape character.
pub proof fn lemma_instructions_numeral_escape_free(count: nat)
    ensures
        escape_free(instructions_numeral(count)),
{
    reveal_strlit("K");
    reveal_strlit("M");
    reveal_strlit("B");
    let unit: nat = if count < 1_000_000 {
        1000
    } else if count < 1_000_000_000 {
        1_000_000
    } else {
        1_000_000_000
    };
    let double = quotient_double(nearest_double(count), unit);
    let shortest = shortest_decimal(double.mantissa, double.scale);
    lemma_point_numeral_escape_free(shortest.digits, shortest.places);
    if count < 1000 {
        lemma_decimal_escape_free(count);
    } else if count < 1_000_000 {
        lemma_escape_free_joined(quotient_numeral(count, 1000), "K"@);
    } else if count < 1_000_000_000 {
        lemma_escape_free_joined(quotient_numeral(count, 1_000_000), "M"@);
    } else {
        lemma_escape_free_joined(quotient_numeral(count, 1_000_000_000), "B"@);
    }
}

/// A titled numeral holds an escape character only where its title does.
pub proof fn lemma_titled_escape_free(title: Seq<char>, numeral: Seq<char>)
    requires
        escape_free(title),
        escape_free(numeral),
    ensures
        escape_free(titled(title, numeral)),
{
    reveal_strlit(": ");
    lemma_escape_free_joined(title, ": "@);
    lemma_escape_free_joined(title + ": "@, numeral);
}

} // verus!
