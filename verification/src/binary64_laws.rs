//! What the rounded numbers are, said without the steps that find them.
use crate::binary64::{
    ceiling_fits, excess, floor_fits, nearest_double, nearest_even, off_by, places_needed,
    quotient_double, raised, reach_below, rounds_to, shortest_decimal, spacing, MOST_PLACES,
    TWO_52, TWO_53,
};
use crate::decimal::{lemma_pow10_grows, lemma_pow10_most, pow10};
use vstd::arithmetic::div_mod::{
    lemma_div_multiples_vanish_quotient, lemma_fundamental_div_mod, lemma_mod_bound,
};
use vstd::prelude::*;

verus! {

/// Doubling keeps the ratio of number and scale, and ends in the binade of
/// the mantissas.
pub proof fn lemma_raised(num: nat, div: nat, scale: nat)
    requires
        div >= 1,
        num >= 1,
        scale >= 1,
    ensures
        raised(num, div, scale).0 * scale == num * raised(num, div, scale).1,
        raised(num, div, scale).0 >= div * TWO_52,
        raised(num, div, scale).1 >= scale,
        num < div * TWO_52 ==> raised(num, div, scale).0 < 2 * (div * TWO_52) && raised(
            num,
            div,
            scale,
        ).1 % 2 == 0 && raised(num, div, scale).1 >= 2 * scale,
    decreases
        (if num < div * TWO_52 {
            div * TWO_52 - num
        } else {
            0
        }),
{
    if num >= div * TWO_52 {
        assert(num * scale == scale * num) by (nonlinear_arith);
    } else {
        lemma_raised(2 * num, div, 2 * scale);
        let n: int = raised(2 * num, div, 2 * scale).0 as int;
        let s: int = raised(2 * num, div, 2 * scale).1 as int;
        let a: int = num as int;
        let c: int = scale as int;
        assert(n * c == a * s) by (nonlinear_arith)
            requires
                n * (2 * c) == (2 * a) * s,
        ;
    }
}

/// A quotient rounded to the nearest whole number is at most half off, and
/// even where it is exactly half off.
pub proof fn lemma_nearest_even(num: nat, den: nat)
    requires
        den >= 1,
    ensures
        2 * (nearest_even(num, den) * den) <= 2 * num + den,
        2 * num <= 2 * (nearest_even(num, den) * den) + den,
        (2 * (nearest_even(num, den) * den) == 2 * num + den || 2 * num == 2 * (nearest_even(
            num,
            den,
        ) * den) + den) ==> nearest_even(num, den) % 2 == 0,
        num / den <= nearest_even(num, den) <= num / den + 1,
{
    let q: int = (num / den) as int;
    let r: int = (num % den) as int;
    let d: int = den as int;
    lemma_fundamental_div_mod(num as int, d);
    lemma_mod_bound(num as int, d);
    assert((q + 1) * d == q * d + d) by (nonlinear_arith);
    assert(d * q == q * d) by (nonlinear_arith);
}

/// Doubles are never spaced closer than one apart.
pub proof fn lemma_spacing_positive(n: nat)
    ensures
        spacing(n) >= 1,
    decreases n,
{
    if n >= TWO_53 {
        lemma_spacing_positive(n / 2);
    }
}

/// The double of a whole number is a multiple of the spacing around that
/// number, and at most half the spacing away from it.
pub proof fn lemma_nearest_double_is_nearest(n: nat)
    ensures
        nearest_double(n) % spacing(n) == 0,
        2 * nearest_double(n) <= 2 * n + spacing(n),
        2 * n <= 2 * nearest_double(n) + spacing(n),
{
    lemma_spacing_positive(n);
    lemma_nearest_even(n, spacing(n));
    let q: int = nearest_even(n, spacing(n)) as int;
    let u: int = spacing(n) as int;
    vstd::arithmetic::div_mod::lemma_fundamental_div_mod_converse(q * u, u, q, 0);
}

/// The double of a quotient is at most half a step of its scale away from
/// the quotient: with mantissa `m` and scale `s`, `m / s` differs from
/// `a / div` by at most `1 / (2 * s)`.
pub proof fn lemma_quotient_double_is_nearest(a: nat, div: nat)
    requires
        1 <= div <= a < div * TWO_52,
    ensures
        TWO_52 <= quotient_double(a, div).mantissa < TWO_53,
        1 <= quotient_double(a, div).scale,
        2 * (quotient_double(a, div).mantissa * div) <= 2 * (a * quotient_double(a, div).scale)
            + div,
        2 * (a * quotient_double(a, div).scale) <= 2 * (quotient_double(a, div).mantissa * div)
            + div,
{
    lemma_raised(a, div, 1);
    let num: int = raised(a, div, 1).0 as int;
    let scale: int = raised(a, div, 1).1 as int;
    lemma_nearest_even(num as nat, div);
    let m0: int = nearest_even(num as nat, div) as int;
    let aa: int = a as int;
    let dd: int = div as int;
    assert(num == aa * scale) by (nonlinear_arith)
        requires
            num * 1 == aa * scale,
    ;
    assert(TWO_52 <= num / dd < TWO_53) by (nonlinear_arith)
        requires
            dd * TWO_52 <= num < 2 * (dd * TWO_52),
            dd > 0,
    ;
    let m: int = quotient_double(a, div).mantissa as int;
    let s: int = quotient_double(a, div).scale as int;
    if m0 == TWO_53 {
        assert(2 * s == scale);
        assert(2 * (m * dd) == m0 * dd) by (nonlinear_arith)
            requires
                2 * m == m0,
        ;
        assert(2 * (aa * s) == aa * scale) by (nonlinear_arith)
            requires
                2 * s == scale,
        ;
    }
}

/// The double `m / s`, scaled by `ten`, splits into the greatest multiple of
/// `1 / ten` below it and the excess over that.
pub proof fn lemma_excess_splits(m: nat, s: nat, ten: nat)
    requires
        s >= 1,
    ensures
        4 * m * ten == 4 * s * ((m * ten) / s) + excess(m, s, ten),
        excess(m, s, ten) < 4 * s,
{
    let c: int = (4 * m * ten) as int;
    let span: int = (4 * s) as int;
    lemma_fundamental_div_mod(c, span);
    lemma_mod_bound(c, span);
    lemma_div_multiples_vanish_quotient(4, (m * ten) as int, s as int);
    assert(4 * (m * ten) == 4 * m * ten) by (nonlinear_arith);
    assert(c / span == (m * ten) / s);
    assert(span * (c / span) == 4 * s * ((m * ten) / s));
}

/// Multiples of `span` keep the order of their factors, and distinct ones
/// lie at least `span` apart.
proof fn lemma_multiples_apart(span: int, x: int, f: int)
    requires
        span >= 0,
    ensures
        x <= f ==> span * x <= span * f,
        x > f ==> span * x >= span * f + span,
{
    if x <= f {
        assert(span * x <= span * f) by (nonlinear_arith)
            requires
                x <= f,
                span >= 0,
        ;
    } else {
        assert(span * x >= span * f + span) by (nonlinear_arith)
            requires
                x >= f + 1,
                span >= 0,
        ;
    }
}

/// The two tests of the search say of the two decimals around the double
/// that they round to it. A decimal further down rounds to it only where the
/// lower of the two does, and is further off; likewise further up.
pub proof fn lemma_fits_mean_rounding(m: nat, s: nat, ten: nat)
    requires
        s >= 1,
        ten >= 1,
    ensures
        floor_fits(m, s, ten) <==> rounds_to((m * ten) / s, ten, m, s),
        ceiling_fits(m, s, ten) <==> rounds_to((m * ten) / s + 1, ten, m, s),
        forall|x: nat| #[trigger]
            rounds_to(x, ten, m, s) ==> {
                ||| (x <= (m * ten) / s && floor_fits(m, s, ten))
                ||| (x > (m * ten) / s && ceiling_fits(m, s, ten))
            },
        forall|x: nat|
            x <= (m * ten) / s ==> #[trigger] off_by(x, ten, m, s) >= excess(m, s, ten),
        forall|x: nat|
            x > (m * ten) / s ==> #[trigger] off_by(x, ten, m, s) >= 4 * s - excess(m, s, ten),
        off_by((m * ten) / s, ten, m, s) == excess(m, s, ten),
        off_by((m * ten) / s + 1, ten, m, s) == 4 * s - excess(m, s, ten),
{
    lemma_excess_splits(m, s, ten);
    let f: int = ((m * ten) / s) as int;
    let e: int = excess(m, s, ten) as int;
    let c: int = (4 * m * ten) as int;
    let span: int = (4 * s) as int;
    let below: int = (reach_below(m) * ten) as int;
    assert(1 * ten <= below <= 2 * ten);
    assert(span * (f + 1) == span * f + span) by (nonlinear_arith);
    assert(4 * s * (f + 1) == span * (f + 1));
    assert forall|x: nat| #[trigger] rounds_to(x, ten, m, s) implies {
        ||| (x <= f && floor_fits(m, s, ten))
        ||| (x > f && ceiling_fits(m, s, ten))
    } by {
        lemma_multiples_apart(span, x as int, f);
        assert(4 * s * x == span * x);
    }
    assert forall|x: nat| x <= f implies #[trigger] off_by(x, ten, m, s) >= e by {
        lemma_multiples_apart(span, x as int, f);
        assert(4 * s * x == span * x);
    }
    assert forall|x: nat| x > f implies #[trigger] off_by(x, ten, m, s) >= 4 * s - e by {
        lemma_multiples_apart(span, x as int, f);
        assert(4 * s * x == span * x);
    }
}

/// A decimal beyond the two around the double lies further from it than
/// the upper of the two.
proof fn lemma_further_is_further_off(m: nat, s: nat, ten: nat, x: nat)
    requires
        s >= 1,
        ten >= 1,
        x > (m * ten) / s + 1,
    ensures
        off_by(x, ten, m, s) > off_by((m * ten) / s + 1, ten, m, s),
{
    lemma_excess_splits(m, s, ten);
    lemma_fits_mean_rounding(m, s, ten);
    let f: int = ((m * ten) / s) as int;
    let span: int = (4 * s) as int;
    lemma_multiples_apart(span, x as int, f + 1);
    assert(span * (f + 1) == span * f + span) by (nonlinear_arith);
    assert(4 * s * x == span * x);
}

/// The search stops where some decimal rounds to the double, and passes only
/// where none does.
pub proof fn lemma_places_needed(m: nat, s: nat, from: nat)
    requires
        1 <= s < TWO_53,
        from <= MOST_PLACES,
    ensures
        from <= places_needed(m, s, from) <= MOST_PLACES,
        floor_fits(m, s, pow10(places_needed(m, s, from))) || ceiling_fits(
            m,
            s,
            pow10(places_needed(m, s, from)),
        ),
        forall|i: nat, x: nat|
            from <= i < places_needed(m, s, from) ==> !#[trigger] rounds_to(x, pow10(i), m, s),
    decreases MOST_PLACES - from,
{
    let ten = pow10(from);
    lemma_pow10_grows(0, from);
    lemma_fits_mean_rounding(m, s, ten);
    if from >= MOST_PLACES {
        lemma_pow10_most();
        lemma_excess_splits(m, s, ten);
    } else if floor_fits(m, s, ten) || ceiling_fits(m, s, ten) {
    } else {
        lemma_places_needed(m, s, from + 1);
    }
}

/// The shortest decimal of a double rounds to it; no decimal with fewer
/// digits after the point does; no decimal with as many that does lies
/// nearer to the double; and one that lies as near is the smaller of the two.
pub proof fn lemma_shortest_decimal(m: nat, s: nat)
    requires
        TWO_52 <= m < TWO_53,
        1 <= s < TWO_53,
    ensures
        shortest_decimal(m, s).places <= MOST_PLACES,
        rounds_to(shortest_decimal(m, s).digits, pow10(shortest_decimal(m, s).places), m, s),
        forall|i: nat, x: nat|
            i < shortest_decimal(m, s).places ==> !#[trigger] rounds_to(x, pow10(i), m, s),
        forall|x: nat| #[trigger]
            rounds_to(x, pow10(shortest_decimal(m, s).places), m, s) ==> off_by(
                shortest_decimal(m, s).digits,
                pow10(shortest_decimal(m, s).places),
                m,
                s,
            ) <= off_by(x, pow10(shortest_decimal(m, s).places), m, s),
        forall|x: nat| #[trigger]
            rounds_to(x, pow10(shortest_decimal(m, s).places), m, s) && off_by(
                shortest_decimal(m, s).digits,
                pow10(shortest_decimal(m, s).places),
                m,
                s,
            ) == off_by(x, pow10(shortest_decimal(m, s).places), m, s) ==> x <= shortest_decimal(
                m,
                s,
            ).digits,
{
    lemma_places_needed(m, s, 0);
    let places = places_needed(m, s, 0);
    let ten = pow10(places);
    lemma_pow10_grows(0, places);
    lemma_fits_mean_rounding(m, s, ten);
    lemma_excess_splits(m, s, ten);
    let chosen = shortest_decimal(m, s).digits;
    assert forall|x: nat| #[trigger] rounds_to(x, ten, m, s) implies off_by(chosen, ten, m, s)
        <= off_by(x, ten, m, s) by {
        if x <= (m * ten) / s {
            assert(off_by(x, ten, m, s) >= excess(m, s, ten));
        } else {
            assert(off_by(x, ten, m, s) >= 4 * s - excess(m, s, ten));
        }
    }
    assert forall|x: nat| #[trigger]
        rounds_to(x, ten, m, s) && off_by(chosen, ten, m, s) == off_by(
            x,
            ten,
            m,
            s,
        ) implies x <= chosen by {
        if x > (m * ten) / s {
            assert(off_by(x, ten, m, s) >= 4 * s - excess(m, s, ten));
            if x > (m * ten) / s + 1 {
                lemma_further_is_further_off(m, s, ten, x);
            }
        }
    }
}

} // verus!
