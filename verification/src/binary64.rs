//! Double-precision rounding, carried out on integers.
//!
//! A double holds 53 significant bits. Every double that this crate meets is
//! positive and finite, so it is written here as a fraction
//! `mantissa / scale` with `2^52 <= mantissa < 2^53` and `scale` a power of
//! two, or, where it is a whole number, as that number.
use crate::decimal::{lemma_pow10_grows, lemma_pow10_most, pow10};
use vstd::prelude::*;

verus! {

/// A positive double, written as the fraction `mantissa / scale`. The
/// mantissa has exactly 53 bits and the scale is a power of two.
pub struct Double {
    pub mantissa: nat,
    pub scale: nat,
}

/// A decimal, written as the fraction `digits / 10^places`: its digits read
/// as a whole number, and the count of those that stand after the point.
pub struct Decimal {
    pub digits: nat,
    pub places: nat,
}

/// Two to the power 52: the least mantissa.
pub const TWO_52: u128 = 4_503_599_627_370_496;

/// Two to the power 53: the first value past the greatest mantissa.
pub const TWO_53: u128 = 9_007_199_254_740_992;

/// The largest whole number that `nearest_double_of` takes.
pub const WHOLE_LIMIT: u128 = 1_329_227_995_784_915_872_903_807_060_280_344_576;

/// `num / den` rounded to the nearest whole number; a quotient that lies
/// halfway between two goes to the even one.
pub open spec fn nearest_even(num: nat, den: nat) -> nat {
    let q = num / den;
    let r = num % den;
    if 2 * r > den || (2 * r == den && q % 2 == 1) {
        q + 1
    } else {
        q
    }
}

/// The distance between neighbouring doubles around the whole number `n`:
/// one below `2^53`, and twice as much in each binade above.
pub open spec fn spacing(n: nat) -> nat
    decreases n,
{
    if n < TWO_53 {
        1
    } else {
        2 * spacing(n / 2)
    }
}

/// The double nearest to the whole number `n`, ties to the even mantissa.
pub open spec fn nearest_double(n: nat) -> nat {
    nearest_even(n, spacing(n)) * spacing(n)
}

/// Doubles `num` and `scale` together until `num` is at least `div * 2^52`.
pub open spec fn raised(num: nat, div: nat, scale: nat) -> (nat, nat)
    decreases
        (if num < div * TWO_52 {
            div * TWO_52 - num
        } else {
            0
        }),
{
    if num == 0 || num >= div * TWO_52 {
        (num, scale)
    } else {
        raised(2 * num, div, 2 * scale)
    }
}

/// The double nearest to `a / div`, for `div <= a < div * 2^52`.
pub open spec fn quotient_double(a: nat, div: nat) -> Double {
    let (num, scale) = raised(a, div, 1);
    let m = nearest_even(num, div);
    if m == TWO_53 {
        Double { mantissa: TWO_52 as nat, scale: scale / 2 }
    } else {
        Double { mantissa: m, scale }
    }
}

/// How far below a double its lower neighbour's midpoint lies, in quarters of
/// the spacing above it: the spacing halves below a power of two.
pub open spec fn reach_below(m: nat) -> nat {
    if m == TWO_52 {
        1
    } else {
        2
    }
}

/// How far the double `m / s` lies above the greatest multiple of `1 / ten`
/// that does not exceed it, in units of `1 / (4 * s * ten)`.
pub open spec fn excess(m: nat, s: nat, ten: nat) -> nat {
    (4 * m * ten) % (4 * s)
}

/// Whether the greatest multiple of `1 / ten` that does not exceed `m / s`
/// still rounds to that double. A midpoint rounds to it where `m` is even.
pub open spec fn floor_fits(m: nat, s: nat, ten: nat) -> bool {
    if m % 2 == 0 {
        excess(m, s, ten) <= reach_below(m) * ten
    } else {
        excess(m, s, ten) < reach_below(m) * ten
    }
}

/// Whether the next multiple of `1 / ten` above that one rounds to `m / s`.
pub open spec fn ceiling_fits(m: nat, s: nat, ten: nat) -> bool {
    if m % 2 == 0 {
        4 * s - excess(m, s, ten) <= 2 * ten
    } else {
        4 * s - excess(m, s, ten) < 2 * ten
    }
}

/// Whether the decimal `x / ten` rounds to the double `m / s`: it lies
/// nearer to that double than to the double on either side of it, or
/// halfway to one of them while `m` is even. Everything is measured in
/// units of `1 / (4 * s * ten)`.
pub open spec fn rounds_to(x: nat, ten: nat, m: nat, s: nat) -> bool {
    let low = 4 * m * ten - reach_below(m) * ten;
    let high = 4 * m * ten + 2 * ten;
    if m % 2 == 0 {
        low <= 4 * s * x <= high
    } else {
        low < 4 * s * x < high
    }
}

/// How far the decimal `x / ten` lies from the double `m / s`, in units of
/// `1 / (4 * s * ten)`.
pub open spec fn off_by(x: nat, ten: nat, m: nat, s: nat) -> nat {
    if 4 * s * x >= 4 * m * ten {
        (4 * s * x - 4 * m * ten) as nat
    } else {
        (4 * m * ten - 4 * s * x) as nat
    }
}

/// The digits after the point that are tried before giving up the search.
pub const MOST_PLACES: u32 = 17;

/// The least number of digits after the point, from `places` on, with which
/// some decimal rounds to the double `m / s`.
pub open spec fn places_needed(m: nat, s: nat, places: nat) -> nat
    decreases MOST_PLACES - places,
{
    if places >= MOST_PLACES || floor_fits(m, s, pow10(places)) || ceiling_fits(
        m,
        s,
        pow10(places),
    ) {
        places
    } else {
        places_needed(m, s, places + 1)
    }
}

/// The shortest decimal that rounds to the double `m / s`. Of two decimals
/// of that length it is the one nearer to the double, and the upper one where
/// they are equally near.
pub open spec fn shortest_decimal(m: nat, s: nat) -> Decimal {
    let places = places_needed(m, s, 0);
    let ten = pow10(places);
    let floor = (m * ten) / s;
    if ceiling_fits(m, s, ten) && (!floor_fits(m, s, ten) || 2 * excess(m, s, ten) >= 4 * s) {
        Decimal { digits: floor + 1, places }
    } else {
        Decimal { digits: floor, places }
    }
}

/// Computes `nearest_even`.
pub(crate) fn divide_nearest_even(num: u128, den: u128) -> (q: u128)
    requires
        0 < den,
        den <= u128::MAX / 2,
        num / den < u128::MAX,
    ensures
        q == nearest_even(num as nat, den as nat),
        num / den <= q <= num / den + 1,
{
    let q: u128 = num / den;
    let r: u128 = num % den;
    if 2 * r > den || (2 * r == den && q % 2 == 1) {
        q + 1
    } else {
        q
    }
}

/// Computes `nearest_double`.
pub(crate) fn nearest_double_of(n: u128) -> (d: u128)
    requires
        n < WHOLE_LIMIT,
    ensures
        d == nearest_double(n as nat),
        n < TWO_53 ==> d == n,
        n >= TWO_53 ==> d >= TWO_53,
        d <= 2 * n,
{
    let mut unit: u128 = 1;
    let mut rest: u128 = n;
    while rest >= TWO_53
        invariant
            spacing(n as nat) == unit * spacing(rest as nat),
            rest * unit <= n,
            unit >= 1,
            n < WHOLE_LIMIT,
            n >= TWO_53 ==> rest >= TWO_52,
        decreases rest,
    {
        proof {
            let r: int = rest as int;
            let u: int = unit as int;
            assert(TWO_53 * u <= r * u) by (nonlinear_arith)
                requires
                    TWO_53 <= r,
                    u >= 1,
            ;
            assert((r / 2) * (2 * u) <= r * u) by (nonlinear_arith)
                requires
                    r >= 0,
                    u >= 1,
            ;
            assert(u * (2 * spacing((r / 2) as nat)) == (2 * u) * spacing((r / 2) as nat))
                by (nonlinear_arith);
        }
        rest = rest / 2;
        unit = unit * 2;
    }
    proof {
        let one: int = spacing(rest as nat) as int;
        assert(one == 1);
        assert(unit * one == unit) by (nonlinear_arith)
            requires
                one == 1,
        ;
        let r: int = rest as int;
        let u: int = unit as int;
        let nn: int = n as int;
        vstd::arithmetic::div_mod::lemma_fundamental_div_mod(nn, u);
        vstd::arithmetic::div_mod::lemma_mod_bound(nn, u);
        assert(nn / u >= r && (nn / u) * u <= nn && nn - (nn / u) * u < u) by (nonlinear_arith)
            requires
                r * u <= nn,
                u >= 1,
                r >= 0,
                nn == u * (nn / u) + nn % u,
                0 <= nn % u < u,
        ;
        if n >= TWO_53 {
            assert(TWO_52 * u <= nn) by (nonlinear_arith)
                requires
                    r * u <= nn,
                    r >= TWO_52,
                    u >= 1,
            ;
            assert(u <= WHOLE_LIMIT / TWO_52);
            assert((nn / u + 1) * u <= 2 * nn && (nn / u) * u >= TWO_53) by (nonlinear_arith)
                requires
                    (nn / u) * u <= nn,
                    nn / u >= r,
                    r >= TWO_52,
                    TWO_52 * u <= nn,
                    nn >= TWO_53,
                    u >= 1,
                    nn - (nn / u) * u < u,
            ;
        }
    }
    let q: u128 = divide_nearest_even(n, unit);
    proof {
        let u: int = unit as int;
        let nn: int = n as int;
        let qq: int = q as int;
        if n >= TWO_53 {
            assert(qq * u <= (nn / u + 1) * u && qq * u >= (nn / u) * u) by (nonlinear_arith)
                requires
                    nn / u <= qq <= nn / u + 1,
                    u >= 1,
            ;
        } else {
            assert(unit == 1);
        }
    }
    q * unit
}

/// Computes `quotient_double`.
pub(crate) fn quotient_double_of(a: u128, div: u128) -> (d: (u64, u64))
    requires
        0 < div <= 1_000_000_000,
        div <= a < div * TWO_52,
    ensures
        d.0 == quotient_double(a as nat, div as nat).mantissa,
        d.1 == quotient_double(a as nat, div as nat).scale,
        TWO_52 <= d.0 < TWO_53,
        1 <= d.1 < TWO_53,
{
    let target: u128 = div * TWO_52;
    let mut num: u128 = a;
    let mut scale: u128 = 1;
    while num < target
        invariant
            raised(a as nat, div as nat, 1) == raised(num as nat, div as nat, scale as nat),
            num == a * scale,
            0 < num < 2 * target,
            scale >= 1,
            target == div * TWO_52,
            0 < div <= 1_000_000_000,
            div <= a < target,
        decreases 2 * target - num,
    {
        proof {
            let aa: int = a as int;
            let sc: int = scale as int;
            let dv: int = div as int;
            assert(sc < TWO_52 && aa * (2 * sc) == 2 * (aa * sc)) by (nonlinear_arith)
                requires
                    aa * sc < dv * TWO_52,
                    dv <= aa,
                    dv > 0,
                    sc >= 1,
            ;
        }
        num = 2 * num;
        scale = 2 * scale;
    }
    proof {
        let aa: int = a as int;
        let sc: int = scale as int;
        let dv: int = div as int;
        let nn: int = num as int;
        assert(sc < TWO_53 && sc >= 2) by (nonlinear_arith)
            requires
                nn == aa * sc,
                nn < 2 * (dv * TWO_52),
                nn >= dv * TWO_52,
                aa < dv * TWO_52,
                dv <= aa,
                dv > 0,
                sc >= 1,
        ;
        assert(TWO_52 <= nn / dv < TWO_53) by (nonlinear_arith)
            requires
                dv * TWO_52 <= nn < 2 * (dv * TWO_52),
                dv > 0,
        ;
        assert(raised(num as nat, div as nat, scale as nat) == (num as nat, scale as nat));
    }
    let m: u128 = divide_nearest_even(num, div);
    if m == TWO_53 {
        (TWO_52 as u64, (scale / 2) as u64)
    } else {
        (m as u64, scale as u64)
    }
}

/// Computes `shortest_decimal`, and hands it back in three parts: what stands
/// before the point, what stands after it, and how many digits that takes.
pub(crate) fn shortest_decimal_of(m: u64, s: u64) -> (parts: (u64, u64, u32))
    requires
        TWO_52 <= m < TWO_53,
        1 <= s < TWO_53,
    ensures
        parts.2 == shortest_decimal(m as nat, s as nat).places,
        parts.0 == shortest_decimal(m as nat, s as nat).digits / pow10(parts.2 as nat),
        parts.1 == shortest_decimal(m as nat, s as nat).digits % pow10(parts.2 as nat),
        parts.2 <= MOST_PLACES,
{
    let mut places: u32 = 0;
    let mut ten: u128 = 1;
    loop
        invariant
            places <= MOST_PLACES,
            ten == pow10(places as nat),
            1 <= ten <= 100_000_000_000_000_000,
            places_needed(m as nat, s as nat, 0) == places_needed(
                m as nat,
                s as nat,
                places as nat,
            ),
            TWO_52 <= m < TWO_53,
            1 <= s < TWO_53,
        decreases MOST_PLACES - places,
    {
        proof {
            let mm: int = m as int;
            let tt: int = ten as int;
            assert(0 <= 4 * mm * tt <= 4 * TWO_53 * 100_000_000_000_000_000) by (nonlinear_arith)
                requires
                    0 <= mm < TWO_53,
                    1 <= tt <= 100_000_000_000_000_000,
            ;
            assert(0 <= mm * tt <= TWO_53 * 100_000_000_000_000_000) by (nonlinear_arith)
                requires
                    0 <= mm < TWO_53,
                    1 <= tt <= 100_000_000_000_000_000,
            ;
        }
        let span: u128 = 4 * (s as u128);
        let over: u128 = (4 * (m as u128) * ten) % span;
        let below: u128 = if m as u128 == TWO_52 {
            ten
        } else {
            2 * ten
        };
        let floor_ok: bool = if m % 2 == 0 {
            over <= below
        } else {
            over < below
        };
        let ceiling_ok: bool = if m % 2 == 0 {
            span - over <= 2 * ten
        } else {
            span - over < 2 * ten
        };
        assert(over == excess(m as nat, s as nat, ten as nat));
        assert(below == reach_below(m as nat) * ten) by (nonlinear_arith)
            requires
                below == (if m as u128 == TWO_52 {
                    ten as int
                } else {
                    2 * ten
                }),
                reach_below(m as nat) == (if m as u128 == TWO_52 {
                    1nat
                } else {
                    2nat
                }),
        ;
        assert(floor_ok == floor_fits(m as nat, s as nat, ten as nat));
        assert(ceiling_ok == ceiling_fits(m as nat, s as nat, ten as nat));
        if places >= MOST_PLACES || floor_ok || ceiling_ok {
            let floor: u128 = ((m as u128) * ten) / (s as u128);
            let scaled: u128 = if ceiling_ok && (!floor_ok || 2 * over >= span) {
                floor + 1
            } else {
                floor
            };
            proof {
                let mm: int = m as int;
                let tt: int = ten as int;
                let ss: int = s as int;
                let x: int = scaled as int;
                assert((mm * tt) / ss <= mm * tt) by (nonlinear_arith)
                    requires
                        mm * tt >= 0,
                        ss >= 1,
                ;
                assert(x / tt <= mm + 1) by (nonlinear_arith)
                    requires
                        0 <= x <= mm * tt + 1,
                        tt >= 1,
                        mm >= 0,
                ;
                vstd::arithmetic::div_mod::lemma_mod_bound(x, tt);
            }
            return ((scaled / ten) as u64, (scaled % ten) as u64, places);
        }
        proof {
            lemma_pow10_grows((places + 1) as nat, MOST_PLACES as nat);
            lemma_pow10_most();
        }
        places = places + 1;
        ten = ten * 10;
    }
}

} // verus!
