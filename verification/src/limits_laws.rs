//! What holds of scaled limits.
use crate::binary64::{nearest_double, nearest_even, spacing, TWO_53};
use crate::binary64_laws::lemma_spacing_positive;
use crate::limits::{
    shifted_up, shifted_down, scaled_limit, ResourceLimits, ScaleFactor,
    DEFAULT_INPUT_SIZE_LIMIT, DEFAULT_INSTRUCTIONS_LIMIT, DEFAULT_OUTPUT_SIZE_LIMIT,
    UNIT_SCALE_BITS,
};
use vstd::arithmetic::div_mod::{lemma_fundamental_div_mod, lemma_fundamental_div_mod_converse};
use vstd::prelude::*;

verus! {

/// The last step up can be taken out of the rest.
pub proof fn lemma_shifted_up_last(value: nat, times: nat)
    requires
        times >= 1,
    ensures
        shifted_up(value, times) == 2 * shifted_up(value, (times - 1) as nat),
    decreases times,
{
    assert(shifted_up(value, times) == shifted_up(2 * value, (times - 1) as nat));
    if times > 1 {
        lemma_shifted_up_last(2 * value, (times - 1) as nat);
        assert(shifted_up(value, (times - 1) as nat) == shifted_up(2 * value, (times - 2) as nat));
    } else {
        assert(shifted_up(2 * value, 0) == 2 * value);
        assert(shifted_up(value, 0) == value);
    }
}

/// Shifting down undoes shifting up.
pub proof fn lemma_shifted_down_undoes(value: nat, times: nat)
    ensures
        shifted_down(shifted_up(value, times), times) == value,
    decreases times,
{
    if times > 0 {
        lemma_shifted_up_last(value, times);
        lemma_shifted_down_undoes(value, (times - 1) as nat);
    }
}

/// A number of at most 53 bits, shifted up any number of times, is a multiple
/// of the spacing of the doubles around it.
pub proof fn lemma_shifted_up_fits_spacing(value: nat, times: nat)
    requires
        value < TWO_53,
    ensures
        shifted_up(value, times) % spacing(shifted_up(value, times)) == 0,
    decreases times,
{
    let v = shifted_up(value, times);
    if v >= TWO_53 {
        assert(times >= 1);
        lemma_shifted_up_last(value, times);
        let w = shifted_up(value, (times - 1) as nat);
        lemma_shifted_up_fits_spacing(value, (times - 1) as nat);
        lemma_spacing_positive(w);
        let u: int = spacing(w) as int;
        lemma_fundamental_div_mod(w as int, u);
        let q: int = (w as int) / u;
        assert(v == q * (2 * u) + 0) by (nonlinear_arith)
            requires
                v == 2 * w,
                w == u * q + 0,
        ;
        lemma_fundamental_div_mod_converse(v as int, 2 * u, q, 0);
    }
}

/// A multiple of the spacing around it is a double: rounding leaves it as
/// it is.
pub proof fn lemma_multiple_of_spacing_is_double(n: nat)
    requires
        n % spacing(n) == 0,
    ensures
        nearest_double(n) == n,
{
    lemma_spacing_positive(n);
    lemma_fundamental_div_mod(n as int, spacing(n) as int);
    let q: int = (n / spacing(n)) as int;
    let u: int = spacing(n) as int;
    assert(nearest_even(n, spacing(n)) == q);
    assert(q * u == u * q) by (nonlinear_arith);
}

/// Under the scale factor one, a limit of at most 53 bits is its default.
pub proof fn lemma_unit_scale_keeps(default: nat)
    requires
        default < TWO_53,
    ensures
        scaled_limit(default, ScaleFactor { bits: UNIT_SCALE_BITS }) == default,
{
    let scale = ScaleFactor { bits: UNIT_SCALE_BITS };
    assert(scale.exponent_field() == 1023);
    assert(scale.fraction_field() == 0);
    assert(scale.significand() == 4_503_599_627_370_496);
    assert(scale.exponent() == -52);
    assert(spacing(default) == 1);
    assert(nearest_double(default) == default);
    assert(shifted_up(default, 52) == default * 4_503_599_627_370_496) by {
        reveal_with_fuel(shifted_up, 53);
    }
    lemma_shifted_up_fits_spacing(default, 52);
    lemma_multiple_of_spacing_is_double(shifted_up(default, 52));
    lemma_shifted_down_undoes(default, 52);
}

/// Under the scale factor one, the three limits are the three defaults.
pub proof fn lemma_unit_scale_keeps_defaults()
    ensures
        ResourceLimits::under(ScaleFactor { bits: UNIT_SCALE_BITS }) == (ResourceLimits {
            input_size: DEFAULT_INPUT_SIZE_LIMIT,
            output_size: DEFAULT_OUTPUT_SIZE_LIMIT,
            instructions: DEFAULT_INSTRUCTIONS_LIMIT,
        }),
{
    lemma_unit_scale_keeps(DEFAULT_INPUT_SIZE_LIMIT as nat);
    lemma_unit_scale_keeps(DEFAULT_OUTPUT_SIZE_LIMIT as nat);
    lemma_unit_scale_keeps(DEFAULT_INSTRUCTIONS_LIMIT as nat);
}

} // verus!
