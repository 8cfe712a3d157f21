//! Resource limits, scaled for one run.
//!
//! Each limit is a fixed default times the run's scale factor, cut down to a
//! whole number. The scale factor is a double; it is held here by its bit
//! pattern, and the product is worked out on integers exactly as
//! double-precision arithmetic gives it.
use crate::binary64::{nearest_double, nearest_double_of, TWO_52};
use vstd::prelude::*;

verus! {

/// The input size allowed at scale one, in bytes.
pub const DEFAULT_INPUT_SIZE_LIMIT: u64 = 128_000;

/// The output size allowed at scale one, in bytes.
pub const DEFAULT_OUTPUT_SIZE_LIMIT: u64 = 20_000;

/// The instruction count allowed at scale one.
pub const DEFAULT_INSTRUCTIONS_LIMIT: u64 = 11_000_000;

/// The bit pattern of the scale factor one.
pub const UNIT_SCALE_BITS: u64 = 0x3FF0_0000_0000_0000;

/// A scale factor: a double, held by its 64 bits (sign, eleven bits of
/// exponent, 52 bits of fraction).
#[derive(Clone, Copy, Debug, PartialEq, Eq)]
pub struct ScaleFactor {
    pub bits: u64,
}

impl ScaleFactor {
    /// Whether the sign bit is set.
    pub open spec fn negative(self) -> bool {
        self.bits >= 0x8000_0000_0000_0000
    }

    /// The exponent as stored.
    pub open spec fn exponent_field(self) -> nat {
        ((self.bits / 0x10_0000_0000_0000) % 2048) as nat
    }

    /// The fraction as stored.
    pub open spec fn fraction_field(self) -> nat {
        (self.bits % 0x10_0000_0000_0000) as nat
    }

    /// Whether the factor is a number, and not an infinity.
    pub open spec fn finite(self) -> bool {
        self.exponent_field() != 2047
    }

    /// Whether the pattern stands for no number at all.
    pub open spec fn not_a_number(self) -> bool {
        self.exponent_field() == 2047 && self.fraction_field() != 0
    }

    /// The whole number `m` of a finite factor `m * 2^e`.
    pub open spec fn significand(self) -> nat {
        if self.exponent_field() == 0 {
            self.fraction_field()
        } else {
            self.fraction_field() + TWO_52 as nat
        }
    }

    /// The power `e` of a finite factor `m * 2^e`.
    pub open spec fn exponent(self) -> int {
        if self.exponent_field() == 0 {
            -1074
        } else {
            self.exponent_field() - 1075
        }
    }

    /// The factor with the given bit pattern.
    pub fn from_bits(bits: u64) -> (scale: ScaleFactor)
        ensures
            scale.bits == bits,
    {
        ScaleFactor { bits }
    }

    /// The factor one, under which every limit is its default.
    pub fn one() -> (scale: ScaleFactor)
        ensures
            scale.bits == UNIT_SCALE_BITS,
    {
        ScaleFactor { bits: UNIT_SCALE_BITS }
    }
}

/// `value` times two to the power `times`.
pub open spec fn shifted_up(value: nat, times: nat) -> nat
    decreases times,
{
    if times == 0 {
        value
    } else {
        shifted_up(2 * value, (times - 1) as nat)
    }
}

/// `value` divided by two `times` times, the remainder dropped each time.
pub open spec fn shifted_down(value: nat, times: nat) -> nat
    decreases times,
{
    if times == 0 {
        value
    } else {
        shifted_down(value / 2, (times - 1) as nat)
    }
}

/// `value`, or the greatest 64-bit number where it lies beyond that.
pub open spec fn capped(value: nat) -> nat {
    if value > u64::MAX {
        u64::MAX as nat
    } else {
        value
    }
}

/// The whole part of `m * 2^e`, capped.
pub open spec fn whole_part(m: nat, e: int) -> nat {
    if e >= 0 {
        capped(shifted_up(m, e as nat))
    } else {
        capped(shifted_down(m, (-e) as nat))
    }
}

/// The limit that a default comes to under a scale factor: the double product
/// of the two, cut down to a whole number. A negative product and one that is
/// no number give zero; one too large for 64 bits gives the greatest 64-bit
/// number.
pub open spec fn scaled_limit(default: nat, scale: ScaleFactor) -> nat {
    if scale.not_a_number() || scale.negative() {
        0
    } else if !scale.finite() {
        if default == 0 {
            0
        } else {
            u64::MAX as nat
        }
    } else {
        whole_part(nearest_double(nearest_double(default) * scale.significand()), scale.exponent())
    }
}

/// Shifting up never makes a number smaller, and keeps zero.
pub proof fn lemma_shifted_up_grows(value: nat, times: nat)
    ensures
        shifted_up(value, times) >= value,
        value == 0 ==> shifted_up(value, times) == 0,
    decreases times,
{
    if times > 0 {
        lemma_shifted_up_grows(2 * value, (times - 1) as nat);
    }
}

/// Shifting down keeps zero.
pub proof fn lemma_shifted_down_zero(times: nat)
    ensures
        shifted_down(0, times) == 0,
    decreases times,
{
    if times > 0 {
        lemma_shifted_down_zero((times - 1) as nat);
    }
}

/// Computes `whole_part`.
fn whole_part_of(m: u128, e: i32) -> (whole: u64)
    requires
        -1100 <= e <= 1100,
    ensures
        whole == whole_part(m as nat, e as int),
{
    let mut value: u128 = m;
    if e >= 0 {
        let mut left: i32 = e;
        while left > 0 && value != 0 && value <= u64::MAX as u128
            invariant
                0 <= left <= e,
                shifted_up(m as nat, e as nat) == shifted_up(value as nat, left as nat),
            decreases left,
        {
            value = 2 * value;
            left = left - 1;
        }
        proof {
            lemma_shifted_up_grows(value as nat, left as nat);
        }
    } else {
        let mut left: i32 = -e;
        while left > 0 && value != 0
            invariant
                0 <= left <= -e,
                shifted_down(m as nat, (-e) as nat) == shifted_down(value as nat, left as nat),
            decreases left,
        {
            value = value / 2;
            left = left - 1;
        }
        proof {
            lemma_shifted_down_zero(left as nat);
        }
    }
    if value > u64::MAX as u128 {
        u64::MAX
    } else {
        value as u64
    }
}

/// Computes `scaled_limit`.
pub fn scaled_limit_of(default: u64, scale: ScaleFactor) -> (limit: u64)
    ensures
        limit == scaled_limit(default as nat, scale),
{
    let field: u64 = (scale.bits / 0x10_0000_0000_0000) % 2048;
    let fraction: u64 = scale.bits % 0x10_0000_0000_0000;
    if scale.bits >= 0x8000_0000_0000_0000 || (field == 2047 && fraction != 0) {
        0
    } else if field == 2047 {
        if default == 0 {
            0
        } else {
            u64::MAX
        }
    } else {
        let significand: u128 = if field == 0 {
            fraction as u128
        } else {
            fraction as u128 + TWO_52
        };
        let exponent: i32 = if field == 0 {
            -1074
        } else {
            field as i32 - 1075
        };
        let double: u128 = nearest_double_of(default as u128);
        proof {
            let d: int = double as int;
            let s: int = significand as int;
            assert(0 <= d * s <= 0x2_0000_0000_0000_0000 * 0x20_0000_0000_0000)
                by (nonlinear_arith)
                requires
                    0 <= d <= 0x2_0000_0000_0000_0000,
                    0 <= s <= 0x20_0000_0000_0000,
            ;
        }
        let product: u128 = nearest_double_of(double * significand);
        whole_part_of(product, exponent)
    }
}

/// The three limits of a run.
#[derive(Clone, Copy, Debug, PartialEq, Eq)]
pub struct ResourceLimits {
    pub input_size: u64,
    pub output_size: u64,
    pub instructions: u64,
}

impl ResourceLimits {
    /// The limits that the defaults come to under `scale`.
    pub open spec fn under(scale: ScaleFactor) -> ResourceLimits {
        ResourceLimits {
            input_size: scaled_limit(DEFAULT_INPUT_SIZE_LIMIT as nat, scale) as u64,
            output_size: scaled_limit(DEFAULT_OUTPUT_SIZE_LIMIT as nat, scale) as u64,
            instructions: scaled_limit(DEFAULT_INSTRUCTIONS_LIMIT as nat, scale) as u64,
        }
    }

    /// Computes `under`.
    pub fn scaled(scale: ScaleFactor) -> (limits: ResourceLimits)
        ensures
            limits == ResourceLimits::under(scale),
    {
        ResourceLimits {
            input_size: scaled_limit_of(DEFAULT_INPUT_SIZE_LIMIT, scale),
            output_size: scaled_limit_of(DEFAULT_OUTPUT_SIZE_LIMIT, scale),
            instructions: scaled_limit_of(DEFAULT_INSTRUCTIONS_LIMIT, scale),
        }
    }
}

} // verus!
