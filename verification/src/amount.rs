//! Monetary amounts.
//!
//! An amount travels and is stored as the eight bytes of an IEEE 754
//! binary64 number. The library never needs more of such a number than its
//! bit pattern: an [`Amount`] holds the pattern of a finite number that is
//! not negative, and on those patterns order, sign test and addition are
//! integer computations. Their meaning is fixed by [`magnitude`], the exact
//! value of a pattern counted in units of `2^-1074`, the smallest positive
//! binary64 number.

use crate::error::ProgramError;
use vstd::arithmetic::power2::{
    lemma2_to64,
    lemma2_to64_rest,
    lemma_pow2_adds,
    lemma_pow2_pos,
    lemma_pow2_strictly_increases,
    lemma_pow2_unfold,
    pow2,
};
use vstd::prelude::*;

verus! {

/// `2^52`: the number of fraction patterns under one exponent.
pub const FRACTION_SPAN: u64 = 0x10_0000_0000_0000;

/// The pattern of positive infinity; every larger pattern without the sign
/// bit is a NaN.
pub const INFINITY_BITS: u64 = 0x7FF0_0000_0000_0000;

/// The pattern of the largest finite number.
pub const MAX_FINITE_BITS: u64 = 0x7FEF_FFFF_FFFF_FFFF;

/// The sign bit of a pattern.
pub const SIGN_BIT: u64 = 0x8000_0000_0000_0000;

/// The exponent a pattern counts with: its exponent field, and 1 for the
/// subnormal patterns, whose field is 0.
pub open spec fn scale_of(bits: u64) -> nat {
    if bits / FRACTION_SPAN == 0 {
        1
    } else {
        (bits / FRACTION_SPAN) as nat
    }
}

/// The integer significand of a pattern: its fraction field, with the
/// implicit leading bit unless the pattern is subnormal.
pub open spec fn significand_of(bits: u64) -> nat {
    if bits / FRACTION_SPAN == 0 {
        (bits % FRACTION_SPAN) as nat
    } else {
        (FRACTION_SPAN + bits % FRACTION_SPAN) as nat
    }
}

/// The value of a pattern without sign bit, in units of `2^-1074`. For the
/// pattern of infinity this is `2^1024` in those units, the value that the
/// next exponent would start with.
pub open spec fn magnitude(bits: u64) -> nat {
    significand_of(bits) * pow2((scale_of(bits) - 1) as nat)
}

/// Whether binary64 addition, rounding to nearest with ties to even, gives
/// the pattern `bits` for the exact sum `exact` (in units of `2^-1074`):
/// `exact` lies between the midpoints to the two neighbours of `bits`, a
/// midpoint itself counting only where `bits` is even. Infinity is the
/// result from the midpoint above the largest finite number upwards.
pub open spec fn rounds_to(exact: nat, bits: u64) -> bool {
    if bits >= INFINITY_BITS {
        bits == INFINITY_BITS && 2 * exact >= magnitude(MAX_FINITE_BITS) + magnitude(INFINITY_BITS)
    } else {
        let here = magnitude(bits);
        let above = magnitude((bits + 1) as u64);
        &&& 2 * exact < here + above || (2 * exact == here + above && bits % 2 == 0)
        &&& bits > 0 ==> {
            let below = magnitude((bits - 1) as u64);
            2 * exact > below + here || (2 * exact == below + here && bits % 2 == 0)
        }
    }
}

/// A pattern put together from an exponent and a significand has the value
/// that the two stand for. The significand may be `2^53`, one more than
/// fits: the pattern then is the first of the next exponent.
pub proof fn lemma_magnitude_of_parts(scale: nat, significand: nat)
    requires
        1 <= scale <= 2200,
        significand <= 2 * FRACTION_SPAN,
        significand >= FRACTION_SPAN || scale == 1,
    ensures
        (scale - 1) * FRACTION_SPAN + significand <= u64::MAX,
        magnitude(((scale - 1) * FRACTION_SPAN + significand) as u64) == significand * pow2(
            (scale - 1) as nat,
        ),
{
    let bits = ((scale - 1) * FRACTION_SPAN + significand) as u64;
    if significand < FRACTION_SPAN {
        assert(bits / FRACTION_SPAN == 0);
    } else if significand < 2 * FRACTION_SPAN {
        assert(bits / FRACTION_SPAN == scale);
        assert(bits % FRACTION_SPAN == significand - FRACTION_SPAN);
    } else {
        assert(bits / FRACTION_SPAN == scale + 1);
        assert(bits % FRACTION_SPAN == 0);
        lemma_pow2_unfold(scale);
        let unit = pow2((scale - 1) as nat);
        assert(FRACTION_SPAN * (2 * unit) == (2 * FRACTION_SPAN) * unit) by (nonlinear_arith);
    }
}

/// Every pattern up to infinity is put together from its own exponent and
/// significand.
pub proof fn lemma_parts_of_pattern(bits: u64)
    requires
        bits <= INFINITY_BITS,
    ensures
        bits == (scale_of(bits) - 1) * FRACTION_SPAN + significand_of(bits),
        1 <= scale_of(bits) <= 2047,
        significand_of(bits) < 2 * FRACTION_SPAN,
        significand_of(bits) >= FRACTION_SPAN || scale_of(bits) == 1,
{
}

/// The pattern of zero stands for nothing.
pub proof fn lemma_magnitude_zero()
    ensures
        magnitude(0) == 0,
{
    let unit = pow2(0);
    assert(significand_of(0) == 0);
    assert(0 * unit == 0) by (nonlinear_arith);
}

/// From one pattern to the next the value grows by one unit of the
/// pattern's exponent.
pub proof fn lemma_magnitude_step(bits: u64)
    requires
        bits < INFINITY_BITS,
    ensures
        magnitude((bits + 1) as u64) == magnitude(bits) + pow2((scale_of(bits) - 1) as nat),
        magnitude((bits + 1) as u64) > magnitude(bits),
{
    lemma_parts_of_pattern(bits);
    let scale = scale_of(bits);
    let significand = significand_of(bits);
    let unit = pow2((scale - 1) as nat);
    lemma_magnitude_of_parts(scale, significand + 1);
    lemma_pow2_pos((scale - 1) as nat);
    assert((significand + 1) * unit == significand * unit + unit) by (nonlinear_arith);
}

/// Larger patterns have larger values.
pub proof fn lemma_magnitude_increases(low: u64, high: u64)
    requires
        low < high <= INFINITY_BITS,
    ensures
        magnitude(low) < magnitude(high),
    decreases high - low,
{
    lemma_magnitude_step((high - 1) as u64);
    if low < high - 1 {
        lemma_magnitude_increases(low, (high - 1) as u64);
    }
}

/// Patterns are ordered as their values are.
pub proof fn lemma_magnitude_order(left: u64, right: u64)
    requires
        left <= INFINITY_BITS,
        right <= INFINITY_BITS,
    ensures
        left < right <==> magnitude(left) < magnitude(right),
        left == right <==> magnitude(left) == magnitude(right),
{
    if left < right {
        lemma_magnitude_increases(left, right);
    } else if right < left {
        lemma_magnitude_increases(right, left);
    }
}

/// Of two patterns that both are the rounded sum, the second is not the
/// larger one.
proof fn lemma_rounding_not_above(exact: nat, first: u64, second: u64)
    requires
        rounds_to(exact, first),
        rounds_to(exact, second),
    ensures
        second <= first,
{
    // `exact` is at most the midpoint above `first` and at least the one
    // below `second`. Were `first` the smaller, the two midpoints would be in
    // the opposite order, or one midpoint between neighbours, of which one is
    // odd.
    if first < second {
        let next = (first + 1) as u64;
        if second >= INFINITY_BITS {
            if first < MAX_FINITE_BITS {
                lemma_magnitude_increases(first, MAX_FINITE_BITS);
                lemma_magnitude_order(next, MAX_FINITE_BITS);
                lemma_magnitude_increases(MAX_FINITE_BITS, INFINITY_BITS);
            }
        } else {
            let before = (second - 1) as u64;
            lemma_magnitude_order(first, before);
            lemma_magnitude_order(next, second);
            lemma_magnitude_increases(first, second);
        }
    }
}

/// The pattern of the binary64 sum of two amounts; the pattern of infinity
/// where the sum is too large for a finite number.
pub open spec fn binary64_sum(left: Amount, right: Amount) -> u64 {
    let exact = left.value() + right.value();
    choose|bits: u64| #[trigger] rounds_to(exact, bits)
}

/// At most one pattern is the rounded sum.
pub proof fn lemma_rounding_is_unique(exact: nat, first: u64, second: u64)
    requires
        rounds_to(exact, first),
        rounds_to(exact, second),
    ensures
        first == second,
{
    lemma_rounding_not_above(exact, first, second);
    lemma_rounding_not_above(exact, second, first);
}

/// Below every pattern whose value is above `exact` there is the pattern
/// that `exact` lies on or next above.
proof fn lemma_floor_exists(exact: nat, bound: u64) -> (floor: u64)
    requires
        bound <= INFINITY_BITS,
        exact < magnitude(bound),
    ensures
        floor < bound,
        magnitude(floor) <= exact < magnitude((floor + 1) as u64),
    decreases bound,
{
    lemma_magnitude_zero();
    let before = (bound - 1) as u64;
    if magnitude(before) <= exact {
        before
    } else {
        lemma_floor_exists(exact, before)
    }
}

/// Every exact sum rounds to some pattern.
pub proof fn lemma_rounding_exists(exact: nat)
    ensures
        exists|bits: u64| #[trigger] rounds_to(exact, bits),
{
    lemma_magnitude_increases(MAX_FINITE_BITS, INFINITY_BITS);
    if exact >= magnitude(INFINITY_BITS) {
        assert(rounds_to(exact, INFINITY_BITS));
    } else {
        let floor = lemma_floor_exists(exact, INFINITY_BITS);
        let next = (floor + 1) as u64;
        let twice = magnitude(floor) + magnitude(next);
        if floor > 0 {
            lemma_magnitude_step((floor - 1) as u64);
        }
        if 2 * exact < twice || (2 * exact == twice && floor % 2 == 0) {
            assert(rounds_to(exact, floor));
        } else {
            if next < INFINITY_BITS {
                lemma_magnitude_step(next);
            }
            assert(rounds_to(exact, next));
        }
    }
}

/// The binary64 sum is the exact sum, rounded.
pub proof fn lemma_sum_rounds(left: Amount, right: Amount)
    ensures
        rounds_to(left.value() + right.value(), binary64_sum(left, right)),
{
    lemma_rounding_exists(left.value() + right.value());
}

/// An exact sum that is the value of a pattern rounds to that pattern.
pub proof fn lemma_exact_sum(left: Amount, right: Amount, bits: u64)
    requires
        bits <= INFINITY_BITS,
        left.value() + right.value() == magnitude(bits),
    ensures
        binary64_sum(left, right) == bits,
{
    let exact = left.value() + right.value();
    lemma_magnitude_increases(MAX_FINITE_BITS, INFINITY_BITS);
    if bits < INFINITY_BITS {
        lemma_magnitude_step(bits);
        if bits > 0 {
            lemma_magnitude_step((bits - 1) as u64);
        }
    }
    assert(rounds_to(exact, bits));
    lemma_sum_rounds(left, right);
    lemma_rounding_is_unique(exact, bits, binary64_sum(left, right));
}

/// Adding nothing changes nothing.
pub proof fn lemma_sum_with_nothing(amount: Amount)
    requires
        amount.wf(),
    ensures
        binary64_sum(amount, Amount { bits: 0 }) == amount.bits,
        binary64_sum(Amount { bits: 0 }, amount) == amount.bits,
{
    lemma_magnitude_zero();
    lemma_exact_sum(amount, Amount { bits: 0 }, amount.bits);
    lemma_exact_sum(Amount { bits: 0 }, amount, amount.bits);
}

/// A sum is no less than either summand.
pub proof fn lemma_sum_is_no_less(left: Amount, right: Amount)
    requires
        left.wf(),
        right.wf(),
    ensures
        binary64_sum(left, right) >= left.bits,
        binary64_sum(left, right) >= right.bits,
{
    let exact = left.value() + right.value();
    let sum = binary64_sum(left, right);
    lemma_sum_rounds(left, right);
    if sum < left.bits {
        lemma_magnitude_order((sum + 1) as u64, left.bits);
        lemma_magnitude_step(sum);
    }
    if sum < right.bits {
        lemma_magnitude_order((sum + 1) as u64, right.bits);
        lemma_magnitude_step(sum);
    }
}

/// The sum of two values, written with the parts of the two patterns.
proof fn lemma_sum_in_parts(high: u64, low: u64)
    requires
        low <= high <= MAX_FINITE_BITS,
    ensures
        scale_of(low) <= scale_of(high),
        magnitude(high) + magnitude(low) == (significand_of(high) * pow2(
            (scale_of(high) - scale_of(low)) as nat,
        ) + significand_of(low)) * pow2((scale_of(low) - 1) as nat),
{
    let gap = (scale_of(high) - scale_of(low)) as nat;
    let base = (scale_of(low) - 1) as nat;
    let factor = pow2(gap);
    let unit = pow2(base);
    let upper = significand_of(high);
    let lower = significand_of(low);
    lemma_pow2_adds(gap, base);
    assert(upper * (factor * unit) + lower * unit == (upper * factor + lower) * unit)
        by (nonlinear_arith);
}

/// A summand more than 54 exponents below the other is less than a quarter
/// of the other's unit, and leaves it unchanged.
proof fn lemma_sum_far_apart(high: u64, low: u64)
    requires
        low <= high <= MAX_FINITE_BITS,
        scale_of(high) - scale_of(low) > 54,
    ensures
        rounds_to(magnitude(high) + magnitude(low), high),
{
    let base = (scale_of(low) - 1) as nat;
    let top = (scale_of(high) - 1) as nat;
    let unit = pow2(base);
    let lower = significand_of(low);
    lemma_parts_of_pattern(low);
    lemma_pow2_pos(base);
    lemma2_to64_rest();
    assert(lower * unit < pow2(53) * unit) by (nonlinear_arith)
        requires
            lower < pow2(53),
            unit > 0,
    ;
    lemma_pow2_adds(53, base);
    lemma_pow2_unfold(53 + base + 1);
    lemma_pow2_strictly_increases(53 + base + 1, top);
    lemma_magnitude_step(high);
    lemma_magnitude_step((high - 1) as u64);
}

/// Rounding an exact sum that is given as quotient and remainder by a power
/// of two: the quotient, or the quotient and one, under the exponent raised
/// by that power.
proof fn lemma_rounded_parts(
    exact: nat,
    base_scale: nat,
    shift: nat,
    quotient: nat,
    remainder: nat,
    kept: nat,
)
    requires
        1 <= base_scale <= 2046,
        shift <= 55,
        exact == quotient * pow2(shift) + remainder,
        remainder < pow2(shift),
        quotient < 2 * FRACTION_SPAN,
        quotient >= FRACTION_SPAN || base_scale + shift == 1,
        kept == if 2 * remainder > pow2(shift) || (2 * remainder == pow2(shift) && quotient % 2
            == 1) {
            quotient + 1
        } else {
            quotient
        },
    ensures
        (base_scale + shift - 1) * FRACTION_SPAN + kept <= u64::MAX,
        ({
            let bits = ((base_scale + shift - 1) * FRACTION_SPAN + kept) as u64;
            let sum = exact * pow2((base_scale - 1) as nat);
            if bits >= INFINITY_BITS {
                rounds_to(sum, INFINITY_BITS)
            } else {
                rounds_to(sum, bits)
            }
        }),
{
    let scale = base_scale + shift;
    let step = pow2(shift);
    let unit = pow2((base_scale - 1) as nat);
    let wide = pow2((scale - 1) as nat);
    let sum = exact * unit;
    let floor = ((scale - 1) * FRACTION_SPAN + quotient) as u64;
    let part = remainder * unit;
    lemma_pow2_adds(shift, (base_scale - 1) as nat);
    lemma_pow2_pos((base_scale - 1) as nat);
    assert(wide == step * unit);
    assert(sum == quotient * wide + part) by (nonlinear_arith)
        requires
            sum == exact * unit,
            exact == quotient * step + remainder,
            wide == step * unit,
            part == remainder * unit,
    ;
    assert(part < wide && (2 * remainder < step ==> 2 * part < wide) && (2 * remainder == step
        ==> 2 * part == wide) && (2 * remainder > step ==> 2 * part > wide)) by (nonlinear_arith)
        requires
            part == remainder * unit,
            wide == step * unit,
            remainder < step,
            unit > 0,
    ;
    lemma_magnitude_of_parts(scale, quotient);
    lemma_magnitude_of_parts(scale, quotient + 1);
    assert((quotient + 1) * wide == quotient * wide + wide) by (nonlinear_arith);
    assert(magnitude(floor) == quotient * wide);
    assert(magnitude((floor + 1) as u64) == quotient * wide + wide);
    lemma_magnitude_increases(MAX_FINITE_BITS, INFINITY_BITS);
    if floor >= INFINITY_BITS {
        // The sum is no less than what the pattern of infinity stands for.
        lemma_parts_of_pattern(INFINITY_BITS);
        assert(scale >= 2047);
        if scale > 2047 {
            lemma_pow2_strictly_increases(2046, (scale - 1) as nat);
        }
        assert(quotient * wide >= FRACTION_SPAN * pow2(2046)) by (nonlinear_arith)
            requires
                quotient >= FRACTION_SPAN,
                wide >= pow2(2046),
        ;
    } else {
        if floor > 0 {
            lemma_magnitude_step((floor - 1) as u64);
        }
        if floor + 1 < INFINITY_BITS {
            lemma_magnitude_step((floor + 1) as u64);
        }
    }
}

/// `2^exponent`.
fn power_of_two(exponent: u64) -> (power: u128)
    requires
        exponent <= 64,
    ensures
        power == pow2(exponent as nat),
{
    let mut power: u128 = 1;
    let mut done: u64 = 0;
    proof {
        lemma2_to64();
    }
    while done < exponent
        invariant
            done <= exponent <= 64,
            power == pow2(done as nat),
        decreases exponent - done,
    {
        proof {
            lemma_pow2_unfold((done + 1) as nat);
            lemma2_to64();
            if done + 1 < 64 {
                lemma_pow2_strictly_increases((done + 1) as nat, 64);
            }
        }
        power = power * 2;
        done += 1;
    }
    power
}

/// The exponent that a pattern counts with.
fn scale_field(bits: u64) -> (scale: u64)
    ensures
        scale == scale_of(bits),
{
    let field: u64 = bits / FRACTION_SPAN;
    if field == 0 {
        1
    } else {
        field
    }
}

/// The integer significand of a pattern.
fn significand_field(bits: u64) -> (significand: u64)
    ensures
        significand == significand_of(bits),
{
    if bits / FRACTION_SPAN == 0 {
        bits % FRACTION_SPAN
    } else {
        FRACTION_SPAN + bits % FRACTION_SPAN
    }
}

/// An amount of money: the pattern of a finite binary64 number that is not
/// negative.
#[derive(Clone, Copy, Debug, PartialEq, Eq, Structural)]
pub struct Amount {
    /// The pattern. It has no sign bit and is neither infinity nor a NaN.
    pub bits: u64,
}

impl Amount {
    /// The pattern stands for a finite number that is not negative.
    pub open spec fn wf(&self) -> bool {
        self.bits <= MAX_FINITE_BITS
    }

    /// The amount, in units of `2^-1074`.
    pub open spec fn value(&self) -> nat {
        magnitude(self.bits)
    }

    /// What [`Amount::parse`] makes of a pattern. A NaN is no number at all;
    /// a negative number and infinity are numbers that no amount may be.
    /// Negative zero is zero.
    pub open spec fn parse_spec(bits: u64) -> Result<Amount, ProgramError> {
        let plain = if bits >= SIGN_BIT {
            (bits - SIGN_BIT) as u64
        } else {
            bits
        };
        if plain > INFINITY_BITS {
            Err(ProgramError::InvalidInstructionData)
        } else if plain == INFINITY_BITS || (bits >= SIGN_BIT && plain != 0) {
            Err(ProgramError::DomainInvariantViolation)
        } else {
            Ok(Amount { bits: plain })
        }
    }

    /// No money.
    pub fn zero() -> (amount: Amount)
        ensures
            amount.wf(),
            amount.bits == 0,
            amount.value() == 0,
    {
        proof {
            lemma_magnitude_zero();
        }
        Amount { bits: 0 }
    }

    /// Reads the pattern of a binary64 number as an amount.
    pub fn parse(bits: u64) -> (parsed: Result<Amount, ProgramError>)
        ensures
            parsed == Self::parse_spec(bits),
            parsed matches Ok(amount) ==> amount.wf(),
    {
        let plain: u64 = if bits >= SIGN_BIT {
            bits - SIGN_BIT
        } else {
            bits
        };
        if plain > INFINITY_BITS {
            Err(ProgramError::InvalidInstructionData)
        } else if plain == INFINITY_BITS || (bits >= SIGN_BIT && plain != 0) {
            Err(ProgramError::DomainInvariantViolation)
        } else {
            Ok(Amount { bits: plain })
        }
    }

    /// The binary64 pattern of the amount.
    pub fn to_bits(&self) -> (bits: u64)
        ensures
            bits == self.bits,
    {
        self.bits
    }

    /// Whether the amount is more than nothing.
    pub fn is_positive(&self) -> (positive: bool)
        requires
            self.wf(),
        ensures
            positive == (self.value() > 0),
    {
        proof {
            lemma_magnitude_order(0, self.bits);
            lemma_magnitude_zero();
        }
        self.bits > 0
    }

    /// Whether the amount is more than `other`.
    pub fn exceeds(&self, other: &Amount) -> (more: bool)
        requires
            self.wf(),
            other.wf(),
        ensures
            more == (self.value() > other.value()),
    {
        proof {
            lemma_magnitude_order(other.bits, self.bits);
        }
        self.bits > other.bits
    }

    /// Adds as binary64 addition does, rounding the exact sum to the nearest
    /// number, ties to even. `None` where that sum rounds to infinity.
    pub fn checked_add(&self, other: &Amount) -> (sum: Option<Amount>)
        requires
            self.wf(),
            other.wf(),
        ensures
            rounds_to(self.value() + other.value(), binary64_sum(*self, *other)),
            sum == if binary64_sum(*self, *other) >= INFINITY_BITS {
                None::<Amount>
            } else {
                Some(Amount { bits: binary64_sum(*self, *other) })
            },
            sum matches Some(total) ==> total.wf(),
    {
        let rounded: Option<Amount> = self.rounded_sum(other);
        proof {
            let exact = self.value() + other.value();
            let bits = match rounded {
                Some(total) => total.bits,
                None => INFINITY_BITS,
            };
            assert(rounds_to(exact, bits));
            lemma_rounding_is_unique(exact, bits, binary64_sum(*self, *other));
        }
        rounded
    }

    /// The sum, by the parts of the two patterns.
    fn rounded_sum(&self, other: &Amount) -> (sum: Option<Amount>)
        requires
            self.wf(),
            other.wf(),
        ensures
            match sum {
                Some(total) => total.wf() && rounds_to(self.value() + other.value(), total.bits),
                None => rounds_to(self.value() + other.value(), INFINITY_BITS),
            },
    {
        let (high, low): (u64, u64) = if self.bits >= other.bits {
            (self.bits, other.bits)
        } else {
            (other.bits, self.bits)
        };
        let base_scale: u64 = scale_field(low);
        let gap: u64 = scale_field(high) - base_scale;
        proof {
            lemma_sum_in_parts(high, low);
            lemma_parts_of_pattern(high);
            lemma_parts_of_pattern(low);
        }
        if gap > 54 {
            proof {
                lemma_sum_far_apart(high, low);
            }
            return Some(Amount { bits: high });
        }
        let factor: u128 = power_of_two(gap);
        let upper: u128 = significand_field(high) as u128;
        let lower: u128 = significand_field(low) as u128;
        proof {
            lemma2_to64_rest();
            if gap < 54 {
                lemma_pow2_strictly_increases(gap as nat, 54);
            }
            assert(upper * factor <= 0x20_0000_0000_0000 * 0x40_0000_0000_0000)
                by (nonlinear_arith)
                requires
                    upper <= 0x20_0000_0000_0000,
                    factor <= 0x40_0000_0000_0000,
            ;
        }
        let exact: u128 = upper * factor + lower;
        let mut step: u128 = 1;
        let mut shift: u64 = 0;
        proof {
            lemma2_to64();
        }
        while exact >= 0x20_0000_0000_0000 * step
            invariant
                step == pow2(shift as nat),
                shift <= 55,
                step <= 0x80_0000_0000_0000,
                exact < 0x1000_0000_0000_0000_0000_0000_0000,
                shift > 0 ==> exact >= 0x10_0000_0000_0000 * step,
            decreases 55 - shift,
        {
            proof {
                lemma2_to64_rest();
                lemma_pow2_unfold((shift + 1) as nat);
                if shift + 1 < 55 {
                    lemma_pow2_strictly_increases((shift + 1) as nat, 55);
                }
            }
            step = step * 2;
            shift += 1;
        }
        let quotient: u128 = exact / step;
        let remainder: u128 = exact % step;
        proof {
            lemma_pow2_pos(shift as nat);
            assert(exact == quotient * step + remainder && quotient < 0x20_0000_0000_0000 && (
            shift > 0 ==> quotient >= 0x10_0000_0000_0000)) by (nonlinear_arith)
                requires
                    step > 0,
                    quotient == exact / step,
                    remainder == exact % step,
                    exact < 0x20_0000_0000_0000 * step,
                    shift > 0 ==> exact >= 0x10_0000_0000_0000 * step,
            ;
        }
        let up: bool = 2 * remainder > step || (2 * remainder == step && quotient % 2 == 1);
        let kept: u64 = if up {
            (quotient + 1) as u64
        } else {
            quotient as u64
        };
        proof {
            if shift == 0 && quotient < FRACTION_SPAN {
                assert(step == 1);
                assert(upper * factor >= upper) by (nonlinear_arith)
                    requires
                        factor >= 1,
                ;
            }
            lemma_rounded_parts(
                exact as nat,
                base_scale as nat,
                shift as nat,
                quotient as nat,
                remainder as nat,
                kept as nat,
            );
        }
        let bits: u64 = (base_scale + shift - 1) * FRACTION_SPAN + kept;
        if bits >= INFINITY_BITS {
            None
        } else {
            Some(Amount { bits })
        }
    }
}

} // verus!
