//! Floating-point numbers, held by their IEEE 754 bit patterns.
use vstd::arithmetic::power2;
use vstd::prelude::*;

verus! {

/// A single-precision number, by its bit pattern.
#[derive(Debug, Clone, Copy)]
pub struct Single {
    pub bits: u32,
}

/// A double-precision number, by its bit pattern.
#[derive(Debug, Clone, Copy)]
pub struct Double {
    pub bits: u64,
}

/// Two patterns are equal as numbers where they are the same and stand for a number, and where both
/// are zeros.
impl PartialEq for Single {
    fn eq(&self, other: &Single) -> (equal: bool) {
        let magnitude = self.bits % 0x8000_0000;
        magnitude <= 0x7f80_0000 && (self.bits == other.bits || magnitude == 0 && other.bits
            % 0x8000_0000 == 0)
    }
}

impl vstd::std_specs::cmp::PartialEqSpecImpl for Single {
    open spec fn obeys_eq_spec() -> bool {
        true
    }

    open spec fn eq_spec(&self, other: &Single) -> bool {
        &&& !self.is_nan() && !other.is_nan()
        &&& self.bits == other.bits || self.unsigned_bits() == 0 && other.unsigned_bits() == 0
    }
}

/// Two patterns are equal as numbers where they are the same and stand for a number, and where both
/// are zeros.
impl PartialEq for Double {
    fn eq(&self, other: &Double) -> (equal: bool) {
        let magnitude = self.bits % 0x8000_0000_0000_0000;
        magnitude <= 0x7ff0_0000_0000_0000 && (self.bits == other.bits || magnitude == 0
            && other.bits % 0x8000_0000_0000_0000 == 0)
    }
}

impl vstd::std_specs::cmp::PartialEqSpecImpl for Double {
    open spec fn obeys_eq_spec() -> bool {
        true
    }

    open spec fn eq_spec(&self, other: &Double) -> bool {
        &&& !self.is_nan() && !other.is_nan()
        &&& self.bits == other.bits || self.unsigned_bits() == 0 && other.unsigned_bits() == 0
    }
}

impl Double {
    /// The bits under the sign bit.
    pub open spec fn unsigned_bits(self) -> nat {
        (self.bits % 0x8000_0000_0000_0000) as nat
    }

    /// Whether this is one of the patterns that stand for no number.
    pub open spec fn is_nan(self) -> bool {
        self.unsigned_bits() > 0x7ff0_0000_0000_0000
    }
}

/// The size of a finite single-precision number, as a multiple of the smallest positive one: what
/// the bits under the sign bit write, as an exponent and a fraction.
pub open spec fn single_size(unsigned_bits: nat) -> nat {
    let exponent = unsigned_bits / 0x80_0000;
    let fraction = unsigned_bits % 0x80_0000;
    if exponent == 0 {
        fraction
    } else {
        (0x80_0000 + fraction) * power2::pow2((exponent - 1) as nat)
    }
}

impl Single {
    /// Whether the sign bit is set.
    pub open spec fn negative(self) -> bool {
        self.bits >= 0x8000_0000
    }

    /// The bits under the sign bit.
    pub open spec fn unsigned_bits(self) -> nat {
        (self.bits % 0x8000_0000) as nat
    }

    /// Whether this is one of the patterns that stand for no number.
    pub open spec fn is_nan(self) -> bool {
        self.unsigned_bits() > 0x7f80_0000
    }

    /// Whether this is an infinity.
    pub open spec fn is_infinite(self) -> bool {
        self.unsigned_bits() == 0x7f80_0000
    }

    /// The size of this number, as a multiple of the smallest positive one. One is two to the
    /// power 149 times that.
    pub open spec fn size(self) -> nat {
        single_size(self.unsigned_bits())
    }

    /// Whether this number is greater than one.
    pub open spec fn above_one(self) -> bool {
        &&& !self.is_nan() && !self.negative()
        &&& self.is_infinite() || self.size() > power2::pow2(149)
    }

    /// Whether this number is less than zero.
    pub open spec fn below_zero(self) -> bool {
        !self.is_nan() && self.negative() && (self.is_infinite() || self.size() > 0)
    }

    /// Whether this number is zero, of either sign.
    pub open spec fn equals_zero(self) -> bool {
        !self.is_nan() && !self.is_infinite() && self.size() == 0
    }

    /// Whether this number is one.
    pub open spec fn equals_one(self) -> bool {
        &&& !self.is_nan() && !self.is_infinite() && !self.negative()
        &&& self.size() == power2::pow2(149)
    }

    /// Tells whether this pattern stands for a number.
    pub fn is_number(&self) -> (number: bool)
        ensures
            number == !self.is_nan(),
    {
        self.bits % 0x8000_0000 <= 0x7f80_0000
    }

    /// Tells whether this number is greater than one.
    pub fn is_above_one(&self) -> (above: bool)
        ensures
            above == self.above_one(),
    {
        proof {
            lemma_order_by_bits(*self);
        }
        self.bits > 0x3f80_0000 && self.bits <= 0x7f80_0000
    }

    /// Tells whether this number is less than zero.
    pub fn is_below_zero(&self) -> (below: bool)
        ensures
            below == self.below_zero(),
    {
        proof {
            lemma_order_by_bits(*self);
        }
        self.bits > 0x8000_0000 && self.bits <= 0xff80_0000
    }

    /// Tells whether this number is zero, of either sign.
    pub fn is_zero(&self) -> (zero: bool)
        ensures
            zero == self.equals_zero(),
    {
        proof {
            lemma_order_by_bits(*self);
        }
        self.bits == 0 || self.bits == 0x8000_0000
    }

    /// Tells whether this number is one.
    pub fn is_one(&self) -> (one: bool)
        ensures
            one == self.equals_one(),
    {
        proof {
            lemma_order_by_bits(*self);
        }
        self.bits == 0x3f80_0000
    }
}

/// The place of a number among zero and one can be read off its bit pattern.
pub proof fn lemma_order_by_bits(number: Single)
    ensures
        number.above_one() <==> 0x3f80_0000 < number.bits <= 0x7f80_0000,
        number.below_zero() <==> 0x8000_0000 < number.bits <= 0xff80_0000,
        number.equals_zero() <==> number.bits == 0 || number.bits == 0x8000_0000,
        number.equals_one() <==> number.bits == 0x3f80_0000,
{
    lemma_size_of_one();
    lemma_size_order(0, number.unsigned_bits());
    lemma_size_order(number.unsigned_bits(), 0x3f80_0000);
    lemma_size_order(0x3f80_0000, number.unsigned_bits());
}

/// Sizes are ordered as the patterns under the sign bit are.
proof fn lemma_size_order(left: nat, right: nat)
    ensures
        left < right ==> single_size(left) < single_size(right),
{
    if left < right {
        let left_exponent = left / 0x80_0000;
        let right_exponent = right / 0x80_0000;
        assert(left_exponent <= right_exponent);
        if right_exponent == 0 {
        } else if left_exponent == right_exponent {
            let scale = power2::pow2((left_exponent - 1) as nat);
            power2::lemma_pow2_pos((left_exponent - 1) as nat);
            let a = 0x80_0000 + left % 0x80_0000;
            let b = 0x80_0000 + right % 0x80_0000;
            assert(a < b);
            assert(a * scale < b * scale) by (nonlinear_arith)
                requires
                    a < b,
                    scale > 0,
            ;
        } else {
            let high = power2::pow2((right_exponent - 1) as nat);
            power2::lemma_pow2_pos((right_exponent - 1) as nat);
            let b = 0x80_0000 + right % 0x80_0000;
            assert(0x80_0000 * high <= b * high) by (nonlinear_arith)
                requires
                    b >= 0x80_0000,
            ;
            if left_exponent == 0 {
                assert(0x80_0000 <= 0x80_0000 * high);
            } else {
                let low = power2::pow2((left_exponent - 1) as nat);
                power2::lemma_pow2_pos((left_exponent - 1) as nat);
                power2::lemma_pow2_unfold(left_exponent);
                if left_exponent < right_exponent - 1 {
                    power2::lemma_pow2_strictly_increases(
                        left_exponent,
                        (right_exponent - 1) as nat,
                    );
                }
                let a = 0x80_0000 + left % 0x80_0000;
                assert(a * low < 0x80_0000 * (2 * low)) by (nonlinear_arith)
                    requires
                        a < 0x100_0000,
                        low > 0,
                ;
            }
        }
    }
}

/// The pattern of one has the size two to the power 149.
proof fn lemma_size_of_one()
    ensures
        single_size(0x3f80_0000) == power2::pow2(149),
{
    power2::lemma_pow2_adds(23, 126);
    power2::lemma2_to64();
}

/// Two numbers are equal just where they have the same pattern, which stands for a number, or are
/// the two zeros.
pub proof fn law_equal_singles(left: Single, right: Single, equal: bool)
    requires
        call_ensures(<Single as PartialEq>::eq, (&left, &right), equal),
    ensures
        equal <==> {
            ||| left.bits == right.bits && (left.bits <= 0x7f80_0000 || 0x8000_0000 <= left.bits
                <= 0xff80_0000)
            ||| left.bits == 0 && right.bits == 0x8000_0000
            ||| left.bits == 0x8000_0000 && right.bits == 0
        },
{
}

/// Two numbers are equal just where they have the same pattern, which stands for a number, or are
/// the two zeros.
pub proof fn law_equal_doubles(left: Double, right: Double, equal: bool)
    requires
        call_ensures(<Double as PartialEq>::eq, (&left, &right), equal),
    ensures
        equal <==> {
            ||| left.bits == right.bits && (left.bits <= 0x7ff0_0000_0000_0000
                || 0x8000_0000_0000_0000 <= left.bits <= 0xfff0_0000_0000_0000)
            ||| left.bits == 0 && right.bits == 0x8000_0000_0000_0000
            ||| left.bits == 0x8000_0000_0000_0000 && right.bits == 0
        },
{
}

/// A pattern stands for no number just where all bits of its exponent are set and its fraction is
/// not zero, whatever its sign. What stands for none is neither above one, nor below zero, nor
/// equal to either.
pub proof fn law_numbers(number: Single, answer: bool)
    requires
        call_ensures(Single::is_number, (&number,), answer),
    ensures
        !answer <==> 0x7f80_0000 < number.bits < 0x8000_0000 || 0xff80_0000 < number.bits,
        !answer ==> !number.above_one() && !number.below_zero() && !number.equals_zero()
            && !number.equals_one(),
{
}

/// Where a number stands to zero and one is told by its pattern: the patterns of the positive
/// numbers are ordered as the numbers are, and the sign bit makes them negative.
pub proof fn law_order_is_told(
    number: Single,
    above_one: bool,
    below_zero: bool,
    zero: bool,
    one: bool,
)
    requires
        call_ensures(Single::is_above_one, (&number,), above_one),
        call_ensures(Single::is_below_zero, (&number,), below_zero),
        call_ensures(Single::is_zero, (&number,), zero),
        call_ensures(Single::is_one, (&number,), one),
    ensures
        above_one <==> 0x3f80_0000 < number.bits <= 0x7f80_0000,
        below_zero <==> 0x8000_0000 < number.bits <= 0xff80_0000,
        zero <==> number.bits == 0 || number.bits == 0x8000_0000,
        one <==> number.bits == 0x3f80_0000,
{
    lemma_order_by_bits(number);
}

} // verus!
