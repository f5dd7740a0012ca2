//! Measured quantities.
//!
//! Percentages, gigabytes and rates travel as IEEE 754 binary64 numbers. The rules of this crate
//! only store and compare them, so a quantity is kept as its bit pattern and given an exact
//! value for the comparisons to speak of; sums and quotients are formed where the numbers are
//! native.
use vstd::arithmetic::power2::*;
use vstd::prelude::*;

verus! {

/// The bit pattern of zero.
pub const ZERO_BITS: u64 = 0;

/// The bit pattern of 80.
pub const EIGHTY_BITS: u64 = 0x4054_0000_0000_0000;

/// The bit pattern of 90.
pub const NINETY_BITS: u64 = 0x4056_8000_0000_0000;

/// The bit pattern of 100.
pub const HUNDRED_BITS: u64 = 0x4059_0000_0000_0000;

const SIGN_BIT: u64 = 0x8000_0000_0000_0000;

const INFINITY_BITS: u64 = 0x7ff0_0000_0000_0000;

/// A binary64 number by its bit pattern.
///
/// `==` compares bit patterns; numbers are compared with [`Quantity::at_least`] and
/// [`Quantity::above`].
#[derive(Clone, Copy, Debug, PartialEq, Eq, Structural)]
pub struct Quantity {
    pub bits: u64,
}

/// How many units of 2^-1074, the smallest step between two numbers, make up one.
pub open spec fn one() -> nat {
    pow2(1074)
}

/// The size, in units, of a number whose bits without the sign are `m`. Infinity gets the size
/// that its bits would have as an ordinary number, which is above every finite one.
pub open spec fn size_of_bits(m: nat) -> nat {
    let exponent = m / 0x10_0000_0000_0000;
    let fraction = m % 0x10_0000_0000_0000;
    if exponent == 0 {
        fraction
    } else {
        (0x10_0000_0000_0000 + fraction) * pow2((exponent - 1) as nat)
    }
}

/// The distance between two values.
pub open spec fn distance(a: int, b: int) -> int {
    if a <= b {
        b - a
    } else {
        a - b
    }
}

impl Quantity {
    /// The sign bit is set.
    pub open spec fn negative(self) -> bool {
        self.bits >= 0x8000_0000_0000_0000
    }

    /// The bits without the sign.
    pub open spec fn unsigned_bits(self) -> nat {
        if self.negative() {
            (self.bits - 0x8000_0000_0000_0000) as nat
        } else {
            self.bits as nat
        }
    }

    /// Not a number.
    pub open spec fn nan(self) -> bool {
        self.unsigned_bits() > 0x7ff0_0000_0000_0000
    }

    /// The exact value, in units.
    pub open spec fn units(self) -> int {
        if self.negative() {
            -(size_of_bits(self.unsigned_bits()) as int)
        } else {
            size_of_bits(self.unsigned_bits()) as int
        }
    }

    /// `self >= other`, which holds of no pair with a NaN.
    pub open spec fn spec_at_least(self, other: Quantity) -> bool {
        !self.nan() && !other.nan() && self.units() >= other.units()
    }

    /// `self > other`, which holds of no pair with a NaN.
    pub open spec fn spec_above(self, other: Quantity) -> bool {
        !self.nan() && !other.nan() && self.units() > other.units()
    }

    /// Neither infinite nor NaN.
    pub open spec fn finite(self) -> bool {
        self.unsigned_bits() < 0x7ff0_0000_0000_0000
    }

    /// A number nearest to an exact value, as native arithmetic rounds its results.
    pub open spec fn nearest_to(self, exact: int) -> bool {
        &&& !self.nan()
        &&& forall|other: Quantity|
            !other.nan() ==> distance(self.units(), exact) <= distance(
                #[trigger] other.units(),
                exact,
            )
    }

    /// What native arithmetic can make of `a + b`. Infinities of opposite signs have no sum.
    pub open spec fn is_sum(self, a: Quantity, b: Quantity) -> bool {
        if a.finite() && b.finite() {
            self.nearest_to(a.units() + b.units())
        } else if a.nan() || b.nan() {
            false
        } else if a.finite() {
            self == b
        } else if b.finite() {
            self == a
        } else {
            self == a && self == b
        }
    }

    /// A number nearest to a ratio with a denominator above zero, found by multiplying both sides
    /// of the comparison by the denominator.
    pub open spec fn nearest_to_ratio(self, numerator: int, denominator: int) -> bool {
        &&& !self.nan()
        &&& forall|other: Quantity|
            !other.nan() ==> distance(self.units() * denominator, numerator) <= distance(
                #[trigger] other.units() * denominator,
                numerator,
            )
    }

    /// What native arithmetic can make of `a / b` for `b` above zero. Infinity over infinity has
    /// no quotient.
    pub open spec fn is_quotient(self, a: Quantity, b: Quantity) -> bool {
        if a.nan() || b.nan() || b.units() <= 0 {
            false
        } else if a.finite() && b.finite() {
            self.nearest_to_ratio(a.units() * one(), b.units())
        } else if b.finite() {
            self == a
        } else {
            a.finite() && !self.nan() && self.units() == 0
        }
    }

    /// What native arithmetic can make of `a * 100`.
    pub open spec fn is_hundredfold(self, a: Quantity) -> bool {
        if a.finite() {
            self.nearest_to(100 * a.units())
        } else {
            !a.nan() && self == a
        }
    }

    /// A finite number of single precision: an integer below 2^24, with a sign, times a power of
    /// two from 2^-149 to 2^104.
    pub open spec fn single(self) -> bool {
        &&& self.finite()
        &&& exists|m: nat, e: nat|
            m < 0x100_0000 && e <= 253 && distance(self.units(), 0) == #[trigger] (m * pow2(
                925 + e,
            ))
    }

    /// What native arithmetic can make of this number in single precision: a nearest one, or an
    /// infinity from half a step above the largest one on.
    pub open spec fn narrows_to(self, narrow: Quantity) -> bool {
        if self.nan() {
            false
        } else if distance(self.units(), 0) < (pow2(128) - pow2(103)) * one() {
            &&& narrow.single()
            &&& forall|other: Quantity| #[trigger]
                other.single() ==> distance(narrow.units(), self.units()) <= distance(
                    other.units(),
                    self.units(),
                )
        } else {
            !narrow.nan() && !narrow.finite() && narrow.negative() == self.negative()
        }
    }

    /// A sum that is exactly at or above a finite number, itself not below zero, stays there when
    /// it is rounded.
    pub proof fn lemma_sum_at_least(self, sum: Quantity, a: Quantity, b: Quantity)
        requires
            sum.is_sum(a, b),
            self.finite(),
            self.units() >= 0,
            a.units() + b.units() >= self.units(),
        ensures
            sum.units() >= self.units(),
    {
        if a.finite() && b.finite() {
            let exact = a.units() + b.units();
            assert(distance(sum.units(), exact) <= distance(self.units(), exact));
        } else {
            let infinity = 0x7ff0_0000_0000_0000nat;
            lemma_size_zero(infinity);
            lemma_sizes_follow_bits(a.unsigned_bits(), infinity);
            lemma_sizes_follow_bits(b.unsigned_bits(), infinity);
            assert(sum.unsigned_bits() == infinity);
            sum.lemma_infinity_is_largest(self);
        }
    }

    /// Positive infinity is at least every number.
    pub proof fn lemma_infinity_is_largest(self, other: Quantity)
        requires
            !self.nan(),
            !self.finite(),
            self.units() >= 0,
            !other.nan(),
        ensures
            self.units() >= other.units(),
    {
        lemma_size_zero(self.unsigned_bits());
        lemma_sizes_follow_bits(other.unsigned_bits(), self.unsigned_bits());
    }

    /// Zero.
    pub open spec fn spec_zero() -> Quantity {
        Quantity { bits: ZERO_BITS }
    }

    /// Zero.
    pub fn zero() -> (res: Quantity)
        ensures
            res == Quantity::spec_zero(),
            !res.nan(),
            res.units() == 0,
    {
        Quantity { bits: ZERO_BITS }
    }

    /// Eighty.
    pub fn eighty() -> (res: Quantity)
        ensures
            res == (Quantity { bits: EIGHTY_BITS }),
            !res.nan(),
            res.units() == 80 * one(),
    {
        proof {
            lemma_whole(80);
        }
        Quantity { bits: EIGHTY_BITS }
    }

    /// Ninety.
    pub fn ninety() -> (res: Quantity)
        ensures
            res == (Quantity { bits: NINETY_BITS }),
            !res.nan(),
            res.units() == 90 * one(),
    {
        proof {
            lemma_whole(90);
        }
        Quantity { bits: NINETY_BITS }
    }

    /// One hundred.
    pub fn hundred() -> (res: Quantity)
        ensures
            res == (Quantity { bits: HUNDRED_BITS }),
            !res.nan(),
            res.units() == 100 * one(),
    {
        proof {
            lemma_whole(100);
        }
        Quantity { bits: HUNDRED_BITS }
    }

    /// A whole number below 2^53, exactly.
    pub fn from_count(n: u64) -> (res: Quantity)
        requires
            n < 0x20_0000_0000_0000,
        ensures
            res == whole(n as nat),
            !res.nan(),
            !res.negative(),
            res.units() == n * one(),
    {
        if n == 0 {
            let res = Quantity { bits: ZERO_BITS };
            proof {
                lemma_whole_is_unique(res, 0);
            }
            return res;
        }
        // Shift the leading one to its place; the exponent falls by one for each step.
        let mut scaled: u64 = n;
        let mut exponent: u64 = 1075;
        proof {
            lemma_pow2_adds(0, 1074);
            lemma2_to64();
        }
        while scaled < 0x10_0000_0000_0000
            invariant
                0 < n < 0x20_0000_0000_0000,
                n <= scaled < 0x20_0000_0000_0000,
                1023 <= exponent <= 1075,
                scaled >= pow2((1075 - exponent) as nat),
                scaled * pow2((exponent - 1) as nat) == n * one(),
            decreases exponent,
        {
            proof {
                lemma_pow2_unfold((exponent - 1) as nat);
                lemma_pow2_unfold((1076 - exponent) as nat);
                if exponent == 1023 {
                    lemma2_to64_rest();
                }
                let half = pow2((exponent - 2) as nat);
                assert(scaled * (2 * half) == (2 * scaled) * half) by (nonlinear_arith);
            }
            scaled = scaled * 2;
            exponent = exponent - 1;
        }
        let fraction: u64 = scaled - 0x10_0000_0000_0000;
        let res = Quantity { bits: exponent * 0x10_0000_0000_0000 + fraction };
        proof {
            lemma_whole_is_unique(res, n as nat);
        }
        res
    }

    /// The bits without the sign.
    fn low_bits(self) -> (res: u64)
        ensures
            res == self.unsigned_bits(),
            res < SIGN_BIT,
    {
        if self.bits >= SIGN_BIT {
            self.bits - SIGN_BIT
        } else {
            self.bits
        }
    }

    /// Tells whether `self >= other`.
    #[verifier::when_used_as_spec(spec_at_least)]
    pub fn at_least(self, other: Quantity) -> (res: bool)
        ensures
            res == self.spec_at_least(other),
    {
        let a: u64 = self.low_bits();
        let b: u64 = other.low_bits();
        proof {
            lemma_sizes_follow_bits(a as nat, b as nat);
            lemma_sizes_follow_bits(b as nat, a as nat);
            lemma_size_zero(a as nat);
            lemma_size_zero(b as nat);
        }
        if a > INFINITY_BITS || b > INFINITY_BITS {
            false
        } else if self.bits >= SIGN_BIT {
            if other.bits >= SIGN_BIT {
                a <= b
            } else {
                a == 0 && b == 0
            }
        } else {
            other.bits >= SIGN_BIT || a >= b
        }
    }

    /// Tells whether `self > other`.
    #[verifier::when_used_as_spec(spec_above)]
    pub fn above(self, other: Quantity) -> (res: bool)
        ensures
            res == self.spec_above(other),
    {
        let a: u64 = self.low_bits();
        let b: u64 = other.low_bits();
        proof {
            lemma_sizes_follow_bits(a as nat, b as nat);
            lemma_sizes_follow_bits(b as nat, a as nat);
            lemma_size_zero(a as nat);
            lemma_size_zero(b as nat);
        }
        if a > INFINITY_BITS || b > INFINITY_BITS {
            false
        } else if self.bits >= SIGN_BIT {
            other.bits >= SIGN_BIT && a < b
        } else if other.bits >= SIGN_BIT {
            a > 0 || b > 0
        } else {
            a > b
        }
    }
}

/// The quantity of exactly `n`.
pub open spec fn whole(n: nat) -> Quantity {
    choose|q: Quantity| !q.negative() && !q.nan() && #[trigger] q.units() == n * one()
}

/// A quotient of a number by one that is not larger is at least one.
pub proof fn lemma_quotient_at_least_one(quotient: Quantity, a: Quantity, b: Quantity)
    requires
        quotient.is_quotient(a, b),
        b.finite(),
        a.units() >= b.units(),
    ensures
        quotient.units() >= one(),
{
    lemma_whole_exists(1);
    let w = whole(1);
    let d = b.units();
    if a.finite() {
        let n = a.units() * one();
        lemma_pow2_pos(1074);
        assert(w.units() * d <= n) by (nonlinear_arith)
            requires
                w.units() == one(),
                n == a.units() * one(),
                d <= a.units(),
                one() > 0,
        ;
        if quotient.units() < one() {
            assert(quotient.units() * d < w.units() * d) by (nonlinear_arith)
                requires
                    quotient.units() < w.units(),
                    d > 0,
            ;
            assert(distance(quotient.units() * d, n) <= distance(w.units() * d, n));
        }
    } else {
        lemma_size_zero(a.unsigned_bits());
        quotient.lemma_infinity_is_largest(w);
    }
}

/// A hundred times a number of at least one is at least a hundred.
pub proof fn lemma_hundredfold_at_least_hundred(pct: Quantity, a: Quantity)
    requires
        pct.is_hundredfold(a),
        a.units() >= one(),
    ensures
        pct.at_least(Quantity { bits: HUNDRED_BITS }),
{
    let hundred = Quantity { bits: HUNDRED_BITS };
    lemma_whole(100);
    if a.finite() {
        assert(distance(pct.units(), 100 * a.units()) <= distance(
            hundred.units(),
            100 * a.units(),
        ));
    } else {
        lemma_pow2_pos(1074);
        pct.lemma_infinity_is_largest(hundred);
    }
}

/// A number of at least a hundred is at least a hundred in single precision too.
pub proof fn lemma_narrowed_at_least_hundred(pct: Quantity, narrow: Quantity)
    requires
        pct.narrows_to(narrow),
        pct.at_least(Quantity { bits: HUNDRED_BITS }),
    ensures
        narrow.at_least(Quantity { bits: HUNDRED_BITS }),
{
    let hundred = Quantity { bits: HUNDRED_BITS };
    lemma_whole(100);
    lemma_pow2_pos(1074);
    if narrow.finite() {
        assert(hundred.single()) by {
            assert(distance(hundred.units(), 0) == 100 * pow2((925 + 149) as nat));
        }
    } else {
        lemma_size_zero(narrow.unsigned_bits());
        narrow.lemma_infinity_is_largest(hundred);
    }
}

/// A whole number from 0 to below 2^53.
pub open spec fn count(q: Quantity) -> bool {
    !q.nan() && exists|n: nat| n < 0x20_0000_0000_0000 && q.units() == #[trigger] (n * one())
}

/// For every whole number below 2^53 there is a quantity of exactly that value.
pub proof fn lemma_whole_exists(n: nat)
    requires
        n < 0x20_0000_0000_0000,
    ensures
        !whole(n).negative(),
        whole(n).finite(),
        whole(n).units() == n * one(),
{
    if n == 0 {
        assert(Quantity::spec_zero().units() == 0);
        lemma_whole_is_unique(Quantity::spec_zero(), 0);
    } else {
        lemma_pow2_adds(0, 1074);
        lemma2_to64();
        lemma_scaled(n, n, 1075);
    }
}

proof fn lemma_scaled(n: nat, scaled: nat, exponent: nat)
    requires
        0 < n < 0x20_0000_0000_0000,
        n <= scaled < 0x20_0000_0000_0000,
        1023 <= exponent <= 1075,
        scaled >= pow2((1075 - exponent) as nat),
        scaled * pow2((exponent - 1) as nat) == n * one(),
    ensures
        !whole(n).negative(),
        whole(n).finite(),
        whole(n).units() == n * one(),
    decreases exponent,
{
    if scaled < 0x10_0000_0000_0000 {
        lemma_pow2_unfold((exponent - 1) as nat);
        lemma_pow2_unfold((1076 - exponent) as nat);
        if exponent == 1023 {
            lemma2_to64_rest();
        }
        let half = pow2((exponent - 2) as nat);
        assert(scaled * (2 * half) == (2 * scaled) * half) by (nonlinear_arith);
        lemma_scaled(n, 2 * scaled, (exponent - 1) as nat);
    } else {
        let fraction = (scaled - 0x10_0000_0000_0000) as nat;
        let q = Quantity { bits: (exponent * 0x10_0000_0000_0000 + fraction) as u64 };
        assert(q.units() == n * one());
        lemma_whole_is_unique(q, n);
    }
}

/// A number nearest to a whole number below 2^53 is that number.
pub proof fn lemma_nearest_to_whole(q: Quantity, n: nat)
    requires
        n < 0x20_0000_0000_0000,
        q.nearest_to((n * one()) as int),
    ensures
        q.units() == n * one(),
        q.finite(),
        count(q),
{
    lemma_whole_exists(n);
    let w = whole(n);
    assert(distance(q.units(), (n * one()) as int) <= distance(w.units(), (n * one()) as int));
    if !q.finite() {
        lemma_sizes_follow_bits(w.unsigned_bits(), q.unsigned_bits());
    }
}

proof fn lemma_whole_is_unique(q: Quantity, n: nat)
    requires
        !q.negative(),
        !q.nan(),
        q.units() == n * one(),
    ensures
        q == whole(n),
{
    let w = whole(n);
    lemma_sizes_follow_bits(q.bits as nat, w.bits as nat);
    lemma_sizes_follow_bits(w.bits as nat, q.bits as nat);
}

/// The value of the bit pattern of 80.
pub proof fn lemma_eighty()
    ensures
        !(Quantity { bits: EIGHTY_BITS }).nan(),
        (Quantity { bits: EIGHTY_BITS }).units() == 80 * one(),
{
    lemma_whole(80);
}

/// The value of the bit pattern of 90.
pub proof fn lemma_ninety()
    ensures
        !(Quantity { bits: NINETY_BITS }).nan(),
        (Quantity { bits: NINETY_BITS }).units() == 90 * one(),
{
    lemma_whole(90);
}

/// The value of the bit pattern of 100.
pub proof fn lemma_hundred()
    ensures
        !(Quantity { bits: HUNDRED_BITS }).nan(),
        (Quantity { bits: HUNDRED_BITS }).units() == 100 * one(),
{
    lemma_whole(100);
}

proof fn lemma_whole(n: nat)
    ensures
        (n * 0x4000_0000_0000) * pow2(1028) == n * one(),
{
    lemma2_to64_rest();
    lemma_pow2_adds(46, 1028);
    assert((n * 0x4000_0000_0000) * pow2(1028) == n * (0x4000_0000_0000 * pow2(1028)))
        by (nonlinear_arith);
}

proof fn lemma_size_zero(m: nat)
    ensures
        size_of_bits(m) == 0 <==> m == 0,
{
    let exponent = m / 0x10_0000_0000_0000;
    let fraction = m % 0x10_0000_0000_0000;
    if exponent > 0 {
        lemma_pow2_pos((exponent - 1) as nat);
        assert((0x10_0000_0000_0000 + fraction) * pow2((exponent - 1) as nat) > 0)
            by (nonlinear_arith)
            requires
                pow2((exponent - 1) as nat) > 0,
        ;
    }
}

/// Larger bits without the sign make a larger number.
proof fn lemma_sizes_follow_bits(a: nat, b: nat)
    requires
        a < 0x8000_0000_0000_0000,
        b < 0x8000_0000_0000_0000,
    ensures
        a < b ==> size_of_bits(a) < size_of_bits(b),
        a == b ==> size_of_bits(a) == size_of_bits(b),
{
    if a < b {
        let ea = a / 0x10_0000_0000_0000;
        let fa = a % 0x10_0000_0000_0000;
        let eb = b / 0x10_0000_0000_0000;
        let fb = b % 0x10_0000_0000_0000;
        if eb > 0 {
            let pb = pow2((eb - 1) as nat);
            lemma_pow2_pos((eb - 1) as nat);
            assert(size_of_bits(b) >= 0x10_0000_0000_0000 * pb) by (nonlinear_arith)
                requires
                    size_of_bits(b) == (0x10_0000_0000_0000 + fb) * pb,
                    pb > 0,
            ;
            if ea == 0 {
                assert(0x10_0000_0000_0000 * pb >= 0x10_0000_0000_0000) by (nonlinear_arith)
                    requires
                        pb > 0,
                ;
            } else {
                let pa = pow2((ea - 1) as nat);
                lemma_pow2_pos((ea - 1) as nat);
                if ea == eb {
                    assert((0x10_0000_0000_0000 + fa) * pa < (0x10_0000_0000_0000 + fb) * pa)
                        by (nonlinear_arith)
                        requires
                            fa < fb,
                            pa > 0,
                    ;
                } else {
                    lemma_pow2_unfold(ea);
                    if ea < eb - 1 {
                        lemma_pow2_strictly_increases(ea, (eb - 1) as nat);
                    }
                    assert(2 * pa <= pb);
                    assert((0x10_0000_0000_0000 + fa) * pa < 0x10_0000_0000_0000 * pb)
                        by (nonlinear_arith)
                        requires
                            fa < 0x10_0000_0000_0000,
                            pa > 0,
                            2 * pa <= pb,
                    ;
                }
            }
        }
    }
}

// Laws

/// NaN is above nothing and at least nothing, and nothing is so of NaN. Its bit patterns are
/// those beyond an infinity of either sign.
pub proof fn law_nan_compares_with_nothing(a: Quantity, b: Quantity)
    ensures
        a.nan() <==> 0x7ff0_0000_0000_0000 < a.bits < 0x8000_0000_0000_0000 || a.bits
            > 0xfff0_0000_0000_0000,
        a.nan() || b.nan() ==> !a.at_least(b) && !a.above(b),
{
}

/// Numbers are ordered as their bit patterns if neither is negative, and the other way round if
/// both are; a negative one is below any other, except that the two zeros are alike.
pub proof fn law_order_follows_bits(a: Quantity, b: Quantity)
    requires
        !a.nan(),
        !b.nan(),
    ensures
        a.bits < 0x8000_0000_0000_0000 && b.bits < 0x8000_0000_0000_0000 ==> (a.at_least(b)
            <==> a.bits >= b.bits),
        a.bits >= 0x8000_0000_0000_0000 && b.bits >= 0x8000_0000_0000_0000 ==> (a.at_least(b)
            <==> a.bits <= b.bits),
        a.bits < 0x8000_0000_0000_0000 && b.bits >= 0x8000_0000_0000_0000 ==> a.at_least(b),
        a.bits >= 0x8000_0000_0000_0000 && b.bits < 0x8000_0000_0000_0000 ==> (a.at_least(b)
            <==> a.bits == 0x8000_0000_0000_0000 && b.bits == 0),
        a.above(b) <==> !b.at_least(a),
{
    let m = a.unsigned_bits();
    let n = b.unsigned_bits();
    lemma_sizes_follow_bits(m, n);
    lemma_sizes_follow_bits(n, m);
    lemma_size_zero(m);
    lemma_size_zero(n);
}

/// Zero is zero, the negative of a number has the negative value, and from one number to the next
/// it is one unit among the smallest numbers, and twice as far in each following stretch.
pub proof fn law_values_go_in_steps(a: Quantity, b: Quantity)
    ensures
        (Quantity { bits: 0 }).units() == 0,
        b.bits == a.bits + 0x8000_0000_0000_0000 ==> b.units() == -a.units(),
        b.bits == a.bits + 1 && b.bits < 0x10_0000_0000_0000 ==> b.units() == a.units() + 1,
        b.bits == a.bits + 1 && 0x10_0000_0000_0000 <= a.bits && b.bits < 0x8000_0000_0000_0000
            ==> b.units() == a.units() + pow2(
            (a.bits as nat / 0x10_0000_0000_0000 - 1) as nat,
        ),
        b.bits == a.bits + 1 && b.bits == 0x10_0000_0000_0000 ==> b.units() == a.units() + 1,
{
    if b.bits == a.bits + 1 && b.bits < 0x8000_0000_0000_0000 && b.bits >= 0x10_0000_0000_0000 {
        let e = a.bits as nat / 0x10_0000_0000_0000;
        let f = a.bits as nat % 0x10_0000_0000_0000;
        lemma2_to64();
        if e == 0 {
            assert(b.bits as nat / 0x10_0000_0000_0000 == 1);
            assert(pow2(0) == 1);
        } else {
            let p = pow2((e - 1) as nat);
            if f < 0x10_0000_0000_0000 - 1 {
                assert(b.bits as nat / 0x10_0000_0000_0000 == e);
                assert((0x10_0000_0000_0000 + f + 1) * p == (0x10_0000_0000_0000 + f) * p + p)
                    by (nonlinear_arith);
            } else {
                assert(b.bits as nat / 0x10_0000_0000_0000 == e + 1);
                assert(b.bits as nat % 0x10_0000_0000_0000 == 0);
                lemma_pow2_unfold(e);
                assert(0x10_0000_0000_0000 * (2 * p) == (0x10_0000_0000_0000 + f) * p + p)
                    by (nonlinear_arith)
                    requires
                        f == 0x10_0000_0000_0000 - 1,
                ;
            }
        }
    }
}

} // verus!
