//! Double-precision numbers, held by their bit patterns.
//!
//! The rules of the monitor compare readings with thresholds and with each other. They need the
//! order of the numbers and nothing else of their arithmetic, and the order is read off the bits.
use vstd::arithmetic::mul::{lemma_mul_inequality, lemma_mul_strict_inequality};
use vstd::arithmetic::power2::{
    lemma2_to64, lemma2_to64_rest, lemma_pow2_adds, lemma_pow2_pos, lemma_pow2_strictly_increases, pow2,
};
use vstd::prelude::*;

verus! {

/// Bit pattern of 0.
pub const ZERO: u64 = 0x0000_0000_0000_0000;

/// Bit pattern of 1.
pub const ONE: u64 = 0x3FF0_0000_0000_0000;

/// Bit pattern of 1/2.
pub const HALF: u64 = 0x3FE0_0000_0000_0000;

/// Bit pattern of 1/4.
pub const QUARTER: u64 = 0x3FD0_0000_0000_0000;

/// Bit pattern of 4.
pub const FOUR: u64 = 0x4010_0000_0000_0000;

/// Bit pattern of 99.5.
pub const NEARLY_HUNDRED: u64 = 0x4058_E000_0000_0000;

/// Bit pattern of 100.
pub const HUNDRED: u64 = 0x4059_0000_0000_0000;

/// Bit pattern of 1024.
pub const KILO: u64 = 0x4090_0000_0000_0000;

/// Bit pattern of 1024 * 1024.
pub const MEGA: u64 = 0x4130_0000_0000_0000;

/// Bit pattern of 1024 * 1024 * 1024.
pub const GIGA: u64 = 0x41D0_0000_0000_0000;

/// Bit pattern of the number nearest to 1/10.
pub const TENTH: u64 = 0x3FB9_9999_9999_999A;

/// Bit pattern of the number nearest to 1/1000.
pub const THOUSANDTH: u64 = 0x3F50_624D_D2F1_A9FC;

/// Bit pattern of the number nearest to 1/1000000.
pub const MILLIONTH: u64 = 0x3EB0_C6F7_A0B5_ED8D;

/// Bit pattern of the number nearest to 985/1000, by which the peak of a scale fades in a round.
pub const FADING: u64 = 0x3FEF_851E_B851_EB85;

/// The bit that marks a negative number.
pub const SIGN: u64 = 0x8000_0000_0000_0000;

/// Bit pattern of positive infinity; the patterns above it, short of the sign, are no numbers.
pub const INFINITY: u64 = 0x7FF0_0000_0000_0000;

/// A measured or derived number, in the IEEE 754 double-precision format.
#[derive(Clone, Copy, Debug, PartialEq, Eq, Structural)]
pub struct Reading {
    /// The bit pattern, as `f64::to_bits` gives it.
    pub bits: u64,
}

/// Size, in units of 2^-1074, of the number whose pattern without the sign is `pattern`: eleven
/// bits of exponent above 52 bits of fraction. Infinity is given the size that follows the largest
/// finite one.
pub open spec fn size_of_pattern(pattern: int) -> int {
    let exponent = pattern / 0x10_0000_0000_0000;
    let fraction = pattern % 0x10_0000_0000_0000;
    if exponent == 0 {
        fraction
    } else {
        (0x10_0000_0000_0000 + fraction) * pow2((exponent - 1) as nat)
    }
}

/// The number one, in units of 2^-1074.
pub open spec fn unit() -> int {
    pow2(1074) as int
}

impl Reading {
    /// The bit pattern without the sign.
    pub open spec fn pattern(self) -> int {
        if self.bits >= SIGN {
            self.bits - SIGN
        } else {
            self.bits as int
        }
    }

    /// Whether the pattern stands for no number.
    pub open spec fn nan(self) -> bool {
        self.pattern() > INFINITY
    }

    /// Whether the pattern stands for a number that is not infinite.
    pub open spec fn finite(self) -> bool {
        self.pattern() < INFINITY
    }

    /// The number, in units of 2^-1074, in which every finite one is whole.
    pub open spec fn value(self) -> int {
        if self.bits >= SIGN {
            -size_of_pattern(self.pattern())
        } else {
            size_of_pattern(self.pattern())
        }
    }

    /// The numeric order `self < other`; it never holds of what is no number.
    pub open spec fn less(self, other: Reading) -> bool {
        !self.nan() && !other.nan() && self.value() < other.value()
    }

    /// The numeric order `self <= other`; it never holds of what is no number.
    pub open spec fn less_eq(self, other: Reading) -> bool {
        !self.nan() && !other.nan() && self.value() <= other.value()
    }

    /// The nearest number in `low ..= high`; what is no number stays as it is.
    pub open spec fn clamped(self, low: Reading, high: Reading) -> Reading {
        if self.less(low) {
            low
        } else if high.less(self) {
            high
        } else {
            self
        }
    }

    /// The larger of the two; `floor` where `self` is no number.
    pub open spec fn raised(self, floor: Reading) -> Reading {
        if self.nan() || self.less(floor) {
            floor
        } else {
            self
        }
    }

    /// The bit pattern read as a signed whole number.
    pub open spec fn rank(self) -> int {
        if self.bits >= SIGN {
            -self.pattern()
        } else {
            self.pattern()
        }
    }

    /// The pattern without the sign, and the sign.
    fn split(self) -> (r: (u64, bool))
        ensures
            r.0 == self.pattern(),
            r.1 == (self.bits >= SIGN),
    {
        if self.bits >= SIGN {
            (self.bits - SIGN, true)
        } else {
            (self.bits, false)
        }
    }

    /// Whether the pattern stands for no number.
    pub fn is_nan(self) -> (r: bool)
        ensures
            r == self.nan(),
    {
        self.split().0 > INFINITY
    }

    /// Whether the pattern stands for a number that is not infinite.
    pub fn is_finite(self) -> (r: bool)
        ensures
            r == self.finite(),
    {
        self.split().0 < INFINITY
    }

    /// The signed whole number that orders as the numbers do.
    fn signed_pattern(self) -> (r: i64)
        ensures
            r == self.rank(),
    {
        let (pattern, negative) = self.split();
        let plain: i64 = pattern as i64;
        if negative {
            -plain
        } else {
            plain
        }
    }

    /// `self < other`, as numbers.
    pub fn less_than(self, other: Reading) -> (r: bool)
        ensures
            r == self.less(other),
    {
        proof {
            lemma_rank_orders(self, other);
        }
        !self.is_nan() && !other.is_nan() && self.signed_pattern() < other.signed_pattern()
    }

    /// `self <= other`, as numbers.
    pub fn at_most(self, other: Reading) -> (r: bool)
        ensures
            r == self.less_eq(other),
    {
        proof {
            lemma_rank_orders(self, other);
            lemma_rank_orders(other, self);
        }
        !self.is_nan() && !other.is_nan() && self.signed_pattern() <= other.signed_pattern()
    }

    /// Brings a number into `low ..= high`.
    pub fn clamp(self, low: Reading, high: Reading) -> (r: Reading)
        requires
            low.less_eq(high),
        ensures
            r == self.clamped(low, high),
    {
        if self.less_than(low) {
            low
        } else if high.less_than(self) {
            high
        } else {
            self
        }
    }

    /// The larger of a number and a floor other than zero.
    pub fn at_least(self, floor: Reading) -> (r: Reading)
        requires
            !floor.nan(),
            floor.value() != 0,
        ensures
            r == self.raised(floor),
    {
        if self.is_nan() || self.less_than(floor) {
            floor
        } else {
            self
        }
    }
}

/// A larger pattern stands for a larger size.
proof fn lemma_size_grows(p: int, q: int)
    requires
        0 <= p < q,
    ensures
        size_of_pattern(p) < size_of_pattern(q),
{
    let top: int = 0x10_0000_0000_0000;
    let (ep, fp) = (p / top, p % top);
    let (eq, fq) = (q / top, q % top);
    assert(ep <= eq);
    if ep == eq {
        assert(fp < fq);
        if ep > 0 {
            let scale = pow2((ep - 1) as nat) as int;
            lemma_pow2_pos((ep - 1) as nat);
            lemma_mul_strict_inequality(top + fp, top + fq, scale);
        }
    } else {
        let scale = pow2((eq - 1) as nat) as int;
        lemma_pow2_pos((eq - 1) as nat);
        // The smallest size with the larger exponent.
        lemma_mul_inequality(top, top + fq, scale);
        assert(size_of_pattern(q) >= top * scale);
        if ep == 0 {
            assert(top * scale >= top) by (nonlinear_arith)
                requires
                    scale >= 1,
                    top >= 0,
            ;
        } else {
            let below = pow2((ep - 1) as nat) as int;
            lemma_pow2_pos((ep - 1) as nat);
            lemma_pow2_adds(1, (ep - 1) as nat);
            lemma2_to64();
            assert(2 * below == pow2(ep as nat));
            if ep < eq - 1 {
                lemma_pow2_strictly_increases(ep as nat, (eq - 1) as nat);
            }
            assert(2 * below <= scale);
            lemma_mul_strict_inequality(top + fp, 2 * top, below);
            assert((2 * top) * below <= top * scale) by (nonlinear_arith)
                requires
                    2 * below <= scale,
                    top >= 0,
            ;
        }
    }
}

/// Sizes are never negative, and only the pattern zero has the size zero.
proof fn lemma_size_sign(p: int)
    requires
        0 <= p,
    ensures
        size_of_pattern(p) >= 0,
        p > 0 ==> size_of_pattern(p) > 0,
{
    assert(size_of_pattern(0) == 0);
    if p > 0 {
        lemma_size_grows(0, p);
    }
}

/// The bit patterns order as the numbers they stand for.
pub proof fn lemma_rank_orders(a: Reading, b: Reading)
    ensures
        a.rank() < b.rank() <==> a.value() < b.value(),
{
    let (p, q) = (a.pattern(), b.pattern());
    lemma_size_sign(p);
    lemma_size_sign(q);
    if p < q {
        lemma_size_grows(p, q);
    } else if q < p {
        lemma_size_grows(q, p);
    }
}

/// The size of a pattern whose exponent is not zero, as a multiple of a power of two.
proof fn lemma_size_split(pattern: int, exponent: nat, fraction: int)
    requires
        pattern == 0x10_0000_0000_0000 * exponent + fraction,
        0 <= fraction < 0x10_0000_0000_0000,
        0 < exponent,
    ensures
        size_of_pattern(pattern) == (0x10_0000_0000_0000 + fraction) * pow2((exponent - 1) as nat),
{
    assert(pattern / 0x10_0000_0000_0000 == exponent);
    assert(pattern % 0x10_0000_0000_0000 == fraction);
}

/// The exact constants are the numbers they are named for.
pub proof fn lemma_exact_constants()
    ensures
        (Reading { bits: ZERO }).value() == 0,
        (Reading { bits: ONE }).value() == unit(),
        2 * (Reading { bits: HALF }).value() == unit(),
        4 * (Reading { bits: QUARTER }).value() == unit(),
        (Reading { bits: FOUR }).value() == 4 * unit(),
        2 * (Reading { bits: NEARLY_HUNDRED }).value() == 199 * unit(),
        (Reading { bits: HUNDRED }).value() == 100 * unit(),
        (Reading { bits: KILO }).value() == 1024 * unit(),
        (Reading { bits: MEGA }).value() == 1048576 * unit(),
        (Reading { bits: GIGA }).value() == 1073741824 * unit(),
{
    lemma2_to64();
    lemma2_to64_rest();
    lemma_size_split(ONE as int, 1023, 0x0);
    lemma_pow2_adds(52, 1022);
    lemma_size_split(HALF as int, 1022, 0x0);
    lemma_pow2_adds(53, 1021);
    lemma_size_split(QUARTER as int, 1021, 0x0);
    lemma_pow2_adds(54, 1020);
    lemma_size_split(FOUR as int, 1025, 0x0);
    lemma_pow2_adds(50, 1024);
    lemma_size_split(NEARLY_HUNDRED as int, 1029, 0x8E00000000000);
    lemma_pow2_adds(46, 1028);
    lemma_size_split(HUNDRED as int, 1029, 0x9000000000000);
    lemma_pow2_adds(46, 1028);
    lemma_size_split(KILO as int, 1033, 0x0);
    lemma_pow2_adds(42, 1032);
    lemma_size_split(MEGA as int, 1043, 0x0);
    lemma_pow2_adds(32, 1042);
    lemma_size_split(GIGA as int, 1053, 0x0);
    lemma_pow2_adds(22, 1052);
}

/// The constants are numbers, and one is positive.
pub proof fn lemma_constants_are_numbers()
    ensures
        unit() > 0,
        (Reading { bits: ZERO }).finite(),
        (Reading { bits: ONE }).finite(),
        (Reading { bits: HALF }).finite(),
        (Reading { bits: QUARTER }).finite(),
        (Reading { bits: FOUR }).finite(),
        (Reading { bits: NEARLY_HUNDRED }).finite(),
        (Reading { bits: HUNDRED }).finite(),
        (Reading { bits: KILO }).finite(),
        (Reading { bits: MEGA }).finite(),
        (Reading { bits: GIGA }).finite(),
        (Reading { bits: TENTH }).finite(),
        (Reading { bits: THOUSANDTH }).finite(),
        (Reading { bits: MILLIONTH }).finite(),
        (Reading { bits: FADING }).finite(),
{
    lemma_pow2_pos(1074);
}

/// No number with the same exponent is nearer to a tenth, a thousandth, a millionth or the fading
/// factor than the constant of that name: each is off by at most half a step of its last place.
pub proof fn lemma_nearest_constants()
    ensures
        -10 * pow2(1018) <= 2 * (10 * (Reading { bits: TENTH }).value() - unit()) <= 10 * pow2(1018),
        -1000 * pow2(1012) <= 2 * (1000 * (Reading { bits: THOUSANDTH }).value() - unit()) <= 1000 * pow2(1012),
        -1000000 * pow2(1002) <= 2 * (1000000 * (Reading { bits: MILLIONTH }).value() - unit()) <= 1000000 * pow2(1002),
        -1000 * pow2(1021) <= 2 * (1000 * (Reading { bits: FADING }).value() - 985 * unit()) <= 1000
            * pow2(1021),
{
    lemma2_to64();
    lemma2_to64_rest();
    lemma_pow2_adds(62, 10);
    lemma_size_split(FADING as int, 1022, 0xF851EB851EB85);
    lemma_pow2_adds(53, 1021);
    lemma_size_split(TENTH as int, 1019, 0x999999999999A);
    lemma_pow2_adds(56, 1018);
    lemma_size_split(THOUSANDTH as int, 1013, 0x624DD2F1A9FC);
    lemma_pow2_adds(62, 1012);
    lemma_size_split(MILLIONTH as int, 1003, 0xC6F7A0B5ED8D);
    lemma_pow2_adds(72, 1002);
}

/// Which patterns stand for no number, and which for a finite one, read off the bits.
pub proof fn lemma_kinds_by_bits(r: Reading)
    ensures
        r.nan() <==> 0x7FF0_0000_0000_0000 < r.bits < 0x8000_0000_0000_0000 || 0xFFF0_0000_0000_0000
            < r.bits,
        r.finite() <==> r.bits < 0x7FF0_0000_0000_0000 || 0x8000_0000_0000_0000 <= r.bits
            < 0xFFF0_0000_0000_0000,
{
}

/// The order read off the bits: that of the bits among numbers without the sign, the reverse among
/// numbers with it, a negative number before any other, the two zeros equal, and no order with what
/// is no number.
pub proof fn lemma_order_by_bits(a: Reading, b: Reading)
    ensures
        a.bits <= 0x7FF0_0000_0000_0000 && b.bits <= 0x7FF0_0000_0000_0000 ==> (a.less(b)
            <==> a.bits < b.bits) && (a.less_eq(b) <==> a.bits <= b.bits),
        0x8000_0000_0000_0000 <= a.bits <= 0xFFF0_0000_0000_0000 && 0x8000_0000_0000_0000 <= b.bits
            <= 0xFFF0_0000_0000_0000 ==> (a.less(b) <==> b.bits < a.bits) && (a.less_eq(b)
            <==> b.bits <= a.bits),
        0x8000_0000_0000_0000 <= a.bits <= 0xFFF0_0000_0000_0000 && b.bits
            <= 0x7FF0_0000_0000_0000 ==> a.less_eq(b) && (a.less(b) <==> !(a.bits
            == 0x8000_0000_0000_0000 && b.bits == 0)),
        a.bits <= 0x7FF0_0000_0000_0000 && 0x8000_0000_0000_0000 <= b.bits
            <= 0xFFF0_0000_0000_0000 ==> !a.less(b) && (a.less_eq(b) <==> a.bits == 0 && b.bits
            == 0x8000_0000_0000_0000),
        0x7FF0_0000_0000_0000 < a.bits < 0x8000_0000_0000_0000 || 0xFFF0_0000_0000_0000 < a.bits
            || 0x7FF0_0000_0000_0000 < b.bits < 0x8000_0000_0000_0000 || 0xFFF0_0000_0000_0000
            < b.bits ==> !a.less(b) && !a.less_eq(b),
{
    lemma_rank_orders(a, b);
    lemma_rank_orders(b, a);
}

/// A number brought into a range lies in it, is the number itself where that lies in it, and the
/// nearer end where it does not; what is no number stays as it is.
pub proof fn lemma_clamped(x: Reading, low: Reading, high: Reading)
    requires
        low.less_eq(high),
    ensures
        x.nan() ==> x.clamped(low, high) == x,
        !x.nan() ==> low.less_eq(x.clamped(low, high)) && x.clamped(low, high).less_eq(high),
        low.less_eq(x) && x.less_eq(high) ==> x.clamped(low, high) == x,
        x.less(low) ==> x.clamped(low, high) == low,
        high.less(x) ==> x.clamped(low, high) == high,
{
}

/// A number raised to a floor is the larger of the two; what is no number becomes the floor.
pub proof fn lemma_raised(x: Reading, floor: Reading)
    requires
        !floor.nan(),
    ensures
        x.nan() ==> x.raised(floor) == floor,
        floor.less_eq(x.raised(floor)),
        !x.nan() ==> x.less_eq(x.raised(floor)),
        floor.less_eq(x) ==> x.raised(floor) == x,
        x.less(floor) ==> x.raised(floor) == floor,
{
}

} // verus!
