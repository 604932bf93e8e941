use crate::turn_word::TurnWord;
use core::ops::{Add, Div, Mul, Sub};
use vstd::arithmetic::div_mod::{lemma_fundamental_div_mod, lemma_fundamental_div_mod_converse};
use vstd::arithmetic::power2::{lemma_pow2_unfold, pow2};
use vstd::prelude::*;
use vstd::std_specs::convert::FromSpecImpl;
use vstd::std_specs::ops::{AddSpecImpl, DivSpecImpl, MulSpecImpl, SubSpecImpl};

verus! {

/// A fixed-point angle, stored as a fraction of a full turn.
///
/// For an `n`-bit word the fraction is `fraction / 2^n` of a turn, in `[0, 1)`; arithmetic
/// wraps around at a full turn.
#[derive(Copy, Clone, Debug, PartialEq, Eq, Default, PartialOrd, Ord, Hash)]
pub struct Angle<T: TurnWord> {
    fraction: T,
}

/// An angle held in 32 bits.
pub type Angle32 = Angle<u32>;

/// An angle held in 64 bits.
pub type Angle64 = Angle<u64>;

/// An angle held in 128 bits.
pub type Angle128 = Angle<u128>;

impl<T: TurnWord> View for Angle<T> {
    type V = nat;

    /// The fraction as a natural number in `[0, 2^n)`.
    closed spec fn view(&self) -> nat {
        self.fraction.value()
    }
}

/// One full turn for words of type `T`: `2^n`.
pub open spec fn full<T: TurnWord>() -> nat {
    T::modulus()
}

impl<T: TurnWord> Angle<T> {
    /// The angle whose fraction is `n` modulo a full turn.
    pub closed spec fn from_value(n: nat) -> Angle<T> {
        Angle { fraction: T::word_of(n) }
    }

    /// The angle made from a whole number of units holds that number modulo a full turn.
    pub proof fn lemma_from_value(n: nat)
        ensures
            Self::from_value(n)@ == n % full::<T>(),
    {
        T::lemma_word_of(n);
    }

    /// The fraction of an angle lies below a full turn, which is a multiple of four units
    /// and at least 256 of them, and the angle is the one made from its fraction.
    pub proof fn lemma_view(self)
        ensures
            self@ < full::<T>(),
            full::<T>() >= 256,
            full::<T>() % 4 == 0,
            Self::from_value(self@) == self,
    {
        T::lemma_word(self.fraction);
    }

    /// Two angles with the same fraction are the same angle.
    pub proof fn lemma_ext(a: Self, b: Self)
        requires
            a@ == b@,
        ensures
            a == b,
    {
        T::lemma_word(a.fraction);
        T::lemma_word(b.fraction);
    }

    /// An angle from its fixed-point fraction of a turn.
    pub fn new(fraction: T) -> (a: Self)
        ensures
            a@ == fraction.value(),
    {
        Angle { fraction }
    }

    /// The fixed-point fraction of a turn.
    pub fn fraction(&self) -> (f: T)
        ensures
            f.value() == self@,
    {
        self.fraction
    }

    /// The angle 0.
    pub fn zero() -> (a: Self)
        ensures
            a@ == 0,
    {
        Angle { fraction: T::zero_word() }
    }

    /// A full turn (`2π`), which wraps to the fraction 0.
    pub fn full_turn() -> (a: Self)
        ensures
            a@ == 0,
    {
        Angle { fraction: T::zero_word() }
    }

    /// Half a turn (`π`): the fraction `2^(n-1)`.
    pub fn half_turn() -> (a: Self)
        ensures
            a@ == full::<T>() / 2,
    {
        let m = T::max_word();
        proof {
            T::lemma_word(m);
        }
        let f = m.div_floor(T::from_u8(2)).add_wrapping(T::from_u8(1));
        proof {
            lemma_quarters::<T>();
        }
        Angle { fraction: f }
    }

    /// A quarter turn (`π/2`): the fraction `2^(n-2)`.
    pub fn quarter_turn() -> (a: Self)
        ensures
            a@ == full::<T>() / 4,
    {
        let m = T::max_word();
        proof {
            T::lemma_word(m);
        }
        let f = m.div_floor(T::from_u8(4)).add_wrapping(T::from_u8(1));
        proof {
            lemma_quarters::<T>();
        }
        Angle { fraction: f }
    }

    /// Three quarters of a turn (`3π/2`): the fraction `3 * 2^(n-2)`.
    pub fn three_quarters_turn() -> (a: Self)
        ensures
            a@ == 3 * (full::<T>() / 4),
    {
        let q = Self::quarter_turn();
        proof {
            T::lemma_word(q.fraction);
        }
        let f = q.fraction.mul_wrapping(T::from_u8(3));
        proof {
            lemma_quarters::<T>();
        }
        Angle { fraction: f }
    }

    /// Whether the angle is exactly 0.
    pub fn is_zero(&self) -> (b: bool)
        ensures
            b == (self@ == 0),
    {
        self.fraction.same(T::zero_word())
    }

    /// The same angle: the representation is always within `[0, 2π)`.
    pub fn normalize(&self) -> (a: Self)
        ensures
            a == *self,
    {
        *self
    }
}

/// How a full turn splits into halves and quarters.
proof fn lemma_quarters<T: TurnWord>()
    ensures
        (full::<T>() - 1) as int / 2 + 1 == full::<T>() / 2,
        ((full::<T>() - 1) as int / 2 + 1) % (full::<T>() as int) == full::<T>() / 2,
        (full::<T>() - 1) as int / 4 + 1 == full::<T>() / 4,
        ((full::<T>() - 1) as int / 4 + 1) % (full::<T>() as int) == full::<T>() / 4,
        ((full::<T>() / 4) * 3) % full::<T>() == 3 * (full::<T>() / 4),
{
    T::lemma_word(T::word_of(0));
    let m = full::<T>() as int;
    let k = m / 4;
    lemma_fundamental_div_mod(m, 4);
    assert(m == 4 * k);
    lemma_fundamental_div_mod_converse(m - 1, 2, 2 * k - 1, 1);
    lemma_fundamental_div_mod_converse(m, 2, 2 * k, 0);
    lemma_fundamental_div_mod_converse(m - 1, 4, k - 1, 3);
    lemma_fundamental_div_mod_converse(2 * k, m, 0, 2 * k);
    lemma_fundamental_div_mod_converse(k, m, 0, k);
    lemma_fundamental_div_mod_converse(3 * k, m, 0, 3 * k);
}

impl<T: TurnWord> Add for Angle<T> {
    type Output = Self;

    /// Adds two angles, wrapping around at a full turn.
    fn add(self, rhs: Self) -> (r: Self) {
        let f = self.fraction.add_wrapping(rhs.fraction);
        proof {
            T::lemma_word_unique(f, self@ + rhs@);
        }
        Angle { fraction: f }
    }
}

impl<T: TurnWord> AddSpecImpl for Angle<T> {
    open spec fn obeys_add_spec() -> bool {
        true
    }

    open spec fn add_req(self, rhs: Self) -> bool {
        true
    }

    open spec fn add_spec(self, rhs: Self) -> Self {
        Angle::from_value(self@ + rhs@)
    }
}

impl<T: TurnWord> Sub for Angle<T> {
    type Output = Self;

    /// Subtracts two angles, wrapping around at a full turn.
    fn sub(self, other: Self) -> (r: Self) {
        proof {
            T::lemma_word(self.fraction);
            T::lemma_word(other.fraction);
        }
        let f = self.fraction.sub_wrapping(other.fraction);
        proof {
            let a = self@ as int;
            let b = other@ as int;
            let m = full::<T>() as int;
            if a >= b {
                lemma_fundamental_div_mod_converse(a - b, m, 0, a - b);
                lemma_fundamental_div_mod_converse(a + m - b, m, 1, a - b);
            } else {
                lemma_fundamental_div_mod_converse(a - b, m, -1, a - b + m);
                lemma_fundamental_div_mod_converse(a + m - b, m, 0, a + m - b);
            }
            T::lemma_word_unique(f, (a + m - b) as nat);
        }
        Angle { fraction: f }
    }
}

impl<T: TurnWord> SubSpecImpl for Angle<T> {
    open spec fn obeys_sub_spec() -> bool {
        true
    }

    open spec fn sub_req(self, rhs: Self) -> bool {
        true
    }

    open spec fn sub_spec(self, rhs: Self) -> Self {
        Angle::from_value((self@ + full::<T>() - rhs@) as nat)
    }
}

impl<T: TurnWord> Mul<T> for Angle<T> {
    type Output = Self;

    /// Multiplies an angle by a whole number, wrapping around at a full turn.
    fn mul(self, scalar: T) -> (r: Self) {
        let f = self.fraction.mul_wrapping(scalar);
        proof {
            T::lemma_word_unique(f, self@ * scalar.value());
        }
        Angle { fraction: f }
    }
}

impl<T: TurnWord> MulSpecImpl<T> for Angle<T> {
    open spec fn obeys_mul_spec() -> bool {
        true
    }

    open spec fn mul_req(self, rhs: T) -> bool {
        true
    }

    open spec fn mul_spec(self, rhs: T) -> Self {
        Angle::from_value(self@ * rhs.value())
    }
}

impl<T: TurnWord> Div<T> for Angle<T> {
    type Output = Self;

    /// Divides an angle by a whole number, rounding the fraction down.
    fn div(self, scalar: T) -> (r: Self) {
        let f = self.fraction.div_floor(scalar);
        proof {
            T::lemma_word(self.fraction);
            T::lemma_word(f);
            assert(f.value() <= self@) by {
                vstd::arithmetic::div_mod::lemma_div_is_ordered_by_denominator(self@ as int, 1, scalar.value() as int);
            }
            vstd::arithmetic::div_mod::lemma_small_mod(f.value(), full::<T>());
            T::lemma_word_unique(f, self@ / scalar.value());
        }
        Angle { fraction: f }
    }
}

impl<T: TurnWord> DivSpecImpl<T> for Angle<T> {
    open spec fn obeys_div_spec() -> bool {
        true
    }

    open spec fn div_req(self, rhs: T) -> bool {
        rhs.value() > 0
    }

    open spec fn div_spec(self, rhs: T) -> Self {
        Angle::from_value(self@ / rhs.value())
    }
}

/// The fraction of a full turn `m` that the ratio `num / den` of a turn amounts to, after
/// dropping whole turns: `floor(((num / den) mod 1) * m)`.
pub open spec fn ratio_fraction(num: int, den: int, m: nat) -> nat {
    let n = if den < 0 {
        -num
    } else {
        num
    };
    let d = if den < 0 {
        -den
    } else {
        den
    };
    (((n % d) * m) / d) as nat
}

impl<T: TurnWord> Angle<T> {
    /// The angle `numerator / denominator` of a turn, with whole turns dropped, computed
    /// exactly and rounded down to the nearest representable fraction.
    pub fn from_turn_ratio(numerator: i64, denominator: i64) -> (a: Self)
        requires
            denominator != 0,
        ensures
            a@ == ratio_fraction(numerator as int, denominator as int, full::<T>()),
    {
        let n: i128 = if denominator < 0 {
            -(numerator as i128)
        } else {
            numerator as i128
        };
        let d: i128 = if denominator < 0 {
            -(denominator as i128)
        } else {
            denominator as i128
        };
        let ud: u128 = d as u128;
        let an: u128 = if n < 0 {
            (-n) as u128
        } else {
            n as u128
        };
        let m: u128 = an % ud;
        let mut r: u128 = if n >= 0 {
            m
        } else if m == 0 {
            0
        } else {
            ud - m
        };
        let ghost r0: int = r as int;
        proof {
            let q = an as int / ud as int;
            vstd::arithmetic::div_mod::lemma_fundamental_div_mod(an as int, ud as int);
            if n >= 0 {
                lemma_fundamental_div_mod_converse(n as int, d as int, q, r as int);
            } else if m == 0 {
                assert(n as int == (-q) * (d as int)) by (nonlinear_arith)
                    requires
                        an as int == q * (ud as int) + m as int,
                        m == 0,
                        n as int == -(an as int),
                        d as int == ud as int,
                ;
                lemma_fundamental_div_mod_converse(n as int, d as int, -q, 0);
            } else {
                assert(n as int == (-q - 1) * (d as int) + (ud - m)) by (nonlinear_arith)
                    requires
                        an as int == q * (ud as int) + m as int,
                        n as int == -(an as int),
                        d as int == ud as int,
                ;
                lemma_fundamental_div_mod_converse(n as int, d as int, -q - 1, (ud - m) as int);
            }
            assert(r0 == (n as int) % (d as int));
        }
        let bits = T::bits();
        let mut frac = T::zero_word();
        let mut k: u32 = 0;
        proof {
            vstd::arithmetic::power2::lemma2_to64();
        }
        while k < bits
            invariant
                k <= bits,
                pow2(bits as nat) == full::<T>(),
                0 < ud <= 0x8000_0000_0000_0000,
                0 <= r < ud,
                frac.value() * (ud as int) + (r as int) == r0 * pow2(k as nat),
                frac.value() < pow2(k as nat),
                0 <= r0,
            decreases bits - k,
        {
            proof {
                lemma_pow2_unfold((k + 1) as nat);
                assert(r0 * pow2((k + 1) as nat) == 2 * (r0 * pow2(k as nat))) by (nonlinear_arith)
                    requires
                        pow2((k + 1) as nat) == 2 * pow2(k as nat),
                ;
                T::lemma_word(frac);
            }
            let ghost f0 = frac.value();
            let ghost rr = r;
            r = r * 2;
            frac = frac.add_wrapping(frac);
            proof {
                assert(f0 + f0 < full::<T>()) by {
                    if (k + 1) < bits {
                        vstd::arithmetic::power2::lemma_pow2_strictly_increases((k + 1) as nat, bits as nat);
                    }
                }
                vstd::arithmetic::div_mod::lemma_small_mod((f0 + f0) as nat, full::<T>());
            }
            if r >= ud {
                r = r - ud;
                let one = T::from_u8(1);
                proof {
                    assert(f0 + f0 + 1 < full::<T>()) by {
                        if (k + 1) < bits {
                            vstd::arithmetic::power2::lemma_pow2_strictly_increases((k + 1) as nat, bits as nat);
                        }
                    }
                    vstd::arithmetic::div_mod::lemma_small_mod((f0 + f0 + 1) as nat, full::<T>());
                }
                frac = frac.add_wrapping(one);
                proof {
                    assert((f0 + f0 + 1) * (ud as int) + (2 * rr - ud) == 2 * (f0 * (ud as int) + rr))
                        by (nonlinear_arith);
                }
            } else {
                proof {
                    assert((f0 + f0) * (ud as int) + 2 * rr == 2 * (f0 * (ud as int) + rr))
                        by (nonlinear_arith);
                }
            }
            k = k + 1;
        }
        proof {
            lemma_fundamental_div_mod_converse(
                r0 * full::<T>(),
                ud as int,
                frac.value() as int,
                r as int,
            );
            T::lemma_word(frac);
        }
        Angle { fraction: frac }
    }
}

impl From<Angle<u32>> for Angle<u64> {
    /// Widens the fraction: the low 32 bits of the wider word are zero.
    fn from(angle: Angle<u32>) -> (r: Self) {
        let f = angle.fraction;
        let scaled = (f as u64) << 32u64;
        proof {
            assert(scaled == (f as u64) * 0x1_0000_0000u64) by (bit_vector)
                requires
                    scaled == (f as u64) << 32u64,
            ;
            u64::lemma_word_unique(scaled, f as nat * 0x1_0000_0000);
        }
        Angle { fraction: scaled }
    }
}

impl FromSpecImpl<Angle<u32>> for Angle<u64> {
    open spec fn obeys_from_spec() -> bool {
        true
    }

    open spec fn from_spec(angle: Angle<u32>) -> Angle<u64> {
        Angle::from_value(angle@ * 0x1_0000_0000)
    }
}

impl From<Angle<u64>> for Angle<u32> {
    /// Narrows the fraction: the low 32 bits are dropped.
    fn from(angle: Angle<u64>) -> (r: Self) {
        let f = angle.fraction;
        let scaled = (f >> 32u64) as u32;
        proof {
            assert(scaled as u64 == f / 0x1_0000_0000u64) by (bit_vector)
                requires
                    scaled == (f >> 32u64) as u32,
            ;
            u32::lemma_word_unique(scaled, f as nat / 0x1_0000_0000);
        }
        Angle { fraction: scaled }
    }
}

impl FromSpecImpl<Angle<u64>> for Angle<u32> {
    open spec fn obeys_from_spec() -> bool {
        true
    }

    open spec fn from_spec(angle: Angle<u64>) -> Angle<u32> {
        Angle::from_value(angle@ / 0x1_0000_0000)
    }
}

impl From<Angle<u64>> for Angle<u128> {
    /// Widens the fraction: the low 64 bits of the wider word are zero.
    fn from(angle: Angle<u64>) -> (r: Self) {
        let f = angle.fraction;
        let scaled = (f as u128) << 64u128;
        proof {
            assert(scaled == (f as u128) * 0x1_0000_0000_0000_0000u128) by (bit_vector)
                requires
                    scaled == (f as u128) << 64u128,
            ;
            u128::lemma_word_unique(scaled, f as nat * 0x1_0000_0000_0000_0000);
        }
        Angle { fraction: scaled }
    }
}

impl FromSpecImpl<Angle<u64>> for Angle<u128> {
    open spec fn obeys_from_spec() -> bool {
        true
    }

    open spec fn from_spec(angle: Angle<u64>) -> Angle<u128> {
        Angle::from_value(angle@ * 0x1_0000_0000_0000_0000)
    }
}

impl From<Angle<u128>> for Angle<u64> {
    /// Narrows the fraction: the low 64 bits are dropped.
    fn from(angle: Angle<u128>) -> (r: Self) {
        let f = angle.fraction;
        let scaled = (f >> 64u128) as u64;
        proof {
            assert(scaled as u128 == f / 0x1_0000_0000_0000_0000u128) by (bit_vector)
                requires
                    scaled == (f >> 64u128) as u64,
            ;
            u64::lemma_word_unique(scaled, f as nat / 0x1_0000_0000_0000_0000);
        }
        Angle { fraction: scaled }
    }
}

impl FromSpecImpl<Angle<u128>> for Angle<u64> {
    open spec fn obeys_from_spec() -> bool {
        true
    }

    open spec fn from_spec(angle: Angle<u128>) -> Angle<u64> {
        Angle::from_value(angle@ / 0x1_0000_0000_0000_0000)
    }
}

} // verus!
