use vstd::arithmetic::div_mod::{lemma_fundamental_div_mod_converse, lemma_small_mod};
use vstd::arithmetic::power2::{lemma2_to64, lemma_pow2_adds, pow2};
use vstd::prelude::*;

verus! {

/// An unsigned machine word used as a fixed-point fraction of a full turn.
///
/// A word of `n` bits stands for the fraction `value / 2^n` of a turn; arithmetic on it
/// wraps modulo `2^n`, which is a whole number of turns.
pub trait TurnWord: Copy + Sized {
    /// The word as a natural number.
    spec fn value(self) -> nat;

    /// `2^n` for a word of `n` bits: one full turn.
    spec fn modulus() -> nat;

    /// The word that holds `n` modulo the modulus.
    spec fn word_of(n: nat) -> Self;

    proof fn lemma_word(w: Self)
        ensures
            Self::modulus() >= 256,
            Self::modulus() % 4 == 0,
            w.value() < Self::modulus(),
            Self::word_of(w.value()) == w,
    ;

    proof fn lemma_word_of(n: nat)
        ensures
            Self::word_of(n).value() == n % Self::modulus(),
    ;

    proof fn lemma_word_unique(w: Self, n: nat)
        requires
            w.value() == n % Self::modulus(),
        ensures
            w == Self::word_of(n),
    ;

    /// The number of bits `n` of the word.
    fn bits() -> (b: u32)
        ensures
            pow2(b as nat) == Self::modulus(),
            8 <= b <= 128,
    ;

    /// The word 0.
    fn zero_word() -> (r: Self)
        ensures
            r.value() == 0,
    ;

    /// The largest word, `2^n - 1`.
    fn max_word() -> (r: Self)
        ensures
            r.value() == Self::modulus() - 1,
    ;

    /// The word holding a small constant.
    fn from_u8(v: u8) -> (r: Self)
        ensures
            r.value() == v,
    ;

    /// Addition modulo `2^n`.
    fn add_wrapping(self, other: Self) -> (r: Self)
        ensures
            r.value() == (self.value() + other.value()) % Self::modulus(),
    ;

    /// Subtraction modulo `2^n`.
    fn sub_wrapping(self, other: Self) -> (r: Self)
        ensures
            r.value() == (self.value() - other.value()) % (Self::modulus() as int),
    ;

    /// Multiplication modulo `2^n`.
    fn mul_wrapping(self, other: Self) -> (r: Self)
        ensures
            r.value() == (self.value() * other.value()) % Self::modulus(),
    ;

    /// Integer division, rounding down.
    fn div_floor(self, other: Self) -> (r: Self)
        requires
            other.value() > 0,
        ensures
            r.value() == self.value() / other.value(),
    ;

    /// Whether two words are equal.
    fn same(self, other: Self) -> (b: bool)
        ensures
            b == (self.value() == other.value()),
    ;
}

proof fn lemma_wrap_sum(x: int, y: int, m: int)
    requires
        m > 0,
        0 <= x < m,
        0 <= y < m,
    ensures
        (x + y) % m == (if x + y >= m {
            x + y - m
        } else {
            x + y
        }),
        (x - y) % m == (if x - y < 0 {
            x - y + m
        } else {
            x - y
        }),
{
    if x + y >= m {
        lemma_fundamental_div_mod_converse(x + y, m, 1, x + y - m);
    } else {
        lemma_fundamental_div_mod_converse(x + y, m, 0, x + y);
    }
    if x - y < 0 {
        lemma_fundamental_div_mod_converse(x - y, m, -1, x - y + m);
    } else {
        lemma_fundamental_div_mod_converse(x - y, m, 0, x - y);
    }
}

impl TurnWord for u8 {
    open spec fn value(self) -> nat {
        self as nat
    }

    open spec fn modulus() -> nat {
        0x100
    }

    open spec fn word_of(n: nat) -> u8 {
        (n % 0x100) as u8
    }

    proof fn lemma_word(w: u8) {
        lemma_small_mod(w as nat, 0x100);
    }

    proof fn lemma_word_of(n: nat) {
    }

    proof fn lemma_word_unique(w: Self, n: nat) {
    }

    fn bits() -> (b: u32) {
        proof {
            lemma2_to64();
        }
        8
    }

    fn zero_word() -> (r: u8) {
        0
    }

    fn max_word() -> (r: u8) {
        u8::MAX
    }

    fn from_u8(v: u8) -> (r: u8) {
        v as u8
    }

    fn add_wrapping(self, other: u8) -> (r: u8) {
        proof {
            lemma_wrap_sum(self as int, other as int, 0x100);
        }
        self.wrapping_add(other)
    }

    fn sub_wrapping(self, other: u8) -> (r: u8) {
        proof {
            lemma_wrap_sum(self as int, other as int, 0x100);
        }
        self.wrapping_sub(other)
    }

    fn mul_wrapping(self, other: u8) -> (r: u8) {
        self.wrapping_mul(other)
    }

    fn div_floor(self, other: u8) -> (r: u8) {
        self / other
    }

    fn same(self, other: u8) -> (b: bool) {
        self == other
    }
}

impl TurnWord for u16 {
    open spec fn value(self) -> nat {
        self as nat
    }

    open spec fn modulus() -> nat {
        0x1_0000
    }

    open spec fn word_of(n: nat) -> u16 {
        (n % 0x1_0000) as u16
    }

    proof fn lemma_word(w: u16) {
        lemma_small_mod(w as nat, 0x1_0000);
    }

    proof fn lemma_word_of(n: nat) {
    }

    proof fn lemma_word_unique(w: Self, n: nat) {
    }

    fn bits() -> (b: u32) {
        proof {
            lemma2_to64();
        }
        16
    }

    fn zero_word() -> (r: u16) {
        0
    }

    fn max_word() -> (r: u16) {
        u16::MAX
    }

    fn from_u8(v: u8) -> (r: u16) {
        v as u16
    }

    fn add_wrapping(self, other: u16) -> (r: u16) {
        proof {
            lemma_wrap_sum(self as int, other as int, 0x1_0000);
        }
        self.wrapping_add(other)
    }

    fn sub_wrapping(self, other: u16) -> (r: u16) {
        proof {
            lemma_wrap_sum(self as int, other as int, 0x1_0000);
        }
        self.wrapping_sub(other)
    }

    fn mul_wrapping(self, other: u16) -> (r: u16) {
        self.wrapping_mul(other)
    }

    fn div_floor(self, other: u16) -> (r: u16) {
        self / other
    }

    fn same(self, other: u16) -> (b: bool) {
        self == other
    }
}

impl TurnWord for u32 {
    open spec fn value(self) -> nat {
        self as nat
    }

    open spec fn modulus() -> nat {
        0x1_0000_0000
    }

    open spec fn word_of(n: nat) -> u32 {
        (n % 0x1_0000_0000) as u32
    }

    proof fn lemma_word(w: u32) {
        lemma_small_mod(w as nat, 0x1_0000_0000);
    }

    proof fn lemma_word_of(n: nat) {
    }

    proof fn lemma_word_unique(w: Self, n: nat) {
    }

    fn bits() -> (b: u32) {
        proof {
            lemma2_to64();
        }
        32
    }

    fn zero_word() -> (r: u32) {
        0
    }

    fn max_word() -> (r: u32) {
        u32::MAX
    }

    fn from_u8(v: u8) -> (r: u32) {
        v as u32
    }

    fn add_wrapping(self, other: u32) -> (r: u32) {
        proof {
            lemma_wrap_sum(self as int, other as int, 0x1_0000_0000);
        }
        self.wrapping_add(other)
    }

    fn sub_wrapping(self, other: u32) -> (r: u32) {
        proof {
            lemma_wrap_sum(self as int, other as int, 0x1_0000_0000);
        }
        self.wrapping_sub(other)
    }

    fn mul_wrapping(self, other: u32) -> (r: u32) {
        self.wrapping_mul(other)
    }

    fn div_floor(self, other: u32) -> (r: u32) {
        self / other
    }

    fn same(self, other: u32) -> (b: bool) {
        self == other
    }
}

impl TurnWord for u64 {
    open spec fn value(self) -> nat {
        self as nat
    }

    open spec fn modulus() -> nat {
        0x1_0000_0000_0000_0000
    }

    open spec fn word_of(n: nat) -> u64 {
        (n % 0x1_0000_0000_0000_0000) as u64
    }

    proof fn lemma_word(w: u64) {
        lemma_small_mod(w as nat, 0x1_0000_0000_0000_0000);
    }

    proof fn lemma_word_of(n: nat) {
    }

    proof fn lemma_word_unique(w: Self, n: nat) {
    }

    fn bits() -> (b: u32) {
        proof {
            lemma2_to64();
        }
        64
    }

    fn zero_word() -> (r: u64) {
        0
    }

    fn max_word() -> (r: u64) {
        u64::MAX
    }

    fn from_u8(v: u8) -> (r: u64) {
        v as u64
    }

    fn add_wrapping(self, other: u64) -> (r: u64) {
        proof {
            lemma_wrap_sum(self as int, other as int, 0x1_0000_0000_0000_0000);
        }
        self.wrapping_add(other)
    }

    fn sub_wrapping(self, other: u64) -> (r: u64) {
        proof {
            lemma_wrap_sum(self as int, other as int, 0x1_0000_0000_0000_0000);
        }
        self.wrapping_sub(other)
    }

    fn mul_wrapping(self, other: u64) -> (r: u64) {
        self.wrapping_mul(other)
    }

    fn div_floor(self, other: u64) -> (r: u64) {
        self / other
    }

    fn same(self, other: u64) -> (b: bool) {
        self == other
    }
}

impl TurnWord for u128 {
    open spec fn value(self) -> nat {
        self as nat
    }

    open spec fn modulus() -> nat {
        (u128::MAX as nat + 1)
    }

    open spec fn word_of(n: nat) -> u128 {
        (n % (u128::MAX as nat + 1)) as u128
    }

    proof fn lemma_word(w: u128) {
        lemma_small_mod(w as nat, (u128::MAX as nat + 1));
    }

    proof fn lemma_word_of(n: nat) {
    }

    proof fn lemma_word_unique(w: Self, n: nat) {
    }

    fn bits() -> (b: u32) {
        proof {
            lemma2_to64();
            lemma_pow2_adds(64, 64);
        }
        128
    }

    fn zero_word() -> (r: u128) {
        0
    }

    fn max_word() -> (r: u128) {
        u128::MAX
    }

    fn from_u8(v: u8) -> (r: u128) {
        v as u128
    }

    fn add_wrapping(self, other: u128) -> (r: u128) {
        proof {
            lemma_wrap_sum(self as int, other as int, u128::MAX as int + 1);
        }
        self.wrapping_add(other)
    }

    fn sub_wrapping(self, other: u128) -> (r: u128) {
        proof {
            lemma_wrap_sum(self as int, other as int, u128::MAX as int + 1);
        }
        self.wrapping_sub(other)
    }

    fn mul_wrapping(self, other: u128) -> (r: u128) {
        self.wrapping_mul(other)
    }

    fn div_floor(self, other: u128) -> (r: u128) {
        self / other
    }

    fn same(self, other: u128) -> (b: bool) {
        self == other
    }
}

} // verus!
