use vstd::prelude::*;

verus! {

/// The phase of a Pauli operator: one of `+1`, `-1`, `+i`, `-i`.
///
/// It is stored in two bits: the low bit is the sign, the high bit the factor `i`.
#[derive(Debug, Clone, Copy, PartialEq, Eq, Structural)]
pub struct Phase(u8);

/// The phase `i^k` as the two-bit code used by `Phase`.
pub open spec fn phase_code(k: int) -> u8 {
    let k4 = k % 4;
    if k4 == 0 {
        0b00u8
    } else if k4 == 1 {
        0b10u8
    } else if k4 == 2 {
        0b01u8
    } else {
        0b11u8
    }
}

impl Phase {
    /// `+1`.
    #[verifier::allow_in_spec]
    pub fn plus() -> Phase
        returns
            Phase::from_quarter_turns(0),
    {
        Phase(0b00)
    }

    /// `-1`.
    #[verifier::allow_in_spec]
    pub fn minus() -> Phase
        returns
            Phase::from_quarter_turns(2),
    {
        Phase(0b01)
    }

    /// `+i`.
    #[verifier::allow_in_spec]
    pub fn plus_i() -> Phase
        returns
            Phase::from_quarter_turns(1),
    {
        Phase(0b10)
    }

    /// `-i`.
    #[verifier::allow_in_spec]
    pub fn minus_i() -> Phase
        returns
            Phase::from_quarter_turns(3),
    {
        Phase(0b11)
    }

    #[verifier::type_invariant]
    closed spec fn inv(self) -> bool {
        self.0 < 4
    }

    /// The two-bit code of the phase.
    pub closed spec fn code(self) -> u8 {
        self.0
    }

    /// Every phase value has a valid code.
    pub fn check_wf(&self)
        ensures
            self.wf(),
    {
        proof {
            use_type_invariant(self);
        }
    }

    /// The phase as a power of `i`: `+1 = i^0`, `+i = i^1`, `-1 = i^2`, `-i = i^3`.
    pub open spec fn quarter_turns(self) -> int {
        let c = self.code();
        if c == 0b00u8 {
            0
        } else if c == 0b10u8 {
            1
        } else if c == 0b01u8 {
            2
        } else {
            3
        }
    }

    /// A phase code is one of the four two-bit values; every `Phase` value built by this
    /// library has one.
    pub open spec fn wf(self) -> bool {
        self.code() < 4
    }

    /// A well-formed phase's code is the code of its power of `i`, which is below 4.
    pub proof fn lemma_code(self)
        requires
            self.wf(),
        ensures
            phase_code(self.quarter_turns()) == self.code(),
            0 <= self.quarter_turns() < 4,
    {
    }

    /// The constants stand for `i^0`, `i^2`, `i^1` and `i^3`.
    pub proof fn lemma_constants()
        ensures
            Phase::plus().quarter_turns() == 0,
            Phase::minus().quarter_turns() == 2,
            Phase::plus_i().quarter_turns() == 1,
            Phase::minus_i().quarter_turns() == 3,
    {
    }

    /// The phase `i^k`.
    pub closed spec fn from_quarter_turns(k: int) -> Phase {
        Phase(phase_code(k))
    }

    /// The product of two phases: the powers of `i` add up.
    pub open spec fn mul_spec(self, other: Phase) -> Phase {
        Phase::from_quarter_turns(self.quarter_turns() + other.quarter_turns())
    }

    /// The phase made from a power of `i` is well formed and stands for that power
    /// modulo 4.
    pub proof fn lemma_from_quarter_turns(k: int)
        ensures
            Phase::from_quarter_turns(k).wf(),
            Phase::from_quarter_turns(k).quarter_turns() == k % 4,
            Phase::from_quarter_turns(k).code() == phase_code(k),
    {
    }

    /// Multiplies two phases: the powers of `i` add up modulo 4, so that for instance
    /// `(+i)(+i) = -1` and `(+i)(-i) = +1`.
    ///
    /// The product is read off a precomputed table.
    pub fn multiply(&self, other: &Phase) -> (r: Phase)
        ensures
            r == self.mul_spec(*other),
            r.wf(),
            r.quarter_turns() == (self.quarter_turns() + other.quarter_turns()) % 4,
    {
        proof {
            use_type_invariant(self);
            use_type_invariant(other);
        }
        let table: [[u8; 4]; 4] = [
            [0b00, 0b01, 0b10, 0b11],
            [0b01, 0b00, 0b11, 0b10],
            [0b10, 0b11, 0b01, 0b00],
            [0b11, 0b10, 0b00, 0b01],
        ];
        let row = table[self.0 as usize];
        let r = Phase(row[other.0 as usize]);
        proof {
            let a = self.0;
            let b = other.0;
            assert(a == 0 ==> row@ =~= seq![0b00u8, 0b01, 0b10, 0b11]);
            assert(a == 1 ==> row@ =~= seq![0b01u8, 0b00, 0b11, 0b10]);
            assert(a == 2 ==> row@ =~= seq![0b10u8, 0b11, 0b01, 0b00]);
            assert(a == 3 ==> row@ =~= seq![0b11u8, 0b10, 0b00, 0b01]);
            assert(a == 0 && b == 0 ==> r.quarter_turns() == (self.quarter_turns() + other.quarter_turns()) % 4);
            assert(a == 0 && b == 1 ==> r.quarter_turns() == (self.quarter_turns() + other.quarter_turns()) % 4);
            assert(a == 0 && b == 2 ==> r.quarter_turns() == (self.quarter_turns() + other.quarter_turns()) % 4);
            assert(a == 0 && b == 3 ==> r.quarter_turns() == (self.quarter_turns() + other.quarter_turns()) % 4);
            assert(a == 1 && b == 0 ==> r.quarter_turns() == (self.quarter_turns() + other.quarter_turns()) % 4);
            assert(a == 1 && b == 1 ==> r.quarter_turns() == (self.quarter_turns() + other.quarter_turns()) % 4);
            assert(a == 1 && b == 2 ==> r.quarter_turns() == (self.quarter_turns() + other.quarter_turns()) % 4);
            assert(a == 1 && b == 3 ==> r.quarter_turns() == (self.quarter_turns() + other.quarter_turns()) % 4);
            assert(a == 2 && b == 0 ==> r.quarter_turns() == (self.quarter_turns() + other.quarter_turns()) % 4);
            assert(a == 2 && b == 1 ==> r.quarter_turns() == (self.quarter_turns() + other.quarter_turns()) % 4);
            assert(a == 2 && b == 2 ==> r.quarter_turns() == (self.quarter_turns() + other.quarter_turns()) % 4);
            assert(a == 2 && b == 3 ==> r.quarter_turns() == (self.quarter_turns() + other.quarter_turns()) % 4);
            assert(a == 3 && b == 0 ==> r.quarter_turns() == (self.quarter_turns() + other.quarter_turns()) % 4);
            assert(a == 3 && b == 1 ==> r.quarter_turns() == (self.quarter_turns() + other.quarter_turns()) % 4);
            assert(a == 3 && b == 2 ==> r.quarter_turns() == (self.quarter_turns() + other.quarter_turns()) % 4);
            assert(a == 3 && b == 3 ==> r.quarter_turns() == (self.quarter_turns() + other.quarter_turns()) % 4);
        }
        r
    }

    /// Whether two phases are equal.
    pub fn equals(&self, other: &Phase) -> (b: bool)
        ensures
            b == (self.quarter_turns() == other.quarter_turns()),
            b == (*self == *other),
    {
        proof {
            use_type_invariant(self);
            use_type_invariant(other);
        }
        self.0 == other.0
    }
}

impl Default for Phase {
    /// The default phase is `+1`.
    fn default() -> (r: Phase)
        ensures
            r == Phase::plus(),
    {
        Phase::plus()
    }
}

/// Two phases with the same power of `i` are the same phase.
pub proof fn lemma_phase_ext(a: Phase, b: Phase)
    requires
        a.wf(),
        b.wf(),
        a.quarter_turns() == b.quarter_turns(),
    ensures
        a == b,
{
    a.lemma_code();
    b.lemma_code();
}

/// Phase multiplication is commutative.
pub proof fn lemma_phase_multiply_commutative(a: Phase, b: Phase)
    ensures
        a.mul_spec(b) == b.mul_spec(a),
{
}

/// Phase multiplication is associative.
pub proof fn lemma_phase_multiply_associative(a: Phase, b: Phase, c: Phase)
    requires
        a.wf(),
        b.wf(),
        c.wf(),
    ensures
        a.mul_spec(b).mul_spec(c) == a.mul_spec(b.mul_spec(c)),
{
    a.lemma_code();
    b.lemma_code();
    c.lemma_code();
    Phase::lemma_from_quarter_turns(a.quarter_turns() + b.quarter_turns());
    Phase::lemma_from_quarter_turns(b.quarter_turns() + c.quarter_turns());
}

/// `+1` is the unit of phase multiplication.
pub proof fn lemma_phase_unit(a: Phase)
    requires
        a.wf(),
    ensures
        a.mul_spec(Phase::plus()) == a,
        Phase::plus().mul_spec(a) == a,
{
    a.lemma_code();
}

/// Every phase has an inverse: `+1` and `-1` are their own, `+i` and `-i` are each other's.
pub proof fn lemma_phase_inverse(a: Phase)
    requires
        a.wf(),
    ensures
        a.mul_spec(a) == Phase::plus() || a.mul_spec(a) == Phase::minus(),
        Phase::plus_i().mul_spec(Phase::minus_i()) == Phase::plus(),
        Phase::minus().mul_spec(Phase::minus()) == Phase::plus(),
        Phase::plus_i().mul_spec(Phase::plus_i()) == Phase::minus(),
{
    a.lemma_code();
}

} // verus!
