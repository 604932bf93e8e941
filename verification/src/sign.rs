use crate::phase::Phase;
use vstd::prelude::*;
use vstd::std_specs::convert::FromSpecImpl;

verus! {

/// The sign of a stabilizer: `+1` or `-1`.
#[derive(Debug, Clone, Copy, PartialEq, Eq, Hash, Structural)]
pub enum Sign {
    PlusOne,
    MinusOne,
}

impl Sign {
    /// Whether this sign is `-1`.
    pub open spec fn is_negative(self) -> bool {
        self is MinusOne
    }

    /// The phase that equals this sign.
    pub open spec fn as_phase(self) -> Phase {
        if self.is_negative() {
            Phase::minus()
        } else {
            Phase::plus()
        }
    }

    /// Multiplies two signs: the product is `-1` exactly when one factor is `-1`.
    pub fn multiply(self, other: Self) -> (r: Self)
        ensures
            r.is_negative() == (self.is_negative() != other.is_negative()),
    {
        match (self, other) {
            (Sign::PlusOne, s) => s,
            (Sign::MinusOne, Sign::PlusOne) => Sign::MinusOne,
            (Sign::MinusOne, Sign::MinusOne) => Sign::PlusOne,
        }
    }

    /// The sign equal to `phase`; fails for the imaginary phases `+i` and `-i`.
    pub fn try_from(phase: Phase) -> (r: Result<Self, &'static str>)
        ensures
            phase == Phase::plus() ==> r == Ok::<Sign, &'static str>(Sign::PlusOne),
            phase == Phase::minus() ==> r == Ok::<Sign, &'static str>(Sign::MinusOne),
            r is Err <==> (phase != Phase::plus() && phase != Phase::minus()),
            r matches Err(e) ==> e@ == "Invalid phase: Sign can only be PlusOne or MinusOne"@,
    {
        proof {
            Phase::lemma_from_quarter_turns(0);
            Phase::lemma_from_quarter_turns(2);
        }
        if phase.equals(&Phase::plus()) {
            Ok(Sign::PlusOne)
        } else if phase.equals(&Phase::minus()) {
            Ok(Sign::MinusOne)
        } else {
            Err("Invalid phase: Sign can only be PlusOne or MinusOne")
        }
    }
}

impl From<Sign> for Phase {
    /// `+1` becomes the phase `+1` and `-1` the phase `-1`.
    fn from(sign: Sign) -> (r: Phase) {
        match sign {
            Sign::PlusOne => Phase::plus(),
            Sign::MinusOne => Phase::minus(),
        }
    }
}

impl FromSpecImpl<Sign> for Phase {
    open spec fn obeys_from_spec() -> bool {
        true
    }

    open spec fn from_spec(sign: Sign) -> Phase {
        sign.as_phase()
    }
}

/// Converting a sign to a phase and back gives the sign again.
pub proof fn lemma_sign_phase_round_trip(s: Sign)
    ensures
        s.as_phase() == Phase::plus() ==> s == Sign::PlusOne,
        s.as_phase() == Phase::minus() ==> s == Sign::MinusOne,
        s.as_phase() == Phase::plus() || s.as_phase() == Phase::minus(),
{
    Phase::lemma_from_quarter_turns(0);
    Phase::lemma_from_quarter_turns(2);
    if s.as_phase() == Phase::plus() && s is MinusOne {
        assert(Phase::plus().quarter_turns() != Phase::minus().quarter_turns());
    }
    if s.as_phase() == Phase::minus() && s is PlusOne {
        assert(Phase::plus().quarter_turns() != Phase::minus().quarter_turns());
    }
}

/// Multiplying signs agrees with multiplying the phases they stand for.
pub proof fn lemma_sign_multiply_matches_phase(a: Sign, b: Sign)
    ensures
        (if a.is_negative() != b.is_negative() {
            Sign::MinusOne
        } else {
            Sign::PlusOne
        }).as_phase() == a.as_phase().mul_spec(b.as_phase()),
{
    Phase::lemma_from_quarter_turns(0);
    Phase::lemma_from_quarter_turns(2);
    Phase::lemma_from_quarter_turns(4);
    crate::phase::lemma_phase_ext(
        Phase::from_quarter_turns(4),
        Phase::from_quarter_turns(0),
    );
}

} // verus!
