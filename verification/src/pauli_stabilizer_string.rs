use crate::phase::Phase;
use crate::sign::Sign;
use vstd::prelude::*;

verus! {

/// A single-qubit Pauli operator.
#[derive(Debug, Clone, Copy, PartialEq, Eq, Hash, Structural)]
pub enum Pauli {
    I,
    X,
    Y,
    Z,
}

/// The index of a qubit.
#[derive(Debug, Clone, Copy, PartialEq, Eq, Hash, Structural)]
pub struct QubitId(pub usize);

/// Whether two single-qubit Paulis anticommute: both are non-identity and they differ.
pub open spec fn paulis_anticommute(p: Pauli, q: Pauli) -> bool {
    p != Pauli::I && q != Pauli::I && p != q
}

/// Whether two Pauli factors anticommute: they act on the same qubit and their Paulis
/// anticommute.
pub open spec fn factors_anticommute(a: (Pauli, QubitId), b: (Pauli, QubitId)) -> bool {
    a.1 == b.1 && paulis_anticommute(a.0, b.0)
}

/// The number of factors of `b` that anticommute with the factor `a`.
pub open spec fn anticommuting_with(a: (Pauli, QubitId), b: Seq<(Pauli, QubitId)>) -> nat
    decreases b.len(),
{
    if b.len() == 0 {
        0
    } else {
        anticommuting_with(a, b.drop_last()) + if factors_anticommute(a, b.last()) {
            1nat
        } else {
            0nat
        }
    }
}

/// The number of pairs of a factor of `a` and a factor of `b` that anticommute.
pub open spec fn anticommuting_pairs(a: Seq<(Pauli, QubitId)>, b: Seq<(Pauli, QubitId)>) -> nat
    decreases a.len(),
{
    if a.len() == 0 {
        0
    } else {
        anticommuting_pairs(a.drop_last(), b) + anticommuting_with(a.last(), b)
    }
}

/// Whether two products of Pauli factors commute: an even number of factor pairs
/// anticommute.
pub open spec fn products_commute(a: Seq<(Pauli, QubitId)>, b: Seq<(Pauli, QubitId)>) -> bool {
    anticommuting_pairs(a, b) % 2 == 0
}

/// The product `p·q` of two single-qubit Paulis as a power of `i` (in quarter turns,
/// `0..4`) times a Pauli: `XY = iZ`, `YZ = iX`, `ZX = iY`, the reverse orders give `-i`,
/// a Pauli times itself is `I`, and `I` is the unit.
pub open spec fn pauli_product(p: Pauli, q: Pauli) -> (nat, Pauli) {
    match (p, q) {
        (Pauli::I, _) => (0, q),
        (_, Pauli::I) => (0, p),
        (Pauli::X, Pauli::X) | (Pauli::Y, Pauli::Y) | (Pauli::Z, Pauli::Z) => (0, Pauli::I),
        (Pauli::X, Pauli::Y) => (1, Pauli::Z),
        (Pauli::Y, Pauli::X) => (3, Pauli::Z),
        (Pauli::Y, Pauli::Z) => (1, Pauli::X),
        (Pauli::Z, Pauli::Y) => (3, Pauli::X),
        (Pauli::Z, Pauli::X) => (1, Pauli::Y),
        (Pauli::X, Pauli::Z) => (3, Pauli::Y),
    }
}

/// The Pauli that the factors `s`, multiplied in order, leave on qubit `q` (`I` where no
/// factor acts on it).
pub open spec fn qubit_product(s: Seq<(Pauli, QubitId)>, q: usize) -> Pauli
    decreases s.len(),
{
    if s.len() == 0 {
        Pauli::I
    } else if s.last().1.0 == q {
        pauli_product(qubit_product(s.drop_last(), q), s.last().0).1
    } else {
        qubit_product(s.drop_last(), q)
    }
}

/// The power of `i` (in quarter turns) that multiplying the factors `s` in order gives off:
/// factors on different qubits commute, so each factor meets only what the earlier
/// factors left on its own qubit.
pub open spec fn product_phase(s: Seq<(Pauli, QubitId)>) -> nat
    decreases s.len(),
{
    if s.len() == 0 {
        0
    } else {
        product_phase(s.drop_last()) + pauli_product(
            qubit_product(s.drop_last(), s.last().1.0),
            s.last().0,
        ).0
    }
}

/// Whether the factors act on distinct qubits and none of them is `I`.
pub open spec fn is_reduced(s: Seq<(Pauli, QubitId)>) -> bool {
    &&& forall|i: int| 0 <= i < s.len() ==> (#[trigger] s[i]).0 != Pauli::I
    &&& forall|i: int, j: int| 0 <= i < j < s.len() ==> (#[trigger] s[i]).1 != (#[trigger] s[j]).1
}

/// A sign as a power of `i`, in quarter turns: `0` for `+1`, `2` for `-1`.
pub open spec fn sign_quarters(s: Sign) -> nat {
    if s.is_negative() {
        2
    } else {
        0
    }
}

/// A Pauli string with a phase: a phase times a product of single-qubit Paulis.
#[derive(Debug, Clone)]
pub struct PauliString {
    phase: Phase,
    paulis: Vec<(Pauli, QubitId)>,
}

impl PauliString {
    /// The phase.
    pub closed spec fn phase_spec(&self) -> Phase {
        self.phase
    }

    /// The Pauli factors with their qubits, in order.
    pub closed spec fn paulis_spec(&self) -> Seq<(Pauli, QubitId)> {
        self.paulis@
    }

    /// The Pauli string `phase` times the factors `paulis`.
    pub fn new(phase: Phase, paulis: Vec<(Pauli, QubitId)>) -> (p: Self)
        ensures
            p.phase_spec() == phase,
            p.paulis_spec() == paulis@,
    {
        PauliString { phase, paulis }
    }

    /// The phase.
    pub fn get_phase(&self) -> (p: Phase)
        ensures
            p == self.phase_spec(),
    {
        self.phase
    }

    /// The Pauli factors with their qubits, in order.
    pub fn get_paulis(&self) -> (v: &Vec<(Pauli, QubitId)>)
        ensures
            v@ == self.paulis_spec(),
    {
        &self.paulis
    }
}

/// A stabilizer: a sign times a product of single-qubit Paulis.
#[derive(Debug)]
pub struct PauliStabilizerString {
    sign: Sign,
    paulis: Vec<(Pauli, QubitId)>,
}

/// Copies a list of Pauli factors.
fn copy_factors(v: &Vec<(Pauli, QubitId)>) -> (r: Vec<(Pauli, QubitId)>)
    ensures
        r@ == v@,
{
    let mut r: Vec<(Pauli, QubitId)> = Vec::new();
    let mut k: usize = 0;
    while k < v.len()
        invariant
            k <= v.len(),
            r@ == v@.take(k as int),
        decreases v.len() - k,
    {
        let f = v[k];
        r.push(f);
        k = k + 1;
        proof {
            assert(r@ =~= v@.take(k as int));
        }
    }
    proof {
        assert(v@.take(k as int) =~= v@);
    }
    r
}

/// A sign as a power of `i` (see `sign_quarters`).
fn quarters_of(s: Sign) -> (r: u8)
    ensures
        r == sign_quarters(s),
{
    match s {
        Sign::PlusOne => 0,
        Sign::MinusOne => 2,
    }
}

/// The product of two single-qubit Paulis (see `pauli_product`).
fn multiply_paulis(p: Pauli, q: Pauli) -> (r: (u8, Pauli))
    ensures
        r.0 == pauli_product(p, q).0,
        r.1 == pauli_product(p, q).1,
{
    match (p, q) {
        (Pauli::I, _) => (0, q),
        (_, Pauli::I) => (0, p),
        (Pauli::X, Pauli::X) | (Pauli::Y, Pauli::Y) | (Pauli::Z, Pauli::Z) => (0, Pauli::I),
        (Pauli::X, Pauli::Y) => (1, Pauli::Z),
        (Pauli::Y, Pauli::X) => (3, Pauli::Z),
        (Pauli::Y, Pauli::Z) => (1, Pauli::X),
        (Pauli::Z, Pauli::Y) => (3, Pauli::X),
        (Pauli::Z, Pauli::X) => (1, Pauli::Y),
        (Pauli::X, Pauli::Z) => (3, Pauli::Y),
    }
}

/// On a reduced list, the Pauli on qubit `q` is that of the factor on `q`, or `I`.
proof fn lemma_reduced_lookup(s: Seq<(Pauli, QubitId)>, q: usize)
    requires
        is_reduced(s),
    ensures
        forall|j: int| 0 <= j < s.len() && s[j].1.0 == q ==> qubit_product(s, q) == s[j].0,
        (forall|j: int| 0 <= j < s.len() ==> s[j].1.0 != q) ==> qubit_product(s, q) == Pauli::I,
    decreases s.len(),
{
    if s.len() > 0 {
        let t = s.drop_last();
        assert(is_reduced(t)) by {
            assert forall|i: int| 0 <= i < t.len() implies (#[trigger] t[i]).0 != Pauli::I by {
                assert(t[i] == s[i]);
            }
            assert forall|i: int, j: int| 0 <= i < j < t.len() implies (#[trigger] t[i]).1
                != (#[trigger] t[j]).1 by {
                assert(t[i] == s[i] && t[j] == s[j]);
            }
        }
        lemma_reduced_lookup(t, q);
        assert forall|j: int| 0 <= j < s.len() && s[j].1.0 == q implies qubit_product(s, q)
            == s[j].0 by {
            if j < s.len() - 1 {
                assert(t[j] == s[j]);
                assert(s[j].1 != s[s.len() - 1].1);
            } else {
                assert(qubit_product(t, q) == Pauli::I) by {
                    assert forall|i: int| 0 <= i < t.len() implies t[i].1.0 != q by {
                        assert(t[i] == s[i]);
                        assert(s[i].1 != s[j].1);
                    }
                }
            }
        }
        if forall|j: int| 0 <= j < s.len() ==> s[j].1.0 != q {
            assert forall|i: int| 0 <= i < t.len() implies t[i].1.0 != q by {
                assert(t[i] == s[i]);
            }
            assert(s[s.len() - 1].1.0 != q);
        }
    }
}

/// The position of the factor on qubit `q`, or the length where there is none.
fn find_qubit(v: &Vec<(Pauli, QubitId)>, q: usize) -> (j: usize)
    ensures
        j <= v@.len(),
        j < v@.len() ==> v@[j as int].1.0 == q,
        j == v@.len() ==> forall|i: int| 0 <= i < v@.len() ==> v@[i].1.0 != q,
{
    let mut j: usize = 0;
    while j < v.len()
        invariant
            j <= v@.len(),
            forall|i: int| 0 <= i < j ==> v@[i].1.0 != q,
        decreases v@.len() - j,
    {
        if v[j].1.0 == q {
            return j;
        }
        j = j + 1;
    }
    j
}

/// Multiplies the factors `s` in order, qubit by qubit: the power of `i` given off (in
/// quarter turns, modulo 4) and a reduced list with the same Pauli on every qubit.
fn reduce_factors(s: &Vec<(Pauli, QubitId)>) -> (r: (u8, Vec<(Pauli, QubitId)>))
    ensures
        r.0 == product_phase(s@) % 4,
        is_reduced(r.1@),
        forall|q: usize| qubit_product(r.1@, q) == #[trigger] qubit_product(s@, q),
{
    let mut acc: Vec<(Pauli, QubitId)> = Vec::new();
    let mut k: u8 = 0;
    let mut n: usize = 0;
    while n < s.len()
        invariant
            n <= s@.len(),
            k < 4,
            k == product_phase(s@.take(n as int)) % 4,
            is_reduced(acc@),
            forall|q: usize| qubit_product(acc@, q) == #[trigger] qubit_product(
                s@.take(n as int),
                q,
            ),
        decreases s@.len() - n,
    {
        let (p, qid) = s[n];
        let q = qid.0;
        let ghost pre = s@.take(n as int);
        let ghost old_acc = acc@;
        proof {
            assert(s@.take(n + 1).drop_last() =~= pre);
            assert(s@.take(n + 1).last() == (p, qid));
        }
        let j = find_qubit(&acc, q);
        let cur = if j < acc.len() {
            acc[j].0
        } else {
            Pauli::I
        };
        proof {
            lemma_reduced_lookup(old_acc, q);
            assert(cur == qubit_product(pre, q));
        }
        let (ph, np) = multiply_paulis(cur, p);
        k = (k + ph) % 4;
        if j < acc.len() {
            if np == Pauli::I {
                acc.remove(j);
            } else {
                acc.set(j, (np, qid));
            }
        } else if !(np == Pauli::I) {
            acc.push((np, qid));
        }
        proof {
            let na = acc@;
            assert(is_reduced(na)) by {
                if j < old_acc.len() && np == Pauli::I {
                    assert forall|a: int| 0 <= a < na.len() implies (#[trigger] na[a]).0
                        != Pauli::I by {
                        if a < j {
                            assert(na[a] == old_acc[a]);
                        } else {
                            assert(na[a] == old_acc[a + 1]);
                        }
                    }
                    assert forall|a: int, b: int| 0 <= a < b < na.len() implies (
                    #[trigger] na[a]).1 != (#[trigger] na[b]).1 by {
                        let a0 = if a < j {
                            a
                        } else {
                            a + 1
                        };
                        let b0 = if b < j {
                            b
                        } else {
                            b + 1
                        };
                        assert(na[a] == old_acc[a0] && na[b] == old_acc[b0]);
                    }
                } else if j < old_acc.len() {
                    assert forall|a: int, b: int| 0 <= a < b < na.len() implies (
                    #[trigger] na[a]).1 != (#[trigger] na[b]).1 by {
                        assert(na[a].1 == old_acc[a].1 && na[b].1 == old_acc[b].1);
                    }
                    assert forall|a: int| 0 <= a < na.len() implies (#[trigger] na[a]).0
                        != Pauli::I by {
                        if a != j {
                            assert(na[a] == old_acc[a]);
                        }
                    }
                } else if np != Pauli::I {
                    assert forall|a: int, b: int| 0 <= a < b < na.len() implies (
                    #[trigger] na[a]).1 != (#[trigger] na[b]).1 by {
                        if b == na.len() - 1 {
                            assert(na[a] == old_acc[a]);
                            assert(old_acc[a].1.0 != q);
                        } else {
                            assert(na[a] == old_acc[a] && na[b] == old_acc[b]);
                        }
                    }
                    assert forall|a: int| 0 <= a < na.len() implies (#[trigger] na[a]).0
                        != Pauli::I by {
                        if a < old_acc.len() {
                            assert(na[a] == old_acc[a]);
                        }
                    }
                } else {
                    assert(na == old_acc);
                }
            }
            lemma_reduced_lookup(na, q);
            assert forall|q2: usize| qubit_product(na, q2) == #[trigger] qubit_product(
                s@.take(n + 1),
                q2,
            ) by {
                lemma_reduced_lookup(na, q2);
                lemma_reduced_lookup(old_acc, q2);
                let t1 = s@.take(n + 1);
                assert(t1.drop_last() == pre);
                assert(t1.last() == (p, qid));
                assert(qubit_product(old_acc, q2) == qubit_product(pre, q2));
                if q2 == q {
                    assert(qubit_product(t1, q2) == np);
                } else {
                    assert(qubit_product(t1, q2) == qubit_product(pre, q2));
                }
                if q2 == q {
                    if j < old_acc.len() && np != Pauli::I {
                        assert(na[j as int].1.0 == q);
                    } else if j < old_acc.len() {
                        assert forall|a: int| 0 <= a < na.len() implies na[a].1.0 != q by {
                            if a < j {
                                assert(na[a] == old_acc[a]);
                                assert(old_acc[a].1 != old_acc[j as int].1);
                            } else {
                                assert(na[a] == old_acc[a + 1]);
                                assert(old_acc[a + 1].1 != old_acc[j as int].1);
                            }
                        }
                    } else if np != Pauli::I {
                        assert(na[na.len() - 1].1.0 == q);
                    }
                } else {
                    if exists|a: int| 0 <= a < old_acc.len() && old_acc[a].1.0 == q2 {
                        let a = choose|a: int| 0 <= a < old_acc.len() && old_acc[a].1.0 == q2;
                        if j < old_acc.len() && np == Pauli::I {
                            assert(a != j);
                            if a < j {
                                assert(na[a] == old_acc[a]);
                            } else {
                                assert(na[a - 1] == old_acc[a]);
                            }
                        } else if j < old_acc.len() {
                            assert(na[a] == old_acc[a]);
                        } else {
                            assert(na[a] == old_acc[a]);
                        }
                    } else {
                        assert forall|a: int| 0 <= a < na.len() implies na[a].1.0 != q2 by {
                            if j < old_acc.len() && np == Pauli::I {
                                if a < j {
                                    assert(na[a] == old_acc[a]);
                                } else {
                                    assert(na[a] == old_acc[a + 1]);
                                }
                            } else if j < old_acc.len() {
                                if a != j {
                                    assert(na[a] == old_acc[a]);
                                }
                            } else if a < old_acc.len() {
                                assert(na[a] == old_acc[a]);
                            }
                        }
                    }
                }
            }
        }
        n = n + 1;
    }
    proof {
        assert(s@.take(n as int) =~= s@);
    }
    (k, acc)
}

impl PauliStabilizerString {
    /// The sign.
    pub closed spec fn sign_spec(&self) -> Sign {
        self.sign
    }

    /// The Pauli factors with their qubits, in order.
    pub closed spec fn paulis_spec(&self) -> Seq<(Pauli, QubitId)> {
        self.paulis@
    }

    /// The stabilizer `+1` with no factors: the identity.
    pub fn new() -> (p: Self)
        ensures
            p.sign_spec() == Sign::PlusOne,
            p.paulis_spec() == Seq::<(Pauli, QubitId)>::empty(),
    {
        PauliStabilizerString { sign: Sign::PlusOne, paulis: Vec::new() }
    }

    /// The sign.
    pub fn get_sign(&self) -> (s: Sign)
        ensures
            s == self.sign_spec(),
    {
        self.sign
    }

    /// The Pauli factors with their qubits, in order.
    pub fn get_paulis(&self) -> (v: &Vec<(Pauli, QubitId)>)
        ensures
            v@ == self.paulis_spec(),
    {
        &self.paulis
    }

    /// The stabilizer with the sign and factors of a Pauli string; fails where the
    /// string's phase is imaginary.
    pub fn try_from_pauli_string(pauli_string: &PauliString) -> (r: Result<Self, String>)
        ensures
            pauli_string.phase_spec() == Phase::plus() || pauli_string.phase_spec()
                == Phase::minus() <==> r is Ok,
            r matches Ok(s) ==> s.sign_spec().as_phase() == pauli_string.phase_spec()
                && s.paulis_spec() == pauli_string.paulis_spec(),
            r matches Err(e) ==> e@ == "Invalid phase for PauliStabilizerString"@,
    {
        proof {
            Phase::lemma_from_quarter_turns(0);
            Phase::lemma_from_quarter_turns(2);
        }
        let sign = match Sign::try_from(pauli_string.get_phase()) {
            Ok(s) => s,
            Err(_) => {
                return Err("Invalid phase for PauliStabilizerString".to_string());
            },
        };
        let paulis = copy_factors(pauli_string.get_paulis());
        Ok(PauliStabilizerString { sign, paulis })
    }

    /// The product of two stabilizers, combined qubit by qubit: the result carries, on each
    /// qubit, the product of the factors of `self` and then of `other` on that qubit
    /// (`XX = I`, `XZ = -iY`, ...), once, and no identity factors. Its sign is the product
    /// of the two signs and the powers of `i` the factors give off. Where the two
    /// stabilizers anticommute that power is odd, and the product is `±i` times a Pauli
    /// string, which is no stabilizer. By convention the result is then that Pauli string
    /// with the sign of the power one quarter turn below (`+i·P` gives `+P`, `-i·P` gives
    /// `-P`); a caller that needs the exact product checks `commutes_with` first.
    pub fn multiply(&self, other: &Self) -> (p: Self)
        ensures
            is_reduced(p.paulis_spec()),
            forall|q: usize|
                qubit_product(p.paulis_spec(), q) == #[trigger] qubit_product(
                    self.paulis_spec() + other.paulis_spec(),
                    q,
                ),
            ({
                let total = sign_quarters(self.sign_spec()) + sign_quarters(other.sign_spec())
                    + product_phase(self.paulis_spec() + other.paulis_spec());
                sign_quarters(p.sign_spec()) == (total - total % 2) % 4
            }),
    {
        let mut all = copy_factors(&self.paulis);
        let mut k: usize = 0;
        while k < other.paulis.len()
            invariant
                k <= other.paulis.len(),
                all@ == self.paulis@ + other.paulis@.take(k as int),
            decreases other.paulis.len() - k,
        {
            let f = other.paulis[k];
            all.push(f);
            k = k + 1;
            proof {
                assert(all@ =~= self.paulis@ + other.paulis@.take(k as int));
            }
        }
        proof {
            assert(other.paulis@.take(k as int) =~= other.paulis@);
        }
        let (quarters, paulis) = reduce_factors(&all);
        let total = (quarters + quarters_of(self.sign) + quarters_of(other.sign)) % 4;
        let sign = if total >= 2 {
            Sign::MinusOne
        } else {
            Sign::PlusOne
        };
        PauliStabilizerString { sign, paulis }
    }

    /// Whether the two stabilizers commute: an even number of pairs of their factors
    /// act on the same qubit with anticommuting Paulis.
    pub fn commutes_with(&self, other: &Self) -> (b: bool)
        ensures
            b == products_commute(self.paulis_spec(), other.paulis_spec()),
    {
        let a = &self.paulis;
        let c = &other.paulis;
        let mut odd = false;
        let mut i: usize = 0;
        while i < a.len()
            invariant
                i <= a.len(),
                odd == (anticommuting_pairs(a@.take(i as int), c@) % 2 == 1),
            decreases a.len() - i,
        {
            let x = a[i];
            let mut odd_here = false;
            let mut j: usize = 0;
            while j < c.len()
                invariant
                    j <= c.len(),
                    i < a.len(),
                    x == a@[i as int],
                    odd_here == (anticommuting_with(x, c@.take(j as int)) % 2 == 1),
                decreases c.len() - j,
            {
                let y = c[j];
                proof {
                    assert(c@.take(j + 1).drop_last() =~= c@.take(j as int));
                }
                let anti = x.1.0 == y.1.0 && !(x.0 == Pauli::I) && !(y.0 == Pauli::I) && !(x.0
                    == y.0);
                if anti {
                    odd_here = !odd_here;
                }
                j = j + 1;
            }
            proof {
                assert(c@.take(j as int) =~= c@);
                assert(a@.take(i + 1).drop_last() =~= a@.take(i as int));
            }
            if odd_here {
                odd = !odd;
            }
            i = i + 1;
        }
        proof {
            assert(a@.take(i as int) =~= a@);
        }
        !odd
    }
}

impl Default for PauliStabilizerString {
    fn default() -> (p: Self)
        ensures
            p.sign_spec() == Sign::PlusOne,
            p.paulis_spec() == Seq::<(Pauli, QubitId)>::empty(),
    {
        Self::new()
    }
}

/// Adding a factor `y` to `b` adds the factors of `a` that anticommute with `y`.
pub proof fn lemma_pairs_push(a: Seq<(Pauli, QubitId)>, b: Seq<(Pauli, QubitId)>, y: (
    Pauli,
    QubitId,
))
    ensures
        anticommuting_pairs(a, b.push(y)) == anticommuting_pairs(a, b) + anticommuting_with(y, a),
    decreases a.len(),
{
    if a.len() > 0 {
        let x = a.last();
        lemma_pairs_push(a.drop_last(), b, y);
        assert(b.push(y).drop_last() =~= b);
        assert(factors_anticommute(x, y) == factors_anticommute(y, x));
    }
}

/// Whether two stabilizers commute does not depend on the order in which they are taken.
pub proof fn lemma_commutation_symmetric(a: Seq<(Pauli, QubitId)>, b: Seq<(Pauli, QubitId)>)
    ensures
        anticommuting_pairs(a, b) == anticommuting_pairs(b, a),
        products_commute(a, b) == products_commute(b, a),
    decreases b.len(),
{
    if b.len() == 0 {
        lemma_pairs_empty(a);
        assert(b =~= Seq::<(Pauli, QubitId)>::empty());
    } else {
        let y = b.last();
        let b0 = b.drop_last();
        lemma_commutation_symmetric(a, b0);
        lemma_pairs_push(a, b0, y);
        assert(b0.push(y) =~= b);
        assert(anticommuting_pairs(b, a) == anticommuting_pairs(b0, a) + anticommuting_with(y, a));
    }
}

/// No factor anticommutes with an empty product.
pub proof fn lemma_pairs_empty(a: Seq<(Pauli, QubitId)>)
    ensures
        anticommuting_pairs(a, Seq::<(Pauli, QubitId)>::empty()) == 0,
    decreases a.len(),
{
    if a.len() > 0 {
        lemma_pairs_empty(a.drop_last());
    }
}

/// Every stabilizer commutes with itself.
pub proof fn lemma_commutes_with_itself(a: Seq<(Pauli, QubitId)>)
    ensures
        products_commute(a, a),
    decreases a.len(),
{
    lemma_self_pairs_even(a);
}

/// The factor pairs of a product with itself come in twos.
proof fn lemma_self_pairs_even(a: Seq<(Pauli, QubitId)>)
    ensures
        anticommuting_pairs(a, a) % 2 == 0,
    decreases a.len(),
{
    if a.len() > 0 {
        let x = a.last();
        let a0 = a.drop_last();
        lemma_self_pairs_even(a0);
        lemma_pairs_push(a0, a0, x);
        assert(a0.push(x) =~= a);
        assert(a.drop_last() =~= a0);
        assert(!factors_anticommute(x, x));
        assert(anticommuting_with(x, a) == anticommuting_with(x, a0));
        assert(anticommuting_pairs(a, a) == anticommuting_pairs(a0, a) + anticommuting_with(x, a));
    }
}

/// The anticommuting pairs of a product `a · b` with `c` are those of `a` and of `b`:
/// the product commutes with `c` exactly when `a` and `b` both commute with `c` or both
/// anticommute with it.
pub proof fn lemma_product_commutation(
    a: Seq<(Pauli, QubitId)>,
    b: Seq<(Pauli, QubitId)>,
    c: Seq<(Pauli, QubitId)>,
)
    ensures
        anticommuting_pairs(a + b, c) == anticommuting_pairs(a, c) + anticommuting_pairs(b, c),
        products_commute(a + b, c) == (products_commute(a, c) == products_commute(b, c)),
    decreases b.len(),
{
    if b.len() == 0 {
        assert(a + b =~= a);
    } else {
        let b0 = b.drop_last();
        lemma_product_commutation(a, b0, c);
        assert((a + b).drop_last() =~= a + b0);
        assert((a + b).last() == b.last());
    }
}

} // verus!
