use crate::bits::{count_bits, count_ones, has_bit, lemma_bit_ops, lemma_single_bit, popcount};
use crate::phase::Phase;
use crate::vec_set::{first_occurrences, VecSet};
use vstd::prelude::*;

verus! {

broadcast use vstd::string::group_string_axioms;

/// General Pauli operators: multiplication, weight and commutation.
pub trait PauliOperator: Sized {
    /// The type of the positions the operator acts on.
    type Item;

    /// The product of this operator with `other`.
    fn multiply(&self, other: &Self) -> Self;

    /// The number of positions where the operator acts as X, Y or Z.
    fn weight(&self) -> usize;

    /// Whether the two operators commute (`false` when they anti-commute).
    fn commutes_with(&self, other: &Self) -> bool;
}

/// The symplectic form of two Pauli operators given by their X and Z bitmaps: bit `i` is set
/// where the two single-qubit Paulis anti-commute.
pub open spec fn anticommuting_bits(ax: u64, az: u64, bx: u64, bz: u64) -> u64 {
    (ax & bz) ^ (az & bx)
}

/// A Pauli operator on up to 64 qubits, held as two bitmaps.
///
/// Bit `i` of `x_bits` says that qubit `i` carries an X part, bit `i` of `z_bits` that it
/// carries a Z part; a qubit with both carries a Y.
#[derive(Clone, Debug)]
pub struct BitSetPauli {
    phase: Phase,
    x_bits: u64,
    z_bits: u64,
}

/// Whether some position is listed in both `a` and `b`.
pub open spec fn shares(a: Seq<u8>, b: Seq<u8>) -> bool {
    exists|i: u8| a.contains(i) && b.contains(i)
}

/// `m` has exactly the bits at the positions listed in `s`.
pub open spec fn bits_of_positions(m: u64, s: Seq<u8>) -> bool {
    forall|i: u64| i < 64 ==> #[trigger] has_bit(m, i) == s.contains(i as u8)
}

impl BitSetPauli {
    /// The phase of the operator.
    pub closed spec fn phase_spec(&self) -> Phase {
        self.phase
    }

    /// The X bitmap.
    pub closed spec fn x_spec(&self) -> u64 {
        self.x_bits
    }

    /// The Z bitmap.
    pub closed spec fn z_spec(&self) -> u64 {
        self.z_bits
    }

    /// The identity operator with phase `+1`.
    pub fn new() -> (p: Self)
        ensures
            p.phase_spec() == Phase::plus(),
            p.x_spec() == 0,
            p.z_spec() == 0,
    {
        BitSetPauli { phase: Phase::plus(), x_bits: 0, z_bits: 0 }
    }

    /// The phase of the operator.
    pub fn phase(&self) -> (p: Phase)
        ensures
            p == self.phase_spec(),
    {
        self.phase
    }

    /// The X bitmap.
    pub fn x_bits(&self) -> (b: u64)
        ensures
            b == self.x_spec(),
    {
        self.x_bits
    }

    /// The Z bitmap.
    pub fn z_bits(&self) -> (b: u64)
        ensures
            b == self.z_spec(),
    {
        self.z_bits
    }

    /// Builds an operator from a phase and the qubits that carry X, Y and Z.
    ///
    /// The positions must be below 64 and no qubit may be listed twice among `x`, `y` and
    /// `z`. Fails with "position exceeds 64 qubits" when a position is 64 or more; else
    /// with "x and z share common elements" when a qubit is in both `x` and `z`; else with
    /// "y shares elements with x or z" when a qubit of `y` is also in `x` or `z`. Y
    /// positions are added to both bitmaps.
    pub fn with_operators(phase: Phase, x: &[u8], y: &[u8], z: &[u8]) -> (r: Result<Self, String>)
        ensures
            r matches Err(e) ==> (e@ == "position exceeds 64 qubits"@ || e@
                == "x and z share common elements"@ || e@ == "y shares elements with x or z"@),
            (r matches Err(e) && e@ == "position exceeds 64 qubits"@) <==> (exists|k: int|
                0 <= k < (x@ + y@ + z@).len() && #[trigger] (x@ + y@ + z@)[k] >= 64),
            (r matches Err(e) && e@ == "x and z share common elements"@) <==> ((forall|k: int|
                0 <= k < (x@ + y@ + z@).len() ==> #[trigger] (x@ + y@ + z@)[k] < 64) && shares(
                x@,
                z@,
            )),
            r matches Ok(p) ==> {
                &&& p.phase_spec() == phase
                &&& bits_of_positions(p.x_spec(), x@ + y@)
                &&& bits_of_positions(p.z_spec(), z@ + y@)
            },
            r is Ok <==> ((forall|k: int|
                0 <= k < (x@ + y@ + z@).len() ==> #[trigger] (x@ + y@ + z@)[k] < 64) && !shares(
                x@,
                z@,
            ) && !shares(y@, x@) && !shares(y@, z@)),
    {
        proof {
            reveal_strlit("position exceeds 64 qubits");
            reveal_strlit("x and z share common elements");
            reveal_strlit("y shares elements with x or z");
            assert("x and z share common elements"@ != "position exceeds 64 qubits"@) by {
                assert("x and z share common elements"@.len() != "position exceeds 64 qubits"@.len());
            }
            assert("y shares elements with x or z"@ != "position exceeds 64 qubits"@) by {
                assert("y shares elements with x or z"@[0] != "position exceeds 64 qubits"@[0]);
            }
            assert("y shares elements with x or z"@ != "x and z share common elements"@) by {
                assert("y shares elements with x or z"@[0] != "x and z share common elements"@[0]);
            }
        }
        let ghost all = x@ + y@ + z@;
        if !all_below_64(x) || !all_below_64(y) || !all_below_64(z) {
            proof {
                lemma_concat3_bounds(x@, y@, z@);
            }
            return Err("position exceeds 64 qubits".to_string());
        }
        proof {
            lemma_concat3_bounds(x@, y@, z@);
        }
        let mut x_bits = mask_of(x);
        let mut z_bits = mask_of(z);
        if x_bits & z_bits != 0 {
            proof {
                assert(shares(x@, z@)) by {
                    lemma_some_bit(x_bits & z_bits);
                    let j = choose|j: u64| j < 64 && #[trigger] has_bit(x_bits & z_bits, j);
                    lemma_bit_ops(x_bits, z_bits, j);
                    assert(x@.contains(j as u8) && z@.contains(j as u8));
                }
            }
            let e = "x and z share common elements".to_string();
            return Err(e);
        }
        proof {
            assert(!shares(x@, z@)) by {
                if shares(x@, z@) {
                    let i = choose|i: u8| x@.contains(i) && z@.contains(i);
                    let k = choose|k: int| 0 <= k < x@.len() && x@[k] == i;
                    assert(i < 64);
                    assert(has_bit(x_bits, i as u64));
                    assert(has_bit(z_bits, i as u64));
                    lemma_bit_ops(x_bits, z_bits, i as u64);
                    lemma_zero_has_no_bits(i as u64);
                }
            }
        }
        let y_bits = mask_of(y);
        if (x_bits | z_bits) & y_bits != 0 {
            proof {
                assert(shares(y@, x@) || shares(y@, z@)) by {
                    lemma_some_bit((x_bits | z_bits) & y_bits);
                    let j = choose|j: u64| j < 64 && #[trigger] has_bit((x_bits | z_bits) & y_bits, j);
                    lemma_bit_ops(x_bits | z_bits, y_bits, j);
                    lemma_bit_ops(x_bits, z_bits, j);
                    assert(y@.contains(j as u8));
                    if has_bit(x_bits, j) {
                        assert(x@.contains(j as u8));
                    } else {
                        assert(z@.contains(j as u8));
                    }
                }
            }
            let e = "y shares elements with x or z".to_string();
            return Err(e);
        }
        proof {
            assert(!shares(y@, x@) && !shares(y@, z@)) by {
                if shares(y@, x@) || shares(y@, z@) {
                    let i = choose|i: u8| y@.contains(i) && (x@.contains(i) || z@.contains(i));
                    let k = choose|k: int| 0 <= k < y@.len() && y@[k] == i;
                    assert(i < 64);
                    assert(has_bit(y_bits, i as u64));
                    lemma_bit_ops(x_bits, z_bits, i as u64);
                    lemma_bit_ops(x_bits | z_bits, y_bits, i as u64);
                    lemma_zero_has_no_bits(i as u64);
                }
            }
        }
        let ghost x0 = x_bits;
        let ghost z0 = z_bits;
        x_bits = x_bits | y_bits;
        z_bits = z_bits | y_bits;
        proof {
            assert forall|i: u64| i < 64 implies #[trigger] has_bit(x_bits, i) == (x@ + y@).contains(
                i as u8,
            ) by {
                lemma_bit_ops(x0, y_bits, i);
                lemma_contains_concat(x@, y@, i as u8);
            }
            assert forall|i: u64| i < 64 implies #[trigger] has_bit(z_bits, i) == (z@ + y@).contains(
                i as u8,
            ) by {
                lemma_bit_ops(z0, y_bits, i);
                lemma_contains_concat(z@, y@, i as u8);
            }
        }
        Ok(BitSetPauli { phase, x_bits, z_bits })
    }
}

/// Whether every position in `s` is below 64.
fn all_below_64(s: &[u8]) -> (b: bool)
    ensures
        b == (forall|k: int| 0 <= k < s@.len() ==> #[trigger] s@[k] < 64),
{
    let mut i: usize = 0;
    while i < s.len()
        invariant
            i <= s.len(),
            forall|k: int| 0 <= k < i ==> #[trigger] s@[k] < 64,
        decreases s.len() - i,
    {
        if s[i] >= 64 {
            return false;
        }
        i = i + 1;
    }
    true
}

/// The bitmap with a bit for every position listed in `s`.
fn mask_of(s: &[u8]) -> (m: u64)
    requires
        forall|k: int| 0 <= k < s@.len() ==> #[trigger] s@[k] < 64,
    ensures
        bits_of_positions(m, s@),
{
    let mut bits: u64 = 0;
    let mut i: usize = 0;
    proof {
        assert forall|j: u64| j < 64 implies #[trigger] has_bit(bits, j) == s@.subrange(
            0,
            0,
        ).contains(j as u8) by {
            lemma_zero_has_no_bits(j);
        }
    }
    while i < s.len()
        invariant
            i <= s.len(),
            forall|k: int| 0 <= k < s@.len() ==> #[trigger] s@[k] < 64,
            bits_of_positions(bits, s@.subrange(0, i as int)),
        decreases s.len() - i,
    {
        let pos = s[i];
        let ghost before = bits;
        bits = bits | (1u64 << pos);
        proof {
            assert forall|j: u64| j < 64 implies #[trigger] has_bit(bits, j) == s@.subrange(
                0,
                i + 1,
            ).contains(j as u8) by {
                lemma_bit_ops(before, 1u64 << pos, j);
                lemma_single_bit(pos as u64, j);
                lemma_prefix_step_u8(s@, i as int, j as u8);
                assert(has_bit(before, j) == s@.subrange(0, i as int).contains(j as u8));
            }
        }
        i = i + 1;
    }
    proof {
        assert(s@.subrange(0, s@.len() as int) =~= s@);
    }
    bits
}

proof fn lemma_prefix_step_u8(s: Seq<u8>, i: int, x: u8)
    requires
        0 <= i < s.len(),
    ensures
        s.subrange(0, i + 1).contains(x) <==> (s.subrange(0, i).contains(x) || x == s[i]),
{
    let long = s.subrange(0, i + 1);
    let short = s.subrange(0, i);
    if long.contains(x) {
        let k = choose|k: int| 0 <= k < long.len() && long[k] == x;
        if k < i {
            assert(short[k] == x);
        }
    }
    if short.contains(x) {
        let k = choose|k: int| 0 <= k < short.len() && short[k] == x;
        assert(long[k] == x);
    }
    assert(long[i] == s[i]);
}

proof fn lemma_contains_concat(a: Seq<u8>, b: Seq<u8>, x: u8)
    ensures
        (a + b).contains(x) <==> (a.contains(x) || b.contains(x)),
{
    if (a + b).contains(x) {
        let k = choose|k: int| 0 <= k < (a + b).len() && (a + b)[k] == x;
        if k < a.len() {
            assert(a[k] == x);
        } else {
            assert(b[k - a.len()] == x);
        }
    }
    if a.contains(x) {
        let k = choose|k: int| 0 <= k < a.len() && a[k] == x;
        assert((a + b)[k] == x);
    }
    if b.contains(x) {
        let k = choose|k: int| 0 <= k < b.len() && b[k] == x;
        assert((a + b)[k + a.len()] == x);
    }
}

proof fn lemma_concat3_bounds(x: Seq<u8>, y: Seq<u8>, z: Seq<u8>)
    ensures
        (forall|k: int| 0 <= k < (x + y + z).len() ==> #[trigger] (x + y + z)[k] < 64) <==> ((
        forall|k: int| 0 <= k < x.len() ==> #[trigger] x[k] < 64) && (forall|k: int|
            0 <= k < y.len() ==> #[trigger] y[k] < 64) && (forall|k: int|
            0 <= k < z.len() ==> #[trigger] z[k] < 64)),
{
    let all = x + y + z;
    if forall|k: int| 0 <= k < all.len() ==> #[trigger] all[k] < 64 {
        assert forall|k: int| 0 <= k < x.len() implies #[trigger] x[k] < 64 by {
            assert(all[k] == x[k]);
        }
        assert forall|k: int| 0 <= k < y.len() implies #[trigger] y[k] < 64 by {
            assert(all[k + x.len()] == y[k]);
        }
        assert forall|k: int| 0 <= k < z.len() implies #[trigger] z[k] < 64 by {
            assert(all[k + x.len() + y.len()] == z[k]);
        }
    }
}

proof fn lemma_zero_has_no_bits(i: u64)
    requires
        i < 64,
    ensures
        !has_bit(0u64, i),
{
    lemma_single_bit(0, i);
}

proof fn lemma_some_bit(m: u64)
    requires
        m != 0,
    ensures
        exists|j: u64| j < 64 && #[trigger] has_bit(m, j),
{
    if forall|j: u64| j < 64 ==> !#[trigger] has_bit(m, j) {
        assert(!has_bit(m, 0u64));
        assert(!has_bit(m, 1u64));
        assert(!has_bit(m, 2u64));
        assert(!has_bit(m, 3u64));
        assert(!has_bit(m, 4u64));
        assert(!has_bit(m, 5u64));
        assert(!has_bit(m, 6u64));
        assert(!has_bit(m, 7u64));
        assert(!has_bit(m, 8u64));
        assert(!has_bit(m, 9u64));
        assert(!has_bit(m, 10u64));
        assert(!has_bit(m, 11u64));
        assert(!has_bit(m, 12u64));
        assert(!has_bit(m, 13u64));
        assert(!has_bit(m, 14u64));
        assert(!has_bit(m, 15u64));
        assert(!has_bit(m, 16u64));
        assert(!has_bit(m, 17u64));
        assert(!has_bit(m, 18u64));
        assert(!has_bit(m, 19u64));
        assert(!has_bit(m, 20u64));
        assert(!has_bit(m, 21u64));
        assert(!has_bit(m, 22u64));
        assert(!has_bit(m, 23u64));
        assert(!has_bit(m, 24u64));
        assert(!has_bit(m, 25u64));
        assert(!has_bit(m, 26u64));
        assert(!has_bit(m, 27u64));
        assert(!has_bit(m, 28u64));
        assert(!has_bit(m, 29u64));
        assert(!has_bit(m, 30u64));
        assert(!has_bit(m, 31u64));
        assert(!has_bit(m, 32u64));
        assert(!has_bit(m, 33u64));
        assert(!has_bit(m, 34u64));
        assert(!has_bit(m, 35u64));
        assert(!has_bit(m, 36u64));
        assert(!has_bit(m, 37u64));
        assert(!has_bit(m, 38u64));
        assert(!has_bit(m, 39u64));
        assert(!has_bit(m, 40u64));
        assert(!has_bit(m, 41u64));
        assert(!has_bit(m, 42u64));
        assert(!has_bit(m, 43u64));
        assert(!has_bit(m, 44u64));
        assert(!has_bit(m, 45u64));
        assert(!has_bit(m, 46u64));
        assert(!has_bit(m, 47u64));
        assert(!has_bit(m, 48u64));
        assert(!has_bit(m, 49u64));
        assert(!has_bit(m, 50u64));
        assert(!has_bit(m, 51u64));
        assert(!has_bit(m, 52u64));
        assert(!has_bit(m, 53u64));
        assert(!has_bit(m, 54u64));
        assert(!has_bit(m, 55u64));
        assert(!has_bit(m, 56u64));
        assert(!has_bit(m, 57u64));
        assert(!has_bit(m, 58u64));
        assert(!has_bit(m, 59u64));
        assert(!has_bit(m, 60u64));
        assert(!has_bit(m, 61u64));
        assert(!has_bit(m, 62u64));
        assert(!has_bit(m, 63u64));
        assert(m == 0) by (bit_vector)
            requires
            (m >> 0u64) & 1u64 != 1u64,
            (m >> 1u64) & 1u64 != 1u64,
            (m >> 2u64) & 1u64 != 1u64,
            (m >> 3u64) & 1u64 != 1u64,
            (m >> 4u64) & 1u64 != 1u64,
            (m >> 5u64) & 1u64 != 1u64,
            (m >> 6u64) & 1u64 != 1u64,
            (m >> 7u64) & 1u64 != 1u64,
            (m >> 8u64) & 1u64 != 1u64,
            (m >> 9u64) & 1u64 != 1u64,
            (m >> 10u64) & 1u64 != 1u64,
            (m >> 11u64) & 1u64 != 1u64,
            (m >> 12u64) & 1u64 != 1u64,
            (m >> 13u64) & 1u64 != 1u64,
            (m >> 14u64) & 1u64 != 1u64,
            (m >> 15u64) & 1u64 != 1u64,
            (m >> 16u64) & 1u64 != 1u64,
            (m >> 17u64) & 1u64 != 1u64,
            (m >> 18u64) & 1u64 != 1u64,
            (m >> 19u64) & 1u64 != 1u64,
            (m >> 20u64) & 1u64 != 1u64,
            (m >> 21u64) & 1u64 != 1u64,
            (m >> 22u64) & 1u64 != 1u64,
            (m >> 23u64) & 1u64 != 1u64,
            (m >> 24u64) & 1u64 != 1u64,
            (m >> 25u64) & 1u64 != 1u64,
            (m >> 26u64) & 1u64 != 1u64,
            (m >> 27u64) & 1u64 != 1u64,
            (m >> 28u64) & 1u64 != 1u64,
            (m >> 29u64) & 1u64 != 1u64,
            (m >> 30u64) & 1u64 != 1u64,
            (m >> 31u64) & 1u64 != 1u64,
            (m >> 32u64) & 1u64 != 1u64,
            (m >> 33u64) & 1u64 != 1u64,
            (m >> 34u64) & 1u64 != 1u64,
            (m >> 35u64) & 1u64 != 1u64,
            (m >> 36u64) & 1u64 != 1u64,
            (m >> 37u64) & 1u64 != 1u64,
            (m >> 38u64) & 1u64 != 1u64,
            (m >> 39u64) & 1u64 != 1u64,
            (m >> 40u64) & 1u64 != 1u64,
            (m >> 41u64) & 1u64 != 1u64,
            (m >> 42u64) & 1u64 != 1u64,
            (m >> 43u64) & 1u64 != 1u64,
            (m >> 44u64) & 1u64 != 1u64,
            (m >> 45u64) & 1u64 != 1u64,
            (m >> 46u64) & 1u64 != 1u64,
            (m >> 47u64) & 1u64 != 1u64,
            (m >> 48u64) & 1u64 != 1u64,
            (m >> 49u64) & 1u64 != 1u64,
            (m >> 50u64) & 1u64 != 1u64,
            (m >> 51u64) & 1u64 != 1u64,
            (m >> 52u64) & 1u64 != 1u64,
            (m >> 53u64) & 1u64 != 1u64,
            (m >> 54u64) & 1u64 != 1u64,
            (m >> 55u64) & 1u64 != 1u64,
            (m >> 56u64) & 1u64 != 1u64,
            (m >> 57u64) & 1u64 != 1u64,
            (m >> 58u64) & 1u64 != 1u64,
            (m >> 59u64) & 1u64 != 1u64,
            (m >> 60u64) & 1u64 != 1u64,
            (m >> 61u64) & 1u64 != 1u64,
            (m >> 62u64) & 1u64 != 1u64,
            (m >> 63u64) & 1u64 != 1u64,
        ;
    }
}

impl Default for BitSetPauli {
    /// The identity operator with phase `+1`.
    fn default() -> (p: Self)
        ensures
            p.phase_spec() == Phase::plus(),
            p.x_spec() == 0,
            p.z_spec() == 0,
    {
        BitSetPauli { phase: Phase::plus(), x_bits: 0, z_bits: 0 }
    }
}

impl PauliOperator for BitSetPauli {
    type Item = u8;

    /// Multiplies two operators: the bitmaps are added modulo 2 and the product of the
    /// phases gets a factor `-1` when the operators anti-commute on an odd number of qubits.
    fn multiply(&self, other: &Self) -> (r: Self)
        ensures
            r.x_spec() == self.x_spec() ^ other.x_spec(),
            r.z_spec() == self.z_spec() ^ other.z_spec(),
            r.phase_spec() == (if popcount(
                anticommuting_bits(self.x_spec(), self.z_spec(), other.x_spec(), other.z_spec()),
            ) % 2 == 1 {
                self.phase_spec().mul_spec(other.phase_spec()).mul_spec(Phase::minus())
            } else {
                self.phase_spec().mul_spec(other.phase_spec())
            }),
    {
        let mut phase = self.phase.multiply(&other.phase);
        let commute_bits = (self.x_bits & other.z_bits) ^ (self.z_bits & other.x_bits);
        if count_ones(commute_bits) % 2 == 1 {
            phase = phase.multiply(&Phase::minus());
        }
        BitSetPauli { phase, x_bits: self.x_bits ^ other.x_bits, z_bits: self.z_bits ^ other.z_bits }
    }

    /// The number of qubits that carry an X or a Z part.
    fn weight(&self) -> (w: usize)
        ensures
            w == popcount(self.x_spec() | self.z_spec()),
    {
        count_ones(self.x_bits | self.z_bits) as usize
    }

    /// The operators commute when they anti-commute on an even number of qubits.
    fn commutes_with(&self, other: &Self) -> (b: bool)
        ensures
            b == (popcount(
                anticommuting_bits(self.x_spec(), self.z_spec(), other.x_spec(), other.z_spec()),
            ) % 2 == 0),
    {
        let overlap_count = count_ones(
            (self.x_bits & other.z_bits) ^ (self.z_bits & other.x_bits),
        );
        overlap_count % 2 == 0
    }
}

/// Commutation of bitmap Pauli operators is symmetric.
pub proof fn lemma_bitset_commutation_symmetric(ax: u64, az: u64, bx: u64, bz: u64)
    ensures
        anticommuting_bits(ax, az, bx, bz) == anticommuting_bits(bx, bz, ax, az),
{
    assert((ax & bz) ^ (az & bx) == (bx & az) ^ (bz & ax)) by (bit_vector);
}

/// Every bitmap Pauli operator commutes with itself, so squaring it only squares the phase.
pub proof fn lemma_bitset_self_commutes(ax: u64, az: u64)
    ensures
        anticommuting_bits(ax, az, ax, az) == 0,
        popcount(anticommuting_bits(ax, az, ax, az)) == 0,
        ax ^ ax == 0,
        az ^ az == 0,
{
    assert((ax & az) ^ (az & ax) == 0) by (bit_vector);
    assert(ax ^ ax == 0) by (bit_vector);
    assert(az ^ az == 0) by (bit_vector);
    lemma_count_bits_zero(64);
}

proof fn lemma_count_bits_zero(n: nat)
    requires
        n <= 64,
    ensures
        count_bits(0u64, n) == 0,
    decreases n,
{
    if n > 0 {
        lemma_count_bits_zero((n - 1) as nat);
        lemma_zero_has_no_bits((n - 1) as u64);
    }
}

/// Multiplying bitmap Pauli operators is commutative on the operator part.
pub proof fn lemma_bitset_product_operator_commutes(ax: u64, az: u64, bx: u64, bz: u64)
    ensures
        ax ^ bx == bx ^ ax,
        az ^ bz == bz ^ az,
{
    assert(ax ^ bx == bx ^ ax) by (bit_vector);
    assert(az ^ bz == bz ^ az) by (bit_vector);
}

/// A Pauli operator over any number of qubits, held as the set of qubits with an X part and
/// the set with a Z part; a qubit in both carries a Y.
#[derive(Debug)]
pub struct SetPauli {
    phase: Phase,
    x_positions: VecSet,
    z_positions: VecSet,
}

/// The usual instantiation of `SetPauli`: positions in vector-backed sets.
pub type StdPauli = SetPauli;

impl SetPauli {
    #[verifier::type_invariant]
    closed spec fn inv(self) -> bool {
        self.x_positions.wf() && self.z_positions.wf()
    }

    /// The phase of the operator.
    pub closed spec fn phase_spec(&self) -> Phase {
        self.phase
    }

    /// The qubits with an X part.
    pub closed spec fn xs(&self) -> Set<usize> {
        self.x_positions@
    }

    /// The qubits with a Z part.
    pub closed spec fn zs(&self) -> Set<usize> {
        self.z_positions@
    }

    /// The qubits with an X part, in the order in which they were added.
    pub closed spec fn x_order(&self) -> Seq<usize> {
        self.x_positions.items()
    }

    /// The qubits with a Z part, in the order in which they were added.
    pub closed spec fn z_order(&self) -> Seq<usize> {
        self.z_positions.items()
    }

    /// The identity operator with phase `+1`.
    pub fn new() -> (p: Self)
        ensures
            p.phase_spec() == Phase::plus(),
            p.xs() == Set::<usize>::empty(),
            p.zs() == Set::<usize>::empty(),
            p.x_order() == Seq::<usize>::empty(),
            p.z_order() == Seq::<usize>::empty(),
    {
        SetPauli { phase: Phase::plus(), x_positions: VecSet::new(), z_positions: VecSet::new() }
    }

    /// The phase of the operator.
    pub fn phase(&self) -> (p: Phase)
        ensures
            p == self.phase_spec(),
    {
        self.phase
    }

    /// The qubits with an X part, in the order in which they were added.
    pub fn x_positions(&self) -> (v: Vec<usize>)
        ensures
            v@ == self.x_order(),
            v@.no_duplicates(),
            forall|i: usize| v@.contains(i) <==> self.xs().contains(i),
    {
        proof {
            use_type_invariant(self);
            self.x_positions.lemma_view();
        }
        self.x_positions.to_vec()
    }

    /// The qubits with a Z part, in the order in which they were added.
    pub fn z_positions(&self) -> (v: Vec<usize>)
        ensures
            v@ == self.z_order(),
            v@.no_duplicates(),
            forall|i: usize| v@.contains(i) <==> self.zs().contains(i),
    {
        proof {
            use_type_invariant(self);
            self.z_positions.lemma_view();
        }
        self.z_positions.to_vec()
    }

    /// Builds an operator from a phase and the qubits that carry X, Y and Z.
    ///
    /// Fails with "x and z share common elements" when a qubit is listed in both `x` and
    /// `z`. Y positions are added to both sets.
    pub fn with_operators(phase: Phase, x: &[usize], y: &[usize], z: &[usize]) -> (r: Result<
        Self,
        String,
    >)
        ensures
            r is Err <==> (exists|i: usize| x@.contains(i) && z@.contains(i)),
            r matches Err(e) ==> e@ == "x and z share common elements"@,
            r matches Ok(p) ==> {
                &&& p.phase_spec() == phase
                &&& forall|i: usize| #[trigger] p.xs().contains(i) <==> (x@.contains(i) || y@.contains(i))
                &&& forall|i: usize| #[trigger] p.zs().contains(i) <==> (z@.contains(i) || y@.contains(i))
                &&& p.x_order() == first_occurrences(x@ + y@)
                &&& p.z_order() == first_occurrences(z@ + y@)
            },
    {
        let mut x_set = VecSet::from_slice(x);
        let mut z_set = VecSet::from_slice(z);
        if !x_set.intersection(&z_set).is_empty() {
            proof {
                let both = x_set@.intersect(z_set@);
                assert(both != Set::<usize>::empty());
                assert(exists|i: usize| both.contains(i)) by {
                    if !(exists|i: usize| both.contains(i)) {
                        assert(both =~= Set::<usize>::empty());
                    }
                }
            }
            return Err("x and z share common elements".to_string());
        }
        proof {
            if exists|i: usize| x@.contains(i) && z@.contains(i) {
                let i = choose|i: usize| x@.contains(i) && z@.contains(i);
                assert(x_set@.intersect(z_set@).contains(i));
            }
        }
        let mut k: usize = 0;
        proof {
            assert(x@ + y@.subrange(0, 0) =~= x@);
            assert(z@ + y@.subrange(0, 0) =~= z@);
        }
        while k < y.len()
            invariant
                k <= y.len(),
                x_set.wf(),
                z_set.wf(),
                forall|i: usize|
                    #[trigger] x_set@.contains(i) <==> (x@.contains(i) || y@.subrange(
                        0,
                        k as int,
                    ).contains(i)),
                forall|i: usize|
                    #[trigger] z_set@.contains(i) <==> (z@.contains(i) || y@.subrange(
                        0,
                        k as int,
                    ).contains(i)),
                x_set.items() == first_occurrences(x@ + y@.subrange(0, k as int)),
                z_set.items() == first_occurrences(z@ + y@.subrange(0, k as int)),
            decreases y.len() - k,
        {
            let elem = y[k];
            proof {
                assert((x@ + y@.subrange(0, k + 1)).drop_last() =~= x@ + y@.subrange(0, k as int));
                assert((z@ + y@.subrange(0, k + 1)).drop_last() =~= z@ + y@.subrange(0, k as int));
                assert((x@ + y@.subrange(0, k + 1)).last() == elem);
                assert((z@ + y@.subrange(0, k + 1)).last() == elem);
                x_set.lemma_view();
                z_set.lemma_view();
            }
            x_set.insert(elem);
            z_set.insert(elem);
            proof {
                crate::vec_set::lemma_prefix_step(y@, k as int);
            }
            k = k + 1;
        }
        proof {
            assert(y@.subrange(0, y@.len() as int) =~= y@);
        }
        Ok(SetPauli { phase, x_positions: x_set, z_positions: z_set })
    }
}

impl Default for SetPauli {
    /// The identity operator with phase `+1`.
    fn default() -> (p: Self)
        ensures
            p.phase_spec() == Phase::plus(),
            p.xs() == Set::<usize>::empty(),
            p.zs() == Set::<usize>::empty(),
            p.x_order() == Seq::<usize>::empty(),
            p.z_order() == Seq::<usize>::empty(),
    {
        SetPauli::new()
    }
}

impl PauliOperator for SetPauli {
    type Item = usize;

    /// Multiplies two operators: the position sets are combined by symmetric difference,
    /// and the product of the phases gets a factor `-1` when some qubit has an X part in this
    /// operator and a Z part in `other`.
    fn multiply(&self, other: &Self) -> (r: Self)
        ensures
            forall|i: usize| #[trigger] r.xs().contains(i) <==> (self.xs().contains(i) != other.xs().contains(i)),
            forall|i: usize| #[trigger] r.zs().contains(i) <==> (self.zs().contains(i) != other.zs().contains(i)),
            r.phase_spec() == (if self.xs().intersect(other.zs()) != Set::<usize>::empty() {
                self.phase_spec().mul_spec(other.phase_spec()).mul_spec(Phase::minus())
            } else {
                self.phase_spec().mul_spec(other.phase_spec())
            }),
    {
        proof {
            use_type_invariant(self);
            use_type_invariant(other);
        }
        let mut phase = self.phase.multiply(&other.phase);
        let x_and_z = self.x_positions.intersection(&other.z_positions);
        if !x_and_z.is_empty() {
            phase = phase.multiply(&Phase::minus());
        }
        SetPauli {
            phase,
            x_positions: self.x_positions.symmetric_difference(&other.x_positions),
            z_positions: self.z_positions.symmetric_difference(&other.z_positions),
        }
    }

    /// The number of qubits that carry an X or a Z part.
    fn weight(&self) -> (w: usize)
        ensures
            w == self.xs().union(self.zs()).len(),
    {
        proof {
            use_type_invariant(self);
        }
        self.x_positions.union(&self.z_positions).len()
    }

    /// The operators commute when the number of qubits where an X part meets a Z part is even.
    fn commutes_with(&self, other: &Self) -> (b: bool)
        ensures
            b == ((self.xs().intersect(other.zs()).len() + self.zs().intersect(other.xs()).len()) % 2
                == 0),
    {
        proof {
            use_type_invariant(self);
            use_type_invariant(other);
        }
        let x_and_z = self.x_positions.intersection(&other.z_positions);
        let z_and_x = self.z_positions.intersection(&other.x_positions);
        (x_and_z.len() % 2 + z_and_x.len() % 2) % 2 == 0
    }
}

/// A collection of Pauli operators.
pub struct PauliCollection<T: PauliOperator> {
    paulis: Vec<T>,
}

/// The number of qubits where an X part of `a` meets a Z part of `b`, plus those where a Z
/// part of `a` meets an X part of `b`: its parity says whether `a` and `b` commute.
pub open spec fn set_overlap_count(a: SetPauli, b: SetPauli) -> nat {
    a.xs().intersect(b.zs()).len() + a.zs().intersect(b.xs()).len()
}

/// Whether two set-based operators commute does not depend on their order.
pub proof fn lemma_setpauli_commutation_symmetric(a: SetPauli, b: SetPauli)
    ensures
        set_overlap_count(a, b) == set_overlap_count(b, a),
{
    assert(a.xs().intersect(b.zs()) =~= b.zs().intersect(a.xs()));
    assert(a.zs().intersect(b.xs()) =~= b.xs().intersect(a.zs()));
}

/// Every set-based operator commutes with itself.
pub proof fn lemma_setpauli_self_commutes(a: SetPauli)
    ensures
        set_overlap_count(a, a) % 2 == 0,
{
    assert(a.xs().intersect(a.zs()) =~= a.zs().intersect(a.xs()));
}

} // verus!
