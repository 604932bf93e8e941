use crate::angle::{full, ratio_fraction, Angle};
use crate::turn_word::TurnWord;
use vstd::arithmetic::div_mod::{
    lemma_add_mod_noop, lemma_fundamental_div_mod, lemma_fundamental_div_mod_converse,
    lemma_mod_add_multiples_vanish, lemma_mod_twice, lemma_small_mod,
};
use vstd::prelude::*;
use vstd::std_specs::convert::FromSpec;
use vstd::std_specs::ops::{AddSpec, MulSpec, SubSpec};

verus! {

/// Adding angles is commutative.
pub proof fn lemma_angle_add_commutative<T: TurnWord>(a: Angle<T>, b: Angle<T>)
    ensures
        a.add_spec(b) == b.add_spec(a),
{
}

/// Adding angles is associative.
pub proof fn lemma_angle_add_associative<T: TurnWord>(a: Angle<T>, b: Angle<T>, c: Angle<T>)
    ensures
        a.add_spec(b).add_spec(c) == a.add_spec(b.add_spec(c)),
{
    let m = full::<T>() as int;
    Angle::<T>::lemma_view(a);
    Angle::<T>::lemma_view(b);
    Angle::<T>::lemma_view(c);
    lemma_small_mod(a@, full::<T>());
    lemma_small_mod(c@, full::<T>());
    Angle::<T>::lemma_from_value(a@ + b@);
    Angle::<T>::lemma_from_value(b@ + c@);
    lemma_add_mod_noop((a@ + b@) as int, c@ as int, m);
    lemma_add_mod_noop(a@ as int, (b@ + c@) as int, m);
    lemma_mod_twice(c@ as int, m);
    lemma_mod_twice(a@ as int, m);
    Angle::<T>::lemma_from_value((a@ + b@) % full::<T>() + c@);
    Angle::<T>::lemma_from_value(a@ + (b@ + c@) % full::<T>());
    Angle::<T>::lemma_ext(a.add_spec(b).add_spec(c), a.add_spec(b.add_spec(c)));
}

/// The zero angle is the unit of addition.
pub proof fn lemma_angle_add_zero<T: TurnWord>(a: Angle<T>, z: Angle<T>)
    requires
        z@ == 0,
    ensures
        a.add_spec(z) == a,
{
    Angle::<T>::lemma_view(a);
}

/// Subtracting an angle undoes adding it.
pub proof fn lemma_angle_sub_undoes_add<T: TurnWord>(a: Angle<T>, b: Angle<T>)
    ensures
        a.add_spec(b).sub_spec(b) == a,
{
    let m = full::<T>() as int;
    Angle::<T>::lemma_view(a);
    Angle::<T>::lemma_view(b);
    let s = a.add_spec(b);
    Angle::<T>::lemma_from_value(a@ + b@);
    let x = (s@ + full::<T>() - b@) as nat;
    Angle::<T>::lemma_from_value(x);
    if a@ + b@ >= m {
        lemma_fundamental_div_mod_converse((a@ + b@) as int, m, 1, (a@ + b@ - m) as int);
        lemma_fundamental_div_mod_converse(x as int, m, 0, a@ as int);
    } else {
        lemma_fundamental_div_mod_converse((a@ + b@) as int, m, 0, (a@ + b@) as int);
        lemma_fundamental_div_mod_converse(x as int, m, 1, a@ as int);
    }
    Angle::<T>::lemma_ext(a.add_spec(b).sub_spec(b), a);
}

/// Multiplying by a whole number is adding the angle that many times, modulo full turns.
pub proof fn lemma_angle_mul_is_repeated_add<T: TurnWord>(a: Angle<T>, k: T, k1: T)
    requires
        k1.value() == k.value() + 1,
    ensures
        a.mul_spec(k1) == a.mul_spec(k).add_spec(a),
{
    let m = full::<T>() as int;
    Angle::<T>::lemma_view(a);
    Angle::<T>::lemma_from_value(a@ * k.value());
    Angle::<T>::lemma_from_value(a@ * k1.value());
    assert(a@ * k1.value() == a@ * k.value() + a@) by (nonlinear_arith)
        requires
            k1.value() == k.value() + 1,
    ;
    lemma_small_mod(a@, full::<T>());
    lemma_add_mod_noop((a@ * k.value()) as int, a@ as int, m);
    lemma_mod_twice(a@ as int, m);
    Angle::<T>::lemma_from_value((a@ * k.value()) % full::<T>() + a@);
    Angle::<T>::lemma_ext(a.mul_spec(k1), a.mul_spec(k).add_spec(a));
}

/// Four quarter turns make a full turn, which is the zero angle; two make a half turn.
pub proof fn lemma_quarter_turns<T: TurnWord>(q: Angle<T>, four: T)
    requires
        q@ == full::<T>() / 4,
        four.value() == 4,
    ensures
        q.mul_spec(four)@ == 0,
        q.add_spec(q)@ == full::<T>() / 2,
        q.add_spec(q).add_spec(q)@ == 3 * (full::<T>() / 4),
{
    let m = full::<T>() as int;
    Angle::<T>::lemma_view(q);
    lemma_fundamental_div_mod(m, 4);
    lemma_fundamental_div_mod(m, 2);
    Angle::<T>::lemma_from_value(q@ * 4);
    lemma_fundamental_div_mod_converse((q@ * 4) as int, m, 1, 0);
    Angle::<T>::lemma_from_value(q@ + q@);
    lemma_fundamental_div_mod_converse((q@ + q@) as int, m, 0, (q@ + q@) as int);
    Angle::<T>::lemma_from_value(q.add_spec(q)@ + q@);
    lemma_fundamental_div_mod_converse((3 * q@) as int, m, 0, (3 * q@) as int);
}

/// Widening a 32-bit angle to 64 bits and narrowing it back gives the same angle.
pub proof fn lemma_widen_narrow_u32(a: Angle<u32>)
    ensures
        <Angle<u32> as FromSpec<Angle<u64>>>::from_spec(
            <Angle<u64> as FromSpec<Angle<u32>>>::from_spec(a),
        ) == a,
{
    Angle::<u32>::lemma_view(a);
    let w = <Angle<u64> as FromSpec<Angle<u32>>>::from_spec(a);
    Angle::<u64>::lemma_from_value(a@ * 0x1_0000_0000);
    lemma_fundamental_div_mod_converse((a@ * 0x1_0000_0000) as int, 0x1_0000_0000_0000_0000, 0, (a@ * 0x1_0000_0000) as int);
    lemma_fundamental_div_mod_converse((a@ * 0x1_0000_0000) as int, 0x1_0000_0000, a@ as int, 0);
    Angle::<u32>::lemma_from_value(w@ / 0x1_0000_0000);
    Angle::<u32>::lemma_ext(<Angle<u32> as FromSpec<Angle<u64>>>::from_spec(w), a);
}

/// Widening a 64-bit angle to 128 bits and narrowing it back gives the same angle.
pub proof fn lemma_widen_narrow_u64(a: Angle<u64>)
    ensures
        <Angle<u64> as FromSpec<Angle<u128>>>::from_spec(
            <Angle<u128> as FromSpec<Angle<u64>>>::from_spec(a),
        ) == a,
{
    Angle::<u64>::lemma_view(a);
    let w = <Angle<u128> as FromSpec<Angle<u64>>>::from_spec(a);
    Angle::<u128>::lemma_from_value(a@ * 0x1_0000_0000_0000_0000);
    lemma_fundamental_div_mod_converse((a@ * 0x1_0000_0000_0000_0000) as int, u128::MAX as int + 1, 0, (a@ * 0x1_0000_0000_0000_0000) as int);
    lemma_fundamental_div_mod_converse((a@ * 0x1_0000_0000_0000_0000) as int, 0x1_0000_0000_0000_0000, a@ as int, 0);
    Angle::<u64>::lemma_from_value(w@ / 0x1_0000_0000_0000_0000);
    Angle::<u64>::lemma_ext(<Angle<u64> as FromSpec<Angle<u128>>>::from_spec(w), a);
}

/// Narrowing a 64-bit angle to 32 bits and widening it back keeps the high 32 bits and
/// clears the low ones.
pub proof fn lemma_narrow_widen_u64(a: Angle<u64>)
    ensures
        <Angle<u64> as FromSpec<Angle<u32>>>::from_spec(
            <Angle<u32> as FromSpec<Angle<u64>>>::from_spec(a),
        )@ == a@ - a@ % 0x1_0000_0000,
{
    Angle::<u64>::lemma_view(a);
    let n = <Angle<u32> as FromSpec<Angle<u64>>>::from_spec(a);
    Angle::<u32>::lemma_from_value(a@ / 0x1_0000_0000);
    lemma_fundamental_div_mod(a@ as int, 0x1_0000_0000);
    lemma_fundamental_div_mod_converse((a@ / 0x1_0000_0000) as int, 0x1_0000_0000, 0, (a@ / 0x1_0000_0000) as int);
    Angle::<u64>::lemma_from_value(n@ * 0x1_0000_0000);
    lemma_fundamental_div_mod_converse((n@ * 0x1_0000_0000) as int, 0x1_0000_0000_0000_0000, 0, (n@ * 0x1_0000_0000) as int);
}

/// Whole turns do not change an angle given as a ratio of a turn: `(n + k·d)/d` turns is
/// the angle `n/d` turns.
pub proof fn lemma_ratio_whole_turns(n: int, d: int, k: int, m: nat)
    requires
        d != 0,
    ensures
        ratio_fraction(n + k * d, d, m) == ratio_fraction(n, d, m),
    decreases if k >= 0 {
        k
    } else {
        -k
    },
{
    let (nn, dd) = if d < 0 {
        (-n, -d)
    } else {
        (n, d)
    };
    if k > 0 {
        lemma_ratio_whole_turns(n, d, k - 1, m);
        assert(n + k * d == (n + (k - 1) * d) + d) by (nonlinear_arith);
        let p = if d < 0 {
            -(n + (k - 1) * d)
        } else {
            n + (k - 1) * d
        };
        lemma_mod_add_multiples_vanish(p, dd);
        assert((if d < 0 {
            -(n + k * d)
        } else {
            n + k * d
        }) == dd + p);
    } else if k < 0 {
        lemma_ratio_whole_turns(n, d, k + 1, m);
        assert(n + (k + 1) * d == (n + k * d) + d) by (nonlinear_arith);
        let p = if d < 0 {
            -(n + k * d)
        } else {
            n + k * d
        };
        lemma_mod_add_multiples_vanish(p, dd);
        assert((if d < 0 {
            -(n + (k + 1) * d)
        } else {
            n + (k + 1) * d
        }) == dd + p);
    } else {
        assert(k * d == 0) by (nonlinear_arith)
            requires
                k == 0,
        ;
    }
}

/// The fraction of an angle given as a ratio of a turn is always below a full turn: the
/// angle lies in `[0, 2π)`.
pub proof fn lemma_ratio_fraction_in_range(n: int, d: int, m: nat)
    requires
        d != 0,
        m > 0,
    ensures
        ratio_fraction(n, d, m) < m,
{
    let (nn, dd) = if d < 0 {
        (-n, -d)
    } else {
        (n, d)
    };
    let r = nn % dd;
    assert(0 <= r < dd);
    assert(r * m < dd * m) by (nonlinear_arith)
        requires
            0 <= r < dd,
            m > 0,
    ;
    assert((r * m) / dd < m) by (nonlinear_arith)
        requires
            r * m < dd * m,
            dd > 0,
            r >= 0,
    ;
}

} // verus!
