//! The mathematical model of the prime-order group and its scalar field.
//!
//! Scalars are modelled by their value in `[0, group_order())`; group elements
//! are modelled by their discrete logarithm with respect to the fixed group
//! generator, which is well defined because the group is cyclic of prime
//! order.  All arithmetic facts about the engine are stated and proved over
//! these residues.

use vstd::prelude::*;
use vstd::calc;
use vstd::arithmetic::div_mod::{
    lemma_add_mod_noop, lemma_mod_bound, lemma_mul_mod_noop_left, lemma_mul_mod_noop_right,
    lemma_small_mod, lemma_sub_mod_noop, lemma_sub_mod_noop_right,
};
use vstd::arithmetic::mul::{lemma_mul_is_associative, lemma_mul_is_distributive_add};

verus! {

/// The order of the BLS12-381 scalar field and of the G1 group.
pub open spec fn group_order() -> nat {
    0x73eda753299d7d483339d80809a1d80553bda402fffe5bfeffffffff00000001nat
}

/// Addition of residues modulo the group order.
pub open spec fn add_mod(a: nat, b: nat) -> nat {
    (a + b) % group_order()
}

/// Multiplication of residues modulo the group order.
pub open spec fn mul_mod(a: nat, b: nat) -> nat {
    (a * b) % group_order()
}

/// Subtraction of residues modulo the group order.  The remainder of an
/// `int` is Euclidean, so the result is a residue.
pub open spec fn sub_mod(a: nat, b: nat) -> nat {
    ((a - b) % (group_order() as int)) as nat
}

/// The value of a little-endian byte string as a natural number.
pub open spec fn le_bytes_val(b: Seq<u8>) -> nat
    decreases b.len(),
{
    if b.len() == 0 {
        0
    } else {
        (b[0] as nat) + 256 * le_bytes_val(b.subrange(1, b.len() as int))
    }
}

/// The number of values representable by `n` bytes.
pub open spec fn bytes_bound(n: nat) -> nat
    decreases n,
{
    if n == 0 {
        1
    } else {
        256 * bytes_bound((n - 1) as nat)
    }
}

/// The `n`-byte little-endian encoding of a value.
pub open spec fn le_bytes_of(v: nat, n: nat) -> Seq<u8>
    decreases n,
{
    if n == 0 {
        Seq::empty()
    } else {
        seq![(v % 256) as u8] + le_bytes_of(v / 256, (n - 1) as nat)
    }
}

/// A little-endian encoding has exactly the requested length.
pub proof fn lemma_le_bytes_of_len(v: nat, n: nat)
    ensures
        le_bytes_of(v, n).len() == n,
    decreases n,
{
    if n > 0 {
        lemma_le_bytes_of_len(v / 256, (n - 1) as nat);
    }
}

/// Reading back a little-endian encoding recovers the value.
pub proof fn lemma_le_bytes_of_val(v: nat, n: nat)
    requires
        v < bytes_bound(n),
    ensures
        le_bytes_val(le_bytes_of(v, n)) == v,
    decreases n,
{
    if n == 0 {
    } else {
        let rest = le_bytes_of(v / 256, (n - 1) as nat);
        let whole = seq![(v % 256) as u8] + rest;
        assert(whole.subrange(1, whole.len() as int) =~= rest);
        assert(v / 256 < bytes_bound((n - 1) as nat)) by {
            vstd::arithmetic::div_mod::lemma_multiply_divide_lt(
                v as int,
                256,
                bytes_bound((n - 1) as nat) as int,
            );
        }
        lemma_le_bytes_of_val(v / 256, (n - 1) as nat);
        vstd::arithmetic::div_mod::lemma_fundamental_div_mod(v as int, 256);
    }
}

/// The group order fits in thirty-two bytes.
pub proof fn lemma_group_order_fits()
    ensures
        group_order() < bytes_bound(32),
{
    reveal_with_fuel(bytes_bound, 33);
    assert(bytes_bound(32)
        == 0x10000000000000000000000000000000000000000000000000000000000000000nat);
}

/// Every residue under every index of `s` is reduced.
pub open spec fn all_reduced(s: Seq<nat>) -> bool {
    forall|i: int| 0 <= i < s.len() ==> s[i] < group_order()
}

/// A linear combination over residues: each term multiplies the scalar under
/// its first index with the point under its second index.
pub open spec fn lc_val(rhs: Seq<(int, int)>, svals: Seq<nat>, pvals: Seq<nat>) -> nat
    decreases rhs.len(),
{
    if rhs.len() == 0 {
        0
    } else {
        add_mod(
            lc_val(rhs.drop_last(), svals, pvals),
            mul_mod(svals[rhs.last().0], pvals[rhs.last().1]),
        )
    }
}

/// All term indices of `rhs` lie below the table sizes.
pub open spec fn rhs_wf(rhs: Seq<(int, int)>, n_scalars: nat, n_points: nat) -> bool {
    forall|i: int|
        0 <= i < rhs.len() ==> 0 <= (#[trigger] rhs[i]).0 < n_scalars && 0 <= rhs[i].1 < n_points
}

/// The responses of the Schnorr protocol: blinding plus challenge times
/// witness, per secret variable.
pub open spec fn response_vals(blindings: Seq<nat>, witness: Seq<nat>, c: nat) -> Seq<nat> {
    Seq::new(blindings.len(), |i: int| add_mod(blindings[i], mul_mod(c, witness[i])))
}

/// A reduced value is below the group order.
pub proof fn lemma_mod_reduce_bound(a: nat)
    ensures
        a % group_order() < group_order(),
{
    lemma_mod_bound(a as int, group_order() as int);
}

/// A linear combination is a reduced residue.
pub proof fn lemma_lc_val_bound(rhs: Seq<(int, int)>, svals: Seq<nat>, pvals: Seq<nat>)
    ensures
        lc_val(rhs, svals, pvals) < group_order(),
{
    if rhs.len() == 0 {
    } else {
        lemma_mod_reduce_bound(
            lc_val(rhs.drop_last(), svals, pvals) + mul_mod(
                svals[rhs.last().0],
                pvals[rhs.last().1],
            ),
        );
    }
}

/// Reducing the summands does not change a modular sum.
pub proof fn lemma_add_mod_reduce(a: nat, b: nat)
    ensures
        add_mod(a % group_order(), b % group_order()) == add_mod(a, b),
{
    lemma_add_mod_noop(a as int, b as int, group_order() as int);
}

/// Two modular sums of four residues agree however the terms are grouped.
pub proof fn lemma_add_mod_rearrange(w: nat, x: nat, y: nat, z: nat)
    ensures
        add_mod(add_mod(w, x), add_mod(y, z)) == add_mod(add_mod(w, y), add_mod(x, z)),
{
    lemma_add_mod_noop((w + x) as int, (y + z) as int, group_order() as int);
    lemma_add_mod_noop((w + y) as int, (x + z) as int, group_order() as int);
    assert(w + x + (y + z) == w + y + (x + z));
}

/// Multiplication distributes over modular addition.
pub proof fn lemma_mul_mod_distrib(c: nat, u: nat, v: nat)
    ensures
        mul_mod(c, add_mod(u, v)) == add_mod(mul_mod(c, u), mul_mod(c, v)),
{
    lemma_mul_mod_noop_right(c as int, (u + v) as int, group_order() as int);
    lemma_mul_is_distributive_add(c as int, u as int, v as int);
    lemma_add_mod_noop((c * u) as int, (c * v) as int, group_order() as int);
}

/// Modular addition distributes into a product from the left.
pub proof fn lemma_mul_mod_distrib_left(u: nat, v: nat, q: nat)
    ensures
        mul_mod(add_mod(u, v), q) == add_mod(mul_mod(u, q), mul_mod(v, q)),
{
    lemma_mul_mod_noop_left((u + v) as int, q as int, group_order() as int);
    lemma_mul_is_distributive_add(q as int, u as int, v as int);
    assert((u + v) * q == u * q + v * q) by {
        lemma_mul_is_distributive_add(q as int, u as int, v as int);
        vstd::arithmetic::mul::lemma_mul_is_commutative((u + v) as int, q as int);
        vstd::arithmetic::mul::lemma_mul_is_commutative(u as int, q as int);
        vstd::arithmetic::mul::lemma_mul_is_commutative(v as int, q as int);
    }
    lemma_add_mod_noop((u * q) as int, (v * q) as int, group_order() as int);
}

/// Modular multiplication is associative.
pub proof fn lemma_mul_mod_assoc(a: nat, b: nat, c: nat)
    ensures
        mul_mod(a, mul_mod(b, c)) == mul_mod(mul_mod(a, b), c),
{
    lemma_mul_mod_noop_right(a as int, (b * c) as int, group_order() as int);
    lemma_mul_is_associative(a as int, b as int, c as int);
    lemma_mul_mod_noop_left((a * b) as int, c as int, group_order() as int);
}

/// Adding and then subtracting the same residue returns the reduced start.
pub proof fn lemma_add_sub_cancel(a: nat, b: nat)
    requires
        a < group_order(),
    ensures
        sub_mod(add_mod(a, b), b) == a,
{
    let q = group_order() as int;
    let s = ((a + b) as int) % q;
    lemma_sub_mod_noop((a + b) as int, b as int, q);
    lemma_sub_mod_noop_right(s, b as int, q);
    lemma_small_mod(a, group_order());
}

/// The linear combination of the responses splits into the blinding part
/// plus the challenge times the witness part.
pub proof fn lemma_lc_of_responses(
    rhs: Seq<(int, int)>,
    blindings: Seq<nat>,
    witness: Seq<nat>,
    c: nat,
    pvals: Seq<nat>,
)
    requires
        blindings.len() == witness.len(),
        rhs_wf(rhs, blindings.len(), pvals.len()),
    ensures
        lc_val(rhs, response_vals(blindings, witness, c), pvals) == add_mod(
            lc_val(rhs, blindings, pvals),
            mul_mod(c, lc_val(rhs, witness, pvals)),
        ),
    decreases rhs.len(),
{
    let resp = response_vals(blindings, witness, c);
    if rhs.len() == 0 {
        assert(mul_mod(c, 0) == 0) by {
            lemma_small_mod(0, group_order());
        }
        assert(add_mod(0, 0) == 0) by {
            lemma_small_mod(0, group_order());
        }
    } else {
        let r0 = rhs.drop_last();
        let si = rhs.last().0;
        let pi = rhs.last().1;
        let q = pvals[pi];
        let b = blindings[si];
        let x = witness[si];
        assert(rhs_wf(r0, blindings.len(), pvals.len())) by {
            assert(forall|i: int| 0 <= i < r0.len() ==> r0[i] == rhs[i]);
        }
        lemma_lc_of_responses(r0, blindings, witness, c, pvals);
        let lb = lc_val(r0, blindings, pvals);
        let lx = lc_val(r0, witness, pvals);
        // The last term of the response combination splits into its parts.
        assert(mul_mod(resp[si], q) == add_mod(mul_mod(b, q), mul_mod(c, mul_mod(x, q)))) by {
            lemma_mul_mod_distrib_left(b, mul_mod(c, x), q);
            lemma_mul_mod_noop_left((b) as int, q as int, group_order() as int);
            lemma_small_mod(b % group_order(), group_order());
            lemma_add_mod_reduce(b * q, mul_mod(c, x) * q);
            lemma_mul_mod_assoc(c, x, q);
            assert(mul_mod(add_mod(b, mul_mod(c, x)), q) == add_mod(
                mul_mod(b, q),
                mul_mod(mul_mod(c, x), q),
            ));
        }
        calc! {
            (==)
            lc_val(rhs, resp, pvals); {}
            add_mod(add_mod(lb, mul_mod(c, lx)), mul_mod(resp[si], q)); {}
            add_mod(
                add_mod(lb, mul_mod(c, lx)),
                add_mod(mul_mod(b, q), mul_mod(c, mul_mod(x, q))),
            ); {
                lemma_add_mod_rearrange(lb, mul_mod(c, lx), mul_mod(b, q), mul_mod(c, mul_mod(x, q)));
            }
            add_mod(
                add_mod(lb, mul_mod(b, q)),
                add_mod(mul_mod(c, lx), mul_mod(c, mul_mod(x, q))),
            ); {
                lemma_mul_mod_distrib(c, lx, mul_mod(x, q));
            }
            add_mod(add_mod(lb, mul_mod(b, q)), mul_mod(c, add_mod(lx, mul_mod(x, q)))); {}
            add_mod(lc_val(rhs, blindings, pvals), mul_mod(c, lc_val(rhs, witness, pvals)));
        }
    }
}

/// The commitment a compact verifier recomputes from honest responses is the
/// prover's blinding combination: subtracting the challenge times an honestly
/// assigned left-hand side undoes the witness part.
pub proof fn lemma_recompute_commitment(
    rhs: Seq<(int, int)>,
    blindings: Seq<nat>,
    witness: Seq<nat>,
    c: nat,
    pvals: Seq<nat>,
    lhs_val: nat,
)
    requires
        blindings.len() == witness.len(),
        rhs_wf(rhs, blindings.len(), pvals.len()),
        lhs_val == lc_val(rhs, witness, pvals),
    ensures
        sub_mod(
            lc_val(rhs, response_vals(blindings, witness, c), pvals),
            mul_mod(c, lhs_val),
        ) == lc_val(rhs, blindings, pvals),
{
    lemma_lc_of_responses(rhs, blindings, witness, c, pvals);
    lemma_lc_val_bound(rhs, blindings, pvals);
    lemma_add_sub_cancel(lc_val(rhs, blindings, pvals), mul_mod(c, lhs_val));
}

} // verus!
