//! The constraint-system surface shared by the prover and the verifiers.
//!
//! A statement function is written once against [`SchnorrCS`] and replayed
//! against the prover and each verifier, which keeps both sides of the
//! protocol allocating and constraining in the same order.

use vstd::prelude::*;

use crate::algebra::{group_order, lc_val, response_vals, rhs_wf, sub_mod, mul_mod};
use crate::point::{point_enc, PointElem};
use crate::scalar::ScalarElem;
use crate::transcript::{
    absorbed, chal_bytes, challenge_val, squeezed, tag_blindcom, tag_chal, LogEntry,
};

pub mod batch_verifier;
pub mod prover;
pub mod single_verifier;

use prover::{PointVar, ScalarVar};

verus! {

/// The residues of a table of scalars.
pub open spec fn scalar_resid(s: Seq<ScalarElem>) -> Seq<nat> {
    s.map_values(|x: ScalarElem| x.v@)
}

/// The discrete logarithms of a table of points.
pub open spec fn point_resid(p: Seq<PointElem>) -> Seq<nat> {
    p.map_values(|x: PointElem| x.d@)
}

/// Every scalar of the table is well formed.
pub open spec fn scalars_wf(s: Seq<ScalarElem>) -> bool {
    forall|i: int| 0 <= i < s.len() ==> (#[trigger] s[i]).wf()
}

/// Every point of the table is well formed.
pub open spec fn points_wf(p: Seq<PointElem>) -> bool {
    forall|i: int| 0 <= i < p.len() ==> (#[trigger] p[i]).wf()
}

/// The byte views of a table of labels.
pub open spec fn label_views(l: Seq<Vec<u8>>) -> Seq<Seq<u8>> {
    l.map_values(|x: Vec<u8>| x@)
}

/// The model of one recorded constraint: the left-hand point index and the
/// index pairs of the right-hand linear combination.
pub open spec fn con_view(c: (PointVar, Vec<(ScalarVar, PointVar)>)) -> (int, Seq<(int, int)>) {
    (c.0.0 as int, c.1@.map_values(|t: (ScalarVar, PointVar)| (t.0.0 as int, t.1.0 as int)))
}

/// The model of a table of constraints.
pub open spec fn cons_view(cs: Seq<(PointVar, Vec<(ScalarVar, PointVar)>)>) -> Seq<
    (int, Seq<(int, int)>),
> {
    cs.map_values(|c: (PointVar, Vec<(ScalarVar, PointVar)>)| con_view(c))
}

/// A constraint model is well formed for the given table sizes: its
/// left-hand index is a point index, and its right-hand side is non-empty
/// with all indices in bounds.
pub open spec fn con_wf(c: (int, Seq<(int, int)>), n_scalars: nat, n_points: nat) -> bool {
    &&& 0 <= c.0 < n_points
    &&& c.1.len() > 0
    &&& rhs_wf(c.1, n_scalars, n_points)
}

/// Every constraint of the table is well formed for the given table sizes.
pub open spec fn cons_wf(cs: Seq<(int, Seq<(int, int)>)>, n_scalars: nat, n_points: nat) -> bool {
    forall|i: int| 0 <= i < cs.len() ==> con_wf(#[trigger] cs[i], n_scalars, n_points)
}

/// The commitments of an honest prover: one linear combination of the
/// blinding residues per constraint.
pub open spec fn commit_vals(
    cs: Seq<(int, Seq<(int, int)>)>,
    svals: Seq<nat>,
    pvals: Seq<nat>,
) -> Seq<nat> {
    Seq::new(cs.len(), |i: int| lc_val(cs[i].1, svals, pvals))
}

/// The commitments a compact verifier recomputes: for each constraint, the
/// linear combination of the responses minus the challenge times the
/// left-hand point.
pub open spec fn recomputed_commit_vals(
    cs: Seq<(int, Seq<(int, int)>)>,
    resp: Seq<nat>,
    c: nat,
    pvals: Seq<nat>,
) -> Seq<nat> {
    Seq::new(cs.len(), |i: int| sub_mod(lc_val(cs[i].1, resp, pvals), mul_mod(c, pvals[cs[i].0])))
}

/// The transcript log after the blinding commitments `tvals` have been
/// absorbed, one per constraint in order, each as the left-hand label and
/// the commitment's encoding under the blinding-commitment tag.
pub open spec fn commit_log(
    log0: Seq<LogEntry>,
    cs: Seq<(int, Seq<(int, int)>)>,
    lbls: Seq<Seq<u8>>,
    tvals: Seq<nat>,
) -> Seq<LogEntry>
    decreases cs.len(),
{
    if cs.len() == 0 {
        log0
    } else {
        commit_log(log0, cs.drop_last(), lbls, tvals.drop_last()).push(
            absorbed(tag_blindcom(), lbls[cs.last().0]),
        ).push(absorbed(tag_blindcom(), point_enc(tvals.last())))
    }
}

/// What proving in the compact encoding guarantees: for the blinding
/// residues `bs`, the challenge is squeezed from the transcript after the
/// blinding commitments were absorbed, the responses are blinding plus
/// challenge times witness, and the transcript ends just after the squeeze.
pub open spec fn compact_prove_rel(
    cs: Seq<(int, Seq<(int, int)>)>,
    lbls: Seq<Seq<u8>>,
    xs: Seq<nat>,
    pvals: Seq<nat>,
    log0: Seq<LogEntry>,
    bs: Seq<nat>,
    challenge: nat,
    resp: Seq<nat>,
    log_end: Seq<LogEntry>,
) -> bool {
    let tvals = commit_vals(cs, bs, pvals);
    let log1 = commit_log(log0, cs, lbls, tvals);
    &&& bs.len() == xs.len()
    &&& challenge == challenge_val(log1)
    &&& resp =~= response_vals(bs, xs, challenge)
    &&& log_end =~= log1.push(squeezed(tag_chal(), chal_bytes(log1, tag_chal(), 64)))
}

/// What proving in the batchable encoding guarantees: the stored
/// commitments are the blinding combinations, and the responses answer the
/// challenge squeezed after those commitments were absorbed.
pub open spec fn batchable_prove_rel(
    cs: Seq<(int, Seq<(int, int)>)>,
    lbls: Seq<Seq<u8>>,
    xs: Seq<nat>,
    pvals: Seq<nat>,
    log0: Seq<LogEntry>,
    bs: Seq<nat>,
    tvals: Seq<nat>,
    resp: Seq<nat>,
    log_end: Seq<LogEntry>,
) -> bool {
    let log1 = commit_log(log0, cs, lbls, tvals);
    &&& bs.len() == xs.len()
    &&& tvals =~= commit_vals(cs, bs, pvals)
    &&& resp =~= response_vals(bs, xs, challenge_val(log1))
    &&& log_end =~= log1.push(squeezed(tag_chal(), chal_bytes(log1, tag_chal(), 64)))
}

/// Compute the linear combination `Σ s_i · Q_i` given by `rhs` over the
/// scalar and point tables.
pub fn lc_combine(
    rhs: &Vec<(ScalarVar, PointVar)>,
    svals: &Vec<ScalarElem>,
    points: &Vec<PointElem>,
) -> (r: PointElem)
    requires
        rhs_wf(
            rhs@.map_values(|t: (ScalarVar, PointVar)| (t.0.0 as int, t.1.0 as int)),
            svals@.len() as nat,
            points@.len() as nat,
        ),
        scalars_wf(svals@),
        points_wf(points@),
    ensures
        r.wf(),
        r.d@ == lc_val(
            rhs@.map_values(|t: (ScalarVar, PointVar)| (t.0.0 as int, t.1.0 as int)),
            scalar_resid(svals@),
            point_resid(points@),
        ),
{
    let ghost view = rhs@.map_values(|t: (ScalarVar, PointVar)| (t.0.0 as int, t.1.0 as int));
    let mut acc = PointElem::identity();
    let mut i: usize = 0;
    proof {
        assert(view.subrange(0, 0) =~= Seq::<(int, int)>::empty());
        vstd::arithmetic::div_mod::lemma_small_mod(0, group_order());
    }
    while i < rhs.len()
        invariant
            i <= rhs.len(),
            view == rhs@.map_values(|t: (ScalarVar, PointVar)| (t.0.0 as int, t.1.0 as int)),
            rhs_wf(view, svals@.len() as nat, points@.len() as nat),
            scalars_wf(svals@),
            points_wf(points@),
            acc.wf(),
            acc.d@ == lc_val(view.subrange(0, i as int), scalar_resid(svals@), point_resid(points@)),
        decreases rhs.len() - i,
    {
        let (sv, pv) = rhs[i];
        proof {
            assert(view[i as int] == (rhs@[i as int].0.0 as int, rhs@[i as int].1.0 as int));
            assert(0 <= view[i as int].0 < svals@.len() && 0 <= view[i as int].1 < points@.len());
        }
        let term = points[pv.0].mul(&svals[sv.0]);
        let next = acc.add(&term);
        proof {
            let pre = view.subrange(0, i as int);
            let cur = view.subrange(0, i as int + 1);
            assert(cur.drop_last() =~= pre);
            assert(cur.last() == view[i as int]);
            assert(scalar_resid(svals@)[view[i as int].0] == svals@[sv.0 as int].v@);
            assert(point_resid(points@)[view[i as int].1] == points@[pv.0 as int].d@);
        }
        acc = next;
        i += 1;
    }
    proof {
        assert(view.subrange(0, rhs@.len() as int) =~= view);
    }
    acc
}

} // verus!

verus! {

/// The uniform surface over which statement functions are written: the
/// prover and the verifiers all implement it, so one statement definition
/// drives proving and verifying alike.
pub trait SchnorrCS {
    type ScalarVar;

    type PointVar;

    /// Whether the receiver accepts this constraint: its variables must
    /// have been issued by the receiver.
    spec fn constrain_pre(
        &self,
        lhs: Self::PointVar,
        linear_combination: Seq<(Self::ScalarVar, Self::PointVar)>,
    ) -> bool;

    /// Record the constraint `lhs = Σ s_i · Q_i`.
    fn constrain(
        &mut self,
        lhs: Self::PointVar,
        linear_combination: Vec<(Self::ScalarVar, Self::PointVar)>,
    )
        requires
            old(self).constrain_pre(lhs, linear_combination@),
    ;
}

} // verus!
