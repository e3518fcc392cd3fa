//! The single-instance verifier: allocates variables in the same order as
//! the prover, recomputes or checks the blinding commitments, and decides
//! the proof.

use vstd::prelude::*;

use crate::algebra::{add_mod, lc_val, mul_mod, rhs_wf};
use crate::codec::{BatchableProof, CompactProof};
use crate::errors::ProofError;
use crate::point::PointElem;
use crate::toolbox::prover::{PointVar, ScalarVar};
use crate::toolbox::{
    commit_log, con_view, cons_view, cons_wf, label_views, lc_combine, point_resid, points_wf,
    recomputed_commit_vals, scalar_resid, SchnorrCS,
};
use crate::transcript::{
    absorbed, chal_bytes, challenge_val, make_tag_blindcom, make_tag_proof_label, make_tag_ptvar,
    make_tag_scvar, squeezed, tag_blindcom, tag_chal, tag_proof_label, tag_ptvar, tag_scvar,
    ProofTranscript,
};

verus! {

/// Used to verify proofs of a single statement instance.
///
/// Allocation and constraint order must mirror the prover exactly; the
/// transcript then reaches the same state, and the Σ-protocol equations
/// decide the proof.
pub struct Verifier {
    /// How many secret variables the statement declares.
    pub num_scalars: usize,
    /// The assigned public points, in allocation order.
    pub points: Vec<PointElem>,
    /// The label of each public point, in allocation order.
    pub point_labels: Vec<Vec<u8>>,
    /// The recorded constraints, in insertion order.
    pub constraints: Vec<(PointVar, Vec<(ScalarVar, PointVar)>)>,
}

impl Verifier {
    /// All tables are well formed and all constraints are in bounds.
    pub open spec fn wf(self) -> bool {
        &&& points_wf(self.points@)
        &&& self.point_labels@.len() == self.points@.len()
        &&& cons_wf(
            cons_view(self.constraints@),
            self.num_scalars as nat,
            self.points@.len() as nat,
        )
    }

    /// Construct a new verifier for the statement labelled `proof_label`.
    pub fn new(proof_label: &[u8], transcript: &mut ProofTranscript) -> (r: Verifier)
        ensures
            r.wf(),
            r.num_scalars == 0,
            r.points@.len() == 0,
            r.point_labels@.len() == 0,
            r.constraints@.len() == 0,
            final(transcript).log@ =~= old(transcript).log@.push(
                absorbed(tag_proof_label(), proof_label@),
            ),
    {
        let tag = make_tag_proof_label();
        transcript.append_message(tag.as_slice(), proof_label);
        Verifier {
            num_scalars: 0,
            points: Vec::new(),
            point_labels: Vec::new(),
            constraints: Vec::new(),
        }
    }

    /// Allocate a secret variable with the given `label`; the verifier
    /// holds no witness, only the binding.
    pub fn allocate_scalar(&mut self, transcript: &mut ProofTranscript, label: &[u8]) -> (r:
        ScalarVar)
        requires
            old(self).wf(),
            old(self).num_scalars < usize::MAX,
        ensures
            final(self).wf(),
            final(self).num_scalars == old(self).num_scalars + 1,
            final(self).points@ == old(self).points@,
            final(self).point_labels@ == old(self).point_labels@,
            final(self).constraints@ == old(self).constraints@,
            r.0 == old(self).num_scalars,
            final(transcript).log@ =~= old(transcript).log@.push(
                absorbed(tag_scvar(), label@),
            ),
    {
        let tag = make_tag_scvar();
        transcript.append_message(tag.as_slice(), label);
        let index = self.num_scalars;
        self.num_scalars = self.num_scalars + 1;
        proof {
            assert(cons_view(self.constraints@) =~= cons_view(old(self).constraints@));
        }
        ScalarVar(index)
    }

    /// Allocate a public variable with the given `label`.  A [`PointElem`]
    /// has already passed its decoding and subgroup checks, so allocation
    /// is owed success; a point that fails those checks is rejected earlier,
    /// by [`PointElem::from_bytes`].
    pub fn allocate_point(
        &mut self,
        transcript: &mut ProofTranscript,
        label: &[u8],
        assignment: PointElem,
    ) -> (r: Result<PointVar, ProofError>)
        requires
            old(self).wf(),
            assignment.wf(),
        ensures
            final(self).wf(),
            final(self).points@ =~= old(self).points@.push(assignment),
            final(self).point_labels@.len() == old(self).point_labels@.len() + 1,
            label_views(final(self).point_labels@) =~= label_views(old(self).point_labels@).push(
                label@,
            ),
            final(self).num_scalars == old(self).num_scalars,
            final(self).constraints@ == old(self).constraints@,
            r matches Ok(v) && v.0 == old(self).points@.len(),
            final(transcript).log@ =~= old(transcript).log@.push(
                absorbed(tag_ptvar(), label@),
            ).push(absorbed(tag_ptvar(), crate::point::point_enc(assignment.d@))),
    {
        let tag = make_tag_ptvar();
        transcript.append_message(tag.as_slice(), label);
        let enc = assignment.to_bytes();
        transcript.append_message(tag.as_slice(), enc.as_slice());
        let index = self.points.len();
        self.points.push(assignment);
        self.point_labels.push(crate::util::to_owned_bytes(label));
        proof {
            assert(cons_view(self.constraints@) =~= cons_view(old(self).constraints@));
            assert(label_views(self.point_labels@) =~= label_views(old(self).point_labels@).push(
                label@,
            ));
        }
        Ok(PointVar(index))
    }

    /// Record the constraint `lhs = Σ s_i · Q_i`.
    pub fn add_constraint(&mut self, lhs: PointVar, linear_combination: Vec<(ScalarVar, PointVar)>)
        requires
            old(self).wf(),
            lhs.0 < old(self).points@.len(),
            linear_combination@.len() > 0,
            rhs_wf(
                linear_combination@.map_values(
                    |t: (ScalarVar, PointVar)| (t.0.0 as int, t.1.0 as int),
                ),
                old(self).num_scalars as nat,
                old(self).points@.len() as nat,
            ),
        ensures
            final(self).wf(),
            final(self).constraints@ =~= old(self).constraints@.push((lhs, linear_combination)),
            final(self).num_scalars == old(self).num_scalars,
            final(self).points@ == old(self).points@,
            final(self).point_labels@ == old(self).point_labels@,
    {
        self.constraints.push((lhs, linear_combination));
        proof {
            assert(cons_view(self.constraints@) =~= cons_view(old(self).constraints@).push(
                con_view((lhs, linear_combination)),
            ));
        }
    }

    /// Verify a compact proof: recompute each blinding commitment from the
    /// responses and the stored challenge, absorb it, squeeze the challenge
    /// again and accept exactly when it matches the stored one.
    pub fn verify_compact(self, transcript: &mut ProofTranscript, proof: &CompactProof) -> (r:
        Result<(), ProofError>)
        requires
            self.wf(),
            proof.wf(),
        ensures
            ({
                let cs = cons_view(self.constraints@);
                let lbls = label_views(self.point_labels@);
                let pvals = point_resid(self.points@);
                let resp = scalar_resid(proof.responses@);
                let tvals = recomputed_commit_vals(cs, resp, proof.challenge.v@, pvals);
                let log1 = commit_log(old(transcript).log@, cs, lbls, tvals);
                if proof.responses@.len() != self.num_scalars {
                    r == Err::<(), ProofError>(ProofError::VerificationFailure)
                        && final(transcript).log@ =~= old(transcript).log@
                } else {
                    &&& (r is Ok <==> challenge_val(log1) == proof.challenge.v@)
                    &&& (r is Err ==> r == Err::<(), ProofError>(
                        ProofError::VerificationFailure,
                    ))
                    &&& final(transcript).log@ =~= log1.push(
                        squeezed(tag_chal(), chal_bytes(log1, tag_chal(), 64)),
                    )
                }
            }),
    {
        if proof.responses.len() != self.num_scalars {
            return Err(ProofError::VerificationFailure);
        }
        let ghost log0 = transcript.log@;
        let ghost cs = cons_view(self.constraints@);
        let ghost lbls = label_views(self.point_labels@);
        let ghost pvals = point_resid(self.points@);
        let ghost resp = scalar_resid(proof.responses@);
        let ghost tvals = recomputed_commit_vals(cs, resp, proof.challenge.v@, pvals);

        let tagb = make_tag_blindcom();
        let mut j: usize = 0;
        while j < self.constraints.len()
            invariant
                j <= self.constraints@.len(),
                self.wf(),
                proof.wf(),
                proof.responses@.len() == self.num_scalars,
                tagb@ =~= tag_blindcom(),
                cs == cons_view(self.constraints@),
                lbls == label_views(self.point_labels@),
                pvals == point_resid(self.points@),
                resp == scalar_resid(proof.responses@),
                tvals == recomputed_commit_vals(cs, resp, proof.challenge.v@, pvals),
                transcript.log@ =~= commit_log(
                    log0,
                    cs.subrange(0, j as int),
                    lbls,
                    tvals.subrange(0, j as int),
                ),
            decreases self.constraints@.len() - j,
        {
            let lhs = self.constraints[j].0;
            proof {
                assert(cs[j as int] == con_view(self.constraints@[j as int]));
                assert(crate::toolbox::con_wf(
                    cs[j as int],
                    self.num_scalars as nat,
                    self.points@.len() as nat,
                ));
                assert(cs[j as int].1 =~= self.constraints@[j as int].1@.map_values(
                    |t: (ScalarVar, PointVar)| (t.0.0 as int, t.1.0 as int),
                ));
                assert(lhs.0 < self.points@.len());
                assert(self.point_labels@.len() == self.points@.len());
            }
            let combined = lc_combine(&self.constraints[j].1, &proof.responses, &self.points);
            let commitment = combined.sub(&self.points[lhs.0].mul(&proof.challenge));
            transcript.append_message(tagb.as_slice(), self.point_labels[lhs.0].as_slice());
            let enc = commitment.to_bytes();
            transcript.append_message(tagb.as_slice(), enc.as_slice());
            proof {
                let pre = cs.subrange(0, j as int);
                let cur = cs.subrange(0, j as int + 1);
                let tpre = tvals.subrange(0, j as int);
                let tcur = tvals.subrange(0, j as int + 1);
                assert(cur.drop_last() =~= pre);
                assert(cur.last() == cs[j as int]);
                assert(tcur.drop_last() =~= tpre);
                assert(tcur.last() == tvals[j as int]);
                assert(commitment.d@ == tvals[j as int]);
                assert(lbls[cs[j as int].0] == self.point_labels@[lhs.0 as int]@);
            }
            j += 1;
        }
        proof {
            assert(cs.subrange(0, self.constraints@.len() as int) =~= cs);
            assert(tvals.subrange(0, self.constraints@.len() as int) =~= tvals);
        }
        let recomputed = transcript.get_challenge();
        if recomputed.equals(&proof.challenge) {
            Ok(())
        } else {
            Err(ProofError::VerificationFailure)
        }
    }

    /// Verify a batchable proof: absorb the stored blinding commitments,
    /// squeeze the challenge and accept exactly when every constraint's
    /// group equation `Σ r_i · Q_i = T + c · P` holds.
    pub fn verify_batchable(self, transcript: &mut ProofTranscript, proof: &BatchableProof) -> (r:
        Result<(), ProofError>)
        requires
            self.wf(),
            proof.wf(),
        ensures
            ({
                let cs = cons_view(self.constraints@);
                let lbls = label_views(self.point_labels@);
                let pvals = point_resid(self.points@);
                let resp = scalar_resid(proof.responses@);
                let tvals = point_resid(proof.commitments@);
                let log1 = commit_log(old(transcript).log@, cs, lbls, tvals);
                if proof.responses@.len() != self.num_scalars || proof.commitments@.len()
                    != self.constraints@.len() {
                    r == Err::<(), ProofError>(ProofError::VerificationFailure)
                        && final(transcript).log@ =~= old(transcript).log@
                } else {
                    &&& (r is Ok <==> (forall|i: int|
                        0 <= i < cs.len() ==> lc_val(#[trigger] cs[i].1, resp, pvals) == add_mod(
                            tvals[i],
                            mul_mod(challenge_val(log1), pvals[cs[i].0]),
                        )))
                    &&& (r is Err ==> r == Err::<(), ProofError>(
                        ProofError::VerificationFailure,
                    ))
                    &&& final(transcript).log@ =~= log1.push(
                        squeezed(tag_chal(), chal_bytes(log1, tag_chal(), 64)),
                    )
                }
            }),
    {
        if proof.responses.len() != self.num_scalars
            || proof.commitments.len() != self.constraints.len() {
            return Err(ProofError::VerificationFailure);
        }
        let ghost log0 = transcript.log@;
        let ghost cs = cons_view(self.constraints@);
        let ghost lbls = label_views(self.point_labels@);
        let ghost pvals = point_resid(self.points@);
        let ghost resp = scalar_resid(proof.responses@);
        let ghost tvals = point_resid(proof.commitments@);

        let tagb = make_tag_blindcom();
        let mut j: usize = 0;
        while j < self.constraints.len()
            invariant
                j <= self.constraints@.len(),
                self.wf(),
                proof.wf(),
                proof.responses@.len() == self.num_scalars,
                proof.commitments@.len() == self.constraints@.len(),
                tagb@ =~= tag_blindcom(),
                cs == cons_view(self.constraints@),
                lbls == label_views(self.point_labels@),
                pvals == point_resid(self.points@),
                resp == scalar_resid(proof.responses@),
                tvals == point_resid(proof.commitments@),
                transcript.log@ =~= commit_log(
                    log0,
                    cs.subrange(0, j as int),
                    lbls,
                    tvals.subrange(0, j as int),
                ),
            decreases self.constraints@.len() - j,
        {
            let lhs = self.constraints[j].0;
            proof {
                assert(cs[j as int] == con_view(self.constraints@[j as int]));
                assert(crate::toolbox::con_wf(
                    cs[j as int],
                    self.num_scalars as nat,
                    self.points@.len() as nat,
                ));
                assert(lhs.0 < self.points@.len());
                assert(self.point_labels@.len() == self.points@.len());
                assert(tvals[j as int] == proof.commitments@[j as int].d@);
            }
            transcript.append_message(tagb.as_slice(), self.point_labels[lhs.0].as_slice());
            let enc = proof.commitments[j].to_bytes();
            transcript.append_message(tagb.as_slice(), enc.as_slice());
            proof {
                let pre = cs.subrange(0, j as int);
                let cur = cs.subrange(0, j as int + 1);
                let tpre = tvals.subrange(0, j as int);
                let tcur = tvals.subrange(0, j as int + 1);
                assert(cur.drop_last() =~= pre);
                assert(cur.last() == cs[j as int]);
                assert(tcur.drop_last() =~= tpre);
                assert(tcur.last() == tvals[j as int]);
                assert(lbls[cs[j as int].0] == self.point_labels@[lhs.0 as int]@);
            }
            j += 1;
        }
        proof {
            assert(cs.subrange(0, self.constraints@.len() as int) =~= cs);
            assert(tvals.subrange(0, self.constraints@.len() as int) =~= tvals);
        }
        let challenge = transcript.get_challenge();
        let mut all_hold = true;
        let mut j: usize = 0;
        while j < self.constraints.len()
            invariant
                j <= self.constraints@.len(),
                self.wf(),
                proof.wf(),
                proof.responses@.len() == self.num_scalars,
                proof.commitments@.len() == self.constraints@.len(),
                cs == cons_view(self.constraints@),
                pvals == point_resid(self.points@),
                resp == scalar_resid(proof.responses@),
                tvals == point_resid(proof.commitments@),
                challenge.wf(),
                all_hold <==> (forall|i: int|
                    0 <= i < j ==> lc_val(#[trigger] cs[i].1, resp, pvals) == add_mod(
                        tvals[i],
                        mul_mod(challenge.v@, pvals[cs[i].0]),
                    )),
            decreases self.constraints@.len() - j,
        {
            let lhs = self.constraints[j].0;
            proof {
                assert(cs[j as int] == con_view(self.constraints@[j as int]));
                assert(crate::toolbox::con_wf(
                    cs[j as int],
                    self.num_scalars as nat,
                    self.points@.len() as nat,
                ));
                assert(cs[j as int].1 =~= self.constraints@[j as int].1@.map_values(
                    |t: (ScalarVar, PointVar)| (t.0.0 as int, t.1.0 as int),
                ));
                assert(lhs.0 < self.points@.len());
                assert(tvals[j as int] == proof.commitments@[j as int].d@);
            }
            let combined = lc_combine(&self.constraints[j].1, &proof.responses, &self.points);
            let expected = proof.commitments[j].add(&self.points[lhs.0].mul(&challenge));
            let holds = combined.equals(&expected);
            all_hold = all_hold && holds;
            j += 1;
        }
        if all_hold {
            Ok(())
        } else {
            Err(ProofError::VerificationFailure)
        }
    }
}

impl SchnorrCS for Verifier {
    type ScalarVar = ScalarVar;

    type PointVar = PointVar;

    open spec fn constrain_pre(
        &self,
        lhs: PointVar,
        linear_combination: Seq<(ScalarVar, PointVar)>,
    ) -> bool {
        &&& self.wf()
        &&& lhs.0 < self.points@.len()
        &&& linear_combination.len() > 0
        &&& rhs_wf(
            linear_combination.map_values(|t: (ScalarVar, PointVar)| (t.0.0 as int, t.1.0 as int)),
            self.num_scalars as nat,
            self.points@.len() as nat,
        )
    }

    fn constrain(&mut self, lhs: PointVar, linear_combination: Vec<(ScalarVar, PointVar)>) {
        self.add_constraint(lhs, linear_combination);
    }
}

} // verus!
