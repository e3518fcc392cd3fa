//! The prover: allocates witnesses, binds them to the transcript, runs the
//! Σ-protocol and emits a proof in either encoding.

use vstd::prelude::*;

use crate::algebra::{add_mod, all_reduced, lc_val, mul_mod, response_vals, rhs_wf};
use crate::codec::{BatchableProof, CompactProof};
use crate::point::PointElem;
use crate::scalar::ScalarElem;
use crate::toolbox::{
    batchable_prove_rel, commit_log, commit_vals, compact_prove_rel, con_view, cons_view, cons_wf,
    label_views, lc_combine, point_resid, points_wf, scalar_resid, scalars_wf, SchnorrCS,
};
use crate::transcript::{
    absorbed, finalize_rng, make_tag_blindcom, make_tag_proof_label, make_tag_ptvar,
    make_tag_scvar, rekey_with_witness_bytes, tag_blindcom, tag_proof_label, tag_ptvar, tag_scvar,
    ProofTranscript,
};

verus! {

/// A secret variable used during proving: a dense index into the prover's
/// scalar table.
#[derive(Clone, Copy)]
pub struct ScalarVar(pub usize);

/// A public variable used during proving: a dense index into the prover's
/// point table.
#[derive(Clone, Copy)]
pub struct PointVar(pub usize);

/// Used to create proofs.
///
/// Construct one with [`Prover::new`], supplying a domain-separation label
/// and the transcript to operate on.  Allocate and assign secret
/// ([`Prover::allocate_scalar`]) and public ([`Prover::allocate_point`])
/// variables, record the statement's constraints, then consume the prover
/// with [`Prover::prove_compact`] or [`Prover::prove_batchable`].
pub struct Prover {
    /// The assigned secret scalars, in allocation order.
    pub scalars: Vec<ScalarElem>,
    /// The assigned public points, in allocation order.
    pub points: Vec<PointElem>,
    /// The label of each public point, in allocation order.
    pub point_labels: Vec<Vec<u8>>,
    /// The recorded constraints, in insertion order.
    pub constraints: Vec<(PointVar, Vec<(ScalarVar, PointVar)>)>,
}

impl Prover {
    /// All tables are well formed and all constraints are in bounds.
    pub open spec fn wf(self) -> bool {
        &&& scalars_wf(self.scalars@)
        &&& points_wf(self.points@)
        &&& self.point_labels@.len() == self.points@.len()
        &&& cons_wf(
            cons_view(self.constraints@),
            self.scalars@.len() as nat,
            self.points@.len() as nat,
        )
    }

    /// Construct a new prover.  The `proof_label` disambiguates proof
    /// statements; it is bound to the transcript before anything else.
    pub fn new(proof_label: &[u8], transcript: &mut ProofTranscript) -> (r: Prover)
        ensures
            r.wf(),
            r.scalars@.len() == 0,
            r.points@.len() == 0,
            r.point_labels@.len() == 0,
            r.constraints@.len() == 0,
            final(transcript).log@ =~= old(transcript).log@.push(
                absorbed(tag_proof_label(), proof_label@),
            ),
    {
        let tag = make_tag_proof_label();
        transcript.append_message(tag.as_slice(), proof_label);
        Prover {
            scalars: Vec::new(),
            points: Vec::new(),
            point_labels: Vec::new(),
            constraints: Vec::new(),
        }
    }

    /// Allocate and assign a secret variable with the given `label`.
    pub fn allocate_scalar(
        &mut self,
        transcript: &mut ProofTranscript,
        label: &[u8],
        assignment: ScalarElem,
    ) -> (r: ScalarVar)
        requires
            old(self).wf(),
            assignment.wf(),
        ensures
            final(self).wf(),
            final(self).scalars@ =~= old(self).scalars@.push(assignment),
            final(self).points@ == old(self).points@,
            final(self).point_labels@ == old(self).point_labels@,
            final(self).constraints@ == old(self).constraints@,
            r.0 == old(self).scalars@.len(),
            final(transcript).log@ =~= old(transcript).log@.push(
                absorbed(tag_scvar(), label@),
            ),
    {
        let tag = make_tag_scvar();
        transcript.append_message(tag.as_slice(), label);
        let index = self.scalars.len();
        self.scalars.push(assignment);
        proof {
            assert(cons_view(self.constraints@) =~= cons_view(old(self).constraints@));
        }
        ScalarVar(index)
    }

    /// Allocate and assign a public variable with the given `label`.  The
    /// point's canonical encoding is bound to the transcript, and the point
    /// is echoed back beside its handle.
    pub fn allocate_point(
        &mut self,
        transcript: &mut ProofTranscript,
        label: &[u8],
        assignment: PointElem,
    ) -> (r: (PointVar, PointElem))
        requires
            old(self).wf(),
            assignment.wf(),
        ensures
            final(self).wf(),
            final(self).points@ =~= old(self).points@.push(assignment),
            final(self).point_labels@.len() == old(self).point_labels@.len() + 1,
            label_views(final(self).point_labels@) =~= label_views(old(self).point_labels@).push(
                label@,
            ),
            final(self).scalars@ == old(self).scalars@,
            final(self).constraints@ == old(self).constraints@,
            r.0.0 == old(self).points@.len(),
            r.1.d@ == assignment.d@,
            final(transcript).log@ =~= old(transcript).log@.push(
                absorbed(tag_ptvar(), label@),
            ).push(absorbed(tag_ptvar(), crate::point::point_enc(assignment.d@))),
    {
        let tag = make_tag_ptvar();
        transcript.append_message(tag.as_slice(), label);
        let enc = assignment.to_bytes();
        transcript.append_message(tag.as_slice(), enc.as_slice());
        let index = self.points.len();
        let echo = assignment.dup();
        self.points.push(assignment);
        self.point_labels.push(crate::util::to_owned_bytes(label));
        proof {
            assert(cons_view(self.constraints@) =~= cons_view(old(self).constraints@));
            assert(label_views(self.point_labels@) =~= label_views(old(self).point_labels@).push(
                label@,
            ));
        }
        (PointVar(index), echo)
    }

    /// Record the constraint `lhs = Σ s_i · Q_i`.
    pub fn add_constraint(&mut self, lhs: PointVar, linear_combination: Vec<(ScalarVar, PointVar)>)
        requires
            old(self).wf(),
            lhs.0 < old(self).points@.len(),
            linear_combination@.len() > 0,
            rhs_wf(
                linear_combination@.map_values(
                    |t: (ScalarVar, PointVar)| (t.0.0 as int, t.1.0 as int),
                ),
                old(self).scalars@.len() as nat,
                old(self).points@.len() as nat,
            ),
        ensures
            final(self).wf(),
            final(self).constraints@ =~= old(self).constraints@.push((lhs, linear_combination)),
            final(self).scalars@ == old(self).scalars@,
            final(self).points@ == old(self).points@,
            final(self).point_labels@ == old(self).point_labels@,
    {
        self.constraints.push((lhs, linear_combination));
        proof {
            assert(cons_view(self.constraints@) =~= cons_view(old(self).constraints@).push(
                con_view((lhs, linear_combination)),
            ));
        }
    }

    /// The shared Σ-protocol run: derive a witness-seeded generator, draw
    /// one blinding per secret, absorb one blinding commitment per
    /// constraint, squeeze the challenge and answer it.  The compact and
    /// batchable encodings differ only by which parts they keep.
    fn prove_impl(self, transcript: &mut ProofTranscript) -> (r: (
        ScalarElem,
        Vec<ScalarElem>,
        Vec<PointElem>,
        Ghost<Seq<nat>>,
    ))
        requires
            self.wf(),
        ensures
            ({
                let bs = r.3@;
                let cs = cons_view(self.constraints@);
                let lbls = label_views(self.point_labels@);
                let xs = scalar_resid(self.scalars@);
                let pvals = point_resid(self.points@);
                let tvals = commit_vals(cs, bs, pvals);
                let log1 = commit_log(old(transcript).log@, cs, lbls, tvals);
                &&& bs.len() == xs.len()
                &&& all_reduced(bs)
                &&& r.0.wf()
                &&& r.0.v@ == crate::transcript::challenge_val(log1)
                &&& scalars_wf(r.1@)
                &&& scalar_resid(r.1@) =~= response_vals(bs, xs, r.0.v@)
                &&& points_wf(r.2@)
                &&& point_resid(r.2@) =~= tvals
                &&& final(transcript).log@ =~= log1.push(
                    crate::transcript::squeezed(
                        crate::transcript::tag_chal(),
                        crate::transcript::chal_bytes(log1, crate::transcript::tag_chal(), 64),
                    ),
                )
            }),
    {
        let ghost log0 = transcript.log@;
        let ghost cs = cons_view(self.constraints@);
        let ghost lbls = label_views(self.point_labels@);
        let ghost xs = scalar_resid(self.scalars@);
        let ghost pvals = point_resid(self.points@);

        // Seed a generator from the transcript and every witness scalar,
        // then mix in fresh operating-system entropy.
        let mut builder = transcript.build_rng();
        let mut i: usize = 0;
        while i < self.scalars.len()
            invariant
                scalars_wf(self.scalars@),
            decreases self.scalars@.len() - i,
        {
            let witness_bytes = self.scalars[i].to_bytes();
            builder = rekey_with_witness_bytes(builder, witness_bytes.as_slice());
            i += 1;
        }
        let mut rng = finalize_rng(builder);

        // One blinding factor per secret variable.
        let mut blindings: Vec<ScalarElem> = Vec::new();
        while blindings.len() < self.scalars.len()
            invariant
                scalars_wf(blindings@),
                blindings@.len() <= self.scalars@.len(),
            decreases self.scalars@.len() - blindings@.len(),
        {
            blindings.push(ScalarElem::random_from_transcript_rng(&mut rng));
        }
        let ghost bs = scalar_resid(blindings@);
        proof {
            assert(all_reduced(bs));
        }

        // Commit to each blinded left-hand side.
        let tagb = make_tag_blindcom();
        let mut commitments: Vec<PointElem> = Vec::new();
        let mut j: usize = 0;
        while j < self.constraints.len()
            invariant
                j <= self.constraints@.len(),
                self.wf(),
                tagb@ =~= tag_blindcom(),
                blindings@.len() == self.scalars@.len(),
                scalars_wf(blindings@),
                bs == scalar_resid(blindings@),
                cs == cons_view(self.constraints@),
                lbls == label_views(self.point_labels@),
                pvals == point_resid(self.points@),
                commitments@.len() == j,
                points_wf(commitments@),
                point_resid(commitments@) =~= commit_vals(cs.subrange(0, j as int), bs, pvals),
                transcript.log@ =~= commit_log(
                    log0,
                    cs.subrange(0, j as int),
                    lbls,
                    commit_vals(cs.subrange(0, j as int), bs, pvals),
                ),
            decreases self.constraints@.len() - j,
        {
            let lhs = self.constraints[j].0;
            proof {
                assert(cs[j as int] == con_view(self.constraints@[j as int]));
                assert(crate::toolbox::con_wf(
                    cs[j as int],
                    self.scalars@.len() as nat,
                    self.points@.len() as nat,
                ));
                assert(cs[j as int].1 =~= self.constraints@[j as int].1@.map_values(
                    |t: (ScalarVar, PointVar)| (t.0.0 as int, t.1.0 as int),
                ));
                assert(lhs.0 < self.points@.len());
                assert(self.point_labels@.len() == self.points@.len());
            }
            let commitment = lc_combine(&self.constraints[j].1, &blindings, &self.points);
            transcript.append_message(tagb.as_slice(), self.point_labels[lhs.0].as_slice());
            let enc = commitment.to_bytes();
            transcript.append_message(tagb.as_slice(), enc.as_slice());
            let ghost precoms = commitments@;
            commitments.push(commitment);
            proof {
                let pre = cs.subrange(0, j as int);
                let cur = cs.subrange(0, j as int + 1);
                assert(cur.drop_last() =~= pre);
                assert(cur.last() == cs[j as int]);
                assert(cs[j as int].1 =~= self.constraints@[j as int].1@.map_values(
                    |t: (ScalarVar, PointVar)| (t.0.0 as int, t.1.0 as int),
                ));
                assert(commitment.d@ == lc_val(cs[j as int].1, bs, pvals));
                assert(commit_vals(cur, bs, pvals).drop_last() =~= commit_vals(pre, bs, pvals));
                assert(commit_vals(cur, bs, pvals).last() == lc_val(cs[j as int].1, bs, pvals));
                assert(commitments@ =~= precoms.push(commitment));
                assert(point_resid(commitments@) =~= point_resid(precoms).push(commitment.d@));
                assert(point_resid(commitments@) =~= commit_vals(cur, bs, pvals));
                assert(lbls[cs[j as int].0] == self.point_labels@[lhs.0 as int]@);
            }
            j += 1;
        }
        proof {
            assert(cs.subrange(0, self.constraints@.len() as int) =~= cs);
        }

        // Squeeze the challenge and answer it per secret variable.
        let challenge = transcript.get_challenge();
        let mut responses: Vec<ScalarElem> = Vec::new();
        let mut k: usize = 0;
        while k < self.scalars.len()
            invariant
                k <= self.scalars@.len(),
                scalars_wf(self.scalars@),
                blindings@.len() == self.scalars@.len(),
                scalars_wf(blindings@),
                bs == scalar_resid(blindings@),
                xs == scalar_resid(self.scalars@),
                challenge.wf(),
                responses@.len() == k,
                scalars_wf(responses@),
                forall|m: int|
                    0 <= m < k ==> (#[trigger] responses@[m]).v@ == add_mod(
                        bs[m],
                        mul_mod(challenge.v@, xs[m]),
                    ),
            decreases self.scalars@.len() - k,
        {
            let response = blindings[k].add(&challenge.mul(&self.scalars[k]));
            responses.push(response);
            k += 1;
        }
        proof {
            assert(scalar_resid(responses@) =~= response_vals(bs, xs, challenge.v@));
        }
        (challenge, responses, commitments, Ghost(bs))
    }

    /// Consume this prover to produce a compact proof.
    pub fn prove_compact(self, transcript: &mut ProofTranscript) -> (r: CompactProof)
        requires
            self.wf(),
        ensures
            r.wf(),
            r.responses@.len() == self.scalars@.len(),
            exists|bs: Seq<nat>|
                all_reduced(bs) && compact_prove_rel(
                    cons_view(self.constraints@),
                    label_views(self.point_labels@),
                    scalar_resid(self.scalars@),
                    point_resid(self.points@),
                    old(transcript).log@,
                    bs,
                    r.challenge.v@,
                    scalar_resid(r.responses@),
                    final(transcript).log@,
                ),
    {
        let (challenge, responses, _commitments, blinding_resid) = self.prove_impl(transcript);
        let ghost bs = blinding_resid@;
        let result = CompactProof { challenge, responses };
        proof {
            assert(all_reduced(bs) && compact_prove_rel(
                cons_view(self.constraints@),
                label_views(self.point_labels@),
                scalar_resid(self.scalars@),
                point_resid(self.points@),
                old(transcript).log@,
                bs,
                result.challenge.v@,
                scalar_resid(result.responses@),
                final(transcript).log@,
            ));
        }
        result
    }

    /// Consume this prover to produce a batchable proof.
    pub fn prove_batchable(self, transcript: &mut ProofTranscript) -> (r: BatchableProof)
        requires
            self.wf(),
        ensures
            r.wf(),
            r.responses@.len() == self.scalars@.len(),
            r.commitments@.len() == self.constraints@.len(),
            exists|bs: Seq<nat>|
                all_reduced(bs) && batchable_prove_rel(
                    cons_view(self.constraints@),
                    label_views(self.point_labels@),
                    scalar_resid(self.scalars@),
                    point_resid(self.points@),
                    old(transcript).log@,
                    bs,
                    point_resid(r.commitments@),
                    scalar_resid(r.responses@),
                    final(transcript).log@,
                ),
    {
        let (_challenge, responses, commitments, blinding_resid) = self.prove_impl(transcript);
        let ghost bs = blinding_resid@;
        let result = BatchableProof { commitments, responses };
        proof {
            assert(all_reduced(bs) && batchable_prove_rel(
                cons_view(self.constraints@),
                label_views(self.point_labels@),
                scalar_resid(self.scalars@),
                point_resid(self.points@),
                old(transcript).log@,
                bs,
                point_resid(result.commitments@),
                scalar_resid(result.responses@),
                final(transcript).log@,
            ));
        }
        result
    }
}

impl SchnorrCS for Prover {
    type ScalarVar = ScalarVar;

    type PointVar = PointVar;

    open spec fn constrain_pre(
        &self,
        lhs: PointVar,
        linear_combination: Seq<(ScalarVar, PointVar)>,
    ) -> bool {
        &&& self.wf()
        &&& lhs.0 < self.points@.len()
        &&& linear_combination.len() > 0
        &&& rhs_wf(
            linear_combination.map_values(|t: (ScalarVar, PointVar)| (t.0.0 as int, t.1.0 as int)),
            self.scalars@.len() as nat,
            self.points@.len() as nat,
        )
    }

    fn constrain(&mut self, lhs: PointVar, linear_combination: Vec<(ScalarVar, PointVar)>) {
        self.add_constraint(lhs, linear_combination);
    }
}

} // verus!
