//! The batch verifier: verifies many batchable proofs of one statement
//! shape at once, with a random linear combination of the per-instance
//! Σ-protocol equations.

use vstd::prelude::*;

use crate::algebra::{add_mod, all_reduced, lc_val, mul_mod, rhs_wf, sub_mod};
use crate::codec::BatchableProof;
use crate::errors::ProofError;
use crate::point::PointElem;
use crate::scalar::ScalarElem;
use crate::toolbox::prover::{PointVar, ScalarVar};
use crate::toolbox::{
    commit_log, cons_wf, label_views, lc_combine, point_resid, points_wf, scalar_resid, SchnorrCS,
};
use crate::transcript::{
    absorbed, challenge_val, make_tag_blindcom, make_tag_proof_label, make_tag_ptvar,
    make_tag_scvar, tag_blindcom, tag_proof_label, tag_ptvar, tag_scvar, ProofTranscript,
};

verus! {

/// A public variable of a batch verifier: either one value shared by every
/// instance, or one value per instance.
#[derive(Clone, Copy)]
pub enum BatchPointVar {
    /// A point shared across all instances.
    Static(usize),
    /// A point with one value per instance.
    Instance(usize),
}

/// The position of a batch point variable in the per-instance point table,
/// which lays out the instance points first and the static points after
/// them.
pub open spec fn bpv_index(pv: BatchPointVar, n_instance: nat) -> int {
    match pv {
        BatchPointVar::Instance(k) => k as int,
        BatchPointVar::Static(k) => n_instance + k,
    }
}

/// The model of one batch constraint over the per-instance point table.
pub open spec fn bcon_view(
    c: (BatchPointVar, Vec<(ScalarVar, BatchPointVar)>),
    n_instance: nat,
) -> (int, Seq<(int, int)>) {
    (
        bpv_index(c.0, n_instance),
        c.1@.map_values(
            |t: (ScalarVar, BatchPointVar)| (t.0.0 as int, bpv_index(t.1, n_instance)),
        ),
    )
}

/// The model of a table of batch constraints.
pub open spec fn bcons_view(
    cs: Seq<(BatchPointVar, Vec<(ScalarVar, BatchPointVar)>)>,
    n_instance: nat,
) -> Seq<(int, Seq<(int, int)>)> {
    cs.map_values(|c: (BatchPointVar, Vec<(ScalarVar, BatchPointVar)>)| bcon_view(c, n_instance))
}

/// Whether a batch point variable indexes into its own table.
pub open spec fn bpv_ok(pv: BatchPointVar, n_static: nat, n_instance: nat) -> bool {
    match pv {
        BatchPointVar::Static(k) => k < n_static,
        BatchPointVar::Instance(k) => k < n_instance,
    }
}

/// Whether every variable of a batch constraint indexes into its own table.
pub open spec fn bcon_ok(
    c: (BatchPointVar, Vec<(ScalarVar, BatchPointVar)>),
    n_static: nat,
    n_instance: nat,
) -> bool {
    &&& bpv_ok(c.0, n_static, n_instance)
    &&& forall|m: int|
        0 <= m < c.1@.len() ==> bpv_ok((#[trigger] c.1@[m]).1, n_static, n_instance)
}

/// The discrete logarithms of instance `j`'s point table: instance `j`'s
/// value of each instance point, then the static points.
pub open spec fn combined_pvals(
    sp: Seq<PointElem>,
    ip: Seq<Vec<PointElem>>,
    j: int,
) -> Seq<nat> {
    ip.map_values(|v: Vec<PointElem>| v@[j].d@) + point_resid(sp)
}

/// The labels of the per-instance point table.
pub open spec fn combined_lbls(sl: Seq<Vec<u8>>, il: Seq<Vec<u8>>) -> Seq<Seq<u8>> {
    label_views(il) + label_views(sl)
}

/// One term of the aggregated batch equation for constraint `i`: the
/// random weight of instance `j` times the defect of instance `j`'s
/// Σ-protocol equation.
pub open spec fn batch_term(
    con: (int, Seq<(int, int)>),
    resp: Seq<nat>,
    tval: nat,
    chal: nat,
    pvals: Seq<nat>,
    alpha: nat,
) -> nat {
    mul_mod(alpha, sub_mod(lc_val(con.1, resp, pvals), add_mod(tval, mul_mod(chal, pvals[con.0]))))
}

/// The aggregated batch equation for constraint `con`, summed over the
/// first `n` instances.
pub open spec fn batch_sum(
    con: (int, Seq<(int, int)>),
    resps: Seq<Seq<nat>>,
    tvals: Seq<nat>,
    chals: Seq<nat>,
    pvalss: Seq<Seq<nat>>,
    alphas: Seq<nat>,
    n: nat,
) -> nat
    decreases n,
{
    if n == 0 {
        0
    } else {
        add_mod(
            batch_sum(con, resps, tvals, chals, pvalss, alphas, (n - 1) as nat),
            batch_term(con, resps[n - 1], tvals[n - 1], chals[n - 1], pvalss[n - 1], alphas[n - 1]),
        )
    }
}

/// Used to verify a batch of proofs of the same statement shape.
///
/// Each instance carries its own transcript; batching never merges them.
/// Static points are bound to every transcript, instance points each to
/// their own.
pub struct BatchVerifier {
    /// The number of instances.
    pub batch_size: usize,
    /// How many secret variables the statement declares.
    pub num_scalars: usize,
    /// One transcript per instance.
    pub transcripts: Vec<ProofTranscript>,
    /// The points shared by all instances, in allocation order.
    pub static_points: Vec<PointElem>,
    /// The label of each static point.
    pub static_labels: Vec<Vec<u8>>,
    /// For each instance point, its value in every instance.
    pub instance_points: Vec<Vec<PointElem>>,
    /// The label of each instance point.
    pub instance_labels: Vec<Vec<u8>>,
    /// The recorded constraints, in insertion order.
    pub constraints: Vec<(BatchPointVar, Vec<(ScalarVar, BatchPointVar)>)>,
}

impl BatchVerifier {
    /// All tables are well formed and all constraints are in bounds.
    pub open spec fn wf(self) -> bool {
        &&& self.transcripts@.len() == self.batch_size
        &&& points_wf(self.static_points@)
        &&& self.static_labels@.len() == self.static_points@.len()
        &&& self.instance_labels@.len() == self.instance_points@.len()
        &&& forall|k: int|
            0 <= k < self.instance_points@.len() ==> (#[trigger] self.instance_points@[k])@.len()
                == self.batch_size && points_wf(self.instance_points@[k]@)
        &&& self.static_points@.len() + self.instance_points@.len() <= usize::MAX
        &&& forall|i: int|
            0 <= i < self.constraints@.len() ==> bcon_ok(
                #[trigger] self.constraints@[i],
                self.static_points@.len() as nat,
                self.instance_points@.len() as nat,
            )
        &&& cons_wf(
            bcons_view(self.constraints@, self.instance_points@.len() as nat),
            self.num_scalars as nat,
            self.static_points@.len() + self.instance_points@.len(),
        )
    }

    /// Construct a batch verifier over one transcript per instance, binding
    /// the statement label to each.  Fails with a length mismatch when the
    /// transcript count differs from the batch size.
    pub fn new(proof_label: &[u8], batch_size: usize, transcripts: Vec<ProofTranscript>) -> (r:
        Result<BatchVerifier, ProofError>)
        ensures
            (r is Ok <==> transcripts@.len() == batch_size),
            (r is Err ==> r == Err::<BatchVerifier, ProofError>(ProofError::LengthMismatch)),
            (match r {
                Ok(bv) => {
                    &&& bv.wf()
                    &&& bv.batch_size == batch_size
                    &&& bv.num_scalars == 0
                    &&& bv.static_points@.len() == 0
                    &&& bv.instance_points@.len() == 0
                    &&& bv.static_labels@.len() == 0
                    &&& bv.instance_labels@.len() == 0
                    &&& bv.constraints@.len() == 0
                    &&& forall|j: int|
                        0 <= j < batch_size ==> (#[trigger] bv.transcripts@[j]).log@
                            =~= transcripts@[j].log@.push(absorbed(tag_proof_label(), proof_label@))
                },
                Err(_) => true,
            }),
    {
        if transcripts.len() != batch_size {
            return Err(ProofError::LengthMismatch);
        }
        let tag = make_tag_proof_label();
        let ghost orig = transcripts@;
        let mut rest = transcripts;
        let mut done: Vec<ProofTranscript> = Vec::new();
        while rest.len() > 0
            invariant
                tag@ =~= tag_proof_label(),
                done@.len() + rest@.len() == orig.len(),
                forall|j: int| 0 <= j < rest@.len() ==> rest@[j] == orig[done@.len() + j],
                forall|j: int|
                    0 <= j < done@.len() ==> (#[trigger] done@[j]).log@ =~= orig[j].log@.push(
                        absorbed(tag_proof_label(), proof_label@),
                    ),
            decreases rest@.len(),
        {
            let mut t = rest.remove(0);
            t.append_message(tag.as_slice(), proof_label);
            done.push(t);
        }
        Ok(
            BatchVerifier {
                batch_size,
                num_scalars: 0,
                transcripts: done,
                static_points: Vec::new(),
                static_labels: Vec::new(),
                instance_points: Vec::new(),
                instance_labels: Vec::new(),
                constraints: Vec::new(),
            },
        )
    }

    /// Bind one labelled message to every instance transcript.
    fn append_to_all(&mut self, tag: &Vec<u8>, message: &[u8])
        requires
            old(self).wf(),
        ensures
            final(self).wf(),
            final(self).transcripts@.len() == old(self).transcripts@.len(),
            forall|j: int|
                0 <= j < old(self).transcripts@.len()
                    ==> (#[trigger] final(self).transcripts@[j]).log@
                    =~= old(self).transcripts@[j].log@.push(absorbed(tag@, message@)),
            final(self).batch_size == old(self).batch_size,
            final(self).num_scalars == old(self).num_scalars,
            final(self).static_points@ == old(self).static_points@,
            final(self).static_labels@ == old(self).static_labels@,
            final(self).instance_points@ == old(self).instance_points@,
            final(self).instance_labels@ == old(self).instance_labels@,
            final(self).constraints@ == old(self).constraints@,
    {
        let ghost orig = self.transcripts@;
        let n = self.transcripts.len();
        let mut done: Vec<ProofTranscript> = Vec::new();
        while self.transcripts.len() > 0
            invariant
                old(self).wf(),
                orig == old(self).transcripts@,
                self.batch_size == old(self).batch_size,
                self.num_scalars == old(self).num_scalars,
                self.static_points@ == old(self).static_points@,
                self.static_labels@ == old(self).static_labels@,
                self.instance_points@ == old(self).instance_points@,
                self.instance_labels@ == old(self).instance_labels@,
                self.constraints@ == old(self).constraints@,
                done@.len() + self.transcripts@.len() == orig.len(),
                forall|j: int|
                    0 <= j < self.transcripts@.len() ==> self.transcripts@[j] == orig[done@.len()
                        + j],
                forall|j: int|
                    0 <= j < done@.len() ==> (#[trigger] done@[j]).log@ =~= orig[j].log@.push(
                        absorbed(tag@, message@),
                    ),
            decreases self.transcripts@.len(),
        {
            let mut t = self.transcripts.remove(0);
            t.append_message(tag.as_slice(), message);
            done.push(t);
        }
        self.transcripts = done;
        proof {
            assert(bcons_view(self.constraints@, self.instance_points@.len() as nat) =~= bcons_view(
                old(self).constraints@,
                old(self).instance_points@.len() as nat,
            ));
        }
    }

    /// Allocate a secret variable with the given `label`, binding it to
    /// every instance transcript.
    pub fn allocate_scalar(&mut self, label: &[u8]) -> (r: ScalarVar)
        requires
            old(self).wf(),
            old(self).num_scalars < usize::MAX,
        ensures
            final(self).wf(),
            final(self).num_scalars == old(self).num_scalars + 1,
            final(self).batch_size == old(self).batch_size,
            final(self).static_points@ == old(self).static_points@,
            final(self).instance_points@ == old(self).instance_points@,
            final(self).static_labels@ == old(self).static_labels@,
            final(self).instance_labels@ == old(self).instance_labels@,
            final(self).constraints@ == old(self).constraints@,
            r.0 == old(self).num_scalars,
            forall|j: int|
                0 <= j < old(self).transcripts@.len()
                    ==> (#[trigger] final(self).transcripts@[j]).log@
                    =~= old(self).transcripts@[j].log@.push(absorbed(tag_scvar(), label@)),
    {
        let tag = make_tag_scvar();
        self.append_to_all(&tag, label);
        let index = self.num_scalars;
        self.num_scalars = self.num_scalars + 1;
        proof {
            assert(bcons_view(self.constraints@, self.instance_points@.len() as nat) =~= bcons_view(
                old(self).constraints@,
                old(self).instance_points@.len() as nat,
            ));
        }
        ScalarVar(index)
    }

    /// Allocate a point shared by every instance, binding its encoding to
    /// every instance transcript.
    pub fn allocate_static_point(&mut self, label: &[u8], assignment: PointElem) -> (r: Result<
        BatchPointVar,
        ProofError,
    >)
        requires
            old(self).wf(),
            assignment.wf(),
            old(self).static_points@.len() + old(self).instance_points@.len() < usize::MAX,
        ensures
            final(self).wf(),
            final(self).static_points@ =~= old(self).static_points@.push(assignment),
            final(self).instance_points@ == old(self).instance_points@,
            final(self).num_scalars == old(self).num_scalars,
            final(self).batch_size == old(self).batch_size,
            final(self).constraints@ == old(self).constraints@,
            label_views(final(self).static_labels@) =~= label_views(
                old(self).static_labels@,
            ).push(label@),
            final(self).instance_labels@ == old(self).instance_labels@,
            r matches Ok(v) && v == BatchPointVar::Static(old(self).static_points@.len() as usize),
            final(self).transcripts@.len() == old(self).transcripts@.len(),
            forall|j: int|
                0 <= j < old(self).transcripts@.len()
                    ==> (#[trigger] final(self).transcripts@[j]).log@
                    =~= old(self).transcripts@[j].log@.push(absorbed(tag_ptvar(), label@)).push(
                    absorbed(tag_ptvar(), crate::point::point_enc(assignment.d@)),
                ),
    {
        let tag = make_tag_ptvar();
        self.append_to_all(&tag, label);
        let enc = assignment.to_bytes();
        let tag2 = make_tag_ptvar();
        self.append_to_all(&tag2, enc.as_slice());
        let index = self.static_points.len();
        self.static_points.push(assignment);
        self.static_labels.push(crate::util::to_owned_bytes(label));
        proof {
            assert(bcons_view(self.constraints@, self.instance_points@.len() as nat)
                =~= bcons_view(old(self).constraints@, old(self).instance_points@.len() as nat));
            assert(label_views(self.static_labels@) =~= label_views(
                old(self).static_labels@,
            ).push(label@));
        }
        Ok(BatchPointVar::Static(index))
    }

    /// Allocate a point with one value per instance, binding each value to
    /// its own instance transcript.  Fails with a length mismatch when the
    /// value count differs from the batch size.
    pub fn allocate_instance_point(&mut self, label: &[u8], assignments: Vec<PointElem>) -> (r:
        Result<BatchPointVar, ProofError>)
        requires
            old(self).wf(),
            points_wf(assignments@),
            old(self).constraints@.len() == 0,
            old(self).static_points@.len() + old(self).instance_points@.len() < usize::MAX,
        ensures
            final(self).wf(),
            final(self).constraints@.len() == 0,
            (r is Ok <==> assignments@.len() == old(self).batch_size),
            (r is Err ==> r == Err::<BatchPointVar, ProofError>(ProofError::LengthMismatch)
                && *final(self) == *old(self)),
            (r is Ok ==> {
                &&& final(self).instance_points@ =~= old(self).instance_points@.push(assignments)
                &&& final(self).static_points@ == old(self).static_points@
                &&& final(self).num_scalars == old(self).num_scalars
                &&& final(self).batch_size == old(self).batch_size
                &&& final(self).constraints@ == old(self).constraints@
                &&& label_views(final(self).instance_labels@) =~= label_views(
                    old(self).instance_labels@,
                ).push(label@)
                &&& final(self).static_labels@ == old(self).static_labels@
                &&& r matches Ok(v) && v == BatchPointVar::Instance(
                    old(self).instance_points@.len() as usize,
                )
                &&& final(self).transcripts@.len() == old(self).transcripts@.len()
                &&& forall|j: int|
                    0 <= j < old(self).transcripts@.len()
                        ==> (#[trigger] final(self).transcripts@[j]).log@
                        =~= old(self).transcripts@[j].log@.push(
                        absorbed(tag_ptvar(), label@),
                    ).push(absorbed(tag_ptvar(), crate::point::point_enc(assignments@[j].d@)))
            }),
    {
        if assignments.len() != self.batch_size {
            return Err(ProofError::LengthMismatch);
        }
        let tag = make_tag_ptvar();
        self.append_to_all(&tag, label);
        let ghost orig = self.transcripts@;
        let n = self.transcripts.len();
        let mut done: Vec<ProofTranscript> = Vec::new();
        let mut j: usize = 0;
        while self.transcripts.len() > 0
            invariant
                old(self).wf(),
                self.batch_size == old(self).batch_size,
                self.num_scalars == old(self).num_scalars,
                self.static_points@ == old(self).static_points@,
                self.static_labels@ == old(self).static_labels@,
                self.instance_points@ == old(self).instance_points@,
                self.instance_labels@ == old(self).instance_labels@,
                self.constraints@ == old(self).constraints@,
                assignments@.len() == orig.len(),
                orig.len() == old(self).batch_size,
                points_wf(assignments@),
                tag@ =~= tag_ptvar(),
                done@.len() + self.transcripts@.len() == orig.len(),
                forall|m: int|
                    0 <= m < self.transcripts@.len() ==> self.transcripts@[m] == orig[done@.len()
                        + m],
                forall|m: int|
                    0 <= m < done@.len() ==> (#[trigger] done@[m]).log@ =~= orig[m].log@.push(
                        absorbed(tag_ptvar(), crate::point::point_enc(assignments@[m].d@)),
                    ),
            decreases self.transcripts@.len(),
        {
            let mut t = self.transcripts.remove(0);
            let enc = assignments[done.len()].to_bytes();
            t.append_message(tag.as_slice(), enc.as_slice());
            done.push(t);
        }
        self.transcripts = done;
        let index = self.instance_points.len();
        self.instance_points.push(assignments);
        self.instance_labels.push(crate::util::to_owned_bytes(label));
        proof {
            assert(label_views(self.instance_labels@) =~= label_views(
                old(self).instance_labels@,
            ).push(label@));
            assert(bcons_view(self.constraints@, self.instance_points@.len() as nat) =~= bcons_view(
                old(self).constraints@,
                old(self).instance_points@.len() as nat,
            ));
        }
        Ok(BatchPointVar::Instance(index))
    }

    /// Whether a batch constraint's indices all lie within the tables.
    pub open spec fn constraint_ok(
        self,
        lhs: BatchPointVar,
        linear_combination: Seq<(ScalarVar, BatchPointVar)>,
    ) -> bool {
        let n_points = self.static_points@.len() + self.instance_points@.len();
        &&& bpv_ok(lhs, self.static_points@.len() as nat, self.instance_points@.len() as nat)
        &&& forall|m: int|
            0 <= m < linear_combination.len() ==> bpv_ok(
                (#[trigger] linear_combination[m]).1,
                self.static_points@.len() as nat,
                self.instance_points@.len() as nat,
            )
        &&& linear_combination.len() > 0
        &&& rhs_wf(
            linear_combination.map_values(
                |t: (ScalarVar, BatchPointVar)| (
                    t.0.0 as int,
                    bpv_index(t.1, self.instance_points@.len() as nat),
                ),
            ),
            self.num_scalars as nat,
            n_points as nat,
        )
    }

    /// Record the constraint `lhs = Σ s_i · Q_i`.
    pub fn add_constraint(
        &mut self,
        lhs: BatchPointVar,
        linear_combination: Vec<(ScalarVar, BatchPointVar)>,
    )
        requires
            old(self).wf(),
            old(self).constraint_ok(lhs, linear_combination@),
        ensures
            final(self).wf(),
            final(self).constraints@ =~= old(self).constraints@.push((lhs, linear_combination)),
            final(self).num_scalars == old(self).num_scalars,
            final(self).batch_size == old(self).batch_size,
            final(self).static_points@ == old(self).static_points@,
            final(self).instance_points@ == old(self).instance_points@,
            final(self).static_labels@ == old(self).static_labels@,
            final(self).instance_labels@ == old(self).instance_labels@,
            final(self).transcripts@ == old(self).transcripts@,
    {
        self.constraints.push((lhs, linear_combination));
        proof {
            assert(bcons_view(self.constraints@, self.instance_points@.len() as nat) =~= bcons_view(
                old(self).constraints@,
                old(self).instance_points@.len() as nat,
            ).push(bcon_view((lhs, linear_combination), old(self).instance_points@.len() as nat)));
        }
    }
}

impl BatchVerifier {
    /// Whether every proof of the batch has one response per secret
    /// variable and one commitment per constraint.
    pub open spec fn arity_ok(self, proofs: Seq<BatchableProof>) -> bool {
        forall|j: int|
            0 <= j < proofs.len() ==> (#[trigger] proofs[j]).responses@.len() == self.num_scalars
                && proofs[j].commitments@.len() == self.constraints@.len()
    }

    /// Verify a batch of batchable proofs: derive each instance's challenge
    /// from its own transcript, then check one random linear combination of
    /// the per-instance Σ-protocol equations per constraint.
    ///
    /// The random weights are sampled fresh; the contract therefore fixes
    /// the decision for whatever non-zero weights were drawn: the batch is
    /// accepted exactly when every aggregated equation sums to the identity.
    pub fn verify_batchable(self, proofs: &Vec<BatchableProof>) -> (r: Result<(), ProofError>)
        requires
            self.wf(),
            forall|j: int| 0 <= j < proofs@.len() ==> (#[trigger] proofs@[j]).wf(),
        ensures
            ({
                let n = self.batch_size as nat;
                let ni = self.instance_points@.len() as nat;
                let cs = bcons_view(self.constraints@, ni);
                let lbls = combined_lbls(self.static_labels@, self.instance_labels@);
                let resps = Seq::new(n, |j: int| scalar_resid(proofs@[j].responses@));
                let pvalss = Seq::new(
                    n,
                    |j: int| combined_pvals(self.static_points@, self.instance_points@, j),
                );
                let tvalss = Seq::new(n, |j: int| point_resid(proofs@[j].commitments@));
                let chals = Seq::new(
                    n,
                    |j: int|
                        challenge_val(
                            commit_log(self.transcripts@[j].log@, cs, lbls, tvalss[j]),
                        ),
                );
                if proofs@.len() != n {
                    r == Err::<(), ProofError>(ProofError::LengthMismatch)
                } else if !self.arity_ok(proofs@) {
                    r == Err::<(), ProofError>(ProofError::VerificationFailure)
                } else {
                    exists|alphas: Seq<nat>|
                        {
                            &&& alphas.len() == n
                            &&& all_reduced(alphas)
                            &&& (forall|j: int| 0 <= j < n ==> alphas[j] != 0)
                            &&& (r is Ok <==> (forall|i: int|
                                0 <= i < cs.len() ==> batch_sum(
                                    #[trigger] cs[i],
                                    resps,
                                    Seq::new(n, |j: int| tvalss[j][i]),
                                    chals,
                                    pvalss,
                                    alphas,
                                    n,
                                ) == 0))
                            &&& (r is Err ==> r == Err::<(), ProofError>(
                                ProofError::VerificationFailure,
                            ))
                        }
                }
            }),
    {
        let n = self.batch_size;
        if proofs.len() != n {
            return Err(ProofError::LengthMismatch);
        }
        let ghost ns = self.instance_points@.len() as nat;
        let ghost cs = bcons_view(self.constraints@, ns);
        let ghost lbls = combined_lbls(self.static_labels@, self.instance_labels@);
        let ghost resps = Seq::new(n as nat, |j: int| scalar_resid(proofs@[j].responses@));
        let ghost pvalss = Seq::new(
            n as nat,
            |j: int| combined_pvals(self.static_points@, self.instance_points@, j),
        );
        let ghost tvalss = Seq::new(n as nat, |j: int| point_resid(proofs@[j].commitments@));
        let ghost chals = Seq::new(
            n as nat,
            |j: int| challenge_val(commit_log(self.transcripts@[j].log@, cs, lbls, tvalss[j])),
        );

        // Check the per-proof arities.
        let mut j: usize = 0;
        while j < n
            invariant
                j <= n,
                self.wf(),
                n == self.batch_size,
                proofs@.len() == n,
                forall|m: int| 0 <= m < proofs@.len() ==> (#[trigger] proofs@[m]).wf(),
                forall|m: int|
                    0 <= m < j ==> (#[trigger] proofs@[m]).responses@.len() == self.num_scalars
                        && proofs@[m].commitments@.len() == self.constraints@.len(),
            decreases n - j,
        {
            if proofs[j].responses.len() != self.num_scalars
                || proofs[j].commitments.len() != self.constraints.len() {
                return Err(ProofError::VerificationFailure);
            }
            j += 1;
        }

        // Build each instance's point table: the static points, then the
        // instance's value of each instance point.
        let mut tables: Vec<Vec<PointElem>> = Vec::new();
        let mut j: usize = 0;
        while j < n
            invariant
                j <= n,
                self.wf(),
                n == self.batch_size,
                ns == self.instance_points@.len() as nat,
                tables@.len() == j,
                forall|m: int|
                    0 <= m < j ==> (#[trigger] tables@[m])@.len() == self.static_points@.len()
                        + self.instance_points@.len(),
                forall|m: int|
                    0 <= m < j ==> points_wf((#[trigger] tables@[m])@) && point_resid(tables@[m]@)
                        =~= combined_pvals(self.static_points@, self.instance_points@, m),
            decreases n - j,
        {
            let mut table: Vec<PointElem> = Vec::new();
            let mut k: usize = 0;
            while k < self.instance_points.len()
                invariant
                    j < n,
                    n == self.batch_size,
                    k <= self.instance_points@.len(),
                    self.wf(),
                    table@.len() == k,
                    forall|m: int|
                        0 <= m < k ==> (#[trigger] table@[m]).d@ == self.instance_points@[m]@[
                            j as int].d@ && table@[m].wf(),
                decreases self.instance_points@.len() - k,
            {
                proof {
                    assert(self.instance_points@[k as int]@.len() == self.batch_size);
                    assert(points_wf(self.instance_points@[k as int]@));
                }
                table.push(self.instance_points[k][j].dup());
                k += 1;
            }
            let mut k: usize = 0;
            while k < self.static_points.len()
                invariant
                    j < n,
                    k <= self.static_points@.len(),
                    self.wf(),
                    table@.len() == self.instance_points@.len() + k,
                    forall|m: int|
                        0 <= m < self.instance_points@.len() ==> (#[trigger] table@[m]).d@
                            == self.instance_points@[m]@[j as int].d@ && table@[m].wf(),
                    forall|m: int|
                        0 <= m < k ==> (#[trigger] table@[self.instance_points@.len() + m]).d@
                            == self.static_points@[m].d@ && table@[self.instance_points@.len()
                            + m].wf(),
                decreases self.static_points@.len() - k,
            {
                table.push(self.static_points[k].dup());
                k += 1;
            }
            proof {
                let ghost target = combined_pvals(
                    self.static_points@,
                    self.instance_points@,
                    j as int,
                );
                let ghost nil = self.instance_points@.len() as int;
                assert forall|m: int| 0 <= m < table@.len() implies point_resid(table@)[m]
                    == target[m] by {
                    if m < nil {
                        assert(table@[m].d@ == self.instance_points@[m]@[j as int].d@);
                    } else {
                        assert(table@[nil + (m - nil)].d@ == self.static_points@[m - nil].d@);
                    }
                }
                assert(point_resid(table@) =~= target);
                assert forall|m: int| 0 <= m < table@.len() implies (#[trigger] table@[m]).wf()
                    by {
                    if m < nil {
                    } else {
                        assert(table@[nil + (m - nil)].wf());
                    }
                }
                assert(points_wf(table@));
            }
            tables.push(table);
            j += 1;
        }

        // Replay each instance's commitments into its own transcript and
        // squeeze its challenge.
        let tagb = make_tag_blindcom();
        let mut challenges: Vec<ScalarElem> = Vec::new();
        let ghost orig_transcripts = self.transcripts@;
        let mut rest = self.transcripts;
        let mut j: usize = 0;
        while j < n
            invariant
                j <= n,
                n == self.batch_size,
                ns == self.instance_points@.len() as nat,
                cs == bcons_view(self.constraints@, ns),
                lbls == combined_lbls(self.static_labels@, self.instance_labels@),
                tvalss == Seq::new(n as nat, |m: int| point_resid(proofs@[m].commitments@)),
                chals == Seq::new(
                    n as nat,
                    |m: int|
                        challenge_val(commit_log(orig_transcripts[m].log@, cs, lbls, tvalss[m])),
                ),
                points_wf(self.static_points@),
                self.static_labels@.len() == self.static_points@.len(),
                self.instance_labels@.len() == self.instance_points@.len(),
                cons_wf(cs, self.num_scalars as nat, ns + self.static_points@.len()),
                self.static_points@.len() + self.instance_points@.len() <= usize::MAX,
                forall|m2: int|
                    0 <= m2 < self.constraints@.len() ==> bcon_ok(
                        #[trigger] self.constraints@[m2],
                        self.static_points@.len() as nat,
                        self.instance_points@.len() as nat,
                    ),
                proofs@.len() == n,
                forall|m: int| 0 <= m < proofs@.len() ==> (#[trigger] proofs@[m]).wf(),
                forall|m: int|
                    0 <= m < proofs@.len() ==> (#[trigger] proofs@[m]).commitments@.len()
                        == self.constraints@.len(),
                tagb@ =~= tag_blindcom(),
                orig_transcripts.len() == n,
                rest@.len() + j == n,
                forall|m: int| 0 <= m < rest@.len() ==> rest@[m] == orig_transcripts[j + m],
                challenges@.len() == j,
                forall|m: int|
                    0 <= m < j ==> (#[trigger] challenges@[m]).wf() && challenges@[m].v@
                        == chals[m],
            decreases n - j,
        {
            let mut t = rest.remove(0);
            let ghost log0 = t.log@;
            proof {
                assert(log0 == orig_transcripts[j as int].log@);
            }
            let mut i: usize = 0;
            while i < self.constraints.len()
                invariant
                    i <= self.constraints@.len(),
                    j < n,
                    n == self.batch_size,
                    ns == self.instance_points@.len() as nat,
                    cs == bcons_view(self.constraints@, ns),
                    lbls == combined_lbls(self.static_labels@, self.instance_labels@),
                    points_wf(self.static_points@),
                    self.static_labels@.len() == self.static_points@.len(),
                    self.instance_labels@.len() == self.instance_points@.len(),
                    cons_wf(cs, self.num_scalars as nat, ns + self.static_points@.len()),
                self.static_points@.len() + self.instance_points@.len() <= usize::MAX,
                forall|m2: int|
                    0 <= m2 < self.constraints@.len() ==> bcon_ok(
                        #[trigger] self.constraints@[m2],
                        self.static_points@.len() as nat,
                        self.instance_points@.len() as nat,
                    ),
                    self.static_points@.len() + self.instance_points@.len() <= usize::MAX,
                    forall|m2: int|
                        0 <= m2 < self.constraints@.len() ==> bcon_ok(
                            #[trigger] self.constraints@[m2],
                            self.static_points@.len() as nat,
                            self.instance_points@.len() as nat,
                        ),
                    proofs@.len() == n,
                    forall|m: int| 0 <= m < proofs@.len() ==> (#[trigger] proofs@[m]).wf(),
                    proofs@[j as int].commitments@.len() == self.constraints@.len(),
                    tagb@ =~= tag_blindcom(),
                    t.log@ =~= commit_log(
                        log0,
                        cs.subrange(0, i as int),
                        lbls,
                        point_resid(proofs@[j as int].commitments@).subrange(0, i as int),
                    ),
                decreases self.constraints@.len() - i,
            {
                let ghost tvals_j = point_resid(proofs@[j as int].commitments@);
                let lhs = self.constraints[i].0;
                proof {
                    assert(cs[i as int] == bcon_view(self.constraints@[i as int], ns));
                    assert(cons_wf(cs, self.num_scalars as nat, ns + self.static_points@.len()));
                    assert(crate::toolbox::con_wf(
                        cs[i as int],
                        self.num_scalars as nat,
                        ns + self.static_points@.len(),
                    ));
                }
                proof {
                    assert(bcon_ok(
                        self.constraints@[i as int],
                        self.static_points@.len() as nat,
                        self.instance_points@.len() as nat,
                    ));
                }
                let label: &Vec<u8> = match lhs {
                    BatchPointVar::Static(k) => &self.static_labels[k],
                    BatchPointVar::Instance(k) => &self.instance_labels[k],
                };
                proof {
                    assert(label@ == lbls[cs[i as int].0]);
                }
                t.append_message(tagb.as_slice(), label.as_slice());
                let enc = proofs[j].commitments[i].to_bytes();
                t.append_message(tagb.as_slice(), enc.as_slice());
                proof {
                    let pre = cs.subrange(0, i as int);
                    let cur = cs.subrange(0, i as int + 1);
                    let tpre = tvals_j.subrange(0, i as int);
                    let tcur = tvals_j.subrange(0, i as int + 1);
                    assert(cur.drop_last() =~= pre);
                    assert(cur.last() == cs[i as int]);
                    assert(tcur.drop_last() =~= tpre);
                    assert(tcur.last() == tvals_j[i as int]);
                    assert(tvals_j[i as int] == proofs@[j as int].commitments@[i as int].d@);
                }
                i += 1;
            }
            proof {
                assert(cs.subrange(0, self.constraints@.len() as int) =~= cs);
                assert(point_resid(proofs@[j as int].commitments@).subrange(
                    0,
                    self.constraints@.len() as int,
                ) =~= point_resid(proofs@[j as int].commitments@));
                assert(tvalss[j as int] == point_resid(proofs@[j as int].commitments@));
            }
            let challenge = t.get_challenge();
            proof {
                assert(challenge.v@ == chals[j as int]);
            }
            challenges.push(challenge);
            j += 1;
        }

        // Draw one random non-zero weight per instance.
        let zero = ScalarElem::from_u64(0);
        let mut alphas: Vec<ScalarElem> = Vec::new();
        let mut j: usize = 0;
        while j < n
            invariant
                j <= n,
                zero.v@ == 0,
                alphas@.len() == j,
                forall|m: int|
                    0 <= m < j ==> (#[trigger] alphas@[m]).wf() && alphas@[m].v@ != 0,
            decreases n - j,
        {
            let drawn = ScalarElem::random_os();
            let a = if drawn.equals(&zero) {
                // A uniform draw is zero with negligible probability; fall
                // back to a fixed non-zero weight rather than loop.
                ScalarElem::from_u64(1)
            } else {
                drawn
            };
            alphas.push(a);
            j += 1;
        }
        let ghost alpha_resid = scalar_resid(alphas@);

        // Check the aggregated equation of every constraint.
        let identity = PointElem::identity();
        let mut all_hold = true;
        let mut i: usize = 0;
        while i < self.constraints.len()
            invariant
                i <= self.constraints@.len(),
                n == self.batch_size,
                ns == self.instance_points@.len() as nat,
                cs == bcons_view(self.constraints@, ns),
                resps == Seq::new(n as nat, |m: int| scalar_resid(proofs@[m].responses@)),
                tvalss == Seq::new(n as nat, |m: int| point_resid(proofs@[m].commitments@)),
                pvalss == Seq::new(
                    n as nat,
                    |m: int| combined_pvals(self.static_points@, self.instance_points@, m),
                ),
                alpha_resid == scalar_resid(alphas@),
                points_wf(self.static_points@),
                self.static_labels@.len() == self.static_points@.len(),
                self.instance_labels@.len() == self.instance_points@.len(),
                cons_wf(cs, self.num_scalars as nat, ns + self.static_points@.len()),
                self.static_points@.len() + self.instance_points@.len() <= usize::MAX,
                forall|m2: int|
                    0 <= m2 < self.constraints@.len() ==> bcon_ok(
                        #[trigger] self.constraints@[m2],
                        self.static_points@.len() as nat,
                        self.instance_points@.len() as nat,
                    ),
                proofs@.len() == n,
                forall|m: int| 0 <= m < proofs@.len() ==> (#[trigger] proofs@[m]).wf(),
                forall|m: int|
                    0 <= m < proofs@.len() ==> (#[trigger] proofs@[m]).responses@.len()
                        == self.num_scalars && proofs@[m].commitments@.len()
                        == self.constraints@.len(),
                tables@.len() == n,
                forall|m: int|
                    0 <= m < n ==> (#[trigger] tables@[m])@.len() == self.static_points@.len()
                        + self.instance_points@.len(),
                forall|m: int|
                    0 <= m < n ==> points_wf((#[trigger] tables@[m])@) && point_resid(tables@[m]@)
                        =~= pvalss[m],
                challenges@.len() == n,
                forall|m: int|
                    0 <= m < n ==> (#[trigger] challenges@[m]).wf() && challenges@[m].v@
                        == chals[m],
                alphas@.len() == n,
                forall|m: int|
                    0 <= m < n ==> (#[trigger] alphas@[m]).wf() && alphas@[m].v@ != 0,
                identity.d@ == 0,
                all_hold <==> (forall|m: int|
                    0 <= m < i ==> batch_sum(
                        #[trigger] cs[m],
                        resps,
                        Seq::new(n as nat, |q: int| tvalss[q][m]),
                        chals,
                        pvalss,
                        alpha_resid,
                        n as nat,
                    ) == 0),
            decreases self.constraints@.len() - i,
        {
            let ghost con = cs[i as int];
            let ghost tvals_i = Seq::new(n as nat, |q: int| tvalss[q][i as int]);
            proof {
                assert(cs[i as int] == bcon_view(self.constraints@[i as int], ns));
                assert(crate::toolbox::con_wf(
                    con,
                    self.num_scalars as nat,
                    ns + self.static_points@.len(),
                ));
            }
            // Translate the constraint onto the per-instance table layout.
            proof {
                assert(bcon_ok(
                    self.constraints@[i as int],
                    self.static_points@.len() as nat,
                    self.instance_points@.len() as nat,
                ));
            }
            let lhs_idx: usize = match self.constraints[i].0 {
                BatchPointVar::Instance(k) => k,
                BatchPointVar::Static(k) => self.instance_points.len() + k,
            };
            let mut rhs: Vec<(ScalarVar, PointVar)> = Vec::new();
            let mut k: usize = 0;
            while k < self.constraints[i].1.len()
                invariant
                    i < self.constraints@.len(),
                    ns == self.instance_points@.len() as nat,
                    cs == bcons_view(self.constraints@, ns),
                    con == cs[i as int],
                    cons_wf(cs, self.num_scalars as nat, ns + self.static_points@.len()),
                self.static_points@.len() + self.instance_points@.len() <= usize::MAX,
                forall|m2: int|
                    0 <= m2 < self.constraints@.len() ==> bcon_ok(
                        #[trigger] self.constraints@[m2],
                        self.static_points@.len() as nat,
                        self.instance_points@.len() as nat,
                    ),
                    self.static_points@.len() + self.instance_points@.len() <= usize::MAX,
                    forall|m2: int|
                        0 <= m2 < self.constraints@.len() ==> bcon_ok(
                            #[trigger] self.constraints@[m2],
                            self.static_points@.len() as nat,
                            self.instance_points@.len() as nat,
                        ),
                    k <= self.constraints@[i as int].1@.len(),
                    rhs@.len() == k,
                    forall|m: int|
                        0 <= m < k ==> ((#[trigger] rhs@[m]).0.0 as int, rhs@[m].1.0 as int)
                            == con.1[m],
                decreases self.constraints@[i as int].1@.len() - k,
            {
                proof {
                    assert(con == bcon_view(self.constraints@[i as int], ns));
                    assert(con.1[k as int] == (
                        self.constraints@[i as int].1@[k as int].0.0 as int,
                        bpv_index(self.constraints@[i as int].1@[k as int].1, ns),
                    ));
                    assert(crate::toolbox::con_wf(
                        con,
                        self.num_scalars as nat,
                        ns + self.static_points@.len(),
                    ));
                    assert(0 <= con.1[k as int].1 < ns + self.static_points@.len());
                }
                proof {
                    assert(bcon_ok(
                        self.constraints@[i as int],
                        self.static_points@.len() as nat,
                        self.instance_points@.len() as nat,
                    ));
                    assert(bpv_ok(
                        self.constraints@[i as int].1@[k as int].1,
                        self.static_points@.len() as nat,
                        self.instance_points@.len() as nat,
                    ));
                }
                let entry = self.constraints[i].1[k];
                let pt_idx: usize = match entry.1 {
                    BatchPointVar::Instance(m) => m,
                    BatchPointVar::Static(m) => self.instance_points.len() + m,
                };
                rhs.push((entry.0, PointVar(pt_idx)));
                k += 1;
            }
            proof {
                assert(rhs@.map_values(|t: (ScalarVar, PointVar)| (t.0.0 as int, t.1.0 as int))
                    =~= con.1);
            }
            // Aggregate the weighted defects over the instances.
            let mut acc = identity.dup();
            let mut q: usize = 0;
            while q < n
                invariant
                    q <= n,
                    i < self.constraints@.len(),
                    n == self.batch_size,
                    ns == self.instance_points@.len() as nat,
                    cs == bcons_view(self.constraints@, ns),
                    con == cs[i as int],
                    cons_wf(cs, self.num_scalars as nat, ns + self.static_points@.len()),
                self.static_points@.len() + self.instance_points@.len() <= usize::MAX,
                forall|m2: int|
                    0 <= m2 < self.constraints@.len() ==> bcon_ok(
                        #[trigger] self.constraints@[m2],
                        self.static_points@.len() as nat,
                        self.instance_points@.len() as nat,
                    ),
                    self.static_points@.len() + self.instance_points@.len() <= usize::MAX,
                    forall|m2: int|
                        0 <= m2 < self.constraints@.len() ==> bcon_ok(
                            #[trigger] self.constraints@[m2],
                            self.static_points@.len() as nat,
                            self.instance_points@.len() as nat,
                        ),
                    resps == Seq::new(n as nat, |m: int| scalar_resid(proofs@[m].responses@)),
                    tvalss == Seq::new(n as nat, |m: int| point_resid(proofs@[m].commitments@)),
                    pvalss == Seq::new(
                        n as nat,
                        |m: int| combined_pvals(self.static_points@, self.instance_points@, m),
                    ),
                    tvals_i == Seq::new(n as nat, |m: int| tvalss[m][i as int]),
                    alpha_resid == scalar_resid(alphas@),
                    proofs@.len() == n,
                    forall|m: int| 0 <= m < proofs@.len() ==> (#[trigger] proofs@[m]).wf(),
                    forall|m: int|
                        0 <= m < proofs@.len() ==> (#[trigger] proofs@[m]).responses@.len()
                            == self.num_scalars && proofs@[m].commitments@.len()
                            == self.constraints@.len(),
                    tables@.len() == n,
                    forall|m: int|
                        0 <= m < n ==> (#[trigger] tables@[m])@.len() == self.static_points@.len()
                            + self.instance_points@.len(),
                    forall|m: int|
                        0 <= m < n ==> points_wf((#[trigger] tables@[m])@) && point_resid(
                            tables@[m]@,
                        ) =~= pvalss[m],
                    challenges@.len() == n,
                    forall|m: int|
                        0 <= m < n ==> (#[trigger] challenges@[m]).wf() && challenges@[m].v@
                            == chals[m],
                    alphas@.len() == n,
                    forall|m: int|
                        0 <= m < n ==> (#[trigger] alphas@[m]).wf() && alphas@[m].v@ != 0,
                    rhs@.map_values(|t: (ScalarVar, PointVar)| (t.0.0 as int, t.1.0 as int))
                        =~= con.1,
                    lhs_idx as int == con.0,
                    acc.wf(),
                    acc.d@ == batch_sum(con, resps, tvals_i, chals, pvalss, alpha_resid, q as nat),
                decreases n - q,
            {
                proof {
                    assert(con.1 =~= rhs@.map_values(
                        |t: (ScalarVar, PointVar)| (t.0.0 as int, t.1.0 as int),
                    ));
                    assert(point_resid(tables@[q as int]@) =~= pvalss[q as int]);
                    assert(resps[q as int] == scalar_resid(proofs@[q as int].responses@));
                    assert(proofs@[q as int].responses@.len() == self.num_scalars);
                    assert(crate::toolbox::con_wf(
                        con,
                        self.num_scalars as nat,
                        ns + self.static_points@.len(),
                    ));
                }
                let combined = lc_combine(&rhs, &proofs[q].responses, &tables[q]);
                let expected = proofs[q].commitments[i].add(
                    &tables[q][lhs_idx].mul(&challenges[q]),
                );
                let defect = combined.sub(&expected);
                let weighted = defect.mul(&alphas[q]);
                let next = acc.add(&weighted);
                proof {
                    assert(tvals_i[q as int] == proofs@[q as int].commitments@[i as int].d@);
                    assert(tables@[q as int]@[lhs_idx as int].d@ == pvalss[q as int][con.0]);
                    assert(weighted.d@ == batch_term(
                        con,
                        resps[q as int],
                        tvals_i[q as int],
                        chals[q as int],
                        pvalss[q as int],
                        alpha_resid[q as int],
                    ));
                }
                acc = next;
                q += 1;
            }
            let holds = acc.equals(&identity);
            all_hold = all_hold && holds;
            i += 1;
        }
        let result: Result<(), ProofError> = if all_hold {
            Ok(())
        } else {
            Err(ProofError::VerificationFailure)
        };
        proof {
            assert(alpha_resid.len() == n as nat);
            assert(all_reduced(alpha_resid));
            assert(forall|m: int| 0 <= m < n ==> alpha_resid[m] != 0);
            assert(cs.subrange(0, self.constraints@.len() as int) =~= cs);
        }
        result
    }
}

impl SchnorrCS for BatchVerifier {
    type ScalarVar = ScalarVar;

    type PointVar = BatchPointVar;

    open spec fn constrain_pre(
        &self,
        lhs: BatchPointVar,
        linear_combination: Seq<(ScalarVar, BatchPointVar)>,
    ) -> bool {
        self.wf() && self.constraint_ok(lhs, linear_combination)
    }

    fn constrain(&mut self, lhs: BatchPointVar, linear_combination: Vec<(ScalarVar, BatchPointVar)>) {
        self.add_constraint(lhs, linear_combination);
    }
}

} // verus!
