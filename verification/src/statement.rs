//! The statement builder: a declarative statement description compiled at
//! run time into proving and verifying drivers.
//!
//! A [`Statement`] names its secret scalars, its per-instance public points,
//! its shared public points, and its equations.  The drivers allocate the
//! variables in declaration order — secrets, then instance points, then
//! static points — replay the equations, and delegate to the prover or a
//! verifier, so both sides of the protocol always agree on the transcript.

use vstd::prelude::*;

use crate::algebra::all_reduced;
use crate::codec::{BatchableProof, CompactProof};
use crate::errors::ProofError;
use crate::point::{point_enc, PointElem};
use crate::scalar::ScalarElem;
use crate::toolbox::batch_verifier::{BatchPointVar, BatchVerifier};
use crate::toolbox::prover::{PointVar, Prover, ScalarVar};
use crate::toolbox::single_verifier::Verifier;
use crate::toolbox::{
    commit_log, compact_prove_rel, batchable_prove_rel, con_view, cons_view, label_views,
    point_resid, points_wf, recomputed_commit_vals, scalar_resid, scalars_wf,
};
use crate::transcript::{
    absorbed, chal_bytes, challenge_val, squeezed, tag_chal, tag_proof_label, tag_ptvar,
    tag_scvar, LogEntry, ProofTranscript,
};

verus! {

/// A reference to a public point of a statement: either one with a value
/// per instance, or one shared by all instances.
#[derive(Clone, Copy)]
pub enum StmtPointRef {
    /// The `k`-th instance point.
    Instance(usize),
    /// The `k`-th static point.
    Static(usize),
}

/// The position of a statement point in the drivers' point table, which
/// lays out the instance points first and the static points after them.
pub open spec fn sref_index(r: StmtPointRef, n_instance: nat) -> int {
    match r {
        StmtPointRef::Instance(k) => k as int,
        StmtPointRef::Static(k) => n_instance + k,
    }
}

/// Whether a statement point reference indexes into its own table.
pub open spec fn sref_ok(r: StmtPointRef, n_instance: nat, n_static: nat) -> bool {
    match r {
        StmtPointRef::Instance(k) => k < n_instance,
        StmtPointRef::Static(k) => k < n_static,
    }
}

/// A declarative statement: named secrets, named public points, and the
/// equations `P = Σ s_i · Q_i` over them.
pub struct Statement {
    /// The domain-separation label of the statement's proofs.
    pub proof_label: Vec<u8>,
    /// The names of the secret scalars, in declaration order.
    pub secret_names: Vec<Vec<u8>>,
    /// The names of the per-instance public points, in declaration order.
    pub instance_point_names: Vec<Vec<u8>>,
    /// The names of the shared public points, in declaration order.
    pub static_point_names: Vec<Vec<u8>>,
    /// The equations: a left-hand point and its linear combination of
    /// `(secret index, point)` terms.
    pub equations: Vec<(StmtPointRef, Vec<(usize, StmtPointRef)>)>,
}

impl Statement {
    /// The model of the equations over the drivers' point-table layout.
    pub open spec fn cons_model(self) -> Seq<(int, Seq<(int, int)>)> {
        let ni = self.instance_point_names@.len() as nat;
        self.equations@.map_values(
            |eq: (StmtPointRef, Vec<(usize, StmtPointRef)>)|
                (
                    sref_index(eq.0, ni),
                    eq.1@.map_values(|t: (usize, StmtPointRef)| (t.0 as int, sref_index(t.1, ni))),
                ),
        )
    }

    /// The labels of the drivers' point table: the instance point names,
    /// then the static point names.
    pub open spec fn lbls_model(self) -> Seq<Seq<u8>> {
        label_views(self.instance_point_names@) + label_views(self.static_point_names@)
    }

    /// All declared variable names, across the three categories.
    pub open spec fn all_names(self) -> Seq<Seq<u8>> {
        label_views(self.secret_names@) + label_views(self.instance_point_names@) + label_views(
            self.static_point_names@,
        )
    }

    /// No two declared variables share a name, across the three categories.
    pub open spec fn distinct_names(self) -> bool {
        forall|i: int, j: int|
            0 <= i < j < self.all_names().len() ==> self.all_names()[i] != self.all_names()[j]
    }

    /// The statement is well formed: no two variables share a name, every
    /// equation's indices lie within the declared tables, and no right-hand
    /// side is empty.
    pub open spec fn wf(self) -> bool {
        let ns = self.secret_names@.len() as nat;
        let ni = self.instance_point_names@.len() as nat;
        let nst = self.static_point_names@.len() as nat;
        &&& ns + ni + nst <= usize::MAX
        &&& self.distinct_names()
        &&& forall|i: int|
            0 <= i < self.equations@.len() ==> {
                let eq = #[trigger] self.equations@[i];
                &&& sref_ok(eq.0, ni, nst)
                &&& eq.1@.len() > 0
                &&& forall|m: int|
                    0 <= m < eq.1@.len() ==> (#[trigger] eq.1@[m]).0 < ns && sref_ok(
                        eq.1@[m].1,
                        ni,
                        nst,
                    )
            }
    }

    /// The transcript log after a driver has bound the statement label and
    /// allocated every variable: the label, the secret names, then each
    /// point's name and encoding, instance points before static points.
    pub open spec fn alloc_log(
        self,
        log0: Seq<LogEntry>,
        instance_dvals: Seq<nat>,
        static_dvals: Seq<nat>,
    ) -> Seq<LogEntry> {
        ptvar_log(
            ptvar_log(
                scvar_log(
                    log0.push(absorbed(tag_proof_label(), self.proof_label@)),
                    label_views(self.secret_names@),
                ),
                label_views(self.instance_point_names@),
                instance_dvals,
            ),
            label_views(self.static_point_names@),
            static_dvals,
        )
    }
}

impl Statement {
    /// The `i`-th declared name, across the three categories in order.
    fn name_at(&self, i: usize) -> (r: &Vec<u8>)
        requires
            self.secret_names@.len() + self.instance_point_names@.len()
                + self.static_point_names@.len() <= usize::MAX,
            i < self.all_names().len(),
        ensures
            r@ == self.all_names()[i as int],
    {
        let ns = self.secret_names.len();
        let ni = self.instance_point_names.len();
        if i < ns {
            &self.secret_names[i]
        } else if i < ns + ni {
            &self.instance_point_names[i - ns]
        } else {
            &self.static_point_names[i - ns - ni]
        }
    }

    /// Whether the declared names are collision-free: exactly the statements
    /// the drivers accept.  A declaration that reuses a name across the
    /// secret, instance and static categories is rejected here.
    pub fn names_distinct(&self) -> (r: bool)
        requires
            self.secret_names@.len() + self.instance_point_names@.len()
                + self.static_point_names@.len() <= usize::MAX,
        ensures
            r == self.distinct_names(),
    {
        let total = self.secret_names.len() + self.instance_point_names.len()
            + self.static_point_names.len();
        let mut i: usize = 0;
        while i < total
            invariant
                i <= total,
                total == self.all_names().len(),
                self.secret_names@.len() + self.instance_point_names@.len()
                    + self.static_point_names@.len() <= usize::MAX,
                forall|a: int, b: int|
                    0 <= a < b < total && a < i ==> self.all_names()[a] != self.all_names()[b],
            decreases total - i,
        {
            let mut j: usize = i + 1;
            while j < total
                invariant
                    i < j,
                    j <= total,
                    total == self.all_names().len(),
                    self.secret_names@.len() + self.instance_point_names@.len()
                        + self.static_point_names@.len() <= usize::MAX,
                    forall|b: int| i < b < j ==> self.all_names()[i as int] != self.all_names()[b],
                decreases total - j,
            {
                if crate::util::bytes_equal(self.name_at(i), self.name_at(j)) {
                    return false;
                }
                j += 1;
            }
            i += 1;
        }
        true
    }
}

/// The log after the given secret-variable names were bound in order.
pub open spec fn scvar_log(log0: Seq<LogEntry>, names: Seq<Seq<u8>>) -> Seq<LogEntry>
    decreases names.len(),
{
    if names.len() == 0 {
        log0
    } else {
        scvar_log(log0, names.drop_last()).push(absorbed(tag_scvar(), names.last()))
    }
}

/// The log after the given point variables were bound in order, each as
/// its name and then its encoding.
pub open spec fn ptvar_log(log0: Seq<LogEntry>, names: Seq<Seq<u8>>, dvals: Seq<nat>) -> Seq<
    LogEntry,
>
    decreases names.len(),
{
    if names.len() == 0 {
        log0
    } else {
        ptvar_log(log0, names.drop_last(), dvals.drop_last()).push(
            absorbed(tag_ptvar(), names.last()),
        ).push(absorbed(tag_ptvar(), point_enc(dvals.last())))
    }
}

impl Statement {
    /// Run the allocation phase of a prover: bind the label, the secret
    /// names and values, and all public points, then replay the equations.
    fn make_prover(
        &self,
        transcript: &mut ProofTranscript,
        scalars: &Vec<ScalarElem>,
        instance_points: &Vec<PointElem>,
        static_points: &Vec<PointElem>,
    ) -> (r: (Prover, Vec<PointElem>))
        requires
            self.wf(),
            scalars@.len() == self.secret_names@.len(),
            instance_points@.len() == self.instance_point_names@.len(),
            static_points@.len() == self.static_point_names@.len(),
            scalars_wf(scalars@),
            points_wf(instance_points@),
            points_wf(static_points@),
        ensures
            r.0.wf(),
            scalar_resid(r.0.scalars@) =~= scalar_resid(scalars@),
            point_resid(r.0.points@) =~= point_resid(instance_points@) + point_resid(
                static_points@,
            ),
            label_views(r.0.point_labels@) =~= self.lbls_model(),
            cons_view(r.0.constraints@) =~= self.cons_model(),
            point_resid(r.1@) =~= point_resid(instance_points@) + point_resid(static_points@),
            final(transcript).log@ =~= self.alloc_log(
                old(transcript).log@,
                point_resid(instance_points@),
                point_resid(static_points@),
            ),
    {
        let mut prover = Prover::new(self.proof_label.as_slice(), transcript);
        let ghost log_base = transcript.log@;

        let mut i: usize = 0;
        while i < scalars.len()
            invariant
                i <= scalars@.len(),
                self.wf(),
                scalars@.len() == self.secret_names@.len(),
                scalars_wf(scalars@),
                prover.wf(),
                prover.scalars@.len() == i,
                scalar_resid(prover.scalars@) =~= scalar_resid(scalars@).subrange(0, i as int),
                prover.points@.len() == 0,
                prover.point_labels@.len() == 0,
                prover.constraints@.len() == 0,
                transcript.log@ =~= scvar_log(
                    log_base,
                    label_views(self.secret_names@).subrange(0, i as int),
                ),
            decreases scalars@.len() - i,
        {
            prover.allocate_scalar(
                transcript,
                self.secret_names[i].as_slice(),
                scalars[i].dup(),
            );
            proof {
                let all = label_views(self.secret_names@);
                let cur = all.subrange(0, i as int + 1);
                assert(cur.drop_last() =~= all.subrange(0, i as int));
                assert(cur.last() == self.secret_names@[i as int]@);
                assert(scalar_resid(prover.scalars@) =~= scalar_resid(scalars@).subrange(
                    0,
                    i as int + 1,
                ));
            }
            i += 1;
        }
        proof {
            assert(label_views(self.secret_names@).subrange(
                0,
                self.secret_names@.len() as int,
            ) =~= label_views(self.secret_names@));
            assert(scalar_resid(scalars@).subrange(0, scalars@.len() as int) =~= scalar_resid(
                scalars@,
            ));
        }
        let ghost log_scv = transcript.log@;

        let mut echoes: Vec<PointElem> = Vec::new();
        let mut k: usize = 0;
        while k < instance_points.len()
            invariant
                k <= instance_points@.len(),
                self.wf(),
                instance_points@.len() == self.instance_point_names@.len(),
                points_wf(instance_points@),
                prover.wf(),
                scalar_resid(prover.scalars@) =~= scalar_resid(scalars@),
                prover.points@.len() == k,
                echoes@.len() == k,
                point_resid(echoes@) =~= point_resid(instance_points@).subrange(0, k as int),
                point_resid(prover.points@) =~= point_resid(instance_points@).subrange(
                    0,
                    k as int,
                ),
                label_views(prover.point_labels@) =~= label_views(
                    self.instance_point_names@,
                ).subrange(0, k as int),
                prover.constraints@.len() == 0,
                transcript.log@ =~= ptvar_log(
                    log_scv,
                    label_views(self.instance_point_names@).subrange(0, k as int),
                    point_resid(instance_points@).subrange(0, k as int),
                ),
            decreases instance_points@.len() - k,
        {
            let ghost pre_points = prover.points@;
            let ghost pre_echoes = echoes@;
            let (_, echo) = prover.allocate_point(
                transcript,
                self.instance_point_names[k].as_slice(),
                instance_points[k].dup(),
            );
            echoes.push(echo);
            proof {
                let all = label_views(self.instance_point_names@);
                let alld = point_resid(instance_points@);
                assert(point_resid(prover.points@) =~= point_resid(pre_points).push(
                    instance_points@[k as int].d@,
                ));
                assert(point_resid(echoes@) =~= point_resid(pre_echoes).push(
                    instance_points@[k as int].d@,
                ));
                assert(all.subrange(0, k as int + 1).drop_last() =~= all.subrange(0, k as int));
                assert(alld.subrange(0, k as int + 1).drop_last() =~= alld.subrange(0, k as int));
                assert(all.subrange(0, k as int + 1).last() == self.instance_point_names@[
                    k as int]@);
                assert(alld.subrange(0, k as int + 1).last() == instance_points@[k as int].d@);
                assert(point_resid(prover.points@) =~= alld.subrange(0, k as int + 1));
                assert(point_resid(echoes@) =~= alld.subrange(0, k as int + 1));
                assert(label_views(prover.point_labels@) =~= all.subrange(0, k as int + 1));
            }
            k += 1;
        }
        proof {
            let all = label_views(self.instance_point_names@);
            let alld = point_resid(instance_points@);
            assert(all.subrange(0, all.len() as int) =~= all);
            assert(alld.subrange(0, alld.len() as int) =~= alld);
        }
        let ghost log_inst = transcript.log@;

        let mut k: usize = 0;
        while k < static_points.len()
            invariant
                k <= static_points@.len(),
                self.wf(),
                static_points@.len() == self.static_point_names@.len(),
                points_wf(static_points@),
                prover.wf(),
                scalar_resid(prover.scalars@) =~= scalar_resid(scalars@),
                prover.points@.len() == instance_points@.len() + k,
                echoes@.len() == instance_points@.len() + k,
                point_resid(echoes@) =~= point_resid(instance_points@) + point_resid(
                    static_points@,
                ).subrange(0, k as int),
                point_resid(prover.points@) =~= point_resid(instance_points@) + point_resid(
                    static_points@,
                ).subrange(0, k as int),
                label_views(prover.point_labels@) =~= label_views(self.instance_point_names@)
                    + label_views(self.static_point_names@).subrange(0, k as int),
                prover.constraints@.len() == 0,
                transcript.log@ =~= ptvar_log(
                    log_inst,
                    label_views(self.static_point_names@).subrange(0, k as int),
                    point_resid(static_points@).subrange(0, k as int),
                ),
            decreases static_points@.len() - k,
        {
            let ghost pre_points = prover.points@;
            let ghost pre_echoes = echoes@;
            let (_, echo) = prover.allocate_point(
                transcript,
                self.static_point_names[k].as_slice(),
                static_points[k].dup(),
            );
            echoes.push(echo);
            proof {
                let all = label_views(self.static_point_names@);
                let alld = point_resid(static_points@);
                assert(point_resid(prover.points@) =~= point_resid(pre_points).push(
                    static_points@[k as int].d@,
                ));
                assert(point_resid(echoes@) =~= point_resid(pre_echoes).push(
                    static_points@[k as int].d@,
                ));
                assert(all.subrange(0, k as int + 1).drop_last() =~= all.subrange(0, k as int));
                assert(alld.subrange(0, k as int + 1).drop_last() =~= alld.subrange(0, k as int));
                assert(all.subrange(0, k as int + 1).last() == self.static_point_names@[
                    k as int]@);
                assert(alld.subrange(0, k as int + 1).last() == static_points@[k as int].d@);
                assert(point_resid(prover.points@) =~= point_resid(instance_points@)
                    + alld.subrange(0, k as int + 1));
                assert(point_resid(echoes@) =~= point_resid(instance_points@) + alld.subrange(
                    0,
                    k as int + 1,
                ));
                assert(label_views(prover.point_labels@) =~= label_views(
                    self.instance_point_names@,
                ) + all.subrange(0, k as int + 1));
            }
            k += 1;
        }
        proof {
            let all = label_views(self.static_point_names@);
            let alld = point_resid(static_points@);
            assert(all.subrange(0, all.len() as int) =~= all);
            assert(alld.subrange(0, alld.len() as int) =~= alld);
        }

        let mut e: usize = 0;
        while e < self.equations.len()
            invariant
                e <= self.equations@.len(),
                self.wf(),
                scalars@.len() == self.secret_names@.len(),
                instance_points@.len() == self.instance_point_names@.len(),
                static_points@.len() == self.static_point_names@.len(),
                prover.wf(),
                prover.scalars@.len() == scalars@.len(),
                scalar_resid(prover.scalars@) =~= scalar_resid(scalars@),
                prover.points@.len() == instance_points@.len() + static_points@.len(),
                point_resid(prover.points@) =~= point_resid(instance_points@) + point_resid(
                    static_points@,
                ),
                label_views(prover.point_labels@) =~= self.lbls_model(),
                echoes@.len() == instance_points@.len() + static_points@.len(),
                point_resid(echoes@) =~= point_resid(instance_points@) + point_resid(
                    static_points@,
                ),
                cons_view(prover.constraints@) =~= self.cons_model().subrange(0, e as int),
                log_base == old(transcript).log@.push(
                    absorbed(tag_proof_label(), self.proof_label@),
                ),
                transcript.log@ =~= self.alloc_log(
                    old(transcript).log@,
                    point_resid(instance_points@),
                    point_resid(static_points@),
                ),
            decreases self.equations@.len() - e,
        {
            let ghost ni = self.instance_point_names@.len() as nat;
            proof {
                assert(self.cons_model()[e as int] == (
                    sref_index(self.equations@[e as int].0, ni),
                    self.equations@[e as int].1@.map_values(
                        |t: (usize, StmtPointRef)| (t.0 as int, sref_index(t.1, ni)),
                    ),
                ));
            }
            let lhs_idx: usize = match self.equations[e].0 {
                StmtPointRef::Instance(k) => k,
                StmtPointRef::Static(k) => self.instance_point_names.len() + k,
            };
            let mut rhs: Vec<(ScalarVar, PointVar)> = Vec::new();
            let mut m: usize = 0;
            while m < self.equations[e].1.len()
                invariant
                    e < self.equations@.len(),
                    self.wf(),
                    ni == self.instance_point_names@.len() as nat,
                    self.instance_point_names@.len() + self.static_point_names@.len()
                        <= usize::MAX,
                    m <= self.equations@[e as int].1@.len(),
                    rhs@.len() == m,
                    forall|q: int|
                        0 <= q < m ==> ((#[trigger] rhs@[q]).0.0 as int, rhs@[q].1.0 as int)
                            == (
                            self.equations@[e as int].1@[q].0 as int,
                            sref_index(self.equations@[e as int].1@[q].1, ni),
                        ),
                decreases self.equations@[e as int].1@.len() - m,
            {
                let term = self.equations[e].1[m];
                let pt_idx: usize = match term.1 {
                    StmtPointRef::Instance(k) => k,
                    StmtPointRef::Static(k) => self.instance_point_names.len() + k,
                };
                rhs.push((ScalarVar(term.0), PointVar(pt_idx)));
                m += 1;
            }
            proof {
                assert(rhs@.map_values(|t: (ScalarVar, PointVar)| (t.0.0 as int, t.1.0 as int))
                    =~= self.cons_model()[e as int].1);
            }
            let ghost pre_cons = prover.constraints@;
            prover.add_constraint(PointVar(lhs_idx), rhs);
            proof {
                assert(cons_view(prover.constraints@) =~= cons_view(pre_cons).push(
                    con_view(prover.constraints@.last()),
                ));
                assert(self.cons_model().subrange(0, e as int + 1).drop_last()
                    =~= self.cons_model().subrange(0, e as int));
                assert(cons_view(prover.constraints@) =~= self.cons_model().subrange(
                    0,
                    e as int + 1,
                ));
            }
            e += 1;
        }
        proof {
            assert(self.cons_model().subrange(0, self.equations@.len() as int)
                =~= self.cons_model());
        }
        (prover, echoes)
    }

    /// Prove the statement in the compact encoding; echoes the allocated
    /// public points back beside the proof.
    pub fn prove_compact(
        &self,
        transcript: &mut ProofTranscript,
        scalars: &Vec<ScalarElem>,
        instance_points: &Vec<PointElem>,
        static_points: &Vec<PointElem>,
    ) -> (r: (CompactProof, Vec<PointElem>))
        requires
            self.wf(),
            scalars@.len() == self.secret_names@.len(),
            instance_points@.len() == self.instance_point_names@.len(),
            static_points@.len() == self.static_point_names@.len(),
            scalars_wf(scalars@),
            points_wf(instance_points@),
            points_wf(static_points@),
        ensures
            r.0.wf(),
            r.0.responses@.len() == scalars@.len(),
            point_resid(r.1@) =~= point_resid(instance_points@) + point_resid(static_points@),
            exists|bs: Seq<nat>|
                all_reduced(bs) && compact_prove_rel(
                    self.cons_model(),
                    self.lbls_model(),
                    scalar_resid(scalars@),
                    point_resid(instance_points@) + point_resid(static_points@),
                    self.alloc_log(
                        old(transcript).log@,
                        point_resid(instance_points@),
                        point_resid(static_points@),
                    ),
                    bs,
                    r.0.challenge.v@,
                    scalar_resid(r.0.responses@),
                    final(transcript).log@,
                ),
    {
        let (prover, echoes) = self.make_prover(
            transcript,
            scalars,
            instance_points,
            static_points,
        );
        let proof = prover.prove_compact(transcript);
        (proof, echoes)
    }

    /// Prove the statement in the batchable encoding; echoes the allocated
    /// public points back beside the proof.
    pub fn prove_batchable(
        &self,
        transcript: &mut ProofTranscript,
        scalars: &Vec<ScalarElem>,
        instance_points: &Vec<PointElem>,
        static_points: &Vec<PointElem>,
    ) -> (r: (BatchableProof, Vec<PointElem>))
        requires
            self.wf(),
            scalars@.len() == self.secret_names@.len(),
            instance_points@.len() == self.instance_point_names@.len(),
            static_points@.len() == self.static_point_names@.len(),
            scalars_wf(scalars@),
            points_wf(instance_points@),
            points_wf(static_points@),
        ensures
            r.0.wf(),
            r.0.responses@.len() == scalars@.len(),
            r.0.commitments@.len() == self.equations@.len(),
            point_resid(r.1@) =~= point_resid(instance_points@) + point_resid(static_points@),
            exists|bs: Seq<nat>|
                all_reduced(bs) && batchable_prove_rel(
                    self.cons_model(),
                    self.lbls_model(),
                    scalar_resid(scalars@),
                    point_resid(instance_points@) + point_resid(static_points@),
                    self.alloc_log(
                        old(transcript).log@,
                        point_resid(instance_points@),
                        point_resid(static_points@),
                    ),
                    bs,
                    point_resid(r.0.commitments@),
                    scalar_resid(r.0.responses@),
                    final(transcript).log@,
                ),
    {
        let (prover, echoes) = self.make_prover(
            transcript,
            scalars,
            instance_points,
            static_points,
        );
        let proof = prover.prove_batchable(transcript);
        (proof, echoes)
    }
}

impl Statement {
    /// Run the allocation phase of a verifier: bind the label, the secret
    /// names and all public points, then replay the equations.
    fn make_verifier(
        &self,
        transcript: &mut ProofTranscript,
        instance_points: &Vec<PointElem>,
        static_points: &Vec<PointElem>,
    ) -> (r: Verifier)
        requires
            self.wf(),
            instance_points@.len() == self.instance_point_names@.len(),
            static_points@.len() == self.static_point_names@.len(),
            points_wf(instance_points@),
            points_wf(static_points@),
        ensures
            r.wf(),
            r.num_scalars == self.secret_names@.len(),
            point_resid(r.points@) =~= point_resid(instance_points@) + point_resid(
                static_points@,
            ),
            label_views(r.point_labels@) =~= self.lbls_model(),
            cons_view(r.constraints@) =~= self.cons_model(),
            final(transcript).log@ =~= self.alloc_log(
                old(transcript).log@,
                point_resid(instance_points@),
                point_resid(static_points@),
            ),
    {
        let mut verifier = Verifier::new(self.proof_label.as_slice(), transcript);
        let ghost log_base = transcript.log@;

        let mut i: usize = 0;
        while i < self.secret_names.len()
            invariant
                i <= self.secret_names@.len(),
                self.wf(),
                verifier.wf(),
                verifier.num_scalars == i,
                verifier.points@.len() == 0,
                verifier.point_labels@.len() == 0,
                verifier.constraints@.len() == 0,
                transcript.log@ =~= scvar_log(
                    log_base,
                    label_views(self.secret_names@).subrange(0, i as int),
                ),
            decreases self.secret_names@.len() - i,
        {
            verifier.allocate_scalar(transcript, self.secret_names[i].as_slice());
            proof {
                let all = label_views(self.secret_names@);
                let cur = all.subrange(0, i as int + 1);
                assert(cur.drop_last() =~= all.subrange(0, i as int));
                assert(cur.last() == self.secret_names@[i as int]@);
            }
            i += 1;
        }
        proof {
            assert(label_views(self.secret_names@).subrange(
                0,
                self.secret_names@.len() as int,
            ) =~= label_views(self.secret_names@));
        }
        let ghost log_scv = transcript.log@;

        let mut k: usize = 0;
        while k < instance_points.len()
            invariant
                k <= instance_points@.len(),
                self.wf(),
                instance_points@.len() == self.instance_point_names@.len(),
                points_wf(instance_points@),
                verifier.wf(),
                verifier.num_scalars == self.secret_names@.len(),
                verifier.points@.len() == k,
                point_resid(verifier.points@) =~= point_resid(instance_points@).subrange(
                    0,
                    k as int,
                ),
                label_views(verifier.point_labels@) =~= label_views(
                    self.instance_point_names@,
                ).subrange(0, k as int),
                verifier.constraints@.len() == 0,
                transcript.log@ =~= ptvar_log(
                    log_scv,
                    label_views(self.instance_point_names@).subrange(0, k as int),
                    point_resid(instance_points@).subrange(0, k as int),
                ),
            decreases instance_points@.len() - k,
        {
            let ghost pre_points = verifier.points@;
            let _ = verifier.allocate_point(
                transcript,
                self.instance_point_names[k].as_slice(),
                instance_points[k].dup(),
            );
            proof {
                let all = label_views(self.instance_point_names@);
                let alld = point_resid(instance_points@);
                assert(point_resid(verifier.points@) =~= point_resid(pre_points).push(
                    instance_points@[k as int].d@,
                ));
                assert(all.subrange(0, k as int + 1).drop_last() =~= all.subrange(0, k as int));
                assert(alld.subrange(0, k as int + 1).drop_last() =~= alld.subrange(0, k as int));
                assert(all.subrange(0, k as int + 1).last() == self.instance_point_names@[
                    k as int]@);
                assert(alld.subrange(0, k as int + 1).last() == instance_points@[k as int].d@);
                assert(point_resid(verifier.points@) =~= alld.subrange(0, k as int + 1));
                assert(label_views(verifier.point_labels@) =~= all.subrange(0, k as int + 1));
            }
            k += 1;
        }
        proof {
            let all = label_views(self.instance_point_names@);
            let alld = point_resid(instance_points@);
            assert(all.subrange(0, all.len() as int) =~= all);
            assert(alld.subrange(0, alld.len() as int) =~= alld);
        }
        let ghost log_inst = transcript.log@;

        let mut k: usize = 0;
        while k < static_points.len()
            invariant
                k <= static_points@.len(),
                self.wf(),
                static_points@.len() == self.static_point_names@.len(),
                points_wf(static_points@),
                verifier.wf(),
                verifier.num_scalars == self.secret_names@.len(),
                verifier.points@.len() == instance_points@.len() + k,
                point_resid(verifier.points@) =~= point_resid(instance_points@) + point_resid(
                    static_points@,
                ).subrange(0, k as int),
                label_views(verifier.point_labels@) =~= label_views(self.instance_point_names@)
                    + label_views(self.static_point_names@).subrange(0, k as int),
                verifier.constraints@.len() == 0,
                transcript.log@ =~= ptvar_log(
                    log_inst,
                    label_views(self.static_point_names@).subrange(0, k as int),
                    point_resid(static_points@).subrange(0, k as int),
                ),
            decreases static_points@.len() - k,
        {
            let ghost pre_points = verifier.points@;
            let _ = verifier.allocate_point(
                transcript,
                self.static_point_names[k].as_slice(),
                static_points[k].dup(),
            );
            proof {
                let all = label_views(self.static_point_names@);
                let alld = point_resid(static_points@);
                assert(point_resid(verifier.points@) =~= point_resid(pre_points).push(
                    static_points@[k as int].d@,
                ));
                assert(all.subrange(0, k as int + 1).drop_last() =~= all.subrange(0, k as int));
                assert(alld.subrange(0, k as int + 1).drop_last() =~= alld.subrange(0, k as int));
                assert(all.subrange(0, k as int + 1).last() == self.static_point_names@[
                    k as int]@);
                assert(alld.subrange(0, k as int + 1).last() == static_points@[k as int].d@);
                assert(point_resid(verifier.points@) =~= point_resid(instance_points@)
                    + alld.subrange(0, k as int + 1));
                assert(label_views(verifier.point_labels@) =~= label_views(
                    self.instance_point_names@,
                ) + all.subrange(0, k as int + 1));
            }
            k += 1;
        }
        proof {
            let all = label_views(self.static_point_names@);
            let alld = point_resid(static_points@);
            assert(all.subrange(0, all.len() as int) =~= all);
            assert(alld.subrange(0, alld.len() as int) =~= alld);
        }

        let mut e: usize = 0;
        while e < self.equations.len()
            invariant
                e <= self.equations@.len(),
                self.wf(),
                instance_points@.len() == self.instance_point_names@.len(),
                static_points@.len() == self.static_point_names@.len(),
                verifier.wf(),
                verifier.num_scalars == self.secret_names@.len(),
                verifier.points@.len() == instance_points@.len() + static_points@.len(),
                point_resid(verifier.points@) =~= point_resid(instance_points@) + point_resid(
                    static_points@,
                ),
                label_views(verifier.point_labels@) =~= self.lbls_model(),
                cons_view(verifier.constraints@) =~= self.cons_model().subrange(0, e as int),
                log_base == old(transcript).log@.push(
                    absorbed(tag_proof_label(), self.proof_label@),
                ),
                transcript.log@ =~= self.alloc_log(
                    old(transcript).log@,
                    point_resid(instance_points@),
                    point_resid(static_points@),
                ),
            decreases self.equations@.len() - e,
        {
            let ghost ni = self.instance_point_names@.len() as nat;
            proof {
                assert(self.cons_model()[e as int] == (
                    sref_index(self.equations@[e as int].0, ni),
                    self.equations@[e as int].1@.map_values(
                        |t: (usize, StmtPointRef)| (t.0 as int, sref_index(t.1, ni)),
                    ),
                ));
            }
            let lhs_idx: usize = match self.equations[e].0 {
                StmtPointRef::Instance(k) => k,
                StmtPointRef::Static(k) => self.instance_point_names.len() + k,
            };
            let mut rhs: Vec<(ScalarVar, PointVar)> = Vec::new();
            let mut m: usize = 0;
            while m < self.equations[e].1.len()
                invariant
                    e < self.equations@.len(),
                    self.wf(),
                    ni == self.instance_point_names@.len() as nat,
                    self.instance_point_names@.len() + self.static_point_names@.len()
                        <= usize::MAX,
                    m <= self.equations@[e as int].1@.len(),
                    rhs@.len() == m,
                    forall|q: int|
                        0 <= q < m ==> ((#[trigger] rhs@[q]).0.0 as int, rhs@[q].1.0 as int)
                            == (
                            self.equations@[e as int].1@[q].0 as int,
                            sref_index(self.equations@[e as int].1@[q].1, ni),
                        ),
                decreases self.equations@[e as int].1@.len() - m,
            {
                let term = self.equations[e].1[m];
                let pt_idx: usize = match term.1 {
                    StmtPointRef::Instance(k) => k,
                    StmtPointRef::Static(k) => self.instance_point_names.len() + k,
                };
                rhs.push((ScalarVar(term.0), PointVar(pt_idx)));
                m += 1;
            }
            proof {
                assert(rhs@.map_values(|t: (ScalarVar, PointVar)| (t.0.0 as int, t.1.0 as int))
                    =~= self.cons_model()[e as int].1);
            }
            let ghost pre_cons = verifier.constraints@;
            verifier.add_constraint(PointVar(lhs_idx), rhs);
            proof {
                assert(cons_view(verifier.constraints@) =~= cons_view(pre_cons).push(
                    con_view(verifier.constraints@.last()),
                ));
                assert(self.cons_model().subrange(0, e as int + 1).drop_last()
                    =~= self.cons_model().subrange(0, e as int));
                assert(cons_view(verifier.constraints@) =~= self.cons_model().subrange(
                    0,
                    e as int + 1,
                ));
            }
            e += 1;
        }
        proof {
            assert(self.cons_model().subrange(0, self.equations@.len() as int)
                =~= self.cons_model());
        }
        verifier
    }

    /// Verify a compact proof of the statement.  Accepts exactly when the
    /// proof has the right arity and the challenge recomputed over the
    /// statement's transcript matches the stored one.
    pub fn verify_compact(
        &self,
        proof: &CompactProof,
        transcript: &mut ProofTranscript,
        instance_points: &Vec<PointElem>,
        static_points: &Vec<PointElem>,
    ) -> (r: Result<(), ProofError>)
        requires
            self.wf(),
            proof.wf(),
            instance_points@.len() == self.instance_point_names@.len(),
            static_points@.len() == self.static_point_names@.len(),
            points_wf(instance_points@),
            points_wf(static_points@),
        ensures
            ({
                let cs = self.cons_model();
                let lbls = self.lbls_model();
                let pvals = point_resid(instance_points@) + point_resid(static_points@);
                let resp = scalar_resid(proof.responses@);
                let log0 = self.alloc_log(
                    old(transcript).log@,
                    point_resid(instance_points@),
                    point_resid(static_points@),
                );
                let tvals = recomputed_commit_vals(cs, resp, proof.challenge.v@, pvals);
                let log1 = commit_log(log0, cs, lbls, tvals);
                if proof.responses@.len() != self.secret_names@.len() {
                    r == Err::<(), ProofError>(ProofError::VerificationFailure)
                } else {
                    &&& (r is Ok <==> challenge_val(log1) == proof.challenge.v@)
                    &&& (r is Err ==> r == Err::<(), ProofError>(
                        ProofError::VerificationFailure,
                    ))
                    &&& final(transcript).log@ =~= log1.push(
                        squeezed(tag_chal(), chal_bytes(log1, tag_chal(), 64)),
                    )
                }
            }),
    {
        let verifier = self.make_verifier(transcript, instance_points, static_points);
        verifier.verify_compact(transcript, proof)
    }

    /// Verify a batchable proof of the statement.  Accepts exactly when the
    /// proof has the right arity and every constraint's group equation
    /// holds for the recomputed challenge.
    pub fn verify_batchable(
        &self,
        proof: &BatchableProof,
        transcript: &mut ProofTranscript,
        instance_points: &Vec<PointElem>,
        static_points: &Vec<PointElem>,
    ) -> (r: Result<(), ProofError>)
        requires
            self.wf(),
            proof.wf(),
            instance_points@.len() == self.instance_point_names@.len(),
            static_points@.len() == self.static_point_names@.len(),
            points_wf(instance_points@),
            points_wf(static_points@),
        ensures
            ({
                let cs = self.cons_model();
                let lbls = self.lbls_model();
                let pvals = point_resid(instance_points@) + point_resid(static_points@);
                let resp = scalar_resid(proof.responses@);
                let tvals = point_resid(proof.commitments@);
                let log0 = self.alloc_log(
                    old(transcript).log@,
                    point_resid(instance_points@),
                    point_resid(static_points@),
                );
                let log1 = commit_log(log0, cs, lbls, tvals);
                if proof.responses@.len() != self.secret_names@.len() || proof.commitments@.len()
                    != self.equations@.len() {
                    r == Err::<(), ProofError>(ProofError::VerificationFailure)
                } else {
                    &&& (r is Ok <==> (forall|i: int|
                        0 <= i < cs.len() ==> crate::algebra::lc_val(
                            #[trigger] cs[i].1,
                            resp,
                            pvals,
                        ) == crate::algebra::add_mod(
                            tvals[i],
                            crate::algebra::mul_mod(challenge_val(log1), pvals[cs[i].0]),
                        )))
                    &&& (r is Err ==> r == Err::<(), ProofError>(
                        ProofError::VerificationFailure,
                    ))
                    &&& final(transcript).log@ =~= log1.push(
                        squeezed(tag_chal(), chal_bytes(log1, tag_chal(), 64)),
                    )
                }
            }),
    {
        let verifier = self.make_verifier(transcript, instance_points, static_points);
        verifier.verify_batchable(transcript, proof)
    }

    /// Verify a batch of batchable proofs of the statement, one transcript
    /// per instance.  Instance-point vectors must have one value per
    /// instance; otherwise the batch is rejected with a length mismatch.
    /// The per-instance values of each instance point, for instance `j`.
    pub open spec fn instance_dvals(assignments: Seq<Vec<PointElem>>, j: int) -> Seq<nat> {
        assignments.map_values(|v: Vec<PointElem>| v@[j].d@)
    }

    /// Whether every proof of the batch has one response per secret and one
    /// commitment per equation of this statement.
    pub open spec fn batch_arity_ok(self, proofs: Seq<BatchableProof>) -> bool {
        forall|j: int|
            0 <= j < proofs.len() ==> (#[trigger] proofs[j]).responses@.len()
                == self.secret_names@.len() && proofs[j].commitments@.len()
                == self.equations@.len()
    }

    /// Verify a batch of batchable proofs of the statement, one transcript
    /// per instance.  Instance-point vectors must have one value per
    /// instance; otherwise the batch is rejected with a length mismatch.
    /// For the non-zero random weights drawn, the batch is accepted exactly
    /// when every equation's weighted aggregate of per-instance defects
    /// sums to the identity.
    pub fn batch_verify(
        &self,
        proofs: &Vec<BatchableProof>,
        transcripts: Vec<ProofTranscript>,
        instance_assignments: Vec<Vec<PointElem>>,
        static_points: &Vec<PointElem>,
    ) -> (r: Result<(), ProofError>)
        requires
            self.wf(),
            forall|j: int| 0 <= j < proofs@.len() ==> (#[trigger] proofs@[j]).wf(),
            instance_assignments@.len() == self.instance_point_names@.len(),
            forall|k: int|
                0 <= k < instance_assignments@.len() ==> points_wf(
                    (#[trigger] instance_assignments@[k])@,
                ),
            static_points@.len() == self.static_point_names@.len(),
            points_wf(static_points@),
        ensures
            ({
                let n = transcripts@.len();
                let mismatch = proofs@.len() != n || exists|k: int|
                    0 <= k < instance_assignments@.len()
                        && (#[trigger] instance_assignments@[k])@.len() != n;
                let cs = self.cons_model();
                let lbls = self.lbls_model();
                let sdvals = point_resid(static_points@);
                let resps = Seq::new(n as nat, |j: int| scalar_resid(proofs@[j].responses@));
                let tvalss = Seq::new(n as nat, |j: int| point_resid(proofs@[j].commitments@));
                let pvalss = Seq::new(
                    n as nat,
                    |j: int| Statement::instance_dvals(instance_assignments@, j) + sdvals,
                );
                let chals = Seq::new(
                    n as nat,
                    |j: int|
                        challenge_val(
                            commit_log(
                                self.alloc_log(
                                    transcripts@[j].log@,
                                    Statement::instance_dvals(instance_assignments@, j),
                                    sdvals,
                                ),
                                cs,
                                lbls,
                                tvalss[j],
                            ),
                        ),
                );
                &&& (r == Err::<(), ProofError>(ProofError::LengthMismatch) <==> mismatch)
                &&& (r is Err ==> r == Err::<(), ProofError>(ProofError::LengthMismatch) || r
                    == Err::<(), ProofError>(ProofError::VerificationFailure))
                &&& (!mismatch && !self.batch_arity_ok(proofs@) ==> r == Err::<(), ProofError>(
                    ProofError::VerificationFailure,
                ))
                &&& (!mismatch && self.batch_arity_ok(proofs@) ==> exists|alphas: Seq<nat>|
                    {
                        &&& alphas.len() == n
                        &&& all_reduced(alphas)
                        &&& (forall|j: int| 0 <= j < n ==> alphas[j] != 0)
                        &&& (r is Ok <==> (forall|i: int|
                            0 <= i < cs.len()
                                ==> crate::toolbox::batch_verifier::batch_sum(
                                #[trigger] cs[i],
                                resps,
                                Seq::new(n as nat, |j: int| tvalss[j][i]),
                                chals,
                                pvalss,
                                alphas,
                                n as nat,
                            ) == 0))
                    })
            }),
    {
        let ghost orig_t = transcripts@;
        let ghost sdvals = point_resid(static_points@);
        let n = transcripts.len();
        let mut bv = match BatchVerifier::new(self.proof_label.as_slice(), n, transcripts) {
            Ok(bv) => bv,
            Err(_) => {
                return Err(ProofError::LengthMismatch);
            },
        };

        let mut i: usize = 0;
        while i < self.secret_names.len()
            invariant
                i <= self.secret_names@.len(),
                self.wf(),
                bv.wf(),
                bv.num_scalars == i,
                n == orig_t.len(),
                orig_t == transcripts@,
                bv.batch_size == n,
                bv.static_points@.len() == 0,
                bv.instance_points@.len() == 0,
                bv.static_labels@.len() == 0,
                bv.instance_labels@.len() == 0,
                bv.constraints@.len() == 0,
                bv.transcripts@.len() == n,
                forall|j: int|
                    0 <= j < n ==> (#[trigger] bv.transcripts@[j]).log@ =~= scvar_log(
                        orig_t[j].log@.push(absorbed(tag_proof_label(), self.proof_label@)),
                        label_views(self.secret_names@).subrange(0, i as int),
                    ),
            decreases self.secret_names@.len() - i,
        {
            let ghost pre = bv.transcripts@;
            bv.allocate_scalar(self.secret_names[i].as_slice());
            proof {
                let all = label_views(self.secret_names@);
                assert(all.subrange(0, i as int + 1).drop_last() =~= all.subrange(0, i as int));
                assert(all.subrange(0, i as int + 1).last() == self.secret_names@[i as int]@);
                assert forall|j: int| 0 <= j < n implies (#[trigger] bv.transcripts@[j]).log@
                    =~= scvar_log(
                    orig_t[j].log@.push(absorbed(tag_proof_label(), self.proof_label@)),
                    all.subrange(0, i as int + 1),
                ) by {
                    assert(bv.transcripts@[j].log@ =~= pre[j].log@.push(
                        absorbed(tag_scvar(), self.secret_names@[i as int]@),
                    ));
                }
            }
            i += 1;
        }
        proof {
            assert(label_views(self.secret_names@).subrange(
                0,
                self.secret_names@.len() as int,
            ) =~= label_views(self.secret_names@));
        }
        let ghost scv_logs = bv.transcripts@;

        let ghost orig_assignments = instance_assignments@;
        let mut rest = instance_assignments;
        let mut k: usize = 0;
        while rest.len() > 0
            invariant
                self.wf(),
                orig_assignments == instance_assignments@,
                n == orig_t.len(),
                orig_t == transcripts@,
                orig_assignments.len() == self.instance_point_names@.len(),
                k + rest@.len() == self.instance_point_names@.len(),
                forall|m: int| 0 <= m < rest@.len() ==> rest@[m] == orig_assignments[k + m],
                forall|m: int|
                    0 <= m < orig_assignments.len() ==> points_wf(
                        (#[trigger] orig_assignments[m])@,
                    ),
                forall|m: int| 0 <= m < k ==> (#[trigger] orig_assignments[m])@.len() == n,
                bv.wf(),
                bv.num_scalars == self.secret_names@.len(),
                bv.batch_size == n,
                bv.static_points@.len() == 0,
                bv.static_labels@.len() == 0,
                bv.instance_points@.len() == k,
                bv.instance_points@ =~= orig_assignments.subrange(0, k as int),
                label_views(bv.instance_labels@) =~= label_views(
                    self.instance_point_names@,
                ).subrange(0, k as int),
                bv.constraints@.len() == 0,
                scv_logs.len() == n,
                bv.transcripts@.len() == n,
                forall|j: int|
                    0 <= j < n ==> (#[trigger] bv.transcripts@[j]).log@ =~= ptvar_log(
                        scv_logs[j].log@,
                        label_views(self.instance_point_names@).subrange(0, k as int),
                        Statement::instance_dvals(orig_assignments, j).subrange(0, k as int),
                    ),
            decreases rest@.len(),
        {
            let ghost pre = bv.transcripts@;
            let assignments = rest.remove(0);
            proof {
                assert(assignments == orig_assignments[k as int]);
            }
            match bv.allocate_instance_point(self.instance_point_names[k].as_slice(), assignments)
            {
                Ok(_) => {},
                Err(_) => {
                    proof {
                        assert(0 <= k < instance_assignments@.len() && (
                        instance_assignments@[k as int])@.len() != n);
                    }
                    return Err(ProofError::LengthMismatch);
                },
            }
            proof {
                let all = label_views(self.instance_point_names@);
                assert(all.subrange(0, k as int + 1).drop_last() =~= all.subrange(0, k as int));
                assert(all.subrange(0, k as int + 1).last() == self.instance_point_names@[
                    k as int]@);
                assert(bv.instance_points@ =~= orig_assignments.subrange(0, k as int + 1));
                assert(label_views(bv.instance_labels@) =~= all.subrange(0, k as int + 1));
                assert forall|j: int| 0 <= j < n implies (#[trigger] bv.transcripts@[j]).log@
                    =~= ptvar_log(
                    scv_logs[j].log@,
                    all.subrange(0, k as int + 1),
                    Statement::instance_dvals(orig_assignments, j).subrange(0, k as int + 1),
                ) by {
                    let dv = Statement::instance_dvals(orig_assignments, j);
                    assert(dv.subrange(0, k as int + 1).drop_last() =~= dv.subrange(0, k as int));
                    assert(dv.subrange(0, k as int + 1).last() == orig_assignments[k as int]@[
                        j].d@);
                    assert(bv.transcripts@[j].log@ =~= pre[j].log@.push(
                        absorbed(tag_ptvar(), self.instance_point_names@[k as int]@),
                    ).push(
                        absorbed(
                            tag_ptvar(),
                            crate::point::point_enc(orig_assignments[k as int]@[j].d@),
                        ),
                    ));
                }
            }
            k += 1;
        }
        proof {
            assert(forall|m: int|
                0 <= m < orig_assignments.len() ==> (#[trigger] orig_assignments[m])@.len() == n);
            let all = label_views(self.instance_point_names@);
            assert(all.subrange(0, all.len() as int) =~= all);
            assert(bv.instance_points@ =~= orig_assignments.subrange(
                0,
                orig_assignments.len() as int,
            ));
            assert(bv.instance_points@ =~= orig_assignments);
        }
        let ghost inst_logs = bv.transcripts@;

        let mut k: usize = 0;
        while k < static_points.len()
            invariant
                k <= static_points@.len(),
                self.wf(),
                static_points@.len() == self.static_point_names@.len(),
                points_wf(static_points@),
                sdvals == point_resid(static_points@),
                bv.wf(),
                n == orig_t.len(),
                orig_t == transcripts@,
                bv.num_scalars == self.secret_names@.len(),
                bv.batch_size == n,
                bv.static_points@.len() == k,
                point_resid(bv.static_points@) =~= sdvals.subrange(0, k as int),
                label_views(bv.static_labels@) =~= label_views(
                    self.static_point_names@,
                ).subrange(0, k as int),
                bv.instance_points@ == orig_assignments,
                label_views(bv.instance_labels@) =~= label_views(self.instance_point_names@),
                orig_assignments == instance_assignments@,
                orig_assignments.len() == self.instance_point_names@.len(),
                bv.constraints@.len() == 0,
                inst_logs.len() == n,
                bv.transcripts@.len() == n,
                forall|j: int|
                    0 <= j < n ==> (#[trigger] bv.transcripts@[j]).log@ =~= ptvar_log(
                        inst_logs[j].log@,
                        label_views(self.static_point_names@).subrange(0, k as int),
                        sdvals.subrange(0, k as int),
                    ),
            decreases static_points@.len() - k,
        {
            let ghost pre = bv.transcripts@;
            let ghost pre_statics = bv.static_points@;
            match bv.allocate_static_point(self.static_point_names[k].as_slice(), static_points[
                k].dup()) {
                Ok(_) => {},
                Err(_) => {
                    proof {
                        assert(false);
                    }
                    return Err(ProofError::LengthMismatch);
                },
            }
            proof {
                let all = label_views(self.static_point_names@);
                assert(all.subrange(0, k as int + 1).drop_last() =~= all.subrange(0, k as int));
                assert(all.subrange(0, k as int + 1).last() == self.static_point_names@[
                    k as int]@);
                assert(sdvals.subrange(0, k as int + 1).drop_last() =~= sdvals.subrange(
                    0,
                    k as int,
                ));
                assert(sdvals.subrange(0, k as int + 1).last() == static_points@[k as int].d@);
                assert(point_resid(bv.static_points@) =~= point_resid(pre_statics).push(
                    static_points@[k as int].d@,
                ));
                assert(point_resid(bv.static_points@) =~= sdvals.subrange(0, k as int + 1));
                assert(label_views(bv.static_labels@) =~= all.subrange(0, k as int + 1));
                assert forall|j: int| 0 <= j < n implies (#[trigger] bv.transcripts@[j]).log@
                    =~= ptvar_log(
                    inst_logs[j].log@,
                    all.subrange(0, k as int + 1),
                    sdvals.subrange(0, k as int + 1),
                ) by {
                    assert(bv.transcripts@[j].log@ =~= pre[j].log@.push(
                        absorbed(tag_ptvar(), self.static_point_names@[k as int]@),
                    ).push(
                        absorbed(
                            tag_ptvar(),
                            crate::point::point_enc(static_points@[k as int].d@),
                        ),
                    ));
                }
            }
            k += 1;
        }
        proof {
            let all = label_views(self.static_point_names@);
            assert(all.subrange(0, all.len() as int) =~= all);
            assert(sdvals.subrange(0, sdvals.len() as int) =~= sdvals);
        }
        let ghost full_logs = bv.transcripts@;

        let mut e: usize = 0;
        while e < self.equations.len()
            invariant
                e <= self.equations@.len(),
                self.wf(),
                bv.wf(),
                n == orig_t.len(),
                orig_t == transcripts@,
                bv.num_scalars == self.secret_names@.len(),
                bv.batch_size == n,
                point_resid(bv.static_points@) =~= sdvals,
                sdvals == point_resid(static_points@),
                label_views(bv.static_labels@) =~= label_views(self.static_point_names@),
                bv.static_points@.len() == self.static_point_names@.len(),
                bv.instance_points@ == orig_assignments,
                label_views(bv.instance_labels@) =~= label_views(self.instance_point_names@),
                orig_assignments == instance_assignments@,
                orig_assignments.len() == self.instance_point_names@.len(),
                bv.transcripts@ == full_logs,
                bv.constraints@.len() == e,
                crate::toolbox::batch_verifier::bcons_view(
                    bv.constraints@,
                    bv.instance_points@.len() as nat,
                ) =~= self.cons_model().subrange(0, e as int),
            decreases self.equations@.len() - e,
        {
            let ghost ni = self.instance_point_names@.len() as nat;
            proof {
                assert(self.cons_model()[e as int] == (
                    sref_index(self.equations@[e as int].0, ni),
                    self.equations@[e as int].1@.map_values(
                        |t: (usize, StmtPointRef)| (t.0 as int, sref_index(t.1, ni)),
                    ),
                ));
            }
            let lhs = match self.equations[e].0 {
                StmtPointRef::Instance(k) => BatchPointVar::Instance(k),
                StmtPointRef::Static(k) => BatchPointVar::Static(k),
            };
            let mut rhs: Vec<(ScalarVar, BatchPointVar)> = Vec::new();
            let mut m: usize = 0;
            while m < self.equations[e].1.len()
                invariant
                    e < self.equations@.len(),
                    self.wf(),
                    ni == self.instance_point_names@.len() as nat,
                    bv.wf(),
                    bv.num_scalars == self.secret_names@.len(),
                    bv.static_points@.len() == self.static_point_names@.len(),
                    bv.instance_points@.len() == self.instance_point_names@.len(),
                    m <= self.equations@[e as int].1@.len(),
                    rhs@.len() == m,
                    forall|q: int|
                        0 <= q < m ==> (#[trigger] rhs@[q]).0.0 < bv.num_scalars
                            && crate::toolbox::batch_verifier::bpv_ok(
                            rhs@[q].1,
                            bv.static_points@.len() as nat,
                            bv.instance_points@.len() as nat,
                        ),
                    forall|q: int|
                        0 <= q < m ==> (
                            (#[trigger] rhs@[q]).0.0 as int,
                            crate::toolbox::batch_verifier::bpv_index(rhs@[q].1, ni),
                        ) == (
                            self.equations@[e as int].1@[q].0 as int,
                            sref_index(self.equations@[e as int].1@[q].1, ni),
                        ),
                decreases self.equations@[e as int].1@.len() - m,
            {
                let term = self.equations[e].1[m];
                let pv = match term.1 {
                    StmtPointRef::Instance(k) => BatchPointVar::Instance(k),
                    StmtPointRef::Static(k) => BatchPointVar::Static(k),
                };
                rhs.push((ScalarVar(term.0), pv));
                m += 1;
            }
            proof {
                assert(rhs@.len() == self.equations@[e as int].1@.len());
                assert(rhs@.len() > 0);
                assert(rhs@.map_values(
                    |t: (ScalarVar, BatchPointVar)| (
                        t.0.0 as int,
                        crate::toolbox::batch_verifier::bpv_index(t.1, ni),
                    ),
                ) =~= self.cons_model()[e as int].1);
            }
            let ghost pre_cons = bv.constraints@;
            bv.add_constraint(lhs, rhs);
            proof {
                assert(crate::toolbox::batch_verifier::bcons_view(bv.constraints@, ni)
                    =~= crate::toolbox::batch_verifier::bcons_view(pre_cons, ni).push(
                    crate::toolbox::batch_verifier::bcon_view(bv.constraints@.last(), ni),
                ));
                assert(crate::toolbox::batch_verifier::bcon_view(bv.constraints@.last(), ni)
                    == self.cons_model()[e as int]);
                assert(self.cons_model().subrange(0, e as int + 1).drop_last()
                    =~= self.cons_model().subrange(0, e as int));
                assert(crate::toolbox::batch_verifier::bcons_view(bv.constraints@, ni)
                    =~= self.cons_model().subrange(0, e as int + 1));
            }
            e += 1;
        }
        proof {
            assert(self.cons_model().subrange(0, self.equations@.len() as int)
                =~= self.cons_model());
        }

        let ghost cs = self.cons_model();
        let ghost lbls = self.lbls_model();
        proof {
            assert(crate::toolbox::batch_verifier::bcons_view(
                bv.constraints@,
                bv.instance_points@.len() as nat,
            ) =~= cs);
            assert(crate::toolbox::batch_verifier::combined_lbls(
                bv.static_labels@,
                bv.instance_labels@,
            ) =~= lbls);
            assert forall|j: int| 0 <= j < n implies crate::toolbox::batch_verifier::combined_pvals(
                bv.static_points@,
                bv.instance_points@,
                j,
            ) =~= Statement::instance_dvals(instance_assignments@, j) + sdvals by {
                assert(bv.instance_points@.map_values(|v: Vec<PointElem>| v@[j].d@)
                    =~= Statement::instance_dvals(instance_assignments@, j));
            }
            assert forall|j: int| 0 <= j < n implies (#[trigger] bv.transcripts@[j]).log@
                =~= self.alloc_log(
                orig_t[j].log@,
                Statement::instance_dvals(instance_assignments@, j),
                sdvals,
            ) by {
                assert(Statement::instance_dvals(orig_assignments, j).subrange(
                    0,
                    orig_assignments.len() as int,
                ) =~= Statement::instance_dvals(instance_assignments@, j));
            }
        }
        let result = bv.verify_batchable(proofs);
        proof {
            if proofs@.len() != n {
                assert(result == Err::<(), ProofError>(ProofError::LengthMismatch));
            } else {
                let sdv = sdvals;
                let resps = Seq::new(n as nat, |j: int| scalar_resid(proofs@[j].responses@));
                let tvalss = Seq::new(n as nat, |j: int| point_resid(proofs@[j].commitments@));
                let pvalss_bv = Seq::new(
                    n as nat,
                    |j: int|
                        crate::toolbox::batch_verifier::combined_pvals(
                            bv.static_points@,
                            bv.instance_points@,
                            j,
                        ),
                );
                let pvalss_stmt = Seq::new(
                    n as nat,
                    |j: int| Statement::instance_dvals(instance_assignments@, j) + sdv,
                );
                assert(pvalss_bv =~= pvalss_stmt);
                let chals_bv = Seq::new(
                    n as nat,
                    |j: int|
                        challenge_val(
                            commit_log(
                                bv.transcripts@[j].log@,
                                crate::toolbox::batch_verifier::bcons_view(
                                    bv.constraints@,
                                    bv.instance_points@.len() as nat,
                                ),
                                crate::toolbox::batch_verifier::combined_lbls(
                                    bv.static_labels@,
                                    bv.instance_labels@,
                                ),
                                tvalss[j],
                            ),
                        ),
                );
                let chals_stmt = Seq::new(
                    n as nat,
                    |j: int|
                        challenge_val(
                            commit_log(
                                self.alloc_log(
                                    transcripts@[j].log@,
                                    Statement::instance_dvals(instance_assignments@, j),
                                    sdv,
                                ),
                                cs,
                                lbls,
                                tvalss[j],
                            ),
                        ),
                );
                assert(chals_bv =~= chals_stmt);
                assert(bv.arity_ok(proofs@) == self.batch_arity_ok(proofs@));
            }
        }
        result
    }
}

} // verus!