//! The laws that tie the prover to the verifiers.
//!
//! Each theorem quantifies over the models that the proving and verifying
//! contracts speak of, so it applies to every statement shape, witness and
//! transcript state.

use vstd::prelude::*;

use crate::algebra::{
    add_mod, all_reduced, group_order, lc_val, lemma_lc_of_responses, lemma_recompute_commitment,
    mul_mod, sub_mod,
};
use crate::toolbox::batch_verifier::{batch_sum, batch_term};
use crate::toolbox::{
    batchable_prove_rel, commit_log, commit_vals, compact_prove_rel, con_wf, cons_wf,
    recomputed_commit_vals,
};
use crate::codec::{BatchableProof, CompactProof};
use crate::errors::ProofError;
use crate::point::PointElem;
use crate::scalar::ScalarElem;
use crate::statement::Statement;
use crate::toolbox::{point_resid, points_wf, scalar_resid, scalars_wf};
use crate::transcript::{challenge_val, LogEntry, ProofTranscript};
use vstd::arithmetic::div_mod::lemma_small_mod;

verus! {

/// An assignment of public points is honest for a constraint table when
/// every left-hand point is exactly the right-hand combination of the
/// witness.
pub open spec fn honest_assignment(
    cs: Seq<(int, Seq<(int, int)>)>,
    xs: Seq<nat>,
    pvals: Seq<nat>,
) -> bool {
    forall|i: int|
        0 <= i < cs.len() ==> pvals[(#[trigger] cs[i]).0] == lc_val(cs[i].1, xs, pvals)
}

/// Completeness of the compact encoding: whenever a prover with an honest
/// witness produced a compact proof over some transcript state, a compact
/// verifier for the same statement, labels and points, starting from the
/// same transcript state, recomputes exactly the prover's blinding
/// commitments, squeezes the same challenge, and therefore accepts.
pub proof fn theorem_compact_completeness(
    cs: Seq<(int, Seq<(int, int)>)>,
    lbls: Seq<Seq<u8>>,
    xs: Seq<nat>,
    pvals: Seq<nat>,
    log0: Seq<LogEntry>,
    bs: Seq<nat>,
    challenge: nat,
    resp: Seq<nat>,
    log_end: Seq<LogEntry>,
)
    requires
        cons_wf(cs, xs.len() as nat, pvals.len() as nat),
        compact_prove_rel(cs, lbls, xs, pvals, log0, bs, challenge, resp, log_end),
        honest_assignment(cs, xs, pvals),
    ensures
        recomputed_commit_vals(cs, resp, challenge, pvals) =~= commit_vals(cs, bs, pvals),
        challenge_val(
            commit_log(log0, cs, lbls, recomputed_commit_vals(cs, resp, challenge, pvals)),
        ) == challenge,
{
    let rec = recomputed_commit_vals(cs, resp, challenge, pvals);
    let com = commit_vals(cs, bs, pvals);
    assert forall|i: int| 0 <= i < cs.len() implies rec[i] == com[i] by {
        assert(con_wf(cs[i], xs.len() as nat, pvals.len() as nat));
        lemma_recompute_commitment(cs[i].1, bs, xs, challenge, pvals, pvals[cs[i].0]);
    }
    assert(rec =~= com);
}

/// Completeness of the batchable encoding: whenever a prover with an honest
/// witness produced a batchable proof over some transcript state, every
/// per-constraint equation `Σ r_i · Q_i = T + c · P` that the batchable
/// verifier checks holds, and therefore the verifier accepts.
pub proof fn theorem_batchable_completeness(
    cs: Seq<(int, Seq<(int, int)>)>,
    lbls: Seq<Seq<u8>>,
    xs: Seq<nat>,
    pvals: Seq<nat>,
    log0: Seq<LogEntry>,
    bs: Seq<nat>,
    tvals: Seq<nat>,
    resp: Seq<nat>,
    log_end: Seq<LogEntry>,
)
    requires
        cons_wf(cs, xs.len() as nat, pvals.len() as nat),
        batchable_prove_rel(cs, lbls, xs, pvals, log0, bs, tvals, resp, log_end),
        honest_assignment(cs, xs, pvals),
    ensures
        forall|i: int|
            0 <= i < cs.len() ==> lc_val(#[trigger] cs[i].1, resp, pvals) == add_mod(
                tvals[i],
                mul_mod(challenge_val(commit_log(log0, cs, lbls, tvals)), pvals[cs[i].0]),
            ),
{
    let c = challenge_val(commit_log(log0, cs, lbls, tvals));
    assert forall|i: int| 0 <= i < cs.len() implies lc_val(#[trigger] cs[i].1, resp, pvals)
        == add_mod(tvals[i], mul_mod(c, pvals[cs[i].0])) by {
        assert(con_wf(cs[i], xs.len() as nat, pvals.len() as nat));
        lemma_lc_of_responses(cs[i].1, bs, xs, c, pvals);
        assert(tvals[i] == lc_val(cs[i].1, bs, pvals));
    }
}

/// Completeness, end to end: proving a statement in the compact encoding
/// with an honest witness and then verifying the proof over an equally
/// initialized transcript always succeeds.
pub fn prove_then_verify_compact(
    stmt: &Statement,
    prover_transcript: &mut ProofTranscript,
    verifier_transcript: &mut ProofTranscript,
    scalars: &Vec<ScalarElem>,
    instance_points: &Vec<PointElem>,
    static_points: &Vec<PointElem>,
) -> (r: (CompactProof, Vec<PointElem>, Result<(), ProofError>))
    requires
        stmt.wf(),
        scalars@.len() == stmt.secret_names@.len(),
        instance_points@.len() == stmt.instance_point_names@.len(),
        static_points@.len() == stmt.static_point_names@.len(),
        scalars_wf(scalars@),
        points_wf(instance_points@),
        points_wf(static_points@),
        old(prover_transcript).log@ == old(verifier_transcript).log@,
        honest_assignment(
            stmt.cons_model(),
            scalar_resid(scalars@),
            point_resid(instance_points@) + point_resid(static_points@),
        ),
    ensures
        r.2 is Ok,
{
    let (proof, points) = stmt.prove_compact(
        prover_transcript,
        scalars,
        instance_points,
        static_points,
    );
    let result = stmt.verify_compact(&proof, verifier_transcript, instance_points, static_points);
    proof {
        let cs = stmt.cons_model();
        let lbls = stmt.lbls_model();
        let xs = scalar_resid(scalars@);
        let pvals = point_resid(instance_points@) + point_resid(static_points@);
        let log0 = stmt.alloc_log(
            old(prover_transcript).log@,
            point_resid(instance_points@),
            point_resid(static_points@),
        );
        let bs = choose|bs: Seq<nat>|
            crate::algebra::all_reduced(bs) && crate::toolbox::compact_prove_rel(
                cs,
                lbls,
                xs,
                pvals,
                log0,
                bs,
                proof.challenge.v@,
                scalar_resid(proof.responses@),
                final(prover_transcript).log@,
            );
        theorem_compact_completeness(
            cs,
            lbls,
            xs,
            pvals,
            log0,
            bs,
            proof.challenge.v@,
            scalar_resid(proof.responses@),
            final(prover_transcript).log@,
        );
    }
    (proof, points, result)
}

/// Completeness, end to end: proving a statement in the batchable encoding
/// with an honest witness and then verifying the proof over an equally
/// initialized transcript always succeeds.
pub fn prove_then_verify_batchable(
    stmt: &Statement,
    prover_transcript: &mut ProofTranscript,
    verifier_transcript: &mut ProofTranscript,
    scalars: &Vec<ScalarElem>,
    instance_points: &Vec<PointElem>,
    static_points: &Vec<PointElem>,
) -> (r: (BatchableProof, Vec<PointElem>, Result<(), ProofError>))
    requires
        stmt.wf(),
        scalars@.len() == stmt.secret_names@.len(),
        instance_points@.len() == stmt.instance_point_names@.len(),
        static_points@.len() == stmt.static_point_names@.len(),
        scalars_wf(scalars@),
        points_wf(instance_points@),
        points_wf(static_points@),
        old(prover_transcript).log@ == old(verifier_transcript).log@,
        honest_assignment(
            stmt.cons_model(),
            scalar_resid(scalars@),
            point_resid(instance_points@) + point_resid(static_points@),
        ),
    ensures
        r.2 is Ok,
{
    let (proof, points) = stmt.prove_batchable(
        prover_transcript,
        scalars,
        instance_points,
        static_points,
    );
    let result = stmt.verify_batchable(
        &proof,
        verifier_transcript,
        instance_points,
        static_points,
    );
    proof {
        let cs = stmt.cons_model();
        let lbls = stmt.lbls_model();
        let xs = scalar_resid(scalars@);
        let pvals = point_resid(instance_points@) + point_resid(static_points@);
        let log0 = stmt.alloc_log(
            old(prover_transcript).log@,
            point_resid(instance_points@),
            point_resid(static_points@),
        );
        let bs = choose|bs: Seq<nat>|
            crate::algebra::all_reduced(bs) && crate::toolbox::batchable_prove_rel(
                cs,
                lbls,
                xs,
                pvals,
                log0,
                bs,
                point_resid(proof.commitments@),
                scalar_resid(proof.responses@),
                final(prover_transcript).log@,
            );
        theorem_batchable_completeness(
            cs,
            lbls,
            xs,
            pvals,
            log0,
            bs,
            point_resid(proof.commitments@),
            scalar_resid(proof.responses@),
            final(prover_transcript).log@,
        );
    }
    (proof, points, result)
}

/// Batch-verification completeness: when every instance of the batch
/// satisfies its own Σ-protocol equation for a constraint, the aggregated
/// equation of that constraint sums to the identity, whatever random
/// weights were drawn — so a batch whose component proofs all verify
/// individually is accepted.
pub proof fn theorem_batch_completeness(
    con: (int, Seq<(int, int)>),
    resps: Seq<Seq<nat>>,
    tvals: Seq<nat>,
    chals: Seq<nat>,
    pvalss: Seq<Seq<nat>>,
    alphas: Seq<nat>,
    n: nat,
)
    requires
        forall|j: int|
            0 <= j < n ==> lc_val(con.1, #[trigger] resps[j], pvalss[j]) == add_mod(
                tvals[j],
                mul_mod(chals[j], pvalss[j][con.0]),
            ),
    ensures
        batch_sum(con, resps, tvals, chals, pvalss, alphas, n) == 0,
    decreases n,
{
    if n > 0 {
        theorem_batch_completeness(con, resps, tvals, chals, pvalss, alphas, (n - 1) as nat);
        let j = n - 1;
        let eq = add_mod(tvals[j], mul_mod(chals[j], pvalss[j][con.0]));
        assert(sub_mod(eq, eq) == 0) by {
            lemma_small_mod(0, group_order());
        }
        assert(batch_term(con, resps[j], tvals[j], chals[j], pvalss[j], alphas[j]) == 0) by {
            assert(sub_mod(lc_val(con.1, resps[j], pvalss[j]), eq) == 0);
            assert(mul_mod(alphas[j], 0) == 0) by {
                lemma_small_mod(0, group_order());
            }
        }
        assert(add_mod(0, 0) == 0) by {
            lemma_small_mod(0, group_order());
        }
    }
}

/// A well-formed statement has a well-formed constraint model.
pub proof fn lemma_statement_cons_wf(stmt: Statement)
    requires
        stmt.wf(),
    ensures
        cons_wf(
            stmt.cons_model(),
            stmt.secret_names@.len() as nat,
            stmt.instance_point_names@.len() + stmt.static_point_names@.len(),
        ),
{
    let cs = stmt.cons_model();
    let ni = stmt.instance_point_names@.len() as nat;
    let nst = stmt.static_point_names@.len() as nat;
    assert forall|i: int| 0 <= i < cs.len() implies con_wf(
        #[trigger] cs[i],
        stmt.secret_names@.len() as nat,
        ni + nst,
    ) by {
        let eq = stmt.equations@[i];
        assert(cs[i] == (
            crate::statement::sref_index(eq.0, ni),
            eq.1@.map_values(
                |t: (usize, crate::statement::StmtPointRef)| (
                    t.0 as int,
                    crate::statement::sref_index(t.1, ni),
                ),
            ),
        ));
        assert forall|m: int| 0 <= m < cs[i].1.len() implies 0 <= (#[trigger] cs[i].1[m]).0
            < stmt.secret_names@.len() && 0 <= cs[i].1[m].1 < ni + nst by {
            assert(eq.1@[m].0 < stmt.secret_names@.len() && crate::statement::sref_ok(
                eq.1@[m].1,
                ni,
                nst,
            ));
        }
    }
}

/// Batch completeness, end to end: proving a statement once per instance
/// with honest witnesses and then batch-verifying the proofs over equally
/// initialized transcripts always succeeds.
pub fn prove_then_batch_verify(
    stmt: &Statement,
    prover_transcripts: Vec<ProofTranscript>,
    verifier_transcripts: Vec<ProofTranscript>,
    witnesses: &Vec<Vec<ScalarElem>>,
    instance_assignments: Vec<Vec<PointElem>>,
    static_points: &Vec<PointElem>,
) -> (r: (Vec<BatchableProof>, Result<(), ProofError>))
    requires
        stmt.wf(),
        verifier_transcripts@.len() == prover_transcripts@.len(),
        witnesses@.len() == prover_transcripts@.len(),
        forall|j: int|
            0 <= j < witnesses@.len() ==> (#[trigger] witnesses@[j])@.len()
                == stmt.secret_names@.len() && scalars_wf(witnesses@[j]@),
        instance_assignments@.len() == stmt.instance_point_names@.len(),
        forall|k: int|
            0 <= k < instance_assignments@.len() ==> (#[trigger] instance_assignments@[k])@.len()
                == prover_transcripts@.len() && points_wf(instance_assignments@[k]@),
        static_points@.len() == stmt.static_point_names@.len(),
        points_wf(static_points@),
        forall|j: int|
            0 <= j < prover_transcripts@.len() ==> (#[trigger] prover_transcripts@[j]).log@
                == verifier_transcripts@[j].log@,
        forall|j: int|
            0 <= j < prover_transcripts@.len() ==> honest_assignment(
                stmt.cons_model(),
                scalar_resid((#[trigger] witnesses@[j])@),
                Statement::instance_dvals(instance_assignments@, j) + crate::toolbox::point_resid(
                    static_points@,
                ),
            ),
    ensures
        r.1 is Ok,
{
    let ghost cs = stmt.cons_model();
    let ghost lbls = stmt.lbls_model();
    let ghost sdvals = crate::toolbox::point_resid(static_points@);
    let ghost orig_pt = prover_transcripts@;
    let ghost orig_vt = verifier_transcripts@;
    let n = prover_transcripts.len();

    let mut proofs: Vec<BatchableProof> = Vec::new();
    let ghost mut all_bs: Seq<Seq<nat>> = Seq::empty();
    let ghost mut all_le: Seq<Seq<LogEntry>> = Seq::empty();
    let mut rest = prover_transcripts;
    let mut j: usize = 0;
    while j < n
        invariant
            j <= n,
            stmt.wf(),
            n == orig_pt.len(),
            cs == stmt.cons_model(),
            lbls == stmt.lbls_model(),
            sdvals == crate::toolbox::point_resid(static_points@),
            static_points@.len() == stmt.static_point_names@.len(),
            points_wf(static_points@),
            witnesses@.len() == n,
            forall|m: int|
                0 <= m < witnesses@.len() ==> (#[trigger] witnesses@[m])@.len()
                    == stmt.secret_names@.len() && scalars_wf(witnesses@[m]@),
            instance_assignments@.len() == stmt.instance_point_names@.len(),
            forall|k: int|
                0 <= k < instance_assignments@.len() ==> (
                #[trigger] instance_assignments@[k])@.len() == n && points_wf(
                    instance_assignments@[k]@,
                ),
            rest@.len() + j == n,
            forall|m: int| 0 <= m < rest@.len() ==> rest@[m] == orig_pt[j + m],
            proofs@.len() == j,
            forall|m: int| 0 <= m < j ==> (#[trigger] proofs@[m]).wf(),
            forall|m: int|
                0 <= m < j ==> (#[trigger] proofs@[m]).responses@.len()
                    == stmt.secret_names@.len() && proofs@[m].commitments@.len()
                    == stmt.equations@.len(),
            all_bs.len() == j,
            all_le.len() == j,
            forall|m: int|
                0 <= m < j ==> all_reduced(#[trigger] all_bs[m]) && batchable_prove_rel(
                    cs,
                    lbls,
                    scalar_resid(witnesses@[m]@),
                    Statement::instance_dvals(instance_assignments@, m) + sdvals,
                    stmt.alloc_log(
                        orig_pt[m].log@,
                        Statement::instance_dvals(instance_assignments@, m),
                        sdvals,
                    ),
                    all_bs[m],
                    point_resid(proofs@[m].commitments@),
                    scalar_resid(proofs@[m].responses@),
                    all_le[m],
                ),
        decreases n - j,
    {
        let mut t = rest.remove(0);
        proof {
            assert(t.log@ == orig_pt[j as int].log@);
        }
        // The j-th instance's value of each instance point.
        let mut column: Vec<PointElem> = Vec::new();
        let mut k: usize = 0;
        while k < instance_assignments.len()
            invariant
                j < n,
                k <= instance_assignments@.len(),
                forall|m: int|
                    0 <= m < instance_assignments@.len() ==> (
                    #[trigger] instance_assignments@[m])@.len() == n && points_wf(
                        instance_assignments@[m]@,
                    ),
                column@.len() == k,
                points_wf(column@),
                point_resid(column@) =~= Statement::instance_dvals(
                    instance_assignments@,
                    j as int,
                ).subrange(0, k as int),
            decreases instance_assignments@.len() - k,
        {
            let ghost pre = column@;
            column.push(instance_assignments[k][j].dup());
            proof {
                let dv = Statement::instance_dvals(instance_assignments@, j as int);
                assert(dv.subrange(0, k as int + 1).drop_last() =~= dv.subrange(0, k as int));
                assert(dv.subrange(0, k as int + 1).last() == instance_assignments@[k as int]@[
                    j as int].d@);
                assert(point_resid(column@) =~= point_resid(pre).push(
                    instance_assignments@[k as int]@[j as int].d@,
                ));
            }
            k += 1;
        }
        proof {
            let dv = Statement::instance_dvals(instance_assignments@, j as int);
            assert(dv.subrange(0, dv.len() as int) =~= dv);
        }
        let (proof_j, _points) = stmt.prove_batchable(
            &mut t,
            &witnesses[j],
            &column,
            static_points,
        );
        proof {
            let dv = Statement::instance_dvals(instance_assignments@, j as int);
            assert(point_resid(column@) =~= dv);
            let bs = choose|bs: Seq<nat>|
                all_reduced(bs) && batchable_prove_rel(
                    stmt.cons_model(),
                    stmt.lbls_model(),
                    scalar_resid(witnesses@[j as int]@),
                    point_resid(column@) + sdvals,
                    stmt.alloc_log(orig_pt[j as int].log@, point_resid(column@), sdvals),
                    bs,
                    point_resid(proof_j.commitments@),
                    scalar_resid(proof_j.responses@),
                    t.log@,
                );
            assert(all_reduced(bs) && batchable_prove_rel(
                cs,
                lbls,
                scalar_resid(witnesses@[j as int]@),
                dv + sdvals,
                stmt.alloc_log(orig_pt[j as int].log@, dv, sdvals),
                bs,
                point_resid(proof_j.commitments@),
                scalar_resid(proof_j.responses@),
                t.log@,
            ));
        }
        let ghost witness_bs = choose|bs: Seq<nat>|
            all_reduced(bs) && batchable_prove_rel(
                cs,
                lbls,
                scalar_resid(witnesses@[j as int]@),
                Statement::instance_dvals(instance_assignments@, j as int) + sdvals,
                stmt.alloc_log(
                    orig_pt[j as int].log@,
                    Statement::instance_dvals(instance_assignments@, j as int),
                    sdvals,
                ),
                bs,
                point_resid(proof_j.commitments@),
                scalar_resid(proof_j.responses@),
                t.log@,
            );
        proof {
            all_bs = all_bs.push(witness_bs);
            all_le = all_le.push(t.log@);
        }
        proofs.push(proof_j);
        j += 1;
    }

    let result = stmt.batch_verify(
        &proofs,
        verifier_transcripts,
        instance_assignments,
        static_points,
    );
    proof {
        lemma_statement_cons_wf(*stmt);
        let resps = Seq::new(n as nat, |m: int| scalar_resid(proofs@[m].responses@));
        let tvalss = Seq::new(n as nat, |m: int| point_resid(proofs@[m].commitments@));
        let pvalss = Seq::new(
            n as nat,
            |m: int| Statement::instance_dvals(instance_assignments@, m) + sdvals,
        );
        let chals = Seq::new(
            n as nat,
            |m: int|
                challenge_val(
                    commit_log(
                        stmt.alloc_log(
                            orig_vt[m].log@,
                            Statement::instance_dvals(instance_assignments@, m),
                            sdvals,
                        ),
                        cs,
                        lbls,
                        tvalss[m],
                    ),
                ),
        );
        // Every instance's Σ-protocol equations hold, by completeness of
        // the batchable encoding.
        assert forall|i: int, m: int| 0 <= i < cs.len() && 0 <= m < n implies lc_val(
            #[trigger] cs[i].1,
            resps[m],
            #[trigger] pvalss[m],
        ) == add_mod(tvalss[m][i], mul_mod(chals[m], pvalss[m][cs[i].0])) by {
            theorem_batchable_completeness(
                cs,
                lbls,
                scalar_resid(witnesses@[m]@),
                Statement::instance_dvals(instance_assignments@, m) + sdvals,
                stmt.alloc_log(
                    orig_pt[m].log@,
                    Statement::instance_dvals(instance_assignments@, m),
                    sdvals,
                ),
                all_bs[m],
                point_resid(proofs@[m].commitments@),
                scalar_resid(proofs@[m].responses@),
                all_le[m],
            );
            assert(orig_pt[m].log@ == orig_vt[m].log@);
        }
        // Therefore every aggregated equation vanishes, whatever weights
        // the batch verifier drew, and the batch is accepted.
        assert(!(proofs@.len() != n || exists|k: int|
            0 <= k < instance_assignments@.len() && (#[trigger] instance_assignments@[k])@.len()
                != n));
        assert(stmt.batch_arity_ok(proofs@));
        let alphas = choose|alphas: Seq<nat>|
            {
                &&& alphas.len() == n
                &&& all_reduced(alphas)
                &&& (forall|m: int| 0 <= m < n ==> alphas[m] != 0)
                &&& (result is Ok <==> (forall|i: int|
                    0 <= i < cs.len() ==> crate::toolbox::batch_verifier::batch_sum(
                        #[trigger] cs[i],
                        resps,
                        Seq::new(n as nat, |m: int| tvalss[m][i]),
                        chals,
                        pvalss,
                        alphas,
                        n as nat,
                    ) == 0))
            };
        assert forall|i: int| 0 <= i < cs.len() implies crate::toolbox::batch_verifier::batch_sum(
            #[trigger] cs[i],
            resps,
            Seq::new(n as nat, |m: int| tvalss[m][i]),
            chals,
            pvalss,
            alphas,
            n as nat,
        ) == 0 by {
            theorem_batch_completeness(
                cs[i],
                resps,
                Seq::new(n as nat, |m: int| tvalss[m][i]),
                chals,
                pvalss,
                alphas,
                n as nat,
            );
        }
    }
    (proofs, result)
}

} // verus!
