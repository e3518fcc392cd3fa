//! The two proof encodings and their byte serialization.
//!
//! A compact proof carries the challenge and the responses; a batchable
//! proof carries the blinding commitments and the responses.  On the wire
//! both are plain concatenations of the canonical scalar and point
//! encodings, with no framing of their own.

use vstd::prelude::*;

use crate::algebra::{
    all_reduced, group_order, le_bytes_of, le_bytes_val, lemma_group_order_fits,
    lemma_le_bytes_of_len, lemma_le_bytes_of_val,
};
use crate::point::{point_enc, PointElem};
use crate::scalar::{scalar_enc, ScalarElem};
use crate::toolbox::{point_resid, points_wf, scalar_resid, scalars_wf};

verus! {

/// A proof storing the challenge; commitments are recomputed by the
/// verifier.
pub struct CompactProof {
    /// The Fiat-Shamir challenge.
    pub challenge: ScalarElem,
    /// One response per secret variable, in allocation order.
    pub responses: Vec<ScalarElem>,
}

/// A proof storing the blinding commitments; the challenge is recomputed by
/// the verifier.  This is the form that batch verification consumes.
pub struct BatchableProof {
    /// One blinding commitment per constraint, in insertion order.
    pub commitments: Vec<PointElem>,
    /// One response per secret variable, in allocation order.
    pub responses: Vec<ScalarElem>,
}

impl CompactProof {
    /// All parts of the proof are well-formed field elements.
    pub open spec fn wf(self) -> bool {
        self.challenge.wf() && scalars_wf(self.responses@)
    }
}

impl BatchableProof {
    /// All parts of the proof are well-formed group and field elements.
    pub open spec fn wf(self) -> bool {
        points_wf(self.commitments@) && scalars_wf(self.responses@)
    }
}

/// The concatenation of the canonical encodings of the given scalars.
pub open spec fn scalars_bytes(vals: Seq<nat>) -> Seq<u8>
    decreases vals.len(),
{
    if vals.len() == 0 {
        Seq::empty()
    } else {
        scalars_bytes(vals.drop_last()) + scalar_enc(vals.last())
    }
}

/// The concatenation of the canonical encodings of the given points.
pub open spec fn points_bytes(vals: Seq<nat>) -> Seq<u8>
    decreases vals.len(),
{
    if vals.len() == 0 {
        Seq::empty()
    } else {
        points_bytes(vals.drop_last()) + point_enc(vals.last())
    }
}

/// The wire form of a compact proof: the challenge, then the responses.
pub open spec fn compact_bytes(challenge: nat, resp: Seq<nat>) -> Seq<u8> {
    scalar_enc(challenge) + scalars_bytes(resp)
}

/// The wire form of a batchable proof: the commitments, then the responses.
pub open spec fn batchable_bytes(commitments: Seq<nat>, resp: Seq<nat>) -> Seq<u8> {
    points_bytes(commitments) + scalars_bytes(resp)
}

/// The `k`-th 32-byte chunk of a byte string.
pub open spec fn chunk32(bytes: Seq<u8>, k: int) -> Seq<u8> {
    bytes.subrange(32 * k, 32 * k + 32)
}

/// Whether a byte string parses as a compact proof with `n` responses:
/// it consists of `n + 1` scalar chunks, each holding a reduced value.
pub open spec fn compact_parses(bytes: Seq<u8>, n: nat) -> bool {
    &&& bytes.len() == 32 * (n + 1)
    &&& forall|k: int|
        0 <= k < n + 1 ==> le_bytes_val(#[trigger] chunk32(bytes, k)) < group_order()
}

/// A concatenation of scalar encodings is 32 bytes per scalar.
pub proof fn lemma_scalars_bytes_len(vals: Seq<nat>)
    ensures
        scalars_bytes(vals).len() == 32 * vals.len(),
    decreases vals.len(),
{
    if vals.len() > 0 {
        lemma_scalars_bytes_len(vals.drop_last());
        lemma_le_bytes_of_len(vals.last(), 32);
    }
}

/// The `k`-th 32-byte chunk of a concatenation of scalar encodings is the
/// encoding of the `k`-th scalar.
pub proof fn lemma_scalars_bytes_chunk(vals: Seq<nat>, k: int)
    requires
        0 <= k < vals.len(),
    ensures
        scalars_bytes(vals).subrange(32 * k, 32 * k + 32) =~= scalar_enc(vals[k]),
    decreases vals.len(),
{
    let pre = vals.drop_last();
    lemma_scalars_bytes_len(pre);
    lemma_le_bytes_of_len(vals.last(), 32);
    if k == vals.len() - 1 {
        assert(scalars_bytes(vals).subrange(32 * k, 32 * k + 32) =~= scalar_enc(vals.last()));
    } else {
        lemma_scalars_bytes_chunk(pre, k);
        assert(scalars_bytes(vals).subrange(32 * k, 32 * k + 32) =~= scalars_bytes(pre).subrange(
            32 * k,
            32 * k + 32,
        ));
        assert(pre[k] == vals[k]);
    }
}

/// Reading a scalar's canonical encoding back recovers its residue.
pub proof fn lemma_scalar_enc_val(v: nat)
    requires
        v < group_order(),
    ensures
        le_bytes_val(scalar_enc(v)) == v,
{
    lemma_group_order_fits();
    lemma_le_bytes_of_val(v, 32);
}

/// Serialization round-trip for compact proofs: the wire form of a proof
/// with challenge `c` and responses `rs` parses, and parsing recovers
/// exactly `c` and `rs`, so a parsed proof verifies exactly as the
/// original.
pub proof fn lemma_compact_round_trip(c: nat, rs: Seq<nat>)
    requires
        c < group_order(),
        all_reduced(rs),
    ensures
        compact_parses(compact_bytes(c, rs), rs.len()),
        le_bytes_val(chunk32(compact_bytes(c, rs), 0)) == c,
        forall|k: int|
            0 <= k < rs.len() ==> le_bytes_val(#[trigger] chunk32(compact_bytes(c, rs), k + 1))
                == rs[k],
{
    let bytes = compact_bytes(c, rs);
    lemma_le_bytes_of_len(c, 32);
    lemma_scalars_bytes_len(rs);
    assert(chunk32(bytes, 0) =~= scalar_enc(c));
    lemma_scalar_enc_val(c);
    assert forall|k: int| 0 <= k < rs.len() implies le_bytes_val(
        #[trigger] chunk32(bytes, k + 1),
    ) == rs[k] by {
        lemma_scalars_bytes_chunk(rs, k);
        assert(chunk32(bytes, k + 1) =~= scalars_bytes(rs).subrange(32 * k, 32 * k + 32));
        lemma_scalar_enc_val(rs[k]);
    }
    assert forall|k: int| 0 <= k < rs.len() + 1 implies le_bytes_val(
        #[trigger] chunk32(bytes, k),
    ) < group_order() by {
        if k == 0 {
            assert(chunk32(bytes, 0) =~= scalar_enc(c));
        } else {
            lemma_scalars_bytes_chunk(rs, k - 1);
            assert(chunk32(bytes, k) =~= scalars_bytes(rs).subrange(
                32 * (k - 1),
                32 * (k - 1) + 32,
            ));
            lemma_scalar_enc_val(rs[k - 1]);
        }
    }
}

/// Copy `len` bytes of `bytes` starting at `start`.
pub fn take_chunk(bytes: &Vec<u8>, start: usize, len: usize) -> (r: Vec<u8>)
    requires
        start + len <= bytes@.len(),
    ensures
        r@ =~= bytes@.subrange(start as int, start as int + len as int),
{
    let total = bytes.len();
    let mut out: Vec<u8> = Vec::new();
    let mut j: usize = 0;
    while j < len
        invariant
            j <= len,
            start + len <= total,
            total == bytes@.len(),
            out@ =~= bytes@.subrange(start as int, start as int + j as int),
        decreases len - j,
    {
        out.push(bytes[start + j]);
        j += 1;
    }
    out
}

impl CompactProof {
    /// Serialize the proof: the challenge's encoding, then each response's
    /// encoding, in order.
    pub fn to_bytes(&self) -> (r: Vec<u8>)
        ensures
            r@ =~= compact_bytes(self.challenge.v@, scalar_resid(self.responses@)),
    {
        let mut out = self.challenge.to_bytes();
        let mut i: usize = 0;
        proof {
            assert(scalar_resid(self.responses@).subrange(0, 0) =~= Seq::<nat>::empty());
        }
        while i < self.responses.len()
            invariant
                i <= self.responses.len(),
                out@ =~= scalar_enc(self.challenge.v@) + scalars_bytes(
                    scalar_resid(self.responses@).subrange(0, i as int),
                ),
            decreases self.responses.len() - i,
        {
            let mut b = self.responses[i].to_bytes();
            out.append(&mut b);
            proof {
                let all = scalar_resid(self.responses@);
                let cur = all.subrange(0, i as int + 1);
                assert(cur.drop_last() =~= all.subrange(0, i as int));
                assert(cur.last() == self.responses@[i as int].v@);
            }
            i += 1;
        }
        proof {
            assert(scalar_resid(self.responses@).subrange(
                0,
                self.responses@.len() as int,
            ) =~= scalar_resid(self.responses@));
        }
        out
    }

    /// Parse a compact proof with `n_scalars` responses from its wire form.
    /// Succeeds exactly when the bytes are `n_scalars + 1` reduced scalar
    /// chunks.
    pub fn from_bytes(bytes: &Vec<u8>, n_scalars: usize) -> (r: Option<CompactProof>)
        ensures
            (r is Some) <==> compact_parses(bytes@, n_scalars as nat),
            (match r {
                Some(p) => {
                    &&& p.wf()
                    &&& p.responses@.len() == n_scalars
                    &&& p.challenge.v@ == le_bytes_val(chunk32(bytes@, 0))
                    &&& forall|k: int|
                        0 <= k < n_scalars ==> (#[trigger] p.responses@[k]).v@ == le_bytes_val(
                            chunk32(bytes@, k + 1),
                        )
                },
                None => true,
            }),
    {
        let total = bytes.len();
        proof {
            vstd::arithmetic::div_mod::lemma_fundamental_div_mod(total as int, 32);
            vstd::arithmetic::div_mod::lemma_mod_multiples_basic(
                n_scalars as int + 1,
                32,
            );
        }
        if total % 32 != 0 {
            return None;
        }
        let chunks = total / 32;
        if chunks == 0 || chunks - 1 != n_scalars {
            return None;
        }
        assert(bytes@.len() == 32 * (n_scalars + 1));
        let head = take_chunk(bytes, 0, 32);
        proof {
            assert(head@ =~= chunk32(bytes@, 0));
        }
        let challenge = match ScalarElem::from_bytes(&head) {
            Some(s) => s,
            None => {
                return None;
            },
        };
        let mut responses: Vec<ScalarElem> = Vec::new();
        let mut k: usize = 0;
        while k < n_scalars
            invariant
                k <= n_scalars,
                total == bytes@.len(),
                bytes@.len() == 32 * (n_scalars + 1),
                responses@.len() == k,
                scalars_wf(responses@),
                forall|j: int|
                    0 <= j < k ==> (#[trigger] responses@[j]).v@ == le_bytes_val(
                        chunk32(bytes@, j + 1),
                    ),
            decreases n_scalars - k,
        {
            assert(32 * (k + 1) + 32 <= bytes@.len());
            let chunk = take_chunk(bytes, 32 * (k + 1), 32);
            proof {
                assert(chunk@ =~= chunk32(bytes@, k as int + 1));
            }
            match ScalarElem::from_bytes(&chunk) {
                Some(s) => {
                    responses.push(s);
                },
                None => {
                    return None;
                },
            }
            k += 1;
        }
        proof {
            assert forall|k: int| 0 <= k < n_scalars + 1 implies le_bytes_val(
                #[trigger] chunk32(bytes@, k),
            ) < group_order() by {
                if k > 0 {
                    assert(responses@[k - 1].wf());
                    assert(responses@[k - 1].v@ == le_bytes_val(chunk32(bytes@, k - 1 + 1)));
                }
            }
        }
        Some(CompactProof { challenge, responses })
    }
}

/// The `k`-th 48-byte chunk of a byte string.
pub open spec fn chunk48(bytes: Seq<u8>, k: int) -> Seq<u8> {
    bytes.subrange(48 * k, 48 * k + 48)
}

/// The 32-byte chunk at offset `start + 32 * k` of a byte string.
pub open spec fn chunk32_from(bytes: Seq<u8>, start: int, k: int) -> Seq<u8> {
    bytes.subrange(start + 32 * k, start + 32 * k + 32)
}

/// Whether a byte string parses as a batchable proof with `m` commitments
/// and `n` responses: `m` point chunks that each encode a group element,
/// then `n` scalar chunks that each hold a reduced value.
pub open spec fn batchable_parses(bytes: Seq<u8>, m: nat, n: nat) -> bool {
    &&& bytes.len() == 48 * m + 32 * n
    &&& forall|k: int|
        0 <= k < m ==> exists|d: nat|
            d < group_order() && #[trigger] chunk48(bytes, k) == point_enc(d)
    &&& forall|k: int|
        0 <= k < n ==> le_bytes_val(#[trigger] chunk32_from(bytes, 48 * m as int, k))
            < group_order()
}

impl BatchableProof {
    /// Serialize the proof: each commitment's encoding, then each
    /// response's encoding, in order.
    pub fn to_bytes(&self) -> (r: Vec<u8>)
        ensures
            r@ =~= batchable_bytes(
                point_resid(self.commitments@),
                scalar_resid(self.responses@),
            ),
    {
        let mut out: Vec<u8> = Vec::new();
        let mut i: usize = 0;
        proof {
            assert(point_resid(self.commitments@).subrange(0, 0) =~= Seq::<nat>::empty());
        }
        while i < self.commitments.len()
            invariant
                i <= self.commitments@.len(),
                out@ =~= points_bytes(point_resid(self.commitments@).subrange(0, i as int)),
            decreases self.commitments@.len() - i,
        {
            let mut b = self.commitments[i].to_bytes();
            out.append(&mut b);
            proof {
                let all = point_resid(self.commitments@);
                let cur = all.subrange(0, i as int + 1);
                assert(cur.drop_last() =~= all.subrange(0, i as int));
                assert(cur.last() == self.commitments@[i as int].d@);
            }
            i += 1;
        }
        proof {
            assert(point_resid(self.commitments@).subrange(
                0,
                self.commitments@.len() as int,
            ) =~= point_resid(self.commitments@));
        }
        let mut k: usize = 0;
        proof {
            assert(scalar_resid(self.responses@).subrange(0, 0) =~= Seq::<nat>::empty());
        }
        while k < self.responses.len()
            invariant
                k <= self.responses@.len(),
                out@ =~= points_bytes(point_resid(self.commitments@)) + scalars_bytes(
                    scalar_resid(self.responses@).subrange(0, k as int),
                ),
            decreases self.responses@.len() - k,
        {
            let mut b = self.responses[k].to_bytes();
            out.append(&mut b);
            proof {
                let all = scalar_resid(self.responses@);
                let cur = all.subrange(0, k as int + 1);
                assert(cur.drop_last() =~= all.subrange(0, k as int));
                assert(cur.last() == self.responses@[k as int].v@);
            }
            k += 1;
        }
        proof {
            assert(scalar_resid(self.responses@).subrange(
                0,
                self.responses@.len() as int,
            ) =~= scalar_resid(self.responses@));
        }
        out
    }

    /// Parse a batchable proof with `n_commitments` commitments and
    /// `n_scalars` responses from its wire form.  Succeeds exactly when
    /// every point chunk encodes a group element and every scalar chunk
    /// holds a reduced value; the parsed proof serializes back to the
    /// input, byte for byte.
    pub fn from_bytes(bytes: &Vec<u8>, n_commitments: usize, n_scalars: usize) -> (r: Option<
        BatchableProof,
    >)
        ensures
            (r is Some) <==> batchable_parses(bytes@, n_commitments as nat, n_scalars as nat),
            (match r {
                Some(p) => {
                    &&& p.wf()
                    &&& p.commitments@.len() == n_commitments
                    &&& p.responses@.len() == n_scalars
                    &&& bytes@ =~= batchable_bytes(
                        point_resid(p.commitments@),
                        scalar_resid(p.responses@),
                    )
                    &&& forall|k: int|
                        0 <= k < n_commitments ==> chunk48(bytes@, k) == point_enc(
                            (#[trigger] p.commitments@[k]).d@,
                        )
                    &&& forall|k: int, d: nat|
                        #![trigger point_enc(d), p.commitments@[k]]
                        0 <= k < n_commitments && d < group_order() && chunk48(bytes@, k)
                            == point_enc(d) ==> d == p.commitments@[k].d@
                    &&& forall|k: int|
                        0 <= k < n_scalars ==> (#[trigger] p.responses@[k]).v@ == le_bytes_val(
                            chunk32_from(bytes@, 48 * n_commitments as int, k),
                        )
                },
                None => true,
            }),
    {
        let total = bytes.len();
        let mut offset: usize = 0;
        let mut commitments: Vec<PointElem> = Vec::new();
        let mut j: usize = 0;
        while j < n_commitments
            invariant
                j <= n_commitments,
                total == bytes@.len(),
                offset == 48 * j,
                offset <= total,
                commitments@.len() == j,
                points_wf(commitments@),
                points_bytes(point_resid(commitments@)) =~= bytes@.subrange(0, offset as int),
                forall|k: int|
                    0 <= k < j ==> chunk48(bytes@, k) == point_enc(
                        (#[trigger] commitments@[k]).d@,
                    ),
                forall|k: int, d: nat|
                    #![trigger point_enc(d), commitments@[k]]
                    0 <= k < j && d < group_order() && chunk48(bytes@, k) == point_enc(d)
                        ==> d == commitments@[k].d@,
            decreases n_commitments - j,
        {
            if total - offset < 48 {
                return None;
            }
            let chunk = take_chunk(bytes, offset, 48);
            proof {
                assert(chunk@ =~= chunk48(bytes@, j as int));
            }
            match PointElem::from_bytes(&chunk) {
                Some(p) => {
                    proof {
                        let pre = point_resid(commitments@);
                        assert(bytes@.subrange(0, offset as int + 48) =~= bytes@.subrange(
                            0,
                            offset as int,
                        ) + chunk@);
                        assert(pre.push(p.d@).drop_last() =~= pre);
                        assert(points_bytes(pre.push(p.d@)) =~= points_bytes(pre) + point_enc(
                            p.d@,
                        ));
                    }
                    let ghost pre_coms = commitments@;
                    commitments.push(p);
                    proof {
                        assert(point_resid(commitments@) =~= point_resid(pre_coms).push(
                            commitments@.last().d@,
                        ));
                    }
                },
                None => {
                    return None;
                },
            }
            offset = offset + 48;
            j += 1;
        }
        let mut responses: Vec<ScalarElem> = Vec::new();
        let mut k: usize = 0;
        while k < n_scalars
            invariant
                k <= n_scalars,
                total == bytes@.len(),
                offset == 48 * n_commitments + 32 * k,
                offset <= total,
                commitments@.len() == n_commitments,
                points_wf(commitments@),
                points_bytes(point_resid(commitments@)) =~= bytes@.subrange(
                    0,
                    48 * n_commitments as int,
                ),
                forall|m: int|
                    0 <= m < n_commitments ==> chunk48(bytes@, m) == point_enc(
                        (#[trigger] commitments@[m]).d@,
                    ),
                forall|m: int, d: nat|
                    #![trigger point_enc(d), commitments@[m]]
                    0 <= m < n_commitments && d < group_order() && chunk48(bytes@, m)
                        == point_enc(d) ==> d == commitments@[m].d@,
                responses@.len() == k,
                scalars_wf(responses@),
                scalars_bytes(scalar_resid(responses@)) =~= bytes@.subrange(
                    48 * n_commitments as int,
                    offset as int,
                ),
                forall|m: int|
                    0 <= m < k ==> (#[trigger] responses@[m]).v@ == le_bytes_val(
                        chunk32_from(bytes@, 48 * n_commitments as int, m),
                    ),
            decreases n_scalars - k,
        {
            if total - offset < 32 {
                return None;
            }
            let chunk = take_chunk(bytes, offset, 32);
            proof {
                assert(chunk@ =~= chunk32_from(bytes@, 48 * n_commitments as int, k as int));
            }
            match ScalarElem::from_bytes(&chunk) {
                Some(s) => {
                    proof {
                        let pre = scalar_resid(responses@);
                        assert(bytes@.subrange(48 * n_commitments as int, offset as int + 32)
                            =~= bytes@.subrange(48 * n_commitments as int, offset as int)
                            + chunk@);
                        assert(pre.push(s.v@).drop_last() =~= pre);
                        assert(chunk@ =~= scalar_enc(s.v@)) by {
                            lemma_group_order_fits();
                            lemma_le_bytes_of_val(s.v@, 32);
                            lemma_le_bytes_of_len(s.v@, 32);
                            lemma_le_bytes_injective(chunk@, s.v@);
                        }
                        assert(scalars_bytes(pre.push(s.v@)) =~= scalars_bytes(pre)
                            + scalar_enc(s.v@));
                    }
                    let ghost pre_resp = responses@;
                    responses.push(s);
                    proof {
                        assert(scalar_resid(responses@) =~= scalar_resid(pre_resp).push(
                            responses@.last().v@,
                        ));
                    }
                },
                None => {
                    return None;
                },
            }
            offset = offset + 32;
            k += 1;
        }
        if offset != total {
            return None;
        }
        proof {
            assert(bytes@ =~= bytes@.subrange(0, 48 * n_commitments as int) + bytes@.subrange(
                48 * n_commitments as int,
                total as int,
            ));
            assert forall|m: int| 0 <= m < n_commitments implies exists|d: nat|
                d < group_order() && #[trigger] chunk48(bytes@, m) == point_enc(d) by {
                assert(commitments@[m].wf());
                assert(chunk48(bytes@, m) == point_enc(commitments@[m].d@));
            }
            assert forall|m: int| 0 <= m < n_scalars implies le_bytes_val(
                #[trigger] chunk32_from(bytes@, 48 * n_commitments as int, m),
            ) < group_order() by {
                assert(responses@[m].wf());
            }
        }
        Some(BatchableProof { commitments, responses })
    }
}

/// A concatenation of point encodings, each 48 bytes long, is 48 bytes
/// per point.
pub proof fn lemma_points_bytes_len(vals: Seq<nat>)
    requires
        forall|k: int| 0 <= k < vals.len() ==> point_enc(#[trigger] vals[k]).len() == 48,
    ensures
        points_bytes(vals).len() == 48 * vals.len(),
    decreases vals.len(),
{
    if vals.len() > 0 {
        let pre = vals.drop_last();
        assert(forall|k: int| 0 <= k < pre.len() ==> pre[k] == vals[k]);
        lemma_points_bytes_len(pre);
        assert(point_enc(vals.last()).len() == 48);
    }
}

/// The `k`-th 48-byte chunk of a concatenation of 48-byte point encodings
/// is the encoding of the `k`-th point.
pub proof fn lemma_points_bytes_chunk(vals: Seq<nat>, k: int)
    requires
        forall|m: int| 0 <= m < vals.len() ==> point_enc(#[trigger] vals[m]).len() == 48,
        0 <= k < vals.len(),
    ensures
        points_bytes(vals).subrange(48 * k, 48 * k + 48) =~= point_enc(vals[k]),
    decreases vals.len(),
{
    let pre = vals.drop_last();
    assert(forall|m: int| 0 <= m < pre.len() ==> pre[m] == vals[m]);
    lemma_points_bytes_len(pre);
    assert(point_enc(vals.last()).len() == 48);
    if k == vals.len() - 1 {
        assert(points_bytes(vals).subrange(48 * k, 48 * k + 48) =~= point_enc(vals.last()));
    } else {
        lemma_points_bytes_chunk(pre, k);
        assert(points_bytes(vals).subrange(48 * k, 48 * k + 48) =~= points_bytes(pre).subrange(
            48 * k,
            48 * k + 48,
        ));
        assert(pre[k] == vals[k]);
    }
}

/// Serialization round-trip for batchable proofs: the wire form of a proof
/// with commitments `tv` and responses `rs` parses, and each parsed chunk
/// recovers exactly the original commitment encoding and response, so a
/// parsed proof verifies exactly as the original.  Point encodings are 48
/// bytes wide, which the premises record.
pub proof fn lemma_batchable_round_trip(tv: Seq<nat>, rs: Seq<nat>)
    requires
        forall|k: int| 0 <= k < tv.len() ==> point_enc(#[trigger] tv[k]).len() == 48,
        all_reduced(tv),
        all_reduced(rs),
    ensures
        batchable_parses(batchable_bytes(tv, rs), tv.len(), rs.len()),
        forall|k: int|
            0 <= k < tv.len() ==> #[trigger] chunk48(batchable_bytes(tv, rs), k) == point_enc(
                tv[k],
            ),
        forall|k: int|
            0 <= k < rs.len() ==> le_bytes_val(
                #[trigger] chunk32_from(batchable_bytes(tv, rs), 48 * tv.len() as int, k),
            ) == rs[k],
{
    let bytes = batchable_bytes(tv, rs);
    lemma_points_bytes_len(tv);
    lemma_scalars_bytes_len(rs);
    assert forall|k: int| 0 <= k < tv.len() implies #[trigger] chunk48(bytes, k) == point_enc(
        tv[k],
    ) by {
        lemma_points_bytes_chunk(tv, k);
        assert(chunk48(bytes, k) =~= points_bytes(tv).subrange(48 * k, 48 * k + 48));
    }
    assert forall|k: int| 0 <= k < rs.len() implies le_bytes_val(
        #[trigger] chunk32_from(bytes, 48 * tv.len() as int, k),
    ) == rs[k] by {
        lemma_scalars_bytes_chunk(rs, k);
        assert(chunk32_from(bytes, 48 * tv.len() as int, k) =~= scalars_bytes(rs).subrange(
            32 * k,
            32 * k + 32,
        ));
        lemma_scalar_enc_val(rs[k]);
    }
    assert forall|k: int| 0 <= k < tv.len() implies exists|d: nat|
        d < group_order() && #[trigger] chunk48(bytes, k) == point_enc(d) by {
        assert(tv[k] < group_order() && chunk48(bytes, k) == point_enc(tv[k]));
    }
}

/// A 32-byte string whose value is a scalar's residue is that scalar's
/// canonical encoding.
pub proof fn lemma_le_bytes_injective(bytes: Seq<u8>, v: nat)
    requires
        bytes.len() == 32,
        v < group_order(),
        le_bytes_val(bytes) == v,
    ensures
        bytes =~= scalar_enc(v),
{
    lemma_group_order_fits();
    lemma_le_bytes_round(bytes);
}

/// Any byte string is the little-endian encoding of its own value.
proof fn lemma_le_bytes_round(bytes: Seq<u8>)
    ensures
        le_bytes_of(le_bytes_val(bytes), bytes.len()) =~= bytes,
    decreases bytes.len(),
{
    if bytes.len() > 0 {
        let rest = bytes.subrange(1, bytes.len() as int);
        lemma_le_bytes_round(rest);
        let v = le_bytes_val(bytes);
        assert(v == (bytes[0] as nat) + 256 * le_bytes_val(rest));
        assert(v % 256 == bytes[0] as nat && v / 256 == le_bytes_val(rest)) by {
            vstd::arithmetic::div_mod::lemma_fundamental_div_mod_converse(
                v as int,
                256,
                le_bytes_val(rest) as int,
                bytes[0] as int,
            );
        }
        assert(le_bytes_of(v, bytes.len()) =~= seq![(v % 256) as u8] + le_bytes_of(
            v / 256,
            (bytes.len() - 1) as nat,
        ));
    }
}

} // verus!
