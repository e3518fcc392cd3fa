//! The duplex-style transcript oracle, modelled by its operation log.
//!
//! A [`ProofTranscript`] wraps a `merlin::Transcript` together with a ghost
//! log of the operations applied to it.  The hashing itself is opaque; what
//! the contracts use is that the device is deterministic: the bytes squeezed
//! out are a function of the log alone, which [`chal_bytes`] names.
//!
//! Each labelled absorption is framed as two underlying transcript messages,
//! one carrying the label and one carrying the payload, so that distinct
//! `(label, message)` pairs reach distinct transcript states.

use vstd::prelude::*;
use vstd::pervasive::arbitrary;

use crate::algebra::{group_order, le_bytes_val};
use crate::scalar::ScalarElem;

verus! {

#[verifier::external_type_specification]
#[verifier::external_body]
pub struct ExMerlinTranscript(merlin::Transcript);

#[verifier::external_type_specification]
#[verifier::external_body]
pub struct ExMerlinRngBuilder(merlin::TranscriptRngBuilder);

#[verifier::external_type_specification]
#[verifier::external_body]
pub struct ExMerlinRng(merlin::TranscriptRng);

/// One entry of the transcript's operation log: `(kind, label, bytes)`,
/// where kind 0 records an absorbed message and kind 1 records a squeeze
/// together with the bytes it produced.
pub type LogEntry = (int, Seq<u8>, Seq<u8>);

/// The pseudorandom bytes that the transcript with the given log squeezes
/// under the given label when asked for `n` bytes.  Named, not stated: the
/// result is a function of the log, the label and the length alone.
pub uninterp spec fn chal_bytes(log: Seq<LogEntry>, label: Seq<u8>, n: nat) -> Seq<u8>;

/// The log entry recording that `msg` was absorbed under `label`.
pub open spec fn absorbed(label: Seq<u8>, msg: Seq<u8>) -> LogEntry {
    (0int, label, msg)
}

/// The log entry recording a squeeze under `label` that produced `out`.
pub open spec fn squeezed(label: Seq<u8>, out: Seq<u8>) -> LogEntry {
    (1int, label, out)
}

/// An append-only transcript of labelled bytes from which challenges are
/// squeezed.
pub struct ProofTranscript {
    pub inner: merlin::Transcript,
    /// The log of operations applied to this transcript so far.
    pub log: Ghost<Seq<LogEntry>>,
}

impl ProofTranscript {
    /// Relies on `merlin::Transcript::new`, which derives the initial state
    /// deterministically from the label.
    #[verifier::external_body]
    pub fn new(label: &'static [u8]) -> (r: ProofTranscript)
        ensures
            r.log@ =~= seq![absorbed(label@, Seq::<u8>::empty())],
    {
        ProofTranscript { inner: merlin::Transcript::new(label), log: Ghost(arbitrary()) }
    }

    /// Relies on `merlin::Transcript::append_message`, which absorbs a
    /// framed message deterministically into the state.  The label and the
    /// payload are absorbed as two framed messages, so the pair reaches the
    /// state unambiguously.
    #[verifier::external_body]
    pub fn append_message(&mut self, label: &[u8], message: &[u8])
        ensures
            final(self).log@ =~= old(self).log@.push(absorbed(label@, message@)),
    {
        self.inner.append_message(b"lbl", label);
        self.inner.append_message(b"msg", message);
    }

    /// Relies on `merlin::Transcript::append_message` and
    /// `merlin::Transcript::challenge_bytes`: the label is absorbed as a
    /// framed message, and the bytes then squeezed are a function of the
    /// state and the requested length.
    #[verifier::external_body]
    pub fn challenge_bytes(&mut self, label: &[u8], n: usize) -> (r: Vec<u8>)
        ensures
            r@ == chal_bytes(old(self).log@, label@, n as nat),
            r@.len() == n,
            final(self).log@ =~= old(self).log@.push(squeezed(label@, r@)),
    {
        let mut out = vec![0u8; n];
        self.inner.append_message(b"lbl", label);
        self.inner.challenge_bytes(b"chl", &mut out);
        out
    }

    /// Relies on `merlin::Transcript::build_rng`, which snapshots the state
    /// into a generator builder without changing the transcript.
    #[verifier::external_body]
    pub fn build_rng(&self) -> (r: merlin::TranscriptRngBuilder) {
        self.inner.build_rng()
    }
}

/// Relies on `merlin::TranscriptRngBuilder::rekey_with_witness_bytes`, which
/// mixes the witness bytes into the builder.
#[verifier::external_body]
pub fn rekey_with_witness_bytes(
    builder: merlin::TranscriptRngBuilder,
    witness: &[u8],
) -> (r: merlin::TranscriptRngBuilder) {
    builder.rekey_with_witness_bytes(b"", witness)
}

/// Relies on `merlin::TranscriptRngBuilder::finalize` and `rand::thread_rng`,
/// which seed the generator from the builder state and fresh entropy.
#[verifier::external_body]
pub fn finalize_rng(builder: merlin::TranscriptRngBuilder) -> (r: merlin::TranscriptRng) {
    builder.finalize(&mut rand::thread_rng())
}

/// The tag under which a proof's domain label is absorbed: `"proof-label"`.
pub open spec fn tag_proof_label() -> Seq<u8> {
    seq![112u8, 114u8, 111u8, 111u8, 102u8, 45u8, 108u8, 97u8, 98u8, 101u8, 108u8]
}

/// The tag under which a secret variable's label is absorbed: `"scvar"`.
pub open spec fn tag_scvar() -> Seq<u8> {
    seq![115u8, 99u8, 118u8, 97u8, 114u8]
}

/// The tag under which a point variable is absorbed: `"ptvar"`.
pub open spec fn tag_ptvar() -> Seq<u8> {
    seq![112u8, 116u8, 118u8, 97u8, 114u8]
}

/// The tag under which a blinding commitment is absorbed: `"blindcom"`.
pub open spec fn tag_blindcom() -> Seq<u8> {
    seq![98u8, 108u8, 105u8, 110u8, 100u8, 99u8, 111u8, 109u8]
}

/// The label under which challenges are squeezed: `"chal"`.
pub open spec fn tag_chal() -> Seq<u8> {
    seq![99u8, 104u8, 97u8, 108u8]
}

/// The ASCII bytes of `"proof-label"`.
pub fn make_tag_proof_label() -> (r: Vec<u8>)
    ensures
        r@ =~= tag_proof_label(),
{
    let mut v: Vec<u8> = Vec::new();
    v.push(112u8);
    v.push(114u8);
    v.push(111u8);
    v.push(111u8);
    v.push(102u8);
    v.push(45u8);
    v.push(108u8);
    v.push(97u8);
    v.push(98u8);
    v.push(101u8);
    v.push(108u8);
    v
}

/// The ASCII bytes of `"scvar"`.
pub fn make_tag_scvar() -> (r: Vec<u8>)
    ensures
        r@ =~= tag_scvar(),
{
    let mut v: Vec<u8> = Vec::new();
    v.push(115u8);
    v.push(99u8);
    v.push(118u8);
    v.push(97u8);
    v.push(114u8);
    v
}

/// The ASCII bytes of `"ptvar"`.
pub fn make_tag_ptvar() -> (r: Vec<u8>)
    ensures
        r@ =~= tag_ptvar(),
{
    let mut v: Vec<u8> = Vec::new();
    v.push(112u8);
    v.push(116u8);
    v.push(118u8);
    v.push(97u8);
    v.push(114u8);
    v
}

/// The ASCII bytes of `"blindcom"`.
pub fn make_tag_blindcom() -> (r: Vec<u8>)
    ensures
        r@ =~= tag_blindcom(),
{
    let mut v: Vec<u8> = Vec::new();
    v.push(98u8);
    v.push(108u8);
    v.push(105u8);
    v.push(110u8);
    v.push(100u8);
    v.push(99u8);
    v.push(111u8);
    v.push(109u8);
    v
}

/// The ASCII bytes of `"chal"`.
pub fn make_tag_chal() -> (r: Vec<u8>)
    ensures
        r@ =~= tag_chal(),
{
    let mut v: Vec<u8> = Vec::new();
    v.push(99u8);
    v.push(104u8);
    v.push(97u8);
    v.push(108u8);
    v
}

/// The residue of the challenge scalar squeezed from a transcript whose log
/// is `log`: sixty-four bytes squeezed under the challenge label, reduced
/// widely into the field.
pub open spec fn challenge_val(log: Seq<LogEntry>) -> nat {
    le_bytes_val(chal_bytes(log, tag_chal(), 64)) % group_order()
}

impl ProofTranscript {
    /// Squeeze the challenge scalar for the current transcript state.
    pub fn get_challenge(&mut self) -> (r: ScalarElem)
        ensures
            r.wf(),
            r.v@ == challenge_val(old(self).log@),
            final(self).log@ =~= old(self).log@.push(
                squeezed(tag_chal(), chal_bytes(old(self).log@, tag_chal(), 64)),
            ),
    {
        let tag = make_tag_chal();
        let bytes = self.challenge_bytes(tag.as_slice(), 64);
        ScalarElem::from_wide_bytes(&bytes)
    }
}

} // verus!
