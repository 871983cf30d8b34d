//! Proof transcripts and their publicization.
//!
//! A proof transcript is the nested object a proving run emits: per-round
//! prover messages, grouped polynomial commitments with optional shifted
//! parts, evaluation claims, and a batched opening proof. The transcript is
//! generic in its leaf representation: a distributed prover emits one whose
//! leaves are secret shared, a verifier consumes one whose leaves are
//! plaintext. Publicization walks the shared transcript and reveals every
//! leaf exactly once, producing a plaintext transcript of identical shape:
//! same sequence lengths, same round tags, same optional-field presence,
//! leaves in the same order.

use vstd::prelude::*;

use crate::shares::SecretSharedValue;

verus! {

/// One round's prover message: either nothing or a list of field elements.
pub enum ProverMsg<V> {
    EmptyMessage,
    FieldElements(Vec<V>),
}

/// A polynomial commitment: a base part and an optional shifted part.
pub struct Commitment<V> {
    pub comm: V,
    pub shifted_comm: Option<V>,
}

/// One per-query opening proof: a witness value and an optional
/// randomizer.
pub struct OpeningProof<V> {
    pub w: V,
    pub random_v: Option<V>,
}

/// The batched opening proof: one opening per query, plus an optional list
/// of claimed evaluations.
pub struct BatchLcProof<V> {
    pub proof: Vec<OpeningProof<V>>,
    pub evals: Option<Vec<V>>,
}

/// The full transcript of one proving run.
pub struct ProofTranscript<V> {
    pub commitments: Vec<Vec<Commitment<V>>>,
    pub evaluations: Vec<V>,
    pub prover_messages: Vec<ProverMsg<V>>,
    pub pc_proof: BatchLcProof<V>,
}

// --- well-formedness of a secret-shared transcript ---

/// Every shared leaf of a sequence is well formed.
pub open spec fn seq_wf(s: Seq<SecretSharedValue>) -> bool {
    forall|i: int| 0 <= i < s.len() ==> (#[trigger] s[i]).wf()
}

/// An optional shared leaf is well formed when present.
pub open spec fn opt_wf(s: Option<SecretSharedValue>) -> bool {
    match s {
        Option::None => true,
        Option::Some(v) => v.wf(),
    }
}

/// Every leaf of a prover message is well formed.
pub open spec fn msg_wf(m: ProverMsg<SecretSharedValue>) -> bool {
    match m {
        ProverMsg::EmptyMessage => true,
        ProverMsg::FieldElements(d) => seq_wf(d@),
    }
}

/// Every leaf of a commitment is well formed.
pub open spec fn comm_wf(c: Commitment<SecretSharedValue>) -> bool {
    c.comm.wf() && opt_wf(c.shifted_comm)
}

/// Every leaf of an opening proof is well formed.
pub open spec fn opening_wf(p: OpeningProof<SecretSharedValue>) -> bool {
    p.w.wf() && opt_wf(p.random_v)
}

/// Every leaf of a batched opening proof is well formed.
pub open spec fn batch_wf(b: BatchLcProof<SecretSharedValue>) -> bool {
    &&& forall|i: int| 0 <= i < b.proof@.len() ==> opening_wf(#[trigger] b.proof@[i])
    &&& match b.evals {
        Option::None => true,
        Option::Some(e) => seq_wf(e@),
    }
}

/// Every leaf of a transcript is well formed.
pub open spec fn transcript_wf(k: ProofTranscript<SecretSharedValue>) -> bool {
    &&& forall|i: int, j: int|
        0 <= i < k.commitments@.len() && 0 <= j < k.commitments@[i]@.len() ==> comm_wf(
            #[trigger] k.commitments@[i]@[j],
        )
    &&& seq_wf(k.evaluations@)
    &&& forall|i: int| 0 <= i < k.prover_messages@.len() ==> msg_wf(#[trigger] k.prover_messages@[i])
    &&& batch_wf(k.pc_proof)
}

// --- the reveal relation between a shared and a plaintext transcript ---

/// The plaintext leaf is the value the shared leaf represents.
pub open spec fn leaf_revealed(s: SecretSharedValue, p: u64) -> bool {
    p as int == s.value()
}

/// Presence agrees, and a present leaf is revealed.
pub open spec fn opt_leaf_revealed(s: Option<SecretSharedValue>, p: Option<u64>) -> bool {
    match (s, p) {
        (Option::None, Option::None) => true,
        (Option::Some(sv), Option::Some(pv)) => leaf_revealed(sv, pv),
        _ => false,
    }
}

/// Same length, and each leaf revealed in order.
pub open spec fn seq_leaves_revealed(s: Seq<SecretSharedValue>, p: Seq<u64>) -> bool {
    p.len() == s.len() && forall|i: int| 0 <= i < s.len() ==> leaf_revealed(
        #[trigger] s[i],
        #[trigger] p[i],
    )
}

/// Same round tag; a list round is revealed elementwise.
pub open spec fn msg_revealed(s: ProverMsg<SecretSharedValue>, p: ProverMsg<u64>) -> bool {
    match (s, p) {
        (ProverMsg::EmptyMessage, ProverMsg::EmptyMessage) => true,
        (ProverMsg::FieldElements(a), ProverMsg::FieldElements(b)) => seq_leaves_revealed(a@, b@),
        _ => false,
    }
}

/// Base part revealed; shifted part revealed, presence preserved.
pub open spec fn comm_revealed(s: Commitment<SecretSharedValue>, p: Commitment<u64>) -> bool {
    leaf_revealed(s.comm, p.comm) && opt_leaf_revealed(s.shifted_comm, p.shifted_comm)
}

/// Witness value revealed; randomizer revealed, presence preserved.
pub open spec fn opening_revealed(s: OpeningProof<SecretSharedValue>, p: OpeningProof<u64>) -> bool {
    leaf_revealed(s.w, p.w) && opt_leaf_revealed(s.random_v, p.random_v)
}

/// Every opening revealed in order; claimed evaluations revealed, presence
/// preserved.
pub open spec fn batch_revealed(s: BatchLcProof<SecretSharedValue>, p: BatchLcProof<u64>) -> bool {
    &&& p.proof@.len() == s.proof@.len()
    &&& forall|i: int| 0 <= i < s.proof@.len() ==> opening_revealed(
        #[trigger] s.proof@[i],
        #[trigger] p.proof@[i],
    )
    &&& match (s.evals, p.evals) {
        (Option::None, Option::None) => true,
        (Option::Some(a), Option::Some(b)) => seq_leaves_revealed(a@, b@),
        _ => false,
    }
}

/// The whole relation: the plaintext transcript has the shape of the shared
/// one and every leaf is the revealed value of its counterpart.
pub open spec fn transcript_revealed(
    s: ProofTranscript<SecretSharedValue>,
    p: ProofTranscript<u64>,
) -> bool {
    &&& p.commitments@.len() == s.commitments@.len()
    &&& forall|i: int| 0 <= i < s.commitments@.len() ==> (#[trigger] p.commitments@[i])@.len()
        == (#[trigger] s.commitments@[i])@.len()
    &&& forall|i: int, j: int|
        0 <= i < s.commitments@.len() && 0 <= j < s.commitments@[i]@.len() ==> comm_revealed(
            #[trigger] s.commitments@[i]@[j],
            #[trigger] p.commitments@[i]@[j],
        )
    &&& seq_leaves_revealed(s.evaluations@, p.evaluations@)
    &&& p.prover_messages@.len() == s.prover_messages@.len()
    &&& forall|i: int| 0 <= i < s.prover_messages@.len() ==> msg_revealed(
        #[trigger] s.prover_messages@[i],
        #[trigger] p.prover_messages@[i],
    )
    &&& batch_revealed(s.pc_proof, p.pc_proof)
}

// --- the publicization walk ---

/// Reveals every leaf of a list, in order.
fn reveal_leaves(d: &Vec<SecretSharedValue>) -> (r: Vec<u64>)
    requires
        seq_wf(d@),
    ensures
        seq_leaves_revealed(d@, r@),
{
    let n = d.len();
    let mut out: Vec<u64> = Vec::new();
    let mut i: usize = 0;
    while i < n
        invariant
            n == d@.len(),
            0 <= i <= n,
            seq_wf(d@),
            out@.len() == i,
            forall|j: int| 0 <= j < i ==> leaf_revealed(#[trigger] d@[j], #[trigger] out@[j]),
        decreases n - i,
    {
        out.push(d[i].reveal_value());
        i = i + 1;
    }
    out
}

/// Reveals an optional leaf, preserving absence.
fn reveal_opt_leaf(s: Option<SecretSharedValue>) -> (r: Option<u64>)
    requires
        opt_wf(s),
    ensures
        opt_leaf_revealed(s, r),
{
    match s {
        Option::None => Option::None,
        Option::Some(v) => Option::Some(v.reveal_value()),
    }
}

/// Reveals one round's prover message, preserving the round tag.
pub fn prover_message_publicize(p: ProverMsg<SecretSharedValue>) -> (r: ProverMsg<u64>)
    requires
        msg_wf(p),
    ensures
        msg_revealed(p, r),
{
    match p {
        ProverMsg::EmptyMessage => ProverMsg::EmptyMessage,
        ProverMsg::FieldElements(d) => ProverMsg::FieldElements(reveal_leaves(&d)),
    }
}

/// Reveals a commitment leaf.
pub fn commit_from_mpc(p: SecretSharedValue) -> (r: u64)
    requires
        p.wf(),
    ensures
        leaf_revealed(p, r),
{
    p.reveal_value()
}

/// Reveals a commitment: the base part, and the shifted part when present.
pub fn comm_publicize(pf: Commitment<SecretSharedValue>) -> (r: Commitment<u64>)
    requires
        comm_wf(pf),
    ensures
        comm_revealed(pf, r),
{
    let shifted = reveal_opt_leaf(pf.shifted_comm);
    Commitment { comm: commit_from_mpc(pf.comm), shifted_comm: shifted }
}

/// Reveals one per-query opening proof, preserving the randomizer's
/// presence.
pub fn pf_from_mpc(pf: OpeningProof<SecretSharedValue>) -> (r: OpeningProof<u64>)
    requires
        opening_wf(pf),
    ensures
        opening_revealed(pf, r),
{
    let random_v = reveal_opt_leaf(pf.random_v);
    OpeningProof { w: pf.w.reveal_value(), random_v }
}

/// Reveals the batched opening proof: every opening in order, and the
/// claimed evaluations when present.
pub fn batch_pf_publicize(pf: BatchLcProof<SecretSharedValue>) -> (r: BatchLcProof<u64>)
    requires
        batch_wf(pf),
    ensures
        batch_revealed(pf, r),
{
    let ghost gproof = pf.proof@;
    let BatchLcProof { proof: mut pending, evals: shared_evals } = pf;
    let n = pending.len();
    let mut openings: Vec<OpeningProof<u64>> = Vec::new();
    let mut i: usize = 0;
    while i < n
        invariant
            n == gproof.len(),
            0 <= i <= n,
            pending@ == gproof.subrange(i as int, n as int),
            forall|j: int| 0 <= j < gproof.len() ==> opening_wf(#[trigger] gproof[j]),
            openings@.len() == i,
            forall|j: int| 0 <= j < i ==> opening_revealed(
                #[trigger] gproof[j],
                #[trigger] openings@[j],
            ),
        decreases n - i,
    {
        let s = pending.remove(0);
        proof {
            assert(s == gproof[i as int]);
            assert(pending@ =~= gproof.subrange(i + 1, n as int));
        }
        openings.push(pf_from_mpc(s));
        i = i + 1;
    }
    let evals = match shared_evals {
        Option::None => Option::None,
        Option::Some(e) => Option::Some(reveal_leaves(&e)),
    };
    BatchLcProof { proof: openings, evals }
}

/// Publicizes a whole transcript: reveals every leaf exactly once and
/// keeps the shape — lengths, round tags and optional-field presence —
/// exactly as the shared transcript has it.
pub fn pf_publicize(k: ProofTranscript<SecretSharedValue>) -> (r: ProofTranscript<u64>)
    requires
        transcript_wf(k),
    ensures
        transcript_revealed(k, r),
{
    let ghost gk = k;
    let ProofTranscript {
        commitments: mut shared_groups,
        evaluations: shared_evaluations,
        prover_messages: mut shared_messages,
        pc_proof: shared_pc_proof,
    } = k;
    let n_groups = shared_groups.len();
    let mut commitments: Vec<Vec<Commitment<u64>>> = Vec::new();
    let mut i: usize = 0;
    while i < n_groups
        invariant
            n_groups == gk.commitments@.len(),
            0 <= i <= n_groups,
            shared_groups@ == gk.commitments@.subrange(i as int, n_groups as int),
            transcript_wf(gk),
            commitments@.len() == i,
            forall|a: int| 0 <= a < i ==> (#[trigger] commitments@[a])@.len()
                == (#[trigger] gk.commitments@[a])@.len(),
            forall|a: int, b: int|
                0 <= a < i && 0 <= b < gk.commitments@[a]@.len() ==> comm_revealed(
                    #[trigger] gk.commitments@[a]@[b],
                    #[trigger] commitments@[a]@[b],
                ),
        decreases n_groups - i,
    {
        let mut group = shared_groups.remove(0);
        proof {
            assert(group == gk.commitments@[i as int]);
            assert(shared_groups@ =~= gk.commitments@.subrange(i + 1, n_groups as int));
        }
        let m = group.len();
        let mut out_group: Vec<Commitment<u64>> = Vec::new();
        let mut j: usize = 0;
        while j < m
            invariant
                m == gk.commitments@[i as int]@.len(),
                0 <= i < n_groups,
                n_groups == gk.commitments@.len(),
                0 <= j <= m,
                group@ == gk.commitments@[i as int]@.subrange(j as int, m as int),
                transcript_wf(gk),
                out_group@.len() == j,
                forall|b: int| 0 <= b < j ==> comm_revealed(
                    #[trigger] gk.commitments@[i as int]@[b],
                    #[trigger] out_group@[b],
                ),
            decreases m - j,
        {
            let s = group.remove(0);
            proof {
                assert(s == gk.commitments@[i as int]@[j as int]);
                assert(group@ =~= gk.commitments@[i as int]@.subrange(j + 1, m as int));
            }
            out_group.push(comm_publicize(s));
            j = j + 1;
        }
        commitments.push(out_group);
        i = i + 1;
    }
    let evaluations = reveal_leaves(&shared_evaluations);
    let n_msgs = shared_messages.len();
    let mut prover_messages: Vec<ProverMsg<u64>> = Vec::new();
    let mut t: usize = 0;
    while t < n_msgs
        invariant
            n_msgs == gk.prover_messages@.len(),
            0 <= t <= n_msgs,
            shared_messages@ == gk.prover_messages@.subrange(t as int, n_msgs as int),
            transcript_wf(gk),
            prover_messages@.len() == t,
            forall|a: int| 0 <= a < t ==> msg_revealed(
                #[trigger] gk.prover_messages@[a],
                #[trigger] prover_messages@[a],
            ),
        decreases n_msgs - t,
    {
        let s = shared_messages.remove(0);
        proof {
            assert(s == gk.prover_messages@[t as int]);
            assert(shared_messages@ =~= gk.prover_messages@.subrange(t + 1, n_msgs as int));
        }
        prover_messages.push(prover_message_publicize(s));
        t = t + 1;
    }
    let pc_proof = batch_pf_publicize(shared_pc_proof);
    ProofTranscript { commitments, evaluations, prover_messages, pc_proof }
}

} // verus!

verus! {

/// Two rounds have the same shape: same tag, and same length when both are
/// lists.
pub open spec fn msg_same_shape(s: ProverMsg<SecretSharedValue>, p: ProverMsg<u64>) -> bool {
    match (s, p) {
        (ProverMsg::EmptyMessage, ProverMsg::EmptyMessage) => true,
        (ProverMsg::FieldElements(a), ProverMsg::FieldElements(b)) => a@.len() == b@.len(),
        _ => false,
    }
}

/// Two optional fields are equally present or equally absent.
pub open spec fn same_presence<A, B>(s: Option<A>, p: Option<B>) -> bool {
    s is Some <==> p is Some
}

/// The plaintext transcript has exactly the shared transcript's shape:
/// every sequence length, every round tag, and every optional-field
/// presence pattern.
pub open spec fn transcript_same_shape(
    s: ProofTranscript<SecretSharedValue>,
    p: ProofTranscript<u64>,
) -> bool {
    &&& p.prover_messages@.len() == s.prover_messages@.len()
    &&& forall|i: int| 0 <= i < s.prover_messages@.len() ==> msg_same_shape(
        #[trigger] s.prover_messages@[i],
        #[trigger] p.prover_messages@[i],
    )
    &&& p.commitments@.len() == s.commitments@.len()
    &&& forall|i: int| 0 <= i < s.commitments@.len() ==> (#[trigger] p.commitments@[i])@.len()
        == (#[trigger] s.commitments@[i])@.len()
    &&& forall|i: int, j: int|
        0 <= i < s.commitments@.len() && 0 <= j < s.commitments@[i]@.len() ==> same_presence(
            (#[trigger] s.commitments@[i]@[j]).shifted_comm,
            (#[trigger] p.commitments@[i]@[j]).shifted_comm,
        )
    &&& p.evaluations@.len() == s.evaluations@.len()
    &&& p.pc_proof.proof@.len() == s.pc_proof.proof@.len()
    &&& forall|i: int| 0 <= i < s.pc_proof.proof@.len() ==> same_presence(
        (#[trigger] s.pc_proof.proof@[i]).random_v,
        (#[trigger] p.pc_proof.proof@[i]).random_v,
    )
    &&& same_presence(s.pc_proof.evals, p.pc_proof.evals)
    &&& match (s.pc_proof.evals, p.pc_proof.evals) {
        (Option::Some(a), Option::Some(b)) => a@.len() == b@.len(),
        _ => true,
    }
}

/// Publicization preserves shape: a revealed transcript has exactly as many
/// rounds, commitment groups, evaluations and per-query openings as the
/// shared one, with every round tag and every optional-field presence
/// pattern matching.
pub proof fn lemma_publicize_preserves_shape(
    s: ProofTranscript<SecretSharedValue>,
    p: ProofTranscript<u64>,
)
    requires
        transcript_revealed(s, p),
    ensures
        transcript_same_shape(s, p),
{
    assert forall|i: int| 0 <= i < s.prover_messages@.len() implies msg_same_shape(
        #[trigger] s.prover_messages@[i],
        #[trigger] p.prover_messages@[i],
    ) by {
        assert(msg_revealed(s.prover_messages@[i], p.prover_messages@[i]));
    }
    assert forall|i: int, j: int|
        0 <= i < s.commitments@.len() && 0 <= j < s.commitments@[i]@.len() implies same_presence(
        (#[trigger] s.commitments@[i]@[j]).shifted_comm,
        (#[trigger] p.commitments@[i]@[j]).shifted_comm,
    ) by {
        assert(comm_revealed(s.commitments@[i]@[j], p.commitments@[i]@[j]));
    }
    assert forall|i: int| 0 <= i < s.pc_proof.proof@.len() implies same_presence(
        (#[trigger] s.pc_proof.proof@[i]).random_v,
        (#[trigger] p.pc_proof.proof@[i]).random_v,
    ) by {
        assert(opening_revealed(s.pc_proof.proof@[i], p.pc_proof.proof@[i]));
    }
}

/// Publicizing reveals each leaf independently: every plaintext leaf of
/// the revealed transcript is exactly the value a direct reveal of its
/// shared counterpart yields, with no cross-leaf interference.
pub proof fn lemma_publicize_leaves_independent(
    s: ProofTranscript<SecretSharedValue>,
    p: ProofTranscript<u64>,
)
    requires
        transcript_revealed(s, p),
    ensures
        forall|i: int| 0 <= i < s.evaluations@.len() ==> (#[trigger] p.evaluations@[i]) as int
            == (#[trigger] s.evaluations@[i]).value(),
        forall|i: int, j: int|
            0 <= i < s.commitments@.len() && 0 <= j < s.commitments@[i]@.len()
                ==> (#[trigger] p.commitments@[i]@[j]).comm as int
                == (#[trigger] s.commitments@[i]@[j]).comm.value() && opt_leaf_revealed(
                s.commitments@[i]@[j].shifted_comm,
                p.commitments@[i]@[j].shifted_comm,
            ),
        forall|i: int| 0 <= i < s.prover_messages@.len() ==> msg_revealed(
            #[trigger] s.prover_messages@[i],
            #[trigger] p.prover_messages@[i],
        ),
        forall|i: int| 0 <= i < s.pc_proof.proof@.len()
            ==> (#[trigger] p.pc_proof.proof@[i]).w as int
            == (#[trigger] s.pc_proof.proof@[i]).w.value() && opt_leaf_revealed(
            s.pc_proof.proof@[i].random_v,
            p.pc_proof.proof@[i].random_v,
        ),
        match (s.pc_proof.evals, p.pc_proof.evals) {
            (Option::Some(a), Option::Some(b)) => seq_leaves_revealed(a@, b@),
            (Option::None, Option::None) => true,
            _ => false,
        },
{
    assert forall|i: int, j: int|
        0 <= i < s.commitments@.len() && 0 <= j < s.commitments@[i]@.len() implies (
    #[trigger] p.commitments@[i]@[j]).comm as int == (
    #[trigger] s.commitments@[i]@[j]).comm.value() && opt_leaf_revealed(
        s.commitments@[i]@[j].shifted_comm,
        p.commitments@[i]@[j].shifted_comm,
    ) by {
        assert(comm_revealed(s.commitments@[i]@[j], p.commitments@[i]@[j]));
    }
    assert forall|i: int| 0 <= i < s.pc_proof.proof@.len() implies (
    #[trigger] p.pc_proof.proof@[i]).w as int == (
    #[trigger] s.pc_proof.proof@[i]).w.value() && opt_leaf_revealed(
        s.pc_proof.proof@[i].random_v,
        p.pc_proof.proof@[i].random_v,
    ) by {
        assert(opening_revealed(s.pc_proof.proof@[i], p.pc_proof.proof@[i]));
    }
}

} // verus!
