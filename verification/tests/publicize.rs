use mpc_snarks::shares::SecretSharedValue;
use mpc_snarks::transcript::BatchLcProof;
use mpc_snarks::transcript::Commitment;
use mpc_snarks::transcript::OpeningProof;
use mpc_snarks::transcript::ProofTranscript;
use mpc_snarks::transcript::ProverMsg;
use mpc_snarks::transcript::batch_pf_publicize;
use mpc_snarks::transcript::comm_publicize;
use mpc_snarks::transcript::commit_from_mpc;
use mpc_snarks::transcript::pf_from_mpc;
use mpc_snarks::transcript::pf_publicize;
use mpc_snarks::transcript::prover_message_publicize;

fn king(value: u64) -> SecretSharedValue {
    SecretSharedValue::share_with_king(value, 3)
}

/// A shared value whose plaintext is split over several parties.
fn split(shares: Vec<u64>) -> SecretSharedValue {
    SecretSharedValue { shares }
}

fn sample_transcript() -> ProofTranscript<SecretSharedValue> {
    ProofTranscript {
        commitments: vec![
            vec![
                Commitment { comm: king(2), shifted_comm: Some(king(5)) },
                Commitment { comm: king(1), shifted_comm: None },
            ],
            vec![],
            vec![Commitment { comm: split(vec![4, 4, 3]), shifted_comm: None }],
        ],
        evaluations: vec![king(9), split(vec![6, 6]), king(0)],
        prover_messages: vec![
            ProverMsg::EmptyMessage,
            ProverMsg::FieldElements(vec![king(3), king(7)]),
        ],
        pc_proof: BatchLcProof {
            proof: vec![
                OpeningProof { w: king(4), random_v: Some(king(6)) },
                OpeningProof { w: king(0), random_v: None },
            ],
            evals: Some(vec![king(8), split(vec![10, 2])]),
        },
    }
}

#[test]
fn shares_reveal_to_their_sum() {
    assert_eq!(king(7).reveal_value(), 7);
    assert_eq!(split(vec![4, 4, 3]).reveal_value(), 0);
    assert_eq!(split(vec![10, 2]).reveal_value(), 1);
    assert_eq!(king(5).add(&king(9)).reveal_value(), 3);
    assert_eq!(king(5).mul(&king(4)).reveal_value(), 9);
}

#[test]
fn leaf_publicizers_reveal() {
    assert_eq!(commit_from_mpc(king(6)), 6);
    let c = comm_publicize(Commitment { comm: split(vec![2, 3]), shifted_comm: Some(king(1)) });
    assert_eq!(c.comm, 5);
    assert_eq!(c.shifted_comm, Some(1));
    let o = pf_from_mpc(OpeningProof { w: king(9), random_v: None });
    assert_eq!(o.w, 9);
    assert_eq!(o.random_v, None);
}

#[test]
fn prover_message_rounds_keep_their_tag() {
    let empty = prover_message_publicize(ProverMsg::EmptyMessage);
    assert!(matches!(empty, ProverMsg::EmptyMessage));
    let full = prover_message_publicize(ProverMsg::FieldElements(vec![king(3), split(vec![5, 8])]));
    match full {
        ProverMsg::FieldElements(d) => assert_eq!(d, vec![3, 2]),
        ProverMsg::EmptyMessage => panic!("round tag changed"),
    }
}

#[test]
fn batch_proof_publicize_preserves_options() {
    let b = batch_pf_publicize(BatchLcProof {
        proof: vec![OpeningProof { w: king(4), random_v: Some(king(6)) }],
        evals: None,
    });
    assert_eq!(b.proof.len(), 1);
    assert_eq!(b.proof[0].w, 4);
    assert_eq!(b.proof[0].random_v, Some(6));
    assert!(b.evals.is_none());
}

#[test]
fn transcript_publicize_keeps_shape_and_reveals_leaves() {
    let p = pf_publicize(sample_transcript());
    // Shape: group count, per-group lengths, round tags, option patterns.
    assert_eq!(p.commitments.len(), 3);
    assert_eq!(p.commitments[0].len(), 2);
    assert_eq!(p.commitments[1].len(), 0);
    assert_eq!(p.commitments[2].len(), 1);
    assert_eq!(p.evaluations.len(), 3);
    assert_eq!(p.prover_messages.len(), 2);
    assert!(matches!(p.prover_messages[0], ProverMsg::EmptyMessage));
    assert_eq!(p.pc_proof.proof.len(), 2);
    // Leaves: each equals the direct reveal of its shared counterpart.
    assert_eq!(p.commitments[0][0].comm, 2);
    assert_eq!(p.commitments[0][0].shifted_comm, Some(5));
    assert_eq!(p.commitments[0][1].comm, 1);
    assert_eq!(p.commitments[0][1].shifted_comm, None);
    assert_eq!(p.commitments[2][0].comm, 0);
    assert_eq!(p.evaluations, vec![9, 1, 0]);
    match &p.prover_messages[1] {
        ProverMsg::FieldElements(d) => assert_eq!(d, &vec![3, 7]),
        ProverMsg::EmptyMessage => panic!("round tag changed"),
    }
    assert_eq!(p.pc_proof.proof[0].w, 4);
    assert_eq!(p.pc_proof.proof[0].random_v, Some(6));
    assert_eq!(p.pc_proof.proof[1].w, 0);
    assert_eq!(p.pc_proof.proof[1].random_v, None);
    assert_eq!(p.pc_proof.evals, Some(vec![8, 1]));
}

#[test]
fn empty_transcript_publicizes_to_empty() {
    let empty = ProofTranscript {
        commitments: vec![],
        evaluations: vec![],
        prover_messages: vec![],
        pc_proof: BatchLcProof { proof: vec![], evals: None },
    };
    let p = pf_publicize(empty);
    assert!(p.commitments.is_empty());
    assert!(p.evaluations.is_empty());
    assert!(p.prover_messages.is_empty());
    assert!(p.pc_proof.proof.is_empty());
    assert!(p.pc_proof.evals.is_none());
}

#[test]
fn single_party_sharing_degenerates_to_plaintext() {
    let v = SecretSharedValue::share_with_king(10, 1);
    assert_eq!(v.shares, vec![10]);
    assert_eq!(v.reveal_value(), 10);
    assert_eq!(v.mul(&SecretSharedValue::share_with_king(10, 1)).reveal_value(), 1);
}
