use mpc_snarks::product::ProductCircuit;
use mpc_snarks::product::check_product_claim;
use mpc_snarks::product::compute_shared_product;
use mpc_snarks::r1cs::ConstraintSystem;
use mpc_snarks::r1cs::SynthesisMode;
use mpc_snarks::shares::SecretSharedValue;
use mpc_snarks::transcript::BatchLcProof;
use mpc_snarks::transcript::OpeningProof;
use mpc_snarks::transcript::ProofTranscript;
use mpc_snarks::transcript::ProverMsg;
use mpc_snarks::transcript::pf_publicize;

#[test]
fn end_to_end_product_session() {
    // The witness a = 2, b = 2 is held entirely by the king; the other
    // parties hold the additive identity.
    let n_parties = 3;
    let a = SecretSharedValue::share_with_king(2, n_parties);
    let b = SecretSharedValue::share_with_king(2, n_parties);
    assert_eq!(a.shares, vec![2, 0, 0]);

    // The product is computed under the shared representation and revealed.
    let c = a.mul(&b);
    let revealed = c.reveal_value();
    assert_eq!(revealed, 4);
    assert_eq!(compute_shared_product(2, 2, n_parties), 4);

    // A transcript whose leaves came out of the shared run publicizes to
    // plaintext without changing shape.
    let transcript = ProofTranscript {
        commitments: vec![vec![]],
        evaluations: vec![c],
        prover_messages: vec![ProverMsg::EmptyMessage],
        pc_proof: BatchLcProof {
            proof: vec![OpeningProof { w: a, random_v: None }],
            evals: None,
        },
    };
    let plain = pf_publicize(transcript);
    assert_eq!(plain.evaluations, vec![4]);
    assert_eq!(plain.pc_proof.proof[0].w, 2);

    // The verifier accepts the revealed product as public input and
    // rejects the revealed factor.
    assert!(check_product_claim(2, 2, revealed));
    assert!(!check_product_claim(2, 2, 2));
}

#[test]
fn product_circuit_shape_and_assignment() {
    let mut cs = ConstraintSystem::new(SynthesisMode::Prove);
    let circuit = ProductCircuit { a: Some(3), b: Some(5) };
    circuit.generate_constraints(&mut cs).unwrap();
    assert_eq!(cs.num_witness, 2);
    assert_eq!(cs.num_instance, 1);
    assert_eq!(cs.constraints.len(), 1);
    assert_eq!(cs.witness, vec![3, 5]);
    // 3 * 5 = 15 = 4 in the field.
    assert_eq!(cs.instance, vec![4]);
    assert!(cs.is_satisfied());
    assert!(!cs.is_satisfied_with_instance(&vec![5]));
}

#[test]
fn claim_checks_every_field_value() {
    for claimed in 0..11u64 {
        assert_eq!(check_product_claim(2, 2, claimed), claimed == 4);
    }
}
