use mpc_snarks::dragonn::SimpleDragonnCircuit;
use mpc_snarks::field::FIELD_MODULUS;
use mpc_snarks::field::add_fe;
use mpc_snarks::field::mul_fe;
use mpc_snarks::field::sub_fe;
use mpc_snarks::r1cs::ConstraintSystem;
use mpc_snarks::r1cs::SynthesisError;
use mpc_snarks::r1cs::SynthesisMode;

fn prove_circuit(l1: u64, l2: u64, r1: u64, r2: u64) -> ConstraintSystem {
    let mut cs = ConstraintSystem::new(SynthesisMode::Prove);
    let circuit = SimpleDragonnCircuit {
        l1: Some(l1),
        l2: Some(l2),
        r1: Some(r1),
        r2: Some(r2),
    };
    circuit.generate_constraints(&mut cs).unwrap();
    cs
}

#[test]
fn field_operations_concrete() {
    assert_eq!(FIELD_MODULUS, 11);
    assert_eq!(add_fe(7, 8), 4);
    assert_eq!(sub_fe(3, 5), 9);
    assert_eq!(mul_fe(5, 9), 1);
    assert_eq!(mul_fe(0, 10), 0);
}

#[test]
fn first_digit_decides() {
    // (1,0) > (0,1): the first digits differ and left's is larger.
    let cs = prove_circuit(1, 0, 0, 1);
    assert!(cs.is_satisfied());
    assert!(cs.is_satisfied_with_instance(&vec![1]));
    assert!(!cs.is_satisfied_with_instance(&vec![0]));
}

#[test]
fn second_digit_decides_tie() {
    // (1,1) > (1,0): tied first digit, left's second digit larger.
    let cs = prove_circuit(1, 1, 1, 0);
    assert!(cs.is_satisfied());
    assert!(cs.is_satisfied_with_instance(&vec![1]));
    assert!(!cs.is_satisfied_with_instance(&vec![0]));
}

#[test]
fn equal_operands_compare_false() {
    // (0,1) is not greater than (0,1).
    let cs = prove_circuit(0, 1, 0, 1);
    assert!(cs.is_satisfied());
    assert!(cs.is_satisfied_with_instance(&vec![0]));
    assert!(!cs.is_satisfied_with_instance(&vec![1]));
}

#[test]
fn gadget_correct_on_all_boolean_operands() {
    for l1 in 0..2u64 {
        for l2 in 0..2u64 {
            for r1 in 0..2u64 {
                for r2 in 0..2u64 {
                    let expected: u64 =
                        if (l1, l2) > (r1, r2) { 1 } else { 0 };
                    let cs = prove_circuit(l1, l2, r1, r2);
                    // The canonical assignment satisfies the system, and its
                    // declared output is the comparison indicator.
                    assert!(cs.is_satisfied());
                    assert_eq!(cs.instance, vec![expected]);
                    assert!(cs.is_satisfied_with_instance(&vec![expected]));
                    // The opposite declared output is rejected.
                    assert!(!cs.is_satisfied_with_instance(&vec![1 - expected]));
                }
            }
        }
    }
}

#[test]
fn non_boolean_operand_rejected() {
    // A 2 in any operand slot violates that slot's booleanity constraint,
    // whatever the declared output.
    for slot in 0..4usize {
        let mut bits: [u64; 4] = [0, 1, 0, 1];
        bits[slot] = 2;
        let cs = prove_circuit(bits[0], bits[1], bits[2], bits[3]);
        assert!(!cs.is_satisfied());
        assert!(!cs.is_satisfied_with_instance(&vec![0]));
        assert!(!cs.is_satisfied_with_instance(&vec![1]));
    }
}

#[test]
fn setup_mode_builds_shape_without_values() {
    let mut cs = ConstraintSystem::new(SynthesisMode::Setup);
    let circuit = SimpleDragonnCircuit { l1: None, l2: None, r1: None, r2: None };
    circuit.generate_constraints(&mut cs).unwrap();
    assert_eq!(cs.num_witness, 9);
    assert_eq!(cs.num_instance, 1);
    assert_eq!(cs.constraints.len(), 11);
    assert!(cs.witness.is_empty());
    assert!(cs.instance.is_empty());
}

#[test]
fn missing_assignment_fails_in_prove_mode() {
    let mut cs = ConstraintSystem::new(SynthesisMode::Prove);
    let circuit = SimpleDragonnCircuit { l1: Some(1), l2: None, r1: Some(0), r2: Some(1) };
    let r = circuit.generate_constraints(&mut cs);
    assert_eq!(r, Err(SynthesisError::AssignmentMissing));
    assert!(cs.constraints.is_empty());
}
