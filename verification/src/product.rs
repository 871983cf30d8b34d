//! The product demonstration circuit and the cooperative session around it.
//!
//! The demonstration proves knowledge of two factors of a public product:
//! two witnesses `a` and `b`, one public input `c`, one constraint
//! `a * b = c`. The session mirrors the cooperative flow: the witness is
//! secret shared under the king convention, the product is computed under
//! the shared representation, its reveal becomes the public input, and a
//! claimed public input is accepted exactly when it equals the product.

use vstd::prelude::*;

use crate::field::fmul;
use crate::field::in_field;
use crate::field::mul_fe;
use crate::dragonn::lemma_mul_equiv;
use crate::dragonn::mul_constraint;
use crate::r1cs::ConstraintModel;
use crate::r1cs::ConstraintSystem;
use crate::r1cs::SynthesisError;
use crate::r1cs::SynthesisMode;
use crate::r1cs::Variable;
use crate::r1cs::constraint_holds;
use crate::r1cs::constraints_satisfied;
use crate::r1cs::lc1;
use crate::shares::SecretSharedValue;

verus! {

/// The single constraint the product circuit enforces, when allocation
/// starts at instance slot `ni` and witness slot `nw`.
pub open spec fn product_constraints(ni: usize, nw: usize) -> Seq<ConstraintModel> {
    seq![
        mul_constraint(
            Variable::Witness(nw),
            Variable::Witness((nw + 1) as usize),
            Variable::Instance(ni),
        ),
    ]
}

/// The witness the circuit supplies in prove mode: the two factors.
pub open spec fn product_witness(a: u64, b: u64) -> Seq<u64> {
    seq![a, b]
}

/// The public input the circuit supplies in prove mode: the product.
pub open spec fn product_instance(a: u64, b: u64) -> Seq<u64> {
    seq![fmul(a as int, b as int) as u64]
}

/// Two factors whose product is declared publicly; absent values build
/// shape only and fail in prove mode.
#[derive(Clone, Copy)]
pub struct ProductCircuit {
    pub a: Option<u64>,
    pub b: Option<u64>,
}

impl ProductCircuit {
    /// Allocates the two factors as witnesses and the product as a public
    /// input, and enforces `a * b = c`.
    pub fn generate_constraints(self, cs: &mut ConstraintSystem) -> (r: Result<
        (),
        SynthesisError,
    >)
        requires
            old(cs).wf(),
            old(cs).num_witness + 2 <= usize::MAX,
            old(cs).num_instance < usize::MAX,
            self.a matches Some(x) ==> in_field(x as int),
            self.b matches Some(x) ==> in_field(x as int),
        ensures
            final(cs).wf(),
            final(cs).mode == old(cs).mode,
            match r {
                Ok(u) => {
                    &&& final(cs).num_witness == old(cs).num_witness + 2
                    &&& final(cs).num_instance == old(cs).num_instance + 1
                    &&& final(cs).constraint_models() == old(cs).constraint_models()
                        + product_constraints(old(cs).num_instance, old(cs).num_witness)
                    &&& (old(cs).mode is Prove ==> {
                        &&& self.a is Some
                        &&& self.b is Some
                        &&& final(cs).witness@ == old(cs).witness@ + product_witness(
                            self.a->0,
                            self.b->0,
                        )
                        &&& final(cs).instance@ == old(cs).instance@ + product_instance(
                            self.a->0,
                            self.b->0,
                        )
                    })
                    &&& (old(cs).mode is Setup ==> final(cs).witness@ == old(cs).witness@
                        && final(cs).instance@ == old(cs).instance@)
                },
                Err(e) => {
                    &&& e == SynthesisError::AssignmentMissing
                    &&& old(cs).mode is Prove
                    &&& (self.a is None || self.b is None)
                    &&& final(cs).constraint_models() == old(cs).constraint_models()
                    &&& final(cs).instance@ == old(cs).instance@
                },
            },
    {
        let ghost ni0 = cs.num_instance;
        let ghost nw0 = cs.num_witness;
        let ghost inst0 = cs.instance@;
        let ghost wit0 = cs.witness@;
        let va = cs.new_witness_variable(self.a)?;
        let vb = cs.new_witness_variable(self.b)?;
        let c_val: Option<u64> = match (self.a, self.b) {
            (Some(x), Some(y)) => Some(mul_fe(x, y)),
            _ => None,
        };
        let vc = cs.new_input_variable(c_val)?;
        cs.enforce_constraint(lc1(1, va), lc1(1, vb), lc1(1, vc))?;
        proof {
            assert(cs.constraint_models() =~~= old(cs).constraint_models() + product_constraints(
                ni0,
                nw0,
            ));
            if old(cs).mode is Prove {
                assert(cs.witness@ =~= wit0 + product_witness(self.a->0, self.b->0));
                assert(cs.instance@ =~= inst0 + product_instance(self.a->0, self.b->0));
            }
        }
        Ok(())
    }
}

/// The product circuit accepts a public input exactly when it is the field
/// product of the two witnessed factors.
pub proof fn lemma_product_circuit_decides(inst: Seq<u64>, wit: Seq<u64>)
    requires
        inst.len() == 1,
        wit.len() == 2,
        in_field(inst[0] as int),
        in_field(wit[0] as int),
        in_field(wit[1] as int),
    ensures
        constraints_satisfied(product_constraints(0, 0), inst, wit) <==> inst[0] as int == fmul(
            wit[0] as int,
            wit[1] as int,
        ),
{
    let cc = product_constraints(0, 0);
    lemma_mul_equiv(Variable::Witness(0), Variable::Witness(1), Variable::Instance(0), inst, wit);
    if constraints_satisfied(cc, inst, wit) {
        assert(constraint_holds(cc[0], inst, wit));
    }
    if inst[0] as int == fmul(wit[0] as int, wit[1] as int) {
        assert forall|i: int| 0 <= i < cc.len() implies constraint_holds(
            #[trigger] cc[i],
            inst,
            wit,
        ) by {
            assert(i == 0);
        }
    }
}

/// Computes `a * b` under the shared representation: both factors are
/// shared under the king convention, multiplied as shared values, and the
/// product revealed.
pub fn compute_shared_product(a: u64, b: u64, n_parties: usize) -> (r: u64)
    requires
        in_field(a as int),
        in_field(b as int),
        n_parties >= 1,
    ensures
        in_field(r as int),
        r as int == fmul(a as int, b as int),
{
    let sa = SecretSharedValue::share_with_king(a, n_parties);
    let sb = SecretSharedValue::share_with_king(b, n_parties);
    let sc = sa.mul(&sb);
    sc.reveal_value()
}

/// Builds the product circuit in prove mode with the given factors and
/// decides whether a claimed public output is consistent with it: accepts
/// exactly the field product of the factors.
pub fn check_product_claim(a: u64, b: u64, claimed: u64) -> (r: bool)
    requires
        in_field(a as int),
        in_field(b as int),
        in_field(claimed as int),
    ensures
        r == (claimed as int == fmul(a as int, b as int)),
{
    let mut cs = ConstraintSystem::new(SynthesisMode::Prove);
    let circuit = ProductCircuit { a: Some(a), b: Some(b) };
    let built = circuit.generate_constraints(&mut cs);
    match built {
        Err(e) => {
            proof {
                assert(false);
            }
            false
        },
        Ok(u) => {
            let mut inst: Vec<u64> = Vec::new();
            inst.push(claimed);
            let sat = cs.is_satisfied_with_instance(&inst);
            proof {
                lemma_product_circuit_decides(inst@, cs.witness@);
            }
            sat
        },
    }
}

} // verus!
