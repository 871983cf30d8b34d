//! A comparison gadget for two 2-bit operands.
//!
//! The gadget enforces, with rank-1 constraints only, that a public output
//! equals 1 exactly when the left operand `(l1, l2)` is lexicographically
//! greater than the right operand `(r1, r2)` (first digit most significant),
//! and 0 otherwise. Booleanity of every operand bit is enforced by the
//! gadget itself, never assumed; a non-boolean assignment leaves the system
//! unsatisfiable. The multiplication count is a small constant — the cost
//! that dominates when the circuit is evaluated under secret sharing — and
//! no bit-decomposition range check is needed.

use vstd::prelude::*;

use crate::field::MINUS_ONE;
use crate::field::fadd;
use crate::field::fmul;
use crate::field::fsub;
use crate::field::in_field;
use crate::field::is_bit;
use crate::field::add_fe;
use crate::field::mul_fe;
use crate::field::sub_fe;
use crate::field::lemma_bit_of_vanishing_square;
use crate::field::lemma_fadd_minus_one;
use crate::field::lemma_fadd_zero;
use crate::field::lemma_field_range;
use crate::field::lemma_fmul_one;
use crate::field::lemma_fmul_zero;
use crate::field::lemma_fsub_zero;
use crate::r1cs::ConstraintModel;
use crate::r1cs::ConstraintSystem;
use crate::r1cs::SynthesisError;
use crate::r1cs::Term;
use crate::r1cs::Variable;
use crate::r1cs::constraint_holds;
use crate::r1cs::constraints_satisfied;
use crate::r1cs::eval_terms;
use crate::r1cs::lc0;
use crate::r1cs::lc1;
use crate::r1cs::lc2;
use crate::r1cs::lemma_eval_lin1;
use crate::r1cs::lemma_eval_lin2;
use crate::r1cs::values_in_field;
use crate::r1cs::var_value;

verus! {

/// Whether the left two-digit operand is lexicographically greater than the
/// right one, the relation the gadget encodes.
pub open spec fn lex_gt(l1: int, l2: int, r1: int, r2: int) -> bool {
    l1 > r1 || (l1 == r1 && l2 > r2)
}

/// `(l1 - r1)^2`: 1 when the first digits differ, 0 when they agree (for
/// boolean digits).
pub open spec fn diff_indicator(l1: int, r1: int) -> int {
    fmul(fsub(l1, r1), fsub(l1, r1))
}

/// `l * (1 - r)`: 1 exactly when `l = 1` and `r = 0` (for boolean digits).
pub open spec fn gt_indicator(l: int, r: int) -> int {
    fmul(l, fsub(1, r))
}

/// The first digit decides: the digits differ and the left one is larger.
pub open spec fn first_digit_output(l1: int, r1: int) -> int {
    fmul(diff_indicator(l1, r1), gt_indicator(l1, r1))
}

/// The second digit decides: the first digits agree and the left second
/// digit is larger.
pub open spec fn second_digit_output(l1: int, l2: int, r1: int, r2: int) -> int {
    fmul(fsub(1, diff_indicator(l1, r1)), gt_indicator(l2, r2))
}

/// The gadget's output value: the two mutually exclusive branch indicators
/// combined by field addition.
pub open spec fn comparison_output(l1: int, l2: int, r1: int, r2: int) -> int {
    fadd(first_digit_output(l1, r1), second_digit_output(l1, l2, r1, r2))
}

/// Shorthand for a term of a constraint.
pub open spec fn term(c: u64, v: Variable) -> Term {
    Term { coeff: c, var: v }
}

/// `x * (x - 1) = 0`: the constraint that forces a variable to hold a bit.
pub open spec fn booleanity_constraint(v: Variable) -> ConstraintModel {
    ConstraintModel {
        a: seq![term(1, v)],
        b: seq![term(1, v), term(MINUS_ONE, Variable::One)],
        c: Seq::<Term>::empty(),
    }
}

/// `(u - w) * (u - w) = z`: squares the difference of two variables.
pub open spec fn square_diff_constraint(u: Variable, w: Variable, z: Variable) -> ConstraintModel {
    ConstraintModel {
        a: seq![term(1, u), term(MINUS_ONE, w)],
        b: seq![term(1, u), term(MINUS_ONE, w)],
        c: seq![term(1, z)],
    }
}

/// `u * (1 - w) = z`: the "left digit dominates" product.
pub open spec fn dominance_constraint(u: Variable, w: Variable, z: Variable) -> ConstraintModel {
    ConstraintModel {
        a: seq![term(1, u)],
        b: seq![term(1, Variable::One), term(MINUS_ONE, w)],
        c: seq![term(1, z)],
    }
}

/// `u * v = z`: a plain product of two variables.
pub open spec fn mul_constraint(u: Variable, v: Variable, z: Variable) -> ConstraintModel {
    ConstraintModel { a: seq![term(1, u)], b: seq![term(1, v)], c: seq![term(1, z)] }
}

/// `(1 - u) * v = z`: a product gated on a variable being 0.
pub open spec fn gated_constraint(u: Variable, v: Variable, z: Variable) -> ConstraintModel {
    ConstraintModel {
        a: seq![term(1, Variable::One), term(MINUS_ONE, u)],
        b: seq![term(1, v)],
        c: seq![term(1, z)],
    }
}

/// `(u + v) * 1 = z`: combines two variables by addition.
pub open spec fn sum_constraint(u: Variable, v: Variable, z: Variable) -> ConstraintModel {
    ConstraintModel {
        a: seq![term(1, u), term(1, v)],
        b: seq![term(1, Variable::One)],
        c: seq![term(1, z)],
    }
}

/// The constraints the gadget enforces, in order, when it starts allocating
/// at instance slot `ni` and witness slot `nw`: booleanity of the four
/// operand bits and of the output, then the five indicator products, then
/// the combination of the two branch outputs into the public output.
pub open spec fn comparison_constraints(ni: usize, nw: usize) -> Seq<ConstraintModel> {
    let l1 = Variable::Witness(nw);
    let l2 = Variable::Witness((nw + 1) as usize);
    let r1 = Variable::Witness((nw + 2) as usize);
    let r2 = Variable::Witness((nw + 3) as usize);
    let v1 = Variable::Witness((nw + 4) as usize);
    let v2 = Variable::Witness((nw + 5) as usize);
    let o1 = Variable::Witness((nw + 6) as usize);
    let v3 = Variable::Witness((nw + 7) as usize);
    let o2 = Variable::Witness((nw + 8) as usize);
    let res = Variable::Instance(ni);
    seq![
        booleanity_constraint(l1),
        booleanity_constraint(l2),
        booleanity_constraint(r1),
        booleanity_constraint(r2),
        booleanity_constraint(res),
        // the first digits differ
        square_diff_constraint(l1, r1, v1),
        // the left first digit dominates
        dominance_constraint(l1, r1, v2),
        // the first digit decides
        mul_constraint(v1, v2, o1),
        // the left second digit dominates
        dominance_constraint(l2, r2, v3),
        // the second digit decides a first-digit tie
        gated_constraint(v1, v3, o2),
        // the two exclusive branches combined
        sum_constraint(o1, o2, res),
    ]
}

/// The witness values the gadget supplies in prove mode, in allocation
/// order: the four operand bits, then the five indicators computed from
/// them.
pub open spec fn comparison_witness(l1: u64, l2: u64, r1: u64, r2: u64) -> Seq<u64> {
    seq![
        l1,
        l2,
        r1,
        r2,
        diff_indicator(l1 as int, r1 as int) as u64,
        gt_indicator(l1 as int, r1 as int) as u64,
        first_digit_output(l1 as int, r1 as int) as u64,
        gt_indicator(l2 as int, r2 as int) as u64,
        second_digit_output(l1 as int, l2 as int, r1 as int, r2 as int) as u64,
    ]
}

/// The public-input value the gadget supplies in prove mode: the declared
/// comparison output.
pub open spec fn comparison_instance(l1: u64, l2: u64, r1: u64, r2: u64) -> Seq<u64> {
    seq![comparison_output(l1 as int, l2 as int, r1 as int, r2 as int) as u64]
}

/// The two 2-bit operands of a comparison, each digit an optional concrete
/// value: absent values build shape only and fail in prove mode.
#[derive(Clone, Copy)]
pub struct SimpleDragonnCircuit {
    pub l1: Option<u64>,
    pub l2: Option<u64>,
    pub r1: Option<u64>,
    pub r2: Option<u64>,
}

impl SimpleDragonnCircuit {
    /// Allocates the gadget's variables and enforces its constraints.
    ///
    /// Succeeds in setup mode, and in prove mode when all four digits are
    /// supplied; fails with `AssignmentMissing` in prove mode when a digit
    /// is absent, having enforced nothing. On success exactly the
    /// comparison constraints are appended, and in prove mode exactly the
    /// canonical assignment.
    pub fn generate_constraints(self, cs: &mut ConstraintSystem) -> (r: Result<
        (),
        SynthesisError,
    >)
        requires
            old(cs).wf(),
            old(cs).num_witness + 9 <= usize::MAX,
            old(cs).num_instance < usize::MAX,
            self.l1 matches Some(x) ==> in_field(x as int),
            self.l2 matches Some(x) ==> in_field(x as int),
            self.r1 matches Some(x) ==> in_field(x as int),
            self.r2 matches Some(x) ==> in_field(x as int),
        ensures
            final(cs).wf(),
            final(cs).mode == old(cs).mode,
            match r {
                Ok(u) => {
                    &&& final(cs).num_witness == old(cs).num_witness + 9
                    &&& final(cs).num_instance == old(cs).num_instance + 1
                    &&& final(cs).constraint_models() == old(cs).constraint_models()
                        + comparison_constraints(old(cs).num_instance, old(cs).num_witness)
                    &&& (old(cs).mode is Prove ==> {
                        &&& self.l1 is Some
                        &&& self.l2 is Some
                        &&& self.r1 is Some
                        &&& self.r2 is Some
                        &&& final(cs).witness@ == old(cs).witness@ + comparison_witness(
                            self.l1->0,
                            self.l2->0,
                            self.r1->0,
                            self.r2->0,
                        )
                        &&& final(cs).instance@ == old(cs).instance@ + comparison_instance(
                            self.l1->0,
                            self.l2->0,
                            self.r1->0,
                            self.r2->0,
                        )
                    })
                    &&& (old(cs).mode is Setup ==> final(cs).witness@ == old(cs).witness@
                        && final(cs).instance@ == old(cs).instance@)
                },
                Err(e) => {
                    &&& e == SynthesisError::AssignmentMissing
                    &&& old(cs).mode is Prove
                    &&& (self.l1 is None || self.l2 is None || self.r1 is None
                        || self.r2 is None)
                    &&& final(cs).constraint_models() == old(cs).constraint_models()
                    &&& final(cs).instance@ == old(cs).instance@
                },
            },
    {
        let ghost ni0 = cs.num_instance;
        let ghost nw0 = cs.num_witness;
        let ghost inst0 = cs.instance@;
        let ghost wit0 = cs.witness@;
        let l1 = cs.new_witness_variable(self.l1)?;
        let l2 = cs.new_witness_variable(self.l2)?;
        let r1 = cs.new_witness_variable(self.r1)?;
        let r2 = cs.new_witness_variable(self.r2)?;

        let v1_val: Option<u64> = match (self.l1, self.r1) {
            (Some(a), Some(b)) => {
                let d = sub_fe(a, b);
                Some(mul_fe(d, d))
            },
            _ => None,
        };
        let v2_val: Option<u64> = match (self.l1, self.r1) {
            (Some(a), Some(b)) => Some(mul_fe(a, sub_fe(1, b))),
            _ => None,
        };
        let o1_val: Option<u64> = match (v1_val, v2_val) {
            (Some(a), Some(b)) => Some(mul_fe(a, b)),
            _ => None,
        };
        let v3_val: Option<u64> = match (self.l2, self.r2) {
            (Some(a), Some(b)) => Some(mul_fe(a, sub_fe(1, b))),
            _ => None,
        };
        let o2_val: Option<u64> = match (v1_val, v3_val) {
            (Some(a), Some(b)) => Some(mul_fe(sub_fe(1, a), b)),
            _ => None,
        };
        let res_val: Option<u64> = match (o1_val, o2_val) {
            (Some(a), Some(b)) => Some(add_fe(a, b)),
            _ => None,
        };

        let v1 = cs.new_witness_variable(v1_val)?;
        let v2 = cs.new_witness_variable(v2_val)?;
        let o1 = cs.new_witness_variable(o1_val)?;
        let v3 = cs.new_witness_variable(v3_val)?;
        let o2 = cs.new_witness_variable(o2_val)?;
        let res = cs.new_input_variable(res_val)?;

        // Booleanity of each operand bit and of the declared output.
        cs.enforce_constraint(lc1(1, l1), lc2(1, l1, MINUS_ONE, Variable::One), lc0())?;
        cs.enforce_constraint(lc1(1, l2), lc2(1, l2, MINUS_ONE, Variable::One), lc0())?;
        cs.enforce_constraint(lc1(1, r1), lc2(1, r1, MINUS_ONE, Variable::One), lc0())?;
        cs.enforce_constraint(lc1(1, r2), lc2(1, r2, MINUS_ONE, Variable::One), lc0())?;
        cs.enforce_constraint(lc1(1, res), lc2(1, res, MINUS_ONE, Variable::One), lc0())?;
        // (l1 - r1)^2 = v1: the first digits differ.
        cs.enforce_constraint(
            lc2(1, l1, MINUS_ONE, r1),
            lc2(1, l1, MINUS_ONE, r1),
            lc1(1, v1),
        )?;
        // l1 * (1 - r1) = v2: the left first digit dominates.
        cs.enforce_constraint(lc1(1, l1), lc2(1, Variable::One, MINUS_ONE, r1), lc1(1, v2))?;
        // v1 * v2 = o1: the first digit decides.
        cs.enforce_constraint(lc1(1, v1), lc1(1, v2), lc1(1, o1))?;
        // l2 * (1 - r2) = v3: the left second digit dominates.
        cs.enforce_constraint(lc1(1, l2), lc2(1, Variable::One, MINUS_ONE, r2), lc1(1, v3))?;
        // (1 - v1) * v3 = o2: the second digit decides a first-digit tie.
        cs.enforce_constraint(lc2(1, Variable::One, MINUS_ONE, v1), lc1(1, v3), lc1(1, o2))?;
        // (o1 + o2) * 1 = res: the two exclusive branches combined.
        cs.enforce_constraint(lc2(1, o1, 1, o2), lc1(1, Variable::One), lc1(1, res))?;

        proof {
            assert(cs.constraint_models() =~~= old(cs).constraint_models()
                + comparison_constraints(ni0, nw0));
            if old(cs).mode is Prove {
                assert(cs.witness@ =~= wit0 + comparison_witness(
                    self.l1->0,
                    self.l2->0,
                    self.r1->0,
                    self.r2->0,
                ));
                assert(cs.instance@ =~= inst0 + comparison_instance(
                    self.l1->0,
                    self.l2->0,
                    self.r1->0,
                    self.r2->0,
                ));
            }
        }
        Ok(())
    }
}

/// For boolean digits the squared difference is the inequality indicator.
proof fn lemma_diff_indicator_bits(l: int, r: int)
    requires
        is_bit(l),
        is_bit(r),
    ensures
        diff_indicator(l, r) == if l == r {
            0int
        } else {
            1int
        },
        is_bit(diff_indicator(l, r)),
{
    if l == 0 && r == 1 {
        assert(fsub(0, 1) == 10);
        assert(fmul(10, 10) == 1);
    } else if l == 1 && r == 0 {
        assert(fsub(1, 0) == 1);
        assert(fmul(1, 1) == 1);
    } else if l == 0 && r == 0 {
        assert(fsub(0, 0) == 0);
        lemma_fmul_zero(0);
    } else {
        assert(fsub(1, 1) == 0);
        lemma_fmul_zero(0);
    }
}

/// For boolean digits the dominance product indicates `l = 1` and `r = 0`.
proof fn lemma_gt_indicator_bits(l: int, r: int)
    requires
        is_bit(l),
        is_bit(r),
    ensures
        gt_indicator(l, r) == if l == 1 && r == 0 {
            1int
        } else {
            0int
        },
        is_bit(gt_indicator(l, r)),
{
    if l == 0 {
        lemma_fmul_zero(fsub(1, r));
    } else if r == 0 {
        assert(fsub(1, 0) == 1);
        assert(fmul(1, 1) == 1);
    } else {
        assert(fsub(1, 1) == 0);
        lemma_fmul_zero(1);
    }
}

/// For boolean digits the gadget's output value is exactly the indicator of
/// the lexicographic comparison.
pub proof fn lemma_comparison_output_is_lex_gt(l1: int, l2: int, r1: int, r2: int)
    requires
        is_bit(l1),
        is_bit(l2),
        is_bit(r1),
        is_bit(r2),
    ensures
        comparison_output(l1, l2, r1, r2) == if lex_gt(l1, l2, r1, r2) {
            1int
        } else {
            0int
        },
        is_bit(comparison_output(l1, l2, r1, r2)),
{
    lemma_diff_indicator_bits(l1, r1);
    lemma_gt_indicator_bits(l1, r1);
    lemma_gt_indicator_bits(l2, r2);
    let d = diff_indicator(l1, r1);
    let g1 = gt_indicator(l1, r1);
    let g2 = gt_indicator(l2, r2);
    if d == 0 {
        // The first digits agree: the tie branch decides.
        lemma_fmul_zero(g1);
        assert(fsub(1, 0) == 1);
        if g2 == 0 {
            lemma_fmul_zero(1);
            assert(fadd(0, 0) == 0);
        } else {
            assert(fmul(1, 1) == 1);
            assert(fadd(0, 1) == 1);
        }
    } else {
        // The first digits differ: the first branch decides.
        assert(fsub(1, 1) == 0);
        lemma_fmul_zero(g2);
        if g1 == 0 {
            lemma_fmul_zero(1);
            assert(fadd(0, 0) == 0);
        } else {
            assert(fmul(1, 1) == 1);
            assert(fadd(1, 0) == 1);
        }
    }
}

/// A booleanity constraint holds exactly when the variable's booleanity
/// product vanishes.
proof fn lemma_booleanity_equiv(v: Variable, inst: Seq<u64>, wit: Seq<u64>)
    requires
        in_field(var_value(v, inst, wit)),
    ensures
        constraint_holds(booleanity_constraint(v), inst, wit) <==> fmul(
            var_value(v, inst, wit),
            fsub(var_value(v, inst, wit), 1),
        ) == 0,
{
    let x = var_value(v, inst, wit);
    lemma_eval_lin1(term(1, v), inst, wit);
    lemma_eval_lin2(term(1, v), term(MINUS_ONE, Variable::One), inst, wit);
    assert(eval_terms(Seq::<Term>::empty(), inst, wit) == 0);
    lemma_fmul_one(x);
    lemma_fmul_one(MINUS_ONE as int);
    lemma_fadd_minus_one(x);
}

/// A squared-difference constraint holds exactly when the target slot holds
/// the squared field difference.
proof fn lemma_square_diff_equiv(u: Variable, w: Variable, z: Variable, inst: Seq<u64>, wit: Seq<u64>)
    requires
        in_field(var_value(u, inst, wit)),
        is_bit(var_value(w, inst, wit)),
        in_field(var_value(z, inst, wit)),
    ensures
        constraint_holds(square_diff_constraint(u, w, z), inst, wit) <==> fmul(
            fsub(var_value(u, inst, wit), var_value(w, inst, wit)),
            fsub(var_value(u, inst, wit), var_value(w, inst, wit)),
        ) == var_value(z, inst, wit),
{
    let xu = var_value(u, inst, wit);
    let xw = var_value(w, inst, wit);
    let xz = var_value(z, inst, wit);
    lemma_eval_lin2(term(1, u), term(MINUS_ONE, w), inst, wit);
    lemma_eval_lin1(term(1, z), inst, wit);
    lemma_fmul_one(xu);
    lemma_fmul_one(xz);
    if xw == 0 {
        lemma_fmul_zero(MINUS_ONE as int);
        lemma_fadd_zero(xu);
        lemma_fsub_zero(xu);
    } else {
        lemma_fmul_one(MINUS_ONE as int);
        lemma_fadd_minus_one(xu);
    }
}

/// A dominance constraint holds exactly when the target slot holds
/// `u * (1 - w)`.
proof fn lemma_dominance_equiv(u: Variable, w: Variable, z: Variable, inst: Seq<u64>, wit: Seq<u64>)
    requires
        in_field(var_value(u, inst, wit)),
        is_bit(var_value(w, inst, wit)),
        in_field(var_value(z, inst, wit)),
    ensures
        constraint_holds(dominance_constraint(u, w, z), inst, wit) <==> fmul(
            var_value(u, inst, wit),
            fsub(1, var_value(w, inst, wit)),
        ) == var_value(z, inst, wit),
{
    let xu = var_value(u, inst, wit);
    let xw = var_value(w, inst, wit);
    let xz = var_value(z, inst, wit);
    lemma_eval_lin1(term(1, u), inst, wit);
    lemma_eval_lin2(term(1, Variable::One), term(MINUS_ONE, w), inst, wit);
    lemma_eval_lin1(term(1, z), inst, wit);
    lemma_fmul_one(xu);
    lemma_fmul_one(xz);
    lemma_fmul_one(1);
    if xw == 0 {
        lemma_fmul_zero(MINUS_ONE as int);
        lemma_fadd_zero(1);
        lemma_fsub_zero(1);
    } else {
        lemma_fmul_one(MINUS_ONE as int);
        lemma_fadd_minus_one(1);
    }
}

/// A plain product constraint holds exactly when the target slot holds the
/// product.
pub proof fn lemma_mul_equiv(u: Variable, v: Variable, z: Variable, inst: Seq<u64>, wit: Seq<u64>)
    requires
        in_field(var_value(u, inst, wit)),
        in_field(var_value(v, inst, wit)),
        in_field(var_value(z, inst, wit)),
    ensures
        constraint_holds(mul_constraint(u, v, z), inst, wit) <==> fmul(
            var_value(u, inst, wit),
            var_value(v, inst, wit),
        ) == var_value(z, inst, wit),
{
    lemma_eval_lin1(term(1, u), inst, wit);
    lemma_eval_lin1(term(1, v), inst, wit);
    lemma_eval_lin1(term(1, z), inst, wit);
    lemma_fmul_one(var_value(u, inst, wit));
    lemma_fmul_one(var_value(v, inst, wit));
    lemma_fmul_one(var_value(z, inst, wit));
}

/// A gated constraint holds exactly when the target slot holds
/// `(1 - u) * v`.
proof fn lemma_gated_equiv(u: Variable, v: Variable, z: Variable, inst: Seq<u64>, wit: Seq<u64>)
    requires
        is_bit(var_value(u, inst, wit)),
        in_field(var_value(v, inst, wit)),
        in_field(var_value(z, inst, wit)),
    ensures
        constraint_holds(gated_constraint(u, v, z), inst, wit) <==> fmul(
            fsub(1, var_value(u, inst, wit)),
            var_value(v, inst, wit),
        ) == var_value(z, inst, wit),
{
    let xu = var_value(u, inst, wit);
    lemma_eval_lin2(term(1, Variable::One), term(MINUS_ONE, u), inst, wit);
    lemma_eval_lin1(term(1, v), inst, wit);
    lemma_eval_lin1(term(1, z), inst, wit);
    lemma_fmul_one(var_value(v, inst, wit));
    lemma_fmul_one(var_value(z, inst, wit));
    lemma_fmul_one(1);
    if xu == 0 {
        lemma_fmul_zero(MINUS_ONE as int);
        lemma_fadd_zero(1);
        lemma_fsub_zero(1);
    } else {
        lemma_fmul_one(MINUS_ONE as int);
        lemma_fadd_minus_one(1);
    }
}

/// A sum constraint holds exactly when the target slot holds the field sum.
proof fn lemma_sum_equiv(u: Variable, v: Variable, z: Variable, inst: Seq<u64>, wit: Seq<u64>)
    requires
        in_field(var_value(u, inst, wit)),
        in_field(var_value(v, inst, wit)),
        in_field(var_value(z, inst, wit)),
    ensures
        constraint_holds(sum_constraint(u, v, z), inst, wit) <==> fadd(
            var_value(u, inst, wit),
            var_value(v, inst, wit),
        ) == var_value(z, inst, wit),
{
    let xu = var_value(u, inst, wit);
    let xv = var_value(v, inst, wit);
    let xz = var_value(z, inst, wit);
    lemma_eval_lin2(term(1, u), term(1, v), inst, wit);
    lemma_eval_lin1(term(1, Variable::One), inst, wit);
    lemma_eval_lin1(term(1, z), inst, wit);
    lemma_fmul_one(xu);
    lemma_fmul_one(xv);
    lemma_fmul_one(xz);
    lemma_fmul_one(1);
    lemma_field_range(xu, xv);
    lemma_fmul_one(fadd(xu, xv));
}

/// A booleanity constraint holds for a variable that carries a bit.
proof fn lemma_booleanity_holds_of_bit(v: Variable, inst: Seq<u64>, wit: Seq<u64>)
    requires
        is_bit(var_value(v, inst, wit)),
    ensures
        constraint_holds(booleanity_constraint(v), inst, wit),
{
    let x = var_value(v, inst, wit);
    lemma_booleanity_equiv(v, inst, wit);
    if x == 0 {
        lemma_fmul_zero(fsub(0, 1));
    } else {
        assert(fsub(1, 1) == 0);
        lemma_fmul_zero(1);
    }
}

/// A booleanity constraint that holds forces its variable to carry a bit.
proof fn lemma_booleanity_forces_bit(v: Variable, inst: Seq<u64>, wit: Seq<u64>)
    requires
        in_field(var_value(v, inst, wit)),
        constraint_holds(booleanity_constraint(v), inst, wit),
    ensures
        is_bit(var_value(v, inst, wit)),
{
    lemma_booleanity_equiv(v, inst, wit);
    lemma_bit_of_vanishing_square(var_value(v, inst, wit));
}

} // verus!

verus! {

/// For all boolean operands, the canonical assignment with the matching
/// declared output satisfies every constraint the gadget enforces: the
/// comparison circuit is complete.
pub proof fn lemma_gadget_satisfied(l1: u64, l2: u64, r1: u64, r2: u64)
    requires
        is_bit(l1 as int),
        is_bit(l2 as int),
        is_bit(r1 as int),
        is_bit(r2 as int),
    ensures
        constraints_satisfied(
            comparison_constraints(0, 0),
            comparison_instance(l1, l2, r1, r2),
            comparison_witness(l1, l2, r1, r2),
        ),
{
    let cc = comparison_constraints(0, 0);
    let inst = comparison_instance(l1, l2, r1, r2);
    let wit = comparison_witness(l1, l2, r1, r2);
    let li1 = l1 as int;
    let li2 = l2 as int;
    let ri1 = r1 as int;
    let ri2 = r2 as int;
    lemma_diff_indicator_bits(li1, ri1);
    lemma_gt_indicator_bits(li1, ri1);
    lemma_gt_indicator_bits(li2, ri2);
    lemma_comparison_output_is_lex_gt(li1, li2, ri1, ri2);
    lemma_field_range(diff_indicator(li1, ri1), gt_indicator(li1, ri1));
    lemma_field_range(fsub(1, diff_indicator(li1, ri1)), gt_indicator(li2, ri2));
    assert(wit[4] as int == diff_indicator(li1, ri1));
    assert(wit[5] as int == gt_indicator(li1, ri1));
    assert(wit[6] as int == first_digit_output(li1, ri1));
    assert(wit[7] as int == gt_indicator(li2, ri2));
    assert(wit[8] as int == second_digit_output(li1, li2, ri1, ri2));
    assert(inst[0] as int == comparison_output(li1, li2, ri1, ri2));
    assert forall|i: int| 0 <= i < cc.len() implies constraint_holds(
        #[trigger] cc[i],
        inst,
        wit,
    ) by {
        if i == 0 {
            lemma_booleanity_holds_of_bit(Variable::Witness(0), inst, wit);
        } else if i == 1 {
            lemma_booleanity_holds_of_bit(Variable::Witness(1), inst, wit);
        } else if i == 2 {
            lemma_booleanity_holds_of_bit(Variable::Witness(2), inst, wit);
        } else if i == 3 {
            lemma_booleanity_holds_of_bit(Variable::Witness(3), inst, wit);
        } else if i == 4 {
            lemma_booleanity_holds_of_bit(Variable::Instance(0), inst, wit);
        } else if i == 5 {
            lemma_square_diff_equiv(
                Variable::Witness(0),
                Variable::Witness(2),
                Variable::Witness(4),
                inst,
                wit,
            );
        } else if i == 6 {
            lemma_dominance_equiv(
                Variable::Witness(0),
                Variable::Witness(2),
                Variable::Witness(5),
                inst,
                wit,
            );
        } else if i == 7 {
            lemma_mul_equiv(
                Variable::Witness(4),
                Variable::Witness(5),
                Variable::Witness(6),
                inst,
                wit,
            );
        } else if i == 8 {
            lemma_dominance_equiv(
                Variable::Witness(1),
                Variable::Witness(3),
                Variable::Witness(7),
                inst,
                wit,
            );
        } else if i == 9 {
            lemma_gated_equiv(
                Variable::Witness(4),
                Variable::Witness(7),
                Variable::Witness(8),
                inst,
                wit,
            );
        } else {
            lemma_sum_equiv(
                Variable::Witness(6),
                Variable::Witness(8),
                Variable::Instance(0),
                inst,
                wit,
            );
        }
    }
}

/// If every constraint the gadget enforces holds under an assignment, the
/// four operand slots hold bits and the public output is exactly the
/// indicator of the lexicographic comparison: the comparison circuit is
/// sound, whatever the intermediate slots hold.
pub proof fn lemma_gadget_sound(inst: Seq<u64>, wit: Seq<u64>)
    requires
        inst.len() == 1,
        wit.len() == 9,
        values_in_field(inst),
        values_in_field(wit),
        constraints_satisfied(comparison_constraints(0, 0), inst, wit),
    ensures
        is_bit(wit[0] as int),
        is_bit(wit[1] as int),
        is_bit(wit[2] as int),
        is_bit(wit[3] as int),
        inst[0] as int == if lex_gt(wit[0] as int, wit[1] as int, wit[2] as int, wit[3] as int) {
            1int
        } else {
            0int
        },
{
    let cc = comparison_constraints(0, 0);
    assert(in_field(wit[0] as int) && in_field(wit[1] as int) && in_field(wit[2] as int)
        && in_field(wit[3] as int) && in_field(wit[4] as int) && in_field(wit[5] as int)
        && in_field(wit[6] as int) && in_field(wit[7] as int) && in_field(wit[8] as int)
        && in_field(inst[0] as int));
    assert(constraint_holds(cc[0], inst, wit));
    assert(constraint_holds(cc[1], inst, wit));
    assert(constraint_holds(cc[2], inst, wit));
    assert(constraint_holds(cc[3], inst, wit));
    assert(constraint_holds(cc[5], inst, wit));
    assert(constraint_holds(cc[6], inst, wit));
    assert(constraint_holds(cc[7], inst, wit));
    assert(constraint_holds(cc[8], inst, wit));
    assert(constraint_holds(cc[9], inst, wit));
    assert(constraint_holds(cc[10], inst, wit));
    lemma_booleanity_forces_bit(Variable::Witness(0), inst, wit);
    lemma_booleanity_forces_bit(Variable::Witness(1), inst, wit);
    lemma_booleanity_forces_bit(Variable::Witness(2), inst, wit);
    lemma_booleanity_forces_bit(Variable::Witness(3), inst, wit);
    let l1 = wit[0] as int;
    let l2 = wit[1] as int;
    let r1 = wit[2] as int;
    let r2 = wit[3] as int;
    // The product constraints force each indicator slot in turn.
    lemma_square_diff_equiv(
        Variable::Witness(0),
        Variable::Witness(2),
        Variable::Witness(4),
        inst,
        wit,
    );
    assert(wit[4] as int == diff_indicator(l1, r1));
    lemma_diff_indicator_bits(l1, r1);
    lemma_dominance_equiv(
        Variable::Witness(0),
        Variable::Witness(2),
        Variable::Witness(5),
        inst,
        wit,
    );
    assert(wit[5] as int == gt_indicator(l1, r1));
    lemma_mul_equiv(Variable::Witness(4), Variable::Witness(5), Variable::Witness(6), inst, wit);
    assert(wit[6] as int == first_digit_output(l1, r1));
    lemma_dominance_equiv(
        Variable::Witness(1),
        Variable::Witness(3),
        Variable::Witness(7),
        inst,
        wit,
    );
    assert(wit[7] as int == gt_indicator(l2, r2));
    lemma_gated_equiv(Variable::Witness(4), Variable::Witness(7), Variable::Witness(8), inst, wit);
    assert(wit[8] as int == second_digit_output(l1, l2, r1, r2));
    lemma_sum_equiv(Variable::Witness(6), Variable::Witness(8), Variable::Instance(0), inst, wit);
    assert(inst[0] as int == comparison_output(l1, l2, r1, r2));
    lemma_comparison_output_is_lex_gt(l1, l2, r1, r2);
}

/// Declaring the opposite output makes the system unsatisfiable: with the
/// operand bits fixed, no choice of the intermediate slots rescues a wrong
/// public output.
pub proof fn lemma_wrong_output_rejected(res: u64, wit: Seq<u64>)
    requires
        wit.len() == 9,
        values_in_field(wit),
        in_field(res as int),
        is_bit(wit[0] as int),
        is_bit(wit[1] as int),
        is_bit(wit[2] as int),
        is_bit(wit[3] as int),
        res as int != if lex_gt(wit[0] as int, wit[1] as int, wit[2] as int, wit[3] as int) {
            1int
        } else {
            0int
        },
    ensures
        !constraints_satisfied(comparison_constraints(0, 0), seq![res], wit),
{
    if constraints_satisfied(comparison_constraints(0, 0), seq![res], wit) {
        assert(values_in_field(seq![res]));
        lemma_gadget_sound(seq![res], wit);
    }
}

/// An operand slot holding a value outside {0, 1} violates the enforced
/// constraints, whatever the other slots and the declared output hold.
pub proof fn lemma_non_boolean_rejected(inst: Seq<u64>, wit: Seq<u64>, k: int)
    requires
        inst.len() == 1,
        wit.len() == 9,
        values_in_field(inst),
        values_in_field(wit),
        0 <= k < 4,
        !is_bit(wit[k] as int),
    ensures
        !constraints_satisfied(comparison_constraints(0, 0), inst, wit),
{
    if constraints_satisfied(comparison_constraints(0, 0), inst, wit) {
        lemma_gadget_sound(inst, wit);
    }
}

} // verus!

verus! {

/// The two branch indicators are mutually exclusive for boolean digits:
/// one is gated on the first digits differing, the other on their
/// agreeing, so combining them by field addition is a sound OR.
pub proof fn lemma_branches_exclusive(l1: int, l2: int, r1: int, r2: int)
    requires
        is_bit(l1),
        is_bit(l2),
        is_bit(r1),
        is_bit(r2),
    ensures
        first_digit_output(l1, r1) == 0 || second_digit_output(l1, l2, r1, r2) == 0,
{
    lemma_diff_indicator_bits(l1, r1);
    lemma_gt_indicator_bits(l1, r1);
    lemma_gt_indicator_bits(l2, r2);
    if diff_indicator(l1, r1) == 0 {
        lemma_fmul_zero(gt_indicator(l1, r1));
    } else {
        assert(fsub(1, 1) == 0);
        lemma_fmul_zero(gt_indicator(l2, r2));
    }
}

} // verus!
