//! A rank-1 constraint system over the library's field.
//!
//! A system holds allocated instance (public-input) and witness variables and
//! a monotonically growing list of constraints `A * B = C`, each side a
//! linear combination of variables. Gadgets allocate variables and enforce
//! constraints; satisfaction of the accumulated constraints under an
//! assignment is the system's meaning, stated here as a spec and decided by
//! an executable check.

use vstd::prelude::*;

use crate::field::fadd;
use crate::field::fmul;
use crate::field::in_field;
use crate::field::add_fe;
use crate::field::mul_fe;

verus! {

/// A handle into a constraint system: the constant one, a public-input
/// (instance) slot, or a witness slot.
#[derive(Clone, Copy, Debug, PartialEq, Eq, Structural)]
pub enum Variable {
    One,
    Instance(usize),
    Witness(usize),
}

/// One weighted variable of a linear combination.
#[derive(Clone, Copy, Debug)]
pub struct Term {
    pub coeff: u64,
    pub var: Variable,
}

/// A weighted sum of variables, the building block of a constraint.
#[derive(Debug)]
pub struct LinearCombination {
    pub terms: Vec<Term>,
}

impl View for LinearCombination {
    type V = Seq<Term>;

    open spec fn view(&self) -> Seq<Term> {
        self.terms@
    }
}

/// The mathematical content of one constraint: `A * B = C` over the field.
#[verifier::ext_equal]
pub struct ConstraintModel {
    pub a: Seq<Term>,
    pub b: Seq<Term>,
    pub c: Seq<Term>,
}

/// An enforced constraint, immutable once added.
#[derive(Debug)]
pub struct Constraint {
    pub a: LinearCombination,
    pub b: LinearCombination,
    pub c: LinearCombination,
}

impl View for Constraint {
    type V = ConstraintModel;

    open spec fn view(&self) -> ConstraintModel {
        ConstraintModel { a: self.a@, b: self.b@, c: self.c@ }
    }
}

/// Whether a system is being built only to learn its shape, or with concrete
/// values to prove about.
#[derive(Clone, Copy, Debug, PartialEq, Eq, Structural)]
pub enum SynthesisMode {
    Setup,
    Prove,
}

/// Why circuit construction can fail: a concrete value was required but not
/// supplied.
#[derive(Clone, Copy, Debug, PartialEq, Eq, Structural)]
pub enum SynthesisError {
    AssignmentMissing,
}

/// The value a variable takes under an instance/witness assignment.
pub open spec fn var_value(v: Variable, inst: Seq<u64>, wit: Seq<u64>) -> int {
    match v {
        Variable::One => 1,
        Variable::Instance(i) => inst[i as int] as int,
        Variable::Witness(i) => wit[i as int] as int,
    }
}

/// The value of one term under an assignment.
pub open spec fn eval_term(t: Term, inst: Seq<u64>, wit: Seq<u64>) -> int {
    fmul(t.coeff as int, var_value(t.var, inst, wit))
}

/// The value of a linear combination under an assignment: the field sum of
/// its terms.
pub open spec fn eval_terms(ts: Seq<Term>, inst: Seq<u64>, wit: Seq<u64>) -> int
    decreases ts.len(),
{
    if ts.len() == 0 {
        0
    } else {
        fadd(eval_terms(ts.drop_last(), inst, wit), eval_term(ts.last(), inst, wit))
    }
}

/// Whether one constraint holds under an assignment.
pub open spec fn constraint_holds(c: ConstraintModel, inst: Seq<u64>, wit: Seq<u64>) -> bool {
    fmul(eval_terms(c.a, inst, wit), eval_terms(c.b, inst, wit)) == eval_terms(c.c, inst, wit)
}

/// Whether every constraint of a list holds under an assignment.
pub open spec fn constraints_satisfied(cs: Seq<ConstraintModel>, inst: Seq<u64>, wit: Seq<u64>) -> bool {
    forall|i: int| 0 <= i < cs.len() ==> constraint_holds(cs[i], inst, wit)
}

/// A one-term combination evaluates to its weighted variable.
pub proof fn lemma_eval_lin1(t: Term, inst: Seq<u64>, wit: Seq<u64>)
    ensures
        eval_terms(seq![t], inst, wit) == fmul(t.coeff as int, var_value(t.var, inst, wit)),
{
    let s = seq![t];
    assert(s.drop_last() =~= Seq::<Term>::empty());
    assert(eval_terms(Seq::<Term>::empty(), inst, wit) == 0);
}

/// A two-term combination evaluates to the field sum of its weighted
/// variables.
pub proof fn lemma_eval_lin2(t1: Term, t2: Term, inst: Seq<u64>, wit: Seq<u64>)
    ensures
        eval_terms(seq![t1, t2], inst, wit) == fadd(
            fmul(t1.coeff as int, var_value(t1.var, inst, wit)),
            fmul(t2.coeff as int, var_value(t2.var, inst, wit)),
        ),
{
    let s = seq![t1, t2];
    assert(s.drop_last() =~= seq![t1]);
    assert(s.last() == t2);
    lemma_eval_lin1(t1, inst, wit);
}

/// A variable handle only refers to allocated slots.
pub open spec fn var_in_bounds(v: Variable, ni: int, nw: int) -> bool {
    match v {
        Variable::One => true,
        Variable::Instance(i) => i < ni,
        Variable::Witness(i) => i < nw,
    }
}

/// A term is well formed when its coefficient is canonical and its variable
/// allocated.
pub open spec fn term_wf(t: Term, ni: int, nw: int) -> bool {
    in_field(t.coeff as int) && var_in_bounds(t.var, ni, nw)
}

/// Every term of a linear combination is well formed.
pub open spec fn terms_wf(ts: Seq<Term>, ni: int, nw: int) -> bool {
    forall|i: int| 0 <= i < ts.len() ==> term_wf(ts[i], ni, nw)
}

/// Every side of a constraint is well formed.
pub open spec fn constraint_wf(c: ConstraintModel, ni: int, nw: int) -> bool {
    terms_wf(c.a, ni, nw) && terms_wf(c.b, ni, nw) && terms_wf(c.c, ni, nw)
}

/// Every stored value is a canonical field element.
pub open spec fn values_in_field(vs: Seq<u64>) -> bool {
    forall|i: int| 0 <= i < vs.len() ==> in_field(vs[i] as int)
}

/// Terms stay well formed when the allocation bounds grow.
proof fn lemma_terms_wf_grow(ts: Seq<Term>, ni1: int, nw1: int, ni2: int, nw2: int)
    requires
        terms_wf(ts, ni1, nw1),
        ni1 <= ni2,
        nw1 <= nw2,
    ensures
        terms_wf(ts, ni2, nw2),
{
    assert forall|i: int| 0 <= i < ts.len() implies term_wf(ts[i], ni2, nw2) by {
        assert(term_wf(ts[i], ni1, nw1));
    }
}

/// Constraints stay well formed when the allocation bounds grow.
proof fn lemma_constraints_wf_grow(
    cs: Seq<ConstraintModel>,
    ni1: int,
    nw1: int,
    ni2: int,
    nw2: int,
)
    requires
        forall|i: int| 0 <= i < cs.len() ==> constraint_wf(#[trigger] cs[i], ni1, nw1),
        ni1 <= ni2,
        nw1 <= nw2,
    ensures
        forall|i: int| 0 <= i < cs.len() ==> constraint_wf(#[trigger] cs[i], ni2, nw2),
{
    assert forall|i: int| 0 <= i < cs.len() implies constraint_wf(#[trigger] cs[i], ni2, nw2) by {
        assert(constraint_wf(cs[i], ni1, nw1));
        lemma_terms_wf_grow(cs[i].a, ni1, nw1, ni2, nw2);
        lemma_terms_wf_grow(cs[i].b, ni1, nw1, ni2, nw2);
        lemma_terms_wf_grow(cs[i].c, ni1, nw1, ni2, nw2);
    }
}

/// A constraint system: allocation counters, the assignments supplied so far
/// (empty in setup mode), and the enforced constraints.
#[derive(Debug)]
pub struct ConstraintSystem {
    pub mode: SynthesisMode,
    pub num_instance: usize,
    pub num_witness: usize,
    pub instance: Vec<u64>,
    pub witness: Vec<u64>,
    pub constraints: Vec<Constraint>,
}

impl ConstraintSystem {
    /// The constraints as mathematical content, in enforcement order.
    pub open spec fn constraint_models(self) -> Seq<ConstraintModel> {
        self.constraints@.map_values(|c: Constraint| c@)
    }

    /// Internal invariant: assignments match the counters (and are absent in
    /// setup mode), all values are canonical, and every constraint refers
    /// only to allocated variables.
    pub open spec fn wf(self) -> bool {
        &&& (self.mode is Prove ==> self.instance@.len() == self.num_instance
            && self.witness@.len() == self.num_witness)
        &&& (self.mode is Setup ==> self.instance@.len() == 0 && self.witness@.len() == 0)
        &&& values_in_field(self.instance@)
        &&& values_in_field(self.witness@)
        &&& forall|i: int| 0 <= i < self.constraint_models().len()
            ==> constraint_wf(#[trigger] self.constraint_models()[i],
                    self.num_instance as int, self.num_witness as int)
    }

    /// Whether the enforced constraints hold under the system's own
    /// assignment (meaningful in prove mode).
    pub open spec fn satisfied(self) -> bool {
        constraints_satisfied(self.constraint_models(), self.instance@, self.witness@)
    }

    /// An empty system in the given mode.
    pub fn new(mode: SynthesisMode) -> (r: ConstraintSystem)
        ensures
            r.wf(),
            r.mode == mode,
            r.num_instance == 0,
            r.num_witness == 0,
            r.instance@.len() == 0,
            r.witness@.len() == 0,
            r.constraints@.len() == 0,
    {
        ConstraintSystem {
            mode,
            num_instance: 0,
            num_witness: 0,
            instance: Vec::new(),
            witness: Vec::new(),
            constraints: Vec::new(),
        }
    }

    /// Allocates a witness slot. In prove mode the concrete value must be
    /// supplied, else the allocation fails with `AssignmentMissing`; in setup
    /// mode the value is ignored.
    pub fn new_witness_variable(&mut self, v: Option<u64>) -> (r: Result<Variable, SynthesisError>)
        requires
            old(self).wf(),
            old(self).num_witness < usize::MAX,
            v matches Some(x) ==> in_field(x as int),
        ensures
            final(self).wf(),
            final(self).mode == old(self).mode,
            final(self).num_instance == old(self).num_instance,
            final(self).instance@ == old(self).instance@,
            final(self).constraints@ == old(self).constraints@,
            match r {
                Ok(var) => {
                    &&& var == Variable::Witness(old(self).num_witness)
                    &&& final(self).num_witness == old(self).num_witness + 1
                    &&& (old(self).mode is Prove ==> v is Some
                        && final(self).witness@ == old(self).witness@.push(v->0))
                    &&& (old(self).mode is Setup ==> final(self).witness@ == old(self).witness@)
                },
                Err(e) => {
                    &&& e == SynthesisError::AssignmentMissing
                    &&& old(self).mode is Prove
                    &&& v is None
                    &&& *final(self) == *old(self)
                },
            },
    {
        let r = match self.mode {
            SynthesisMode::Setup => {
                let idx = self.num_witness;
                self.num_witness = self.num_witness + 1;
                Ok(Variable::Witness(idx))
            },
            SynthesisMode::Prove => {
                match v {
                    None => Err(SynthesisError::AssignmentMissing),
                    Some(x) => {
                        let idx = self.num_witness;
                        self.witness.push(x);
                        self.num_witness = self.num_witness + 1;
                        Ok(Variable::Witness(idx))
                    },
                }
            },
        };
        proof {
            assert(self.constraint_models() =~= old(self).constraint_models());
            lemma_constraints_wf_grow(
                old(self).constraint_models(),
                self.num_instance as int,
                old(self).num_witness as int,
                self.num_instance as int,
                self.num_witness as int,
            );
        }
        r
    }

    /// Allocates a public-input slot, with the same value discipline as
    /// witness allocation.
    pub fn new_input_variable(&mut self, v: Option<u64>) -> (r: Result<Variable, SynthesisError>)
        requires
            old(self).wf(),
            old(self).num_instance < usize::MAX,
            v matches Some(x) ==> in_field(x as int),
        ensures
            final(self).wf(),
            final(self).mode == old(self).mode,
            final(self).num_witness == old(self).num_witness,
            final(self).witness@ == old(self).witness@,
            final(self).constraints@ == old(self).constraints@,
            match r {
                Ok(var) => {
                    &&& var == Variable::Instance(old(self).num_instance)
                    &&& final(self).num_instance == old(self).num_instance + 1
                    &&& (old(self).mode is Prove ==> v is Some
                        && final(self).instance@ == old(self).instance@.push(v->0))
                    &&& (old(self).mode is Setup ==> final(self).instance@ == old(self).instance@)
                },
                Err(e) => {
                    &&& e == SynthesisError::AssignmentMissing
                    &&& old(self).mode is Prove
                    &&& v is None
                    &&& *final(self) == *old(self)
                },
            },
    {
        let r = match self.mode {
            SynthesisMode::Setup => {
                let idx = self.num_instance;
                self.num_instance = self.num_instance + 1;
                Ok(Variable::Instance(idx))
            },
            SynthesisMode::Prove => {
                match v {
                    None => Err(SynthesisError::AssignmentMissing),
                    Some(x) => {
                        let idx = self.num_instance;
                        self.instance.push(x);
                        self.num_instance = self.num_instance + 1;
                        Ok(Variable::Instance(idx))
                    },
                }
            },
        };
        proof {
            assert(self.constraint_models() =~= old(self).constraint_models());
            lemma_constraints_wf_grow(
                old(self).constraint_models(),
                old(self).num_instance as int,
                self.num_witness as int,
                self.num_instance as int,
                self.num_witness as int,
            );
        }
        r
    }

    /// Enforces `a * b = c`. Constraints accumulate; nothing else changes.
    pub fn enforce_constraint(
        &mut self,
        a: LinearCombination,
        b: LinearCombination,
        c: LinearCombination,
    ) -> (r: Result<(), SynthesisError>)
        requires
            old(self).wf(),
            terms_wf(a@, old(self).num_instance as int, old(self).num_witness as int),
            terms_wf(b@, old(self).num_instance as int, old(self).num_witness as int),
            terms_wf(c@, old(self).num_instance as int, old(self).num_witness as int),
        ensures
            r is Ok,
            final(self).wf(),
            final(self).mode == old(self).mode,
            final(self).num_instance == old(self).num_instance,
            final(self).num_witness == old(self).num_witness,
            final(self).instance@ == old(self).instance@,
            final(self).witness@ == old(self).witness@,
            final(self).constraint_models()
                == old(self).constraint_models().push(ConstraintModel { a: a@, b: b@, c: c@ }),
    {
        let ghost old_models = self.constraint_models();
        let ghost model = (ConstraintModel { a: a@, b: b@, c: c@ });
        self.constraints.push(Constraint { a, b, c });
        proof {
            assert(self.constraint_models() =~= old_models.push(model));
        }
        Ok(())
    }

    /// Decides whether the enforced constraints hold under the witness the
    /// system carries and an externally supplied public input, the check a
    /// verifier performs against a claimed output.
    pub fn is_satisfied_with_instance(&self, inst: &Vec<u64>) -> (r: bool)
        requires
            self.wf(),
            self.mode is Prove,
            inst@.len() == self.num_instance,
            values_in_field(inst@),
        ensures
            r == constraints_satisfied(self.constraint_models(), inst@, self.witness@),
    {
        let n = self.constraints.len();
        let mut i: usize = 0;
        while i < n
            invariant
                n == self.constraints@.len(),
                0 <= i <= n,
                self.wf(),
                self.mode is Prove,
                inst@.len() == self.num_instance,
                values_in_field(inst@),
                forall|j: int| 0 <= j < i
                    ==> constraint_holds(#[trigger] self.constraint_models()[j], inst@, self.witness@),
            decreases n - i,
        {
            proof {
                assert(self.constraint_models()[i as int] == self.constraints@[i as int]@);
            }
            let ea = eval_lc(&self.constraints[i].a, inst, &self.witness);
            let eb = eval_lc(&self.constraints[i].b, inst, &self.witness);
            let ec = eval_lc(&self.constraints[i].c, inst, &self.witness);
            let prod = mul_fe(ea, eb);
            if prod != ec {
                return false;
            }
            i = i + 1;
        }
        true
    }

    /// Decides whether the enforced constraints hold under the system's own
    /// assignment.
    pub fn is_satisfied(&self) -> (r: bool)
        requires
            self.wf(),
            self.mode is Prove,
        ensures
            r == self.satisfied(),
    {
        self.is_satisfied_with_instance(&self.instance)
    }
}

/// An empty linear combination, evaluating to zero.
pub fn lc0() -> (r: LinearCombination)
    ensures
        r@ == Seq::<Term>::empty(),
{
    LinearCombination { terms: Vec::new() }
}

/// A linear combination of one weighted variable.
pub fn lc1(c: u64, v: Variable) -> (r: LinearCombination)
    ensures
        r@ == seq![Term { coeff: c, var: v }],
{
    let r = LinearCombination { terms: vec![Term { coeff: c, var: v }] };
    proof {
        assert(r@ =~= seq![Term { coeff: c, var: v }]);
    }
    r
}

/// A linear combination of two weighted variables.
pub fn lc2(c1: u64, v1: Variable, c2: u64, v2: Variable) -> (r: LinearCombination)
    ensures
        r@ == seq![Term { coeff: c1, var: v1 }, Term { coeff: c2, var: v2 }],
{
    let r = LinearCombination {
        terms: vec![Term { coeff: c1, var: v1 }, Term { coeff: c2, var: v2 }],
    };
    proof {
        assert(r@ =~= seq![Term { coeff: c1, var: v1 }, Term { coeff: c2, var: v2 }]);
    }
    r
}

/// Evaluates a linear combination under an assignment, in the field.
pub fn eval_lc(lc: &LinearCombination, inst: &Vec<u64>, wit: &Vec<u64>) -> (r: u64)
    requires
        terms_wf(lc@, inst@.len() as int, wit@.len() as int),
        values_in_field(inst@),
        values_in_field(wit@),
    ensures
        in_field(r as int),
        r as int == eval_terms(lc@, inst@, wit@),
{
    let n = lc.terms.len();
    let mut acc: u64 = 0;
    let mut i: usize = 0;
    while i < n
        invariant
            n == lc@.len(),
            0 <= i <= n,
            terms_wf(lc@, inst@.len() as int, wit@.len() as int),
            values_in_field(inst@),
            values_in_field(wit@),
            in_field(acc as int),
            acc as int == eval_terms(lc@.take(i as int), inst@, wit@),
        decreases n - i,
    {
        let t = lc.terms[i];
        let value: u64 = match t.var {
            Variable::One => 1,
            Variable::Instance(k) => inst[k],
            Variable::Witness(k) => wit[k],
        };
        acc = add_fe(acc, mul_fe(t.coeff, value));
        proof {
            assert(lc@.take(i + 1).drop_last() =~= lc@.take(i as int));
            assert(lc@.take(i + 1).last() == lc@[i as int]);
        }
        i = i + 1;
    }
    proof {
        assert(lc@.take(n as int) =~= lc@);
    }
    acc
}

} // verus!
