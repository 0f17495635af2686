//! Simplification of an expression tree by boolean identities.
//!
//! The rules are stated once, on formulas (`Formula::simplified` and the
//! three functions beside it); the executable functions below are proved
//! to compute exactly that.

use vstd::prelude::*;
use crate::formula::Connective;
use crate::formula::Formula;
use crate::identities::lemma_simplified_equivalent;
use crate::identities::lemma_simplified_variables;
use crate::normal_form::lemma_simplified_stable;
use crate::normal_form::lemma_simplify_idempotent;
use crate::parser::BooleanValue;
use crate::parser::Expr;
use crate::parser::Op;

verus! {

impl Formula {
    /// `self` where it weighs at most `limit`, a literal otherwise.
    ///
    /// The rules below simplify intermediate results a second time. Those
    /// results never outweigh what they were computed from
    /// (`lemma_simplified_weight`), so every cap in the rules returns `self`
    /// (`lemma_caps_vanish`); the caps are there to make the definitions
    /// well-founded.
    pub open spec fn capped(self, limit: nat) -> Formula {
        if self.weight() <= limit {
            self
        } else {
            Formula::Literal(false)
        }
    }

    /// The simplified form of a formula.
    ///
    /// A literal or a variable is left as it is. A grouping is simplified
    /// inside, and the parentheses are dropped around a literal, a variable
    /// or a negation. A negation, Or, And and Xor follow their own rules.
    /// An implication `a -> b` is treated as `!a + b` and a biconditional
    /// `a <-> b` as `!(a ^ b)`, each with the inner operation simplified
    /// first.
    pub open spec fn simplified(self) -> Formula
        decreases self.weight(), 1nat,
    {
        match self {
            Formula::Literal(_) => self,
            Formula::Variable(_) => self,
            Formula::Grouping(inner) => {
                let core = inner.simplified();
                if core is Literal || core is Variable || core is Not {
                    core
                } else {
                    Formula::Grouping(Box::new(core))
                }
            },
            Formula::Not(operand) => Formula::simplified_not(*operand),
            Formula::Binary(op, left, right) => match op {
                Connective::Implication => Formula::simplified_binary(
                    Connective::Or,
                    Formula::simplified_not(*left).capped(left.weight() + 1),
                    *right,
                ),
                Connective::Biconditional => Formula::simplified_not(
                    Formula::simplified_binary(Connective::Xor, *left, *right).capped(
                        left.weight() + right.weight() + 1,
                    ),
                ),
                _ => Formula::simplified_binary(op, *left, *right),
            },
        }
    }

    /// The simplified form of the negation of `operand`.
    ///
    /// A literal is folded. Anything else is simplified first; a literal
    /// that comes out is folded, a negation that comes out gives its own
    /// operand back (double negation), and any other result is negated.
    pub open spec fn simplified_not(operand: Formula) -> Formula
        decreases operand.weight() + 1, 0nat,
    {
        match operand {
            Formula::Literal(value) => Formula::Literal(!value),
            _ => match operand.simplified() {
                Formula::Literal(value) => Formula::Literal(!value),
                Formula::Not(inner) => *inner,
                other => Formula::Not(Box::new(other)),
            },
        }
    }

    /// The simplified form of `left op right`, for Or, And and Xor.
    ///
    /// Where an operand is a literal as it stands, the literal decides
    /// (`decided`), and the other operand is simplified only if the rule
    /// keeps it. Otherwise both operands are simplified; if a literal comes
    /// out, it decides in the same way, and if none does the operator is
    /// applied to the two simplified operands.
    pub open spec fn simplified_binary(op: Connective, left: Formula, right: Formula) -> Formula
        recommends
            op.is_primitive(),
        decreases left.weight() + right.weight() + 1, 0nat,
    {
        if left is Literal || right is Literal {
            Formula::decided(op, left, right)
        } else {
            let l = left.simplified();
            let r = right.simplified();
            if l is Literal || r is Literal {
                Formula::decided(op, l.capped(left.weight()), r.capped(right.weight()))
            } else {
                Formula::Binary(op, Box::new(l), Box::new(r))
            }
        }
    }

    /// What `left op right` simplifies to when at least one operand is a
    /// literal.
    ///
    /// Or and And: the annihilator (`true` for Or, `false` for And) on
    /// either side is the result; otherwise a literal is the identity and
    /// the result is the other operand, simplified. Xor: two literals fold
    /// to whether they differ; `false` on one side leaves the other operand,
    /// simplified; `true` on one side leaves the negation of the other
    /// operand, simplified by the negation rule. Where both sides are
    /// literals the left one is taken as the literal.
    pub open spec fn decided(op: Connective, left: Formula, right: Formula) -> Formula
        recommends
            op.is_primitive(),
            left is Literal || right is Literal,
        decreases left.weight() + right.weight(), 2nat,
    {
        if op is Xor {
            match (left, right) {
                (Formula::Literal(a), Formula::Literal(b)) => Formula::Literal(a != b),
                (Formula::Literal(value), _) => if value {
                    Formula::simplified_not(right)
                } else {
                    right.simplified()
                },
                (_, Formula::Literal(value)) => if value {
                    Formula::simplified_not(left)
                } else {
                    left.simplified()
                },
                _ => Formula::Binary(op, Box::new(left), Box::new(right)),
            }
        } else {
            let annihilator = op is Or;
            if left == Formula::Literal(annihilator) || right == Formula::Literal(annihilator) {
                Formula::Literal(annihilator)
            } else if left is Literal {
                right.simplified()
            } else if right is Literal {
                left.simplified()
            } else {
                Formula::Binary(op, Box::new(left), Box::new(right))
            }
        }
    }
}

/// Simplifies an expression by the boolean identities of this module.
///
/// The tree is consumed and a new one returned; no rule can fail. The result
/// is in normal form, so that simplifying it again changes nothing. It has
/// the truth value of the expression under every assignment, no variable
/// that the expression lacks, and no more weight than the expression.
pub fn simplify(expr: Expr) -> (result: Expr)
    ensures
        result@ == expr@.simplified(),
        result@.simplified() == result@,
        result@.stable(),
        result@.equivalent(expr@),
        result@.variables().subset_of(expr@.variables()),
        result@.weight() <= expr@.weight(),
    decreases expr@.weight(), 3nat, 0nat,
{
    proof {
        lemma_simplified_stable(expr@);
        lemma_simplify_idempotent(expr@);
        lemma_simplified_equivalent(expr@);
        lemma_simplified_variables(expr@);
        lemma_simplified_weight(expr@);
    }
    match expr {
        Expr::Value(value) => Expr::Value(value),
        Expr::Variable(name) => Expr::Variable(name),
        Expr::Op(op) => simplify_op(op),
        Expr::Group(group) => {
            let inner = simplify(*group);
            if keeps_without_parentheses(&inner) {
                inner
            } else {
                Expr::Group(Box::new(inner))
            }
        },
    }
}

/// Whether `expr` is a literal, a variable or a negation: what needs no
/// parentheses around it.
fn keeps_without_parentheses(expr: &Expr) -> (atomic: bool)
    ensures
        atomic == (expr@ is Literal || expr@ is Variable || expr@ is Not),
{
    match expr {
        Expr::Value(_) => true,
        Expr::Variable(_) => true,
        Expr::Op(Op::Not(_)) => true,
        _ => false,
    }
}

/// Whether `expr` is a literal.
fn is_value(expr: &Expr) -> (literal: bool)
    ensures
        literal == (expr@ is Literal),
{
    match expr {
        Expr::Value(_) => true,
        _ => false,
    }
}

/// Simplifies an operation by the rule of its operator.
fn simplify_op(op: Op) -> (result: Expr)
    ensures
        result@ == op@.simplified(),
    decreases op@.weight(), 2nat, 0nat,
{
    match op {
        Op::Not(expr) => simplify_not(*expr),
        Op::Or(left, right) => simplify_or(*left, *right),
        Op::And(left, right) => simplify_and(*left, *right),
        Op::Xor(left, right) => simplify_xor(*left, *right),
        Op::Implication(left, right) => simplify_implication(*left, *right),
        Op::Biconditional(left, right) => simplify_biconditional(*left, *right),
    }
}

/// Simplifies the negation of `expr`.
fn simplify_not(expr: Expr) -> (result: Expr)
    ensures
        result@ == Formula::simplified_not(expr@),
    decreases expr@.weight() + 1, 0nat, 0nat,
{
    match expr {
        Expr::Value(BooleanValue::True) => Expr::Value(BooleanValue::False),
        Expr::Value(BooleanValue::False) => Expr::Value(BooleanValue::True),
        e => {
            let e = simplify(e);
            match e {
                Expr::Value(BooleanValue::True) => Expr::Value(BooleanValue::False),
                Expr::Value(BooleanValue::False) => Expr::Value(BooleanValue::True),
                Expr::Op(Op::Not(a)) => *a,
                e => Expr::Op(Op::Not(Box::new(e))),
            }
        },
    }
}

/// Simplifies `left + right`: `true` absorbs, `false` leaves the other
/// operand.
fn simplify_or(left: Expr, right: Expr) -> (result: Expr)
    ensures
        result@ == Formula::simplified_binary(Connective::Or, left@, right@),
    decreases
        left@.weight() + right@.weight() + 1,
        0nat,
        if left@ is Literal || right@ is Literal { 0nat } else { 1nat },
{
    match (left, right) {
        (Expr::Value(BooleanValue::True), _) => Expr::Value(BooleanValue::True),
        (_, Expr::Value(BooleanValue::True)) => Expr::Value(BooleanValue::True),
        (Expr::Value(BooleanValue::False), expr) => simplify(expr),
        (expr, Expr::Value(BooleanValue::False)) => simplify(expr),
        (l, r) => {
            proof {
                lemma_caps_vanish(l@, r@);
            }
            let (l, r) = (simplify(l), simplify(r));
            if is_value(&l) || is_value(&r) {
                simplify_or(l, r)
            } else {
                Expr::Op(Op::Or(Box::new(l), Box::new(r)))
            }
        },
    }
}

/// Simplifies `left * right`: `false` absorbs, `true` leaves the other
/// operand.
fn simplify_and(left: Expr, right: Expr) -> (result: Expr)
    ensures
        result@ == Formula::simplified_binary(Connective::And, left@, right@),
    decreases
        left@.weight() + right@.weight() + 1,
        0nat,
        if left@ is Literal || right@ is Literal { 0nat } else { 1nat },
{
    match (left, right) {
        (Expr::Value(BooleanValue::False), _) => Expr::Value(BooleanValue::False),
        (_, Expr::Value(BooleanValue::False)) => Expr::Value(BooleanValue::False),
        (Expr::Value(BooleanValue::True), expr) => simplify(expr),
        (expr, Expr::Value(BooleanValue::True)) => simplify(expr),
        (l, r) => {
            proof {
                lemma_caps_vanish(l@, r@);
            }
            let (l, r) = (simplify(l), simplify(r));
            if is_value(&l) || is_value(&r) {
                simplify_and(l, r)
            } else {
                Expr::Op(Op::And(Box::new(l), Box::new(r)))
            }
        },
    }
}

/// Simplifies `left ^ right`: two literals fold, `false` leaves the other
/// operand and `true` its negation.
fn simplify_xor(left: Expr, right: Expr) -> (result: Expr)
    ensures
        result@ == Formula::simplified_binary(Connective::Xor, left@, right@),
    decreases
        left@.weight() + right@.weight() + 1,
        0nat,
        if left@ is Literal || right@ is Literal { 0nat } else { 1nat },
{
    match (left, right) {
        (Expr::Value(a), Expr::Value(b)) => {
            if a == b {
                Expr::Value(BooleanValue::False)
            } else {
                Expr::Value(BooleanValue::True)
            }
        },
        (Expr::Value(BooleanValue::False), expr) => simplify(expr),
        (expr, Expr::Value(BooleanValue::False)) => simplify(expr),
        (Expr::Value(BooleanValue::True), expr) => simplify_not(expr),
        (expr, Expr::Value(BooleanValue::True)) => simplify_not(expr),
        (l, r) => {
            proof {
                lemma_caps_vanish(l@, r@);
            }
            let (l, r) = (simplify(l), simplify(r));
            if is_value(&l) || is_value(&r) {
                simplify_xor(l, r)
            } else {
                Expr::Op(Op::Xor(Box::new(l), Box::new(r)))
            }
        },
    }
}

/// Simplifies `left -> right` as `!left + right`.
fn simplify_implication(left: Expr, right: Expr) -> (result: Expr)
    ensures
        result@ == Formula::Binary(
            Connective::Implication,
            Box::new(left@),
            Box::new(right@),
        ).simplified(),
    decreases left@.weight() + right@.weight() + 3, 1nat, 0nat,
{
    proof {
        lemma_caps_vanish(left@, right@);
        lemma_simplified_not_weight(left@);
    }
    simplify_or(simplify_not(left), right)
}

/// Simplifies `left <-> right` as `!(left ^ right)`.
fn simplify_biconditional(left: Expr, right: Expr) -> (result: Expr)
    ensures
        result@ == Formula::Binary(
            Connective::Biconditional,
            Box::new(left@),
            Box::new(right@),
        ).simplified(),
    decreases left@.weight() + right@.weight() + 3, 1nat, 0nat,
{
    proof {
        lemma_caps_vanish(left@, right@);
        lemma_simplified_binary_weight(Connective::Xor, left@, right@);
    }
    simplify_not(simplify_xor(left, right))
}

/// Simplifying never adds weight, and the three rule functions stay within
/// the weight of the operation they stand for.
pub proof fn lemma_simplified_weight(formula: Formula)
    ensures
        formula.simplified().weight() <= formula.weight(),
    decreases formula.weight(), 1nat,
{
    match formula {
        Formula::Literal(_) => {},
        Formula::Variable(_) => {},
        Formula::Grouping(inner) => {
            lemma_simplified_weight(*inner);
        },
        Formula::Not(operand) => {
            lemma_simplified_not_weight(*operand);
        },
        Formula::Binary(op, left, right) => {
            match op {
                Connective::Implication => {
                    lemma_simplified_not_weight(*left);
                    lemma_simplified_binary_weight(
                        Connective::Or,
                        Formula::simplified_not(*left),
                        *right,
                    );
                },
                Connective::Biconditional => {
                    lemma_simplified_binary_weight(Connective::Xor, *left, *right);
                    lemma_simplified_not_weight(
                        Formula::simplified_binary(Connective::Xor, *left, *right),
                    );
                },
                _ => {
                    lemma_simplified_binary_weight(op, *left, *right);
                },
            }
        },
    }
}

/// The simplified negation of a formula weighs at most one more than the
/// formula.
pub proof fn lemma_simplified_not_weight(operand: Formula)
    ensures
        Formula::simplified_not(operand).weight() <= operand.weight() + 1,
    decreases operand.weight() + 1, 0nat,
{
    if !(operand is Literal) {
        lemma_simplified_weight(operand);
    }
}

/// A simplified Or, And or Xor weighs at most what the operator and its two
/// operands weigh.
pub proof fn lemma_simplified_binary_weight(op: Connective, left: Formula, right: Formula)
    requires
        op.is_primitive(),
    ensures
        Formula::simplified_binary(op, left, right).weight() <= left.weight() + right.weight() + 1,
    decreases left.weight() + right.weight() + 1, 0nat,
{
    if left is Literal || right is Literal {
        lemma_decided_weight(op, left, right);
    } else {
        lemma_simplified_weight(left);
        lemma_simplified_weight(right);
        let l = left.simplified();
        let r = right.simplified();
        if l is Literal || r is Literal {
            lemma_decided_weight(op, l, r);
        }
    }
}

/// What a literal decides weighs at most what the two operands weigh.
pub proof fn lemma_decided_weight(op: Connective, left: Formula, right: Formula)
    requires
        op.is_primitive(),
        left is Literal || right is Literal,
    ensures
        Formula::decided(op, left, right).weight() <= left.weight() + right.weight(),
    decreases left.weight() + right.weight(), 2nat,
{
    lemma_simplified_weight(left);
    lemma_simplified_weight(right);
}

/// Every cap in the rules returns the formula it is applied to, so the rules
/// read as if the caps were not there.
pub proof fn lemma_caps_vanish(left: Formula, right: Formula)
    ensures
        Formula::simplified_not(left).capped(left.weight() + 1) == Formula::simplified_not(left),
        Formula::simplified_binary(Connective::Xor, left, right).capped(
            left.weight() + right.weight() + 1,
        ) == Formula::simplified_binary(Connective::Xor, left, right),
        left.simplified().capped(left.weight()) == left.simplified(),
        right.simplified().capped(right.weight()) == right.simplified(),
{
    lemma_simplified_not_weight(left);
    lemma_simplified_binary_weight(Connective::Xor, left, right);
    lemma_simplified_weight(left);
    lemma_simplified_weight(right);
}

} // verus!
