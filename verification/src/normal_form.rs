//! The normal form of the simplifier.
//!
//! A tree is a fixed point of `simplified` exactly when it is `stable`, and
//! what `simplified` returns is always stable. So simplifying a second time
//! changes nothing.

use vstd::prelude::*;
use crate::formula::Connective;
use crate::formula::Formula;
use crate::eval::lemma_simplified_weight;
use crate::eval::lemma_simplified_not_weight;
use crate::eval::lemma_simplified_binary_weight;
use crate::eval::lemma_decided_weight;
use crate::eval::lemma_caps_vanish;

verus! {

impl Formula {
    /// Every operator is where a simplified tree can have it: no
    /// implication and no biconditional is left, no operand of Or, And or
    /// Xor is a literal, and parentheses stand only around a binary
    /// operation or around other parentheses.
    pub open spec fn regular(self) -> bool
        decreases self,
    {
        match self {
            Formula::Literal(_) => true,
            Formula::Variable(_) => true,
            Formula::Not(operand) => operand.regular(),
            Formula::Binary(op, left, right) => {
                &&& op.is_primitive()
                &&& !(*left is Literal)
                &&& !(*right is Literal)
                &&& left.regular()
                &&& right.regular()
            },
            Formula::Grouping(inner) => {
                &&& *inner is Binary || *inner is Grouping
                &&& inner.regular()
            },
        }
    }

    /// No negation in the tree is applied to a literal or to another
    /// negation.
    pub open spec fn plainly_negated(self) -> bool
        decreases self,
    {
        match self {
            Formula::Literal(_) => true,
            Formula::Variable(_) => true,
            Formula::Not(operand) => {
                &&& !(*operand is Literal)
                &&& !(*operand is Not)
                &&& operand.plainly_negated()
            },
            Formula::Binary(_, left, right) => left.plainly_negated() && right.plainly_negated(),
            Formula::Grouping(inner) => inner.plainly_negated(),
        }
    }

    /// The normal form of the simplifier: regular, with plain negations.
    pub open spec fn stable(self) -> bool {
        self.regular() && self.plainly_negated()
    }
}

/// A stable tree is simplified to itself.
pub proof fn lemma_stable_is_fixed(formula: Formula)
    requires
        formula.stable(),
    ensures
        formula.simplified() == formula,
    decreases formula,
{
    match formula {
        Formula::Literal(_) => {},
        Formula::Variable(_) => {},
        Formula::Not(operand) => {
            lemma_stable_is_fixed(*operand);
            assert(Formula::simplified_not(*operand) == formula);
        },
        Formula::Binary(op, left, right) => {
            lemma_stable_is_fixed(*left);
            lemma_stable_is_fixed(*right);
            assert(Formula::simplified_binary(op, *left, *right) == formula);
        },
        Formula::Grouping(inner) => {
            lemma_stable_is_fixed(*inner);
        },
    }
}

/// A tree that is simplified to itself is stable.
pub proof fn lemma_fixed_is_stable(formula: Formula)
    requires
        formula.simplified() == formula,
    ensures
        formula.stable(),
    decreases formula,
{
    match formula {
        Formula::Literal(_) => {},
        Formula::Variable(_) => {},
        Formula::Not(operand) => {
            lemma_simplified_weight(*operand);
            assert(Formula::simplified_not(*operand) == formula);
            if let Formula::Not(inner) = operand.simplified() {
                assert(inner.weight() < operand.simplified().weight());
                assert(inner.weight() < formula.weight());
            }
            assert(operand.simplified() == *operand);
            lemma_fixed_is_stable(*operand);
        },
        Formula::Binary(op, left, right) => {
            lemma_caps_vanish(*left, *right);
            lemma_simplified_weight(*left);
            lemma_simplified_weight(*right);
            match op {
                Connective::Implication => {
                    lemma_simplified_not_weight(*left);
                    lemma_simplified_binary_weight(
                        Connective::Or,
                        Formula::simplified_not(*left),
                        *right,
                    );
                },
                Connective::Biconditional => {
                    lemma_simplified_binary_weight(Connective::Xor, *left, *right);
                    lemma_simplified_not_weight(
                        Formula::simplified_binary(Connective::Xor, *left, *right),
                    );
                },
                _ => {
                    assert(Formula::simplified_binary(op, *left, *right) == formula);
                    if *left is Literal || *right is Literal {
                        lemma_decided_weight(op, *left, *right);
                        } else if left.simplified() is Literal || right.simplified() is Literal {
                        lemma_decided_weight(op, left.simplified(), right.simplified());
                        } else {
                        lemma_fixed_is_stable(*left);
                        lemma_fixed_is_stable(*right);
                    }
                },
            }
        },
        Formula::Grouping(inner) => {
            assert(inner.simplified() == *inner);
            lemma_fixed_is_stable(*inner);
        },
    }
}

/// What simplification returns is regular.
pub proof fn lemma_simplified_regular(formula: Formula)
    ensures
        formula.simplified().regular(),
    decreases formula.weight(), 1nat,
{
    match formula {
        Formula::Literal(_) => {},
        Formula::Variable(_) => {},
        Formula::Not(operand) => {
            lemma_simplified_not_regular(*operand);
        },
        Formula::Binary(op, left, right) => {
            lemma_caps_vanish(*left, *right);
            match op {
                Connective::Implication => {
                    lemma_simplified_not_weight(*left);
                    lemma_simplified_binary_regular(
                        Connective::Or,
                        Formula::simplified_not(*left),
                        *right,
                    );
                },
                Connective::Biconditional => {
                    lemma_simplified_binary_weight(Connective::Xor, *left, *right);
                    lemma_simplified_not_regular(
                        Formula::simplified_binary(Connective::Xor, *left, *right),
                    );
                },
                _ => {
                    lemma_simplified_binary_regular(op, *left, *right);
                },
            }
        },
        Formula::Grouping(inner) => {
            lemma_simplified_regular(*inner);
        },
    }
}

/// What the negation rule returns is regular.
proof fn lemma_simplified_not_regular(operand: Formula)
    ensures
        Formula::simplified_not(operand).regular(),
    decreases operand.weight() + 1, 0nat,
{
    if !(operand is Literal) {
        lemma_simplified_regular(operand);
    }
}

/// What the rule for Or, And and Xor returns is regular.
proof fn lemma_simplified_binary_regular(op: Connective, left: Formula, right: Formula)
    requires
        op.is_primitive(),
    ensures
        Formula::simplified_binary(op, left, right).regular(),
    decreases left.weight() + right.weight() + 1, 0nat,
{
    if left is Literal || right is Literal {
        lemma_decided_regular(op, left, right);
    } else {
        lemma_simplified_regular(left);
        lemma_simplified_regular(right);
        lemma_caps_vanish(left, right);
        lemma_simplified_weight(left);
        lemma_simplified_weight(right);
        if left.simplified() is Literal || right.simplified() is Literal {
            lemma_decided_regular(op, left.simplified(), right.simplified());
        }
    }
}

/// What a literal operand decides is regular.
proof fn lemma_decided_regular(op: Connective, left: Formula, right: Formula)
    requires
        op.is_primitive(),
        left is Literal || right is Literal,
    ensures
        Formula::decided(op, left, right).regular(),
    decreases left.weight() + right.weight(), 2nat,
{
    lemma_simplified_regular(left);
    lemma_simplified_regular(right);
}

/// What simplification returns negates no literal and no negation.
pub proof fn lemma_simplified_plainly_negated(formula: Formula)
    ensures
        formula.simplified().plainly_negated(),
    decreases formula.weight(), 1nat,
{
    match formula {
        Formula::Literal(_) => {},
        Formula::Variable(_) => {},
        Formula::Not(operand) => {
            lemma_simplified_not_plainly_negated(*operand);
        },
        Formula::Binary(op, left, right) => {
            lemma_caps_vanish(*left, *right);
            match op {
                Connective::Implication => {
                    lemma_simplified_not_weight(*left);
                    lemma_simplified_binary_plainly_negated(
                        Connective::Or,
                        Formula::simplified_not(*left),
                        *right,
                    );
                },
                Connective::Biconditional => {
                    lemma_simplified_binary_weight(Connective::Xor, *left, *right);
                    lemma_simplified_not_plainly_negated(
                        Formula::simplified_binary(Connective::Xor, *left, *right),
                    );
                },
                _ => {
                    lemma_simplified_binary_plainly_negated(op, *left, *right);
                },
            }
        },
        Formula::Grouping(inner) => {
            lemma_simplified_plainly_negated(*inner);
        },
    }
}

/// What the negation rule returns negates no literal and no negation.
proof fn lemma_simplified_not_plainly_negated(operand: Formula)
    ensures
        Formula::simplified_not(operand).plainly_negated(),
    decreases operand.weight() + 1, 0nat,
{
    if !(operand is Literal) {
        lemma_simplified_plainly_negated(operand);
    }
}

/// What the rule for Or, And and Xor returns negates no literal and no
/// negation.
proof fn lemma_simplified_binary_plainly_negated(op: Connective, left: Formula, right: Formula)
    requires
        op.is_primitive(),
    ensures
        Formula::simplified_binary(op, left, right).plainly_negated(),
    decreases left.weight() + right.weight() + 1, 0nat,
{
    if left is Literal || right is Literal {
        lemma_decided_plainly_negated(op, left, right);
    } else {
        lemma_simplified_plainly_negated(left);
        lemma_simplified_plainly_negated(right);
        lemma_caps_vanish(left, right);
        lemma_simplified_weight(left);
        lemma_simplified_weight(right);
        if left.simplified() is Literal || right.simplified() is Literal {
            lemma_decided_plainly_negated(op, left.simplified(), right.simplified());
        }
    }
}

/// What a literal operand decides negates no literal and no negation.
proof fn lemma_decided_plainly_negated(op: Connective, left: Formula, right: Formula)
    requires
        op.is_primitive(),
        left is Literal || right is Literal,
    ensures
        Formula::decided(op, left, right).plainly_negated(),
    decreases left.weight() + right.weight(), 2nat,
{
    if left is Literal {
        lemma_simplified_plainly_negated(right);
        lemma_simplified_not_plainly_negated(right);
    }
    if right is Literal {
        lemma_simplified_plainly_negated(left);
        lemma_simplified_not_plainly_negated(left);
    }
}

/// What simplification returns is stable.
pub proof fn lemma_simplified_stable(formula: Formula)
    ensures
        formula.simplified().stable(),
{
    lemma_simplified_regular(formula);
    lemma_simplified_plainly_negated(formula);
}

/// Simplification is idempotent: simplifying a second time changes nothing.
pub proof fn lemma_simplify_idempotent(formula: Formula)
    ensures
        formula.simplified().simplified() == formula.simplified(),
{
    lemma_simplified_stable(formula);
    lemma_stable_is_fixed(formula.simplified());
}

impl Formula {
    /// No literal occurs in the tree.
    pub open spec fn literal_free(self) -> bool
        decreases self,
    {
        match self {
            Formula::Literal(_) => false,
            Formula::Variable(_) => true,
            Formula::Not(operand) => operand.literal_free(),
            Formula::Binary(_, left, right) => left.literal_free() && right.literal_free(),
            Formula::Grouping(inner) => inner.literal_free(),
        }
    }
}

/// A stable tree is one literal or holds none.
pub proof fn lemma_stable_literals(formula: Formula)
    requires
        formula.stable(),
    ensures
        formula is Literal || formula.literal_free(),
    decreases formula,
{
    match formula {
        Formula::Literal(_) => {},
        Formula::Variable(_) => {},
        Formula::Not(operand) => {
            lemma_stable_literals(*operand);
        },
        Formula::Binary(_, left, right) => {
            lemma_stable_literals(*left);
            lemma_stable_literals(*right);
        },
        Formula::Grouping(inner) => {
            lemma_stable_literals(*inner);
        },
    }
}

/// What simplification returns is one literal or holds none: every literal
/// of the tree has been folded away or has decided the whole.
pub proof fn lemma_simplified_literals(formula: Formula)
    ensures
        formula.simplified() is Literal || formula.simplified().literal_free(),
{
    lemma_simplified_stable(formula);
    lemma_stable_literals(formula.simplified());
}

} // verus!
