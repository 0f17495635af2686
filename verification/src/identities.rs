//! What simplification keeps and what its rules amount to: the truth value
//! under every assignment, the set of variables, and the boolean identities
//! read as equations between simplified forms.

use vstd::prelude::*;
use crate::formula::Assignment;
use crate::formula::Connective;
use crate::formula::Formula;
use crate::eval::lemma_simplified_weight;
use crate::eval::lemma_simplified_not_weight;
use crate::eval::lemma_simplified_binary_weight;
use crate::eval::lemma_caps_vanish;
use crate::normal_form::lemma_simplified_plainly_negated;
use crate::normal_form::lemma_simplified_regular;
use crate::normal_form::lemma_stable_is_fixed;

verus! {

/// The simplified form has the truth value of the formula under every
/// assignment.
pub proof fn lemma_simplified_equivalent(formula: Formula)
    ensures
        formula.simplified().equivalent(formula),
{
    assert forall|env: Assignment| #[trigger]
        formula.simplified().holds(env) == formula.holds(env) by {
        lemma_simplified_holds(formula, env);
    }
}

/// The simplified form has the truth value of the formula under `env`.
pub proof fn lemma_simplified_holds(formula: Formula, env: Assignment)
    ensures
        formula.simplified().holds(env) == formula.holds(env),
    decreases formula.weight(), 1nat,
{
    match formula {
        Formula::Literal(_) => {},
        Formula::Variable(_) => {},
        Formula::Not(operand) => {
            lemma_simplified_not_holds(*operand, env);
        },
        Formula::Binary(op, left, right) => {
            lemma_caps_vanish(*left, *right);
            match op {
                Connective::Implication => {
                    lemma_simplified_not_weight(*left);
                    lemma_simplified_not_holds(*left, env);
                    lemma_simplified_binary_holds(
                        Connective::Or,
                        Formula::simplified_not(*left),
                        *right,
                        env,
                    );
                },
                Connective::Biconditional => {
                    lemma_simplified_binary_weight(Connective::Xor, *left, *right);
                    lemma_simplified_binary_holds(Connective::Xor, *left, *right, env);
                    lemma_simplified_not_holds(
                        Formula::simplified_binary(Connective::Xor, *left, *right),
                        env,
                    );
                },
                _ => {
                    lemma_simplified_binary_holds(op, *left, *right, env);
                },
            }
        },
        Formula::Grouping(inner) => {
            lemma_simplified_holds(*inner, env);
        },
    }
}

/// The negation rule returns a formula that holds exactly where the operand
/// does not.
proof fn lemma_simplified_not_holds(operand: Formula, env: Assignment)
    ensures
        Formula::simplified_not(operand).holds(env) == !operand.holds(env),
    decreases operand.weight() + 1, 0nat,
{
    if !(operand is Literal) {
        lemma_simplified_holds(operand, env);
    }
}

/// The rule for Or, And and Xor returns a formula with the truth value of
/// the operator applied to the operands.
proof fn lemma_simplified_binary_holds(
    op: Connective,
    left: Formula,
    right: Formula,
    env: Assignment,
)
    requires
        op.is_primitive(),
    ensures
        Formula::simplified_binary(op, left, right).holds(env) == op.apply(
            left.holds(env),
            right.holds(env),
        ),
    decreases left.weight() + right.weight() + 1, 0nat,
{
    if left is Literal || right is Literal {
        lemma_decided_holds(op, left, right, env);
    } else {
        lemma_simplified_holds(left, env);
        lemma_simplified_holds(right, env);
        lemma_caps_vanish(left, right);
        lemma_simplified_weight(left);
        lemma_simplified_weight(right);
        if left.simplified() is Literal || right.simplified() is Literal {
            lemma_decided_holds(op, left.simplified(), right.simplified(), env);
        }
    }
}

/// What a literal operand decides has the truth value of the operator
/// applied to the operands.
proof fn lemma_decided_holds(op: Connective, left: Formula, right: Formula, env: Assignment)
    requires
        op.is_primitive(),
        left is Literal || right is Literal,
    ensures
        Formula::decided(op, left, right).holds(env) == op.apply(left.holds(env), right.holds(env)),
    decreases left.weight() + right.weight(), 2nat,
{
    lemma_simplified_holds(left, env);
    lemma_simplified_holds(right, env);
}

/// Simplification introduces no variable.
pub proof fn lemma_simplified_variables(formula: Formula)
    ensures
        formula.simplified().variables().subset_of(formula.variables()),
    decreases formula.weight(), 1nat,
{
    match formula {
        Formula::Literal(_) => {},
        Formula::Variable(_) => {},
        Formula::Not(operand) => {
            lemma_simplified_not_variables(*operand);
        },
        Formula::Binary(op, left, right) => {
            lemma_caps_vanish(*left, *right);
            match op {
                Connective::Implication => {
                    lemma_simplified_not_weight(*left);
                    lemma_simplified_not_variables(*left);
                    lemma_simplified_binary_variables(
                        Connective::Or,
                        Formula::simplified_not(*left),
                        *right,
                    );
                },
                Connective::Biconditional => {
                    lemma_simplified_binary_weight(Connective::Xor, *left, *right);
                    lemma_simplified_binary_variables(Connective::Xor, *left, *right);
                    lemma_simplified_not_variables(
                        Formula::simplified_binary(Connective::Xor, *left, *right),
                    );
                },
                _ => {
                    lemma_simplified_binary_variables(op, *left, *right);
                },
            }
        },
        Formula::Grouping(inner) => {
            lemma_simplified_variables(*inner);
        },
    }
}

/// The negation rule introduces no variable.
proof fn lemma_simplified_not_variables(operand: Formula)
    ensures
        Formula::simplified_not(operand).variables().subset_of(operand.variables()),
    decreases operand.weight() + 1, 0nat,
{
    if !(operand is Literal) {
        lemma_simplified_variables(operand);
    }
}

/// The rule for Or, And and Xor introduces no variable.
proof fn lemma_simplified_binary_variables(op: Connective, left: Formula, right: Formula)
    requires
        op.is_primitive(),
    ensures
        Formula::simplified_binary(op, left, right).variables().subset_of(
            left.variables().union(right.variables()),
        ),
    decreases left.weight() + right.weight() + 1, 0nat,
{
    if left is Literal || right is Literal {
        lemma_decided_variables(op, left, right);
    } else {
        lemma_simplified_variables(left);
        lemma_simplified_variables(right);
        lemma_caps_vanish(left, right);
        lemma_simplified_weight(left);
        lemma_simplified_weight(right);
        if left.simplified() is Literal || right.simplified() is Literal {
            lemma_decided_variables(op, left.simplified(), right.simplified());
        }
    }
}

/// What a literal operand decides has no variable that the operands lack.
proof fn lemma_decided_variables(op: Connective, left: Formula, right: Formula)
    requires
        op.is_primitive(),
        left is Literal || right is Literal,
    ensures
        Formula::decided(op, left, right).variables().subset_of(
            left.variables().union(right.variables()),
        ),
    decreases left.weight() + right.weight(), 2nat,
{
    lemma_simplified_variables(left);
    lemma_simplified_variables(right);
}

/// Constant folding: the negation of a literal simplifies to the opposite
/// literal.
pub proof fn lemma_not_literal(value: bool)
    ensures
        Formula::Not(Box::new(Formula::Literal(value))).simplified() == Formula::Literal(!value),
{
    assert(Formula::simplified_not(Formula::Literal(value)) == Formula::Literal(!value));
}

/// Annihilator and identity of Or and And, for a literal on either side and
/// any formula on the other: `true` absorbs in Or and `false` in And,
/// whatever the other operand is; with the other literal the operation
/// simplifies to what the other operand simplifies to.
pub proof fn lemma_identity_annihilator(op: Connective, value: bool, other: Formula)
    requires
        op is Or || op is And,
    ensures
        value == (op is Or) ==> Formula::Binary(
            op,
            Box::new(Formula::Literal(value)),
            Box::new(other),
        ).simplified() == Formula::Literal(value),
        value == (op is Or) ==> Formula::Binary(
            op,
            Box::new(other),
            Box::new(Formula::Literal(value)),
        ).simplified() == Formula::Literal(value),
        value != (op is Or) ==> Formula::Binary(
            op,
            Box::new(Formula::Literal(value)),
            Box::new(other),
        ).simplified() == other.simplified(),
        value != (op is Or) ==> Formula::Binary(
            op,
            Box::new(other),
            Box::new(Formula::Literal(value)),
        ).simplified() == other.simplified(),
{
    let literal = Formula::Literal(value);
    assert(Formula::Binary(op, Box::new(literal), Box::new(other)).simplified()
        == Formula::simplified_binary(op, literal, other));
    assert(Formula::Binary(op, Box::new(other), Box::new(literal)).simplified()
        == Formula::simplified_binary(op, other, literal));
    assert(Formula::simplified_binary(op, literal, other) == Formula::decided(op, literal, other));
    assert(Formula::simplified_binary(op, other, literal) == Formula::decided(op, other, literal));
}

/// Or, And and Xor look at literals only: where neither operand is a literal
/// and neither simplifies to one, the operation stays, applied to the
/// simplified operands. So `a ^ a` stays `a ^ a`.
pub proof fn lemma_binary_kept(op: Connective, left: Formula, right: Formula)
    requires
        op.is_primitive(),
        !(left.simplified() is Literal),
        !(right.simplified() is Literal),
    ensures
        Formula::Binary(op, Box::new(left), Box::new(right)).simplified() == Formula::Binary(
            op,
            Box::new(left.simplified()),
            Box::new(right.simplified()),
        ),
{
    assert(Formula::Binary(op, Box::new(left), Box::new(right)).simplified()
        == Formula::simplified_binary(op, left, right));
}

/// Xor with a literal on either side: with `false` the operation simplifies
/// to what the other operand simplifies to, with `true` to what the negation
/// of the other operand simplifies to.
pub proof fn lemma_xor_literal(value: bool, other: Formula)
    ensures
        Formula::Binary(
            Connective::Xor,
            Box::new(Formula::Literal(value)),
            Box::new(other),
        ).simplified() == if value {
            Formula::Not(Box::new(other)).simplified()
        } else {
            other.simplified()
        },
        Formula::Binary(
            Connective::Xor,
            Box::new(other),
            Box::new(Formula::Literal(value)),
        ).simplified() == if value {
            Formula::Not(Box::new(other)).simplified()
        } else {
            other.simplified()
        },
{
    let literal = Formula::Literal(value);
    assert(Formula::Binary(Connective::Xor, Box::new(literal), Box::new(other)).simplified()
        == Formula::decided(Connective::Xor, literal, other)) by {
        assert(Formula::simplified_binary(Connective::Xor, literal, other) == Formula::decided(
            Connective::Xor,
            literal,
            other,
        ));
    }
    assert(Formula::Binary(Connective::Xor, Box::new(other), Box::new(literal)).simplified()
        == Formula::decided(Connective::Xor, other, literal)) by {
        assert(Formula::simplified_binary(Connective::Xor, other, literal) == Formula::decided(
            Connective::Xor,
            other,
            literal,
        ));
    }
    assert(Formula::Not(Box::new(other)).simplified() == Formula::simplified_not(other));
    if let Formula::Literal(b) = other {
        assert(Formula::simplified_not(other) == Formula::Literal(!b));
    }
}

/// Double negation: `!!e` simplifies to what `e` simplifies to.
pub proof fn lemma_double_negation(operand: Formula)
    ensures
        Formula::Not(Box::new(Formula::Not(Box::new(operand)))).simplified()
            == operand.simplified(),
{
    let once = Formula::Not(Box::new(operand));
    let twice = Formula::Not(Box::new(once));
    lemma_simplified_plainly_negated(operand);
    assert(twice.simplified() == Formula::simplified_not(once));
    assert(once.simplified() == Formula::simplified_not(operand));
}

/// An implication simplifies to what `!a + b` simplifies to.
pub proof fn lemma_implication_desugars(left: Formula, right: Formula)
    ensures
        Formula::Binary(Connective::Implication, Box::new(left), Box::new(right)).simplified()
            == Formula::Binary(
            Connective::Or,
            Box::new(Formula::Not(Box::new(left))),
            Box::new(right),
        ).simplified(),
{
    let negation = Formula::Not(Box::new(left));
    let settled = Formula::simplified_not(left);
    assert(negation.simplified() == settled);
    lemma_caps_vanish(left, right);
    lemma_simplified_regular(negation);
    lemma_simplified_regular(right);
    lemma_simplified_plainly_negated(negation);
    lemma_simplified_plainly_negated(right);
    lemma_stable_is_fixed(settled);
    lemma_stable_is_fixed(right.simplified());
    lemma_caps_vanish(settled, right);
    lemma_caps_vanish(negation, right);
    assert(Formula::Binary(Connective::Implication, Box::new(left), Box::new(right)).simplified()
        == Formula::simplified_binary(Connective::Or, settled, right));
    assert(Formula::Binary(Connective::Or, Box::new(negation), Box::new(right)).simplified()
        == Formula::simplified_binary(Connective::Or, negation, right));
    if right is Literal {
        assert(Formula::simplified_binary(Connective::Or, settled, right) == Formula::decided(
            Connective::Or,
            settled,
            right,
        ));
        assert(Formula::simplified_binary(Connective::Or, negation, right) == Formula::decided(
            Connective::Or,
            negation,
            right,
        ));
    } else if settled is Literal {
        assert(Formula::simplified_binary(Connective::Or, settled, right) == Formula::decided(
            Connective::Or,
            settled,
            right,
        ));
        assert(Formula::simplified_binary(Connective::Or, negation, right) == Formula::decided(
            Connective::Or,
            settled,
            right.simplified(),
        ));
    }
}

/// A biconditional simplifies to what `!(a ^ b)` simplifies to.
pub proof fn lemma_biconditional_desugars(left: Formula, right: Formula)
    ensures
        Formula::Binary(Connective::Biconditional, Box::new(left), Box::new(right)).simplified()
            == Formula::Not(
            Box::new(Formula::Binary(Connective::Xor, Box::new(left), Box::new(right))),
        ).simplified(),
{
    let exclusive = Formula::Binary(Connective::Xor, Box::new(left), Box::new(right));
    let settled = Formula::simplified_binary(Connective::Xor, left, right);
    assert(exclusive.simplified() == settled);
    lemma_caps_vanish(left, right);
    lemma_simplified_regular(exclusive);
    lemma_simplified_plainly_negated(exclusive);
    lemma_stable_is_fixed(settled);
    assert(Formula::Binary(
        Connective::Biconditional,
        Box::new(left),
        Box::new(right),
    ).simplified() == Formula::simplified_not(settled));
    assert(Formula::Not(Box::new(exclusive)).simplified() == Formula::simplified_not(exclusive));
}

impl Formula {
    /// The number of nodes of the tree.
    pub open spec fn size(self) -> nat
        decreases self,
    {
        match self {
            Formula::Literal(_) => 1,
            Formula::Variable(_) => 1,
            Formula::Not(operand) => 1 + operand.size(),
            Formula::Binary(_, left, right) => 1 + left.size() + right.size(),
            Formula::Grouping(inner) => 1 + inner.size(),
        }
    }

    /// The number of implications and biconditionals in the tree.
    pub open spec fn conditionals(self) -> nat
        decreases self,
    {
        match self {
            Formula::Literal(_) => 0,
            Formula::Variable(_) => 0,
            Formula::Not(operand) => operand.conditionals(),
            Formula::Binary(op, left, right) => {
                let here: nat = if op.is_primitive() {
                    0
                } else {
                    1
                };
                here + left.conditionals() + right.conditionals()
            },
            Formula::Grouping(inner) => inner.conditionals(),
        }
    }
}

/// The weight of a tree is its number of nodes, and two more for each
/// implication and biconditional in it.
pub proof fn lemma_weight_counts(formula: Formula)
    ensures
        formula.weight() == formula.size() + 2 * formula.conditionals(),
    decreases formula,
{
    match formula {
        Formula::Literal(_) => {},
        Formula::Variable(_) => {},
        Formula::Not(operand) => {
            lemma_weight_counts(*operand);
        },
        Formula::Binary(_, left, right) => {
            lemma_weight_counts(*left);
            lemma_weight_counts(*right);
        },
        Formula::Grouping(inner) => {
            lemma_weight_counts(*inner);
        },
    }
}

/// The simplified tree has no more nodes than the tree, but for two nodes
/// that each implication and each biconditional of the tree may add: `a -> b`
/// has three nodes and simplifies to `!a + b`, which has four. A tree
/// without implication and biconditional does not grow.
pub proof fn lemma_simplified_size(formula: Formula)
    ensures
        formula.simplified().size() <= formula.size() + 2 * formula.conditionals(),
        formula.simplified().conditionals() == 0,
{
    lemma_simplified_weight(formula);
    lemma_weight_counts(formula);
    lemma_weight_counts(formula.simplified());
    lemma_simplified_regular(formula);
    lemma_regular_without_conditionals(formula.simplified());
}

/// A regular tree holds no implication and no biconditional.
proof fn lemma_regular_without_conditionals(formula: Formula)
    requires
        formula.regular(),
    ensures
        formula.conditionals() == 0,
    decreases formula,
{
    match formula {
        Formula::Literal(_) => {},
        Formula::Variable(_) => {},
        Formula::Not(operand) => {
            lemma_regular_without_conditionals(*operand);
        },
        Formula::Binary(_, left, right) => {
            lemma_regular_without_conditionals(*left);
            lemma_regular_without_conditionals(*right);
        },
        Formula::Grouping(inner) => {
            lemma_regular_without_conditionals(*inner);
        },
    }
}

} // verus!
