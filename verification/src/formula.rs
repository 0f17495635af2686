//! The mathematical model of a boolean expression tree.
//!
//! Every contract of this crate that speaks of an expression speaks of its
//! `Formula`: the view of the executable tree, with variable names as
//! sequences of characters.

use vstd::prelude::*;

verus! {

/// The five binary operators.
pub enum Connective {
    Or,
    And,
    Xor,
    Implication,
    Biconditional,
}

/// A truth assignment: the set of variable names that are true.
pub type Assignment = Set<Seq<char>>;

/// A boolean expression as a finite tree.
pub enum Formula {
    /// A constant.
    Literal(bool),
    /// An atomic proposition, identified by its name.
    Variable(Seq<char>),
    /// Negation of the operand.
    Not(Box<Formula>),
    /// A binary operator applied to a left and a right operand.
    Binary(Connective, Box<Formula>, Box<Formula>),
    /// An operand that the source text wrapped in parentheses.
    Grouping(Box<Formula>),
}

impl Connective {
    /// The truth table of the operator.
    pub open spec fn apply(self, left: bool, right: bool) -> bool {
        match self {
            Connective::Or => left || right,
            Connective::And => left && right,
            Connective::Xor => left != right,
            Connective::Implication => !left || right,
            Connective::Biconditional => left == right,
        }
    }

    /// Or, And and Xor are rewritten by their own rules; the other two are
    /// expressed through them.
    pub open spec fn is_primitive(self) -> bool {
        self is Or || self is And || self is Xor
    }
}

impl Formula {
    /// The truth value of the formula under an assignment. A grouping has
    /// the value of what it wraps.
    pub open spec fn holds(self, env: Assignment) -> bool
        decreases self,
    {
        match self {
            Formula::Literal(value) => value,
            Formula::Variable(name) => env.contains(name),
            Formula::Not(operand) => !operand.holds(env),
            Formula::Binary(op, left, right) => op.apply(left.holds(env), right.holds(env)),
            Formula::Grouping(inner) => inner.holds(env),
        }
    }

    /// Two formulas are equivalent when no assignment tells them apart.
    pub open spec fn equivalent(self, other: Formula) -> bool {
        forall|env: Assignment| #[trigger] self.holds(env) == other.holds(env)
    }

    /// The names of the variables that occur in the formula.
    pub open spec fn variables(self) -> Set<Seq<char>>
        decreases self,
    {
        match self {
            Formula::Literal(_) => Set::empty(),
            Formula::Variable(name) => set![name],
            Formula::Not(operand) => operand.variables(),
            Formula::Binary(_, left, right) => left.variables().union(right.variables()),
            Formula::Grouping(inner) => inner.variables(),
        }
    }

    /// A size measure under which no rewrite of the simplifier grows a
    /// tree. A node counts one, except an implication or a biconditional,
    /// which counts three: each stands for two primitive operators and so
    /// for two nodes more than it shows.
    pub open spec fn weight(self) -> nat
        decreases self,
    {
        match self {
            Formula::Literal(_) => 1,
            Formula::Variable(_) => 1,
            Formula::Not(operand) => 1 + operand.weight(),
            Formula::Binary(op, left, right) => if op.is_primitive() {
                1 + left.weight() + right.weight()
            } else {
                3 + left.weight() + right.weight()
            },
            Formula::Grouping(inner) => 1 + inner.weight(),
        }
    }
}

} // verus!
