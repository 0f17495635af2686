//! Boolean algebra on expression trees.
//!
//! The modules below lex, parse, simplify and print expressions over named
//! variables. This file holds a smaller algebra of its own, over
//! single-character variables and their complements, with And, Or and Not
//! evaluated bottom-up.

use vstd::prelude::*;

pub mod chars;
pub mod eval;
pub mod formula;
pub mod grammar;
pub mod identities;
pub mod lexer;
pub mod normal_form;
pub mod parser;
pub mod round_trip;
pub mod stringify;

verus! {

/// An expression over single-character variables.
#[derive(Debug, PartialEq)]
pub enum Expression {
    /// A variable.
    Variable(char),
    /// The complement of a variable.
    Complement(char),
    /// A constant.
    Boolean(Boolean),
    /// An operation that has not been evaluated, or that evaluation left in
    /// place.
    Operation(Box<Operation>),
}

/// The two constants.
#[derive(Debug, Copy, Clone, PartialEq)]
pub enum Boolean {
    Zero,
    One,
}

/// An operation on expressions.
#[derive(Debug, PartialEq)]
pub enum Operation {
    And(Expression, Expression),
    Or(Expression, Expression),
    Not(Expression),
}

impl Clone for Expression {
    fn clone(&self) -> (copy: Expression)
        ensures
            copy == *self,
        decreases self,
    {
        match self {
            Expression::Variable(name) => Expression::Variable(*name),
            Expression::Complement(name) => Expression::Complement(*name),
            Expression::Boolean(Boolean::Zero) => Expression::Boolean(Boolean::Zero),
            Expression::Boolean(Boolean::One) => Expression::Boolean(Boolean::One),
            Expression::Operation(op) => Expression::Operation(Box::new((&**op).clone())),
        }
    }
}

impl Clone for Operation {
    fn clone(&self) -> (copy: Operation)
        ensures
            copy == *self,
        decreases self,
    {
        match self {
            Operation::And(a, b) => Operation::And(a.clone(), b.clone()),
            Operation::Or(a, b) => Operation::Or(a.clone(), b.clone()),
            Operation::Not(a) => Operation::Not(a.clone()),
        }
    }
}

/// The pairs of evaluated operands that And and Or can be applied to: one of
/// the two is a constant, or both are variables, or both are complements, or
/// one is a variable and the other the complement of the same variable.
pub open spec fn pair_reduces(a: Expression, b: Expression) -> bool {
    ||| a is Boolean
    ||| b is Boolean
    ||| a is Variable && b is Variable
    ||| a is Complement && b is Complement
    ||| a is Variable && b is Complement && a->Variable_0 == b->Complement_0
    ||| a is Complement && b is Variable && a->Complement_0 == b->Variable_0
}

/// The Or of two evaluated operands. Zero on one side gives the other side,
/// One on either side gives One, a variable or complement with itself gives
/// itself, a variable with its complement gives One, and two different
/// variables, or two different complements, give the Or of the two
/// variables.
pub open spec fn or_value(a: Expression, b: Expression) -> Expression
    recommends
        pair_reduces(a, b),
{
    if a == Expression::Boolean(Boolean::Zero) {
        b
    } else if b == Expression::Boolean(Boolean::Zero) {
        a
    } else if a is Boolean || b is Boolean {
        Expression::Boolean(Boolean::One)
    } else {
        match (a, b) {
            (Expression::Variable(x), Expression::Variable(y)) => if x == y {
                a
            } else {
                Expression::Operation(
                    Box::new(Operation::Or(Expression::Variable(x), Expression::Variable(y))),
                )
            },
            (Expression::Complement(x), Expression::Complement(y)) => if x == y {
                a
            } else {
                Expression::Operation(
                    Box::new(Operation::Or(Expression::Variable(x), Expression::Variable(y))),
                )
            },
            _ => Expression::Boolean(Boolean::One),
        }
    }
}

/// The And of two evaluated operands. Zero on either side gives Zero, One on
/// one side gives the other side, a variable or complement with itself
/// gives itself, a variable with its complement gives Zero, and two
/// different variables, or two different complements, give the And of the
/// two variables.
pub open spec fn and_value(a: Expression, b: Expression) -> Expression
    recommends
        pair_reduces(a, b),
{
    if a == Expression::Boolean(Boolean::Zero) || b == Expression::Boolean(Boolean::Zero) {
        Expression::Boolean(Boolean::Zero)
    } else if a is Boolean {
        b
    } else if b is Boolean {
        a
    } else {
        match (a, b) {
            (Expression::Variable(x), Expression::Variable(y)) => if x == y {
                a
            } else {
                Expression::Operation(
                    Box::new(Operation::And(Expression::Variable(x), Expression::Variable(y))),
                )
            },
            (Expression::Complement(x), Expression::Complement(y)) => if x == y {
                a
            } else {
                Expression::Operation(
                    Box::new(Operation::And(Expression::Variable(x), Expression::Variable(y))),
                )
            },
            _ => Expression::Boolean(Boolean::Zero),
        }
    }
}

/// Whether Not can be applied to an evaluated operand: the operand is no
/// complement.
pub open spec fn not_reduces(a: Expression) -> bool {
    !(a is Complement)
}

/// The Not of an evaluated operand: the other constant, the complement of a
/// variable, or the Not of an operation left in place.
pub open spec fn not_value(a: Expression) -> Expression
    recommends
        not_reduces(a),
{
    match a {
        Expression::Boolean(Boolean::Zero) => Expression::Boolean(Boolean::One),
        Expression::Boolean(Boolean::One) => Expression::Boolean(Boolean::Zero),
        Expression::Variable(x) => Expression::Complement(x),
        _ => Expression::Operation(Box::new(Operation::Not(a))),
    }
}

impl Expression {
    /// Whether the expression can be evaluated: every operation in it, taken
    /// bottom-up, meets operands that it can be applied to.
    pub open spec fn reduces(self) -> bool
        decreases self,
    {
        match self {
            Expression::Operation(op) => match *op {
                Operation::And(a, b) => a.reduces() && b.reduces() && pair_reduces(
                    a.reduced(),
                    b.reduced(),
                ),
                Operation::Or(a, b) => a.reduces() && b.reduces() && pair_reduces(
                    a.reduced(),
                    b.reduced(),
                ),
                Operation::Not(a) => a.reduces() && not_reduces(a.reduced()),
            },
            _ => true,
        }
    }

    /// What the expression evaluates to: itself if it is no operation, else
    /// the operation applied to its evaluated operands.
    pub open spec fn reduced(self) -> Expression
        decreases self,
    {
        match self {
            Expression::Operation(op) => match *op {
                Operation::And(a, b) => and_value(a.reduced(), b.reduced()),
                Operation::Or(a, b) => or_value(a.reduced(), b.reduced()),
                Operation::Not(a) => not_value(a.reduced()),
            },
            _ => self,
        }
    }

    /// Evaluates the expression bottom-up. A variable, a complement or a
    /// constant is returned as it is.
    pub fn evaluate(self) -> (result: Expression)
        requires
            self.reduces(),
        ensures
            result == self.reduced(),
        decreases self,
    {
        match self {
            Expression::Variable(_) => self,
            Expression::Complement(_) => self,
            Expression::Boolean(_) => self,
            Expression::Operation(op) => (*op).evaluate(),
        }
    }
}

impl Operation {
    /// Whether the operation can be evaluated: its operands can, and what
    /// they evaluate to is what the operation can be applied to.
    pub open spec fn reduces(self) -> bool {
        Expression::Operation(Box::new(self)).reduces()
    }

    /// What the operation evaluates to: the operation applied to its
    /// evaluated operands.
    pub open spec fn reduced(self) -> Expression {
        Expression::Operation(Box::new(self)).reduced()
    }

    /// Evaluates the operands, then applies the operation to them.
    fn evaluate(self) -> (result: Expression)
        requires
            self.reduces(),
        ensures
            result == self.reduced(),
        decreases self,
    {
        match self {
            Operation::And(a, b) => logical_and(a.evaluate(), b.evaluate()),
            Operation::Or(a, b) => logical_or(a.evaluate(), b.evaluate()),
            Operation::Not(a) => logical_not(a.evaluate()),
        }
    }
}

/// The Or of two evaluated operands.
fn logical_or(op_a: Expression, op_b: Expression) -> (result: Expression)
    requires
        pair_reduces(op_a, op_b),
    ensures
        result == or_value(op_a, op_b),
{
    match (op_a, op_b) {
        (Expression::Boolean(Boolean::Zero), a) => a,
        (a, Expression::Boolean(Boolean::Zero)) => a,
        (Expression::Boolean(Boolean::One), _) => Expression::Boolean(Boolean::One),
        (_, Expression::Boolean(Boolean::One)) => Expression::Boolean(Boolean::One),
        (Expression::Variable(a), Expression::Variable(b)) => {
            if a == b {
                Expression::Variable(a)
            } else {
                Expression::Operation(
                    Box::new(Operation::Or(Expression::Variable(a), Expression::Variable(b))),
                )
            }
        },
        (Expression::Complement(a), Expression::Complement(b)) => {
            if a == b {
                Expression::Complement(a)
            } else {
                Expression::Operation(
                    Box::new(Operation::Or(Expression::Variable(a), Expression::Variable(b))),
                )
            }
        },
        _ => Expression::Boolean(Boolean::One),
    }
}

/// The And of two evaluated operands.
fn logical_and(op_a: Expression, op_b: Expression) -> (result: Expression)
    requires
        pair_reduces(op_a, op_b),
    ensures
        result == and_value(op_a, op_b),
{
    match (op_a, op_b) {
        (Expression::Boolean(Boolean::Zero), _) => Expression::Boolean(Boolean::Zero),
        (_, Expression::Boolean(Boolean::Zero)) => Expression::Boolean(Boolean::Zero),
        (Expression::Boolean(Boolean::One), a) => a,
        (a, Expression::Boolean(Boolean::One)) => a,
        (Expression::Variable(a), Expression::Variable(b)) => {
            if a == b {
                Expression::Variable(a)
            } else {
                Expression::Operation(
                    Box::new(Operation::And(Expression::Variable(a), Expression::Variable(b))),
                )
            }
        },
        (Expression::Complement(a), Expression::Complement(b)) => {
            if a == b {
                Expression::Complement(a)
            } else {
                Expression::Operation(
                    Box::new(Operation::And(Expression::Variable(a), Expression::Variable(b))),
                )
            }
        },
        _ => Expression::Boolean(Boolean::Zero),
    }
}

/// The Not of an evaluated operand.
fn logical_not(op_a: Expression) -> (result: Expression)
    requires
        not_reduces(op_a),
    ensures
        result == not_value(op_a),
{
    match op_a {
        Expression::Boolean(Boolean::Zero) => Expression::Boolean(Boolean::One),
        Expression::Boolean(Boolean::One) => Expression::Boolean(Boolean::Zero),
        Expression::Variable(a) => Expression::Complement(a),
        other => Expression::Operation(Box::new(Operation::Not(other))),
    }
}

} // verus!
