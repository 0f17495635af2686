//! The text of an expression tree.

use vstd::prelude::*;
use vstd::string::StringExecFns;
use crate::formula::Connective;
use crate::formula::Formula;
use crate::parser::BooleanValue;
use crate::parser::Expr;
use crate::parser::Op;

verus! {

impl Connective {
    /// The operator as it is written.
    pub open spec fn symbol(self) -> Seq<char> {
        match self {
            Connective::Or => seq!['+'],
            Connective::And => seq!['*'],
            Connective::Xor => seq!['^'],
            Connective::Implication => seq!['-', '>'],
            Connective::Biconditional => seq!['<', '-', '>'],
        }
    }
}

impl Formula {
    /// The text of the formula: `t` and `f` for the literals, a variable's
    /// name, `!` directly before the operand of a negation, a binary
    /// operator between its operands with one space on either side, and
    /// parentheses around what a grouping holds and nowhere else.
    pub open spec fn text(self) -> Seq<char>
        decreases self,
    {
        match self {
            Formula::Literal(value) => if value {
                seq!['t']
            } else {
                seq!['f']
            },
            Formula::Variable(name) => name,
            Formula::Not(operand) => seq!['!'] + operand.text(),
            Formula::Binary(op, left, right) => left.text() + seq![' '] + op.symbol() + seq![' ']
                + right.text(),
            Formula::Grouping(inner) => seq!['('] + inner.text() + seq![')'],
        }
    }
}

/// The text of `left`, a space, the operator, a space, and the text of
/// `right`.
fn infix(left: Expr, symbol: &str, right: Expr) -> (text: String)
    ensures
        text@ == left@.text() + seq![' '] + symbol@ + seq![' '] + right@.text(),
    decreases left@.weight() + right@.weight() + 1, 0nat,
{
    let mut text = stringify(left);
    let right_text = stringify(right);
    proof {
        reveal_strlit(" ");
        assert(" "@ == seq![' ']);
    }
    text.append(" ");
    text.append(symbol);
    text.append(" ");
    text.append(right_text.as_str());
    text
}

/// Renders an expression as text. Parentheses are written around groupings
/// only: the tree says where they stand.
pub fn stringify(expr: Expr) -> (text: String)
    ensures
        text@ == expr@.text(),
    decreases expr@.weight(), 1nat,
{
    match expr {
        Expr::Value(BooleanValue::True) => {
            proof {
                reveal_strlit("t");
                assert("t"@ == seq!['t']);
            }
            String::from_str("t")
        },
        Expr::Value(BooleanValue::False) => {
            proof {
                reveal_strlit("f");
                assert("f"@ == seq!['f']);
            }
            String::from_str("f")
        },
        Expr::Variable(name) => name,
        Expr::Op(Op::Not(operand)) => {
            proof {
                reveal_strlit("!");
                assert("!"@ == seq!['!']);
            }
            let mut text = String::from_str("!");
            let inner = stringify(*operand);
            text.append(inner.as_str());
            text
        },
        Expr::Op(Op::Or(left, right)) => {
            proof {
                reveal_strlit("+");
                assert("+"@ == seq!['+']);
            }
            infix(*left, "+", *right)
        },
        Expr::Op(Op::And(left, right)) => {
            proof {
                reveal_strlit("*");
                assert("*"@ == seq!['*']);
            }
            infix(*left, "*", *right)
        },
        Expr::Op(Op::Xor(left, right)) => {
            proof {
                reveal_strlit("^");
                assert("^"@ == seq!['^']);
            }
            infix(*left, "^", *right)
        },
        Expr::Op(Op::Implication(left, right)) => {
            proof {
                reveal_strlit("->");
                assert("->"@ == seq!['-', '>']);
            }
            infix(*left, "->", *right)
        },
        Expr::Op(Op::Biconditional(left, right)) => {
            proof {
                reveal_strlit("<->");
                assert("<->"@ == seq!['<', '-', '>']);
            }
            infix(*left, "<->", *right)
        },
        Expr::Group(group) => {
            proof {
                reveal_strlit("(");
                reveal_strlit(")");
                assert("("@ == seq!['(']);
                assert(")"@ == seq![')']);
            }
            let mut text = String::from_str("(");
            let inner = stringify(*group);
            text.append(inner.as_str());
            text.append(")");
            text
        },
    }
}

} // verus!
