use boolalg::eval::simplify;
use boolalg::parser::{BooleanValue, Expr, Op};

fn var(name: &str) -> Expr {
    Expr::Variable(name.to_string())
}

fn lit(value: bool) -> Expr {
    Expr::Value(if value { BooleanValue::True } else { BooleanValue::False })
}

fn not(e: Expr) -> Expr {
    Expr::Op(Op::Not(Box::new(e)))
}

fn or(l: Expr, r: Expr) -> Expr {
    Expr::Op(Op::Or(Box::new(l), Box::new(r)))
}

fn and(l: Expr, r: Expr) -> Expr {
    Expr::Op(Op::And(Box::new(l), Box::new(r)))
}

fn xor(l: Expr, r: Expr) -> Expr {
    Expr::Op(Op::Xor(Box::new(l), Box::new(r)))
}

fn implies(l: Expr, r: Expr) -> Expr {
    Expr::Op(Op::Implication(Box::new(l), Box::new(r)))
}

fn iff(l: Expr, r: Expr) -> Expr {
    Expr::Op(Op::Biconditional(Box::new(l), Box::new(r)))
}

fn group(e: Expr) -> Expr {
    Expr::Group(Box::new(e))
}

#[test]
fn literals_and_variables_stay() {
    assert_eq!(simplify(lit(true)), lit(true));
    assert_eq!(simplify(lit(false)), lit(false));
    assert_eq!(simplify(var("a")), var("a"));
}

#[test]
fn not_of_a_literal_folds() {
    assert_eq!(simplify(not(lit(true))), lit(false));
    assert_eq!(simplify(not(lit(false))), lit(true));
}

#[test]
fn not_folds_a_literal_that_simplification_produces() {
    assert_eq!(simplify(not(group(lit(true)))), lit(false));
    assert_eq!(simplify(not(or(var("a"), lit(true)))), lit(false));
}

#[test]
fn double_negation_of_a_variable() {
    assert_eq!(simplify(not(not(var("a")))), var("a"));
}

#[test]
fn triple_negation_leaves_one() {
    assert_eq!(simplify(not(not(not(var("a"))))), not(var("a")));
}

#[test]
fn negation_of_an_operation_is_kept() {
    assert_eq!(simplify(not(and(var("a"), var("b")))), not(and(var("a"), var("b"))));
}

#[test]
fn or_with_true_is_true() {
    assert_eq!(simplify(or(lit(true), var("a"))), lit(true));
    assert_eq!(simplify(or(var("a"), lit(true))), lit(true));
    assert_eq!(simplify(or(lit(true), lit(false))), lit(true));
    assert_eq!(simplify(or(lit(false), lit(true))), lit(true));
}

#[test]
fn or_with_false_is_the_other_operand() {
    assert_eq!(simplify(or(lit(false), var("a"))), var("a"));
    assert_eq!(simplify(or(var("a"), lit(false))), var("a"));
    assert_eq!(simplify(or(lit(false), lit(false))), lit(false));
    assert_eq!(simplify(or(lit(false), not(not(var("a"))))), var("a"));
}

#[test]
fn and_with_false_is_false() {
    assert_eq!(simplify(and(lit(false), var("a"))), lit(false));
    assert_eq!(simplify(and(var("a"), lit(false))), lit(false));
    assert_eq!(simplify(and(lit(true), lit(false))), lit(false));
    assert_eq!(simplify(and(lit(false), lit(true))), lit(false));
}

#[test]
fn and_with_true_is_the_other_operand() {
    assert_eq!(simplify(and(lit(true), var("a"))), var("a"));
    assert_eq!(simplify(and(var("a"), lit(true))), var("a"));
    assert_eq!(simplify(and(lit(true), lit(true))), lit(true));
    assert_eq!(simplify(and(not(not(var("a"))), lit(true))), var("a"));
}

#[test]
fn or_and_of_two_variables_are_kept() {
    assert_eq!(simplify(or(var("a"), var("b"))), or(var("a"), var("b")));
    assert_eq!(simplify(and(var("a"), var("b"))), and(var("a"), var("b")));
}

#[test]
fn a_literal_that_appears_after_simplifying_decides() {
    assert_eq!(simplify(or(group(lit(true)), var("a"))), lit(true));
    assert_eq!(simplify(or(var("a"), not(lit(false)))), lit(true));
    assert_eq!(simplify(or(group(lit(false)), var("a"))), var("a"));
    assert_eq!(simplify(and(group(lit(false)), var("a"))), lit(false));
    assert_eq!(simplify(and(var("a"), group(lit(true)))), var("a"));
}

#[test]
fn operands_are_simplified_inside_an_operation() {
    assert_eq!(
        simplify(or(not(not(var("a"))), and(var("b"), lit(true)))),
        or(var("a"), var("b"))
    );
}

#[test]
fn xor_of_two_literals_folds() {
    assert_eq!(simplify(xor(lit(true), lit(true))), lit(false));
    assert_eq!(simplify(xor(lit(false), lit(false))), lit(false));
    assert_eq!(simplify(xor(lit(true), lit(false))), lit(true));
    assert_eq!(simplify(xor(lit(false), lit(true))), lit(true));
}

#[test]
fn xor_with_false_is_the_other_operand() {
    assert_eq!(simplify(xor(lit(false), var("a"))), var("a"));
    assert_eq!(simplify(xor(var("a"), lit(false))), var("a"));
}

#[test]
fn xor_with_true_negates_the_other_operand() {
    assert_eq!(simplify(xor(lit(true), var("a"))), not(var("a")));
    assert_eq!(simplify(xor(var("a"), lit(true))), not(var("a")));
    assert_eq!(simplify(xor(group(lit(true)), var("a"))), not(var("a")));
}

#[test]
fn xor_of_a_variable_with_itself_is_kept() {
    assert_eq!(simplify(xor(var("a"), var("a"))), xor(var("a"), var("a")));
}

#[test]
fn xor_with_true_applies_the_negation_rule() {
    assert_eq!(simplify(xor(lit(true), not(var("a")))), var("a"));
    assert_eq!(simplify(xor(not(var("a")), lit(true))), var("a"));
    assert_eq!(simplify(xor(lit(true), group(lit(true)))), lit(false));
    assert_eq!(simplify(xor(lit(true), or(lit(true), var("a")))), lit(false));
    assert_eq!(simplify(xor(lit(true), and(var("a"), var("b")))), not(and(var("a"), var("b"))));
    assert_eq!(simplify(xor(group(lit(true)), not(var("a")))), var("a"));
}

#[test]
fn implication_is_or_of_the_negation() {
    assert_eq!(simplify(implies(var("a"), var("b"))), or(not(var("a")), var("b")));
    assert_eq!(
        simplify(implies(var("a"), var("b"))),
        simplify(or(not(var("a")), var("b")))
    );
    assert_eq!(simplify(implies(lit(true), var("b"))), var("b"));
    assert_eq!(simplify(implies(lit(false), var("b"))), lit(true));
    assert_eq!(simplify(implies(var("a"), lit(true))), lit(true));
    assert_eq!(simplify(implies(var("a"), lit(false))), not(var("a")));
}

#[test]
fn biconditional_is_the_negation_of_xor() {
    assert_eq!(simplify(iff(var("a"), var("b"))), not(xor(var("a"), var("b"))));
    assert_eq!(
        simplify(iff(var("a"), var("b"))),
        simplify(not(xor(var("a"), var("b"))))
    );
    assert_eq!(simplify(iff(lit(true), lit(true))), lit(true));
    assert_eq!(simplify(iff(lit(true), lit(false))), lit(false));
    assert_eq!(simplify(iff(lit(true), var("a"))), var("a"));
    assert_eq!(simplify(iff(lit(false), var("a"))), not(var("a")));
}

#[test]
fn parentheses_are_dropped_around_what_needs_none() {
    assert_eq!(simplify(group(var("a"))), var("a"));
    assert_eq!(simplify(group(lit(true))), lit(true));
    assert_eq!(simplify(group(not(var("a")))), not(var("a")));
    assert_eq!(simplify(group(group(var("a")))), var("a"));
    assert_eq!(simplify(group(or(var("a"), lit(false)))), var("a"));
}

#[test]
fn parentheses_are_kept_around_a_binary_operation() {
    assert_eq!(simplify(group(or(var("a"), var("b")))), group(or(var("a"), var("b"))));
    assert_eq!(
        simplify(group(group(and(var("a"), var("b"))))),
        group(group(and(var("a"), var("b"))))
    );
    assert_eq!(
        simplify(and(group(or(var("a"), var("b"))), var("c"))),
        and(group(or(var("a"), var("b"))), var("c"))
    );
}

#[test]
fn simplifying_twice_changes_nothing() {
    let inputs = vec![
        or(not(not(var("a"))), and(var("b"), lit(true))),
        implies(group(or(var("a"), lit(false))), not(var("b"))),
        not(not(not(group(and(var("x"), var("y")))))),
        and(group(or(var("a"), var("b"))), implies(var("c"), lit(false))),
        xor(lit(true), not(var("a"))),
        xor(lit(true), or(lit(true), var("a"))),
        xor(xor(lit(true), group(lit(false))), xor(lit(true), var("a"))),
        or(var("c"), xor(lit(true), not(var("d")))),
        iff(xor(var("a"), lit(true)), group(xor(lit(true), not(var("b"))))),
        implies(xor(lit(true), xor(lit(true), not(var("y")))), lit(false)),
    ];
    for input in inputs {
        let once = simplify(input);
        let twice = simplify(once.clone());
        assert_eq!(twice, once);
    }
}

#[test]
fn xor_with_true_and_a_negation_is_a_fixed_point() {
    let once = simplify(xor(lit(true), not(var("a"))));
    assert_eq!(once, var("a"));
    assert_eq!(simplify(once.clone()), once);
}

#[test]
fn double_negation_of_any_operand() {
    let operands = vec![
        var("a"),
        lit(true),
        not(var("a")),
        xor(lit(true), not(var("a"))),
        group(and(var("a"), var("b"))),
        xor(lit(true), group(lit(true))),
    ];
    for operand in operands {
        assert_eq!(simplify(not(not(operand.clone()))), simplify(operand));
    }
}

#[test]
fn implication_equals_or_of_the_negation_on_any_operands() {
    let a = xor(lit(true), xor(lit(true), not(var("y"))));
    assert_eq!(simplify(implies(a.clone(), lit(false))), var("y"));
    assert_eq!(simplify(or(not(a.clone()), lit(false))), var("y"));
    let b = and(var("p"), group(xor(var("q"), lit(true))));
    assert_eq!(
        simplify(implies(a.clone(), b.clone())),
        simplify(or(not(a.clone()), b.clone()))
    );
    assert_eq!(simplify(iff(a.clone(), b.clone())), simplify(not(xor(a, b))));
}

#[test]
fn a_result_is_one_literal_or_holds_none() {
    assert_eq!(simplify(xor(lit(true), or(lit(true), var("a")))), lit(false));
    assert_eq!(simplify(and(var("a"), xor(lit(true), group(lit(false))))), var("a"));
    assert_eq!(simplify(or(var("a"), not(group(lit(true))))), var("a"));
}

#[test]
fn clone_gives_an_equal_tree() {
    let tree = implies(group(xor(var("a"), lit(true))), not(iff(var("b"), var("c"))));
    assert_eq!(tree.clone(), tree);
}
