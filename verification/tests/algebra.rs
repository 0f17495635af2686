use boolalg::{Boolean, Expression, Operation};

fn op(operation: Operation) -> Expression {
    Expression::Operation(Box::new(operation))
}

fn var(name: char) -> Expression {
    Expression::Variable(name)
}

fn comp(name: char) -> Expression {
    Expression::Complement(name)
}

fn zero() -> Expression {
    Expression::Boolean(Boolean::Zero)
}

fn one() -> Expression {
    Expression::Boolean(Boolean::One)
}

#[test]
fn what_is_no_operation_evaluates_to_itself() {
    assert_eq!(var('a').evaluate(), var('a'));
    assert_eq!(comp('a').evaluate(), comp('a'));
    assert_eq!(zero().evaluate(), zero());
    assert_eq!(one().evaluate(), one());
}

#[test]
fn or_with_a_constant() {
    assert_eq!(op(Operation::Or(zero(), var('a'))).evaluate(), var('a'));
    assert_eq!(op(Operation::Or(var('a'), zero())).evaluate(), var('a'));
    assert_eq!(op(Operation::Or(one(), var('a'))).evaluate(), one());
    assert_eq!(op(Operation::Or(comp('a'), one())).evaluate(), one());
    assert_eq!(op(Operation::Or(zero(), zero())).evaluate(), zero());
    assert_eq!(op(Operation::Or(zero(), one())).evaluate(), one());
    assert_eq!(op(Operation::Or(one(), zero())).evaluate(), one());
}

#[test]
fn and_with_a_constant() {
    assert_eq!(op(Operation::And(one(), var('a'))).evaluate(), var('a'));
    assert_eq!(op(Operation::And(var('a'), one())).evaluate(), var('a'));
    assert_eq!(op(Operation::And(zero(), var('a'))).evaluate(), zero());
    assert_eq!(op(Operation::And(comp('a'), zero())).evaluate(), zero());
    assert_eq!(op(Operation::And(one(), one())).evaluate(), one());
    assert_eq!(op(Operation::And(one(), zero())).evaluate(), zero());
    assert_eq!(op(Operation::And(zero(), one())).evaluate(), zero());
}

#[test]
fn a_variable_with_itself() {
    assert_eq!(op(Operation::Or(var('a'), var('a'))).evaluate(), var('a'));
    assert_eq!(op(Operation::And(var('a'), var('a'))).evaluate(), var('a'));
    assert_eq!(op(Operation::Or(comp('a'), comp('a'))).evaluate(), comp('a'));
    assert_eq!(op(Operation::And(comp('a'), comp('a'))).evaluate(), comp('a'));
}

#[test]
fn a_variable_with_its_complement() {
    assert_eq!(op(Operation::Or(var('a'), comp('a'))).evaluate(), one());
    assert_eq!(op(Operation::Or(comp('a'), var('a'))).evaluate(), one());
    assert_eq!(op(Operation::And(var('a'), comp('a'))).evaluate(), zero());
    assert_eq!(op(Operation::And(comp('a'), var('a'))).evaluate(), zero());
}

#[test]
fn two_different_variables_stay_an_operation() {
    assert_eq!(
        op(Operation::Or(var('a'), var('b'))).evaluate(),
        op(Operation::Or(var('a'), var('b')))
    );
    assert_eq!(
        op(Operation::And(var('a'), var('b'))).evaluate(),
        op(Operation::And(var('a'), var('b')))
    );
}

#[test]
fn two_different_complements_give_the_operation_on_the_variables() {
    assert_eq!(
        op(Operation::Or(comp('a'), comp('b'))).evaluate(),
        op(Operation::Or(var('a'), var('b')))
    );
    assert_eq!(
        op(Operation::And(comp('a'), comp('b'))).evaluate(),
        op(Operation::And(var('a'), var('b')))
    );
}

#[test]
fn not_of_each_operand() {
    assert_eq!(op(Operation::Not(zero())).evaluate(), one());
    assert_eq!(op(Operation::Not(one())).evaluate(), zero());
    assert_eq!(op(Operation::Not(var('a'))).evaluate(), comp('a'));
    assert_eq!(
        op(Operation::Not(op(Operation::Or(var('a'), var('b'))))).evaluate(),
        op(Operation::Not(op(Operation::Or(var('a'), var('b')))))
    );
}

#[test]
fn operands_are_evaluated_first() {
    let inner = op(Operation::And(var('a'), one()));
    assert_eq!(op(Operation::Or(inner, op(Operation::Not(var('a'))))).evaluate(), one());
    assert_eq!(
        op(Operation::And(op(Operation::Or(var('a'), var('b'))), one())).evaluate(),
        op(Operation::Or(var('a'), var('b')))
    );
    assert_eq!(
        op(Operation::Not(op(Operation::Not(op(Operation::And(var('a'), var('b'))))))).evaluate(),
        op(Operation::Not(op(Operation::Not(op(Operation::And(var('a'), var('b')))))))
    );
}

#[test]
fn clone_gives_an_equal_expression() {
    let tree = op(Operation::Or(op(Operation::Not(var('a'))), comp('b')));
    assert_eq!(tree.clone(), tree);
    let operation = Operation::And(var('a'), zero());
    assert_eq!(operation.clone(), operation);
}
