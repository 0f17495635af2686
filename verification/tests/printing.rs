use boolalg::eval::simplify;
use boolalg::lexer::Lexer;
use boolalg::parser::{BooleanValue, Expr, Op, Parser};

fn print(expr: Expr) -> String {
    boolalg::stringify::stringify(expr)
}

fn parse(source: &str) -> Expr {
    Parser::new(Lexer::new(source).lex().unwrap()).parse().unwrap()
}

fn var(name: &str) -> Expr {
    Expr::Variable(name.to_string())
}

fn lit(value: bool) -> Expr {
    Expr::Value(if value { BooleanValue::True } else { BooleanValue::False })
}

fn not(e: Expr) -> Expr {
    Expr::Op(Op::Not(Box::new(e)))
}

fn and(l: Expr, r: Expr) -> Expr {
    Expr::Op(Op::And(Box::new(l), Box::new(r)))
}

fn or(l: Expr, r: Expr) -> Expr {
    Expr::Op(Op::Or(Box::new(l), Box::new(r)))
}

#[test]
fn literals_and_variables() {
    assert_eq!(print(lit(true)), "t");
    assert_eq!(print(lit(false)), "f");
    assert_eq!(print(var("abc_1")), "abc_1");
}

#[test]
fn each_operator() {
    let a = || Box::new(var("a"));
    let b = || Box::new(var("b"));
    assert_eq!(print(Expr::Op(Op::Not(a()))), "!a");
    assert_eq!(print(Expr::Op(Op::Or(a(), b()))), "a + b");
    assert_eq!(print(Expr::Op(Op::And(a(), b()))), "a * b");
    assert_eq!(print(Expr::Op(Op::Xor(a(), b()))), "a ^ b");
    assert_eq!(print(Expr::Op(Op::Implication(a(), b()))), "a -> b");
    assert_eq!(print(Expr::Op(Op::Biconditional(a(), b()))), "a <-> b");
}

#[test]
fn parentheses_stand_around_groups_only() {
    assert_eq!(print(Expr::Group(Box::new(var("a")))), "(a)");
    assert_eq!(print(and(Expr::Group(Box::new(or(var("a"), var("b")))), var("c"))), "(a + b) * c");
    assert_eq!(print(and(or(var("a"), var("b")), var("c"))), "a + b * c");
    assert_eq!(print(not(and(var("a"), var("b")))), "!a * b");
    assert_eq!(print(not(Expr::Group(Box::new(and(var("a"), var("b")))))), "!(a * b)");
    assert_eq!(print(not(not(var("a")))), "!!a");
}

#[test]
fn nested_operations() {
    assert_eq!(print(parse("a+b*c -> !d <-> (e ^ f)")), "a + b * c -> !d <-> (e ^ f)");
}

#[test]
fn text_of_a_parsed_expression_parses_to_the_same_tree() {
    let sources = [
        "a",
        "t",
        "f",
        "!a",
        "!!a",
        "!!!a",
        "a + b * c",
        "(a + b) * c",
        "a -> b <-> c",
        "a * b ^ c + d -> e",
        "!(a + !b) ^ ((c))",
        "!var * t ^ b + c ^ (x ^ y -> var2 <-> _3) ^ f * t",
        "true + false * 1 ^ 0",
        "a\u{e9} * _x1",
    ];
    for source in sources {
        let tree = parse(source);
        let text = print(tree.clone());
        assert_eq!(parse(&text), tree, "{}", source);
    }
}

#[test]
fn parse_simplify_print() {
    assert_eq!(print(simplify(parse("a + f"))), "a");
    assert_eq!(print(simplify(parse("a -> b"))), "!a + b");
    assert_eq!(print(simplify(parse("a <-> b"))), "!a ^ b");
    assert_eq!(print(simplify(parse("(a + b) * t"))), "(a + b)");
    assert_eq!(print(simplify(parse("(a) * (t)"))), "a");
    assert_eq!(print(simplify(parse("(y*z + x*!z)*!(x*!y+z)"))), "(y * z + x * !z) * !(x * !y + z)");
    assert_eq!(
        print(simplify(parse("!var * t ^ b + c ^ (x ^ y -> var2 <-> _3) ^ f * t"))),
        "!var ^ b + c ^ !!x ^ y + var2 ^ _3"
    );
}

#[test]
fn implication_of_two_variables_simplifies_as_or_of_the_negation() {
    assert_eq!(simplify(parse("a -> b")), simplify(or(not(var("a")), var("b"))));
}
