use asciimath::functions::{Args, Error as FunctionError};
use asciimath::tokens::Operator;
use asciimath::{compile, eval, Error, Scope, Value, Variable};

type Cf = fn(Args) -> Result<Value, Error>;

fn empty_scope() -> Scope<Cf> {
    Scope::new()
}

fn scope_of(vars: &[(&str, f64)]) -> Scope<Cf> {
    let mut s: Scope<Cf> = Scope::new();
    for (name, value) in vars {
        s.set_var(name, Variable::Number(value.to_bits()));
    }
    s
}

fn num(x: f64) -> Value {
    Value::Num(x.to_bits())
}

#[test]
fn literal_round_trip() {
    assert_eq!(Ok(num(25.75)), eval("25.75", &empty_scope()));
    assert_eq!(Ok(num(0.5)), eval(".5", &empty_scope()));
    assert_eq!(Ok(num(1234.0)), eval("1234", &empty_scope()));
}

#[test]
fn invalid_literal() {
    assert_eq!(
        Err(Error::InvalidToken("2..5".to_string())),
        eval("2..5", &empty_scope())
    );
    assert_eq!(
        Err(Error::InvalidToken(".".to_string())),
        eval(".", &empty_scope())
    );
}

#[test]
fn empty_expression() {
    assert_eq!(Err(Error::EmptyExpression), eval("", &empty_scope()));
    assert_eq!(Err(Error::EmptyExpression), eval("   ", &empty_scope()));
}

#[test]
fn missing_operands() {
    assert_eq!(
        Err(Error::MissingOperands(Operator::Multiply)),
        eval("*2", &empty_scope())
    );
}

#[test]
fn unbalanced_parenthesis_is_rejected() {
    assert_eq!(Err(Error::EmptyExpression), eval("(x+1", &scope_of(&[("x", 1.0)])));
    assert_eq!(Err(Error::EmptyExpression), eval("max(1", &empty_scope()));
}

#[test]
fn juxtaposed_expressions_are_rejected() {
    assert_eq!(Err(Error::EmptyExpression), eval("1,2", &empty_scope()));
    assert_eq!(Err(Error::EmptyExpression), eval("max((1),2)3", &empty_scope()));
}

#[test]
fn whitespace_is_stripped_before_scanning() {
    assert_eq!(Ok(num(12.0)), eval("1 2", &empty_scope()));
    assert_eq!(eval("2 x", &scope_of(&[("x", 3.0)])), Ok(num(6.0)));
    assert_eq!(
        eval("3 + 4 * 2", &empty_scope()),
        eval("3+4*2", &empty_scope())
    );
}

#[test]
fn function_syntax_error() {
    assert_eq!(
        Err(Error::FunctionSyntaxError("max".to_string())),
        eval("max(,2)", &empty_scope())
    );
}

#[test]
fn invalid_operands() {
    assert_eq!(
        Err(Error::InvalidOperands(Operator::Add)),
        eval("1+(1==1)", &empty_scope())
    );
}

#[test]
fn comma_alone_cannot_evaluate() {
    assert_eq!(
        Err(Error::CannotEvaluateToken("Comma".to_string())),
        eval("(,)", &empty_scope())
    );
}

#[test]
fn builtin_needs_a_number() {
    assert_eq!(
        Err(Error::Function(FunctionError::NotEnoughParams)),
        eval("sqrt(1==1)", &empty_scope())
    );
}

#[test]
fn arithmetic_exact_values() {
    assert_eq!(Ok(num(7.0)), eval("3+4", &empty_scope()));
    assert_eq!(Ok(num(12.0)), eval("16-4", &empty_scope()));
    assert_eq!(Ok(num(0.375)), eval("3/8", &empty_scope()));
    assert_eq!(Ok(num(65536.0)), eval("(1-5)^2^3", &empty_scope()));
    assert_eq!(Ok(num(4.0)), eval("sqrt(16)", &empty_scope()));
    assert_eq!(Ok(num(3.0)), eval("cbrt(27)", &empty_scope()));
}

#[test]
fn compile_once_evaluate_twice() {
    let scope_one = scope_of(&[("x", 8.0), ("y", 12.25)]);
    let scope_two = scope_of(&[("x", 3.0), ("y", 0.0)]);
    let expression = compile("(x + y * 4) ^ 3", &scope_one).unwrap();

    assert_eq!(Ok(num(185193.0)), expression.eval_with(&scope_one));
    assert_eq!(Ok(num(27.0)), expression.eval_with(&scope_two));
    assert_eq!(Ok(num(185193.0)), expression.eval());
}

#[test]
fn compiled_tree_resolves_against_the_evaluation_scope() {
    let double: Cf = |args| {
        let ns = args.nums(1)?;
        Ok(Value::Num((2.0 * f64::from_bits(ns[0])).to_bits()))
    };
    let mut scope_with_fn: Scope<Cf> = Scope::new();
    scope_with_fn.set_var("f", Variable::Function(double));
    let expression = compile("f(21)", &scope_with_fn).unwrap();

    assert_eq!(Ok(num(42.0)), expression.eval_with(&scope_with_fn));
    assert_eq!(
        Err(Error::UnknownFunction("f".to_string())),
        expression.eval_with(&empty_scope())
    );
}

#[test]
fn shadowing_keeps_the_last_binding() {
    let mut scope: Scope<Cf> = Scope::with_capacity(2);
    scope.set_var("x", Variable::Number(1.0f64.to_bits()));
    scope.set_var("x", Variable::Number(5.0f64.to_bits()));
    assert_eq!(Ok(num(5.0)), eval("x", &scope));
}

#[test]
fn nan_compares_unequal_to_itself() {
    let scope = scope_of(&[("x", f64::NAN)]);
    assert_eq!(Ok(Value::Bool(true)), eval("x != x", &scope));
    assert_eq!(Ok(Value::Bool(true)), eval("!(x == x)", &scope));
    assert_eq!(eval("x != x", &scope), eval("!(x == x)", &scope));
}

#[test]
fn the_two_zeros_are_equal() {
    assert_eq!(Ok(Value::Bool(true)), eval("0-0 == 0", &empty_scope()));
    assert_eq!(Ok(Value::Bool(false)), eval("(0-1)*0 < 0", &empty_scope()));
}

#[test]
fn boolean_negation() {
    assert_eq!(Ok(Value::Bool(true)), eval("!0", &empty_scope()));
    assert_eq!(Ok(Value::Bool(false)), eval("!2", &empty_scope()));
    assert_eq!(Ok(Value::Bool(true)), eval("!(1 > 2)", &empty_scope()));
}

#[test]
fn parenthesis_after_close_multiplies() {
    assert_eq!(Ok(num(6.0)), eval("(2)(3)", &empty_scope()));
    assert_eq!(Ok(num(6.0)), eval("2(3)", &empty_scope()));
    assert_eq!(Ok(num(12.0)), eval("(x+3)2", &scope_of(&[("x", 3.0)])));
    assert_eq!(Ok(num(8.0)), eval("(1+1)abs(0-4)", &empty_scope()));
}

#[test]
fn infinity_constant() {
    assert_eq!(Ok(num(f64::INFINITY)), eval("INFINITY", &empty_scope()));
    assert_eq!(Ok(num(f64::NEG_INFINITY)), eval("0-INFINITY", &empty_scope()));
    assert_eq!(Ok(num(std::f64::consts::E)), eval("E", &empty_scope()));
}
