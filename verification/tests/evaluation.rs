use asciimath::functions::Args;
use asciimath::{eval, Error, Scope, Value, Variable};

type Cf = fn(Args) -> Result<Value, Error>;

fn empty_scope() -> Scope<Cf> {
    Scope::new()
}

fn scope_of(vars: &[(&str, f64)]) -> Scope<Cf> {
    let mut s: Scope<Cf> = Scope::new();
    for (name, value) in vars {
        s.set_var(name, Variable::Number(value.to_bits()));
    }
    s
}

fn num(x: f64) -> Value {
    Value::Num(x.to_bits())
}

fn as_f64(v: Value) -> f64 {
    match v {
        Value::Num(b) => f64::from_bits(b),
        Value::Bool(_) => panic!("expected a number"),
    }
}

#[test]
fn single_item() {
    assert_eq!(Ok(num(2.0)), eval("2", &empty_scope()));
}

#[test]
fn order_of_operations() {
    assert_eq!(
        "3.000122",
        format!(
            "{:.6}",
            as_f64(eval("3 + 4 * 2 / ( 1 - 5 ) ^ 2 ^ 3", &empty_scope()).unwrap())
        )
    );
}

#[test]
fn comparison_operators() {
    let scope = scope_of(&[("x", -1.0)]);

    assert_eq!(Ok(Value::Bool(false)), eval("x > x", &scope));
    assert_eq!(Ok(Value::Bool(true)), eval("x >= x", &scope));
    assert_eq!(Ok(Value::Bool(true)), eval("x <= x", &scope));
    assert_eq!(Ok(Value::Bool(false)), eval("x < x", &scope));
    assert_eq!(Ok(Value::Bool(false)), eval("x != x", &scope));
    assert_eq!(Ok(Value::Bool(false)), eval("!(x == x)", &scope));
    assert_eq!(Ok(Value::Bool(false)), eval("!((x + 1) == 0)", &scope));
    assert_eq!(eval("x != x", &scope), eval("!(x == x)", &scope));
}

#[test]
fn simple_vars() {
    let scope = scope_of(&[("x", 16.0)]);

    assert_eq!(Ok(num(240.0)), eval("x^2-16", &scope));

    assert_eq!(
        Err(Error::UnknownVariable("y".to_string())),
        eval("y^2-16", &scope)
    );
}

#[test]
fn user_defined_functions() {
    let mut scope: Scope<Cf> = Scope::new();
    let my_sum_func: Cf = |args| {
        let mut total = 0.0f64;
        for bits in args.nums(1)? {
            total += f64::from_bits(bits);
        }
        Ok(Value::Num(total.to_bits()))
    };

    scope.set_var("sum", Variable::Function(my_sum_func));
    assert_eq!(Ok(num(6.0)), eval("sum(1,2,3)", &scope));
}

#[test]
fn too_many_brackets() {
    let scope = scope_of(&[("x", 16.0)]);
    assert_eq!(Ok(num(240.0)), eval("((((((x^2))-((16))))))", &scope));
}

#[test]
fn func_max() {
    assert_eq!(Ok(num(2.0)), eval("max(1,2)", &empty_scope()));
    assert_eq!(Ok(num(1.0)), eval("max(1)", &empty_scope()));
    assert_eq!(
        Ok(num(25.75)),
        eval("max(1,2,3,25.75,10.5,25.7)", &empty_scope())
    );
}

#[test]
fn func_min() {
    assert_eq!(Ok(num(1.0)), eval("min(1,2)", &empty_scope()));
    assert_eq!(Ok(num(1.0)), eval("min(1)", &empty_scope()));
    assert_eq!(
        Ok(num(1.0)),
        eval("min(1,2,3,25.75,10.5,25.7)", &empty_scope())
    );
}

#[test]
fn func_trig() {
    assert_eq!(Ok(num(1.0)), eval("sin(90)", &empty_scope()));
    assert_eq!(Ok(num(0.5)), eval("cos(0)/2", &empty_scope()));
    assert_eq!(
        "0.5",
        format!("{:.1}", as_f64(eval("tan(45) / 2", &empty_scope()).unwrap()))
    );
}

#[test]
fn func_log() {
    assert_eq!(Ok(num(2.0)), eval("log_10(100)", &empty_scope()));
    assert_eq!(Ok(num(2.0)), eval("log(2, 4)", &empty_scope()));
    assert_eq!(Ok(num(1.0)), eval("ln(E)", &empty_scope()));
}

#[test]
fn func_floor_ceil() {
    assert_eq!(Ok(num(2.0)), eval("floor(2.5)", &empty_scope()));
    assert_eq!(Ok(num(2.0)), eval("ceil(1.51)", &empty_scope()));
}

#[test]
fn func_nested() {
    assert_eq!(Ok(num(1.0)), eval("abs(abs(-1))", &empty_scope()));
}

#[test]
fn neg_numbers() {
    let scope = scope_of(&[("x", 16.0)]);
    assert_eq!(Ok(num(-1.0)), eval("-1", &scope));
    assert_eq!(Ok(num(15.0)), eval("x+-1", &scope));
    assert_eq!(Ok(num(17.0)), eval("x--1", &scope));
    assert_eq!(Ok(num(17.0)), eval("x-(-1)", &scope));
    assert_eq!(Ok(num(-16.0)), eval("x*(-1)", &scope));
}

#[test]
fn neg_fn() {
    let scope = scope_of(&[("x", -5.0)]);
    assert_eq!(Ok(num(5.0)), eval("abs(x)", &scope));
    assert_eq!(Ok(num(4.0)), eval("abs(x + 1)", &scope));
}

#[test]
fn func_not_enough_args() {
    assert_eq!(
        Err(Error::NotEnoughFunctionParams("max".to_string())),
        eval("max()", &empty_scope())
    );
}

#[test]
fn paren_mismatch() {
    assert!(eval("x+())", &empty_scope()).is_err());
}

#[test]
fn constants() {
    assert_eq!(
        Ok(num(std::f64::consts::PI * 2.0)),
        eval("2PI", &empty_scope())
    );
}

#[test]
fn division_by_zero() {
    assert_eq!(Ok(num(f64::INFINITY)), eval("1/0", &empty_scope()));
}
