use asciimath::functions::Args;
use asciimath::tokens::{Function, Number, Operator, Token};
use asciimath::{tokenize, Error, Scope, Value, Variable};

type Cf = fn(Args) -> Result<Value, Error>;

fn num(x: f64) -> Token {
    Token::Number(Number::new(x.to_bits()))
}

fn var(name: &str) -> Token {
    Token::Variable(name.to_string())
}

fn op(o: Operator) -> Token {
    Token::Operator(o)
}

fn scope_of(vars: &[(&str, f64)]) -> Scope<Cf> {
    let mut s: Scope<Cf> = Scope::new();
    for (name, value) in vars {
        s.set_var(name, Variable::Number(value.to_bits()));
    }
    s
}

#[test]
fn lexer_negative_numbers() {
    let tokens = tokenize("x+-1", &scope_of(&[])).unwrap();
    let expected_tokens = vec![
        var("x"),
        op(Operator::Add),
        num(-1.0),
        op(Operator::Multiply),
        num(1.0),
    ];
    assert_eq!(tokens, expected_tokens);
}

#[test]
fn test_resolve_vars() {
    let vars = scope_of(&[("abcd", 1.0)]);
    let vars_2 = scope_of(&[("ab", 2.0), ("cd", 3.0)]);
    let vars_3 = scope_of(&[("abc", 2.0), ("d", 3.0)]);
    let vars_4 = scope_of(&[("a", 2.0), ("bcd", 3.0)]);

    assert_eq!(tokenize("abcd", &vars).unwrap(), vec![var("abcd")]);

    assert_eq!(
        tokenize("abcd", &vars_2).unwrap(),
        vec![var("ab"), op(Operator::Multiply), var("cd")]
    );

    assert_eq!(
        tokenize("abcd", &vars_3).unwrap(),
        vec![var("abc"), op(Operator::Multiply), var("d")]
    );

    assert_eq!(
        tokenize("abcd", &vars_4).unwrap(),
        vec![var("a"), op(Operator::Multiply), var("bcd")]
    );

    assert_eq!(
        tokenize("abcd", &scope_of(&[])).unwrap(),
        vec![
            var("a"),
            op(Operator::Multiply),
            var("b"),
            op(Operator::Multiply),
            var("c"),
            op(Operator::Multiply),
            var("d"),
        ]
    );
}

#[test]
fn lexer_word_variables() {
    assert_eq!(
        tokenize("quantity*2", &scope_of(&[("quantity", 1.0)])),
        Ok(vec![var("quantity"), op(Operator::Multiply), num(2.0)])
    );

    assert_eq!(
        tokenize("2quantity", &scope_of(&[("quantity", 1.0)])),
        Ok(vec![num(2.0), op(Operator::Multiply), var("quantity")])
    );
}

#[test]
fn test_implicit_multiplication() {
    let scope = scope_of(&[("x", 0.0)]);

    assert_eq!(tokenize("1", &scope_of(&[])).unwrap(), vec![num(1.0)]);
    assert_eq!(
        tokenize("3x^2", &scope_of(&[])).unwrap(),
        vec![
            num(3.0),
            op(Operator::Multiply),
            var("x"),
            op(Operator::Exponentiate),
            num(2.0),
        ]
    );
    assert_eq!(
        tokenize("4(x+3)2", &scope_of(&[])).unwrap(),
        vec![
            num(4.0),
            op(Operator::Multiply),
            Token::LeftParenthesis,
            var("x"),
            op(Operator::Add),
            num(3.0),
            Token::RightParenthesis,
            op(Operator::Multiply),
            num(2.0),
        ]
    );

    assert_eq!(
        tokenize("2x(x+3)", &scope).unwrap(),
        vec![
            num(2.0),
            op(Operator::Multiply),
            var("x"),
            op(Operator::Multiply),
            Token::LeftParenthesis,
            var("x"),
            op(Operator::Add),
            num(3.0),
            Token::RightParenthesis,
        ]
    );
    assert_eq!(
        tokenize("x^(2y+3z)", &scope_of(&[])).unwrap(),
        vec![
            var("x"),
            op(Operator::Exponentiate),
            Token::LeftParenthesis,
            num(2.0),
            op(Operator::Multiply),
            var("y"),
            op(Operator::Add),
            num(3.0),
            op(Operator::Multiply),
            var("z"),
            Token::RightParenthesis,
        ]
    );
}

#[test]
fn longest_name_wins() {
    let nested = scope_of(&[("a", 1.0), ("ab", 2.0)]);
    assert_eq!(tokenize("ab", &nested).unwrap(), vec![var("ab")]);
    assert_eq!(
        tokenize("aab", &nested).unwrap(),
        vec![var("a"), op(Operator::Multiply), var("ab")]
    );

    let late = scope_of(&[("b", 1.0)]);
    assert_eq!(
        tokenize("ab", &late).unwrap(),
        vec![var("a"), op(Operator::Multiply), var("b")]
    );
}

#[test]
fn whitespace_never_separates_tokens() {
    let scope = scope_of(&[]);
    assert_eq!(tokenize("a b", &scope), tokenize("ab", &scope));
    assert_eq!(
        tokenize("1 2", &scope).unwrap(),
        vec![num(12.0)]
    );
}

#[test]
fn lexer_floats() {
    let tokens = tokenize("max(1,3,25.75,10.5)", &scope_of(&[])).unwrap();
    let expected_tokens = vec![
        Token::Function(Function::new("max".to_string())),
        num(1.0),
        Token::Comma,
        num(3.0),
        Token::Comma,
        num(25.75),
        Token::Comma,
        num(10.5),
        Token::RightParenthesis,
    ];
    assert_eq!(tokens, expected_tokens);
}

#[test]
fn tests_lexer_negative_numbers() {
    let tokens = tokenize("x+-1", &scope_of(&[])).unwrap();
    let expected_tokens = vec![
        var("x"),
        op(Operator::Add),
        num(-1.0),
        op(Operator::Multiply),
        num(1.0),
    ];
    assert_eq!(tokens, expected_tokens);
}

#[test]
fn tests_test_resolve_vars() {
    let vars = scope_of(&[("abcd", 1.0)]);
    let vars_2 = scope_of(&[("ab", 2.0), ("cd", 3.0)]);
    let vars_3 = scope_of(&[("abc", 2.0), ("d", 3.0)]);
    let vars_4 = scope_of(&[("a", 2.0), ("bcd", 3.0)]);

    assert_eq!(tokenize("abcd", &vars).unwrap(), vec![var("abcd")]);
    assert_eq!(
        tokenize("abcd", &vars_2).unwrap(),
        vec![var("ab"), op(Operator::Multiply), var("cd")]
    );
    assert_eq!(
        tokenize("abcd", &vars_3).unwrap(),
        vec![var("abc"), op(Operator::Multiply), var("d")]
    );
    assert_eq!(
        tokenize("abcd", &vars_4).unwrap(),
        vec![var("a"), op(Operator::Multiply), var("bcd")]
    );
    assert_eq!(
        tokenize("abcd", &scope_of(&[])).unwrap(),
        vec![
            var("a"),
            op(Operator::Multiply),
            var("b"),
            op(Operator::Multiply),
            var("c"),
            op(Operator::Multiply),
            var("d"),
        ]
    );
}

#[test]
fn tests_lexer_word_variables() {
    assert_eq!(
        tokenize("quantity*2", &scope_of(&[("quantity", 1.0)])),
        Ok(vec![var("quantity"), op(Operator::Multiply), num(2.0)])
    );
    assert_eq!(
        tokenize("2quantity", &scope_of(&[("quantity", 1.0)])),
        Ok(vec![num(2.0), op(Operator::Multiply), var("quantity")])
    );
}

#[test]
fn tests_test_implicit_multiplication() {
    let scope = scope_of(&[("x", 0.0)]);

    assert_eq!(tokenize("1", &scope_of(&[])).unwrap(), vec![num(1.0)]);
    assert_eq!(
        tokenize("3x^2", &scope_of(&[])).unwrap(),
        vec![
            num(3.0),
            op(Operator::Multiply),
            var("x"),
            op(Operator::Exponentiate),
            num(2.0),
        ]
    );
    assert_eq!(
        tokenize("4(x+3)2", &scope_of(&[])).unwrap(),
        vec![
            num(4.0),
            op(Operator::Multiply),
            Token::LeftParenthesis,
            var("x"),
            op(Operator::Add),
            num(3.0),
            Token::RightParenthesis,
            op(Operator::Multiply),
            num(2.0),
        ]
    );
    assert_eq!(
        tokenize("2x(x+3)", &scope).unwrap(),
        vec![
            num(2.0),
            op(Operator::Multiply),
            var("x"),
            op(Operator::Multiply),
            Token::LeftParenthesis,
            var("x"),
            op(Operator::Add),
            num(3.0),
            Token::RightParenthesis,
        ]
    );
    assert_eq!(
        tokenize("x^(2y+3z)", &scope_of(&[])).unwrap(),
        vec![
            var("x"),
            op(Operator::Exponentiate),
            Token::LeftParenthesis,
            num(2.0),
            op(Operator::Multiply),
            var("y"),
            op(Operator::Add),
            num(3.0),
            op(Operator::Multiply),
            var("z"),
            Token::RightParenthesis,
        ]
    );
}

#[test]
fn tests_lexer_floats() {
    let tokens = tokenize("max(1,3,25.75,10.5)", &scope_of(&[])).unwrap();
    let expected_tokens = vec![
        Token::Function(Function::new("max".to_string())),
        num(1.0),
        Token::Comma,
        num(3.0),
        Token::Comma,
        num(25.75),
        Token::Comma,
        num(10.5),
        Token::RightParenthesis,
    ];
    assert_eq!(tokens, expected_tokens);
}
