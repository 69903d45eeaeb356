use vstd::prelude::*;

verus! {

/// The operators of the grammar: arithmetic, comparison and boolean negation.
#[derive(Debug, Clone, Copy, PartialEq, Eq, Structural)]
pub enum Operator {
    Add,
    Substract,
    Multiply,
    Divide,
    Exponentiate,
    IsGreaterThan,
    IsLessThan,
    IsGreaterThanOrEqualTo,
    IsLessThanOrEqualTo,
    IsEqualTo,
    IsNotEqualTo,
    Not,
}

impl Operator {
    /// Binding strength: exponentiation binds tightest (4), then
    /// multiplication and division (3), then everything else (2).
    pub open spec fn precedence(self) -> int {
        match self {
            Operator::Exponentiate => 4,
            Operator::Multiply | Operator::Divide => 3,
            _ => 2,
        }
    }

    pub fn get_precedence(&self) -> (r: i8)
        ensures
            r == self.precedence(),
    {
        match self {
            Operator::Exponentiate => 4,
            Operator::Multiply | Operator::Divide => 3,
            _ => 2,
        }
    }

    /// How many operands the operator consumes: one for `Not`, two otherwise.
    pub open spec fn arity(self) -> int {
        if self is Not {
            1
        } else {
            2
        }
    }

    pub fn num_operands(&self) -> (r: usize)
        ensures
            r == self.arity(),
    {
        match self {
            Operator::Not => 1,
            _ => 2,
        }
    }

    /// Only exponentiation associates to the right: `2^2^3` is `2^(2^3)`.
    pub fn is_right_associative(&self) -> (r: bool)
        ensures
            r == (*self is Exponentiate),
    {
        match self {
            Operator::Exponentiate => true,
            _ => false,
        }
    }
}

/// A numeric literal token: the IEEE-754 binary64 bit pattern of its value.
#[derive(Debug, Clone, Copy, PartialEq, Eq, Structural)]
pub struct Number {
    pub value: u64,
}

impl Number {
    pub fn new(value: u64) -> (n: Number)
        ensures
            n.value == value,
    {
        Number { value }
    }
}

/// A name in call position, recognized by the lexer.
#[derive(Debug, Clone)]
pub struct Function {
    pub name: String,
}

impl Function {
    pub fn new(name: String) -> (f: Function)
        ensures
            f@ == name@,
    {
        Function { name }
    }
}

impl View for Function {
    type V = Seq<char>;

    open spec fn view(&self) -> Seq<char> {
        self.name@
    }
}

impl PartialEq for Function {
    fn eq(&self, other: &Function) -> (r: bool) {
        self.name == other.name
    }
}

impl vstd::std_specs::cmp::PartialEqSpecImpl for Function {
    open spec fn obeys_eq_spec() -> bool {
        true
    }

    open spec fn eq_spec(&self, other: &Function) -> bool {
        self@ == other@
    }
}

/// The smallest lexical unit: what the lexer produces and the parser consumes.
#[derive(Debug, Clone)]
pub enum Token {
    Operator(Operator),
    Number(Number),
    Variable(String),
    LeftParenthesis,
    RightParenthesis,
    Comma,
    Function(Function),
}

/// The shape of a token with text payloads taken as character sequences and
/// numbers as bit patterns: what contracts speak about.
pub enum TokenV {
    Operator(Operator),
    Number(u64),
    Variable(Seq<char>),
    LeftParenthesis,
    RightParenthesis,
    Comma,
    Function(Seq<char>),
}

impl View for Token {
    type V = TokenV;

    open spec fn view(&self) -> TokenV {
        match self {
            Token::Operator(op) => TokenV::Operator(*op),
            Token::Number(n) => TokenV::Number(n.value),
            Token::Variable(s) => TokenV::Variable(s@),
            Token::LeftParenthesis => TokenV::LeftParenthesis,
            Token::RightParenthesis => TokenV::RightParenthesis,
            Token::Comma => TokenV::Comma,
            Token::Function(f) => TokenV::Function(f@),
        }
    }
}

impl DeepView for Token {
    type V = TokenV;

    open spec fn deep_view(&self) -> TokenV {
        self.view()
    }
}

impl PartialEq for Token {
    fn eq(&self, other: &Token) -> (r: bool) {
        match (self, other) {
            (Token::Operator(a), Token::Operator(b)) => *a == *b,
            (Token::Number(a), Token::Number(b)) => *a == *b,
            (Token::Variable(a), Token::Variable(b)) => *a == *b,
            (Token::LeftParenthesis, Token::LeftParenthesis) => true,
            (Token::RightParenthesis, Token::RightParenthesis) => true,
            (Token::Comma, Token::Comma) => true,
            (Token::Function(a), Token::Function(b)) => a.name == b.name,
            _ => false,
        }
    }
}

impl vstd::std_specs::cmp::PartialEqSpecImpl for Token {
    open spec fn obeys_eq_spec() -> bool {
        true
    }

    open spec fn eq_spec(&self, other: &Token) -> bool {
        self@ == other@
    }
}

pub type TokenList = Vec<Token>;

/// The shapes of a token sequence, in order.
pub open spec fn tokens_view(s: Seq<Token>) -> Seq<TokenV> {
    Seq::new(s.len(), |i: int| s[i]@)
}

} // verus!
