use vstd::prelude::*;
use crate::constants::{INFINITY_BITS, NEG_INFINITY_BITS};
use crate::error::{eres_view, Error, ErrorV};
use crate::floatsem::{is_nan_bits, is_sign_neg, is_zero_bits, value_eq, value_ge, value_gt, value_le, value_lt};
use crate::floatsem::{f64_is_zero, value_is_eq, value_is_le, value_is_lt};
use crate::functions::{apply_builtin, builtin_apply, is_builtin_fn, lookup_builtin_fn, Args};
use crate::node::{lemma_nodes_view, node_view, nodes_view, Node, NodeV, Root};
use crate::numerics::{add_bits, div_bits, mul_bits, pow_bits, sub_bits};
use crate::numerics::{f64_add, f64_div, f64_mul, f64_pow, f64_sub};
use crate::resolve::{resolve_var, resolve_var_spec};
use crate::scope::{Scope, Variable, VariableV};
use crate::tokens::{Operator, Token, TokenV};
use crate::value::Value;

verus! {

/// What an operator returns on an ordered operand list: `Not` turns a
/// number into the test "is it zero" and negates a boolean; arithmetic
/// demands two numbers and follows IEEE-754 binary64; comparisons order
/// values as `floatsem` states; extra operands beyond the arity are
/// ignored.
pub open spec fn op_apply(op: Operator, vals: Seq<Value>) -> Result<Value, ErrorV> {
    if op is Not {
        if vals.len() < 1 {
            Err(ErrorV::MissingOperands(op))
        } else {
            match vals[0] {
                Value::Num(x) => Ok(Value::Bool(is_zero_bits(x))),
                Value::Bool(b) => Ok(Value::Bool(!b)),
            }
        }
    } else if vals.len() < 2 {
        Err(ErrorV::MissingOperands(op))
    } else {
        let a = vals[0];
        let b = vals[1];
        match op {
            Operator::Add => match (a, b) {
                (Value::Num(x), Value::Num(y)) => Ok(Value::Num(add_bits(x, y))),
                _ => Err(ErrorV::InvalidOperands(op)),
            },
            Operator::Substract => match (a, b) {
                (Value::Num(x), Value::Num(y)) => Ok(Value::Num(sub_bits(x, y))),
                _ => Err(ErrorV::InvalidOperands(op)),
            },
            Operator::Multiply => match (a, b) {
                (Value::Num(x), Value::Num(y)) => Ok(Value::Num(mul_bits(x, y))),
                _ => Err(ErrorV::InvalidOperands(op)),
            },
            Operator::Divide => match (a, b) {
                (Value::Num(x), Value::Num(y)) => Ok(Value::Num(div_bits(x, y))),
                _ => Err(ErrorV::InvalidOperands(op)),
            },
            Operator::Exponentiate => match (a, b) {
                (Value::Num(x), Value::Num(y)) => Ok(Value::Num(pow_bits(x, y))),
                _ => Err(ErrorV::InvalidOperands(op)),
            },
            Operator::IsGreaterThan => Ok(Value::Bool(value_gt(a, b))),
            Operator::IsLessThan => Ok(Value::Bool(value_lt(a, b))),
            Operator::IsGreaterThanOrEqualTo => Ok(Value::Bool(value_ge(a, b))),
            Operator::IsLessThanOrEqualTo => Ok(Value::Bool(value_le(a, b))),
            Operator::IsNotEqualTo => Ok(Value::Bool(!value_eq(a, b))),
            Operator::IsEqualTo => Ok(Value::Bool(value_eq(a, b))),
            Operator::Not => Err(ErrorV::MissingOperands(op)),
        }
    }
}

impl Operator {
    /// Applies the operator to an ordered operand list. Dividing a number
    /// that is neither NaN nor zero by a zero is no failure: it yields the
    /// infinity carrying the operands' combined sign.
    pub fn eval(&self, args: &Vec<Value>) -> (r: Result<Value, Error>)
        ensures
            eres_view(r) == op_apply(*self, args@),
            *self is Divide && args@.len() >= 2 ==> (args@[0] matches Value::Num(x) ==> (
            args@[1] matches Value::Num(y) ==> ((!is_nan_bits(x) && !is_zero_bits(x)
                && is_zero_bits(y)) ==> r == Ok::<Value, Error>(
                Value::Num(
                    if is_sign_neg(x) == is_sign_neg(y) {
                        INFINITY_BITS
                    } else {
                        NEG_INFINITY_BITS
                    },
                ),
            )))),
    {
        match self {
            Operator::Not => {
                if args.len() < 1 {
                    Err(Error::MissingOperands(*self))
                } else {
                    match args[0] {
                        Value::Num(x) => Ok(Value::Bool(f64_is_zero(x))),
                        Value::Bool(b) => Ok(Value::Bool(!b)),
                    }
                }
            },
            _ => {
                if args.len() < 2 {
                    return Err(Error::MissingOperands(*self));
                }
                let a = args[0];
                let b = args[1];
                match (self, a, b) {
                    (Operator::Add, Value::Num(x), Value::Num(y)) => Ok(
                        Value::Num(f64_add(x, y)),
                    ),
                    (Operator::Substract, Value::Num(x), Value::Num(y)) => Ok(
                        Value::Num(f64_sub(x, y)),
                    ),
                    (Operator::Multiply, Value::Num(x), Value::Num(y)) => Ok(
                        Value::Num(f64_mul(x, y)),
                    ),
                    (Operator::Divide, Value::Num(x), Value::Num(y)) => Ok(
                        Value::Num(f64_div(x, y)),
                    ),
                    (Operator::Exponentiate, Value::Num(x), Value::Num(y)) => Ok(
                        Value::Num(f64_pow(x, y)),
                    ),
                    (Operator::IsGreaterThan, _, _) => Ok(Value::Bool(value_is_lt(&b, &a))),
                    (Operator::IsLessThan, _, _) => Ok(Value::Bool(value_is_lt(&a, &b))),
                    (Operator::IsGreaterThanOrEqualTo, _, _) => Ok(
                        Value::Bool(value_is_le(&b, &a)),
                    ),
                    (Operator::IsLessThanOrEqualTo, _, _) => Ok(Value::Bool(value_is_le(&a, &b))),
                    (Operator::IsNotEqualTo, _, _) => Ok(Value::Bool(!value_is_eq(&a, &b))),
                    (Operator::IsEqualTo, _, _) => Ok(Value::Bool(value_is_eq(&a, &b))),
                    _ => Err(Error::InvalidOperands(*self)),
                }
            },
        }
    }
}

/// What evaluating a tree can settle: a value, the library's own failure,
/// or an outcome in the hands of a caller-supplied function binding. The
/// walk is depth first, left to right, and fails fast, so everything up
/// to the first caller binding it reaches is fixed; from that call on the
/// binding decides.
pub enum EvalOut {
    Val(Value),
    Fail(ErrorV),
    External,
}

/// The same three-way outcome for an argument list evaluated left to
/// right.
pub enum ChildrenOut {
    Vals(Seq<Value>),
    Fail(ErrorV),
    External,
}

/// What evaluating a tree against a Scope settles.
pub open spec fn spec_eval(n: NodeV, scope: Map<Seq<char>, VariableV>) -> EvalOut
    decreases n,
{
    match n.token {
        TokenV::Number(b) => EvalOut::Val(Value::Num(b)),
        TokenV::Variable(name) => match resolve_var_spec(name, scope) {
            Ok(v) => EvalOut::Val(v),
            Err(e) => EvalOut::Fail(e),
        },
        TokenV::Operator(op) => match n.args {
            Option::None => EvalOut::Fail(ErrorV::MissingOperands(op)),
            Option::Some(cs) => match spec_eval_children(cs, scope) {
                ChildrenOut::Fail(e) => EvalOut::Fail(e),
                ChildrenOut::External => EvalOut::External,
                ChildrenOut::Vals(vs) => match op_apply(op, vs) {
                    Ok(v) => EvalOut::Val(v),
                    Err(e) => EvalOut::Fail(e),
                },
            },
        },
        TokenV::Function(name) => match n.args {
            Option::None => EvalOut::Fail(ErrorV::NotEnoughFunctionParams(name)),
            Option::Some(cs) => match spec_eval_children(cs, scope) {
                ChildrenOut::Fail(e) => EvalOut::Fail(e),
                ChildrenOut::External => EvalOut::External,
                ChildrenOut::Vals(vs) => if is_builtin_fn(name) {
                    match builtin_apply(name, vs) {
                        Ok(v) => EvalOut::Val(v),
                        Err(e) => EvalOut::Fail(e),
                    }
                } else if scope.contains_key(name) && scope[name] is Function {
                    EvalOut::External
                } else {
                    EvalOut::Fail(ErrorV::UnknownFunction(name))
                },
            },
        },
        TokenV::LeftParenthesis => EvalOut::Fail(ErrorV::CannotEvaluateToken("LeftParenthesis"@)),
        TokenV::RightParenthesis => EvalOut::Fail(
            ErrorV::CannotEvaluateToken("RightParenthesis"@),
        ),
        TokenV::Comma => EvalOut::Fail(ErrorV::CannotEvaluateToken("Comma"@)),
    }
}

/// Evaluates children left to right, stopping at the first failure or the
/// first outcome a caller binding decides.
pub open spec fn spec_eval_children(cs: Seq<NodeV>, scope: Map<Seq<char>, VariableV>) -> ChildrenOut
    decreases cs,
{
    if cs.len() == 0 {
        ChildrenOut::Vals(Seq::empty())
    } else {
        match spec_eval(cs[0], scope) {
            EvalOut::Fail(e) => ChildrenOut::Fail(e),
            EvalOut::External => ChildrenOut::External,
            EvalOut::Val(v) => match spec_eval_children(cs.drop_first(), scope) {
                ChildrenOut::Fail(e) => ChildrenOut::Fail(e),
                ChildrenOut::External => ChildrenOut::External,
                ChildrenOut::Vals(rest) => ChildrenOut::Vals(seq![v] + rest),
            },
        }
    }
}

/// All children settle, and to the given values: then the child list
/// settles to them.
proof fn lemma_children_all_vals(cs: Seq<NodeV>, scope: Map<Seq<char>, VariableV>, vs: Seq<Value>)
    requires
        vs.len() == cs.len(),
        forall|k: int|
            0 <= k < cs.len() ==> #[trigger] spec_eval(cs[k], scope) == EvalOut::Val(vs[k]),
    ensures
        spec_eval_children(cs, scope) == ChildrenOut::Vals(vs),
    decreases cs.len(),
{
    if cs.len() == 0 {
        assert(vs =~= Seq::<Value>::empty());
    } else {
        assert(spec_eval(cs[0], scope) == EvalOut::Val(vs[0]));
        lemma_children_all_vals(cs.drop_first(), scope, vs.drop_first());
        assert(seq![vs[0]] + vs.drop_first() =~= vs);
    }
}

/// The first child that does not settle to a value decides the child
/// list's outcome.
proof fn lemma_children_first_undecided(
    cs: Seq<NodeV>,
    scope: Map<Seq<char>, VariableV>,
    i: int,
)
    requires
        0 <= i < cs.len(),
        forall|k: int| 0 <= k < i ==> #[trigger] spec_eval(cs[k], scope) is Val,
        !(spec_eval(cs[i], scope) is Val),
    ensures
        spec_eval(cs[i], scope) matches EvalOut::Fail(e) ==> spec_eval_children(cs, scope)
            == ChildrenOut::Fail(e),
        spec_eval(cs[i], scope) is External ==> spec_eval_children(cs, scope)
            == ChildrenOut::External,
    decreases i,
{
    if i == 0 {
    } else {
        assert(spec_eval(cs[0], scope) is Val);
        assert(forall|k: int|
            0 <= k < i - 1 ==> #[trigger] spec_eval(cs.drop_first()[k], scope) == spec_eval(
                cs[k + 1],
                scope,
            ));
        lemma_children_first_undecided(cs.drop_first(), scope, i - 1);
    }
}

/// Evaluates every child, left to right, stopping at the first failure.
fn eval_children<F: Fn(Args) -> Result<Value, Error>>(children: &Vec<Node>, scope: &Scope<F>) -> (r:
    Result<Vec<Value>, Error>)
    ensures
        match spec_eval_children(nodes_view(children@), scope@) {
            ChildrenOut::Vals(vs) => r matches Ok(vals) && vals@ == vs,
            ChildrenOut::Fail(e) => r matches Err(er) && er@ == e,
            ChildrenOut::External => true,
        },
    decreases children,
{
    let ghost cs = nodes_view(children@);
    let ghost m = scope@;
    proof {
        lemma_nodes_view(children@);
    }
    let mut vals: Vec<Value> = Vec::new();
    let mut i: usize = 0;
    while i < children.len()
        invariant
            cs == nodes_view(children@),
            m == scope@,
            0 <= i <= children@.len(),
            cs.len() == children@.len(),
            vals@.len() == i,
            (forall|k: int| 0 <= k < i ==> #[trigger] spec_eval(cs[k], m) == EvalOut::Val(vals@[k]))
                || spec_eval_children(cs, m) is External,
        decreases children@.len() - i,
    {
        proof {
            assert(decreases_to!(children => children@[i as int]));
        }
        let child = &children[i];
        proof {
            lemma_nodes_view(children@);
            assert(node_view(children@[i as int]) == cs[i as int]);
        }
        match child.eval_with(scope) {
            Ok(v) => {
                proof {
                    if forall|k: int|
                        0 <= k < i ==> #[trigger] spec_eval(cs[k], m) == EvalOut::Val(vals@[k]) {
                        if spec_eval(cs[i as int], m) is External {
                            lemma_children_first_undecided(cs, m, i as int);
                        }
                    }
                }
                vals.push(v);
            },
            Err(e) => {
                proof {
                    if forall|k: int|
                        0 <= k < i ==> #[trigger] spec_eval(cs[k], m) == EvalOut::Val(vals@[k]) {
                        lemma_children_first_undecided(cs, m, i as int);
                    }
                }
                return Err(e);
            },
        }
        i += 1;
    }
    proof {
        if forall|k: int|
            0 <= k < i ==> #[trigger] spec_eval(cs[k], m) == EvalOut::Val(vals@[k]) {
            lemma_children_all_vals(cs, m, vals@);
        }
    }
    Ok(vals)
}

impl Node {
    /// Evaluates the tree against the given Scope: a pure walk, reading the
    /// builtin registries and the Scope. Whatever `spec_eval` settles —
    /// the value, or the library's own failure, the first one on the
    /// depth-first walk — is owed. Where the root is a call of a
    /// caller-supplied binding and its arguments all evaluate, the result
    /// is one the binding itself admits on exactly those values, in
    /// source order, handed back unchanged.
    pub fn eval_with<F: Fn(Args) -> Result<Value, Error>>(&self, scope: &Scope<F>) -> (r: Result<
        Value,
        Error,
    >)
        ensures
            spec_eval(self@, scope@) matches EvalOut::Val(v) ==> r == Ok::<Value, Error>(v),
            spec_eval(self@, scope@) matches EvalOut::Fail(e) ==> (r matches Err(er) && er@ == e),
            self@.token matches TokenV::Function(name) ==> (self@.args matches Some(cs) ==> (
            spec_eval_children(cs, scope@) matches ChildrenOut::Vals(vs) ==> ((!is_builtin_fn(
                name,
            ) && scope@.contains_key(name) && scope@[name] is Function) ==> (scope.bindings()[name]
                matches Variable::Function(f) && exists|a: Args|
                a@ == vs && call_ensures(f, (a,), r))))),
        decreases self,
    {
        let ghost nv = self@;
        let ghost m = scope@;
        match &self.token {
            Token::Number(n) => Ok(Value::Num(n.value)),
            Token::Variable(name) => resolve_var(name.as_str(), scope),
            Token::Operator(op) => match &self.args {
                Option::None => Err(Error::MissingOperands(*op)),
                Option::Some(children) => {
                    proof {
                        assert(decreases_to!(self => children));
                        assert(nv.args == Some(nodes_view(children@)));
                    }
                    match eval_children(children, scope) {
                        Err(e) => Err(e),
                        Ok(vals) => op.eval(&vals),
                    }
                },
            },
            Token::Function(f) => match &self.args {
                Option::None => Err(Error::NotEnoughFunctionParams(f.name.clone())),
                Option::Some(children) => {
                    proof {
                        assert(decreases_to!(self => children));
                        assert(nv.token == TokenV::Function(f.name@));
                        assert(nv.args == Some(nodes_view(children@)));
                    }
                    match eval_children(children, scope) {
                        Err(e) => Err(e),
                        Ok(vals) => {
                            if lookup_builtin_fn(f.name.as_str()) {
                                apply_builtin(f.name.as_str(), Args::from_vec(vals))
                            } else {
                                match scope.get_var(f.name.as_str()) {
                                    Some(Variable::Function(g)) => {
                                        let args_value = Args::from_vec(vals);
                                        let ghost passed = args_value;
                                        let outcome = g(args_value);
                                        proof {
                                            assert(passed@ =~= vals@);
                                        }
                                        outcome
                                    },
                                    _ => Err(Error::UnknownFunction(f.name.clone())),
                                }
                            }
                        },
                    }
                },
            },
            Token::LeftParenthesis => Err(
                Error::CannotEvaluateToken("LeftParenthesis".to_owned()),
            ),
            Token::RightParenthesis => Err(
                Error::CannotEvaluateToken("RightParenthesis".to_owned()),
            ),
            Token::Comma => Err(Error::CannotEvaluateToken("Comma".to_owned())),
        }
    }

    /// Evaluates the tree without any variables: a shortcut against an
    /// empty Scope, the binding type chosen by the caller.
    pub fn eval<F: Fn(Args) -> Result<Value, Error>>(&self) -> (r: Result<Value, Error>)
        ensures
            spec_eval(self@, Map::empty()) matches EvalOut::Val(v) ==> r == Ok::<Value, Error>(v),
            spec_eval(self@, Map::empty()) matches EvalOut::Fail(e) ==> (r matches Err(er) && er@
                == e),
    {
        let scope: Scope<F> = Scope::new();
        self.eval_with(&scope)
    }
}

impl<'a, F: Fn(Args) -> Result<Value, Error>> Root<'a, F> {
    /// Evaluates the compiled tree against the Scope it was compiled with.
    pub fn eval(&self) -> (r: Result<Value, Error>)
        ensures
            spec_eval(self.node@, self.scope@) matches EvalOut::Val(v) ==> r == Ok::<
                Value,
                Error,
            >(v),
            spec_eval(self.node@, self.scope@) matches EvalOut::Fail(e) ==> (r matches Err(er)
                && er@ == e),
            self.node@.token matches TokenV::Function(name) ==> (self.node@.args matches Some(cs)
                ==> (spec_eval_children(cs, self.scope@) matches ChildrenOut::Vals(vs) ==> ((
            !is_builtin_fn(name) && self.scope@.contains_key(name) && self.scope@[name]
                is Function) ==> (self.scope.bindings()[name] matches Variable::Function(f)
                && exists|a: Args| a@ == vs && call_ensures(f, (a,), r))))),
    {
        self.node.eval_with(self.scope)
    }

    /// Evaluates the compiled tree against another Scope: only that Scope's
    /// bindings resolve names now; the compile-time Scope played its part
    /// at lexing alone.
    pub fn eval_with<G: Fn(Args) -> Result<Value, Error>>(&self, scope: &Scope<G>) -> (r: Result<
        Value,
        Error,
    >)
        ensures
            spec_eval(self.node@, scope@) matches EvalOut::Val(v) ==> r == Ok::<Value, Error>(v),
            spec_eval(self.node@, scope@) matches EvalOut::Fail(e) ==> (r matches Err(er) && er@
                == e),
            self.node@.token matches TokenV::Function(name) ==> (self.node@.args matches Some(cs)
                ==> (spec_eval_children(cs, scope@) matches ChildrenOut::Vals(vs) ==> ((
            !is_builtin_fn(name) && scope@.contains_key(name) && scope@[name] is Function) ==> (
            scope.bindings()[name] matches Variable::Function(f) && exists|a: Args|
                a@ == vs && call_ensures(f, (a,), r))))),
    {
        self.node.eval_with(scope)
    }
}

} // verus!
