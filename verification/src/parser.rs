use vstd::prelude::*;
use crate::error::{Error, ErrorV};
use crate::eval::{spec_eval, spec_eval_children, ChildrenOut, EvalOut};
use crate::lexer::{spec_tokenize, strip_spaces, tokenize};
use crate::node::{
    lemma_nodes_view, lemma_nodes_view_prepend, lemma_nodes_view_push, lemma_nodes_view_subrange,
    node_view, nodes_view, Node, NodeV, Root,
};
use crate::functions::{is_builtin_fn, Args};
use crate::scope::{Scope, Variable, VariableV};
use crate::tokens::{tokens_view, Function, Operator, Token, TokenList, TokenV};
use crate::value::Value;

verus! {

// The operator-precedence parser: two stacks, one of pending operator-like
// tokens, one of finished operand trees. Each incoming token either pushes,
// or reduces the stacks; at the end the operand stack must hold exactly one
// tree.

/// Reduces one operator: its operands leave the top of the operand stack,
/// the deepest as the leftmost child.
pub open spec fn add_operator_spec(op: Operator, operands: Seq<NodeV>) -> Result<
    Seq<NodeV>,
    ErrorV,
> {
    let k = op.arity();
    if operands.len() < k {
        Err(ErrorV::MissingOperands(op))
    } else {
        let args = operands.subrange(operands.len() - k, operands.len() as int);
        let rest = operands.subrange(0, operands.len() - k);
        Ok(rest.push(NodeV { token: TokenV::Operator(op), args: Some(args) }))
    }
}

/// Collects comma-separated arguments off the operand stack: after the
/// mandatory first argument, each comma marker must be followed by one
/// more argument below it.
pub open spec fn collect_args_spec(
    operands: Seq<NodeV>,
    acc: Seq<NodeV>,
    name: Seq<char>,
) -> Result<(Seq<NodeV>, Seq<NodeV>), ErrorV>
    decreases operands.len(),
{
    if operands.len() == 0 {
        Ok((operands, acc))
    } else if operands.last().token is Comma {
        let rest = operands.drop_last();
        if rest.len() == 0 {
            Err(ErrorV::FunctionSyntaxError(name))
        } else {
            collect_args_spec(rest.drop_last(), seq![rest.last()] + acc, name)
        }
    } else {
        Ok((operands, acc))
    }
}

/// Reduces a function: at least one argument is mandatory; the collected
/// arguments become the function node's children in source order.
pub open spec fn encounter_func_spec(name: Seq<char>, operands: Seq<NodeV>) -> Result<
    Seq<NodeV>,
    ErrorV,
> {
    if operands.len() == 0 {
        Err(ErrorV::NotEnoughFunctionParams(name))
    } else {
        match collect_args_spec(operands.drop_last(), seq![operands.last()], name) {
            Err(e) => Err(e),
            Ok((rest, args)) => Ok(
                rest.push(NodeV { token: TokenV::Function(name), args: Some(args) }),
            ),
        }
    }
}

/// A closing parenthesis pops and reduces until it closes its group: an
/// opening parenthesis leaves the stack (with popping kept up when a
/// function waits right below it), a function collects its arguments and
/// its call is done, or the stack runs out.
pub open spec fn right_paren_spec(operators: Seq<TokenV>, operands: Seq<NodeV>) -> Result<
    (Seq<TokenV>, Seq<NodeV>),
    ErrorV,
>
    decreases operators.len(),
{
    if operators.len() == 0 {
        Ok((operators, operands))
    } else {
        let top = operators.last();
        let rest = operators.drop_last();
        match top {
            TokenV::LeftParenthesis => {
                if rest.len() > 0 && rest.last() is Function {
                    right_paren_spec(rest, operands)
                } else {
                    Ok((rest, operands))
                }
            },
            TokenV::Function(f) => match encounter_func_spec(f, operands) {
                Err(e) => Err(e),
                Ok(opnds) => Ok((rest, opnds)),
            },
            TokenV::Operator(op) => match add_operator_spec(op, operands) {
                Err(e) => Err(e),
                Ok(opnds) => right_paren_spec(rest, opnds),
            },
            _ => right_paren_spec(rest, operands),
        }
    }
}

/// An incoming operator first reduces every stacked operator that binds at
/// least as tightly (strictly, when the incoming one associates to the
/// right), then takes its place on the stack. A waiting function bounds the
/// reductions just as an opening parenthesis does: its arguments are not
/// complete before its group closes.
pub open spec fn encounter_operator_spec(
    cur: Operator,
    operators: Seq<TokenV>,
    operands: Seq<NodeV>,
) -> Result<(Seq<TokenV>, Seq<NodeV>), ErrorV>
    decreases operators.len(),
{
    if operators.len() == 0 {
        Ok((seq![TokenV::Operator(cur)], operands))
    } else {
        let top = operators.last();
        let rest = operators.drop_last();
        match top {
            TokenV::Operator(op) => {
                if op.precedence() > cur.precedence() || (op.precedence() == cur.precedence()
                    && !(cur is Exponentiate)) {
                    match add_operator_spec(op, operands) {
                        Err(e) => Err(e),
                        Ok(opnds) => encounter_operator_spec(cur, rest, opnds),
                    }
                } else {
                    Ok((operators.push(TokenV::Operator(cur)), operands))
                }
            },
            _ => Ok((operators.push(TokenV::Operator(cur)), operands)),
        }
    }
}

/// Runs the stacks over the remaining tokens.
pub open spec fn parse_tokens_spec(
    tokens: Seq<TokenV>,
    i: int,
    operators: Seq<TokenV>,
    operands: Seq<NodeV>,
) -> Result<(Seq<TokenV>, Seq<NodeV>), ErrorV>
    decreases tokens.len() - i,
{
    if i < 0 || i >= tokens.len() {
        Ok((operators, operands))
    } else {
        match tokens[i] {
            TokenV::Number(b) => parse_tokens_spec(
                tokens,
                i + 1,
                operators,
                operands.push(NodeV { token: TokenV::Number(b), args: None }),
            ),
            TokenV::Variable(s) => parse_tokens_spec(
                tokens,
                i + 1,
                operators,
                operands.push(NodeV { token: TokenV::Variable(s), args: None }),
            ),
            TokenV::RightParenthesis => match right_paren_spec(operators, operands) {
                Err(e) => Err(e),
                Ok((ops, opnds)) => parse_tokens_spec(tokens, i + 1, ops, opnds),
            },
            TokenV::LeftParenthesis => parse_tokens_spec(
                tokens,
                i + 1,
                operators.push(TokenV::LeftParenthesis),
                operands,
            ),
            TokenV::Operator(op) => match encounter_operator_spec(op, operators, operands) {
                Err(e) => Err(e),
                Ok((ops, opnds)) => parse_tokens_spec(tokens, i + 1, ops, opnds),
            },
            TokenV::Function(f) => parse_tokens_spec(
                tokens,
                i + 1,
                operators.push(TokenV::Function(f)),
                operands,
            ),
            TokenV::Comma => parse_tokens_spec(
                tokens,
                i + 1,
                operators,
                operands.push(NodeV { token: TokenV::Comma, args: None }),
            ),
        }
    }
}

/// End of input: every remaining operator reduces; a parenthesis or
/// function still on the stack means unbalanced input.
pub open spec fn drain_spec(operators: Seq<TokenV>, operands: Seq<NodeV>) -> Result<
    Seq<NodeV>,
    ErrorV,
>
    decreases operators.len(),
{
    if operators.len() == 0 {
        Ok(operands)
    } else {
        match operators.last() {
            TokenV::Operator(op) => match add_operator_spec(op, operands) {
                Err(e) => Err(e),
                Ok(opnds) => drain_spec(operators.drop_last(), opnds),
            },
            _ => Err(ErrorV::EmptyExpression),
        }
    }
}

/// What parsing a token list yields: the single tree left standing.
/// Nothing on the operand stack is an empty expression; more than one
/// operand left, or an unbalanced parenthesis or function, is malformed
/// input and reported the same way.
pub open spec fn spec_parse(tokens: Seq<TokenV>) -> Result<NodeV, ErrorV> {
    match parse_tokens_spec(tokens, 0, Seq::empty(), Seq::empty()) {
        Err(e) => Err(e),
        Ok((ops, opnds)) => match drain_spec(ops, opnds) {
            Err(e) => Err(e),
            Ok(fin) => if fin.len() == 1 {
                Ok(fin[0])
            } else {
                Err(ErrorV::EmptyExpression)
            },
        },
    }
}

/// Reduces one operator off the operand stack.
fn add_operator(operator: Operator, operands: &mut Vec<Node>) -> (r: Result<(), Error>)
    ensures
        match add_operator_spec(operator, nodes_view(old(operands)@)) {
            Ok(ns) => r is Ok && nodes_view(final(operands)@) == ns,
            Err(e) => (r matches Err(er) && er@ == e) && final(operands)@ == old(operands)@,
        },
{
    let required = operator.num_operands();
    if operands.len() < required {
        proof {
            lemma_nodes_view(operands@);
        }
        return Err(Error::MissingOperands(operator));
    }
    let ghost s0 = operands@;
    proof {
        lemma_nodes_view(s0);
    }
    let last = match operands.pop() {
        Some(n) => n,
        None => {
            return Err(Error::MissingOperands(operator));
        },
    };
    let mut args: Vec<Node> = Vec::new();
    if required == 2 {
        let first = match operands.pop() {
            Some(n) => n,
            None => {
                return Err(Error::MissingOperands(operator));
            },
        };
        args.push(first);
    }
    args.push(last);
    proof {
        assert(args@ =~= s0.subrange(s0.len() - required, s0.len() as int));
        assert(operands@ =~= s0.subrange(0, s0.len() - required));
        lemma_nodes_view_subrange(s0, s0.len() - required as int, s0.len() as int);
        lemma_nodes_view_subrange(s0, 0, s0.len() - required as int);
    }
    let node = Node::new(Token::Operator(operator), Some(args));
    let ghost rest = operands@;
    operands.push(node);
    proof {
        lemma_nodes_view_push(rest, node);
    }
    Ok(())
}

/// Reduces a function call: pops the mandatory first argument, then pairs
/// of comma marker and argument, and pushes the function node.
fn encounter_func(f: String, operands: &mut Vec<Node>) -> (r: Result<(), Error>)
    ensures
        match encounter_func_spec(f@, nodes_view(old(operands)@)) {
            Ok(ns) => r is Ok && nodes_view(final(operands)@) == ns,
            Err(e) => (r matches Err(er) && er@ == e) && (e is NotEnoughFunctionParams
                ==> final(operands)@ == old(operands)@),
        },
{
    let ghost s0 = nodes_view(operands@);
    proof {
        lemma_nodes_view(operands@);
    }
    let first = match operands.pop() {
        Some(n) => n,
        None => {
            return Err(Error::NotEnoughFunctionParams(f));
        },
    };
    let mut args: Vec<Node> = Vec::new();
    args.push(first);
    proof {
        assert(operands@ =~= old(operands)@.drop_last());
        lemma_nodes_view_subrange(old(operands)@, 0, old(operands)@.len() - 1);
        assert(old(operands)@.drop_last() =~= old(operands)@.subrange(
            0,
            old(operands)@.len() - 1,
        ));
        lemma_nodes_view(args@);
        assert(nodes_view(args@) =~= seq![s0.last()]);
        assert(s0.drop_last() =~= s0.subrange(0, s0.len() - 1));
    }
    loop
        invariant
            s0 == nodes_view(old(operands)@),
            s0.len() > 0,
            collect_args_spec(s0.drop_last(), seq![s0.last()], f@) == collect_args_spec(
                nodes_view(operands@),
                nodes_view(args@),
                f@,
            ),
        ensures
            collect_args_spec(s0.drop_last(), seq![s0.last()], f@) == Ok::<
                (Seq<NodeV>, Seq<NodeV>),
                ErrorV,
            >((nodes_view(operands@), nodes_view(args@))),
        decreases operands@.len(),
    {
        let n = operands.len();
        proof {
            lemma_nodes_view(operands@);
        }
        if n == 0 {
            proof {
                assert(nodes_view(operands@).len() == 0);
            }
            break;
        }
        let is_comma = match &operands[n - 1].token {
            Token::Comma => true,
            _ => false,
        };
        if !is_comma {
            proof {
                assert(nodes_view(operands@)[n - 1] == node_view(operands@[n - 1]));
                assert(!(nodes_view(operands@).last().token is Comma));
            }
            break;
        }
        let ghost before = operands@;
        let _comma = operands.pop();
        proof {
            assert(operands@ =~= before.drop_last());
            lemma_nodes_view_subrange(before, 0, before.len() - 1);
            assert(before.drop_last() =~= before.subrange(0, before.len() - 1));
            assert(nodes_view(operands@) =~= nodes_view(before).drop_last());
        }
        let ghost mid = operands@;
        match operands.pop() {
            Some(arg) => {
                let ghost args_before = args@;
                args.insert(0, arg);
                proof {
                    assert(operands@ =~= mid.drop_last());
                    lemma_nodes_view_subrange(mid, 0, mid.len() - 1);
                    assert(mid.drop_last() =~= mid.subrange(0, mid.len() - 1));
                    assert(nodes_view(operands@) =~= nodes_view(mid).drop_last());
                    assert(args@ =~= args_before.insert(0, arg));
                    lemma_nodes_view_prepend(args_before, arg);
                    lemma_nodes_view(mid);
                }
            },
            None => {
                return Err(Error::FunctionSyntaxError(f));
            },
        }
    }
    let node = Node::new(Token::Function(Function::new(f)), Some(args));
    let ghost rest = operands@;
    operands.push(node);
    proof {
        lemma_nodes_view_push(rest, node);
    }
    Ok(())
}

/// Pops and reduces for a closing parenthesis.
fn right_paren(operators: &mut TokenList, operands: &mut Vec<Node>) -> (r: Result<(), Error>)
    ensures
        match right_paren_spec(tokens_view(old(operators)@), nodes_view(old(operands)@)) {
            Ok((so, sn)) => r is Ok && tokens_view(final(operators)@) == so && nodes_view(
                final(operands)@,
            ) == sn,
            Err(e) => r matches Err(er) && er@ == e,
        },
{
    loop
        invariant
            right_paren_spec(tokens_view(old(operators)@), nodes_view(old(operands)@))
                == right_paren_spec(tokens_view(operators@), nodes_view(operands@)),
        decreases operators@.len(),
    {
        let ghost ops_before = operators@;
        let top = match operators.pop() {
            Some(t) => t,
            None => {
                return Ok(());
            },
        };
        proof {
            assert(operators@ =~= ops_before.drop_last());
            assert(tokens_view(operators@) =~= tokens_view(ops_before).drop_last());
        }
        match top {
            Token::LeftParenthesis => {
                let keep_going = if operators.len() > 0 {
                    match &operators[operators.len() - 1] {
                        Token::Function(_) => true,
                        _ => false,
                    }
                } else {
                    false
                };
                if !keep_going {
                    return Ok(());
                }
            },
            Token::Function(func) => {
                return match encounter_func(func.name, operands) {
                    Ok(()) => Ok(()),
                    Err(e) => Err(e),
                };
            },
            Token::Operator(op) => {
                match add_operator(op, operands) {
                    Ok(()) => (),
                    Err(e) => {
                        return Err(e);
                    },
                }
            },
            _ => (),
        }
    }
}

/// Stacks an incoming operator after the due reductions.
fn encounter_operator(cur_op: Operator, operators: &mut TokenList, operands: &mut Vec<Node>) -> (r:
    Result<(), Error>)
    ensures
        match encounter_operator_spec(
            cur_op,
            tokens_view(old(operators)@),
            nodes_view(old(operands)@),
        ) {
            Ok((so, sn)) => r is Ok && tokens_view(final(operators)@) == so && nodes_view(
                final(operands)@,
            ) == sn,
            Err(e) => r matches Err(er) && er@ == e,
        },
{
    loop
        invariant
            encounter_operator_spec(
                cur_op,
                tokens_view(old(operators)@),
                nodes_view(old(operands)@),
            ) == encounter_operator_spec(cur_op, tokens_view(operators@), nodes_view(operands@)),
        ensures
            encounter_operator_spec(
                cur_op,
                tokens_view(old(operators)@),
                nodes_view(old(operands)@),
            ) == Ok::<(Seq<TokenV>, Seq<NodeV>), ErrorV>(
                (tokens_view(operators@).push(TokenV::Operator(cur_op)), nodes_view(operands@)),
            ),
        decreases operators@.len(),
    {
        let ghost ops_before = operators@;
        let top = match operators.pop() {
            Some(t) => t,
            None => {
                proof {
                    assert(tokens_view(operators@).len() == 0);
                    assert(tokens_view(operators@).push(TokenV::Operator(cur_op))
                        =~= seq![TokenV::Operator(cur_op)]);
                }
                break;
            },
        };
        proof {
            assert(operators@ =~= ops_before.drop_last());
            assert(tokens_view(operators@) =~= tokens_view(ops_before).drop_last());
        }
        match top {
            Token::Operator(op) => {
                let reduce = op.get_precedence() > cur_op.get_precedence() || (op.get_precedence()
                    == cur_op.get_precedence() && !cur_op.is_right_associative());
                if reduce {
                    match add_operator(op, operands) {
                        Ok(()) => (),
                        Err(e) => {
                            return Err(e);
                        },
                    }
                } else {
                    let ghost ops_now = operators@;
                    operators.push(Token::Operator(op));
                    proof {
                        assert(operators@ =~= ops_before);
                        assert(tokens_view(operators@) =~= tokens_view(ops_before));
                    }
                    break;
                }
            },
            _ => {
                let ghost ops_now = operators@;
                operators.push(top);
                proof {
                    assert(operators@ =~= ops_before);
                    assert(tokens_view(operators@) =~= tokens_view(ops_before));
                }
                break;
            },
        }
    }
    let ghost ops_now = operators@;
    operators.push(Token::Operator(cur_op));
    proof {
        assert(tokens_view(operators@) =~= tokens_view(ops_now).push(TokenV::Operator(cur_op)));
    }
    Ok(())
}

/// Builds the tree for a token list against the stacks, then drains them.
/// The single operand left is the root; none is an empty expression; more
/// than one, or a parenthesis or function still stacked, is malformed
/// input, reported as an empty expression.
pub fn parse_tokens<'a, F: Fn(Args) -> Result<Value, Error>>(
    tokens: TokenList,
    scope: &'a Scope<F>,
) -> (r: Result<Root<'a, F>, Error>)
    ensures
        match spec_parse(tokens_view(tokens@)) {
            Ok(nv) => r matches Ok(root) && node_view(root.node) == nv && root.scope == scope,
            Err(e) => r matches Err(er) && er@ == e,
        },
{
    let ghost tv = tokens_view(tokens@);
    let mut operators: TokenList = Vec::new();
    let mut operands: Vec<Node> = Vec::new();
    proof {
        assert(tokens_view(operators@) =~= Seq::<TokenV>::empty());
        assert(nodes_view(operands@) =~= Seq::<NodeV>::empty());
    }
    let n = tokens.len();
    let mut i: usize = 0;
    while i < n
        invariant
            n == tokens@.len(),
            0 <= i <= n,
            tv == tokens_view(tokens@),
            parse_tokens_spec(tv, 0, Seq::empty(), Seq::empty()) == parse_tokens_spec(
                tv,
                i as int,
                tokens_view(operators@),
                nodes_view(operands@),
            ),
        decreases n - i,
    {
        let ghost ops_v = tokens_view(operators@);
        let ghost opnds_v = nodes_view(operands@);
        proof {
            assert(tv[i as int] == tokens@[i as int]@);
        }
        match &tokens[i] {
            Token::Number(num) => {
                let node = Node::new(Token::Number(*num), None);
                let ghost before = operands@;
                operands.push(node);
                proof {
                    lemma_nodes_view_push(before, node);
                }
            },
            Token::Variable(name) => {
                let node = Node::new(Token::Variable(name.clone()), None);
                let ghost before = operands@;
                operands.push(node);
                proof {
                    lemma_nodes_view_push(before, node);
                }
            },
            Token::RightParenthesis => {
                match right_paren(&mut operators, &mut operands) {
                    Ok(()) => (),
                    Err(e) => {
                        return Err(e);
                    },
                }
            },
            Token::LeftParenthesis => {
                let ghost before = operators@;
                operators.push(Token::LeftParenthesis);
                proof {
                    assert(tokens_view(operators@) =~= tokens_view(before).push(
                        TokenV::LeftParenthesis,
                    ));
                }
            },
            Token::Operator(op) => {
                match encounter_operator(*op, &mut operators, &mut operands) {
                    Ok(()) => (),
                    Err(e) => {
                        return Err(e);
                    },
                }
            },
            Token::Function(func) => {
                let ghost before = operators@;
                operators.push(Token::Function(Function::new(func.name.clone())));
                proof {
                    assert(tokens_view(operators@) =~= tokens_view(before).push(
                        TokenV::Function(func.name@),
                    ));
                }
            },
            Token::Comma => {
                let node = Node::new(Token::Comma, None);
                let ghost before = operands@;
                operands.push(node);
                proof {
                    lemma_nodes_view_push(before, node);
                }
            },
        }
        i += 1;
    }
    let ghost dops = tokens_view(operators@);
    let ghost dnodes = nodes_view(operands@);
    loop
        invariant
            tv == tokens_view(tokens@),
            parse_tokens_spec(tv, 0, Seq::empty(), Seq::empty()) == Ok::<
                (Seq<TokenV>, Seq<NodeV>),
                ErrorV,
            >((dops, dnodes)),
            drain_spec(dops, dnodes) == drain_spec(
                tokens_view(operators@),
                nodes_view(operands@),
            ),
        ensures
            parse_tokens_spec(tv, 0, Seq::empty(), Seq::empty()) == Ok::<
                (Seq<TokenV>, Seq<NodeV>),
                ErrorV,
            >((dops, dnodes)),
            drain_spec(dops, dnodes) == Ok::<Seq<NodeV>, ErrorV>(nodes_view(operands@)),
        decreases operators@.len(),
    {
        let ghost ops_before = operators@;
        let top = match operators.pop() {
            Some(t) => t,
            None => {
                proof {
                    assert(tokens_view(operators@).len() == 0);
                }
                break;
            },
        };
        proof {
            assert(operators@ =~= ops_before.drop_last());
            assert(tokens_view(operators@) =~= tokens_view(ops_before).drop_last());
        }
        match top {
            Token::Operator(op) => {
                match add_operator(op, &mut operands) {
                    Ok(()) => (),
                    Err(e) => {
                        return Err(e);
                    },
                }
            },
            _ => {
                return Err(Error::EmptyExpression);
            },
        }
    }
    proof {
        lemma_nodes_view(operands@);
    }
    if operands.len() == 1 {
        let node = match operands.pop() {
            Some(nd) => nd,
            None => {
                return Err(Error::EmptyExpression);
            },
        };
        Ok(Root { node, scope })
    } else {
        Err(Error::EmptyExpression)
    }
}

/// What evaluating an expression text against a Scope settles: strip
/// whitespace, tokenize, parse, evaluate, the first failure winning; an
/// outcome decided by a caller-supplied function binding is the binding's
/// own.
pub open spec fn spec_eval_expr(s: Seq<char>, m: Map<Seq<char>, VariableV>) -> EvalOut {
    match spec_tokenize(strip_spaces(s), m) {
        Err(e) => EvalOut::Fail(e),
        Ok(ts) => match spec_parse(ts) {
            Err(e) => EvalOut::Fail(e),
            Ok(nv) => spec_eval(nv, m),
        },
    }
}

/// Parses and evaluates an expression in one call. Where the whole
/// expression is one call of a caller-supplied binding and its arguments
/// all evaluate, the result is one the binding itself admits on exactly
/// those values.
pub fn eval<F: Fn(Args) -> Result<Value, Error>>(expr: &str, scope: &Scope<F>) -> (r: Result<
    Value,
    Error,
>)
    ensures
        spec_eval_expr(expr@, scope@) matches EvalOut::Val(v) ==> r == Ok::<Value, Error>(v),
        spec_eval_expr(expr@, scope@) matches EvalOut::Fail(e) ==> (r matches Err(er) && er@ == e),
        spec_tokenize(strip_spaces(expr@), scope@) matches Ok(ts) ==> (spec_parse(ts) matches Ok(
            nv,
        ) ==> (nv.token matches TokenV::Function(name) ==> (nv.args matches Some(cs) ==> (
        spec_eval_children(cs, scope@) matches ChildrenOut::Vals(vs) ==> ((!is_builtin_fn(name)
            && scope@.contains_key(name) && scope@[name] is Function) ==> (scope.bindings()[name]
            matches Variable::Function(f) && exists|a: Args|
            a@ == vs && call_ensures(f, (a,), r))))))),
{
    let tokens = match tokenize(expr, scope) {
        Ok(ts) => ts,
        Err(e) => {
            return Err(e);
        },
    };
    let root = match parse_tokens(tokens, scope) {
        Ok(root) => root,
        Err(e) => {
            return Err(e);
        },
    };
    root.eval()
}

/// Compiles an expression once; the tree can then be evaluated against any
/// Scope. The given Scope serves the lexer's name splitting alone.
pub fn compile<'a, F: Fn(Args) -> Result<Value, Error>>(expr: &'a str, scope: &'a Scope<F>) -> (r:
    Result<Root<'a, F>, Error>)
    ensures
        match spec_tokenize(strip_spaces(expr@), scope@) {
            Err(e) => r matches Err(er) && er@ == e,
            Ok(ts) => match spec_parse(ts) {
                Err(e) => r matches Err(er) && er@ == e,
                Ok(nv) => r matches Ok(root) && node_view(root.node) == nv && root.scope == scope,
            },
        },
{
    let tokens = match tokenize(expr, scope) {
        Ok(ts) => ts,
        Err(e) => {
            return Err(e);
        },
    };
    parse_tokens(tokens, scope)
}

} // verus!
