use vstd::prelude::*;
use crate::error::ErrorV;
use crate::eval::{op_apply, spec_eval, spec_eval_children, ChildrenOut, EvalOut};
use crate::floatsem::{ieee_eq, is_nan_bits};
use crate::lexer::{
    is_digit_char, is_space_char, lemma_digit_run_end, lemma_strip_spaces_space_free,
    lemma_word_run_end, spec_parse_implicit, spec_tokenize, strip_spaces,
};
use crate::node::NodeV;
use crate::numerics::parsed_lit;
use crate::parser::{drain_spec, parse_tokens_spec, spec_eval_expr, spec_parse};
use crate::scope::VariableV;
use crate::tokens::{Operator, TokenV};
use crate::value::Value;

verus! {

// The laws this library states of itself, proved over the same spec
// functions its public contracts use.

/// Evaluating the text of a valid decimal literal yields exactly the
/// number the literal parses to, whatever the Scope holds: the lexer makes
/// one number token of it, the parser one leaf, the evaluator its value.
pub proof fn lemma_literal_evaluates_to_itself(
    s: Seq<char>,
    m: Map<Seq<char>, VariableV>,
    bits: u64,
)
    requires
        s.len() > 0,
        forall|k: int| 0 <= k < s.len() ==> is_digit_char(#[trigger] s[k]) || s[k] == '.',
        parsed_lit(s) == Some(bits),
    ensures
        spec_eval_expr(s, m) == EvalOut::Val(Value::Num(bits)),
{
    assert forall|k: int| 0 <= k < s.len() implies !is_space_char(#[trigger] s[k]) by {}
    lemma_strip_spaces_space_free(s);
    lemma_word_run_end(s, 0, s.len() as int);
    lemma_digit_run_end(s, 0, s.len() as int);
    assert(s.subrange(0, s.len() as int) =~= s);
    let acc2 = seq![TokenV::Number(bits), TokenV::Operator(Operator::Multiply)];
    assert(spec_parse_implicit(s, m, s.len() as int, s.len() as int, acc2) == Ok::<
        Seq<TokenV>,
        ErrorV,
    >(acc2));
    assert(Seq::<TokenV>::empty().push(TokenV::Number(bits)).push(
        TokenV::Operator(Operator::Multiply),
    ) =~= acc2);
    assert(spec_parse_implicit(s, m, 0, s.len() as int, Seq::<TokenV>::empty()) == Ok::<
        Seq<TokenV>,
        ErrorV,
    >(acc2));
    let ts = seq![TokenV::Number(bits)];
    assert(acc2.drop_last() =~= ts);
    assert(spec_tokenize(s, m) == Ok::<Seq<TokenV>, ErrorV>(ts));
    let leaf = NodeV { token: TokenV::Number(bits), args: None };
    assert(parse_tokens_spec(ts, 1, Seq::<TokenV>::empty(), seq![leaf]) == Ok::<
        (Seq<TokenV>, Seq<NodeV>),
        ErrorV,
    >((Seq::empty(), seq![leaf])));
    assert(Seq::<NodeV>::empty().push(leaf) =~= seq![leaf]);
    assert(parse_tokens_spec(ts, 0, Seq::<TokenV>::empty(), Seq::<NodeV>::empty()) == Ok::<
        (Seq<TokenV>, Seq<NodeV>),
        ErrorV,
    >((Seq::empty(), seq![leaf])));
    assert(drain_spec(Seq::<TokenV>::empty(), seq![leaf]) == Ok::<Seq<NodeV>, ErrorV>(
        seq![leaf],
    ));
    assert(spec_parse(ts) == Ok::<NodeV, ErrorV>(leaf));
    assert(spec_eval(leaf, m) == EvalOut::Val(Value::Num(bits)));
}

/// The leaf for the variable `x`.
pub open spec fn x_leaf() -> NodeV {
    NodeV { token: TokenV::Variable("x"@), args: None }
}

/// The tree of `x != x`.
pub open spec fn self_ne_tree() -> NodeV {
    NodeV {
        token: TokenV::Operator(Operator::IsNotEqualTo),
        args: Some(seq![x_leaf(), x_leaf()]),
    }
}

/// The tree of `!(x == x)`.
pub open spec fn negated_self_eq_tree() -> NodeV {
    NodeV {
        token: TokenV::Operator(Operator::Not),
        args: Some(
            seq![
                NodeV {
                    token: TokenV::Operator(Operator::IsEqualTo),
                    args: Some(seq![x_leaf(), x_leaf()]),
                },
            ],
        ),
    }
}

/// Comparing a number with itself commutes with negating its equality:
/// whatever number the Scope binds `x` to, the trees of `x != x` and of
/// `!(x == x)` evaluate to the same boolean, and that boolean is false for
/// every number but NaN.
pub proof fn lemma_self_comparison_round_trip(m: Map<Seq<char>, VariableV>, bits: u64)
    requires
        m.contains_key("x"@),
        m["x"@] == VariableV::Number(bits),
    ensures
        spec_eval(self_ne_tree(), m) == spec_eval(negated_self_eq_tree(), m),
        spec_eval(self_ne_tree(), m) == EvalOut::Val(Value::Bool(!ieee_eq(bits, bits))),
        !is_nan_bits(bits) ==> spec_eval(self_ne_tree(), m) == EvalOut::Val(Value::Bool(false)),
{
    reveal_strlit("x");
    reveal_strlit("PI");
    reveal_strlit("E");
    reveal_strlit("INFINITY");
    reveal_strlit("NEG_INFINITY");
    assert("x"@.len() == 1 && "PI"@.len() == 2 && "E"@.len() == 1 && "INFINITY"@.len() == 8
        && "NEG_INFINITY"@.len() == 12);
    assert("x"@[0] == 'x' && "E"@[0] == 'E');
    assert("x"@ != "PI"@ && "x"@ != "E"@ && "x"@ != "INFINITY"@ && "x"@ != "NEG_INFINITY"@);
    assert(spec_eval(x_leaf(), m) == EvalOut::Val(Value::Num(bits)));
    let pair = seq![x_leaf(), x_leaf()];
    assert(pair[0] == x_leaf() && pair[1] == x_leaf());
    assert(pair.drop_first() =~= seq![x_leaf()]);
    assert(seq![x_leaf()].drop_first() =~= Seq::<NodeV>::empty());
    assert(spec_eval_children(Seq::<NodeV>::empty(), m) == ChildrenOut::Vals(
        Seq::<Value>::empty(),
    ));
    assert(seq![Value::Num(bits)] + Seq::<Value>::empty() =~= seq![Value::Num(bits)]);
    assert(spec_eval_children(seq![x_leaf()], m) == ChildrenOut::Vals(
        seq![Value::Num(bits)],
    ));
    let vals = seq![Value::Num(bits), Value::Num(bits)];
    assert(seq![Value::Num(bits)] + seq![Value::Num(bits)] =~= vals);
    assert(spec_eval_children(pair, m) == ChildrenOut::Vals(vals));
    assert(op_apply(Operator::IsNotEqualTo, vals) == Ok::<Value, ErrorV>(
        Value::Bool(!ieee_eq(bits, bits)),
    ));
    assert(spec_eval(self_ne_tree(), m) == EvalOut::Val(Value::Bool(!ieee_eq(bits, bits))));
    let eq_node = NodeV { token: TokenV::Operator(Operator::IsEqualTo), args: Some(pair) };
    assert(spec_eval(eq_node, m) == EvalOut::Val(Value::Bool(ieee_eq(bits, bits))));
    let inner = seq![eq_node];
    assert(inner[0] == eq_node);
    assert(inner.drop_first() =~= Seq::<NodeV>::empty());
    assert(seq![Value::Bool(ieee_eq(bits, bits))] + Seq::<Value>::empty() =~= seq![
        Value::Bool(ieee_eq(bits, bits)),
    ]);
    assert(spec_eval_children(inner, m) == ChildrenOut::Vals(
        seq![Value::Bool(ieee_eq(bits, bits))],
    ));
    assert(spec_eval(negated_self_eq_tree(), m) == EvalOut::Val(
        Value::Bool(!ieee_eq(bits, bits)),
    ));
}

} // verus!
