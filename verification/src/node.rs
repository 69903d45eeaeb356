use vstd::prelude::*;
use crate::error::Error;
use crate::functions::Args;
use crate::scope::Scope;
use crate::tokens::{Token, TokenV};
use crate::value::Value;

verus! {

/// A tree node: a token and its ordered operands. Leaves (numbers,
/// variables) carry no operand list; an operator node carries exactly its
/// arity, a function node the call's arguments, left to right.
#[derive(Debug)]
pub struct Node {
    pub token: Token,
    pub args: Option<Vec<Node>>,
}

impl Node {
    pub fn new(token: Token, args: Option<Vec<Node>>) -> (n: Node)
        ensures
            n.token == token,
            n.args == args,
    {
        Node { token, args }
    }
}

/// The shape of a tree node: token views over child shapes.
pub struct NodeV {
    pub token: TokenV,
    pub args: Option<Seq<NodeV>>,
}

/// The shape of a node, children included.
pub open spec fn node_view(n: Node) -> NodeV
    decreases n,
{
    NodeV {
        token: n.token@,
        args: match n.args {
            Option::None => None,
            Option::Some(v) => Some(nodes_view(v@)),
        },
    }
}

/// The shapes of a node sequence, in order.
pub open spec fn nodes_view(s: Seq<Node>) -> Seq<NodeV>
    decreases s,
{
    if s.len() == 0 {
        Seq::empty()
    } else {
        seq![node_view(s[0])] + nodes_view(s.drop_first())
    }
}

/// The shape sequence matches the node sequence pointwise.
pub proof fn lemma_nodes_view(s: Seq<Node>)
    ensures
        nodes_view(s).len() == s.len(),
        forall|i: int| 0 <= i < s.len() ==> #[trigger] nodes_view(s)[i] == node_view(s[i]),
    decreases s.len(),
{
    if s.len() > 0 {
        lemma_nodes_view(s.drop_first());
        assert forall|i: int| 0 <= i < s.len() implies #[trigger] nodes_view(s)[i] == node_view(
            s[i],
        ) by {
            if i > 0 {
                assert(s.drop_first()[i - 1] == s[i]);
                assert(nodes_view(s.drop_first())[i - 1] == node_view(s.drop_first()[i - 1]));
            }
        }
    }
}

impl View for Node {
    type V = NodeV;

    open spec fn view(&self) -> NodeV {
        node_view(*self)
    }
}

/// A pushed node appends its shape.
pub proof fn lemma_nodes_view_push(s: Seq<Node>, x: Node)
    ensures
        nodes_view(s.push(x)) == nodes_view(s).push(node_view(x)),
{
    lemma_nodes_view(s.push(x));
    lemma_nodes_view(s);
    assert(nodes_view(s.push(x)) =~= nodes_view(s).push(node_view(x)));
}

/// A prepended node leads its shape.
pub proof fn lemma_nodes_view_prepend(s: Seq<Node>, x: Node)
    ensures
        nodes_view(s.insert(0, x)) == seq![node_view(x)] + nodes_view(s),
{
    lemma_nodes_view(s.insert(0, x));
    lemma_nodes_view(s);
    assert(nodes_view(s.insert(0, x)) =~= seq![node_view(x)] + nodes_view(s));
}

/// Taking a range commutes with taking shapes.
pub proof fn lemma_nodes_view_subrange(s: Seq<Node>, a: int, b: int)
    requires
        0 <= a <= b <= s.len(),
    ensures
        nodes_view(s.subrange(a, b)) == nodes_view(s).subrange(a, b),
{
    lemma_nodes_view(s.subrange(a, b));
    lemma_nodes_view(s);
    assert(nodes_view(s.subrange(a, b)) =~= nodes_view(s).subrange(a, b));
}

/// A compiled expression: the tree and the Scope it was compiled against.
/// Re-evaluating against another Scope uses only that other Scope.
pub struct Root<'a, F: Fn(Args) -> Result<Value, Error>> {
    pub node: Node,
    pub scope: &'a Scope<F>,
}

} // verus!
