//! Syntax nodes: tagged tree values produced by the parser.
//!
//! A node is a variant tag (with a variant-specific payload) plus an
//! ordered sequence of children that the node owns exclusively. Composite
//! variants carry a fixed, variant-specific child arity and ordering;
//! `add_child` is the only operation that changes tree shape, and it only
//! appends.

use vstd::prelude::*;

verus! {

/// The tag and payload of a syntax node.
#[derive(Debug)]
pub enum NodeKind {
    /// Sentinel: no payload; the kind of the value returned by failed
    /// lookups and of a freshly reset parse result.
    NoneNode,
    /// A 64-bit signed integer literal.
    Integer(i64),
    /// A bare symbol; the payload is its text, as bytes.
    Symbol(Vec<u8>),
    /// Composite: exactly two children, left and right operand
    /// (extension point, not populated by the minimal grammar).
    BinaryOperator,
    /// Composite: first child is the type node, second the symbol node.
    VariableDeclaration,
    /// Composite: like `VariableDeclaration`, plus an initializer value
    /// (extension point).
    VariableDeclarationInitialized,
    /// Composite: an ordered sequence of top-level forms.
    Program,
}

/// Mathematical model of a node kind.
pub enum NodeKindV {
    NoneNode,
    Integer(i64),
    Symbol(Seq<u8>),
    BinaryOperator,
    VariableDeclaration,
    VariableDeclarationInitialized,
    Program,
}

/// A syntax node: a tagged kind plus an ordered, exclusively owned
/// sequence of children (insertion order is sibling order).
#[derive(Debug)]
pub struct Node {
    pub kind: NodeKind,
    pub children: Vec<Node>,
}

/// Mathematical model of a node: the model of its kind plus the models
/// of its children, in order.
#[verifier::ext_equal]
pub struct NodeV {
    pub kind: NodeKindV,
    pub children: Seq<NodeV>,
}

impl View for NodeKind {
    type V = NodeKindV;

    open spec fn view(&self) -> NodeKindV {
        match self {
            NodeKind::NoneNode => NodeKindV::NoneNode,
            NodeKind::Integer(v) => NodeKindV::Integer(*v),
            NodeKind::Symbol(text) => NodeKindV::Symbol(text@),
            NodeKind::BinaryOperator => NodeKindV::BinaryOperator,
            NodeKind::VariableDeclaration => NodeKindV::VariableDeclaration,
            NodeKind::VariableDeclarationInitialized => NodeKindV::VariableDeclarationInitialized,
            NodeKind::Program => NodeKindV::Program,
        }
    }
}

/// The model of `n`: its kind's model plus the models of its children,
/// in order.
pub open spec fn node_view(n: Node) -> NodeV
    decreases n,
{
    NodeV {
        kind: n.kind@,
        children: Seq::new(
            n.children@.len(),
            |i: int|
                if 0 <= i < n.children@.len() {
                    node_view(n.children@[i])
                } else {
                    NodeV { kind: NodeKindV::NoneNode, children: Seq::empty() }
                },
        ),
    }
}

impl View for Node {
    type V = NodeV;

    open spec fn view(&self) -> NodeV {
        node_view(*self)
    }
}

/// The model of the sentinel node: `NoneNode` kind, no children.
pub open spec fn none_v() -> NodeV {
    NodeV { kind: NodeKindV::NoneNode, children: Seq::empty() }
}

/// Whether `k` is a leaf kind: the sentinel, an integer or a symbol.
pub open spec fn leaf_kind(k: NodeKindV) -> bool {
    match k {
        NodeKindV::NoneNode => true,
        NodeKindV::Integer(_) => true,
        NodeKindV::Symbol(_) => true,
        _ => false,
    }
}

/// The child arity each variant fixes: leaves take none, an operator or
/// a declaration exactly two (left and right; type node and symbol
/// node), an initialized declaration a third for the initializer, and a
/// program any ordered sequence of top-level forms.
pub open spec fn arity_ok(n: NodeV) -> bool {
    match n.kind {
        NodeKindV::NoneNode => n.children.len() == 0,
        NodeKindV::Integer(_) => n.children.len() == 0,
        NodeKindV::Symbol(_) => n.children.len() == 0,
        NodeKindV::BinaryOperator => n.children.len() == 2,
        NodeKindV::VariableDeclaration => n.children.len() == 2,
        NodeKindV::VariableDeclarationInitialized => n.children.len() == 3,
        NodeKindV::Program => true,
    }
}

/// Well-formedness of a tree: every node keeps its variant's child
/// arity.
pub open spec fn node_wf(n: NodeV) -> bool
    decreases n,
{
    arity_ok(n) && (forall|i: int|
        0 <= i < n.children.len() ==> #[trigger] node_wf(n.children[i]))
}

/// The model of a leaf holding kind `k`: no children.
pub open spec fn leaf_v(k: NodeKindV) -> NodeV {
    NodeV { kind: k, children: Seq::empty() }
}

impl Node {
    /// A fresh leaf node of the given kind: no children.
    pub fn leaf(kind: NodeKind) -> (n: Node)
        ensures
            n@ == leaf_v(kind@),
    {
        let ghost k = kind@;
        let n = Node { kind, children: Vec::new() };
        proof {
            assert(n@.children =~= leaf_v(k).children);
            assert(n@ == leaf_v(k));
        }
        n
    }

    /// The sentinel node: `NoneNode` kind, no children.
    pub fn none() -> (n: Node)
        ensures
            n@ == none_v(),
    {
        let n = Node { kind: NodeKind::NoneNode, children: Vec::new() };
        proof {
            assert(n@.children =~= none_v().children);
            assert(n@ == none_v());
        }
        n
    }

    /// A fresh integer literal node; always succeeds, no children.
    pub fn integer(value: i64) -> (n: Node)
        ensures
            n@ == leaf_v(NodeKindV::Integer(value)),
    {
        let n = Node { kind: NodeKind::Integer(value), children: Vec::new() };
        proof {
            assert(n@.children =~= leaf_v(NodeKindV::Integer(value)).children);
            assert(n@ == leaf_v(NodeKindV::Integer(value)));
        }
        n
    }

    /// A fresh symbol node holding `text`; always succeeds, no children.
    pub fn symbol(text: Vec<u8>) -> (n: Node)
        ensures
            n@ == leaf_v(NodeKindV::Symbol(text@)),
    {
        let ghost t = text@;
        let n = Node { kind: NodeKind::Symbol(text), children: Vec::new() };
        proof {
            assert(n@.children =~= leaf_v(NodeKindV::Symbol(t)).children);
            assert(n@ == leaf_v(NodeKindV::Symbol(t)));
        }
        n
    }
}

/// Whether `node` is the sentinel (`NoneNode`) variant.
pub fn nonep(node: &Node) -> (r: bool)
    ensures
        r == (node@.kind is NoneNode),
{
    matches!(node.kind, NodeKind::NoneNode)
}

/// Whether `node` is an integer literal.
pub fn integerp(node: &Node) -> (r: bool)
    ensures
        r == (node@.kind is Integer),
{
    matches!(node.kind, NodeKind::Integer(_))
}

/// Append `child` at the end of `parent`'s child sequence, preserving
/// the existing children and their order; ownership of `child` passes to
/// `parent`. This is the only mutation of tree shape.
pub fn add_child(parent: &mut Node, child: Node)
    ensures
        final(parent)@.kind == old(parent)@.kind,
        final(parent)@.children == old(parent)@.children.push(child@),
{
    let ghost c = child@;
    parent.children.push(child);
    proof {
        assert(final(parent)@.children =~= old(parent)@.children.push(c));
    }
}

/// Structural comparison of two node models: equal variant and equal
/// payload for the leaf variants; composite variants never compare equal
/// (deep equality over children is deliberately not defined).
pub open spec fn compare_spec(a: NodeV, b: NodeV) -> bool {
    match (a.kind, b.kind) {
        (NodeKindV::NoneNode, NodeKindV::NoneNode) => true,
        (NodeKindV::Integer(x), NodeKindV::Integer(y)) => x == y,
        (NodeKindV::Symbol(s), NodeKindV::Symbol(t)) => s == t,
        _ => false,
    }
}

/// Whether two byte strings hold the same bytes.
fn bytes_equal(a: &Vec<u8>, b: &Vec<u8>) -> (r: bool)
    ensures
        r == (a@ == b@),
{
    if a.len() != b.len() {
        return false;
    }
    let mut i: usize = 0;
    while i < a.len()
        invariant
            0 <= i <= a@.len(),
            a@.len() == b@.len(),
            forall|j: int| 0 <= j < i ==> a@[j] == b@[j],
        decreases a@.len() - i,
    {
        if a[i] != b[i] {
            return false;
        }
        i = i + 1;
    }
    proof {
        assert(a@ =~= b@);
    }
    true
}

/// Structural comparison: true iff both nodes have the same variant and
/// equal payload (integer value equality, symbol text equality); for two
/// sentinels, true; for any composite variant, false.
pub fn compare(a: &Node, b: &Node) -> (r: bool)
    ensures
        r == compare_spec(a@, b@),
{
    match (&a.kind, &b.kind) {
        (NodeKind::NoneNode, NodeKind::NoneNode) => true,
        (NodeKind::Integer(x), NodeKind::Integer(y)) => *x == *y,
        (NodeKind::Symbol(s), NodeKind::Symbol(t)) => bytes_equal(s, t),
        _ => false,
    }
}

} // verus!
