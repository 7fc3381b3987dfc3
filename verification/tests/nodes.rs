use minilang::node::{add_child, compare, integerp, nonep, Node, NodeKind};

#[test]
fn sentinel_node() {
    let n = Node::none();
    assert!(nonep(&n));
    assert!(!integerp(&n));
    assert_eq!(n.children.len(), 0);
}

#[test]
fn integer_node() {
    let n = Node::integer(420);
    assert!(integerp(&n));
    assert!(!nonep(&n));
    assert!(matches!(n.kind, NodeKind::Integer(420)));
    assert_eq!(n.children.len(), 0);
}

#[test]
fn symbol_node() {
    let n = Node::symbol(b"foo".to_vec());
    assert!(!nonep(&n));
    assert!(!integerp(&n));
    match &n.kind {
        NodeKind::Symbol(text) => assert_eq!(text, &b"foo".to_vec()),
        _ => panic!("expected a symbol node"),
    }
    assert_eq!(n.children.len(), 0);
}

#[test]
fn add_child_appends_in_order() {
    let mut parent = Node::leaf(NodeKind::Program);
    add_child(&mut parent, Node::integer(1));
    add_child(&mut parent, Node::symbol(b"x".to_vec()));
    add_child(&mut parent, Node::integer(3));
    assert_eq!(parent.children.len(), 3);
    assert!(matches!(parent.kind, NodeKind::Program));
    assert!(matches!(parent.children[0].kind, NodeKind::Integer(1)));
    assert!(matches!(parent.children[1].kind, NodeKind::Symbol(_)));
    assert!(matches!(parent.children[2].kind, NodeKind::Integer(3)));
}

#[test]
fn compare_sentinels() {
    assert!(compare(&Node::none(), &Node::none()));
}

#[test]
fn compare_integers() {
    assert!(compare(&Node::integer(3), &Node::integer(3)));
    assert!(!compare(&Node::integer(3), &Node::integer(4)));
}

#[test]
fn compare_symbols() {
    assert!(compare(&Node::symbol(b"a".to_vec()), &Node::symbol(b"a".to_vec())));
    assert!(!compare(&Node::symbol(b"a".to_vec()), &Node::symbol(b"b".to_vec())));
    assert!(!compare(&Node::symbol(b"a".to_vec()), &Node::symbol(b"ab".to_vec())));
}

#[test]
fn compare_mixed_variants() {
    assert!(!compare(&Node::none(), &Node::integer(0)));
    assert!(!compare(&Node::integer(0), &Node::symbol(b"0".to_vec())));
    assert!(!compare(&Node::symbol(b"".to_vec()), &Node::none()));
}

#[test]
fn compare_composites_is_false() {
    // Deep equality over composites is deliberately not defined: even
    // two identical declaration nodes do not compare equal.
    let a = Node::leaf(NodeKind::VariableDeclaration);
    let b = Node::leaf(NodeKind::VariableDeclaration);
    assert!(!compare(&a, &b));
    let p = Node::leaf(NodeKind::Program);
    assert!(!compare(&p, &p));
}
