//! The parser: drives the tokenizer, applies the grammar rules, builds
//! syntax nodes, and consults the parsing context to validate type
//! annotations.
//!
//! The grammar recognized is deliberately minimal: integer literals,
//! bare symbols, and `symbol : type` variable declarations whose type
//! name must resolve in the context's `types` environment. After an
//! integer literal one token of lookahead is consumed but not yet
//! interpreted — the anchor point for a future binary-operator check, an
//! extension point rather than a defect. Errors are returned, never
//! swallowed, and a failed parse discards the in-progress node: the
//! result is then the sentinel.

use vstd::prelude::*;
use vstd::slice::{slice_subrange, slice_to_vec};
use crate::context::ParsingContext;
use crate::env::{env_lookup, environment_get, BindingV};
use crate::error::{no_error_v, Error, ErrorType, ErrorV};
use crate::literal::{parse_integer, token_int};
use crate::node::{
    add_child, leaf_kind, leaf_v, node_wf, none_v, Node, NodeKind, NodeKindV, NodeV,
};
use crate::token::{lemma_lex_span_in_bounds, lex, lex_spec, span_of};

verus! {

/// What one parse call produces: the result node and the error state.
#[verifier::ext_equal]
pub struct ParseOutV {
    pub node: NodeV,
    pub err: ErrorV,
}

/// The model of a Type error: the message names the type that did not
/// resolve within the variable declaration.
pub open spec fn type_error_v(name: Seq<u8>) -> ErrorV {
    ErrorV { kind: ErrorType::Type, msg: Some(name) }
}

/// The model of a Syntax error: the message, when there is any text to
/// report, holds the unrecognized token.
pub open spec fn syntax_error_v(text: Option<Seq<u8>>) -> ErrorV {
    ErrorV { kind: ErrorType::Syntax, msg: text }
}

/// The variant tag a resolved type value hands to a declaration's type
/// node: only the tag carries over, payloads are zeroed.
pub open spec fn tag_of(k: NodeKindV) -> NodeKindV {
    match k {
        NodeKindV::Integer(_) => NodeKindV::Integer(0),
        NodeKindV::Symbol(_) => NodeKindV::Symbol(Seq::empty()),
        other => other,
    }
}

/// The declaration node built for `symbol : type`: the first child is
/// the type node, the second the symbol node.
pub open spec fn decl_v(ty: NodeV, sym: NodeV) -> NodeV {
    NodeV { kind: NodeKindV::VariableDeclaration, children: seq![ty, sym] }
}

/// The outcome of parsing from cursor `pos`, with `acc` the working
/// result produced so far.
///
/// One token is lexed. At end of input the working result stands with no
/// error. An integer literal becomes the working result, one token of
/// lookahead is consumed, and parsing continues. Any other token becomes
/// a symbol; then: end of input returns the symbol; a `:` token starts a
/// declaration, whose type name must resolve in `types` (a missing type
/// name is a Syntax error, an unresolved one a Type error naming it);
/// any other token is an unrecognized construct, a Syntax error holding
/// its text. A declaration returns immediately, even if tokens remain.
pub open spec fn parse_from(types: Seq<BindingV>, src: Seq<u8>, pos: int, acc: NodeV) -> ParseOutV
    decreases src.len() - pos
        when 0 <= pos <= src.len()
{
    match lex_spec(src, pos) {
        None => ParseOutV { node: acc, err: no_error_v() },
        Some((beg, end)) => {
            let t = src.subrange(beg, end);
            match token_int(t) {
                Some(v) => {
                    let intn = leaf_v(NodeKindV::Integer(v));
                    match lex_spec(src, end) {
                        None => ParseOutV { node: intn, err: no_error_v() },
                        Some((b2, e2)) => {
                            proof {
                                lemma_lex_span_in_bounds(src, pos);
                                lemma_lex_span_in_bounds(src, end);
                            }
                            parse_from(types, src, e2, intn)
                        },
                    }
                },
                None => {
                    let symn = leaf_v(NodeKindV::Symbol(t));
                    match lex_spec(src, end) {
                        None => ParseOutV { node: symn, err: no_error_v() },
                        Some((b2, e2)) => {
                            let t2 = src.subrange(b2, e2);
                            if t2.len() == 1 && t2[0] == 58 {
                                match lex_spec(src, e2) {
                                    None => ParseOutV {
                                        node: none_v(),
                                        err: syntax_error_v(None),
                                    },
                                    Some((b3, e3)) => {
                                        let t3 = src.subrange(b3, e3);
                                        match env_lookup(
                                            types,
                                            leaf_v(NodeKindV::Symbol(t3)),
                                        ) {
                                            Some(tyv) => ParseOutV {
                                                node: decl_v(leaf_v(tag_of(tyv.kind)), symn),
                                                err: no_error_v(),
                                            },
                                            None => ParseOutV {
                                                node: none_v(),
                                                err: type_error_v(t3),
                                            },
                                        }
                                    },
                                }
                            } else {
                                ParseOutV { node: none_v(), err: syntax_error_v(Some(t2)) }
                            }
                        },
                    }
                },
            }
        },
    }
}

/// Whether every type value an environment can resolve is leaf-tagged —
/// the shape the seeded context uses for its type-tag placeholders.
pub open spec fn types_leaf_tagged(types: Seq<BindingV>) -> bool {
    forall|i: int| 0 <= i < types.len() ==> leaf_kind((#[trigger] types[i]).value.kind)
}

/// Every tree the parse loop can yield keeps each variant's child
/// arity, as long as the working result does and the type environment
/// resolves only leaf-tagged values: the parser builds nothing but
/// leaves and two-child declarations.
pub proof fn lemma_parse_from_wf(types: Seq<BindingV>, src: Seq<u8>, pos: int, acc: NodeV)
    requires
        0 <= pos <= src.len(),
        node_wf(acc),
        types_leaf_tagged(types),
    ensures
        node_wf(parse_from(types, src, pos, acc).node),
    decreases src.len() - pos,
{
    match lex_spec(src, pos) {
        None => {},
        Some((beg, end)) => {
            lemma_lex_span_in_bounds(src, pos);
            let t = src.subrange(beg, end);
            match token_int(t) {
                Some(v) => {
                    let intn = leaf_v(NodeKindV::Integer(v));
                    assert(node_wf(intn));
                    match lex_spec(src, end) {
                        None => {},
                        Some((b2, e2)) => {
                            lemma_lex_span_in_bounds(src, end);
                            lemma_parse_from_wf(types, src, e2, intn);
                        },
                    }
                },
                None => {
                    let symn = leaf_v(NodeKindV::Symbol(t));
                    assert(node_wf(symn));
                    assert(node_wf(none_v()));
                    match lex_spec(src, end) {
                        None => {},
                        Some((b2, e2)) => {
                            let t2 = src.subrange(b2, e2);
                            if t2.len() == 1 && t2[0] == 58 {
                                match lex_spec(src, e2) {
                                    None => {},
                                    Some((b3, e3)) => {
                                        let t3 = src.subrange(b3, e3);
                                        let id = leaf_v(NodeKindV::Symbol(t3));
                                        crate::env::lemma_first_match_properties(types, id);
                                        match env_lookup(types, id) {
                                            Some(tyv) => {
                                                let tyn = leaf_v(tag_of(tyv.kind));
                                                assert(leaf_kind(tyv.kind));
                                                assert(node_wf(tyn));
                                                let decl = decl_v(tyn, symn);
                                                assert(decl.children[0] == tyn);
                                                assert(decl.children[1] == symn);
                                                assert(node_wf(decl));
                                            },
                                            None => {},
                                        }
                                    },
                                }
                            }
                        },
                    }
                },
            }
        },
    }
}

/// Every tree one whole parse yields over such a type environment is
/// well-formed.
pub proof fn lemma_parse_result_well_formed(types: Seq<BindingV>, src: Seq<u8>)
    requires
        types_leaf_tagged(types),
    ensures
        node_wf(parse_from(types, src, 0, none_v()).node),
{
    assert(node_wf(none_v()));
    lemma_parse_from_wf(types, src, 0, none_v());
}

/// The seeded context's type values are all leaf-tagged.
pub proof fn lemma_context_types_leaf_tagged()
    ensures
        types_leaf_tagged(seq![crate::context::integer_binding()]),
{
}

/// A fresh node carrying the variant tag of the resolved type value
/// `node`: payload zeroed, no children taken over.
pub fn type_tag(node: &Node) -> (n: Node)
    ensures
        n@ == leaf_v(tag_of(node@.kind)),
{
    match &node.kind {
        NodeKind::NoneNode => Node::leaf(NodeKind::NoneNode),
        NodeKind::Integer(_) => Node::leaf(NodeKind::Integer(0)),
        NodeKind::Symbol(_) => Node::leaf(NodeKind::Symbol(Vec::new())),
        NodeKind::BinaryOperator => Node::leaf(NodeKind::BinaryOperator),
        NodeKind::VariableDeclaration => Node::leaf(NodeKind::VariableDeclaration),
        NodeKind::VariableDeclarationInitialized => Node::leaf(
            NodeKind::VariableDeclarationInitialized,
        ),
        NodeKind::Program => Node::leaf(NodeKind::Program),
    }
}

/// Lex at a cursor that lies within the buffer: such a call cannot fail
/// with an Arguments error.
fn lex_at(source: &[u8], start: usize) -> (r: Option<(usize, usize)>)
    requires
        start <= source@.len(),
    ensures
        span_of(r) == lex_spec(source@, start as int),
{
    match lex(source, start) {
        Ok(sp) => sp,
        Err(_) => {
            proof {
                assert(false);
            }
            None
        },
    }
}

/// Parse one expression from `source`, consulting `context`'s `types`
/// environment to validate declarations.
///
/// The result node is written through `result` and the error state is
/// returned; both are exactly what `parse_from` says for this buffer
/// from cursor zero, starting from the sentinel as working result. On
/// any error the in-progress node is discarded and the result is the
/// sentinel.
pub fn parse_expr(context: &ParsingContext, source: &[u8], result: &mut Node) -> (err: Error)
    ensures
        ({
            let out = parse_from(context.types@, source@, 0, none_v());
            final(result)@ == out.node && err@ == out.err
        }),
{
    let mut pos: usize = 0;
    let mut acc = Node::none();
    loop
        invariant
            0 <= pos <= source@.len(),
            parse_from(context.types@, source@, pos as int, acc@) == parse_from(
                context.types@,
                source@,
                0,
                none_v(),
            ),
        decreases source@.len() - pos,
    {
        match lex_at(source, pos) {
            None => {
                *result = acc;
                return Error::none();
            },
            Some((beg, end)) => {
                proof {
                    lemma_lex_span_in_bounds(source@, pos as int);
                }
                let tok = slice_subrange(source, beg, end);
                match parse_integer(tok) {
                    Some(v) => {
                        let intn = Node::integer(v);
                        match lex_at(source, end) {
                            None => {
                                *result = intn;
                                return Error::none();
                            },
                            Some((_, e2)) => {
                                proof {
                                    lemma_lex_span_in_bounds(source@, end as int);
                                }
                                acc = intn;
                                pos = e2;
                            },
                        }
                    },
                    None => {
                        let sym = Node::symbol(slice_to_vec(tok));
                        match lex_at(source, end) {
                            None => {
                                *result = sym;
                                return Error::none();
                            },
                            Some((b2, e2)) => {
                                proof {
                                    lemma_lex_span_in_bounds(source@, end as int);
                                }
                                if e2 - b2 == 1 && source[b2] == 58 {
                                    match lex_at(source, e2) {
                                        None => {
                                            *result = Node::none();
                                            return Error { kind: ErrorType::Syntax, msg: None };
                                        },
                                        Some((b3, e3)) => {
                                            proof {
                                                lemma_lex_span_in_bounds(source@, e2 as int);
                                            }
                                            let ty_id = Node::symbol(
                                                slice_to_vec(slice_subrange(source, b3, e3)),
                                            );
                                            match environment_get(&context.types, &ty_id) {
                                                Some(tyval) => {
                                                    let tynode = type_tag(tyval);
                                                    let ghost tyv = tynode@;
                                                    let ghost symv = sym@;
                                                    let mut decl = Node::leaf(
                                                        NodeKind::VariableDeclaration,
                                                    );
                                                    add_child(&mut decl, tynode);
                                                    add_child(&mut decl, sym);
                                                    proof {
                                                        assert(decl@.children =~= seq![tyv, symv]);
                                                        assert(decl@ == decl_v(tyv, symv));
                                                    }
                                                    *result = decl;
                                                    return Error::none();
                                                },
                                                None => {
                                                    *result = Node::none();
                                                    return Error {
                                                        kind: ErrorType::Type,
                                                        msg: Some(
                                                            slice_to_vec(
                                                                slice_subrange(source, b3, e3),
                                                            ),
                                                        ),
                                                    };
                                                },
                                            }
                                        },
                                    }
                                } else {
                                    *result = Node::none();
                                    return Error {
                                        kind: ErrorType::Syntax,
                                        msg: Some(slice_to_vec(slice_subrange(source, b2, e2))),
                                    };
                                }
                            },
                        }
                    },
                }
            },
        }
    }
}

} // verus!
