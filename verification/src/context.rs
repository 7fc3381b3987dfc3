//! The parsing context: the pair of environments that persists across
//! one parse invocation.
//!
//! `types` is the type-name registry and `variables` the variable scope.
//! Both are rooted with no parent (a flat, single-scope model). `types`
//! is pre-seeded with one binding: the symbol `integer` mapped to a
//! zero-valued integer node, used purely as a type-tag placeholder.

use vstd::prelude::*;
use crate::env::{environment_set, BindingV, Environment, SetStatus};
use crate::node::{leaf_v, Node, NodeKindV};

verus! {

/// The byte text of the pre-seeded type name, `integer`.
pub open spec fn integer_name() -> Seq<u8> {
    seq![105u8, 110u8, 116u8, 101u8, 103u8, 101u8, 114u8]
}

/// The model of the sole pre-seeded type binding: the symbol `integer`
/// mapped to a zero-valued integer node.
pub open spec fn integer_binding() -> BindingV {
    BindingV {
        id: leaf_v(NodeKindV::Symbol(integer_name())),
        value: leaf_v(NodeKindV::Integer(0)),
    }
}

/// The bytes of the type name `integer`.
pub fn integer_name_bytes() -> (v: Vec<u8>)
    ensures
        v@ == integer_name(),
{
    let mut v: Vec<u8> = Vec::new();
    v.push(105);
    v.push(110);
    v.push(116);
    v.push(101);
    v.push(103);
    v.push(101);
    v.push(114);
    proof {
        assert(v@ =~= integer_name());
    }
    v
}

/// The two environments the parser consults, owned exclusively by one
/// parse invocation.
pub struct ParsingContext {
    pub types: Environment,
    pub variables: Environment,
}

impl ParsingContext {
    /// Build the context: two fresh rootless environments, with `types`
    /// seeded by the `integer` binding. The seeding cannot fail: neither
    /// the identifier nor the value is the sentinel, so the set's no-op
    /// guard cannot trigger.
    pub fn create() -> (c: ParsingContext)
        ensures
            c.types@ == seq![integer_binding()],
            c.variables@ == Seq::<BindingV>::empty(),
            c.types.parent is None,
            c.variables.parent is None,
    {
        let mut types = Environment::new();
        let id = Node::symbol(integer_name_bytes());
        let value = Node::integer(0);
        let status = environment_set(&mut types, id, value);
        proof {
            assert(status == SetStatus::CreatedNew);
            assert(types@ =~= seq![integer_binding()]);
        }
        ParsingContext { types, variables: Environment::new() }
    }
}

} // verus!
