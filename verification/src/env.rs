//! Environments: ordered mappings from identifier nodes to value nodes.
//!
//! An environment holds an ordered sequence of bindings plus an optional
//! parent environment for lexical nesting. `environment_set` overwrites
//! the first binding whose identifier structurally compares equal to the
//! given one, or else prepends a new binding at the front.
//! `environment_get` returns the value of the first binding whose
//! identifier structurally compares equal to the given one. Lookup does
//! not walk the parent chain: the `parent` link is structurally present
//! but deliberately unconsulted, a documented limitation of this design.

use vstd::prelude::*;
use crate::node::{compare, compare_spec, nonep, Node, NodeV};

verus! {

/// One binding: an identifier node mapped to a value node.
#[derive(Debug)]
pub struct Binding {
    pub id: Node,
    pub value: Node,
}

/// Mathematical model of a binding.
#[verifier::ext_equal]
pub struct BindingV {
    pub id: NodeV,
    pub value: NodeV,
}

impl View for Binding {
    type V = BindingV;

    open spec fn view(&self) -> BindingV {
        BindingV { id: self.id@, value: self.value@ }
    }
}

/// An environment: an ordered binding list plus an optional parent.
#[derive(Debug)]
pub struct Environment {
    pub parent: Option<Box<Environment>>,
    pub bindings: Vec<Binding>,
}

impl View for Environment {
    type V = Seq<BindingV>;

    open spec fn view(&self) -> Seq<BindingV> {
        Seq::new(self.bindings@.len(), |i: int| self.bindings@[i]@)
    }
}

/// What `environment_set` reports: the `NoneNode`-to-`NoneNode` guard
/// refused the call, a new binding was created, or an existing binding's
/// value was overwritten.
#[derive(Clone, Copy, Debug, PartialEq, Eq, Structural)]
pub enum SetStatus {
    Failed,
    CreatedNew,
    OverwroteExisting,
}

/// The position of the first binding whose identifier structurally
/// compares equal to `id`, if any.
pub open spec fn first_match(bs: Seq<BindingV>, id: NodeV) -> Option<int>
    decreases bs.len(),
{
    if bs.len() == 0 {
        None
    } else if compare_spec(bs[0].id, id) {
        Some(0int)
    } else {
        match first_match(bs.drop_first(), id) {
            Some(i) => Some(i + 1),
            None => None,
        }
    }
}

/// The value `environment_get` yields from the binding list `bs`: the
/// value of the first binding whose identifier structurally compares
/// equal to `id`, or nothing.
pub open spec fn env_lookup(bs: Seq<BindingV>, id: NodeV) -> Option<NodeV> {
    match first_match(bs, id) {
        Some(i) => Some(bs[i].value),
        None => None,
    }
}

/// The binding list `environment_set` leaves behind: the first matching
/// binding overwritten in place, or a fresh binding prepended at the
/// front. (The guard case, binding the sentinel to the sentinel, leaves
/// the list unchanged and is handled at the call.)
pub open spec fn env_set_result(bs: Seq<BindingV>, id: NodeV, value: NodeV) -> Seq<BindingV> {
    match first_match(bs, id) {
        Some(i) => bs.update(i, BindingV { id: bs[i].id, value }),
        None => seq![BindingV { id, value }] + bs,
    }
}

/// How many bindings of `bs` have an identifier that structurally
/// compares equal to `id`.
pub open spec fn count_matches(bs: Seq<BindingV>, id: NodeV) -> nat
    decreases bs.len(),
{
    if bs.len() == 0 {
        0
    } else {
        (if compare_spec(bs[0].id, id) {
            1nat
        } else {
            0nat
        }) + count_matches(bs.drop_first(), id)
    }
}

/// A match found at `i` after a scan that saw no earlier match is the
/// first match.
pub proof fn lemma_first_match_at(bs: Seq<BindingV>, id: NodeV, i: int)
    requires
        0 <= i < bs.len(),
        compare_spec(bs[i].id, id),
        forall|j: int| 0 <= j < i ==> !compare_spec(bs[j].id, id),
    ensures
        first_match(bs, id) == Some(i),
    decreases i,
{
    if i > 0 {
        lemma_first_match_at(bs.drop_first(), id, i - 1);
    }
}

/// A scan that saw no match anywhere means there is no first match.
pub proof fn lemma_first_match_none(bs: Seq<BindingV>, id: NodeV)
    requires
        forall|j: int| 0 <= j < bs.len() ==> !compare_spec(bs[j].id, id),
    ensures
        first_match(bs, id) is None,
    decreases bs.len(),
{
    if bs.len() > 0 {
        lemma_first_match_none(bs.drop_first(), id);
    }
}

/// The first match lies in bounds, matches, and no earlier binding does.
pub proof fn lemma_first_match_properties(bs: Seq<BindingV>, id: NodeV)
    ensures
        match first_match(bs, id) {
            Some(i) => 0 <= i < bs.len() && compare_spec(bs[i].id, id) && (forall|j: int|
                0 <= j < i ==> !compare_spec(bs[j].id, id)),
            None => forall|j: int| 0 <= j < bs.len() ==> !compare_spec(bs[j].id, id),
        },
    decreases bs.len(),
{
    if bs.len() > 0 && !compare_spec(bs[0].id, id) {
        lemma_first_match_properties(bs.drop_first(), id);
        match first_match(bs.drop_first(), id) {
            Some(i2) => {
                assert forall|j: int| 0 <= j < i2 + 1 implies !compare_spec(bs[j].id, id) by {
                    if j > 0 {
                        assert(bs[j] == bs.drop_first()[j - 1]);
                    }
                }
            },
            None => {
                assert forall|j: int| 0 <= j < bs.len() implies !compare_spec(bs[j].id, id) by {
                    if j > 0 {
                        assert(bs[j] == bs.drop_first()[j - 1]);
                    }
                }
            },
        }
    }
}

/// Well-formedness of a binding list: no two bindings have identifiers
/// that structurally compare equal. Environments built from empty by
/// `environment_set` alone keep this by construction.
pub open spec fn well_formed(bs: Seq<BindingV>) -> bool {
    forall|i: int, j: int|
        0 <= i < j < bs.len() ==> !compare_spec(#[trigger] bs[i].id, #[trigger] bs[j].id)
}

/// Structural comparison is symmetric.
pub proof fn lemma_compare_symmetric(a: NodeV, b: NodeV)
    ensures
        compare_spec(a, b) == compare_spec(b, a),
{
}

/// Two nodes that structurally compare equal to the same node compare
/// equal to each other.
pub proof fn lemma_compare_euclidean(a: NodeV, b: NodeV, c: NodeV)
    requires
        compare_spec(a, c),
        compare_spec(b, c),
    ensures
        compare_spec(a, b),
{
}

/// A binding list has no match for `id` exactly when it counts no
/// matches for `id`.
pub proof fn lemma_count_matches_zero(bs: Seq<BindingV>, id: NodeV)
    ensures
        (count_matches(bs, id) == 0) <==> (first_match(bs, id) is None),
    decreases bs.len(),
{
    if bs.len() > 0 {
        lemma_count_matches_zero(bs.drop_first(), id);
    }
}

/// Overwriting one binding's value changes no match count: the counts
/// depend on the identifiers alone, which stay as they were.
proof fn lemma_count_matches_update(bs: Seq<BindingV>, i: int, v: NodeV, x: NodeV)
    requires
        0 <= i < bs.len(),
    ensures
        count_matches(bs.update(i, BindingV { id: bs[i].id, value: v }), x) == count_matches(
            bs,
            x,
        ),
    decreases bs.len(),
{
    let bs2 = bs.update(i, BindingV { id: bs[i].id, value: v });
    if i == 0 {
        assert(bs2.drop_first() =~= bs.drop_first());
    } else {
        let tail = bs.drop_first();
        lemma_count_matches_update(tail, i - 1, v, x);
        assert(bs2.drop_first() =~= tail.update(i - 1, BindingV { id: tail[i - 1].id, value: v }));
    }
}

/// Prepending a binding adds its own match, and nothing else, to every
/// count.
proof fn lemma_count_matches_prepend(b: BindingV, bs: Seq<BindingV>, x: NodeV)
    ensures
        count_matches(seq![b] + bs, x) == count_matches(bs, x) + (if compare_spec(b.id, x) {
            1nat
        } else {
            0nat
        }),
{
    let bs2 = seq![b] + bs;
    assert(bs2[0] == b);
    assert(bs2.drop_first() =~= bs);
}

/// A well-formed binding list counts at most one match for any
/// identifier.
pub proof fn lemma_well_formed_count(bs: Seq<BindingV>, id: NodeV)
    requires
        well_formed(bs),
    ensures
        count_matches(bs, id) <= 1,
    decreases bs.len(),
{
    if bs.len() > 0 {
        let tail = bs.drop_first();
        assert(forall|j: int| 0 <= j < tail.len() ==> tail[j] == bs[j + 1]);
        assert(well_formed(tail));
        lemma_well_formed_count(tail, id);
        if compare_spec(bs[0].id, id) {
            assert forall|j: int| 0 <= j < tail.len() implies !compare_spec(tail[j].id, id) by {
                if compare_spec(tail[j].id, id) {
                    lemma_compare_euclidean(bs[0].id, tail[j].id, id);
                    assert(compare_spec(bs[0].id, bs[j + 1].id));
                }
            }
            lemma_first_match_none(tail, id);
            lemma_count_matches_zero(tail, id);
        }
    }
}

/// `environment_set` keeps a binding list well-formed: an overwrite
/// leaves every identifier in place, and a fresh binding is prepended
/// only when no identifier in the list compares equal to it.
pub proof fn lemma_set_preserves_well_formed(bs: Seq<BindingV>, id: NodeV, value: NodeV)
    requires
        well_formed(bs),
    ensures
        well_formed(env_set_result(bs, id, value)),
{
    lemma_first_match_properties(bs, id);
    match first_match(bs, id) {
        Some(i) => {
            let bs2 = bs.update(i, BindingV { id: bs[i].id, value });
            assert(forall|k: int| 0 <= k < bs2.len() ==> bs2[k].id == bs[k].id);
        },
        None => {
            let bs2 = seq![BindingV { id, value }] + bs;
            assert forall|i: int, j: int| 0 <= i < j < bs2.len() implies !compare_spec(
                #[trigger] bs2[i].id,
                #[trigger] bs2[j].id,
            ) by {
                if i == 0 {
                    assert(bs2[j] == bs[j - 1]);
                    lemma_compare_symmetric(id, bs[j - 1].id);
                } else {
                    assert(bs2[i] == bs[i - 1]);
                    assert(bs2[j] == bs[j - 1]);
                }
            }
        },
    }
}

/// Binding `id` and then looking `id` up yields exactly the value just
/// bound, for any identifier that compares equal to itself (every
/// sentinel, integer or symbol identifier does; composite identifiers
/// compare equal to nothing, themselves included).
pub proof fn lemma_set_then_get(bs: Seq<BindingV>, id: NodeV, value: NodeV)
    requires
        compare_spec(id, id),
    ensures
        env_lookup(env_set_result(bs, id, value), id) == Some(value),
{
    lemma_first_match_properties(bs, id);
    match first_match(bs, id) {
        Some(i) => {
            let bs2 = bs.update(i, BindingV { id: bs[i].id, value });
            lemma_first_match_at(bs2, id, i);
        },
        None => {
            let bs2 = seq![BindingV { id, value }] + bs;
            lemma_first_match_at(bs2, id, 0);
        },
    }
}

/// Binding `id` twice over a well-formed list leaves exactly one
/// binding whose identifier compares equal to `id`, and it holds the
/// value bound last.
pub proof fn lemma_environment_overwrite(bs: Seq<BindingV>, id: NodeV, v1: NodeV, v2: NodeV)
    requires
        compare_spec(id, id),
        well_formed(bs),
    ensures
        ({
            let bs2 = env_set_result(env_set_result(bs, id, v1), id, v2);
            count_matches(bs2, id) == 1 && env_lookup(bs2, id) == Some(v2)
        }),
{
    let bs1 = env_set_result(bs, id, v1);
    let bs2 = env_set_result(bs1, id, v2);
    lemma_set_preserves_well_formed(bs, id, v1);
    lemma_set_then_get(bs, id, v1);
    lemma_set_then_get(bs1, id, v2);
    lemma_first_match_properties(bs, id);
    lemma_first_match_properties(bs1, id);
    lemma_well_formed_count(bs, id);
    lemma_well_formed_count(bs1, id);
    match first_match(bs1, id) {
        Some(i) => {
            lemma_count_matches_update(bs1, i, v2, id);
            lemma_count_matches_zero(bs1, id);
        },
        None => {
            lemma_count_matches_prepend(BindingV { id, value: v2 }, bs1, id);
            lemma_count_matches_zero(bs1, id);
        },
    }
}

impl Environment {
    /// A fresh environment: no bindings, no parent.
    pub fn new() -> (env: Environment)
        ensures
            env@ == Seq::<BindingV>::empty(),
            env.parent is None,
    {
        let env = Environment { parent: None, bindings: Vec::new() };
        proof {
            assert(env@ =~= Seq::<BindingV>::empty());
        }
        env
    }
}

/// Bind `id` to `value` in `env`.
///
/// Binding the sentinel to the sentinel is refused (a no-op guard).
/// Otherwise the first binding whose identifier structurally compares
/// equal to `id` has its value overwritten in place — order and
/// identifiers untouched, no duplicate created — and, when none does, a
/// fresh binding is prepended at the front. The status says which of the
/// three happened; the parent link never changes.
pub fn environment_set(env: &mut Environment, id: Node, value: Node) -> (status: SetStatus)
    ensures
        final(env).parent == old(env).parent,
        (id@.kind is NoneNode && value@.kind is NoneNode) ==> status == SetStatus::Failed
            && final(env)@ == old(env)@,
        !(id@.kind is NoneNode && value@.kind is NoneNode) ==> final(env)@ == env_set_result(
            old(env)@,
            id@,
            value@,
        ) && status == (if first_match(old(env)@, id@) is Some {
            SetStatus::OverwroteExisting
        } else {
            SetStatus::CreatedNew
        }),
{
    if nonep(&id) && nonep(&value) {
        return SetStatus::Failed;
    }
    let mut i: usize = 0;
    while i < env.bindings.len()
        invariant
            0 <= i <= env.bindings@.len(),
            *env == *old(env),
            !(id@.kind is NoneNode && value@.kind is NoneNode),
            forall|j: int| 0 <= j < i ==> !compare_spec(env@[j].id, id@),
        decreases env.bindings@.len() - i,
    {
        if compare(&env.bindings[i].id, &id) {
            proof {
                lemma_first_match_at(env@, id@, i as int);
            }
            env.bindings[i].value = value;
            proof {
                assert(final(env)@ =~= env_set_result(old(env)@, id@, value@));
            }
            return SetStatus::OverwroteExisting;
        }
        i = i + 1;
    }
    proof {
        lemma_first_match_none(env@, id@);
    }
    env.bindings.insert(0, Binding { id, value });
    proof {
        assert(final(env)@ =~= env_set_result(old(env)@, id@, value@));
    }
    SetStatus::CreatedNew
}

/// Look `id` up in `env`'s own bindings (the parent chain is not
/// consulted). Yields the value of the first binding whose identifier
/// structurally compares equal to `id`; on an empty environment, or when
/// nothing matches, reports not-found rather than any default value.
pub fn environment_get<'a>(env: &'a Environment, id: &Node) -> (r: Option<&'a Node>)
    ensures
        match r {
            Some(v) => env_lookup(env@, id@) == Some(v@),
            None => env_lookup(env@, id@) is None,
        },
{
    let mut i: usize = 0;
    while i < env.bindings.len()
        invariant
            0 <= i <= env.bindings@.len(),
            forall|j: int| 0 <= j < i ==> !compare_spec(env@[j].id, id@),
        decreases env.bindings@.len() - i,
    {
        if compare(&env.bindings[i].id, id) {
            proof {
                lemma_first_match_at(env@, id@, i as int);
            }
            return Some(&env.bindings[i].value);
        }
        i = i + 1;
    }
    proof {
        lemma_first_match_none(env@, id@);
    }
    None
}

} // verus!
