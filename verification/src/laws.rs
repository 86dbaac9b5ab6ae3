//! What holds of the node graph across its functions and over all inputs.

use std::cmp::Ordering;
use vstd::prelude::*;

use crate::item::{field_ids_of, item_has_field, item_has_variant, variant_ids_of};
use crate::model::{GenericArgV, GenericArgsV, Id, ItemV, PathV, TypeV};
use crate::node::{
    args_mention, arg_list_mentions, first_usable, is_of_type_spec, is_skipped, node_edges,
    node_order, path_mentions, pick_nodes, renamed_to, reversed, same_module, serialized_name,
    type_mentions, types_mention, usable_for, GlobalIdV, ItemNodeV, NodeV, SummaryNodeV,
    SERDE_RENAME,
};
use crate::command::Command;
use crate::pattern::regex_first_group;
use crate::request::{accepts_answer, kind_after_answer, ResolveKind};

verus! {

// ---------------------------------------------------------------------------
// The order of nodes
// ---------------------------------------------------------------------------

/// Every node compares equal to itself.
pub proof fn node_order_reflexive(a: NodeV)
    ensures
        node_order(a, a) == Ordering::Equal,
{
}

/// Swapping the two nodes reverses how they compare.
pub proof fn node_order_antisymmetric(a: NodeV, b: NodeV)
    ensures
        node_order(b, a) == reversed(node_order(a, b)),
{
}

/// The order of nodes is transitive: `a <= b <= c` gives `a <= c`, and it
/// gives `a < c` when one of the two steps is strict.
pub proof fn node_order_transitive(a: NodeV, b: NodeV, c: NodeV)
    ensures
        node_order(a, b) != Ordering::Greater && node_order(b, c) != Ordering::Greater
            ==> node_order(a, c) != Ordering::Greater,
        (node_order(a, b) == Ordering::Less && node_order(b, c) != Ordering::Greater) || (
        node_order(a, b) != Ordering::Greater && node_order(b, c) == Ordering::Less)
            ==> node_order(a, c) == Ordering::Less,
{
}

/// Every summary node comes before every item node.
pub proof fn summaries_before_items(s: SummaryNodeV, i: ItemNodeV)
    ensures
        node_order(NodeV::Summary(s), NodeV::Item(i)) == Ordering::Less,
        node_order(NodeV::Item(i), NodeV::Summary(s)) == Ordering::Greater,
{
}

// ---------------------------------------------------------------------------
// Modules
// ---------------------------------------------------------------------------

/// "In the same module" is an equivalence on non-empty paths: every item is
/// in its own module, the relation is symmetric, and it is transitive.
pub proof fn same_module_is_an_equivalence(a: Seq<Seq<char>>, b: Seq<Seq<char>>, c: Seq<Seq<char>>)
    ensures
        a.len() > 0 ==> same_module(a, a),
        same_module(a, b) ==> same_module(b, a),
        same_module(a, b) && same_module(b, c) ==> same_module(a, c),
{
}

// ---------------------------------------------------------------------------
// Edges
// ---------------------------------------------------------------------------

/// Every edge of an item node leads to an item of the node's own crate.
pub proof fn edges_stay_in_crate(node: ItemNodeV)
    ensures
        forall|k: int|
            0 <= k < node_edges(node).len() ==> (#[trigger] node_edges(node)[k]).0.crate_
                == node.id.crate_,
{
}

// ---------------------------------------------------------------------------
// Fields and variants
// ---------------------------------------------------------------------------

proof fn first_usable_facts(id: Id, cands: Seq<ItemNodeV>)
    ensures
        first_usable(id, cands) matches Some(c) ==> usable_for(id, c) && cands.contains(c),
        (exists|j: int| 0 <= j < cands.len() && usable_for(id, #[trigger] cands[j])) ==> first_usable(
            id,
            cands,
        ) is Some,
    decreases cands.len(),
{
    if cands.len() > 0 {
        first_usable_facts(id, cands.drop_first());
        if let Some(c) = first_usable(id, cands.drop_first()) {
            if !usable_for(id, cands[0]) {
                let j = choose|j: int| 0 <= j < cands.drop_first().len() && cands.drop_first()[j] == c;
                assert(cands[j + 1] == c);
            }
        }
        if exists|j: int| 0 <= j < cands.len() && usable_for(id, #[trigger] cands[j]) {
            let j = choose|j: int| 0 <= j < cands.len() && usable_for(id, #[trigger] cands[j]);
            if j > 0 {
                assert(usable_for(id, cands.drop_first()[j - 1]));
            }
        }
    }
}

proof fn pick_nodes_sound(ids: Seq<Id>, cands: Seq<ItemNodeV>)
    ensures
        pick_nodes(ids, cands).len() <= ids.len(),
        forall|k: int|
            0 <= k < pick_nodes(ids, cands).len() ==> {
                let n = #[trigger] pick_nodes(ids, cands)[k];
                &&& !is_skipped(n.item)
                &&& ids.contains(n.item.id)
                &&& cands.contains(n)
            },
    decreases ids.len(),
{
    if ids.len() > 0 {
        pick_nodes_sound(ids.drop_last(), cands);
        first_usable_facts(ids.last(), cands);
        let prev = pick_nodes(ids.drop_last(), cands);
        assert forall|k: int| 0 <= k < pick_nodes(ids, cands).len() implies {
            let n = #[trigger] pick_nodes(ids, cands)[k];
            &&& !is_skipped(n.item)
            &&& ids.contains(n.item.id)
            &&& cands.contains(n)
        } by {
            let n = pick_nodes(ids, cands)[k];
            if k < prev.len() {
                assert(n == prev[k]);
                let j = choose|j: int| 0 <= j < ids.drop_last().len() && ids.drop_last()[j] == n.item.id;
                assert(ids[j] == n.item.id);
            } else {
                assert(ids[ids.len() - 1] == n.item.id);
            }
        }
    }
}

proof fn pick_nodes_complete(ids: Seq<Id>, cands: Seq<ItemNodeV>, c: ItemNodeV)
    requires
        cands.contains(c),
        !is_skipped(c.item),
        ids.contains(c.item.id),
    ensures
        exists|k: int|
            0 <= k < pick_nodes(ids, cands).len() && (#[trigger] pick_nodes(ids, cands)[k]).item.id
                == c.item.id,
    decreases ids.len(),
{
    let j = choose|j: int| 0 <= j < cands.len() && cands[j] == c;
    assert(usable_for(c.item.id, cands[j]));
    let prev = pick_nodes(ids.drop_last(), cands);
    if ids.last() == c.item.id {
        first_usable_facts(ids.last(), cands);
        let k = pick_nodes(ids, cands).len() - 1;
        assert(pick_nodes(ids, cands)[k].item.id == c.item.id);
    } else {
        let i = choose|i: int| 0 <= i < ids.len() && ids[i] == c.item.id;
        assert(ids.drop_last()[i] == c.item.id);
        pick_nodes_complete(ids.drop_last(), cands, c);
        let k = choose|k: int| 0 <= k < prev.len() && (#[trigger] prev[k]).item.id == c.item.id;
        assert(pick_nodes(ids, cands)[k] == prev[k]);
    }
}

/// What `fields` returns is made of fields of the item: each returned node
/// is one of the candidates, serde does not skip it, and it is a field of
/// the item (so `has_field` holds of it when it is of the item's crate). It
/// returns at most one node per field.
pub proof fn fields_are_fields(node: ItemNodeV, cands: Seq<ItemNodeV>)
    ensures
        pick_nodes(field_ids_of(node.item), cands).len() <= field_ids_of(node.item).len(),
        forall|k: int|
            0 <= k < pick_nodes(field_ids_of(node.item), cands).len() ==> {
                let f = #[trigger] pick_nodes(field_ids_of(node.item), cands)[k];
                &&& cands.contains(f)
                &&& !is_skipped(f.item)
                &&& item_has_field(node.item, f.item)
            },
{
    pick_nodes_sound(field_ids_of(node.item), cands);
}

/// Every candidate that is a field of the item and that serde does not skip
/// is represented in what `fields` returns, by a node with its id.
pub proof fn fields_miss_no_field(node: ItemNodeV, cands: Seq<ItemNodeV>, c: ItemNodeV)
    requires
        cands.contains(c),
        !is_skipped(c.item),
        item_has_field(node.item, c.item),
    ensures
        exists|k: int|
            0 <= k < pick_nodes(field_ids_of(node.item), cands).len() && (#[trigger] pick_nodes(
                field_ids_of(node.item),
                cands,
            )[k]).item.id == c.item.id,
{
    pick_nodes_complete(field_ids_of(node.item), cands, c);
}

/// What `variants` returns is made of variants of the item: each returned
/// node is one of the candidates, serde does not skip it, and it is a
/// variant of the item (so `has_variant` holds of it when it is of the
/// item's crate). It returns at most one node per variant.
pub proof fn variants_are_variants(node: ItemNodeV, cands: Seq<ItemNodeV>)
    ensures
        pick_nodes(variant_ids_of(node.item), cands).len() <= variant_ids_of(node.item).len(),
        forall|k: int|
            0 <= k < pick_nodes(variant_ids_of(node.item), cands).len() ==> {
                let v = #[trigger] pick_nodes(variant_ids_of(node.item), cands)[k];
                &&& cands.contains(v)
                &&& !is_skipped(v.item)
                &&& item_has_variant(node.item, v.item)
            },
{
    pick_nodes_sound(variant_ids_of(node.item), cands);
}

/// Every candidate that is a variant of the item and that serde does not
/// skip is represented in what `variants` returns, by a node with its id.
pub proof fn variants_miss_no_variant(node: ItemNodeV, cands: Seq<ItemNodeV>, c: ItemNodeV)
    requires
        cands.contains(c),
        !is_skipped(c.item),
        item_has_variant(node.item, c.item),
    ensures
        exists|k: int|
            0 <= k < pick_nodes(variant_ids_of(node.item), cands).len() && (#[trigger] pick_nodes(
                variant_ids_of(node.item),
                cands,
            )[k]).item.id == c.item.id,
{
    pick_nodes_complete(variant_ids_of(node.item), cands, c);
}

/// No two candidates have the same item id.
pub open spec fn distinct_ids(s: Seq<ItemNodeV>) -> bool {
    forall|i: int, j: int|
        0 <= i < s.len() && 0 <= j < s.len() && i != j ==> (#[trigger] s[i]).item.id != (
        #[trigger] s[j]).item.id
}

/// Two lists of candidates with the same members, no two of which share an
/// id, give the same first usable candidate for every id.
proof fn first_usable_ignores_order(id: Id, a: Seq<ItemNodeV>, b: Seq<ItemNodeV>)
    requires
        distinct_ids(a),
        forall|x: ItemNodeV| a.contains(x) <==> b.contains(x),
    ensures
        first_usable(id, a) == first_usable(id, b),
{
    first_usable_facts(id, a);
    first_usable_facts(id, b);
    match (first_usable(id, a), first_usable(id, b)) {
        (Some(c1), Some(c2)) => {
            assert(a.contains(c2));
            let i = choose|i: int| 0 <= i < a.len() && a[i] == c1;
            let j = choose|j: int| 0 <= j < a.len() && a[j] == c2;
            if i != j {
                assert(a[i].item.id != a[j].item.id);
            }
        },
        (Some(c1), None) => {
            assert(b.contains(c1));
            let j = choose|j: int| 0 <= j < b.len() && b[j] == c1;
            assert(usable_for(id, b[j]));
        },
        (None, Some(c2)) => {
            assert(a.contains(c2));
            let j = choose|j: int| 0 <= j < a.len() && a[j] == c2;
            assert(usable_for(id, a[j]));
        },
        (None, None) => {},
    }
}

/// `pick_nodes` does not depend on the order of candidates whose ids are
/// distinct.
proof fn pick_nodes_ignores_order(ids: Seq<Id>, a: Seq<ItemNodeV>, b: Seq<ItemNodeV>)
    requires
        distinct_ids(a),
        forall|x: ItemNodeV| a.contains(x) <==> b.contains(x),
    ensures
        pick_nodes(ids, a) == pick_nodes(ids, b),
    decreases ids.len(),
{
    if ids.len() > 0 {
        pick_nodes_ignores_order(ids.drop_last(), a, b);
        first_usable_ignores_order(ids.last(), a, b);
    }
}

/// A reordering of a list has the same members.
proof fn reordering_keeps_members(a: Seq<ItemNodeV>, b: Seq<ItemNodeV>)
    requires
        b.to_multiset() == a.to_multiset(),
    ensures
        forall|x: ItemNodeV| a.contains(x) <==> b.contains(x),
{
    a.to_multiset_ensures();
    b.to_multiset_ensures();
    assert forall|x: ItemNodeV| a.contains(x) <==> b.contains(x) by {
        assert(a.contains(x) <==> a.to_multiset().count(x) > 0);
        assert(b.contains(x) <==> b.to_multiset().count(x) > 0);
    }
}

/// When no two candidates share an id, `fields` gives the same nodes, in
/// the same order (that of the item's fields), whatever the order of the
/// candidates.
pub proof fn fields_ignore_candidate_order(
    node: ItemNodeV,
    cands: Seq<ItemNodeV>,
    reordered: Seq<ItemNodeV>,
)
    requires
        distinct_ids(cands),
        reordered.to_multiset() == cands.to_multiset(),
    ensures
        pick_nodes(field_ids_of(node.item), reordered) == pick_nodes(field_ids_of(node.item), cands),
{
    reordering_keeps_members(cands, reordered);
    pick_nodes_ignores_order(field_ids_of(node.item), cands, reordered);
}

/// When no two candidates share an id, `variants` gives the same nodes, in
/// the same order (that of the item's variants), whatever the order of the
/// candidates.
pub proof fn variants_ignore_candidate_order(
    node: ItemNodeV,
    cands: Seq<ItemNodeV>,
    reordered: Seq<ItemNodeV>,
)
    requires
        distinct_ids(cands),
        reordered.to_multiset() == cands.to_multiset(),
    ensures
        pick_nodes(variant_ids_of(node.item), reordered) == pick_nodes(
            variant_ids_of(node.item),
            cands,
        ),
{
    reordering_keeps_members(cands, reordered);
    pick_nodes_ignores_order(variant_ids_of(node.item), cands, reordered);
}

// ---------------------------------------------------------------------------
// Types
// ---------------------------------------------------------------------------

/// Whether a type mentions a node depends on the node's id alone, not on
/// its crate: two ids with the same number give the same answer.
pub proof fn mention_reads_only_the_id(g1: GlobalIdV, g2: GlobalIdV, t: TypeV, is_remote: bool)
    requires
        g1.id == g2.id,
    ensures
        type_mentions(g1.id, t, is_remote) == type_mentions(g2.id, t, is_remote),
{
}

/// A type looked at as a type of another crate mentions an item only where
/// it mentions it looked at as a local type: leaving `Option`, `String`,
/// `Vec` and `std::ops::Range` unread can only turn a match into no match.
pub proof fn remote_mention_is_local_mention(target: u32, t: TypeV)
    ensures
        type_mentions(target, t, true) ==> type_mentions(target, t, false),
    decreases t,
{
    match t {
        TypeV::ResolvedPath(p) => path_remote_to_local(target, p),
        TypeV::QualifiedPath { self_type, args } => {
            remote_mention_is_local_mention(target, *self_type);
            args_remote_to_local(target, *args);
        },
        TypeV::Tuple(ts) => types_remote_to_local(target, ts),
        TypeV::Slice(b) => remote_mention_is_local_mention(target, *b),
        TypeV::Array(b) => remote_mention_is_local_mention(target, *b),
        _ => {},
    }
}

proof fn types_remote_to_local(target: u32, ts: Seq<TypeV>)
    ensures
        types_mention(target, ts, true) ==> types_mention(target, ts, false),
    decreases ts,
{
    if ts.len() > 0 {
        remote_mention_is_local_mention(target, ts[0]);
        types_remote_to_local(target, ts.drop_first());
    }
}

proof fn path_remote_to_local(target: u32, p: PathV)
    ensures
        path_mentions(target, p, true) ==> path_mentions(target, p, false),
    decreases p,
{
    match p.args {
        Some(a) => args_remote_to_local(target, *a),
        None => {},
    }
}

proof fn args_remote_to_local(target: u32, a: GenericArgsV)
    ensures
        args_mention(target, a, true) ==> args_mention(target, a, false),
    decreases a,
{
    match a {
        GenericArgsV::AngleBracketed(args) => arg_list_remote_to_local(target, args),
        GenericArgsV::Parenthesized(inputs) => types_remote_to_local(target, inputs),
    }
}

proof fn arg_list_remote_to_local(target: u32, args: Seq<GenericArgV>)
    ensures
        arg_list_mentions(target, args, true) ==> arg_list_mentions(target, args, false),
    decreases args,
{
    if args.len() > 0 {
        match args[0] {
            GenericArgV::Type(t) => remote_mention_is_local_mention(target, t),
            GenericArgV::Other => {},
        }
        arg_list_remote_to_local(target, args.drop_first());
    }
}

/// Looking a type up as a type of another crate finds no more than looking
/// it up as a local type: an item that `is_of_remote_type` finds for an id
/// is also found by `is_of_local_type` for a node with that id.
pub proof fn remote_type_is_local_type(node: ItemNodeV, id: GlobalIdV)
    ensures
        is_of_type_spec(node, id, true) ==> is_of_type_spec(node, id, false),
{
    match node.item.inner {
        crate::model::ItemEnumV::StructField(t) => remote_mention_is_local_mention(id.id, t),
        _ => {},
    }
}

// ---------------------------------------------------------------------------
// Names
// ---------------------------------------------------------------------------

proof fn no_rename_is_empty(attrs: Seq<Seq<char>>)
    requires
        forall|i: int| 0 <= i < attrs.len() ==> regex_first_group(SERDE_RENAME@, #[trigger] attrs[i]) is None,
    ensures
        renamed_to(attrs).len() == 0,
    decreases attrs.len(),
{
    if attrs.len() > 0 {
        assert(regex_first_group(SERDE_RENAME@, attrs[attrs.len() - 1]) is None);
        no_rename_is_empty(attrs.drop_last());
    }
}

/// An item with no `#[serde(rename = "...")]` attribute is named by its own
/// name.
pub proof fn unrenamed_item_keeps_its_name(item: ItemV)
    requires
        forall|i: int|
            0 <= i < item.attrs.len() ==> regex_first_group(SERDE_RENAME@, #[trigger] item.attrs[i]) is None,
    ensures
        serialized_name(item) == item.name,
{
    no_rename_is_empty(item.attrs);
}

/// When the last attribute of an item is a serde rename to a non-empty name,
/// that name is the item's name, whatever comes before it.
pub proof fn last_rename_wins(item: ItemV, n: Seq<char>)
    requires
        item.attrs.len() > 0,
        regex_first_group(SERDE_RENAME@, item.attrs.last()) == Some(n),
        n.len() > 0,
    ensures
        serialized_name(item) == Some(n),
{
}

// ---------------------------------------------------------------------------
// Requests
// ---------------------------------------------------------------------------

/// A one-shot request takes its first answer and no other.
pub proof fn a_request_takes_one_answer()
    ensures
        accepts_answer(ResolveKind::Once),
        kind_after_answer(ResolveKind::Once) == ResolveKind::Never,
        !accepts_answer(ResolveKind::Never),
{
}

/// A stream request takes any number of answers.
pub proof fn a_stream_takes_every_answer()
    ensures
        accepts_answer(ResolveKind::Many),
        kind_after_answer(ResolveKind::Many) == ResolveKind::Many,
{
}

// ---------------------------------------------------------------------------
// Combining commands
// ---------------------------------------------------------------------------

/// Running a command alongside one that is done changes nothing, on
/// either side: the same tasks in the same order, the same queues, and the
/// same effects and events ready.
pub proof fn done_is_neutral_for_and<Effect, Event>(
    c: Command<Effect, Event>,
    d: Command<Effect, Event>,
)
    requires
        d.is_idle(),
    ensures
        c.task_count() + d.task_count() == c.task_count(),
        c.tasks() + d.tasks() == c.tasks(),
        d.tasks() + c.tasks() == c.tasks(),
        c.queued_effects() + d.queued_effects() == c.queued_effects(),
        d.queued_effects() + c.queued_effects() == c.queued_effects(),
        c.queued_events() + d.queued_events() == c.queued_events(),
        d.queued_events() + c.queued_events() == c.queued_events(),
        c.pending_sends() + d.pending_sends() == c.pending_sends(),
        c.ready_events() + d.ready_events() == c.ready_events(),
        (c.all_fixed() && d.all_fixed()) == c.all_fixed(),
{
    d.lemma_counts();
    assert(c.tasks() + d.tasks() =~= c.tasks());
    assert(d.tasks() + c.tasks() =~= c.tasks());
    assert(c.queued_effects() + d.queued_effects() =~= c.queued_effects());
    assert(d.queued_effects() + c.queued_effects() =~= c.queued_effects());
    assert(c.queued_events() + d.queued_events() =~= c.queued_events());
    assert(d.queued_events() + c.queued_events() =~= c.queued_events());
}

/// Running commands side by side is associative: `a.and(b).and(c)` and
/// `a.and(b.and(c))` have the same tasks, in the same order, queue the
/// same effects and events, and have the same effects and events ready.
pub proof fn and_is_associative<Effect, Event>(
    a: Command<Effect, Event>,
    b: Command<Effect, Event>,
    c: Command<Effect, Event>,
)
    ensures
        (a.task_count() + b.task_count()) + c.task_count() == a.task_count() + (b.task_count()
            + c.task_count()),
        (a.tasks() + b.tasks()) + c.tasks() == a.tasks() + (b.tasks() + c.tasks()),
        (a.queued_effects() + b.queued_effects()) + c.queued_effects() == a.queued_effects() + (
        b.queued_effects() + c.queued_effects()),
        (a.queued_events() + b.queued_events()) + c.queued_events() == a.queued_events() + (
        b.queued_events() + c.queued_events()),
        (a.pending_sends() + b.pending_sends()) + c.pending_sends() == a.pending_sends() + (
        b.pending_sends() + c.pending_sends()),
        (a.ready_events() + b.ready_events()) + c.ready_events() == a.ready_events() + (
        b.ready_events() + c.ready_events()),
{
    assert((a.tasks() + b.tasks()) + c.tasks() =~= a.tasks() + (b.tasks() + c.tasks()));
    assert((a.queued_effects() + b.queued_effects()) + c.queued_effects() =~= a.queued_effects()
        + (b.queued_effects() + c.queued_effects()));
    assert((a.queued_events() + b.queued_events()) + c.queued_events() =~= a.queued_events() + (
    b.queued_events() + c.queued_events()));
}

} // verus!
