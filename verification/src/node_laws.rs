//! What the graph's queries answer, stated directly from their inputs: the
//! edges of each kind of item, the name serde gives an item, which types
//! mention an item, and how items relate to their fields, variants, impls
//! and modules.

use std::cmp::Ordering;
use vstd::prelude::*;

use crate::item::{
    field_ids_of, item_has_associated_item, item_has_field, item_has_variant, item_is_impl_for,
    present_ids, variant_ids_of,
};
use crate::model::{GenericArgV, GenericArgsV, Id, ItemEnumV, ItemV, StructKindV, TypeV, VariantKindV};
use crate::node::{
    arg_list_mentions, args_mention, first_usable, is_of_type_spec, path_mentions, pick_nodes, is_range_field, is_skipped, node_edges,
    renamed_to, same_module, serialized_name, type_mentions, types_mention, Edge, GlobalIdV,
    ItemNodeV, NodeV, node_order, SERDE_RENAME, SERDE_SKIP,
};
use crate::pattern::{regex_first_group, regex_matches};

verus! {

// ---------------------------------------------------------------------------
// Field lists
// ---------------------------------------------------------------------------

/// The ids of a tuple's fields are the fields that rustdoc shows, in
/// order: the list with its hidden entries left out.
pub proof fn shown_fields_keep_their_order(s: Seq<Option<Id>>)
    ensures
        present_ids(s) == s.filter_map(|o: Option<Id>| o),
    decreases s.len(),
{
    if s.len() > 0 {
        shown_fields_keep_their_order(s.drop_last());
        assert(present_ids(s) =~= s.filter_map(|o: Option<Id>| o));
    }
}

/// An id is among the shown fields of a tuple exactly when the tuple
/// lists it.
pub proof fn shown_fields_are_the_listed_ones(s: Seq<Option<Id>>, id: Id)
    ensures
        present_ids(s).contains(id) <==> s.contains(Some(id)),
    decreases s.len(),
{
    if s.len() > 0 {
        shown_fields_are_the_listed_ones(s.drop_last(), id);
        let d = s.drop_last();
        if s.contains(Some(id)) {
            let k = choose|k: int| 0 <= k < s.len() && s[k] == Some(id);
            if k < s.len() - 1 {
                assert(d[k] == Some(id));
                let j = choose|j: int| 0 <= j < present_ids(d).len() && present_ids(d)[j] == id;
                if s.last() is Some {
                    assert(present_ids(s)[j] == id);
                } else {
                    assert(present_ids(s)[j] == id);
                }
            } else {
                assert(present_ids(s).last() == id);
            }
        }
        if present_ids(s).contains(id) {
            let j = choose|j: int| 0 <= j < present_ids(s).len() && present_ids(s)[j] == id;
            if j < present_ids(d).len() {
                assert(present_ids(d)[j] == id);
                let k = choose|k: int| 0 <= k < d.len() && d[k] == Some(id);
                assert(s[k] == Some(id));
            } else {
                assert(s[s.len() - 1] == Some(id));
            }
        }
    }
}

// ---------------------------------------------------------------------------
// Edges
// ---------------------------------------------------------------------------

/// The fields a struct lists, in order: its plain fields, the tuple fields
/// that rustdoc shows, or none for a unit struct.
pub open spec fn listed_fields(kind: StructKindV) -> Seq<Id> {
    match kind {
        StructKindV::Plain(f) => f,
        StructKindV::Tuple(v) => v.filter_map(|o: Option<Id>| o),
        StructKindV::Unit => Seq::empty(),
    }
}

/// A struct, whatever its kind, leads to each of its fields in order and
/// then to each of its impls in order, all within its own crate.
pub proof fn struct_edges_are_fields_then_impls(node: ItemNodeV)
    requires
        node.item.inner is Struct,
    ensures
        ({
            let fields = listed_fields(node.item.inner->kind);
            let impls = node.item.inner->impls;
            let e = node_edges(node);
            &&& e.len() == fields.len() + impls.len()
            &&& forall|k: int|
                0 <= k < fields.len() ==> e[k] == (
                    GlobalIdV { crate_: node.id.crate_, id: fields[k].0 },
                    Edge::StructField,
                )
            &&& forall|k: int|
                0 <= k < impls.len() ==> e[fields.len() + k] == (
                    GlobalIdV { crate_: node.id.crate_, id: impls[k].0 },
                    Edge::Impl,
                )
        }),
{
    if let StructKindV::Tuple(v) = node.item.inner->kind {
        shown_fields_keep_their_order(v);
    }
}

/// Every impl of a struct is reached by an `Impl` edge.
pub proof fn every_impl_of_a_struct_has_an_edge(node: ItemNodeV, k: int)
    requires
        node.item.inner is Struct,
        0 <= k < node.item.inner->impls.len(),
    ensures
        node_edges(node).contains(
            (GlobalIdV { crate_: node.id.crate_, id: node.item.inner->impls[k].0 }, Edge::Impl),
        ),
{
    struct_edges_are_fields_then_impls(node);
    let n = listed_fields(node.item.inner->kind).len();
    assert(node_edges(node)[n + k] == (
        GlobalIdV { crate_: node.id.crate_, id: node.item.inner->impls[k].0 },
        Edge::Impl,
    ));
}

/// A module leads to each of its items, in order.
pub proof fn module_edges_are_its_items(node: ItemNodeV)
    requires
        node.item.inner is Module,
    ensures
        ({
            let items = node.item.inner->Module_0;
            let e = node_edges(node);
            &&& e.len() == items.len()
            &&& forall|k: int|
                0 <= k < items.len() ==> e[k] == (
                    GlobalIdV { crate_: node.id.crate_, id: items[k].0 },
                    Edge::ModuleItem,
                )
        }),
{
}

/// A struct field leads to the type it is of, when that type is a path,
/// and nowhere otherwise.
pub proof fn a_field_leads_to_its_type(node: ItemNodeV)
    requires
        node.item.inner is StructField,
    ensures
        node_edges(node) == match node.item.inner->StructField_0 {
            TypeV::ResolvedPath(p) => seq![
                (GlobalIdV { crate_: node.id.crate_, id: p.id.0 }, Edge::Type),
            ],
            _ => Seq::<(GlobalIdV, Edge)>::empty(),
        },
{
}

/// An impl of `App`, `Effect`, `Capability` or `Operation` for a path leads
/// to that path's item; any other impl leads nowhere.
pub proof fn an_impl_leads_to_its_type(node: ItemNodeV)
    requires
        node.item.inner is Impl,
    ensures
        node_edges(node) == match (node.item.inner->trait_, node.item.inner->for_) {
            (Some(t), TypeV::ResolvedPath(p)) => if t.name == "App"@ || t.name == "Effect"@
                || t.name == "Capability"@ || t.name == "Operation"@ {
                seq![(GlobalIdV { crate_: node.id.crate_, id: p.id.0 }, Edge::ImplFor)]
            } else {
                Seq::<(GlobalIdV, Edge)>::empty()
            },
            _ => Seq::<(GlobalIdV, Edge)>::empty(),
        },
{
}

/// Enums, variants, associated types and other items have no edges.
pub proof fn other_items_have_no_edges(node: ItemNodeV)
    requires
        !(node.item.inner is Module),
        !(node.item.inner is Struct),
        !(node.item.inner is StructField),
        !(node.item.inner is Impl),
    ensures
        node_edges(node).len() == 0,
{
}

// ---------------------------------------------------------------------------
// Names
// ---------------------------------------------------------------------------

/// The item with its attributes replaced by `attrs`.
pub open spec fn with_attrs(item: ItemV, attrs: Seq<Seq<char>>) -> ItemV {
    ItemV { attrs, ..item }
}

/// An attribute that is not a serde rename changes nothing of the name,
/// wherever it comes.
pub proof fn other_attributes_keep_the_name(item: ItemV, a: Seq<char>)
    requires
        regex_first_group(SERDE_RENAME@, a) is None,
    ensures
        serialized_name(with_attrs(item, item.attrs.push(a))) == serialized_name(item),
{
    assert(item.attrs.push(a).drop_last() =~= item.attrs);
}

/// The rename that counts is that of the last attribute that is a rename,
/// wherever it stands: what follows it, if not a rename, does not matter.
proof fn last_rename_counts(attrs: Seq<Seq<char>>, k: int, n: Seq<char>)
    requires
        0 <= k < attrs.len(),
        regex_first_group(SERDE_RENAME@, attrs[k]) == Some(n),
        forall|j: int| k < j < attrs.len() ==> (regex_first_group(SERDE_RENAME@, #[trigger] attrs[j]) is None),
    ensures
        renamed_to(attrs) == n,
    decreases attrs.len(),
{
    if k < attrs.len() - 1 {
        let d = attrs.drop_last();
        assert forall|j: int| k < j < d.len() implies (regex_first_group(SERDE_RENAME@, #[trigger] d[j]) is None) by {
            assert(d[j] == attrs[j]);
        }
        assert(regex_first_group(SERDE_RENAME@, attrs[attrs.len() - 1]) is None);
        last_rename_counts(d, k, n);
    }
}

/// An item whose last rename attribute names `n`, a non-empty name, is
/// serialized under `n`, whatever attributes that are not renames follow.
pub proof fn the_last_rename_names_the_item(item: ItemV, k: int, n: Seq<char>)
    requires
        0 <= k < item.attrs.len(),
        regex_first_group(SERDE_RENAME@, item.attrs[k]) == Some(n),
        n.len() > 0,
        forall|j: int|
            k < j < item.attrs.len() ==> (regex_first_group(SERDE_RENAME@, #[trigger] item.attrs[j]) is None),
    ensures
        serialized_name(item) == Some(n),
{
    last_rename_counts(item.attrs, k, n);
}

/// An item is skipped by serde exactly when one of its attributes, at any
/// place, is `#[serde(skip)]`; so more attributes never unskip it.
pub proof fn any_skip_attribute_skips(item: ItemV, more: Seq<Seq<char>>)
    ensures
        is_skipped(item) <==> exists|k: int|
            0 <= k < item.attrs.len() && regex_matches(SERDE_SKIP@, #[trigger] item.attrs[k]),
        is_skipped(item) ==> is_skipped(with_attrs(item, item.attrs + more)),
{
    if is_skipped(item) {
        let k = choose|k: int| 0 <= k < item.attrs.len() && regex_matches(SERDE_SKIP@, #[trigger] item.attrs[k]);
        assert((item.attrs + more)[k] == item.attrs[k]);
        assert(with_attrs(item, item.attrs + more).attrs[k] == item.attrs[k]);
    }
}

// ---------------------------------------------------------------------------
// Which types mention an item
// ---------------------------------------------------------------------------

/// A list of types mentions the target exactly when one of them, at any
/// position, does.
pub proof fn some_type_of_a_list_mentions(target: u32, ts: Seq<TypeV>, is_remote: bool)
    ensures
        types_mention(target, ts, is_remote) <==> exists|k: int|
            0 <= k < ts.len() && type_mentions(target, #[trigger] ts[k], is_remote),
    decreases ts.len(),
{
    if ts.len() > 0 {
        let rest = ts.drop_first();
        some_type_of_a_list_mentions(target, rest, is_remote);
        if exists|k: int| 0 <= k < ts.len() && type_mentions(target, #[trigger] ts[k], is_remote) {
            let k = choose|k: int| 0 <= k < ts.len() && type_mentions(target, #[trigger] ts[k], is_remote);
            if k > 0 {
                assert(rest[k - 1] == ts[k]);
            }
        }
        if types_mention(target, rest, is_remote) {
            let k = choose|k: int| 0 <= k < rest.len() && type_mentions(target, #[trigger] rest[k], is_remote);
            assert(ts[k + 1] == rest[k]);
        }
    }
}

/// A list of generic arguments mentions the target exactly when one of
/// its type arguments, at any position, does.
pub proof fn some_type_argument_mentions(target: u32, args: Seq<GenericArgV>, is_remote: bool)
    ensures
        arg_list_mentions(target, args, is_remote) <==> exists|k: int|
            0 <= k < args.len() && (#[trigger] args[k] matches GenericArgV::Type(t) && type_mentions(
                target,
                t,
                is_remote,
            )),
    decreases args.len(),
{
    if args.len() > 0 {
        let rest = args.drop_first();
        some_type_argument_mentions(target, rest, is_remote);
        if exists|k: int|
            0 <= k < args.len() && (#[trigger] args[k] matches GenericArgV::Type(t) && type_mentions(
                target,
                t,
                is_remote,
            )) {
            let k = choose|k: int|
                0 <= k < args.len() && (#[trigger] args[k] matches GenericArgV::Type(t) && type_mentions(
                    target,
                    t,
                    is_remote,
                ));
            if k > 0 {
                assert(rest[k - 1] == args[k]);
            }
        }
        if arg_list_mentions(target, rest, is_remote) {
            let k = choose|k: int|
                0 <= k < rest.len() && (#[trigger] rest[k] matches GenericArgV::Type(t) && type_mentions(
                    target,
                    t,
                    is_remote,
                ));
            assert(args[k + 1] == rest[k]);
        }
    }
}

/// Generic arguments mention the target when one of their types does:
/// any type argument between angle brackets, or any input of a function
/// signature.
pub proof fn generic_arguments_mention(target: u32, a: GenericArgsV, is_remote: bool)
    ensures
        args_mention(target, a, is_remote) <==> match a {
            GenericArgsV::AngleBracketed(args) => exists|k: int|
                0 <= k < args.len() && (#[trigger] args[k] matches GenericArgV::Type(t)
                    && type_mentions(target, t, is_remote)),
            GenericArgsV::Parenthesized(ts) => exists|k: int|
                0 <= k < ts.len() && type_mentions(target, #[trigger] ts[k], is_remote),
        },
{
    match a {
        GenericArgsV::AngleBracketed(args) => some_type_argument_mentions(target, args, is_remote),
        GenericArgsV::Parenthesized(ts) => some_type_of_a_list_mentions(target, ts, is_remote),
    }
}

/// `Option`, `String`, `Vec` and `std::ops::Range`: the std types that, in a
/// type of another crate, are not looked into.
pub open spec fn is_skipped_container(name: Seq<char>) -> bool {
    name == "Option"@ || name == "String"@ || name == "Vec"@ || name == "std::ops::Range"@
}

/// A path mentions the target when it is the target, or when one of its
/// generic arguments mentions it; looked at as a type of another crate,
/// `Option`, `String`, `Vec` and `std::ops::Range` mention nothing.
pub proof fn a_path_mentions_itself_and_its_arguments(
    target: u32,
    t: TypeV,
    is_remote: bool,
)
    requires
        t is ResolvedPath,
    ensures
        ({
            let p = t->ResolvedPath_0;
            if is_remote && is_skipped_container(p.name) {
                !type_mentions(target, t, is_remote)
            } else {
                type_mentions(target, t, is_remote) <==> (p.id.0 == target || (p.args matches Some(
                    a,
                ) && args_mention(target, *a, is_remote)))
            }
        }),
{
    if let TypeV::ResolvedPath(p) = t {
        assert(type_mentions(target, t, is_remote) == path_mentions(target, p, is_remote));
    }
}

/// Slices, arrays, tuples and qualified paths mention what the types in
/// them mention; primitives and other types mention nothing.
pub proof fn compound_types_mention_what_they_hold(target: u32, t: TypeV, is_remote: bool)
    ensures
        match t {
            TypeV::Slice(b) => type_mentions(target, t, is_remote) == type_mentions(target, *b, is_remote),
            TypeV::Array(b) => type_mentions(target, t, is_remote) == type_mentions(target, *b, is_remote),
            TypeV::Tuple(ts) => type_mentions(target, t, is_remote) <==> exists|k: int|
                0 <= k < ts.len() && type_mentions(target, #[trigger] ts[k], is_remote),
            TypeV::QualifiedPath { self_type, args } => type_mentions(target, t, is_remote) <==> (
            type_mentions(target, *self_type, is_remote) || args_mention(target, *args, is_remote)),
            TypeV::Primitive(_) => !type_mentions(target, t, is_remote),
            TypeV::Other => !type_mentions(target, t, is_remote),
            TypeV::ResolvedPath(_) => true,
        },
{
    if let TypeV::Tuple(ts) = t {
        some_type_of_a_list_mentions(target, ts, is_remote);
    }
}

/// An item is of a type only within its own crate: a struct field of a
/// type that mentions the type's id, or an associated type set to a path
/// with that id.
pub proof fn what_is_of_a_type(node: ItemNodeV, id: GlobalIdV, is_remote: bool)
    ensures
        node.id.crate_ != id.crate_ ==> !is_of_type_spec(node, id, is_remote),
        node.id.crate_ == id.crate_ ==> (is_of_type_spec(node, id, is_remote) <==> match node.item.inner {
            ItemEnumV::StructField(t) => type_mentions(id.id, t, is_remote),
            ItemEnumV::AssocType(Some(TypeV::ResolvedPath(p))) => p.id.0 == id.id,
            _ => false,
        }),
{
}

/// A range field is a struct field whose type is a path named
/// `std::ops::Range`.
pub proof fn what_is_a_range_field(item: ItemV)
    ensures
        is_range_field(item) <==> (item.inner matches ItemEnumV::StructField(TypeV::ResolvedPath(p))
            && p.name == "std::ops::Range"@),
{
}

// ---------------------------------------------------------------------------
// Fields, variants, impls and associated items
// ---------------------------------------------------------------------------

/// An impl is an impl of `trait_name` for `for_` exactly when it names the
/// trait `trait_name` and is for a path whose id is that of `for_`; an impl
/// for a type with another id, or of another trait, never is.
pub proof fn an_impl_is_for_the_type_it_names(item: ItemV, for_: ItemV, trait_name: Seq<char>)
    ensures
        item_is_impl_for(item, for_, trait_name) <==> (item.inner matches ItemEnumV::Impl {
            trait_: Some(t),
            for_: TypeV::ResolvedPath(p),
            ..
        } && t.name == trait_name && p.id == for_.id),
{
}

/// A field belongs to a struct or variant exactly when its field list
/// holds the field's id: among the plain fields, or among the tuple fields
/// that rustdoc shows.
pub proof fn a_field_is_one_the_item_lists(item: ItemV, field: ItemV)
    ensures
        item_has_field(item, field) <==> match item.inner {
            ItemEnumV::Struct { kind: StructKindV::Plain(f), .. } => f.contains(field.id),
            ItemEnumV::Struct { kind: StructKindV::Tuple(v), .. } => v.contains(Some(field.id)),
            ItemEnumV::Variant(VariantKindV::Struct(f)) => f.contains(field.id),
            ItemEnumV::Variant(VariantKindV::Tuple(v)) => v.contains(Some(field.id)),
            _ => false,
        },
{
    match item.inner {
        ItemEnumV::Struct { kind: StructKindV::Tuple(v), .. } => shown_fields_are_the_listed_ones(v, field.id),
        ItemEnumV::Variant(VariantKindV::Tuple(v)) => shown_fields_are_the_listed_ones(v, field.id),
        _ => {},
    }
}

/// A variant belongs to an enum exactly when the enum lists its id.
pub proof fn a_variant_is_one_the_enum_lists(item: ItemV, variant: ItemV)
    ensures
        item_has_variant(item, variant) <==> (item.inner matches ItemEnumV::Enum(v) && v.contains(
            variant.id,
        )),
{
}

/// An impl holds an associated item under a name exactly when the impl
/// lists the item's id and the item has that name.
pub proof fn an_impl_holds_what_it_lists(item: ItemV, assoc: ItemV, with_name: Seq<char>)
    ensures
        item_has_associated_item(item, assoc, with_name) <==> (item.inner matches ItemEnumV::Impl {
            items,
            ..
        } && items.contains(assoc.id) && assoc.name == Some(with_name)),
{
}

// ---------------------------------------------------------------------------
// Modules
// ---------------------------------------------------------------------------

/// Two paths are in the same module exactly when they have the same length
/// and agree at every position but the last.
pub proof fn same_module_compares_every_component(a: Seq<Seq<char>>, b: Seq<Seq<char>>)
    requires
        a.len() > 0,
    ensures
        same_module(a, b) <==> (a.len() == b.len() && forall|k: int|
            0 <= k < a.len() - 1 ==> #[trigger] a[k] == b[k]),
{
    if a.len() == b.len() {
        if forall|k: int| 0 <= k < a.len() - 1 ==> #[trigger] a[k] == b[k] {
            assert(a.take(a.len() - 1) =~= b.take(b.len() - 1));
        }
        if same_module(a, b) {
            assert forall|k: int| 0 <= k < a.len() - 1 implies #[trigger] a[k] == b[k] by {
                assert(a.take(a.len() - 1)[k] == a[k]);
                assert(b.take(b.len() - 1)[k] == b[k]);
            }
        }
    }
}

// ---------------------------------------------------------------------------
// Which fields and variants come out, and in which order
// ---------------------------------------------------------------------------

/// The field ids of an item, in order: a struct's listed fields, a
/// variant's plain fields or the tuple fields that rustdoc shows; none for
/// other items. The variant ids of an enum are those it lists, in order.
pub proof fn the_ids_an_item_lists(item: ItemV)
    ensures
        field_ids_of(item) == match item.inner {
            ItemEnumV::Struct { kind, .. } => listed_fields(kind),
            ItemEnumV::Variant(VariantKindV::Struct(f)) => f,
            ItemEnumV::Variant(VariantKindV::Tuple(v)) => v.filter_map(|o: Option<Id>| o),
            _ => Seq::<Id>::empty(),
        },
        variant_ids_of(item) == match item.inner {
            ItemEnumV::Enum(v) => v,
            _ => Seq::<Id>::empty(),
        },
{
    match item.inner {
        ItemEnumV::Struct { kind: StructKindV::Tuple(v), .. } => shown_fields_keep_their_order(v),
        ItemEnumV::Variant(VariantKindV::Tuple(v)) => shown_fields_keep_their_order(v),
        _ => {},
    }
}

/// A candidate that may stand for the field or variant `id`: serde does not
/// skip it, and it has that id.
pub open spec fn stands_for(c: ItemNodeV, id: Id) -> bool {
    !is_skipped(c.item) && c.item.id == id
}

/// Some candidate may stand for `id`.
pub open spec fn has_candidate(cands: Seq<ItemNodeV>, id: Id) -> bool {
    exists|j: int| 0 <= j < cands.len() && stands_for(cands[j], id)
}

/// The candidate chosen for an id is the first one, in the candidates'
/// order, that may stand for it.
proof fn the_first_candidate_is_chosen(id: Id, cands: Seq<ItemNodeV>)
    ensures
        match first_usable(id, cands) {
            Some(c) => exists|i: int|
                0 <= i < cands.len() && cands[i] == c && stands_for(c, id) && forall|j: int|
                    0 <= j < i ==> !stands_for(#[trigger] cands[j], id),
            None => forall|j: int| 0 <= j < cands.len() ==> !stands_for(#[trigger] cands[j], id),
        },
    decreases cands.len(),
{
    if cands.len() > 0 {
        let rest = cands.drop_first();
        the_first_candidate_is_chosen(id, rest);
        if !stands_for(cands[0], id) {
            match first_usable(id, rest) {
                Some(c) => {
                    let i = choose|i: int|
                        0 <= i < rest.len() && rest[i] == c && stands_for(c, id) && forall|j: int|
                            0 <= j < i ==> !stands_for(#[trigger] rest[j], id);
                    assert(cands[i + 1] == c);
                    assert forall|j: int| 0 <= j < i + 1 implies !stands_for(#[trigger] cands[j], id) by {
                        if j > 0 {
                            assert(cands[j] == rest[j - 1]);
                        }
                    }
                },
                None => {
                    assert forall|j: int| 0 <= j < cands.len() implies !stands_for(#[trigger] cands[j], id) by {
                        if j > 0 {
                            assert(cands[j] == rest[j - 1]);
                        }
                    }
                },
            }
        }
    }
}

/// When every id has a candidate that may stand for it, the chosen nodes
/// come one per id, in the ids' order, each the first candidate that may
/// stand for its id.
pub proof fn one_chosen_node_per_id_in_order(ids: Seq<Id>, cands: Seq<ItemNodeV>)
    requires
        forall|k: int|
            0 <= k < ids.len() ==> has_candidate(cands, #[trigger] ids[k]),
    ensures
        pick_nodes(ids, cands).len() == ids.len(),
        forall|k: int|
            0 <= k < ids.len() ==> exists|i: int|
                0 <= i < cands.len() && cands[i] == #[trigger] pick_nodes(ids, cands)[k] && stands_for(
                    cands[i],
                    ids[k],
                ) && forall|j: int| 0 <= j < i ==> !stands_for(#[trigger] cands[j], ids[k]),
    decreases ids.len(),
{
    if ids.len() > 0 {
        let d = ids.drop_last();
        assert forall|k: int| 0 <= k < d.len() implies has_candidate(cands, #[trigger] d[k]) by {
            assert(d[k] == ids[k]);
        }
        one_chosen_node_per_id_in_order(d, cands);
        let last = ids.last();
        the_first_candidate_is_chosen(last, cands);
        assert(has_candidate(cands, ids[ids.len() - 1]));
        let j0 = choose|j: int| 0 <= j < cands.len() && stands_for(cands[j], ids[ids.len() - 1]);
        assert(first_usable(last, cands) is Some) by {
            if first_usable(last, cands) is None {
                assert(!stands_for(cands[j0], last));
            }
        }
        let p = pick_nodes(ids, cands);
        assert forall|k: int| 0 <= k < ids.len() implies exists|i: int|
            0 <= i < cands.len() && cands[i] == #[trigger] p[k] && stands_for(cands[i], ids[k])
                && forall|j: int| 0 <= j < i ==> !stands_for(#[trigger] cands[j], ids[k]) by {
            if k < d.len() {
                assert(p[k] == pick_nodes(d, cands)[k]);
                assert(d[k] == ids[k]);
            }
        }
    }
}

/// One node is chosen for each id that some candidate may stand for, and
/// none for the others.
pub proof fn one_node_per_id_with_a_candidate(ids: Seq<Id>, cands: Seq<ItemNodeV>)
    ensures
        pick_nodes(ids, cands).len() == ids.filter(|id: Id| has_candidate(cands, id)).len(),
    decreases ids.len(),
{
    reveal(Seq::filter);
    if ids.len() > 0 {
        one_node_per_id_with_a_candidate(ids.drop_last(), cands);
        let last = ids.last();
        the_first_candidate_is_chosen(last, cands);
        if has_candidate(cands, last) {
            let j = choose|j: int| 0 <= j < cands.len() && stands_for(cands[j], last);
            if first_usable(last, cands) is None {
                assert(!stands_for(cands[j], last));
            }
        } else {
            if let Some(c) = first_usable(last, cands) {
                let i = choose|i: int|
                    0 <= i < cands.len() && cands[i] == c && stands_for(c, last) && forall|j: int|
                        0 <= j < i ==> !stands_for(#[trigger] cands[j], last);
                assert(stands_for(cands[i], last));
            }
        }
    }
}

/// `fields` gives, when every field has a candidate, one node per field
/// in the item's order of fields, each the first candidate for it.
pub proof fn fields_come_in_the_items_order(node: ItemNodeV, cands: Seq<ItemNodeV>)
    requires
        forall|k: int|
            0 <= k < field_ids_of(node.item).len() ==> has_candidate(cands, #[trigger] field_ids_of(node.item)[k]),
    ensures
        pick_nodes(field_ids_of(node.item), cands).len() == field_ids_of(node.item).len(),
        forall|k: int|
            0 <= k < field_ids_of(node.item).len() ==> #[trigger] pick_nodes(
                field_ids_of(node.item),
                cands,
            )[k].item.id == field_ids_of(node.item)[k],
{
    let ids = field_ids_of(node.item);
    one_chosen_node_per_id_in_order(ids, cands);
    assert forall|k: int| 0 <= k < ids.len() implies #[trigger] pick_nodes(ids, cands)[k].item.id == ids[k] by {
        let i = choose|i: int|
            0 <= i < cands.len() && cands[i] == #[trigger] pick_nodes(ids, cands)[k] && stands_for(
                cands[i],
                ids[k],
            ) && forall|j: int| 0 <= j < i ==> !stands_for(#[trigger] cands[j], ids[k]);
    }
}

/// `variants` gives, when every variant has a candidate, one node per
/// variant in the enum's order, each the first candidate for it.
pub proof fn variants_come_in_the_enums_order(node: ItemNodeV, cands: Seq<ItemNodeV>)
    requires
        forall|k: int|
            0 <= k < variant_ids_of(node.item).len() ==> has_candidate(cands, #[trigger] variant_ids_of(node.item)[k]),
    ensures
        pick_nodes(variant_ids_of(node.item), cands).len() == variant_ids_of(node.item).len(),
        forall|k: int|
            0 <= k < variant_ids_of(node.item).len() ==> #[trigger] pick_nodes(
                variant_ids_of(node.item),
                cands,
            )[k].item.id == variant_ids_of(node.item)[k],
{
    let ids = variant_ids_of(node.item);
    one_chosen_node_per_id_in_order(ids, cands);
    assert forall|k: int| 0 <= k < ids.len() implies #[trigger] pick_nodes(ids, cands)[k].item.id == ids[k] by {
        let i = choose|i: int|
            0 <= i < cands.len() && cands[i] == #[trigger] pick_nodes(ids, cands)[k] && stands_for(
                cands[i],
                ids[k],
            ) && forall|j: int| 0 <= j < i ==> !stands_for(#[trigger] cands[j], ids[k]);
    }
}

// ---------------------------------------------------------------------------
// The order of nodes
// ---------------------------------------------------------------------------

/// Nodes compare by kind alone: a summary comes before an item, an item
/// after a summary, and two nodes of the same kind compare equal whatever
/// they hold.
pub proof fn nodes_compare_by_kind_alone(a: NodeV, b: NodeV)
    ensures
        node_order(a, b) == Ordering::Less <==> (a is Summary && b is Item),
        node_order(a, b) == Ordering::Greater <==> (a is Item && b is Summary),
        node_order(a, b) == Ordering::Equal <==> ((a is Item) == (b is Item)),
{
}

} // verus!
