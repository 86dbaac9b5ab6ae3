//! Questions about a single rustdoc item: which fields, variants and
//! associated items it has, and which trait impl it is.

use vstd::prelude::*;
use crate::model::{
    copy_ids, Id, Item, ItemEnum, ItemEnumV, ItemV, StructKind, StructKindV, Type, TypeV, VariantKind,
    VariantKindV,
};

verus! {

/// The ids that are present in a list of optional ids, in order.
pub open spec fn present_ids(s: Seq<Option<Id>>) -> Seq<Id>
    decreases s.len(),
{
    if s.len() == 0 {
        Seq::empty()
    } else {
        let prev = present_ids(s.drop_last());
        match s.last() {
            Some(id) => prev.push(id),
            None => prev,
        }
    }
}

/// The field ids of a struct's field list.
pub open spec fn struct_kind_ids(k: StructKindV) -> Seq<Id> {
    match k {
        StructKindV::Unit => Seq::empty(),
        StructKindV::Tuple(v) => present_ids(v),
        StructKindV::Plain(f) => f,
    }
}

/// The field ids of a variant's field list.
pub open spec fn variant_kind_ids(k: VariantKindV) -> Seq<Id> {
    match k {
        VariantKindV::Plain => Seq::empty(),
        VariantKindV::Tuple(v) => present_ids(v),
        VariantKindV::Struct(f) => f,
    }
}

/// The ids of the fields of a struct or of an enum variant; empty for any
/// other item.
pub open spec fn field_ids_of(item: ItemV) -> Seq<Id> {
    match item.inner {
        ItemEnumV::Struct { kind, .. } => struct_kind_ids(kind),
        ItemEnumV::Variant(k) => variant_kind_ids(k),
        _ => Seq::empty(),
    }
}

/// The ids of the variants of an enum; empty for any other item.
pub open spec fn variant_ids_of(item: ItemV) -> Seq<Id> {
    match item.inner {
        ItemEnumV::Enum(v) => v,
        _ => Seq::empty(),
    }
}

/// `field` is one of the fields of `item`.
pub open spec fn item_has_field(item: ItemV, field: ItemV) -> bool {
    field_ids_of(item).contains(field.id)
}

/// `variant` is one of the variants of `item`.
pub open spec fn item_has_variant(item: ItemV, variant: ItemV) -> bool {
    variant_ids_of(item).contains(variant.id)
}

/// `item` is an impl of the trait named `trait_name` for the type `for_`.
pub open spec fn item_is_impl_for(item: ItemV, for_: ItemV, trait_name: Seq<char>) -> bool {
    match item.inner {
        ItemEnumV::Impl { trait_: Some(t), for_: TypeV::ResolvedPath(p), .. } => t.name
            == trait_name && p.id == for_.id,
        _ => false,
    }
}

/// `item` is an impl that holds `associated_item`, and that item is named
/// `with_name`.
pub open spec fn item_has_associated_item(
    item: ItemV,
    associated_item: ItemV,
    with_name: Seq<char>,
) -> bool {
    match item.inner {
        ItemEnumV::Impl { items, .. } => items.contains(associated_item.id)
            && associated_item.name == Some(with_name),
        _ => false,
    }
}

pub(crate) fn present_ids_exec(v: &Vec<Option<Id>>) -> (r: Vec<Id>)
    ensures
        r@ == present_ids(v@),
{
    let mut r: Vec<Id> = Vec::new();
    for i in 0..v.len()
        invariant
            r@ == present_ids(v@.take(i as int)),
    {
        assert(v@.take(i + 1).drop_last() =~= v@.take(i as int));
        if let Some(id) = v[i] {
            r.push(id);
        }
    }
    assert(v@.take(v.len() as int) =~= v@);
    r
}

/// Whether `id` occurs in `v`.
pub fn ids_contain(v: &Vec<Id>, id: Id) -> (r: bool)
    ensures
        r == v@.contains(id),
{
    for i in 0..v.len()
        invariant
            forall|j: int| 0 <= j < i ==> v@[j] != id,
    {
        if v[i] == id {
            return true;
        }
    }
    false
}

/// The ids of the fields of a struct or of an enum variant, in declaration
/// order; fields that rustdoc hides are left out.
pub fn field_ids(item: &Item) -> (r: Vec<Id>)
    ensures
        r@ == field_ids_of(item@),
{
    match &item.inner {
        ItemEnum::Struct { kind, .. } => match kind {
            StructKind::Unit => Vec::new(),
            StructKind::Tuple(fields) => present_ids_exec(fields),
            StructKind::Plain { fields } => copy_ids(fields),
        },
        ItemEnum::Variant(kind) => match kind {
            VariantKind::Plain => Vec::new(),
            VariantKind::Tuple(fields) => present_ids_exec(fields),
            VariantKind::Struct { fields } => copy_ids(fields),
        },
        _ => Vec::new(),
    }
}

/// Whether `field` is one of the fields of `item`.
pub fn has_field(item: &Item, field: &Item) -> (r: bool)
    ensures
        r == item_has_field(item@, field@),
{
    let ids = field_ids(item);
    ids_contain(&ids, field.id)
}

/// The ids of the variants of an enum, in declaration order.
pub fn variant_ids(item: &Item) -> (r: Vec<Id>)
    ensures
        r@ == variant_ids_of(item@),
{
    match &item.inner {
        ItemEnum::Enum { variants } => copy_ids(variants),
        _ => Vec::new(),
    }
}

/// Whether `variant` is one of the variants of `item`.
pub fn has_variant(item: &Item, variant: &Item) -> (r: bool)
    ensures
        r == item_has_variant(item@, variant@),
{
    match &item.inner {
        ItemEnum::Enum { variants } => ids_contain(variants, variant.id),
        _ => false,
    }
}

/// Whether `s` holds exactly the characters of `lit`.
pub fn string_is(s: &String, lit: &str) -> (r: bool)
    ensures
        r == (s@ == lit@),
{
    *s == lit.to_string()
}

/// Whether `item` is an impl of the trait named `trait_name` for `for_`.
pub fn is_impl_for(item: &Item, for_: &Item, trait_name: &str) -> (r: bool)
    ensures
        r == item_is_impl_for(item@, for_@, trait_name@),
{
    match &item.inner {
        ItemEnum::Impl { trait_, for_: impl_for, .. } => {
            match trait_ {
                Some(t) => match impl_for {
                    Type::ResolvedPath(p) => {
                        assert(impl_for@ == TypeV::ResolvedPath(p@));
                        string_is(&t.name, trait_name) && p.id == for_.id
                    },
                    _ => {
                        assert(!(impl_for@ is ResolvedPath));
                        false
                    },
                },
                None => false,
            }
        },
        _ => false,
    }
}

/// Whether `item` is an impl that holds `associated_item` under the name
/// `with_name`.
pub fn has_associated_item(item: &Item, associated_item: &Item, with_name: &str) -> (r: bool)
    ensures
        r == item_has_associated_item(item@, associated_item@, with_name@),
{
    match &item.inner {
        ItemEnum::Impl { items, .. } => {
            if !ids_contain(items, associated_item.id) {
                return false;
            }
            match &associated_item.name {
                Some(n) => string_is(n, with_name),
                None => false,
            }
        },
        _ => false,
    }
}

} // verus!
