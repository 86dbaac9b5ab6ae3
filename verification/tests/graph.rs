use std::cmp::Ordering;
use std::collections::hash_map::DefaultHasher;
use std::hash::{Hash, Hasher};

use crux_cli::model::{
    GenericArg, GenericArgs, Id, Item, ItemEnum, ItemSummary, Path, StructKind, Type,
    VariantKind,
};
use crux_cli::node::{CrateNode, Edge, GlobalId, ItemNode, Node, SummaryNode};
use rustdoc_types::{ExternalCrate, ItemKind};

fn item(id: u32, name: Option<&str>, attrs: Vec<&str>, inner: ItemEnum) -> Item {
    Item {
        id: Id(id),
        name: name.map(|n| n.to_string()),
        attrs: attrs.into_iter().map(|a| a.to_string()).collect(),
        inner,
    }
}

fn node(crate_: &str, item: Item) -> ItemNode {
    ItemNode::new(crate_.to_string(), item)
}

fn path(name: &str, id: u32, args: Option<GenericArgs>) -> Type {
    Type::ResolvedPath(Path {
        name: name.to_string(),
        id: Id(id),
        args: args.map(Box::new),
    })
}

fn angle(types: Vec<Type>) -> GenericArgs {
    GenericArgs::AngleBracketed {
        args: types.into_iter().map(GenericArg::Type).collect(),
    }
}

fn field(crate_: &str, id: u32, type_: Type) -> ItemNode {
    node(crate_, item(id, Some("f"), vec![], ItemEnum::StructField(type_)))
}

fn summary(crate_: &str, id: u32, crate_id: u32, path: Vec<&str>) -> SummaryNode {
    SummaryNode::new(
        crate_.to_string(),
        id,
        ItemSummary {
            crate_id,
            path: path.into_iter().map(|p| p.to_string()).collect(),
            kind: ItemKind::Struct,
        },
    )
}

fn gid(crate_: &str, id: u32) -> GlobalId {
    GlobalId::new(crate_, id)
}

fn hash_of<T: Hash>(t: &T) -> u64 {
    let mut h = DefaultHasher::new();
    t.hash(&mut h);
    h.finish()
}

#[test]
fn global_id_holds_crate_and_id() {
    let id = GlobalId::new("shared", 7);
    assert_eq!(id.crate_, "shared");
    assert_eq!(id.id, 7);
    assert_eq!(id, gid("shared", 7));
    assert_ne!(id, gid("shared", 8));
    assert_ne!(id, gid("other", 7));
    assert_eq!(hash_of(&id), hash_of(&gid("shared", 7)));
}

#[test]
fn module_edges_lead_to_its_items() {
    let n = node("c", item(1, Some("m"), vec![], ItemEnum::Module { items: vec![Id(2), Id(3)] }));
    assert_eq!(
        n.edges(),
        vec![(gid("c", 2), Edge::ModuleItem), (gid("c", 3), Edge::ModuleItem)]
    );
}

#[test]
fn plain_struct_edges_lead_to_fields_then_impls() {
    let n = node(
        "c",
        item(
            1,
            Some("S"),
            vec![],
            ItemEnum::Struct {
                kind: StructKind::Plain { fields: vec![Id(3), Id(4)] },
                impls: vec![Id(5)],
            },
        ),
    );
    assert_eq!(
        n.edges(),
        vec![
            (gid("c", 3), Edge::StructField),
            (gid("c", 4), Edge::StructField),
            (gid("c", 5), Edge::Impl)
        ]
    );
}

#[test]
fn tuple_struct_edges_skip_hidden_fields() {
    let n = node(
        "c",
        item(
            1,
            Some("T"),
            vec![],
            ItemEnum::Struct {
                kind: StructKind::Tuple(vec![Some(Id(3)), None, Some(Id(4))]),
                impls: vec![],
            },
        ),
    );
    assert_eq!(
        n.edges(),
        vec![(gid("c", 3), Edge::StructField), (gid("c", 4), Edge::StructField)]
    );
}

#[test]
fn unit_struct_edges_are_its_impls() {
    let n = node(
        "c",
        item(1, Some("U"), vec![], ItemEnum::Struct { kind: StructKind::Unit, impls: vec![Id(9)] }),
    );
    assert_eq!(n.edges(), vec![(gid("c", 9), Edge::Impl)]);
}

#[test]
fn field_edge_leads_to_its_path_type() {
    assert_eq!(field("c", 1, path("Foo", 7, None)).edges(), vec![(gid("c", 7), Edge::Type)]);
    assert_eq!(field("c", 1, Type::Primitive("u8".to_string())).edges(), vec![]);
    assert_eq!(field("c", 1, Type::Other).edges(), vec![]);
}

#[test]
fn impl_of_app_traits_leads_to_its_type() {
    for name in ["App", "Effect", "Capability", "Operation"] {
        let n = node(
            "c",
            item(
                1,
                None,
                vec![],
                ItemEnum::Impl {
                    trait_: Some(Path { name: name.to_string(), id: Id(50), args: None }),
                    for_: path("Model", 9, None),
                    items: vec![],
                },
            ),
        );
        assert_eq!(n.edges(), vec![(gid("c", 9), Edge::ImplFor)]);
    }
    let other_trait = node(
        "c",
        item(
            1,
            None,
            vec![],
            ItemEnum::Impl {
                trait_: Some(Path { name: "Debug".to_string(), id: Id(50), args: None }),
                for_: path("Model", 9, None),
                items: vec![],
            },
        ),
    );
    assert_eq!(other_trait.edges(), vec![]);
    let inherent = node(
        "c",
        item(1, None, vec![], ItemEnum::Impl { trait_: None, for_: path("Model", 9, None), items: vec![] }),
    );
    assert_eq!(inherent.edges(), vec![]);
    let not_a_path = node(
        "c",
        item(
            1,
            None,
            vec![],
            ItemEnum::Impl {
                trait_: Some(Path { name: "App".to_string(), id: Id(50), args: None }),
                for_: Type::Other,
                items: vec![],
            },
        ),
    );
    assert_eq!(not_a_path.edges(), vec![]);
}

#[test]
fn enums_and_other_items_have_no_edges() {
    let e = node("c", item(1, Some("E"), vec![], ItemEnum::Enum { variants: vec![Id(2)] }));
    assert_eq!(e.edges(), vec![]);
    let o = node("c", item(1, Some("f"), vec![], ItemEnum::Other));
    assert_eq!(o.edges(), vec![]);
}

#[test]
fn last_rename_wins() {
    let n = node(
        "c",
        item(
            1,
            Some("Foo"),
            vec![
                r#"#[serde(rename = "Bar")]"#,
                "#[derive(Debug)]",
                r#"#[serde(rename =   "Baz")]"#,
            ],
            ItemEnum::Other,
        ),
    );
    assert_eq!(n.name().as_deref(), Some("Baz"));
}

#[test]
fn unrelated_attributes_keep_the_name() {
    let n = node(
        "c",
        item(1, Some("Foo"), vec!["#[serde(skip)]", r#"#[serde(rename_all = "camelCase")]"#], ItemEnum::Other),
    );
    assert_eq!(n.name().as_deref(), Some("Foo"));
}

#[test]
fn a_rename_names_an_unnamed_item() {
    let n = node("c", item(1, None, vec![r#"#[serde(rename = "Bar")]"#], ItemEnum::Other));
    assert_eq!(n.name().as_deref(), Some("Bar"));
}

fn struct_with_fields(crate_: &str, fields: Vec<u32>) -> ItemNode {
    node(
        crate_,
        item(
            1,
            Some("S"),
            vec![],
            ItemEnum::Struct {
                kind: StructKind::Plain { fields: fields.into_iter().map(Id).collect() },
                impls: vec![],
            },
        ),
    )
}

fn plain_field(crate_: &str, id: u32, attrs: Vec<&str>) -> ItemNode {
    node(crate_, item(id, Some("f"), attrs, ItemEnum::StructField(Type::Other)))
}

#[test]
fn fields_come_in_declaration_order_without_skipped_ones() {
    let s = struct_with_fields("c", vec![1, 2, 3, 4]);
    let f2 = plain_field("c", 2, vec![]);
    let f1 = plain_field("c", 1, vec![]);
    let f3_skipped = plain_field("c", 3, vec!["#[serde(skip)]"]);
    let f3 = node("c", item(3, Some("g"), vec![], ItemEnum::StructField(Type::Other)));
    let f9 = plain_field("c", 9, vec![]);
    let found = s.fields(vec![(&f2,), (&f1,), (&f3_skipped,), (&f3,), (&f9,)]);
    assert_eq!(found.len(), 3);
    assert_eq!(found[0].id, gid("c", 1));
    assert_eq!(found[1].id, gid("c", 2));
    assert_eq!(found[2].id, gid("c", 3));
    assert_eq!(found[2].item.name.as_deref(), Some("g"));
}

#[test]
fn has_field_needs_same_crate_and_no_skip() {
    let s = struct_with_fields("c", vec![1, 2]);
    assert!(s.has_field(&plain_field("c", 1, vec![])));
    assert!(!s.has_field(&plain_field("c", 3, vec![])));
    assert!(!s.has_field(&plain_field("d", 1, vec![])));
    assert!(!s.has_field(&plain_field("c", 2, vec!["#[serde ( skip ) ]"])));
}

#[test]
fn variant_fields_are_fields() {
    let v = node(
        "c",
        item(1, Some("V"), vec![], ItemEnum::Variant(VariantKind::Tuple(vec![None, Some(Id(4))]))),
    );
    assert!(v.has_field(&plain_field("c", 4, vec![])));
    let f4 = plain_field("c", 4, vec![]);
    assert_eq!(v.fields(vec![(&f4,)]).len(), 1);
    let unit = node("c", item(2, Some("W"), vec![], ItemEnum::Variant(VariantKind::Plain)));
    assert!(!unit.has_field(&f4));
}

#[test]
fn variants_come_in_declaration_order() {
    let e = node("c", item(1, Some("E"), vec![], ItemEnum::Enum { variants: vec![Id(5), Id(6)] }));
    let v6 = node("c", item(6, Some("B"), vec![], ItemEnum::Variant(VariantKind::Plain)));
    let v5 = node("c", item(5, Some("A"), vec![], ItemEnum::Variant(VariantKind::Plain)));
    let v7 = node("c", item(7, Some("C"), vec!["#[serde(skip)]"], ItemEnum::Variant(VariantKind::Plain)));
    let found = e.variants(vec![(&v6,), (&v7,), (&v5,)]);
    assert_eq!(found.len(), 2);
    assert_eq!(found[0].item.name.as_deref(), Some("A"));
    assert_eq!(found[1].item.name.as_deref(), Some("B"));
    assert!(e.has_variant(&v5));
    assert!(!e.has_variant(&v7));
    let skipped = node("c", item(5, Some("A"), vec!["#[serde(skip)]"], ItemEnum::Variant(VariantKind::Plain)));
    assert!(!e.has_variant(&skipped));
}

#[test]
fn range_fields_are_recognised() {
    assert!(field("c", 1, path("std::ops::Range", 3, None)).is_range());
    assert!(!field("c", 1, path("Range", 3, None)).is_range());
    assert!(!field("c", 1, Type::Other).is_range());
}

#[test]
fn fields_of_a_local_type_are_found_through_containers() {
    let foo = node("c", item(5, Some("Foo"), vec![], ItemEnum::Other));
    assert!(field("c", 1, path("Foo", 5, None)).is_of_local_type(&foo));
    assert!(field("c", 1, path("Vec", 100, Some(angle(vec![path("Foo", 5, None)])))).is_of_local_type(&foo));
    assert!(field("c", 1, Type::Tuple(vec![Type::Other, path("Foo", 5, None)])).is_of_local_type(&foo));
    assert!(field("c", 1, Type::Slice(Box::new(path("Foo", 5, None)))).is_of_local_type(&foo));
    assert!(field("c", 1, Type::Array { type_: Box::new(path("Foo", 5, None)) }).is_of_local_type(&foo));
    assert!(field(
        "c",
        1,
        Type::QualifiedPath { self_type: Box::new(path("Foo", 5, None)), args: Box::new(angle(vec![])) }
    )
    .is_of_local_type(&foo));
    assert!(field(
        "c",
        1,
        path("Fn", 100, Some(GenericArgs::Parenthesized { inputs: vec![path("Foo", 5, None)] }))
    )
    .is_of_local_type(&foo));
    assert!(!field("c", 1, path("Bar", 6, None)).is_of_local_type(&foo));
    assert!(!field("d", 1, path("Foo", 5, None)).is_of_local_type(&foo));
    let assoc = node(
        "c",
        item(2, Some("Output"), vec![], ItemEnum::AssocType { type_: Some(path("Foo", 5, None)) }),
    );
    assert!(assoc.is_of_local_type(&foo));
}

#[test]
fn remote_types_are_not_looked_for_inside_std_containers() {
    let foo = summary("c", 5, 1, vec!["other", "Foo"]);
    assert!(field("c", 1, path("Foo", 5, None)).is_of_remote_type(&foo));
    for container in ["Option", "String", "Vec", "std::ops::Range"] {
        let f = field("c", 1, path(container, 100, Some(angle(vec![path("Foo", 5, None)]))));
        assert!(!f.is_of_remote_type(&foo));
        assert!(f.is_of_local_type(&node("c", item(5, Some("Foo"), vec![], ItemEnum::Other))));
    }
    assert!(field("c", 1, path("Box", 100, Some(angle(vec![path("Foo", 5, None)])))).is_of_remote_type(&foo));
}

#[test]
fn associated_items_are_found_by_name() {
    let imp = node(
        "c",
        item(1, None, vec![], ItemEnum::Impl { trait_: None, for_: Type::Other, items: vec![Id(20)] }),
    );
    let output = node("c", item(20, Some("Output"), vec![], ItemEnum::AssocType { type_: None }));
    assert!(imp.has_associated_item(&output, "Output"));
    assert!(!imp.has_associated_item(&output, "Event"));
    let elsewhere = node("c", item(21, Some("Output"), vec![], ItemEnum::AssocType { type_: None }));
    assert!(!imp.has_associated_item(&elsewhere, "Output"));
    let other_crate = node("d", item(20, Some("Output"), vec![], ItemEnum::AssocType { type_: None }));
    assert!(!imp.has_associated_item(&other_crate, "Output"));
}

#[test]
fn impls_are_matched_with_their_type_and_trait() {
    let model = node("c", item(9, Some("Model"), vec![], ItemEnum::Other));
    let imp = node(
        "c",
        item(
            1,
            None,
            vec![],
            ItemEnum::Impl {
                trait_: Some(Path { name: "App".to_string(), id: Id(50), args: None }),
                for_: path("Model", 9, None),
                items: vec![],
            },
        ),
    );
    assert!(imp.is_impl_for(&model, "App"));
    assert!(!imp.is_impl_for(&model, "Effect"));
    assert!(!imp.is_impl_for(&node("d", item(9, Some("Model"), vec![], ItemEnum::Other)), "App"));
}

#[test]
fn summaries_and_crates() {
    let s = summary("c", 4, 2, vec!["dep", "m", "T"]);
    let n = node("c", item(4, Some("T"), vec![], ItemEnum::Other));
    assert!(n.has_summary(&s));
    assert!(!node("c", item(5, Some("T"), vec![], ItemEnum::Other)).has_summary(&s));
    assert_eq!(s.path(), vec!["dep".to_string(), "m".to_string(), "T".to_string()]);
    let krate = CrateNode::new(
        "c".to_string(),
        2,
        ExternalCrate { name: "dep".to_string(), html_root_url: None },
    );
    assert!(s.points_to_crate(&krate));
    let other = CrateNode::new(
        "c".to_string(),
        3,
        ExternalCrate { name: "dep".to_string(), html_root_url: None },
    );
    assert!(!s.points_to_crate(&other));
    assert!(summary("x", 1, 0, vec!["a"]).in_same_module_as(&summary("y", 2, 0, vec!["b"])));
}

#[test]
fn summaries_order_before_items_and_nodes_compare_by_id() {
    let s = Node::Summary(summary("c", 4, 2, vec!["dep", "T"]));
    let i = Node::Item(node("c", item(4, Some("T"), vec![], ItemEnum::Other)));
    let j = Node::Item(node("c", item(7, Some("U"), vec![], ItemEnum::Other)));
    assert_eq!(s.cmp(&i), Ordering::Less);
    assert_eq!(i.cmp(&s), Ordering::Greater);
    assert_eq!(i.cmp(&j), Ordering::Equal);
    assert_eq!(s.partial_cmp(&i), Some(Ordering::Less));
    assert!(s < i);
    assert!(!(i < j) && i <= j);
    assert!(s == i);
    assert!(i != j);
    assert_eq!(hash_of(&s), hash_of(&i));
    assert_eq!(i.id(), &gid("c", 4));
    let copy = j.clone();
    assert!(copy == j);
}

#[test]
fn crate_nodes_compare_and_copy_by_id() {
    let krate = CrateNode::new(
        "c".to_string(),
        2,
        ExternalCrate { name: "dep".to_string(), html_root_url: Some("https://docs.rs".to_string()) },
    );
    let copy = krate.clone();
    assert!(copy == krate);
    assert_eq!(copy.crate_, krate.crate_);
    assert_eq!(hash_of(&copy), hash_of(&gid("c", 2)));
}

#[test]
fn fields_do_not_depend_on_the_order_of_candidates() {
    let s = struct_with_fields("c", vec![3, 1, 2]);
    let f1 = plain_field("c", 1, vec![]);
    let f2 = plain_field("c", 2, vec![]);
    let f3 = plain_field("c", 3, vec![]);
    let f7 = plain_field("c", 7, vec![]);
    let one = s.fields(vec![(&f1,), (&f2,), (&f3,), (&f7,)]);
    let other = s.fields(vec![(&f7,), (&f3,), (&f2,), (&f1,)]);
    let ids: Vec<u32> = one.iter().map(|n| n.id.id).collect();
    assert_eq!(ids, vec![3, 1, 2]);
    assert_eq!(one, other);
}
