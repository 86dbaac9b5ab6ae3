use crux_cli::model::{Id, Item, ItemEnum, ItemSummary, StructKind};
use crux_cli::node::{ItemNode, SummaryNode};
use rustdoc_types::ItemKind;

fn make_summary(id: u32, path: Vec<String>) -> SummaryNode {
    SummaryNode::new(
        "test".to_string(),
        id,
        ItemSummary {
            crate_id: 0,
            path,
            kind: ItemKind::Struct,
        },
    )
}

fn make_node(name: Option<String>, attrs: Vec<String>) -> ItemNode {
    ItemNode::new(
        "test".to_string(),
        Item {
            name,
            attrs,
            inner: ItemEnum::Struct {
                kind: StructKind::Plain { fields: vec![] },
                impls: vec![],
            },
            id: Id(0),
        },
    )
}

#[test]
fn test_in_same_module_as() {
    let summary1 = make_summary(0, vec!["foo".to_string(), "bar".to_string()]);
    let summary2 = make_summary(1, vec!["foo".to_string(), "baz".to_string()]);
    assert!(summary1.in_same_module_as(&summary2));
}

#[test]
fn test_in_same_module_as_different_length() {
    let summary1 = make_summary(0, vec!["foo".to_string(), "bar".to_string()]);
    let summary2 = make_summary(1, vec!["foo".to_string()]);
    assert!(!summary1.in_same_module_as(&summary2));
}

#[test]
fn test_in_same_module_as_different_module() {
    let summary1 = make_summary(0, vec!["foo".to_string(), "bar".to_string()]);
    let summary2 = make_summary(1, vec!["baz".to_string(), "bar".to_string()]);
    assert!(!summary1.in_same_module_as(&summary2));
}

#[test]
fn test_get_name() {
    let name = Some("Foo".to_string());
    let attrs = vec![];
    let node = make_node(name, attrs);
    assert_eq!(node.name().as_deref(), Some("Foo"));
}

#[test]
fn test_get_name_with_rename() {
    let name = Some("Foo".to_string());
    let attrs = vec![r#"#[serde(rename = "Bar")]"#.to_string()];
    let node = make_node(name, attrs);
    assert_eq!(node.name().as_deref(), Some("Bar"));
}

#[test]
fn test_get_name_with_rename_no_whitespace() {
    let name = Some("Foo".to_string());
    let attrs = vec![r#"#[serde(rename="Bar")]"#.to_string()];
    let node = make_node(name, attrs);
    assert_eq!(node.name().as_deref(), Some("Bar"));
}

#[test]
fn test_get_name_with_no_name() {
    let name = None;
    let attrs = vec![];
    let node = make_node(name, attrs);
    assert_eq!(node.name(), None);
}
