use htmlparser::domtree::{comment, elem, text, AttrMap, NodeType};

#[test]
fn text_node_holds_its_data() {
    let node = text("hello".to_string());
    match node.node_type() {
        NodeType::Text(data) => assert_eq!(data, "hello"),
        other => panic!("not text: {:?}", other),
    }
    assert_eq!(node.children().len(), 0);
}

#[test]
fn comment_node_holds_its_data() {
    let node = comment(" note ".to_string());
    match node.node_type() {
        NodeType::Comment(data) => assert_eq!(data, " note "),
        other => panic!("not a comment: {:?}", other),
    }
    assert_eq!(node.children().len(), 0);
}

#[test]
fn element_node_holds_name_attributes_and_children() {
    let mut attrs = AttrMap::new();
    attrs.insert("id".to_string(), "main".to_string());
    let children = vec![text("a".to_string()), comment("b".to_string())];
    let node = elem("div".to_string(), attrs, children);
    match node.node_type() {
        NodeType::Element(data) => {
            assert_eq!(data.tag_name(), "div");
            assert_eq!(data.attributes().len(), 1);
            assert_eq!(data.attributes().get("id"), Some(&"main".to_string()));
        }
        other => panic!("not an element: {:?}", other),
    }
    assert_eq!(node.children().len(), 2);
    assert!(matches!(node.children()[0].node_type(), NodeType::Text(_)));
    assert!(matches!(node.children()[1].node_type(), NodeType::Comment(_)));
}

#[test]
fn element_without_children() {
    let node = elem("br".to_string(), AttrMap::new(), Vec::new());
    assert_eq!(node.children().len(), 0);
}

#[test]
fn new_map_is_empty() {
    let attrs = AttrMap::new();
    assert!(attrs.is_empty());
    assert_eq!(attrs.len(), 0);
    assert_eq!(attrs.get("a"), None);
}

#[test]
fn insert_adds_a_name() {
    let mut attrs = AttrMap::new();
    attrs.insert("a".to_string(), "1".to_string());
    attrs.insert("b".to_string(), "2".to_string());
    assert!(!attrs.is_empty());
    assert_eq!(attrs.len(), 2);
    assert_eq!(attrs.get("a"), Some(&"1".to_string()));
    assert_eq!(attrs.get("b"), Some(&"2".to_string()));
    assert_eq!(attrs.get("c"), None);
}

#[test]
fn insert_replaces_the_value_of_a_name() {
    let mut attrs = AttrMap::new();
    attrs.insert("a".to_string(), "1".to_string());
    attrs.insert("b".to_string(), "2".to_string());
    attrs.insert("a".to_string(), "3".to_string());
    assert_eq!(attrs.len(), 2);
    assert_eq!(attrs.get("a"), Some(&"3".to_string()));
    assert_eq!(attrs.get("b"), Some(&"2".to_string()));
}

#[test]
fn names_are_compared_exactly() {
    let mut attrs = AttrMap::new();
    attrs.insert("a".to_string(), "1".to_string());
    attrs.insert("A".to_string(), "2".to_string());
    attrs.insert("".to_string(), "3".to_string());
    assert_eq!(attrs.len(), 3);
    assert_eq!(attrs.get("A"), Some(&"2".to_string()));
    assert_eq!(attrs.get(""), Some(&"3".to_string()));
    assert_eq!(attrs.get("a "), None);
}
