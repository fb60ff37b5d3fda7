use htmlparser::domtree::{Node, NodeType};
use htmlparser::error::{ErrorKind, Expected, Found, ParseError};
use htmlparser::parser::parse;

fn tag_of(node: &Node) -> String {
    match node.node_type() {
        NodeType::Element(data) => data.tag_name().clone(),
        other => panic!("not an element: {:?}", other),
    }
}

fn text_of(node: &Node) -> String {
    match node.node_type() {
        NodeType::Text(data) => data.clone(),
        other => panic!("not a text node: {:?}", other),
    }
}

fn comment_of(node: &Node) -> String {
    match node.node_type() {
        NodeType::Comment(data) => data.clone(),
        other => panic!("not a comment: {:?}", other),
    }
}

fn attr_of(node: &Node, name: &str) -> Option<String> {
    match node.node_type() {
        NodeType::Element(data) => data.attributes().get(name).cloned(),
        other => panic!("not an element: {:?}", other),
    }
}

fn attr_count(node: &Node) -> usize {
    match node.node_type() {
        NodeType::Element(data) => data.attributes().len(),
        other => panic!("not an element: {:?}", other),
    }
}

fn mismatch(expected: Expected, found: Found, position: usize) -> ParseError {
    ParseError { kind: ErrorKind::StructuralMismatch { expected, found }, position }
}

fn failure(source: &str) -> ParseError {
    match parse(source.to_string()) {
        Ok(node) => panic!("parsed to {:?}", node),
        Err(e) => e,
    }
}

#[test]
fn element_with_one_text_child() {
    let root = parse("<p>hi</p>".to_string()).unwrap();
    assert_eq!(tag_of(&root), "p");
    assert_eq!(attr_count(&root), 0);
    assert_eq!(root.children().len(), 1);
    assert_eq!(text_of(&root.children()[0]), "hi");
    assert_eq!(root.children()[0].children().len(), 0);
}

#[test]
fn attributes_in_both_quote_styles() {
    let root = parse("<div id=\"main\" class='test'></div>".to_string()).unwrap();
    assert_eq!(tag_of(&root), "div");
    assert_eq!(attr_count(&root), 2);
    assert_eq!(attr_of(&root, "id"), Some("main".to_string()));
    assert_eq!(attr_of(&root, "class"), Some("test".to_string()));
    assert_eq!(attr_of(&root, "style"), None);
    assert_eq!(root.children().len(), 0);
}

#[test]
fn duplicate_attribute_keeps_last_value() {
    let root = parse("<a x=\"1\" x=\"2\"></a>".to_string()).unwrap();
    assert_eq!(attr_count(&root), 1);
    assert_eq!(attr_of(&root, "x"), Some("2".to_string()));
}

#[test]
fn comment_keeps_single_and_double_dashes() {
    let root = parse("<!-- a - b -- c -->".to_string()).unwrap();
    assert_eq!(comment_of(&root), " a - b -- c ");
    assert_eq!(root.children().len(), 0);
}

#[test]
fn several_top_nodes_get_an_html_root() {
    let root = parse("<a></a><b></b>".to_string()).unwrap();
    assert_eq!(tag_of(&root), "html");
    assert_eq!(attr_count(&root), 0);
    assert_eq!(root.children().len(), 2);
    assert_eq!(tag_of(&root.children()[0]), "a");
    assert_eq!(tag_of(&root.children()[1]), "b");
}

#[test]
fn single_top_node_is_the_root() {
    let root = parse("  <x></x>  ".to_string()).unwrap();
    assert_eq!(tag_of(&root), "x");
    assert_eq!(root.children().len(), 0);
}

#[test]
fn closing_tags_in_wrong_order_fail() {
    let e = failure("<a><b></a></b>");
    assert_eq!(
        e,
        mismatch(Expected::TagName("b".to_string()), Found::TagName("a".to_string()), 9)
    );
}

#[test]
fn white_space_between_nodes_is_in_no_node() {
    let root = parse("<a> \n\t <b></b> \r\n  <!-- c -->   <d></d>\n</a>\n".to_string()).unwrap();
    assert_eq!(tag_of(&root), "a");
    assert_eq!(root.children().len(), 3);
    assert_eq!(tag_of(&root.children()[0]), "b");
    assert_eq!(comment_of(&root.children()[1]), " c ");
    assert_eq!(tag_of(&root.children()[2]), "d");
}

#[test]
fn white_space_before_text_is_dropped_and_behind_it_kept() {
    let root = parse("<p>   hi there  </p>".to_string()).unwrap();
    assert_eq!(root.children().len(), 1);
    assert_eq!(text_of(&root.children()[0]), "hi there  ");
}

#[test]
fn the_amount_of_white_space_does_not_matter() {
    let tight = parse("<a><b></b><c></c></a>".to_string()).unwrap();
    let loose = parse("   <a>  <b>   </b> \n\n <c>\t</c>     </a>  ".to_string()).unwrap();
    assert_eq!(format!("{:?}", tight), format!("{:?}", loose));
}

#[test]
fn empty_input_gives_an_empty_html_root() {
    let root = parse(String::new()).unwrap();
    assert_eq!(tag_of(&root), "html");
    assert_eq!(attr_count(&root), 0);
    assert_eq!(root.children().len(), 0);
}

#[test]
fn blank_input_gives_an_empty_html_root() {
    let root = parse(" \n\t ".to_string()).unwrap();
    assert_eq!(tag_of(&root), "html");
    assert_eq!(root.children().len(), 0);
}

#[test]
fn bare_text_is_a_text_root() {
    let root = parse("hello".to_string()).unwrap();
    assert_eq!(text_of(&root), "hello");
}

#[test]
fn text_and_element_siblings() {
    let root = parse("<p>Hello <em>world</em>!</p>".to_string()).unwrap();
    assert_eq!(root.children().len(), 3);
    assert_eq!(text_of(&root.children()[0]), "Hello ");
    assert_eq!(tag_of(&root.children()[1]), "em");
    assert_eq!(text_of(&root.children()[1].children()[0]), "world");
    assert_eq!(text_of(&root.children()[2]), "!");
}

#[test]
fn nested_elements() {
    let root = parse("<html><body><h1>Title</h1></body></html>".to_string()).unwrap();
    assert_eq!(tag_of(&root), "html");
    let body = &root.children()[0];
    assert_eq!(tag_of(body), "body");
    let h1 = &body.children()[0];
    assert_eq!(tag_of(h1), "h1");
    assert_eq!(text_of(&h1.children()[0]), "Title");
}

#[test]
fn characters_of_several_bytes() {
    let root = parse("<p t='\u{e9}\u{4e16}'>h\u{e9}llo \u{1f600}</p>".to_string()).unwrap();
    assert_eq!(attr_of(&root, "t"), Some("\u{e9}\u{4e16}".to_string()));
    assert_eq!(text_of(&root.children()[0]), "h\u{e9}llo \u{1f600}");
}

#[test]
fn positions_count_characters() {
    let e = failure("<p>\u{e9}\u{1f600}</q>");
    assert_eq!(
        e,
        mismatch(Expected::TagName("p".to_string()), Found::TagName("q".to_string()), 8)
    );
}

#[test]
fn a_closing_tag_at_the_top_ends_the_document() {
    let root = parse("<a></a></b><c></c>".to_string()).unwrap();
    assert_eq!(tag_of(&root), "a");
    let root = parse("</x>".to_string()).unwrap();
    assert_eq!(tag_of(&root), "html");
    assert_eq!(root.children().len(), 0);
}

#[test]
fn comment_between_elements() {
    let root = parse("<a><!-- one --><b></b></a>".to_string()).unwrap();
    assert_eq!(root.children().len(), 2);
    assert_eq!(comment_of(&root.children()[0]), " one ");
    assert_eq!(tag_of(&root.children()[1]), "b");
}

#[test]
fn comment_that_nothing_closes_runs_to_the_end() {
    let root = parse("<!-- never closed".to_string()).unwrap();
    assert_eq!(comment_of(&root), " never closed");
    let root = parse("<!-- dash -".to_string()).unwrap();
    assert_eq!(comment_of(&root), " dash -");
    let root = parse("<!-- dashes --".to_string()).unwrap();
    assert_eq!(comment_of(&root), " dashes --");
}

#[test]
fn three_dashes_do_not_close_a_comment() {
    let root = parse("<!-- a ---> b -->".to_string()).unwrap();
    assert_eq!(comment_of(&root), " a ---> b ");
}

#[test]
fn four_dashes_close_a_comment() {
    let root = parse("<!-- a ---->".to_string()).unwrap();
    assert_eq!(comment_of(&root), " a --");
}

#[test]
fn empty_comment() {
    let root = parse("<!-- -->".to_string()).unwrap();
    assert_eq!(comment_of(&root), " ");
}

#[test]
fn name_behind_the_comment_marker_makes_an_element() {
    let e = failure("<!--a-->");
    assert_eq!(e, mismatch(Expected::Char('<'), Found::EndOfInput, 8));
    let root = parse("<!--a--></!--a-->".to_string()).unwrap();
    assert_eq!(tag_of(&root), "!--a--");
}

#[test]
fn comment_in_an_element_that_is_not_closed() {
    let e = failure("<a><!-- x");
    assert_eq!(e, mismatch(Expected::Char('<'), Found::EndOfInput, 9));
}

#[test]
fn missing_closing_tag() {
    let e = failure("<a>text");
    assert_eq!(e, mismatch(Expected::Char('<'), Found::EndOfInput, 7));
}

#[test]
fn closing_tag_without_its_end() {
    let e = failure("<a></a");
    assert_eq!(e, mismatch(Expected::Char('>'), Found::EndOfInput, 6));
    let e = failure("<a></a x>");
    assert_eq!(e, mismatch(Expected::Char('>'), Found::Char(' '), 6));
}

#[test]
fn opening_tag_without_its_end() {
    let e = failure("<a");
    assert_eq!(e, mismatch(Expected::Char('>'), Found::EndOfInput, 2));
    let e = failure("<a id='x'   ");
    assert_eq!(e, mismatch(Expected::Char('>'), Found::EndOfInput, 12));
}

#[test]
fn attribute_without_equals_sign() {
    let e = failure("<a b></a>");
    assert_eq!(e, mismatch(Expected::Char('='), Found::Char('>'), 4));
    let e = failure("<a b");
    assert_eq!(e, mismatch(Expected::Char('='), Found::EndOfInput, 4));
}

#[test]
fn attribute_value_without_quotes() {
    let e = failure("<a b=c></a>");
    assert_eq!(e, mismatch(Expected::Quote, Found::Char('c'), 5));
    let e = failure("<a b=");
    assert_eq!(e, mismatch(Expected::Quote, Found::EndOfInput, 5));
}

#[test]
fn attribute_value_without_closing_quote() {
    let e = failure("<a b=\"c'></a>");
    assert_eq!(e, mismatch(Expected::Char('"'), Found::EndOfInput, 13));
    let e = failure("<a b='c\"></a>");
    assert_eq!(e, mismatch(Expected::Char('\''), Found::EndOfInput, 13));
}

#[test]
fn quote_of_the_other_kind_inside_a_value() {
    let root = parse("<a b=\"it's\" c='say \"hi\"'></a>".to_string()).unwrap();
    assert_eq!(attr_of(&root, "b"), Some("it's".to_string()));
    assert_eq!(attr_of(&root, "c"), Some("say \"hi\"".to_string()));
}

#[test]
fn attribute_with_empty_name_or_value() {
    let root = parse("<a =\"v\" k=''></a>".to_string()).unwrap();
    assert_eq!(attr_count(&root), 2);
    assert_eq!(attr_of(&root, ""), Some("v".to_string()));
    assert_eq!(attr_of(&root, "k"), Some(String::new()));
}

#[test]
fn self_closing_tag_is_a_mismatch() {
    let e = failure("<img src=\"test.png\" />");
    assert_eq!(e, mismatch(Expected::Char('='), Found::Char('/'), 20));
}

#[test]
fn element_with_empty_name() {
    let root = parse("<></>".to_string()).unwrap();
    assert_eq!(tag_of(&root), "");
}

#[test]
fn tag_names_are_compared_exactly() {
    let e = failure("<a></A>");
    assert_eq!(
        e,
        mismatch(Expected::TagName("a".to_string()), Found::TagName("A".to_string()), 6)
    );
    let e = failure("<a></>");
    assert_eq!(
        e,
        mismatch(Expected::TagName("a".to_string()), Found::TagName(String::new()), 5)
    );
}

#[test]
fn mismatch_deep_in_the_tree_is_reported() {
    let e = failure("<a><b><c></c></b><d x></d></a>");
    assert_eq!(e, mismatch(Expected::Char('='), Found::Char('>'), 21));
}

#[test]
fn sample_page_stops_at_the_self_closing_tag() {
    let page = "\n<html>\n    <body>\n        <!-- This is a comment -->\n        <h1>Title</h1>\n        <div id=\"main\" class=\"test\">\n            <img src=\"test.png\" />\n            <p>Hello <em>world</em>!</p>\n         </div>\n    </body>\n</html>\n";
    let e = failure(page);
    let at = page.chars().position(|c| c == '/').unwrap();
    let slash = page.find(" />").unwrap() + 1;
    assert!(at < slash);
    assert_eq!(
        e,
        mismatch(Expected::Char('='), Found::Char('/'), page[..slash].chars().count())
    );
}

#[test]
fn sample_page_without_the_self_closing_tag() {
    let page = "\n<html>\n    <body>\n        <!-- This is a comment -->\n        <h1>Title</h1>\n        <div id=\"main\" class=\"test\">\n            <p>Hello <em>world</em>!</p>\n         </div>\n    </body>\n</html>\n";
    let root = parse(page.to_string()).unwrap();
    assert_eq!(tag_of(&root), "html");
    let body = &root.children()[0];
    assert_eq!(body.children().len(), 3);
    assert_eq!(comment_of(&body.children()[0]), " This is a comment ");
    assert_eq!(tag_of(&body.children()[1]), "h1");
    let div = &body.children()[2];
    assert_eq!(attr_of(div, "id"), Some("main".to_string()));
    assert_eq!(attr_of(div, "class"), Some("test".to_string()));
    let p = &div.children()[0];
    assert_eq!(p.children().len(), 3);
    assert_eq!(text_of(&p.children()[2]), "!");
}
