use renderer::tree::{element_node_name, qualified_name, Attribute, NodeKind, QualName, Tree};

const HTML: &str = "http://www.w3.org/1999/xhtml";
const SVG: &str = "http://www.w3.org/2000/svg";

fn name(ns: &str, prefix: Option<&str>, local: &str) -> QualName {
    QualName { namespace: ns.into(), prefix: prefix.map(String::from), local: local.into() }
}

fn element(ns: &str, prefix: Option<&str>, local: &str, attrs: &[(&str, &str)]) -> NodeKind {
    NodeKind::Element {
        name: name(ns, prefix, local),
        attributes: attrs
            .iter()
            .map(|(k, v)| Attribute { name: name("", None, k), value: v.to_string() })
            .collect(),
    }
}

fn text(data: &str) -> NodeKind {
    NodeKind::Text { data: data.into() }
}

#[test]
fn is_equal_node_compares_structure() {
    let mut t = Tree::new(NodeKind::Document);
    let a = t.append_child(0, element(HTML, None, "p", &[("id", "x"), ("class", "y")]));
    let a_text = t.append_child(a, text("hi"));
    let b = t.append_child(0, element(HTML, None, "p", &[("class", "y"), ("id", "x")]));
    t.append_child(b, text("hi"));
    let c = t.append_child(0, element(HTML, None, "p", &[("class", "y"), ("id", "x")]));
    t.append_child(c, text("ho"));
    let d = t.append_child(0, element(HTML, None, "p", &[("id", "x")]));
    assert!(t.nodes_equal(a, a));
    assert!(t.nodes_equal(a, b));
    assert!(!t.nodes_equal(a, c));
    assert!(!t.nodes_equal(a, d));
    assert!(!t.nodes_equal(a, a_text));
    assert!(!t.nodes_equal(a, 99));
    assert_eq!(t.len(), 8);
    assert_eq!(t.node(a).children, vec![a_text]);
    assert_eq!(t.node(a_text).parent, Some(a));
}

#[test]
fn descendant_text_goes_through_elements_only() {
    let mut t = Tree::new(NodeKind::Fragment);
    let p = t.append_child(0, element(HTML, None, "p", &[]));
    t.append_child(p, text("a"));
    let b = t.append_child(p, element(HTML, None, "b", &[]));
    t.append_child(b, NodeKind::CDataSection { data: "b".into() });
    t.append_child(p, NodeKind::Comment { data: "no".into() });
    t.append_child(0, text("c"));
    assert_eq!(t.descendant_text(0), "abc");
    assert_eq!(t.descendant_text(p), "ab");
    assert_eq!(t.descendant_text(42), "");
}

#[test]
fn namespaces_and_prefixes_are_located_upwards() {
    let mut t = Tree::new(NodeKind::Document);
    let svg = t.append_child(0, element(SVG, Some("s"), "svg", &[]));
    let g = t.append_child(svg, element(SVG, None, "g", &[]));
    let leaf = t.append_child(g, text("x"));
    assert_eq!(t.locate_namespace(leaf, None), Some(SVG.to_string()));
    assert_eq!(t.locate_namespace(leaf, Some("s")), Some(SVG.to_string()));
    assert_eq!(t.locate_namespace(leaf, Some("q")), None);
    assert_eq!(t.locate_prefix(leaf, SVG), Some("s".to_string()));
    assert_eq!(t.locate_prefix(leaf, HTML), None);

    let mut u = Tree::new(NodeKind::Document);
    let e = u.append_child(
        0,
        NodeKind::Element {
            name: name(HTML, None, "div"),
            attributes: vec![Attribute { name: name("urn:x", Some("x"), "a"), value: "1".into() }],
        },
    );
    assert_eq!(u.locate_prefix(e, "urn:x"), Some("x".to_string()));
}

#[test]
fn focus_inside_a_removed_subtree_is_cleared() {
    let mut t = Tree::new(NodeKind::Document);
    let form = t.append_child(0, element(HTML, None, "form", &[]));
    let input = t.append_child(form, element(HTML, None, "input", &[]));
    let other = t.append_child(0, element(HTML, None, "button", &[]));
    assert_eq!(t.focus_after_removal(Some(input), form), None);
    assert_eq!(t.focus_after_removal(Some(input), input), None);
    assert_eq!(t.focus_after_removal(Some(other), form), Some(other));
    assert_eq!(t.focus_after_removal(None, form), None);
    assert!(t.is_inclusive_descendant(0, input));
    assert!(!t.is_inclusive_descendant(input, form));
}

#[test]
fn node_names() {
    assert_eq!(qualified_name(&name(SVG, Some("s"), "rect")), "s:rect");
    assert_eq!(qualified_name(&name(SVG, Some(""), "rect")), "rect");
    assert_eq!(element_node_name(&name(HTML, None, "div"), true), "DIV");
    assert_eq!(element_node_name(&name(HTML, None, "div"), false), "div");
    assert_eq!(element_node_name(&name(SVG, None, "foreignObject"), true), "foreignObject");
}

#[test]
fn node_getters() {
    let mut t = Tree::new(NodeKind::Document);
    let doctype = t.append_child(
        0,
        NodeKind::Doctype { name: "html".into(), public_id: String::new(), system_id: String::new() },
    );
    let body = t.append_child(0, element(HTML, None, "body", &[]));
    let words = t.append_child(body, text("hi"));
    let pi = t.append_child(body, NodeKind::ProcessingInstruction { target: "xml".into(), data: "v".into() });
    assert_eq!(t.node_type(0), Some(9));
    assert_eq!(t.node_type(doctype), Some(10));
    assert_eq!(t.node_type(body), Some(1));
    assert_eq!(t.node_type(words), Some(3));
    assert_eq!(t.node_type(pi), Some(7));
    assert_eq!(t.node_type(99), None);
    assert_eq!(t.node_name(0, true), Some("#document".to_string()));
    assert_eq!(t.node_name(doctype, true), Some("html".to_string()));
    assert_eq!(t.node_name(body, true), Some("BODY".to_string()));
    assert_eq!(t.node_name(body, false), Some("body".to_string()));
    assert_eq!(t.node_name(words, true), Some("#text".to_string()));
    assert_eq!(t.node_name(pi, true), Some("xml".to_string()));
    assert_eq!(t.node_value(words), Some("hi".to_string()));
    assert_eq!(t.node_value(body), None);
    assert_eq!(t.text_content(body), Some("hi".to_string()));
    assert_eq!(t.text_content(pi), Some("v".to_string()));
    assert_eq!(t.text_content(0), None);
}

#[test]
fn tree_navigation() {
    let mut t = Tree::new(NodeKind::Document);
    let html = t.append_child(0, element(HTML, None, "html", &[]));
    let a = t.append_child(html, text("a"));
    let b = t.append_child(html, text("b"));
    assert_eq!(t.root_of(b), 0);
    assert_eq!(t.root_of(0), 0);
    assert_eq!(t.first_last_child(html), (Some(a), Some(b)));
    assert_eq!(t.first_last_child(a), (None, None));
    assert!(t.has_child_nodes(html));
    assert!(!t.has_child_nodes(b));
    assert!(!t.has_child_nodes(77));
}
