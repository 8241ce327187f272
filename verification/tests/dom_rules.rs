use renderer::elements::{html_element_interface, listed_element_interface};
use renderer::exceptions::{dom_exception_code, DomExceptionKind, JsDomException, QuotaMember};
use renderer::encoding::encode_form;
use renderer::forms::{
    direction_code, direction_name, encoding_keyword, form_target_is_self, hard_wrap,
    control_entries, entry_list, latin1_bytes, parse_positive, pending_entry, wrap_is_hard,
    ControlState, ListedControl, OptionState, PendingEntry,
};
use renderer::names::{
    is_name_char, is_name_start, split_qualified_name, valid_attribute_local_name,
    valid_doctype_name, valid_element_local_name, valid_namespace_prefix, valid_ncname,
    valid_qualified_name, validate_and_extract, NodeContext,
};
use renderer::text::{
    ascii_lower, eq_ignore_ascii_case, find_char, is_infra_whitespace, split_char,
    to_ascii_lowercase, trim, trim_class, CharClass,
};
use renderer::tokens::{
    class_tokens, serialize_tokens, token_list_add, token_list_item, token_list_remove,
    token_list_replace, token_list_toggle, validate_token, validate_token_pair,
};

fn strings(items: &[&str]) -> Vec<String> {
    items.iter().map(|s| s.to_string()).collect()
}

#[test]
fn exception_codes_follow_the_legacy_table() {
    assert_eq!(dom_exception_code("IndexSizeError"), 1);
    assert_eq!(dom_exception_code("HierarchyRequestError"), 3);
    assert_eq!(dom_exception_code("NamespaceError"), 14);
    assert_eq!(dom_exception_code("DataCloneError"), 25);
    assert_eq!(dom_exception_code("INDEX_SIZE_ERR"), 0);
    assert_eq!(dom_exception_code("EncodingError"), 0);
    assert_eq!(DomExceptionKind::Syntax.name(), "SyntaxError");
    assert_eq!(DomExceptionKind::Syntax.code(), 12);
    assert_eq!(DomExceptionKind::InvalidCharacter.code(), 5);
}

#[test]
fn dom_exception_constructor_defaults() {
    let plain = JsDomException::new(None, None);
    assert_eq!(plain.get_name(), "Error");
    assert_eq!(plain.get_message(), "");
    assert_eq!(plain.get_code(), 0);
    let named = JsDomException::new(Some("boom".into()), Some("NotFoundError".into()));
    assert_eq!(named.get_name(), "NotFoundError");
    assert_eq!(named.get_message(), "boom");
    assert_eq!(named.get_code(), 8);
    let empty_name = JsDomException::new(Some("m".into()), Some(String::new()));
    assert_eq!(empty_name.get_name(), "Error");
    assert!(matches!(plain.get_requested(), QuotaMember::Null | QuotaMember::Undefined));
}

#[test]
fn xml_names() {
    assert!(is_name_start('a'));
    assert!(!is_name_start(':'));
    assert!(is_name_start('_'));
    assert!(!is_name_start('1'));
    assert!(is_name_char('1'));
    assert!(is_name_char('-'));
    assert!(valid_ncname("foo-bar"));
    assert!(!valid_ncname("a:b"));
    assert!(!valid_ncname(""));
    assert!(valid_qualified_name("svg:rect"));
    assert!(!valid_qualified_name("a:b:c"));
    assert!(!valid_qualified_name(":a"));
    assert_eq!(split_qualified_name("svg:rect"), (Some("svg"), "rect"));
    assert_eq!(split_qualified_name("rect"), (None, "rect"));
    assert!(valid_doctype_name("html"));
    assert!(!valid_doctype_name("a b"));
    assert!(valid_namespace_prefix("x"));
    assert!(!valid_namespace_prefix(""));
    assert!(valid_attribute_local_name("data-x"));
    assert!(!valid_attribute_local_name("a b"));
    assert!(valid_element_local_name("my-element"));
    assert!(!valid_element_local_name(""));
}

#[test]
fn validate_and_extract_splits_and_refuses() {
    let svg = "http://www.w3.org/2000/svg";
    let name = validate_and_extract(Some(svg), "s:rect", NodeContext::Element).expect("valid");
    assert_eq!(name.prefix.as_deref(), Some("s"));
    assert_eq!(name.namespace, svg);
    assert_eq!(name.local, "rect");
    assert_eq!(
        validate_and_extract(None, "s:rect", NodeContext::Element).err(),
        Some(DomExceptionKind::Namespace)
    );
    assert_eq!(
        validate_and_extract(Some(svg), "xmlns", NodeContext::Attribute).err(),
        Some(DomExceptionKind::Namespace)
    );
    let xmlns = validate_and_extract(
        Some("http://www.w3.org/2000/xmlns/"),
        "xmlns:a",
        NodeContext::Attribute,
    )
    .expect("xmlns prefix in the xmlns namespace");
    assert_eq!(xmlns.local, "a");
}

#[test]
fn text_helpers() {
    assert!(is_infra_whitespace('\u{c}'));
    assert!(!is_infra_whitespace('\u{b}'));
    assert_eq!(trim("  a b \n"), "a b");
    assert_eq!(trim_class("'\"x\"'", CharClass::Quote), "x");
    assert_eq!(ascii_lower('Q'), 'q');
    assert!(eq_ignore_ascii_case("HaRd", "hard"));
    assert!(!eq_ignore_ascii_case("hard", "har"));
    assert_eq!(to_ascii_lowercase("ÀB"), "Àb");
    assert_eq!(find_char("a=b=c", '='), Some(1));
    assert_eq!(find_char("abc", '='), None);
    assert_eq!(split_char("a;;b", ';'), strings(&["a", "", "b"]));
    assert_eq!(split_char("", ';'), strings(&[""]));
}

#[test]
fn class_tokens_dedupe_in_order() {
    assert_eq!(class_tokens("  a b\ta  c "), strings(&["a", "b", "c"]));
    assert!(class_tokens(" \n ").is_empty());
    assert_eq!(serialize_tokens(&strings(&["a", "b"])), "a b");
    assert_eq!(token_list_item(&strings(&["a", "b"]), 1), Some("b".to_string()));
    assert_eq!(token_list_item(&strings(&["a", "b"]), 2), None);
    assert_eq!(token_list_item(&strings(&["a", "b"]), -1), None);
}

#[test]
fn token_validation_errors() {
    assert_eq!(validate_token(""), Err(DomExceptionKind::Syntax));
    assert_eq!(validate_token("a b"), Err(DomExceptionKind::InvalidCharacter));
    assert_eq!(validate_token("ok"), Ok(()));
    assert_eq!(validate_token_pair("", "a b"), Err(DomExceptionKind::Syntax));
    assert_eq!(validate_token_pair("a b", "x"), Err(DomExceptionKind::InvalidCharacter));
}

#[test]
fn token_list_operations() {
    let added = token_list_add(strings(&["a"]), &strings(&["b", "a", "c"])).expect("add");
    assert_eq!(added, strings(&["a", "b", "c"]));
    assert_eq!(
        token_list_add(strings(&["a"]), &strings(&["b", ""])).err(),
        Some(DomExceptionKind::Syntax)
    );
    let removed = token_list_remove(strings(&["a", "b", "c"]), &strings(&["b"])).expect("remove");
    assert_eq!(removed, strings(&["a", "c"]));

    let on = token_list_toggle(strings(&["a"]), "b", None).expect("toggle");
    assert!(on.present);
    assert_eq!(on.updated, Some(strings(&["a", "b"])));
    let off = token_list_toggle(strings(&["a", "b"]), "a", None).expect("toggle");
    assert!(!off.present);
    assert_eq!(off.updated, Some(strings(&["b"])));
    let forced = token_list_toggle(strings(&["a"]), "a", Some(true)).expect("toggle");
    assert!(forced.present);
    assert_eq!(forced.updated, None);

    assert_eq!(
        token_list_replace(strings(&["a", "b", "c"]), "a", "c").expect("replace"),
        Some(strings(&["c", "b"]))
    );
    assert_eq!(token_list_replace(strings(&["a"]), "x", "y").expect("replace"), None);
}

#[test]
fn add_then_remove_restores_an_absent_token() {
    let start = strings(&["a", "b"]);
    let added = token_list_add(start.clone(), &strings(&["z"])).expect("add");
    let back = token_list_remove(added, &strings(&["z"])).expect("remove");
    assert_eq!(back, start);
}

#[test]
fn form_helpers() {
    assert!(wrap_is_hard(Some(" HARD ")));
    assert!(!wrap_is_hard(Some("soft")));
    assert!(!wrap_is_hard(None));
    assert_eq!(parse_positive(Some(" 42 ")), Some(42));
    assert_eq!(parse_positive(Some("4x")), None);
    assert_eq!(parse_positive(Some("")), None);
    assert_eq!(parse_positive(None), None);
    assert_eq!(hard_wrap("abcdef\ngh", 4), "abcd\nef\ngh");
    assert_eq!(hard_wrap("abc", 0), "a\nb\nc");
    assert_eq!(hard_wrap("", 3), "");
    assert_eq!(direction_name(1), "forward");
    assert_eq!(direction_name(2), "backward");
    assert_eq!(direction_name(7), "none");
    assert_eq!(direction_code("backward"), 2);
    assert_eq!(direction_code("Forward"), 0);
    assert_eq!(encoding_keyword(" Multipart/Form-Data "), "multipart/form-data");
    assert_eq!(encoding_keyword("text/plain"), "text/plain");
    assert_eq!(encoding_keyword("bogus"), "application/x-www-form-urlencoded");
}

#[test]
fn element_interfaces() {
    assert_eq!(html_element_interface("div"), "HTMLDivElement");
    assert_eq!(html_element_interface("a"), "HTMLAnchorElement");
    assert_eq!(html_element_interface("my-widget"), "HTMLElement");
    assert_eq!(html_element_interface("blink"), "HTMLUnknownElement");
    assert_eq!(listed_element_interface("p"), Some("HTMLParagraphElement"));
}

fn control(local: &str) -> ControlState {
    ControlState {
        local: local.into(),
        type_attr: None,
        value_attr: None,
        wrap_attr: None,
        cols_attr: None,
        multiple: false,
        checked: false,
        current_value: String::new(),
        options: Vec::new(),
    }
}

fn entries(c: &ControlState, submitter: bool) -> Vec<(bool, String, String)> {
    pending_entry(c, "n".into(), submitter)
        .into_iter()
        .map(|e| match e {
            PendingEntry::Text(n, v) => (false, n, v),
            PendingEntry::Files(n) => (true, n, String::new()),
        })
        .collect()
}

fn text_entry(v: &str) -> Vec<(bool, String, String)> {
    vec![(false, "n".to_string(), v.to_string())]
}

#[test]
fn form_data_entries() {
    let mut area = control("textarea");
    area.current_value = "abcdef".into();
    assert_eq!(entries(&area, false), text_entry("abcdef"));
    area.wrap_attr = Some("Hard".into());
    area.cols_attr = Some("4".into());
    assert_eq!(entries(&area, false), text_entry("abcd\nef"));

    let mut button = control("button");
    button.value_attr = Some("go".into());
    assert!(entries(&button, false).is_empty());
    assert_eq!(entries(&button, true), text_entry("go"));

    let mut input = control("input");
    input.current_value = "typed".into();
    assert_eq!(entries(&input, false), text_entry("typed"));
    input.type_attr = Some(" CHECKBOX ".into());
    assert!(entries(&input, false).is_empty());
    input.checked = true;
    assert_eq!(entries(&input, false), text_entry("on"));
    input.type_attr = Some("submit".into());
    assert!(entries(&input, false).is_empty());
    assert_eq!(entries(&input, true), text_entry(""));
    input.type_attr = Some("reset".into());
    assert!(entries(&input, true).is_empty());
    input.type_attr = Some("file".into());
    assert_eq!(entries(&input, false), vec![(true, "n".to_string(), String::new())]);

    let mut select = control("select");
    select.current_value = "one".into();
    assert_eq!(entries(&select, false), text_entry("one"));
    select.multiple = true;
    select.options = vec![
        OptionState { value: "a".into(), selected: true, disabled: false },
        OptionState { value: "b".into(), selected: true, disabled: true },
        OptionState { value: "c".into(), selected: false, disabled: false },
        OptionState { value: "d".into(), selected: true, disabled: false },
    ];
    assert_eq!(
        entries(&select, false),
        vec![(false, "n".to_string(), "a".to_string()), (false, "n".to_string(), "d".to_string())]
    );
    assert!(entries(&control("fieldset"), true).is_empty());
}

#[test]
fn form_bodies_cross_as_latin1() {
    let encoded = encode_form("é".into(), "utf-8".into());
    assert_eq!(latin1_bytes(&encoded), vec![0xC3, 0xA9]);
    assert!(form_target_is_self(""));
    assert!(form_target_is_self("_blank"));
    assert!(!form_target_is_self("frame1"));
}

fn listed(state: ControlState, name: Option<&str>) -> ListedControl {
    ListedControl {
        state,
        owned_by_form: true,
        name: name.map(String::from),
        disabled: false,
        in_datalist: false,
        is_submitter: false,
    }
}

fn texts(v: Vec<PendingEntry>) -> Vec<(String, String)> {
    v.into_iter()
        .map(|e| match e {
            PendingEntry::Text(n, v) => (n, v),
            PendingEntry::Files(n) => (n, "<files>".to_string()),
        })
        .collect()
}

#[test]
fn the_entry_list_skips_unnamed_disabled_and_foreign_controls() {
    let mut a = control("input");
    a.current_value = "1".into();
    let mut hidden = control("input");
    hidden.type_attr = Some(" Hidden ".into());
    hidden.current_value = "x".into();
    let mut other = listed(control("textarea"), Some("t"));
    other.owned_by_form = false;
    let mut off = listed(control("textarea"), Some("t2"));
    off.disabled = true;
    let controls = vec![
        listed(a, Some("a")),
        listed(control("input"), None),
        listed(control("input"), Some("")),
        listed(hidden, Some("_CHARSET_")),
        other,
        off,
        listed(control("div"), Some("d")),
    ];
    assert_eq!(
        texts(entry_list(&controls)),
        vec![("a".to_string(), "1".to_string()), ("_CHARSET_".to_string(), "UTF-8".to_string())]
    );
    assert!(control_entries(&listed(control("input"), None)).is_empty());
}
