use pagezest::custom_tag::{
    custom_tag_would_panic, is_custom_tag, parse_custom_tag, parse_tag_and_attributes,
};

fn attr(a: &pagezest::custom_tag::Attributes, k: &str) -> Option<String> {
    a.get(&k.to_string()).cloned()
}

#[test]
fn tag_name_and_attributes() {
    let (name, attrs) = parse_tag_and_attributes("youtube id=\"abc\"  w=\"3\"");
    assert_eq!(name, "youtube");
    assert_eq!(attrs.len(), 2);
    assert_eq!(attr(&attrs, "id"), Some("abc".to_string()));
    assert_eq!(attr(&attrs, "w"), Some("3".to_string()));
}

#[test]
fn later_attribute_wins() {
    let (_, attrs) = parse_tag_and_attributes("a k=\"1\" k=\"2\"");
    assert_eq!(attrs.len(), 1);
    assert_eq!(attr(&attrs, "k"), Some("2".to_string()));
}

#[test]
fn attribute_edge_cases() {
    // a key without a value, and an unquoted value that is not read
    let (name, attrs) = parse_tag_and_attributes("name   a=\"b\"  c");
    assert_eq!(name, "name");
    assert_eq!(attr(&attrs, "a"), Some("b".to_string()));
    assert_eq!(attr(&attrs, "c"), Some("".to_string()));
    let (name, attrs) = parse_tag_and_attributes("x =y");
    assert_eq!(name, "x");
    assert_eq!(attrs.len(), 1);
    assert_eq!(attr(&attrs, "y"), Some("".to_string()));
    // an unterminated quote runs to the end
    let (_, attrs) = parse_tag_and_attributes("t k=\"open");
    assert_eq!(attr(&attrs, "k"), Some("open".to_string()));
    let (name, attrs) = parse_tag_and_attributes("");
    assert_eq!(name, "");
    assert_eq!(attrs.len(), 0);
}

#[test]
fn custom_tag_is_cut_from_trimmed_text() {
    let t = parse_custom_tag("  [[toc depth=\"2\"]]inner text[[/toc]] \n").unwrap();
    assert_eq!(t.name, "toc");
    assert_eq!(t.content, "inner text");
    assert_eq!(attr(&t.attributes, "depth"), Some("2".to_string()));
}

#[test]
fn content_stops_at_first_closing_tag() {
    let t = parse_custom_tag("[[a]]one[[/a]]two[[/a]]").unwrap();
    assert_eq!(t.content, "one");
}

#[test]
fn missing_closing_tag_or_markers() {
    assert!(parse_custom_tag("[[a]]no end").is_none());
    assert!(parse_custom_tag("plain text").is_none());
    assert!(parse_custom_tag("[[a").is_none());
    assert!(parse_custom_tag("").is_none());
}

#[test]
fn unicode_whitespace_is_trimmed() {
    let t = parse_custom_tag("\u{3000}[[x]]é[[/x]]\u{a0}").unwrap();
    assert_eq!(t.name, "x");
    assert_eq!(t.content, "é");
}

#[test]
fn markers() {
    assert!(is_custom_tag("  [[x]] "));
    assert!(is_custom_tag("]] then [["));
    assert!(!is_custom_tag("[[x"));
    assert!(!is_custom_tag("x]]"));
}

#[test]
fn backwards_cuts_are_detected() {
    assert!(custom_tag_would_panic("]] [[x"));
    assert!(custom_tag_would_panic("[[x [[/x]]"));
    assert!(!custom_tag_would_panic("[[x]]y[[/x]]"));
    assert!(!custom_tag_would_panic("no tag"));
    assert!(!custom_tag_would_panic("[[x]] no close"));
}
