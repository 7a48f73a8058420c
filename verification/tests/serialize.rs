use papito_dom::velement::{Attributes, VElement, VNode};

fn s(x: &str) -> String {
    x.to_string()
}

#[test]
fn serializes_div_with_class_id_and_text_child() {
    let el = VElement::from_parts(
        s("div"),
        vec![(s("class"), s("c")), (s("id"), s("x"))],
        Some(VNode::text_node(s("hi"))),
        false,
    );
    assert_eq!(el.render(), "<div class=\"c\" id=\"x\">hi</div>");
}

#[test]
fn serializes_self_closing_img() {
    let el = VElement::from_parts(s("img"), vec![(s("src"), s("a.png"))], None, true);
    assert_eq!(el.render(), "<img src=\"a.png\">");
}

#[test]
fn serializes_empty_element() {
    let el = VElement::from_parts(s("p"), vec![], None, false);
    assert_eq!(el.render(), "<p></p>");
}

#[test]
fn serializes_nested_elements() {
    let inner = VElement::from_parts(s("span"), vec![], Some(VNode::text_node(s("t"))), false);
    let el = VElement::from_parts(s("div"), vec![], Some(VNode::Element(inner)), false);
    assert_eq!(el.render(), "<div><span>t</span></div>");
}

#[test]
fn duplicate_key_updates_value_in_place() {
    let el = VElement::from_parts(s("div"), vec![(s("k"), s("1")), (s("k"), s("2"))], None, false);
    assert_eq!(el.render(), "<div k=\"2\"></div>");
}

#[test]
fn class_extraction_swaps_last_entry_into_its_slot() {
    let el = VElement::from_parts(
        s("div"),
        vec![(s("a"), s("1")), (s("class"), s("c")), (s("b"), s("2")), (s("d"), s("3"))],
        None,
        false,
    );
    assert_eq!(el.render(), "<div class=\"c\" a=\"1\" d=\"3\" b=\"2\"></div>");
}

#[test]
fn tag_strings_pass_through_unvalidated() {
    let el = VElement::from_parts(s("not a tag!"), vec![], None, false);
    assert_eq!(el.render(), "<not a tag!></not a tag!>");
}

#[test]
fn split_leaves_no_empty_attribute_mapping() {
    let el = VElement::from_parts(s("div"), vec![(s("class"), s("c"))], None, false);
    assert_eq!(el.render(), "<div class=\"c\"></div>");
    let attrs = Attributes::from_pairs(vec![(s("class"), s("c"))]);
    let (class, rest) = papito_dom::velement::split_into_class_and_attrs(attrs);
    assert!(class.is_some());
    assert!(rest.is_none());
}
