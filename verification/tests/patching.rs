use papito_dom::events::DOMEventListener;
use papito_dom::page::{DomOp, Page};
use papito_dom::velement::{VElement, VNode};

fn s(x: &str) -> String {
    x.to_string()
}

const ROOT: u64 = 0;

#[test]
fn mount_writes_every_present_sub_part_then_appends() {
    let mut page = Page::new();
    let el = VElement::from_parts(
        s("div"),
        vec![(s("class"), s("c")), (s("id"), s("x"))],
        Some(VNode::text_node(s("hi"))),
        false,
    );
    let mounted = el.patch(&mut page, ROOT, None);
    assert_eq!(mounted.dom_ref(), Some(1));
    assert_eq!(
        page.drain(),
        vec![
            DomOp::CreateElement { id: 1, tag: s("div") },
            DomOp::SetAttribute { id: 1, key: s("class"), value: s("c") },
            DomOp::SetAttribute { id: 1, key: s("id"), value: s("x") },
            DomOp::CreateText { id: 2, text: s("hi") },
            DomOp::AppendChild { parent: 1, child: 2 },
            DomOp::AppendChild { parent: ROOT, child: 1 },
        ]
    );
}

#[test]
fn identical_tree_patch_performs_no_writes() {
    let mut page = Page::new();
    let build = || {
        VElement::from_parts(
            s("div"),
            vec![(s("class"), s("c")), (s("id"), s("x"))],
            Some(VNode::text_node(s("hi"))),
            false,
        )
    };
    let prev = build().patch(&mut page, ROOT, None);
    let _ = page.drain();
    let next = build().patch(&mut page, ROOT, Some(prev));
    assert_eq!(page.drain(), vec![]);
    assert_eq!(next.dom_ref(), Some(1));
}

#[test]
fn identical_tree_patch_still_rebinds_events() {
    let mut page = Page::new();
    let build = |evs: Vec<DOMEventListener>| {
        let mut el = VElement::from_parts(s("button"), vec![], None, false);
        el.set_events(evs);
        el
    };
    let prev = build(vec![
        DOMEventListener::new(s("click")),
        DOMEventListener::new(s("input")),
    ])
    .patch(&mut page, ROOT, None);
    assert_eq!(
        page.drain(),
        vec![
            DomOp::CreateElement { id: 1, tag: s("button") },
            DomOp::AttachListener { id: 1, event_type: s("click"), handle: 2 },
            DomOp::AttachListener { id: 1, event_type: s("input"), handle: 3 },
            DomOp::AppendChild { parent: ROOT, child: 1 },
        ]
    );
    let _next = build(vec![
        DOMEventListener::new(s("click")),
        DOMEventListener::new(s("input")),
    ])
    .patch(&mut page, ROOT, Some(prev));
    // Content-identical listener lists: still two detaches, then two attaches.
    assert_eq!(
        page.drain(),
        vec![
            DomOp::DetachListener { handle: 2 },
            DomOp::DetachListener { handle: 3 },
            DomOp::AttachListener { id: 1, event_type: s("click"), handle: 4 },
            DomOp::AttachListener { id: 1, event_type: s("input"), handle: 5 },
        ]
    );
}

#[test]
fn tag_change_removes_then_mounts_never_relabels() {
    let mut page = Page::new();
    let prev = VElement::from_parts(s("span"), vec![], None, false).patch(&mut page, ROOT, None);
    let _ = page.drain();
    let next = VElement::from_parts(s("p"), vec![], None, false).patch(&mut page, ROOT, Some(prev));
    assert_eq!(
        page.drain(),
        vec![
            DomOp::RemoveChild { parent: ROOT, child: 1 },
            DomOp::CreateElement { id: 2, tag: s("p") },
            DomOp::AppendChild { parent: ROOT, child: 2 },
        ]
    );
    assert_eq!(next.dom_ref(), Some(2));
}

#[test]
fn attribute_diff_touches_only_changed_added_and_removed_keys() {
    let mut page = Page::new();
    let prev = VElement::from_parts(s("div"), vec![(s("a"), s("1")), (s("b"), s("2"))], None, false)
        .patch(&mut page, ROOT, None);
    let _ = page.drain();
    let _next =
        VElement::from_parts(s("div"), vec![(s("a"), s("1")), (s("c"), s("3"))], None, false)
            .patch(&mut page, ROOT, Some(prev));
    // Exactly one write (c) and one removal (b); zero writes for the kept key a.
    assert_eq!(
        page.drain(),
        vec![
            DomOp::SetAttribute { id: 1, key: s("c"), value: s("3") },
            DomOp::RemoveAttribute { id: 1, key: s("b") },
        ]
    );
}

#[test]
fn changed_attribute_value_is_rewritten() {
    let mut page = Page::new();
    let prev = VElement::from_parts(s("div"), vec![(s("a"), s("1"))], None, false)
        .patch(&mut page, ROOT, None);
    let _ = page.drain();
    let _next = VElement::from_parts(s("div"), vec![(s("a"), s("9"))], None, false)
        .patch(&mut page, ROOT, Some(prev));
    assert_eq!(page.drain(), vec![DomOp::SetAttribute { id: 1, key: s("a"), value: s("9") }]);
}

#[test]
fn class_cleared_when_new_tree_has_none() {
    let mut page = Page::new();
    let prev = VElement::from_parts(s("div"), vec![(s("class"), s("c"))], None, false)
        .patch(&mut page, ROOT, None);
    let _ = page.drain();
    let _next =
        VElement::from_parts(s("div"), vec![], None, false).patch(&mut page, ROOT, Some(prev));
    assert_eq!(page.drain(), vec![DomOp::RemoveAttribute { id: 1, key: s("class") }]);
}

#[test]
fn child_replaced_when_kind_changes() {
    let mut page = Page::new();
    let prev = VElement::from_parts(s("div"), vec![], Some(VNode::text_node(s("t"))), false)
        .patch(&mut page, ROOT, None);
    let _ = page.drain();
    let inner = VElement::from_parts(s("span"), vec![], None, false);
    let _next = VElement::from_parts(s("div"), vec![], Some(VNode::Element(inner)), false)
        .patch(&mut page, ROOT, Some(prev));
    assert_eq!(
        page.drain(),
        vec![
            DomOp::RemoveChild { parent: 1, child: 2 },
            DomOp::CreateElement { id: 3, tag: s("span") },
            DomOp::AppendChild { parent: 1, child: 3 },
        ]
    );
}

#[test]
fn text_child_rewritten_only_on_content_change() {
    let mut page = Page::new();
    let prev = VElement::from_parts(s("div"), vec![], Some(VNode::text_node(s("one"))), false)
        .patch(&mut page, ROOT, None);
    let _ = page.drain();
    let mid = VElement::from_parts(s("div"), vec![], Some(VNode::text_node(s("one"))), false)
        .patch(&mut page, ROOT, Some(prev));
    assert_eq!(page.drain(), vec![]);
    let _next = VElement::from_parts(s("div"), vec![], Some(VNode::text_node(s("two"))), false)
        .patch(&mut page, ROOT, Some(mid));
    assert_eq!(page.drain(), vec![DomOp::SetText { id: 2, text: s("two") }]);
}

#[test]
fn teardown_detaches_listeners_and_child_before_own_reference() {
    let mut page = Page::new();
    let mut el = VElement::from_parts(s("div"), vec![], Some(VNode::text_node(s("hi"))), false);
    el.set_events(vec![DOMEventListener::new(s("click"))]);
    let mounted = el.patch(&mut page, ROOT, None);
    let _ = page.drain();
    mounted.remove(&mut page, ROOT).unwrap();
    assert_eq!(
        page.drain(),
        vec![
            DomOp::DetachListener { handle: 3 },
            DomOp::RemoveChild { parent: 1, child: 2 },
            DomOp::RemoveChild { parent: ROOT, child: 1 },
        ]
    );
}

#[test]
fn reorder_moves_mounted_nodes() {
    let mut page = Page::new();
    let a = VElement::from_parts(s("li"), vec![], None, false).patch(&mut page, ROOT, None);
    let b = VElement::from_parts(s("li"), vec![], None, false).patch(&mut page, ROOT, None);
    let _ = page.drain();
    a.reorder_append(&mut page, ROOT).unwrap();
    b.reorder_before(&mut page, ROOT, a.next_dom_node().unwrap()).unwrap();
    assert_eq!(
        page.drain(),
        vec![
            DomOp::AppendChild { parent: ROOT, child: 1 },
            DomOp::InsertBefore { parent: ROOT, child: 2, before: 1 },
        ]
    );
}

#[test]
fn node_level_patch_and_remove_cover_both_kinds() {
    let mut page = Page::new();
    let text = VNode::text_node(s("hello")).patch(&mut page, ROOT, None);
    assert_eq!(
        page.drain(),
        vec![
            DomOp::CreateText { id: 1, text: s("hello") },
            DomOp::AppendChild { parent: ROOT, child: 1 },
        ]
    );
    let replaced = VNode::Element(VElement::from_parts(s("em"), vec![], None, false))
        .patch(&mut page, ROOT, Some(text));
    assert_eq!(
        page.drain(),
        vec![
            DomOp::RemoveChild { parent: ROOT, child: 1 },
            DomOp::CreateElement { id: 2, tag: s("em") },
            DomOp::AppendChild { parent: ROOT, child: 2 },
        ]
    );
    replaced.remove(&mut page, ROOT).unwrap();
    assert_eq!(page.drain(), vec![DomOp::RemoveChild { parent: ROOT, child: 2 }]);
}

#[test]
fn removing_an_unmounted_node_is_a_fatal_fault() {
    let mut page = Page::new();
    let node = VNode::text_node(s("loose"));
    assert!(node.remove(&mut page, ROOT).is_err());
    assert_eq!(page.ops.len(), 0);
}
