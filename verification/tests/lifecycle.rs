use papito_dom::LifecycleError;
use papito_dom::events::{DOMEventListener, RenderRequest};
use papito_dom::page::Page;
use papito_dom::velement::VElement;

fn s(x: &str) -> String {
    x.to_string()
}

#[test]
fn render_requests_coalesce_to_one_positive_receive() {
    let mut rr = RenderRequest::new();
    assert!(!rr.receive());
    rr.send();
    rr.send();
    rr.send();
    assert!(rr.receive());
    assert!(!rr.receive());
    assert_eq!(rr.wakes, 3);
    rr.send();
    assert!(rr.receive());
}

#[test]
fn attach_then_detach_round_trip() {
    let mut page = Page::new();
    let mut l = DOMEventListener::new(s("click"));
    assert_eq!(l.event_type(), "click");
    l.attach(&mut page, 7).unwrap();
    assert_eq!(l.handle, Some(1));
    l.detach(&mut page).unwrap();
    assert_eq!(l.handle, None);
    assert_eq!(page.drain().len(), 2);
}

#[test]
fn double_attach_is_a_fatal_fault_with_no_page_mutation() {
    let mut page = Page::new();
    let mut l = DOMEventListener::new(s("click"));
    l.attach(&mut page, 7).unwrap();
    let before = page.ops.len();
    assert_eq!(l.attach(&mut page, 7), Err(LifecycleError::AlreadyAttached));
    assert_eq!(page.ops.len(), before);
}

#[test]
fn detach_without_attach_is_a_fatal_fault_with_no_page_mutation() {
    let mut page = Page::new();
    let mut l = DOMEventListener::new(s("click"));
    assert_eq!(l.detach(&mut page), Err(LifecycleError::NotAttached));
    assert_eq!(page.ops.len(), 0);
}

#[test]
fn removing_an_unmounted_element_is_a_fatal_fault() {
    let mut page = Page::new();
    let el = VElement::from_parts(s("div"), vec![], None, false);
    assert_eq!(el.remove(&mut page, 0), Err(LifecycleError::NotMounted));
    assert_eq!(page.ops.len(), 0);
}

#[test]
fn reordering_an_unmounted_element_is_a_fatal_fault() {
    let mut page = Page::new();
    let el = VElement::from_parts(s("div"), vec![], None, false);
    assert_eq!(el.reorder_append(&mut page, 0), Err(LifecycleError::NotMounted));
    assert_eq!(el.reorder_before(&mut page, 0, 9), Err(LifecycleError::NotMounted));
    assert_eq!(page.ops.len(), 0);
}

#[test]
fn dom_ref_present_exactly_while_mounted() {
    let mut page = Page::new();
    let el = VElement::from_parts(s("div"), vec![], None, false);
    assert_eq!(el.dom_ref(), None);
    let mounted = el.patch(&mut page, 0, None);
    assert_eq!(mounted.dom_ref(), Some(1));
}

#[test]
fn listener_equality_always_holds() {
    // Opaque callbacks cannot be compared, so any two listeners count as
    // equal; diffing therefore cannot rely on it and always rebinds.
    let a = DOMEventListener::new(s("click"));
    let b = DOMEventListener::new(s("keydown"));
    assert!(a == b);
}
