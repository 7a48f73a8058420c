use vstd::prelude::*;
use crate::events::{
    DOMEventListener, RenderRequest, sent, received, events_attach_ops, events_detach_ops,
    events_patch_ops,
};
use crate::imap::{distinct_keys, find_key, has_key, inserted, swap_removed, im_entries};
use crate::page::Op;
use crate::vdiff::{
    patch_elem_ops, remove_elem_ops, mount_elem_ops, child_remove_ops, attrs_patch_ops,
    attrs_step, class_patch_ops, text_patch_ops, child_patch_ops, node_patch_ops, reusable,
    stale_removal_ops,
};
use crate::velement::{VElement, VNode, Attributes, class_of, attrs_of, attrs_split, inserted_all};

verus! {

// ------------------------------------------------------------------
// Render coalescing.
// ------------------------------------------------------------------
/// The channel state after `n` sends.
pub open spec fn sent_n(s: RenderRequest, n: nat) -> RenderRequest
    decreases n,
{
    if n == 0 {
        s
    } else {
        sent(sent_n(s, (n - 1) as nat))
    }
}

/// One or more sends before any receive collapse to exactly one positive
/// receive: the first receive reports a pending render, and a receive right
/// after it, with nothing newly queued, reports none.
pub proof fn lemma_render_coalescing(s: RenderRequest, n: nat)
    requires
        n >= 1,
    ensures
        sent_n(s, n).pending,
        !received(sent_n(s, n)).pending,
{
    assert(sent_n(s, n) == sent(sent_n(s, (n - 1) as nat)));
}

// ------------------------------------------------------------------
// Event rebind policy.
// ------------------------------------------------------------------
proof fn lemma_detach_ops_shape(evs: Seq<DOMEventListener>)
    ensures
        events_detach_ops(evs).len() == evs.len(),
        forall|i: int|
            0 <= i < evs.len() ==> events_detach_ops(evs)[i] == (Op::DetachListener {
                handle: evs[i].handle->0 as int,
            }),
    decreases evs.len(),
{
    if evs.len() > 0 {
        lemma_detach_ops_shape(evs.drop_first());
        assert forall|i: int| 0 <= i < evs.len() implies events_detach_ops(evs)[i]
            == (Op::DetachListener { handle: evs[i].handle->0 as int }) by {
            if i > 0 {
                assert(events_detach_ops(evs)[i] == events_detach_ops(evs.drop_first())[i - 1]);
                assert(evs.drop_first()[i - 1] == evs[i]);
            }
        }
    }
}

proof fn lemma_attach_ops_shape(evs: Seq<DOMEventListener>, id: int, base: int)
    ensures
        events_attach_ops(evs, id, base).len() == evs.len(),
        forall|i: int|
            0 <= i < evs.len() ==> events_attach_ops(evs, id, base)[i] == (Op::AttachListener {
                id,
                event_type: evs[i].event_type@,
                handle: base + i,
            }),
    decreases evs.len(),
{
    if evs.len() > 0 {
        lemma_attach_ops_shape(evs.drop_first(), id, base + 1);
        assert forall|i: int| 0 <= i < evs.len() implies events_attach_ops(evs, id, base)[i]
            == (Op::AttachListener { id, event_type: evs[i].event_type@, handle: base + i }) by {
            if i > 0 {
                assert(events_attach_ops(evs, id, base)[i] == events_attach_ops(
                    evs.drop_first(),
                    id,
                    base + 1,
                )[i - 1]);
                assert(evs.drop_first()[i - 1] == evs[i]);
            }
        }
    }
}

/// An event patch never compares listener content: whatever the two lists
/// hold, the page sees exactly one detach per previous listener, in order,
/// followed by exactly one attach per new listener, in order — never zero.
pub proof fn lemma_event_rebind_policy(
    new: Seq<DOMEventListener>,
    prev: Seq<DOMEventListener>,
    id: int,
    base: int,
)
    ensures
        events_patch_ops(new, prev, id, base).len() == prev.len() + new.len(),
        forall|i: int|
            0 <= i < prev.len() ==> events_patch_ops(new, prev, id, base)[i] == (Op::DetachListener {
                handle: prev[i].handle->0 as int,
            }),
        forall|i: int|
            0 <= i < new.len() ==> events_patch_ops(new, prev, id, base)[prev.len() + i] == (
            Op::AttachListener { id, event_type: new[i].event_type@, handle: base + i }),
{
    lemma_detach_ops_shape(prev);
    lemma_attach_ops_shape(new, id, base);
}

// ------------------------------------------------------------------
// Tag-change replacement.
// ------------------------------------------------------------------
/// A tag change is never an in-place relabel: the mutations are exactly the
/// removal of the whole previous subtree followed by a fresh mount of the new
/// node, whose first mutation creates a new page node.
pub proof fn lemma_tag_change_replacement(new: VElement, p: VElement, parent: int, base: int)
    requires
        p.tag@ != new.tag@,
    ensures
        patch_elem_ops(new, Some(p), parent, base) == remove_elem_ops(p, parent) + mount_elem_ops(
            new,
            parent,
            base,
        ),
        remove_elem_ops(p, parent).last() == (Op::RemoveChild {
            parent,
            child: p.dom_ref->0 as int,
        }),
        mount_elem_ops(new, parent, base)[0] == (Op::CreateElement { id: base, tag: new.tag@ }),
{
    assert(patch_elem_ops(new, Some(p), parent, base) == remove_elem_ops(p, parent)
        + mount_elem_ops(new, parent, base));
}

// ------------------------------------------------------------------
// Teardown ordering.
// ------------------------------------------------------------------
/// Removal detaches the element's own listeners and removes the whole child
/// subtree strictly before the element's own live reference goes: the removal
/// of the element from its parent is the last mutation, and everything before
/// it is the listener detaches followed by the child teardown.
pub proof fn lemma_teardown_ordering(e: VElement, parent: int)
    ensures
        remove_elem_ops(e, parent).len() >= 1,
        remove_elem_ops(e, parent).last() == (Op::RemoveChild {
            parent,
            child: e.dom_ref->0 as int,
        }),
        remove_elem_ops(e, parent).drop_last() == events_detach_ops(e.events.0@)
            + child_remove_ops(e.child, e.dom_ref->0 as int),
{
    let pre = events_detach_ops(e.events.0@) + child_remove_ops(e.child, e.dom_ref->0 as int);
    let lastop = Op::RemoveChild { parent, child: e.dom_ref->0 as int };
    assert(remove_elem_ops(e, parent) == pre + seq![lastop]);
    assert(remove_elem_ops(e, parent).drop_last() =~= pre);
}

// ------------------------------------------------------------------
// Idempotence.
// ------------------------------------------------------------------
proof fn lemma_find_key_range(s: Seq<(Seq<char>, Seq<char>)>, k: Seq<char>)
    ensures
        find_key(s, k) != -1 ==> 0 <= find_key(s, k) < s.len() && s[find_key(s, k)].0 == k,
    decreases s.len(),
{
    if s.len() > 0 && s[0].0 != k {
        lemma_find_key_range(s.drop_first(), k);
    }
}

/// Under distinct keys, `find_key` lands on the one index holding the key.
proof fn lemma_find_key_at(s: Seq<(Seq<char>, Seq<char>)>, k: Seq<char>, j: int)
    requires
        distinct_keys(s),
        0 <= j < s.len(),
        s[j].0 == k,
    ensures
        find_key(s, k) == j,
    decreases s.len(),
{
    if j == 0 {
        assert(s[0].0 == k);
    } else {
        assert(s[0].0 != k);
        let rest = s.drop_first();
        assert(forall|p: int, q: int|
            0 <= p < q < rest.len() ==> rest[p] == s[p + 1] && rest[q] == s[q + 1]);
        assert(distinct_keys(rest));
        assert(rest[j - 1] == s[j]);
        lemma_find_key_at(rest, k, j - 1);
    }
}

/// Removing index `i` by a swap with the last entry keeps the keys distinct
/// and drops exactly that entry.
proof fn lemma_swap_removed_props(s: Seq<(Seq<char>, Seq<char>)>, i: int)
    requires
        distinct_keys(s),
        0 <= i < s.len(),
    ensures
        swap_removed(s, i).len() == s.len() - 1,
        distinct_keys(swap_removed(s, i)),
        forall|x: (Seq<char>, Seq<char>)|
            swap_removed(s, i).contains(x) <==> (s.contains(x) && x != s[i]),
{
    let sr = swap_removed(s, i);
    let last = s[s.len() - 1];
    assert(forall|j: int|
        0 <= j < sr.len() ==> sr[j] == (if j == i {
            last
        } else {
            s[j]
        }));
    assert forall|x: (Seq<char>, Seq<char>)| sr.contains(x) implies (s.contains(x) && x != s[i]) by {
        let j = choose|j: int| 0 <= j < sr.len() && sr[j] == x;
        if j == i {
            assert(s[s.len() - 1] == x);
            assert(x != s[i]);
        } else {
            assert(s[j] == x);
            assert(x != s[i]);
        }
    }
    assert forall|x: (Seq<char>, Seq<char>)| s.contains(x) && x != s[i] implies sr.contains(x) by {
        let j = choose|j: int| 0 <= j < s.len() && s[j] == x;
        assert(j != i);
        if j == s.len() - 1 {
            assert(i < s.len() - 1);
            assert(sr[i] == x);
        } else {
            assert(sr[j] == x);
        }
    }
}

/// A diff of two attribute lists that hold exactly the same entries writes
/// nothing and leaves no stale key.
proof fn lemma_attrs_step_same_entries(
    pairs: Seq<(Seq<char>, Seq<char>)>,
    snap: Seq<(Seq<char>, Seq<char>)>,
    id: int,
)
    requires
        distinct_keys(pairs),
        distinct_keys(snap),
        pairs.len() == snap.len(),
        forall|x: (Seq<char>, Seq<char>)| pairs.contains(x) <==> snap.contains(x),
    ensures
        attrs_step(pairs, snap, id).0 == Seq::<Op>::empty(),
        attrs_step(pairs, snap, id).1 == Seq::<(Seq<char>, Seq<char>)>::empty(),
    decreases pairs.len(),
{
    if pairs.len() == 0 {
        assert(attrs_step(pairs, snap, id).1 =~= Seq::<(Seq<char>, Seq<char>)>::empty());
    } else {
        let head = pairs[0];
        assert(pairs.contains(head));
        assert(snap.contains(head));
        let j = choose|j: int| 0 <= j < snap.len() && snap[j] == head;
        lemma_find_key_at(snap, head.0, j);
        let snap1 = swap_removed(snap, j);
        lemma_swap_removed_props(snap, j);
        let rest = pairs.drop_first();
        assert(forall|p: int, q: int|
            0 <= p < q < rest.len() ==> rest[p] == pairs[p + 1] && rest[q] == pairs[q + 1]);
        assert(distinct_keys(rest));
        assert forall|x: (Seq<char>, Seq<char>)| rest.contains(x) implies (pairs.contains(x) && x
            != head) by {
            let q = choose|q: int| 0 <= q < rest.len() && rest[q] == x;
            assert(pairs[q + 1] == x);
            assert(x != pairs[0]);
        }
        assert forall|x: (Seq<char>, Seq<char>)| pairs.contains(x) && x != head implies rest.contains(
            x,
        ) by {
            let q = choose|q: int| 0 <= q < pairs.len() && pairs[q] == x;
            assert(q != 0);
            assert(rest[q - 1] == x);
        }
        assert(forall|x: (Seq<char>, Seq<char>)| rest.contains(x) <==> snap1.contains(x));
        lemma_attrs_step_same_entries(rest, snap1, id);
        assert(attrs_step(pairs, snap, id).0 =~= Seq::<Op>::empty());
    }
}

/// Identical attribute slots (same entries, same order) patch to nothing.
proof fn lemma_attrs_patch_identical(new: Option<Attributes>, prev: Option<Attributes>, id: int)
    requires
        attrs_of(new) == attrs_of(prev),
        (new matches Some(a) ==> distinct_keys(im_entries(a.0))),
    ensures
        attrs_patch_ops(new, prev, id) == Seq::<Op>::empty(),
{
    match new {
        None => {
            assert(prev is None);
        },
        Some(a) => {
            let p = prev->0;
            assert(im_entries(a.0) == im_entries(p.0));
            lemma_attrs_step_same_entries(im_entries(a.0), im_entries(p.0), id);
            let st = attrs_step(im_entries(a.0), im_entries(p.0), id);
            assert(st.0 + stale_removal_ops(st.1, id) =~= Seq::<Op>::empty());
        },
    }
}

/// Content identity between two trees: same tag, class, attributes, child
/// and event types; live references and handles are not content.
pub open spec fn same_content_elem(a: VElement, b: VElement) -> bool
    decreases a,
{
    &&& a.tag@ == b.tag@
    &&& class_of(a.class) == class_of(b.class)
    &&& attrs_of(a.attrs) == attrs_of(b.attrs)
    &&& a.is_self_closing == b.is_self_closing
    &&& a.events.0@.len() == b.events.0@.len()
    &&& (forall|i: int|
        0 <= i < a.events.0@.len() ==> a.events.0@[i].event_type@ == b.events.0@[i].event_type@)
    &&& same_content_child(a.child, b.child)
}

pub open spec fn same_content_child(ac: Option<Box<VNode>>, bc: Option<Box<VNode>>) -> bool
    decreases ac,
{
    match ac {
        None => bc is None,
        Some(ab) => bc matches Some(bb) && same_content_node(*ab, *bb),
    }
}

pub open spec fn same_content_node(an: VNode, bn: VNode) -> bool
    decreases an,
{
    match an {
        VNode::Element(ae) => bn matches VNode::Element(be) && same_content_elem(ae, be),
        VNode::Text(at) => bn matches VNode::Text(bt) && at.text@ == bt.text@,
    }
}

/// Every attribute mapping in the tree holds each key once, as the builders
/// leave them.
pub open spec fn elem_attrs_distinct(e: VElement) -> bool
    decreases e,
{
    &&& (e.attrs matches Some(a) ==> distinct_keys(im_entries(a.0)))
    &&& child_attrs_distinct(e.child)
}

pub open spec fn child_attrs_distinct(c: Option<Box<VNode>>) -> bool
    decreases c,
{
    match c {
        Some(b) => node_attrs_distinct(*b),
        None => true,
    }
}

pub open spec fn node_attrs_distinct(n: VNode) -> bool
    decreases n,
{
    match n {
        VNode::Element(e) => elem_attrs_distinct(e),
        VNode::Text(_) => true,
    }
}

/// Only event rebinding: no class or attribute write, no child mutation.
pub open spec fn only_event_ops(ops: Seq<Op>) -> bool {
    forall|i: int| 0 <= i < ops.len() ==> (ops[i] is AttachListener || ops[i] is DetachListener)
}

proof fn lemma_only_event_concat(a: Seq<Op>, b: Seq<Op>)
    requires
        only_event_ops(a),
        only_event_ops(b),
    ensures
        only_event_ops(a + b),
{
    assert forall|i: int| 0 <= i < (a + b).len() implies ((a + b)[i] is AttachListener || (a + b)[i]
        is DetachListener) by {
        if i < a.len() {
            assert((a + b)[i] == a[i]);
        } else {
            assert((a + b)[i] == b[i - a.len()]);
        }
    }
}

proof fn lemma_events_ops_only_events(
    new: Seq<DOMEventListener>,
    prev: Seq<DOMEventListener>,
    id: int,
    base: int,
)
    ensures
        only_event_ops(events_patch_ops(new, prev, id, base)),
{
    lemma_detach_ops_shape(prev);
    lemma_attach_ops_shape(new, id, base);
    lemma_only_event_concat(events_detach_ops(prev), events_attach_ops(new, id, base));
}

/// Patching a tree against a content-identical previous tree performs zero
/// class or attribute writes and zero child mutations: only the unconditional
/// event rebinding reaches the page.
pub proof fn lemma_idempotent_patch(new: VElement, p: VElement, parent: int, base: int)
    requires
        same_content_elem(new, p),
        elem_attrs_distinct(new),
    ensures
        only_event_ops(patch_elem_ops(new, Some(p), parent, base)),
    decreases new,
{
    assert(reusable(new, Some(p)));
    let id = p.dom_ref->0 as int;
    assert(class_patch_ops(new.class, p.class, id) == Seq::<Op>::empty());
    lemma_attrs_patch_identical(new.attrs, p.attrs, id);
    lemma_idempotent_patch_child(new.child, p.child, id, base);
    lemma_events_ops_only_events(
        new.events.0@,
        p.events.0@,
        id,
        base + crate::vdiff::child_patch_alloc(new.child, p.child),
    );
    lemma_only_event_concat(
        Seq::<Op>::empty() + Seq::<Op>::empty(),
        child_patch_ops(new.child, p.child, id, base),
    );
    lemma_only_event_concat(
        Seq::<Op>::empty() + Seq::<Op>::empty() + child_patch_ops(new.child, p.child, id, base),
        events_patch_ops(
            new.events.0@,
            p.events.0@,
            id,
            base + crate::vdiff::child_patch_alloc(new.child, p.child),
        ),
    );
}

proof fn lemma_idempotent_patch_child(
    nc: Option<Box<VNode>>,
    pc: Option<Box<VNode>>,
    parent: int,
    base: int,
)
    requires
        same_content_child(nc, pc),
        child_attrs_distinct(nc),
    ensures
        only_event_ops(child_patch_ops(nc, pc, parent, base)),
    decreases nc,
{
    match nc {
        None => {},
        Some(nb) => {
            lemma_idempotent_patch_node(*nb, *pc->0, parent, base);
        },
    }
}

proof fn lemma_idempotent_patch_node(n: VNode, p: VNode, parent: int, base: int)
    requires
        same_content_node(n, p),
        node_attrs_distinct(n),
    ensures
        only_event_ops(node_patch_ops(n, p, parent, base)),
    decreases n,
{
    match n {
        VNode::Element(ne) => {
            lemma_idempotent_patch(ne, p->Element_0, parent, base);
        },
        VNode::Text(nt) => {
            assert(text_patch_ops(nt.text@, p->Text_0) == Seq::<Op>::empty());
        },
    }
}

// ------------------------------------------------------------------
// Attribute diff minimality.
// ------------------------------------------------------------------
/// Some entry of `s` bears the key `k`.
pub open spec fn seq_keyed(s: Seq<(Seq<char>, Seq<char>)>, k: Seq<char>) -> bool {
    exists|i: int| 0 <= i < s.len() && s[i].0 == k
}

proof fn lemma_stale_removal_shape(s: Seq<(Seq<char>, Seq<char>)>, id: int)
    ensures
        stale_removal_ops(s, id).len() == s.len(),
        forall|i: int|
            0 <= i < s.len() ==> stale_removal_ops(s, id)[i] == (Op::RemoveAttribute {
                id,
                key: s[i].0,
            }),
    decreases s.len(),
{
    if s.len() > 0 {
        lemma_stale_removal_shape(s.drop_first(), id);
        assert forall|i: int| 0 <= i < s.len() implies stale_removal_ops(s, id)[i]
            == (Op::RemoveAttribute { id, key: s[i].0 }) by {
            if i > 0 {
                assert(stale_removal_ops(s, id)[i] == stale_removal_ops(s.drop_first(), id)[i - 1]);
                assert(s.drop_first()[i - 1] == s[i]);
            }
        }
    }
}

proof fn lemma_drop_first_membership(s: Seq<(Seq<char>, Seq<char>)>)
    requires
        distinct_keys(s),
        s.len() > 0,
    ensures
        distinct_keys(s.drop_first()),
        forall|x: (Seq<char>, Seq<char>)|
            s.drop_first().contains(x) <==> (s.contains(x) && x != s[0]),
        forall|k: Seq<char>| seq_keyed(s, k) <==> (k == s[0].0 || seq_keyed(s.drop_first(), k)),
{
    let rest = s.drop_first();
    assert(forall|j: int| 0 <= j < rest.len() ==> rest[j] == s[j + 1]);
    assert forall|x: (Seq<char>, Seq<char>)| rest.contains(x) implies (s.contains(x) && x != s[0]) by {
        let q = choose|q: int| 0 <= q < rest.len() && rest[q] == x;
        assert(s[q + 1] == x);
    }
    assert forall|x: (Seq<char>, Seq<char>)| s.contains(x) && x != s[0] implies rest.contains(x) by {
        let q = choose|q: int| 0 <= q < s.len() && s[q] == x;
        assert(q != 0);
        assert(rest[q - 1] == x);
    }
    assert forall|k: Seq<char>| seq_keyed(s, k) implies (k == s[0].0 || seq_keyed(rest, k)) by {
        let q = choose|q: int| 0 <= q < s.len() && s[q].0 == k;
        if q > 0 {
            assert(rest[q - 1].0 == k);
        }
    }
    assert forall|k: Seq<char>| k == s[0].0 || seq_keyed(rest, k) implies seq_keyed(s, k) by {
        if k == s[0].0 {
            assert(s[0].0 == k);
        } else {
            let q = choose|q: int| 0 <= q < rest.len() && rest[q].0 == k;
            assert(s[q + 1].0 == k);
        }
    }
}

/// With keys held once on both sides, a diff step writes the pair (k, v)
/// exactly when the new pairs hold it and the snapshot does not.
proof fn lemma_attrs_step_write(
    pairs: Seq<(Seq<char>, Seq<char>)>,
    snap: Seq<(Seq<char>, Seq<char>)>,
    id: int,
    k: Seq<char>,
    v: Seq<char>,
)
    requires
        distinct_keys(pairs),
        distinct_keys(snap),
    ensures
        attrs_step(pairs, snap, id).0.contains(Op::SetAttribute { id, key: k, value: v }) <==> (
        pairs.contains((k, v)) && !snap.contains((k, v))),
    decreases pairs.len(),
{
    let op = Op::SetAttribute { id, key: k, value: v };
    let st = attrs_step(pairs, snap, id);
    if pairs.len() > 0 {
        let h = pairs[0];
        let k0 = h.0;
        let v0 = h.1;
        let f = find_key(snap, k0);
        lemma_find_key_range(snap, k0);
        lemma_drop_first_membership(pairs);
        let rest = pairs.drop_first();
        let found = f != -1;
        let snap1 = if found {
            swap_removed(snap, f)
        } else {
            snap
        };
        if found {
            lemma_swap_removed_props(snap, f);
        }
        lemma_attrs_step_write(rest, snap1, id, k, v);
        let str1 = attrs_step(rest, snap1, id);
        let skip = found && snap[f].1 == v0;
        let here: Seq<Op> = if skip {
            Seq::<Op>::empty()
        } else {
            seq![Op::SetAttribute { id, key: k0, value: v0 }]
        };
        assert(st.0 == here + str1.0);
        // The snapshot holds (k0, w) exactly when the lookup found value w.
        assert forall|w: Seq<char>| snap.contains((k0, w)) implies found && snap[f].1 == w by {
            let m = choose|m: int| 0 <= m < snap.len() && snap[m] == (k0, w);
            lemma_find_key_at(snap, k0, m);
        }
        if st.0.contains(op) {
            let q = choose|q: int| 0 <= q < st.0.len() && st.0[q] == op;
            if q < here.len() {
                assert(st.0[q] == here[q]);
                assert(k == k0 && v == v0);
                assert(pairs.contains(h));
                if snap.contains((k0, v0)) {
                    assert(false);
                }
            } else {
                assert(st.0[q] == str1.0[q - here.len()]);
                assert(str1.0.contains(op));
                assert(rest.contains((k, v)) && !snap1.contains((k, v)));
                if k == k0 {
                    let m = choose|m: int| 0 <= m < rest.len() && rest[m] == (k, v);
                    assert(pairs[m + 1].0 == k0 && pairs[0].0 == k0);
                    assert(false);
                }
                if snap.contains((k, v)) {
                    if found {
                        assert((k, v) != snap[f]);
                    }
                    assert(snap1.contains((k, v)));
                    assert(false);
                }
            }
        }
        if pairs.contains((k, v)) && !snap.contains((k, v)) {
            if (k, v) == h {
                if skip {
                    assert(snap.contains((k0, v0)));
                    assert(false);
                }
                assert(st.0[0] == op);
                assert(st.0.contains(op));
            } else {
                assert(rest.contains((k, v)));
                if k == k0 {
                    let m = choose|m: int| 0 <= m < rest.len() && rest[m] == (k, v);
                    assert(pairs[m + 1].0 == k0 && pairs[0].0 == k0);
                    assert(false);
                }
                if snap1.contains((k, v)) {
                    assert(snap.contains((k, v)));
                    assert(false);
                }
                assert(str1.0.contains(op));
                let q = choose|q: int| 0 <= q < str1.0.len() && str1.0[q] == op;
                assert(st.0[here.len() + q] == op);
                assert(st.0.contains(op));
            }
        }
    }
}

/// A diff step leaves exactly the snapshot entries whose key no new pair
/// bears; they are the stale keys.
proof fn lemma_attrs_step_stale(
    pairs: Seq<(Seq<char>, Seq<char>)>,
    snap: Seq<(Seq<char>, Seq<char>)>,
    id: int,
    x: (Seq<char>, Seq<char>),
)
    requires
        distinct_keys(pairs),
        distinct_keys(snap),
    ensures
        attrs_step(pairs, snap, id).1.contains(x) <==> (snap.contains(x) && !seq_keyed(
            pairs,
            x.0,
        )),
    decreases pairs.len(),
{
    let st = attrs_step(pairs, snap, id);
    if pairs.len() == 0 {
        assert(!seq_keyed(pairs, x.0));
    } else {
        let h = pairs[0];
        let k0 = h.0;
        let f = find_key(snap, k0);
        lemma_find_key_range(snap, k0);
        lemma_drop_first_membership(pairs);
        let rest = pairs.drop_first();
        let found = f != -1;
        let snap1 = if found {
            swap_removed(snap, f)
        } else {
            snap
        };
        if found {
            lemma_swap_removed_props(snap, f);
        }
        lemma_attrs_step_stale(rest, snap1, id, x);
        assert(st.1 == attrs_step(rest, snap1, id).1);
        assert(seq_keyed(pairs, k0)) by {
            assert(pairs[0].0 == k0);
        }
        if st.1.contains(x) {
            assert(snap1.contains(x) && !seq_keyed(rest, x.0));
            assert(snap.contains(x));
            if x.0 == k0 {
                let m = choose|m: int| 0 <= m < snap.len() && snap[m] == x;
                lemma_find_key_at(snap, k0, m);
                assert(found && m == f);
                assert(x != snap[f]);
                assert(false);
            }
        }
        if snap.contains(x) && !seq_keyed(pairs, x.0) {
            assert(x.0 != k0);
            if found {
                assert(snap[f].0 == k0);
                assert(x != snap[f]);
            }
            assert(snap1.contains(x));
            assert(!seq_keyed(rest, x.0));
            assert(st.1.contains(x));
        }
    }
}

/// Every mutation of the write pass is an attribute write naming this node.
proof fn lemma_attrs_step_writes_shape(
    pairs: Seq<(Seq<char>, Seq<char>)>,
    snap: Seq<(Seq<char>, Seq<char>)>,
    id: int,
)
    ensures
        forall|i: int|
            0 <= i < attrs_step(pairs, snap, id).0.len() ==> ((#[trigger] attrs_step(
                pairs,
                snap,
                id,
            ).0[i]) matches Op::SetAttribute { id: oid, .. } && oid == id),
    decreases pairs.len(),
{
    let st = attrs_step(pairs, snap, id);
    if pairs.len() > 0 {
        let k0 = pairs[0].0;
        let f = find_key(snap, k0);
        let snap1 = if f == -1 {
            snap
        } else {
            swap_removed(snap, f)
        };
        lemma_attrs_step_writes_shape(pairs.drop_first(), snap1, id);
        let str1 = attrs_step(pairs.drop_first(), snap1, id);
        let here = st.0.len() - str1.0.len();
        assert forall|i: int| 0 <= i < st.0.len() implies ((#[trigger] st.0[i])
            matches Op::SetAttribute { id: oid, .. } && oid == id) by {
            if i >= here {
                assert(st.0[i] == str1.0[i - here]);
            }
        }
    }
}

/// Attribute diff minimality: patching attribute slot `p` to `n` writes
/// exactly the pairs of `n` that `p` does not hold (the added and changed
/// keys), removes exactly the keys of `p` that `n` lacks, and does nothing
/// else to the page.
pub proof fn lemma_attribute_diff_minimality(n: Attributes, p: Attributes, id: int)
    requires
        distinct_keys(im_entries(n.0)),
        distinct_keys(im_entries(p.0)),
    ensures
        forall|k: Seq<char>, v: Seq<char>|
            attrs_patch_ops(Some(n), Some(p), id).contains(Op::SetAttribute { id, key: k, value: v })
                <==> (im_entries(n.0).contains((k, v)) && !im_entries(p.0).contains((k, v))),
        forall|k: Seq<char>|
            attrs_patch_ops(Some(n), Some(p), id).contains(Op::RemoveAttribute { id, key: k }) <==> (
            seq_keyed(im_entries(p.0), k) && !seq_keyed(im_entries(n.0), k)),
        forall|i: int|
            0 <= i < attrs_patch_ops(Some(n), Some(p), id).len() ==> ((#[trigger] attrs_patch_ops(
                Some(n),
                Some(p),
                id,
            )[i]) is SetAttribute || attrs_patch_ops(Some(n), Some(p), id)[i] is RemoveAttribute),
{
    let ne = im_entries(n.0);
    let pe = im_entries(p.0);
    let st = attrs_step(ne, pe, id);
    let ops = attrs_patch_ops(Some(n), Some(p), id);
    lemma_attrs_step_writes_shape(ne, pe, id);
    lemma_stale_removal_shape(st.1, id);
    assert(ops == st.0 + stale_removal_ops(st.1, id));
    assert forall|k: Seq<char>, v: Seq<char>|
        ops.contains(Op::SetAttribute { id, key: k, value: v }) implies (ne.contains((k, v))
        && !pe.contains((k, v))) by {
        let op = Op::SetAttribute { id, key: k, value: v };
        let q = choose|q: int| 0 <= q < ops.len() && ops[q] == op;
        if q >= st.0.len() {
            assert(ops[q] == stale_removal_ops(st.1, id)[q - st.0.len()]);
            assert(false);
        } else {
            assert(st.0[q] == op);
            assert(st.0.contains(op));
            lemma_attrs_step_write(ne, pe, id, k, v);
        }
    }
    assert forall|k: Seq<char>, v: Seq<char>|
        ne.contains((k, v)) && !pe.contains((k, v)) implies ops.contains(
        Op::SetAttribute { id, key: k, value: v },
    ) by {
        let op = Op::SetAttribute { id, key: k, value: v };
        lemma_attrs_step_write(ne, pe, id, k, v);
        assert(st.0.contains(op));
        let q = choose|q: int| 0 <= q < st.0.len() && st.0[q] == op;
        assert(ops[q] == op);
        assert(ops.contains(op));
    }
    assert forall|k: Seq<char>|
        ops.contains(Op::RemoveAttribute { id, key: k }) implies (seq_keyed(pe, k) && !seq_keyed(
        ne,
        k,
    )) by {
        let op = Op::RemoveAttribute { id, key: k };
        let q = choose|q: int| 0 <= q < ops.len() && ops[q] == op;
        if q < st.0.len() {
            assert(st.0[q] == op);
            assert(false);
        } else {
            assert(ops[q] == stale_removal_ops(st.1, id)[q - st.0.len()]);
            let x = st.1[q - st.0.len()];
            assert(x.0 == k);
            assert(st.1.contains(x));
            lemma_attrs_step_stale(ne, pe, id, x);
            assert(pe.contains(x));
            let m = choose|m: int| 0 <= m < pe.len() && pe[m] == x;
            assert(pe[m].0 == k);
            assert(seq_keyed(pe, k));
        }
    }
    assert forall|k: Seq<char>| seq_keyed(pe, k) && !seq_keyed(ne, k) implies ops.contains(
        Op::RemoveAttribute { id, key: k },
    ) by {
        let m = choose|m: int| 0 <= m < pe.len() && pe[m].0 == k;
        let x = pe[m];
        assert(pe.contains(x));
        lemma_attrs_step_stale(ne, pe, id, x);
        assert(st.1.contains(x));
        let q = choose|q: int| 0 <= q < st.1.len() && st.1[q] == x;
        assert(stale_removal_ops(st.1, id)[q] == (Op::RemoveAttribute { id, key: k }));
        assert(ops[st.0.len() + q] == (Op::RemoveAttribute { id, key: k }));
        assert(ops.contains(Op::RemoveAttribute { id, key: k }));
    }
    assert forall|i: int| 0 <= i < ops.len() implies ((#[trigger] ops[i]) is SetAttribute || ops[i]
        is RemoveAttribute) by {
        if i >= st.0.len() {
            assert(ops[i] == stale_removal_ops(st.1, id)[i - st.0.len()]);
        } else {
            assert(ops[i] == st.0[i]);
        }
    }
}

// ------------------------------------------------------------------
// The builders establish the laws' key hypothesis.
// ------------------------------------------------------------------
proof fn lemma_find_key_none(s: Seq<(Seq<char>, Seq<char>)>, k: Seq<char>)
    requires
        find_key(s, k) == -1,
    ensures
        forall|i: int| 0 <= i < s.len() ==> s[i].0 != k,
    decreases s.len(),
{
    if s.len() > 0 {
        lemma_find_key_range(s.drop_first(), k);
        assert(find_key(s.drop_first(), k) == -1);
        lemma_find_key_none(s.drop_first(), k);
        assert forall|i: int| 0 <= i < s.len() implies s[i].0 != k by {
            if i > 0 {
                assert(s.drop_first()[i - 1] == s[i]);
            }
        }
    }
}

proof fn lemma_inserted_distinct(s: Seq<(Seq<char>, Seq<char>)>, k: Seq<char>, v: Seq<char>)
    requires
        distinct_keys(s),
    ensures
        distinct_keys(inserted(s, k, v)),
{
    if has_key(s, k) {
        let f = find_key(s, k);
        lemma_find_key_range(s, k);
        let r = inserted(s, k, v);
        assert(forall|i: int| 0 <= i < r.len() ==> r[i].0 == s[i].0);
    } else {
        lemma_find_key_none(s, k);
        let r = s.push((k, v));
        assert forall|i: int, j: int| 0 <= i < j < r.len() implies r[i].0 != r[j].0 by {
            if j == r.len() - 1 {
                assert(r[i] == s[i]);
            }
        }
    }
}

proof fn lemma_inserted_all_distinct(
    acc: Seq<(Seq<char>, Seq<char>)>,
    pairs: Seq<(Seq<char>, Seq<char>)>,
)
    requires
        distinct_keys(acc),
    ensures
        distinct_keys(inserted_all(acc, pairs)),
    decreases pairs.len(),
{
    if pairs.len() > 0 {
        lemma_inserted_distinct(acc, pairs[0].0, pairs[0].1);
        lemma_inserted_all_distinct(inserted(acc, pairs[0].0, pairs[0].1), pairs.drop_first());
    }
}

/// What the builders put in an attribute slot holds each key once: the
/// folded-in literal pairs keep keys unique, and splitting the class out
/// preserves that. The laws above assume no more of a mapping than this.
pub proof fn lemma_built_attrs_distinct(pairs: Seq<(Seq<char>, Seq<char>)>)
    ensures
        distinct_keys(inserted_all(Seq::<(Seq<char>, Seq<char>)>::empty(), pairs)),
        (attrs_split(inserted_all(Seq::<(Seq<char>, Seq<char>)>::empty(), pairs)) matches Some(e)
            ==> distinct_keys(e)),
{
    let folded = inserted_all(Seq::<(Seq<char>, Seq<char>)>::empty(), pairs);
    lemma_inserted_all_distinct(Seq::<(Seq<char>, Seq<char>)>::empty(), pairs);
    if has_key(folded, "class"@) {
        lemma_find_key_range(folded, "class"@);
        lemma_swap_removed_props(folded, find_key(folded, "class"@));
    }
}

} // verus!
