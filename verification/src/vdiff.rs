use vstd::prelude::*;
use indexmap::IndexMap;
use crate::LifecycleError;
use crate::NodeId;
use crate::events::{
    all_attached, all_unattached, events_attach_ops, events_detach_ops, events_patch_ops,
    events_attached_as, events_of,
};
use crate::imap::{im_entries, im_new, im_swap_remove, im_pairs, find_key, swap_removed};
use crate::page::{Page, DomOp, Op, page_log, emit, alloc_id};
use crate::velement::{VElement, VNode, VText, ClassString, Attributes, class_of, attrs_of};

verus! {

// ------------------------------------------------------------------
// Well-formedness: mounted trees and fresh trees.
// ------------------------------------------------------------------
/// The whole subtree is mounted: every node holds its live reference and
/// every listener its registration handle.
pub open spec fn elem_mounted(e: VElement) -> bool
    decreases e,
{
    &&& e.dom_ref is Some
    &&& all_attached(e.events.0@)
    &&& child_mounted(e.child)
}

pub open spec fn child_mounted(c: Option<Box<VNode>>) -> bool
    decreases c,
{
    match c {
        Some(b) => node_mounted(*b),
        None => true,
    }
}

pub open spec fn node_mounted(n: VNode) -> bool
    decreases n,
{
    match n {
        VNode::Element(e) => elem_mounted(e),
        VNode::Text(t) => t.dom_ref is Some,
    }
}

/// The whole subtree is fresh from the builders: no listener attached yet.
pub open spec fn elem_fresh(e: VElement) -> bool
    decreases e,
{
    &&& all_unattached(e.events.0@)
    &&& child_fresh(e.child)
}

pub open spec fn child_fresh(c: Option<Box<VNode>>) -> bool
    decreases c,
{
    match c {
        Some(b) => node_fresh(*b),
        None => true,
    }
}

pub open spec fn node_fresh(n: VNode) -> bool
    decreases n,
{
    match n {
        VNode::Element(e) => elem_fresh(e),
        VNode::Text(_) => true,
    }
}

// ------------------------------------------------------------------
// How many fresh ids each operation draws.
// ------------------------------------------------------------------
/// Ids a mount draws: one per node, one per listener, in creation order.
pub open spec fn mount_elem_alloc(e: VElement) -> nat
    decreases e,
{
    1 + child_mount_alloc(e.child) + e.events.0@.len()
}

pub open spec fn child_mount_alloc(c: Option<Box<VNode>>) -> nat
    decreases c,
{
    match c {
        Some(b) => node_mount_alloc(*b),
        None => 0,
    }
}

pub open spec fn node_mount_alloc(n: VNode) -> nat
    decreases n,
{
    match n {
        VNode::Element(e) => mount_elem_alloc(e),
        VNode::Text(_) => 1,
    }
}

/// Tag equality is the only reuse criterion.
pub open spec fn reusable(new: VElement, prev: Option<VElement>) -> bool {
    prev matches Some(p) && p.tag@ == new.tag@
}

pub open spec fn patch_elem_alloc(new: VElement, prev: Option<VElement>) -> nat
    decreases new,
{
    if reusable(new, prev) {
        child_patch_alloc(new.child, prev->0.child) + new.events.0@.len()
    } else {
        mount_elem_alloc(new)
    }
}

pub open spec fn child_patch_alloc(nc: Option<Box<VNode>>, pc: Option<Box<VNode>>) -> nat
    decreases nc,
{
    match nc {
        None => 0,
        Some(nb) => match pc {
            None => node_mount_alloc(*nb),
            Some(pb) => node_patch_alloc(*nb, *pb),
        },
    }
}

pub open spec fn node_patch_alloc(n: VNode, p: VNode) -> nat
    decreases n,
{
    match n {
        VNode::Element(ne) => match p {
            VNode::Element(pe) => patch_elem_alloc(ne, Some(pe)),
            VNode::Text(_) => node_mount_alloc(n),
        },
        VNode::Text(_) => match p {
            VNode::Text(_) => 0,
            VNode::Element(_) => node_mount_alloc(n),
        },
    }
}

// ------------------------------------------------------------------
// The mutations each operation puts on the log.
// ------------------------------------------------------------------
/// Class patch: written only when it differs by content from the previous
/// value; cleared when gone; nothing when both absent.
pub open spec fn class_patch_ops(
    new: Option<ClassString>,
    prev: Option<ClassString>,
    id: int,
) -> Seq<Op> {
    match new {
        None => match prev {
            None => Seq::<Op>::empty(),
            Some(_) => seq![Op::RemoveAttribute { id, key: "class"@ }],
        },
        Some(c) => match prev {
            None => seq![Op::SetAttribute { id, key: "class"@, value: c.0@ }],
            Some(p) => if c.0@ == p.0@ {
                Seq::<Op>::empty()
            } else {
                seq![Op::SetAttribute { id, key: "class"@, value: c.0@ }]
            },
        },
    }
}

/// One step per new pair against the snapshot of previous pairs: an unchanged
/// pair costs nothing and only leaves the snapshot; anything else is written.
/// Yields the mutations and the leftover (stale) snapshot.
pub open spec fn attrs_step(
    pairs: Seq<(Seq<char>, Seq<char>)>,
    snap: Seq<(Seq<char>, Seq<char>)>,
    id: int,
) -> (Seq<Op>, Seq<(Seq<char>, Seq<char>)>)
    decreases pairs.len(),
{
    if pairs.len() == 0 {
        (Seq::<Op>::empty(), snap)
    } else {
        let k = pairs[0].0;
        let v = pairs[0].1;
        let i = find_key(snap, k);
        let snap1 = if i == -1 {
            snap
        } else {
            swap_removed(snap, i)
        };
        let removed: Option<Seq<char>> = if i == -1 {
            None
        } else {
            Some(snap[i].1)
        };
        let here = if removed == Some(v) {
            Seq::<Op>::empty()
        } else {
            seq![Op::SetAttribute { id, key: k, value: v }]
        };
        let rest = attrs_step(pairs.drop_first(), snap1, id);
        (here + rest.0, rest.1)
    }
}

/// Every key still in the snapshot after all new pairs is stale and removed.
pub open spec fn stale_removal_ops(snap: Seq<(Seq<char>, Seq<char>)>, id: int) -> Seq<Op>
    decreases snap.len(),
{
    if snap.len() == 0 {
        Seq::<Op>::empty()
    } else {
        seq![Op::RemoveAttribute { id, key: snap[0].0 }] + stale_removal_ops(snap.drop_first(), id)
    }
}

pub open spec fn attrs_snap(prev: Option<Attributes>) -> Seq<(Seq<char>, Seq<char>)> {
    match prev {
        Some(p) => im_entries(p.0),
        None => Seq::<(Seq<char>, Seq<char>)>::empty(),
    }
}

/// Attribute patch: page writes are bounded to exactly the changed, added and
/// removed keys.
pub open spec fn attrs_patch_ops(
    new: Option<Attributes>,
    prev: Option<Attributes>,
    id: int,
) -> Seq<Op> {
    match new {
        None => stale_removal_ops(attrs_snap(prev), id),
        Some(n) => {
            let st = attrs_step(im_entries(n.0), attrs_snap(prev), id);
            st.0 + stale_removal_ops(st.1, id)
        },
    }
}

/// Text patch: rewritten only when the content differs.
pub open spec fn text_patch_ops(new_text: Seq<char>, prev: VText) -> Seq<Op> {
    if new_text == prev.text@ {
        Seq::<Op>::empty()
    } else {
        seq![Op::SetText { id: prev.dom_ref->0 as int, text: new_text }]
    }
}

/// Mount: create the page node, write every present sub-part against "no
/// previous", then append the node to its parent.
pub open spec fn mount_elem_ops(e: VElement, parent: int, base: int) -> Seq<Op>
    decreases e,
{
    seq![Op::CreateElement { id: base, tag: e.tag@ }] + class_patch_ops(e.class, None, base)
        + attrs_patch_ops(e.attrs, None, base) + child_mount_ops(e.child, base, base + 1)
        + events_attach_ops(e.events.0@, base, base + 1 + child_mount_alloc(e.child)) + seq![
        Op::AppendChild { parent, child: base },
    ]
}

pub open spec fn child_mount_ops(c: Option<Box<VNode>>, parent: int, base: int) -> Seq<Op>
    decreases c,
{
    match c {
        Some(b) => node_mount_ops(*b, parent, base),
        None => Seq::<Op>::empty(),
    }
}

pub open spec fn node_mount_ops(n: VNode, parent: int, base: int) -> Seq<Op>
    decreases n,
{
    match n {
        VNode::Element(e) => mount_elem_ops(e, parent, base),
        VNode::Text(t) => seq![
            Op::CreateText { id: base, text: t.text@ },
            Op::AppendChild { parent, child: base },
        ],
    }
}

/// Removal order is load-bearing: detach the element's own listeners first,
/// then take the child subtree down, and only then remove the element itself
/// from its parent.
pub open spec fn remove_elem_ops(e: VElement, parent: int) -> Seq<Op>
    decreases e,
{
    events_detach_ops(e.events.0@) + child_remove_ops(e.child, e.dom_ref->0 as int) + seq![
        Op::RemoveChild { parent, child: e.dom_ref->0 as int },
    ]
}

pub open spec fn child_remove_ops(c: Option<Box<VNode>>, parent: int) -> Seq<Op>
    decreases c,
{
    match c {
        Some(b) => node_remove_ops(*b, parent),
        None => Seq::<Op>::empty(),
    }
}

pub open spec fn node_remove_ops(n: VNode, parent: int) -> Seq<Op>
    decreases n,
{
    match n {
        VNode::Element(e) => remove_elem_ops(e, parent),
        VNode::Text(t) => seq![Op::RemoveChild { parent, child: t.dom_ref->0 as int }],
    }
}

/// Patch: reuse the previous node exactly when the tag matches, patching
/// class, then attributes, then the child slot, then events, in that fixed
/// order; otherwise remove the previous subtree and mount afresh.
pub open spec fn patch_elem_ops(new: VElement, prev: Option<VElement>, parent: int, base: int) -> Seq<
    Op,
>
    decreases new,
{
    if reusable(new, prev) {
        let p = prev->0;
        let id = p.dom_ref->0 as int;
        class_patch_ops(new.class, p.class, id) + attrs_patch_ops(new.attrs, p.attrs, id)
            + child_patch_ops(new.child, p.child, id, base) + events_patch_ops(
            new.events.0@,
            p.events.0@,
            id,
            base + child_patch_alloc(new.child, p.child),
        )
    } else {
        (match prev {
            Some(p) => remove_elem_ops(p, parent),
            None => Seq::<Op>::empty(),
        }) + mount_elem_ops(new, parent, base)
    }
}

pub open spec fn child_patch_ops(
    nc: Option<Box<VNode>>,
    pc: Option<Box<VNode>>,
    parent: int,
    base: int,
) -> Seq<Op>
    decreases nc,
{
    match nc {
        None => match pc {
            None => Seq::<Op>::empty(),
            Some(pb) => node_remove_ops(*pb, parent),
        },
        Some(nb) => match pc {
            None => node_mount_ops(*nb, parent, base),
            Some(pb) => node_patch_ops(*nb, *pb, parent, base),
        },
    }
}

pub open spec fn node_patch_ops(n: VNode, p: VNode, parent: int, base: int) -> Seq<Op>
    decreases n,
{
    match n {
        VNode::Element(ne) => match p {
            VNode::Element(pe) => patch_elem_ops(ne, Some(pe), parent, base),
            VNode::Text(_) => node_remove_ops(p, parent) + node_mount_ops(n, parent, base),
        },
        VNode::Text(nt) => match p {
            VNode::Text(pt) => text_patch_ops(nt.text@, pt),
            VNode::Element(_) => node_remove_ops(p, parent) + node_mount_ops(n, parent, base),
        },
    }
}

// ------------------------------------------------------------------
// What the reconciled tree looks like.
// ------------------------------------------------------------------
/// `res` is `new` mounted at id `base`: same content, live references and
/// handles filled in, in allocation order.
pub open spec fn elem_mounted_as(res: VElement, new: VElement, base: int) -> bool
    decreases new,
{
    &&& res.tag@ == new.tag@
    &&& class_of(res.class) == class_of(new.class)
    &&& attrs_of(res.attrs) == attrs_of(new.attrs)
    &&& res.is_self_closing == new.is_self_closing
    &&& res.dom_ref == Some(base as u64)
    &&& child_mounted_as(res.child, new.child, base + 1)
    &&& events_attached_as(res.events.0@, new.events.0@, base + 1 + child_mount_alloc(new.child))
}

pub open spec fn child_mounted_as(rc: Option<Box<VNode>>, nc: Option<Box<VNode>>, base: int) -> bool
    decreases nc,
{
    match nc {
        None => rc is None,
        Some(nb) => rc matches Some(rb) && node_mounted_as(*rb, *nb, base),
    }
}

pub open spec fn node_mounted_as(rn: VNode, n: VNode, base: int) -> bool
    decreases n,
{
    match n {
        VNode::Element(ne) => rn matches VNode::Element(re) && elem_mounted_as(re, ne, base),
        VNode::Text(nt) => rn matches VNode::Text(rt) && rt.text@ == nt.text@ && rt.dom_ref == Some(
            base as u64,
        ),
    }
}

/// `res` is the reconciled element: `new`'s content, holding the previous
/// live reference on reuse and a fresh one otherwise.
pub open spec fn elem_patched_as(res: VElement, new: VElement, prev: Option<VElement>, base: int) -> bool
    decreases new,
{
    if reusable(new, prev) {
        let p = prev->0;
        &&& res.tag@ == new.tag@
        &&& class_of(res.class) == class_of(new.class)
        &&& attrs_of(res.attrs) == attrs_of(new.attrs)
        &&& res.is_self_closing == new.is_self_closing
        &&& res.dom_ref == p.dom_ref
        &&& child_patched_as(res.child, new.child, p.child, base)
        &&& events_attached_as(
            res.events.0@,
            new.events.0@,
            base + child_patch_alloc(new.child, p.child),
        )
    } else {
        elem_mounted_as(res, new, base)
    }
}

pub open spec fn child_patched_as(
    rc: Option<Box<VNode>>,
    nc: Option<Box<VNode>>,
    pc: Option<Box<VNode>>,
    base: int,
) -> bool
    decreases nc,
{
    match nc {
        None => rc is None,
        Some(nb) => match pc {
            None => rc matches Some(rb) && node_mounted_as(*rb, *nb, base),
            Some(pb) => rc matches Some(rb) && node_patched_as(*rb, *nb, *pb, base),
        },
    }
}

pub open spec fn node_patched_as(rn: VNode, n: VNode, p: VNode, base: int) -> bool
    decreases n,
{
    match n {
        VNode::Element(ne) => match p {
            VNode::Element(pe) => rn matches VNode::Element(re) && elem_patched_as(
                re,
                ne,
                Some(pe),
                base,
            ),
            VNode::Text(_) => node_mounted_as(rn, n, base),
        },
        VNode::Text(nt) => match p {
            VNode::Text(pt) => rn matches VNode::Text(rt) && rt.text@ == nt.text@ && rt.dom_ref
                == pt.dom_ref,
            VNode::Element(_) => node_mounted_as(rn, n, base),
        },
    }
}

// ------------------------------------------------------------------
// Class patching.
// ------------------------------------------------------------------
impl ClassString {
    /// Clear the class attribute on teardown of the slot.
    pub fn remove(self, page: &mut Page, id: NodeId)
        ensures
            final(page).next_id == old(page).next_id,
            page_log(*final(page)) == page_log(*old(page)).push(
                Op::RemoveAttribute { id: id as int, key: "class"@ },
            ),
    {
        emit(page, DomOp::RemoveAttribute { id, key: "class".to_owned() });
    }

    /// Write the class value only when it differs by content from the
    /// previous one.
    pub fn patch(new: Option<ClassString>, page: &mut Page, id: NodeId, prev: Option<ClassString>) -> (res: Option<
        ClassString,
    >)
        ensures
            res == new,
            final(page).next_id == old(page).next_id,
            page_log(*final(page)) == page_log(*old(page)) + class_patch_ops(new, prev, id as int),
    {
        let ghost log0 = page_log(*page);
        let res = match new {
            None => {
                match prev {
                    None => {},
                    Some(p) => p.remove(page, id),
                }
                None
            },
            Some(c) => {
                let write = match &prev {
                    None => true,
                    Some(p) => !c.0.eq(&p.0),
                };
                if write {
                    emit(
                        page,
                        DomOp::SetAttribute { id, key: "class".to_owned(), value: c.0.clone() },
                    );
                }
                Some(c)
            },
        };
        proof {
            assert(page_log(*page) =~= log0 + class_patch_ops(new, prev, id as int));
        }
        res
    }
}

// ------------------------------------------------------------------
// Attribute patching.
// ------------------------------------------------------------------
/// Remove every key of `m` from node `id`, in entry order.
fn remove_keys(m: &IndexMap<String, String>, page: &mut Page, id: NodeId)
    ensures
        final(page).next_id == old(page).next_id,
        page_log(*final(page)) == page_log(*old(page)) + stale_removal_ops(
            im_entries(*m),
            id as int,
        ),
{
    let ghost ents = im_entries(*m);
    let ghost log0 = page_log(*page);
    let pairs = im_pairs(m);
    let n = pairs.len();
    let mut i: usize = 0;
    proof {
        assert(ents.skip(0) =~= ents);
    }
    while i < n
        invariant
            i <= n,
            n == ents.len(),
            pairs@.len() == n,
            forall|j: int| 0 <= j < n ==> pairs@[j].0@ == ents[j].0,
            page.next_id == old(page).next_id,
            page_log(*page) + stale_removal_ops(ents.skip(i as int), id as int) == log0
                + stale_removal_ops(ents, id as int),
        decreases n - i,
    {
        let ghost pre = page_log(*page);
        emit(page, DomOp::RemoveAttribute { id, key: pairs[i].0.clone() });
        proof {
            let rest = ents.skip(i as int);
            assert(rest[0] == ents[i as int]);
            assert(rest.drop_first() =~= ents.skip(i as int + 1));
            assert(page_log(*page) + stale_removal_ops(ents.skip(i as int + 1), id as int) =~= pre
                + stale_removal_ops(rest, id as int));
        }
        i = i + 1;
    }
    proof {
        assert(ents.skip(n as int) =~= Seq::<(Seq<char>, Seq<char>)>::empty());
        assert(page_log(*page) + stale_removal_ops(ents.skip(n as int), id as int) =~= page_log(
            *page,
        ));
    }
}

impl Attributes {
    /// Remove every attribute of this mapping from node `id`.
    pub fn remove(self, page: &mut Page, id: NodeId)
        ensures
            final(page).next_id == old(page).next_id,
            page_log(*final(page)) == page_log(*old(page)) + stale_removal_ops(
                im_entries(self.0),
                id as int,
            ),
    {
        remove_keys(&self.0, page, id);
    }

    /// Diff against the snapshot of previous pairs: write exactly the changed
    /// and added keys, then remove exactly the stale ones.
    pub fn patch(new: Option<Attributes>, page: &mut Page, id: NodeId, prev: Option<Attributes>) -> (res: Option<
        Attributes,
    >)
        ensures
            res == new,
            final(page).next_id == old(page).next_id,
            page_log(*final(page)) == page_log(*old(page)) + attrs_patch_ops(new, prev, id as int),
    {
        let ghost log0 = page_log(*page);
        let ghost snap0 = attrs_snap(prev);
        match new {
            None => {
                match prev {
                    None => {},
                    Some(p) => p.remove(page, id),
                }
                proof {
                    assert(page_log(*page) =~= log0 + attrs_patch_ops(None, prev, id as int));
                }
                None
            },
            Some(n) => {
                let ghost newents = im_entries(n.0);
                let ghost st = attrs_step(newents, snap0, id as int);
                let mut snap: IndexMap<String, String> = match prev {
                    Some(p) => {
                        let Attributes(m) = p;
                        m
                    },
                    None => im_new(),
                };
                let pairs = im_pairs(&n.0);
                let cnt = pairs.len();
                let mut i: usize = 0;
                proof {
                    assert(newents.skip(0) =~= newents);
                }
                while i < cnt
                    invariant
                        i <= cnt,
                        cnt == newents.len(),
                        pairs@.len() == cnt,
                        forall|j: int|
                            0 <= j < cnt ==> pairs@[j].0@ == newents[j].0 && pairs@[j].1@
                                == newents[j].1,
                        page.next_id == old(page).next_id,
                        attrs_step(newents.skip(i as int), im_entries(snap), id as int).1 == st.1,
                        page_log(*page) + attrs_step(
                            newents.skip(i as int),
                            im_entries(snap),
                            id as int,
                        ).0 == log0 + st.0,
                    decreases cnt - i,
                {
                    let ghost pre = page_log(*page);
                    let ghost snappre = im_entries(snap);
                    let removed = im_swap_remove(&mut snap, pairs[i].0.as_str());
                    let write = match &removed {
                        Some(pv) => !pv.eq(&pairs[i].1),
                        None => true,
                    };
                    if write {
                        emit(
                            page,
                            DomOp::SetAttribute {
                                id,
                                key: pairs[i].0.clone(),
                                value: pairs[i].1.clone(),
                            },
                        );
                    }
                    proof {
                        let rest = newents.skip(i as int);
                        assert(rest[0] == newents[i as int]);
                        assert(rest.drop_first() =~= newents.skip(i as int + 1));
                        assert(page_log(*page) + attrs_step(
                            newents.skip(i as int + 1),
                            im_entries(snap),
                            id as int,
                        ).0 =~= pre + attrs_step(rest, snappre, id as int).0);
                    }
                    i = i + 1;
                }
                proof {
                    assert(newents.skip(cnt as int) =~= Seq::<(Seq<char>, Seq<char>)>::empty());
                    assert(im_entries(snap) == st.1);
                    assert(page_log(*page) =~= log0 + st.0);
                }
                remove_keys(&snap, page, id);
                proof {
                    assert(page_log(*page) =~= log0 + attrs_patch_ops(
                        Some(n),
                        prev,
                        id as int,
                    ));
                }
                Some(n)
            },
        }
    }
}

// ------------------------------------------------------------------
// Text patching.
// ------------------------------------------------------------------
fn mount_text(t: VText, page: &mut Page, parent: NodeId) -> (res: VText)
    requires
        old(page).next_id < NodeId::MAX,
    ensures
        final(page).next_id == old(page).next_id + 1,
        page_log(*final(page)) == page_log(*old(page)) + node_mount_ops(
            VNode::Text(t),
            parent as int,
            old(page).next_id as int,
        ),
        res.text@ == t.text@,
        res.dom_ref == Some(old(page).next_id),
{
    let ghost log0 = page_log(*page);
    let id = alloc_id(page);
    emit(page, DomOp::CreateText { id, text: t.text.clone() });
    emit(page, DomOp::AppendChild { parent, child: id });
    proof {
        assert(page_log(*page) =~= log0 + node_mount_ops(
            VNode::Text(t),
            parent as int,
            id as int,
        ));
    }
    VText { text: t.text, dom_ref: Some(id) }
}

fn patch_text(new: VText, page: &mut Page, prev: VText) -> (res: VText)
    requires
        prev.dom_ref is Some,
    ensures
        final(page).next_id == old(page).next_id,
        page_log(*final(page)) == page_log(*old(page)) + text_patch_ops(new.text@, prev),
        res.text@ == new.text@,
        res.dom_ref == prev.dom_ref,
    {
    let ghost log0 = page_log(*page);
    let id: NodeId = match prev.dom_ref {
        Some(r) => r,
        None => 0,
    };
    if !new.text.eq(&prev.text) {
        emit(page, DomOp::SetText { id, text: new.text.clone() });
    }
    proof {
        assert(page_log(*page) =~= log0 + text_patch_ops(new.text@, prev));
    }
    VText { text: new.text, dom_ref: prev.dom_ref }
}

// ------------------------------------------------------------------
// Removal.
// ------------------------------------------------------------------
fn remove_elem_mounted(e: VElement, page: &mut Page, parent: NodeId)
    requires
        elem_mounted(e),
    ensures
        final(page).next_id == old(page).next_id,
        page_log(*final(page)) == page_log(*old(page)) + remove_elem_ops(e, parent as int),
    decreases e,
{
    let ghost log0 = page_log(*page);
    let VElement { tag: _, class: _, attrs: _, child, is_self_closing: _, events, dom_ref } = e;
    let own: NodeId = match dom_ref {
        Some(r) => r,
        None => 0,
    };
    events.remove(page);
    match child {
        Some(b) => remove_node_mounted(*b, page, own),
        None => {},
    }
    emit(page, DomOp::RemoveChild { parent, child: own });
    proof {
        assert(page_log(*page) =~= log0 + remove_elem_ops(e, parent as int));
    }
}

fn remove_node_mounted(n: VNode, page: &mut Page, parent: NodeId)
    requires
        node_mounted(n),
    ensures
        final(page).next_id == old(page).next_id,
        page_log(*final(page)) == page_log(*old(page)) + node_remove_ops(n, parent as int),
    decreases n,
{
    match n {
        VNode::Element(e) => remove_elem_mounted(e, page, parent),
        VNode::Text(t) => {
            let id: NodeId = match t.dom_ref {
                Some(r) => r,
                None => 0,
            };
            emit(page, DomOp::RemoveChild { parent, child: id });
        },
    }
}

// ------------------------------------------------------------------
// Mounting and patching.
// ------------------------------------------------------------------
/// Mount a fresh element: create its page node, write every present
/// sub-part, attach its listeners, then append it to `parent`.
pub fn create_new_dom_node(vel: VElement, page: &mut Page, parent: NodeId) -> (res: VElement)
    requires
        elem_fresh(vel),
        old(page).next_id + mount_elem_alloc(vel) <= NodeId::MAX,
    ensures
        final(page).next_id == old(page).next_id + mount_elem_alloc(vel),
        page_log(*final(page)) == page_log(*old(page)) + mount_elem_ops(
            vel,
            parent as int,
            old(page).next_id as int,
        ),
        elem_mounted_as(res, vel, old(page).next_id as int),
    decreases vel, 0int,
{
    let ghost log0 = page_log(*page);
    let ghost base = page.next_id as int;
    let VElement { tag, class, attrs, child, is_self_closing, events, dom_ref: _ } = vel;
    let id = alloc_id(page);
    emit(page, DomOp::CreateElement { id, tag: tag.clone() });
    let class = ClassString::patch(class, page, id, None);
    let attrs = Attributes::patch(attrs, page, id, None);
    let child = patch_child(child, page, id, None);
    proof {
        assert(child_patch_ops(vel.child, None, id as int, base + 1) == child_mount_ops(
            vel.child,
            id as int,
            base + 1,
        ));
        assert(child_patch_alloc(vel.child, None) == child_mount_alloc(vel.child));
    }
    let events = events.patch(page, id, None);
    emit(page, DomOp::AppendChild { parent, child: id });
    let res = VElement { tag, class, attrs, child, is_self_closing, events, dom_ref: Some(id) };
    proof {
        assert(events_patch_ops(
            vel.events.0@,
            events_of(None),
            id as int,
            base + 1 + child_mount_alloc(vel.child),
        ) =~= events_attach_ops(vel.events.0@, id as int, base + 1 + child_mount_alloc(vel.child)));
        assert(page_log(*page) =~= log0 + mount_elem_ops(vel, parent as int, base));
        assert(child_patched_as(res.child, vel.child, None, base + 1) == child_mounted_as(
            res.child,
            vel.child,
            base + 1,
        ));
        assert(elem_mounted_as(res, vel, base));
    }
    res
}

/// Reconcile one optional child slot.
fn patch_child(
    nc: Option<Box<VNode>>,
    page: &mut Page,
    parent: NodeId,
    pc: Option<Box<VNode>>,
) -> (rc: Option<Box<VNode>>)
    requires
        child_fresh(nc),
        child_mounted(pc),
        old(page).next_id + child_patch_alloc(nc, pc) <= NodeId::MAX,
    ensures
        final(page).next_id == old(page).next_id + child_patch_alloc(nc, pc),
        page_log(*final(page)) == page_log(*old(page)) + child_patch_ops(
            nc,
            pc,
            parent as int,
            old(page).next_id as int,
        ),
        child_patched_as(rc, nc, pc, old(page).next_id as int),
    decreases nc, 0int,
{
    let ghost log0 = page_log(*page);
    match nc {
        None => {
            match pc {
                None => {
                    proof {
                        assert(page_log(*page) =~= log0 + child_patch_ops(
                            nc,
                            pc,
                            parent as int,
                            page.next_id as int,
                        ));
                    }
                },
                Some(pb) => remove_node_mounted(*pb, page, parent),
            }
            None
        },
        Some(nb) => {
            match pc {
                None => {
                    let r = mount_node(*nb, page, parent);
                    Some(Box::new(r))
                },
                Some(pb) => {
                    let r = patch_node_inner(*nb, page, parent, *pb);
                    Some(Box::new(r))
                },
            }
        },
    }
}

fn mount_node(n: VNode, page: &mut Page, parent: NodeId) -> (res: VNode)
    requires
        node_fresh(n),
        old(page).next_id + node_mount_alloc(n) <= NodeId::MAX,
    ensures
        final(page).next_id == old(page).next_id + node_mount_alloc(n),
        page_log(*final(page)) == page_log(*old(page)) + node_mount_ops(
            n,
            parent as int,
            old(page).next_id as int,
        ),
        node_mounted_as(res, n, old(page).next_id as int),
    decreases n, 0int,
{
    match n {
        VNode::Element(e) => VNode::Element(create_new_dom_node(e, page, parent)),
        VNode::Text(t) => VNode::Text(mount_text(t, page, parent)),
    }
}

fn patch_node_inner(n: VNode, page: &mut Page, parent: NodeId, p: VNode) -> (res: VNode)
    requires
        node_fresh(n),
        node_mounted(p),
        old(page).next_id + node_patch_alloc(n, p) <= NodeId::MAX,
    ensures
        final(page).next_id == old(page).next_id + node_patch_alloc(n, p),
        page_log(*final(page)) == page_log(*old(page)) + node_patch_ops(
            n,
            p,
            parent as int,
            old(page).next_id as int,
        ),
        node_patched_as(res, n, p, old(page).next_id as int),
    decreases n, 1int,
{
    let ghost log0 = page_log(*page);
    match n {
        VNode::Element(ne) => match p {
            VNode::Element(pe) => VNode::Element(ne.patch(page, parent, Some(pe))),
            VNode::Text(_) => {
                remove_node_mounted(p, page, parent);
                let r = mount_node(VNode::Element(ne), page, parent);
                proof {
                    assert(page_log(*page) =~= log0 + node_patch_ops(
                        VNode::Element(ne),
                        p,
                        parent as int,
                        old(page).next_id as int,
                    ));
                }
                r
            },
        },
        VNode::Text(nt) => match p {
            VNode::Text(pt) => VNode::Text(patch_text(nt, page, pt)),
            VNode::Element(_) => {
                remove_node_mounted(p, page, parent);
                let r = mount_node(VNode::Text(nt), page, parent);
                proof {
                    assert(page_log(*page) =~= log0 + node_patch_ops(
                        VNode::Text(nt),
                        p,
                        parent as int,
                        old(page).next_id as int,
                    ));
                }
                r
            },
        },
    }
}

impl VElement {
    /// Reconcile this fresh element against the optional previous element,
    /// recording the needed page mutations: mount when there is no previous
    /// node, reuse its live reference on a tag match, and replace (remove,
    /// then mount) on a tag change.
    pub fn patch(self, page: &mut Page, parent: NodeId, prev: Option<VElement>) -> (res: VElement)
        requires
            elem_fresh(self),
            (prev matches Some(p) ==> elem_mounted(p)),
            old(page).next_id + patch_elem_alloc(self, prev) <= NodeId::MAX,
        ensures
            final(page).next_id == old(page).next_id + patch_elem_alloc(self, prev),
            page_log(*final(page)) == page_log(*old(page)) + patch_elem_ops(
                self,
                prev,
                parent as int,
                old(page).next_id as int,
            ),
            elem_patched_as(res, self, prev, old(page).next_id as int),
        decreases self, 1int,
    {
        let ghost log0 = page_log(*page);
        let ghost base = page.next_id as int;
        match prev {
            Some(p) => {
                let same_tag = self.tag.eq(&p.tag);
                if same_tag {
                    let ghost pg = p;
                    let VElement { tag, class, attrs, child, is_self_closing, events, dom_ref: _ } =
                        self;
                    let VElement {
                        tag: _,
                        class: pclass,
                        attrs: pattrs,
                        child: pchild,
                        is_self_closing: _,
                        events: pevents,
                        dom_ref: pdom,
                    } = p;
                    let el: NodeId = match pdom {
                        Some(r) => r,
                        None => 0,
                    };
                    let class = ClassString::patch(class, page, el, pclass);
                    let attrs = Attributes::patch(attrs, page, el, pattrs);
                    let child = patch_child(child, page, el, pchild);
                    let events = events.patch(page, el, Some(pevents));
                    let res = VElement {
                        tag,
                        class,
                        attrs,
                        child,
                        is_self_closing,
                        events,
                        dom_ref: Some(el),
                    };
                    proof {
                        assert(page_log(*page) =~= log0 + patch_elem_ops(
                            self,
                            Some(pg),
                            parent as int,
                            base,
                        ));
                        assert(elem_patched_as(res, self, Some(pg), base));
                    }
                    res
                } else {
                    remove_elem_mounted(p, page, parent);
                    let res = create_new_dom_node(self, page, parent);
                    proof {
                        assert(page_log(*page) =~= log0 + patch_elem_ops(
                            self,
                            Some(p),
                            parent as int,
                            base,
                        ));
                    }
                    res
                }
            },
            None => {
                let res = create_new_dom_node(self, page, parent);
                proof {
                    assert(page_log(*page) =~= log0 + patch_elem_ops(
                        self,
                        None,
                        parent as int,
                        base,
                    ));
                }
                res
            },
        }
    }

    /// Tear the subtree down: listeners first, then the child subtree, then
    /// the element's own live reference, which is consumed for good. A node
    /// with no live reference is a fatal lifecycle fault: the call errs and
    /// the page is untouched.
    pub fn remove(self, page: &mut Page, parent: NodeId) -> (r: Result<(), LifecycleError>)
        requires
            self.dom_ref is Some ==> elem_mounted(self),
        ensures
            self.dom_ref is None ==> (r matches Err(e) && e is NotMounted) && *final(page) == *old(
                page,
            ),
            self.dom_ref is Some ==> r is Ok && final(page).next_id == old(page).next_id
                && page_log(*final(page)) == page_log(*old(page)) + remove_elem_ops(
                self,
                parent as int,
            ),
    {
        if self.dom_ref.is_none() {
            return Err(LifecycleError::NotMounted);
        }
        remove_elem_mounted(self, page, parent);
        Ok(())
    }

    /// Move an already-mounted element to the end of `parent`'s children. An
    /// unmounted element is a fatal lifecycle fault.
    pub fn reorder_append(&self, page: &mut Page, parent: NodeId) -> (r: Result<
        (),
        LifecycleError,
    >)
        ensures
            self.dom_ref is None ==> (r matches Err(e) && e is NotMounted) && *final(page) == *old(
                page,
            ),
            self.dom_ref is Some ==> r is Ok && final(page).next_id == old(page).next_id
                && page_log(*final(page)) == page_log(*old(page)).push(
                Op::AppendChild { parent: parent as int, child: self.dom_ref->0 as int },
            ),
    {
        match self.dom_ref {
            None => Err(LifecycleError::NotMounted),
            Some(id) => {
                emit(page, DomOp::AppendChild { parent, child: id });
                Ok(())
            },
        }
    }

    /// Move an already-mounted element immediately before the sibling whose
    /// live reference is `next`. An unmounted element is a fatal lifecycle
    /// fault.
    pub fn reorder_before(&self, page: &mut Page, parent: NodeId, next: NodeId) -> (r: Result<
        (),
        LifecycleError,
    >)
        ensures
            self.dom_ref is None ==> (r matches Err(e) && e is NotMounted) && *final(page) == *old(
                page,
            ),
            self.dom_ref is Some ==> r is Ok && final(page).next_id == old(page).next_id
                && page_log(*final(page)) == page_log(*old(page)).push(
                Op::InsertBefore {
                    parent: parent as int,
                    child: self.dom_ref->0 as int,
                    before: next as int,
                },
            ),
    {
        match self.dom_ref {
            None => Err(LifecycleError::NotMounted),
            Some(id) => {
                emit(page, DomOp::InsertBefore { parent, child: id, before: next });
                Ok(())
            },
        }
    }
}

/// The mutations of a node-level patch against an optional previous node.
pub open spec fn node_patch_opt_ops(n: VNode, prev: Option<VNode>, parent: int, base: int) -> Seq<
    Op,
> {
    match prev {
        None => node_mount_ops(n, parent, base),
        Some(p) => node_patch_ops(n, p, parent, base),
    }
}

pub open spec fn node_patch_opt_alloc(n: VNode, prev: Option<VNode>) -> nat {
    match prev {
        None => node_mount_alloc(n),
        Some(p) => node_patch_alloc(n, p),
    }
}

pub open spec fn node_patched_opt_as(rn: VNode, n: VNode, prev: Option<VNode>, base: int) -> bool {
    match prev {
        None => node_mounted_as(rn, n, base),
        Some(p) => node_patched_as(rn, n, p, base),
    }
}

impl VNode {
    /// Reconcile one node of either kind against its optional previous node.
    pub fn patch(self, page: &mut Page, parent: NodeId, prev: Option<VNode>) -> (res: VNode)
        requires
            node_fresh(self),
            (prev matches Some(p) ==> node_mounted(p)),
            old(page).next_id + node_patch_opt_alloc(self, prev) <= NodeId::MAX,
        ensures
            final(page).next_id == old(page).next_id + node_patch_opt_alloc(self, prev),
            page_log(*final(page)) == page_log(*old(page)) + node_patch_opt_ops(
                self,
                prev,
                parent as int,
                old(page).next_id as int,
            ),
            node_patched_opt_as(res, self, prev, old(page).next_id as int),
    {
        match prev {
            None => mount_node(self, page, parent),
            Some(p) => patch_node_inner(self, page, parent, p),
        }
    }

    /// Tear one node of either kind down. A node with no live reference is a
    /// fatal lifecycle fault: the call errs and the page is untouched.
    pub fn remove(self, page: &mut Page, parent: NodeId) -> (r: Result<(), LifecycleError>)
        requires
            crate::velement::node_ref(self) is Some ==> node_mounted(self),
        ensures
            crate::velement::node_ref(self) is None ==> (r matches Err(e) && e is NotMounted)
                && *final(page) == *old(page),
            crate::velement::node_ref(self) is Some ==> r is Ok && final(page).next_id == old(
                page,
            ).next_id && page_log(*final(page)) == page_log(*old(page)) + node_remove_ops(
                self,
                parent as int,
            ),
    {
        if self.dom_ref().is_none() {
            return Err(LifecycleError::NotMounted);
        }
        remove_node_mounted(self, page, parent);
        Ok(())
    }
}

} // verus!
