use vstd::prelude::*;
use vstd::string::StringExecFns;
use indexmap::IndexMap;
use crate::NodeId;
use crate::events::{DOMEventListener, Events};
use crate::imap::{
    im_entries, im_new, im_insert, im_swap_remove, im_len, im_pairs, find_key, has_key,
    swap_removed, inserted,
};

verus! {

/// The dedicated class slot of an element, split out of the attribute mapping.
pub struct ClassString(pub String);

/// The remaining attributes of an element: an insertion-ordered string map.
/// Order only makes diff iteration and serialization deterministic; it carries
/// no meaning.
pub struct Attributes(pub IndexMap<String, String>);

/// A text position in the declarative tree.
pub struct VText {
    pub text: String,
    pub dom_ref: Option<NodeId>,
}

/// One position in the declarative tree for one render cycle. An element holds
/// at most one child slot; there is no list variant and no key-based sibling
/// reconciliation.
pub enum VNode {
    Element(VElement),
    Text(VText),
}

/// An element of the declarative tree. `dom_ref` is present exactly while the
/// element is mounted; it passes to the next version on a same-tag patch and
/// is released for good on removal.
pub struct VElement {
    pub tag: String,
    pub class: Option<ClassString>,
    pub attrs: Option<Attributes>,
    pub child: Option<Box<VNode>>,
    pub is_self_closing: bool,
    pub events: Events,
    pub dom_ref: Option<NodeId>,
}

pub open spec fn class_of(c: Option<ClassString>) -> Option<Seq<char>> {
    match c {
        Some(cs) => Some(cs.0@),
        None => None,
    }
}

pub open spec fn attrs_of(a: Option<Attributes>) -> Option<Seq<(Seq<char>, Seq<char>)>> {
    match a {
        Some(at) => Some(im_entries(at.0)),
        None => None,
    }
}

/// View of a plain key/value pair list.
pub open spec fn kv_views(s: Seq<(String, String)>) -> Seq<(Seq<char>, Seq<char>)> {
    s.map_values(|p: (String, String)| (p.0@, p.1@))
}

/// The entries after inserting every pair of `pairs`, in order, into `acc`.
pub open spec fn inserted_all(
    acc: Seq<(Seq<char>, Seq<char>)>,
    pairs: Seq<(Seq<char>, Seq<char>)>,
) -> Seq<(Seq<char>, Seq<char>)>
    decreases pairs.len(),
{
    if pairs.len() == 0 {
        acc
    } else {
        inserted_all(inserted(acc, pairs[0].0, pairs[0].1), pairs.drop_first())
    }
}

/// The class value that splitting `e` yields: the value under "class", if any.
pub open spec fn class_split(e: Seq<(Seq<char>, Seq<char>)>) -> Option<Seq<char>> {
    if has_key(e, "class"@) {
        Some(e[find_key(e, "class"@)].1)
    } else {
        None
    }
}

/// The attribute entries that splitting `e` leaves: `e` without the "class"
/// entry (taken out by a swap with the last entry), or nothing when that
/// leaves the mapping empty.
pub open spec fn attrs_split(e: Seq<(Seq<char>, Seq<char>)>) -> Option<Seq<(Seq<char>, Seq<char>)>> {
    let rest = if has_key(e, "class"@) {
        swap_removed(e, find_key(e, "class"@))
    } else {
        e
    };
    if rest.len() == 0 {
        None
    } else {
        Some(rest)
    }
}

impl ClassString {
    pub fn new(s: String) -> (r: ClassString)
        ensures
            r.0@ == s@,
    {
        ClassString(s)
    }
}

impl Attributes {
    /// An ordered mapping from literal pairs: later pairs with an equal key
    /// replace the value in place; fresh keys go in last.
    pub fn from_pairs(pairs: Vec<(String, String)>) -> (r: Attributes)
        ensures
            im_entries(r.0) == inserted_all(Seq::<(Seq<char>, Seq<char>)>::empty(), kv_views(pairs@)),
    {
        let ghost pvs = kv_views(pairs@);
        let ghost target = inserted_all(Seq::<(Seq<char>, Seq<char>)>::empty(), pvs);
        let mut m = im_new();
        let n = pairs.len();
        let mut i: usize = 0;
        proof {
            assert(pvs.skip(0) =~= pvs);
        }
        while i < n
            invariant
                i <= n,
                n == pairs@.len(),
                pvs == kv_views(pairs@),
                pvs.len() == n,
                inserted_all(im_entries(m), pvs.skip(i as int)) == target,
            decreases n - i,
        {
            let k = pairs[i].0.clone();
            let v = pairs[i].1.clone();
            let ghost rest = pvs.skip(i as int);
            let _ = im_insert(&mut m, k, v);
            proof {
                assert(rest[0] == pvs[i as int]);
                assert(rest.drop_first() =~= pvs.skip(i as int + 1));
            }
            i = i + 1;
        }
        proof {
            assert(pvs.skip(n as int) =~= Seq::<(Seq<char>, Seq<char>)>::empty());
        }
        Attributes(m)
    }
}

/// Pull the `class` key, if present, out of the attribute pairs into the
/// dedicated class slot; the remaining mapping becomes nothing when empty, so
/// patching can skip work cheaply.
pub fn split_into_class_and_attrs(attrs: Attributes) -> (r: (Option<ClassString>, Option<Attributes>))
    ensures
        class_of(r.0) == class_split(im_entries(attrs.0)),
        attrs_of(r.1) == attrs_split(im_entries(attrs.0)),
{
    let Attributes(mut m) = attrs;
    let taken = im_swap_remove(&mut m, "class");
    let class = match taken {
        Some(s) => Some(ClassString(s)),
        None => None,
    };
    if im_len(&m) == 0 {
        (class, None)
    } else {
        (class, Some(Attributes(m)))
    }
}

impl VText {
    pub fn new(text: String) -> (r: VText)
        ensures
            r.text@ == text@,
            r.dom_ref is None,
    {
        VText { text, dom_ref: None }
    }
}

impl VNode {
    /// A text node, as the builders write one.
    pub fn text_node(text: String) -> (r: VNode)
        ensures
            (r matches VNode::Text(t) && t.text@ == text@ && t.dom_ref is None),
    {
        VNode::Text(VText::new(text))
    }

    /// The live reference, if the node is mounted.
    pub fn dom_ref(&self) -> (r: Option<NodeId>)
        ensures
            r == node_ref(*self),
    {
        match self {
            VNode::Element(e) => e.dom_ref,
            VNode::Text(t) => t.dom_ref,
        }
    }
}

/// The live reference a node holds, if any.
pub open spec fn node_ref(n: VNode) -> Option<NodeId> {
    match n {
        VNode::Element(e) => e.dom_ref,
        VNode::Text(t) => t.dom_ref,
    }
}

impl VElement {
    /// A fresh element for this cycle: not mounted, no bindings yet. The tag
    /// passes through unvalidated, a deliberate, documented gap.
    pub fn new(
        tag: String,
        class: Option<ClassString>,
        attrs: Option<Attributes>,
        child: Option<VNode>,
        is_self_closing: bool,
    ) -> (r: VElement)
        ensures
            r.tag == tag,
            r.class == class,
            r.attrs == attrs,
            r.is_self_closing == is_self_closing,
            r.events.0@ == Seq::<DOMEventListener>::empty(),
            r.dom_ref is None,
            (child matches Some(c) ==> (r.child matches Some(b) && *b == c)),
            (child is None ==> r.child is None),
    {
        VElement {
            tag,
            class,
            attrs,
            child: match child {
                Some(c) => Some(Box::new(c)),
                None => None,
            },
            is_self_closing,
            events: Events::new(),
            dom_ref: None,
        }
    }

    /// Build from the literal shape (tag, attribute pairs, optional child,
    /// self-closing flag), splitting `class` out of the pairs.
    pub fn from_parts(
        tag: String,
        pairs: Vec<(String, String)>,
        child: Option<VNode>,
        is_self_closing: bool,
    ) -> (r: VElement)
        ensures
            r.tag == tag,
            class_of(r.class) == class_split(
                inserted_all(Seq::<(Seq<char>, Seq<char>)>::empty(), kv_views(pairs@)),
            ),
            attrs_of(r.attrs) == attrs_split(
                inserted_all(Seq::<(Seq<char>, Seq<char>)>::empty(), kv_views(pairs@)),
            ),
            r.is_self_closing == is_self_closing,
            r.events.0@ == Seq::<DOMEventListener>::empty(),
            r.dom_ref is None,
            (child matches Some(c) ==> (r.child matches Some(b) && *b == c)),
            (child is None ==> r.child is None),
    {
        let (class, attrs) = split_into_class_and_attrs(Attributes::from_pairs(pairs));
        VElement::new(tag, class, attrs, child, is_self_closing)
    }

    /// The live reference, if the element is mounted.
    pub fn dom_ref(&self) -> (r: Option<NodeId>)
        ensures
            r == self.dom_ref,
    {
        self.dom_ref
    }

    /// The live node a following sibling would be inserted before.
    pub fn next_dom_node(&self) -> (r: Option<NodeId>)
        ensures
            r == self.dom_ref,
    {
        self.dom_ref
    }

    /// Declare the event bindings for this cycle.
    pub fn set_events(&mut self, events: Vec<DOMEventListener>)
        ensures
            final(self).events.0@ == events@,
            final(self).tag == old(self).tag,
            final(self).class == old(self).class,
            final(self).attrs == old(self).attrs,
            final(self).child == old(self).child,
            final(self).is_self_closing == old(self).is_self_closing,
            final(self).dom_ref == old(self).dom_ref,
    {
        self.events = Events(events);
    }
}

/// Serialized form of the class slot: ` class="C"` or nothing.
pub open spec fn class_html(c: Option<ClassString>) -> Seq<char> {
    match c {
        Some(cs) => " class=\""@ + cs.0@ + "\""@,
        None => Seq::<char>::empty(),
    }
}

/// Serialized form of attribute entries: ` k="v"` each, in order.
pub open spec fn entries_html(s: Seq<(Seq<char>, Seq<char>)>) -> Seq<char>
    decreases s.len(),
{
    if s.len() == 0 {
        Seq::<char>::empty()
    } else {
        " "@ + s[0].0 + "=\""@ + s[0].1 + "\""@ + entries_html(s.drop_first())
    }
}

pub open spec fn attrs_html(a: Option<Attributes>) -> Seq<char> {
    match a {
        Some(at) => entries_html(im_entries(at.0)),
        None => Seq::<char>::empty(),
    }
}

/// The exact serialization grammar: `<tag[ class="C"][ k="v"]*>` followed by
/// the child and `</tag>`, or by nothing when self-closing.
pub open spec fn elem_html(e: VElement) -> Seq<char>
    decreases e,
{
    let open_part = "<"@ + e.tag@ + class_html(e.class) + attrs_html(e.attrs) + ">"@;
    if e.is_self_closing {
        open_part
    } else {
        open_part + child_html(e.child) + "</"@ + e.tag@ + ">"@
    }
}

pub open spec fn child_html(c: Option<Box<VNode>>) -> Seq<char>
    decreases c,
{
    match c {
        Some(b) => node_html(*b),
        None => Seq::<char>::empty(),
    }
}

pub open spec fn node_html(n: VNode) -> Seq<char>
    decreases n,
{
    match n {
        VNode::Element(e) => elem_html(e),
        VNode::Text(t) => t.text@,
    }
}

impl VElement {
    /// String-rendering mode: the pure serialization of the tree, no live page
    /// involved.
    pub fn render(&self) -> (r: String)
        ensures
            r@ == elem_html(*self),
        decreases *self,
    {
        let mut s = "<".to_owned();
        s.append(self.tag.as_str());
        match &self.class {
            Some(c) => {
                s.append(" class=\"");
                s.append(c.0.as_str());
                s.append("\"");
            },
            None => {},
        }
        match &self.attrs {
            Some(a) => {
                let ghost ents = im_entries(a.0);
                let pairs = im_pairs(&a.0);
                let n = pairs.len();
                let mut i: usize = 0;
                let ghost s0 = s@;
                proof {
                    assert(ents.skip(0) =~= ents);
                }
                while i < n
                    invariant
                        i <= n,
                        n == ents.len(),
                        pairs@.len() == n,
                        forall|j: int|
                            0 <= j < n ==> pairs@[j].0@ == ents[j].0 && pairs@[j].1@ == ents[j].1,
                        s@ + entries_html(ents.skip(i as int)) == s0 + entries_html(ents),
                    decreases n - i,
                {
                    let ghost pre = s@;
                    s.append(" ");
                    s.append(pairs[i].0.as_str());
                    s.append("=\"");
                    s.append(pairs[i].1.as_str());
                    s.append("\"");
                    proof {
                        let rest = ents.skip(i as int);
                        assert(rest[0] == ents[i as int]);
                        assert(rest.drop_first() =~= ents.skip(i as int + 1));
                        assert(s@ + entries_html(ents.skip(i as int + 1)) =~= pre + entries_html(
                            rest,
                        ));
                    }
                    i = i + 1;
                }
                proof {
                    assert(ents.skip(n as int) =~= Seq::<(Seq<char>, Seq<char>)>::empty());
                    assert(s@ + entries_html(ents.skip(n as int)) =~= s@);
                }
            },
            None => {},
        }
        s.append(">");
        if !self.is_self_closing {
            match &self.child {
                Some(b) => {
                    let cs = b.render();
                    s.append(cs.as_str());
                },
                None => {},
            }
            s.append("</");
            s.append(self.tag.as_str());
            s.append(">");
        }
        proof {
            assert(s@ =~= elem_html(*self));
        }
        s
    }
}

impl VNode {
    /// String-rendering mode for one node: an element's grammar, or the raw
    /// text.
    pub fn render(&self) -> (r: String)
        ensures
            r@ == node_html(*self),
        decreases *self,
    {
        match self {
            VNode::Element(e) => e.render(),
            VNode::Text(t) => t.text.clone(),
        }
    }
}

} // verus!
