use vstd::prelude::*;
use crate::NodeId;

verus! {

/// Ghost form of one page mutation, over character sequences and unbounded ids.
pub enum Op {
    CreateElement { id: int, tag: Seq<char> },
    CreateText { id: int, text: Seq<char> },
    SetText { id: int, text: Seq<char> },
    AppendChild { parent: int, child: int },
    InsertBefore { parent: int, child: int, before: int },
    RemoveChild { parent: int, child: int },
    SetAttribute { id: int, key: Seq<char>, value: Seq<char> },
    RemoveAttribute { id: int, key: Seq<char> },
    AttachListener { id: int, event_type: Seq<char>, handle: int },
    DetachListener { handle: int },
}

/// One mutation of the live page, as handed to the host. The engine treats
/// every one of these as unconditionally successful once emitted.
#[derive(Debug, PartialEq, Eq)]
pub enum DomOp {
    CreateElement { id: NodeId, tag: String },
    CreateText { id: NodeId, text: String },
    SetText { id: NodeId, text: String },
    AppendChild { parent: NodeId, child: NodeId },
    InsertBefore { parent: NodeId, child: NodeId, before: NodeId },
    RemoveChild { parent: NodeId, child: NodeId },
    SetAttribute { id: NodeId, key: String, value: String },
    RemoveAttribute { id: NodeId, key: String },
    AttachListener { id: NodeId, event_type: String, handle: u64 },
    DetachListener { handle: u64 },
}

impl View for DomOp {
    type V = Op;

    open spec fn view(&self) -> Op {
        match self {
            DomOp::CreateElement { id, tag } => Op::CreateElement { id: *id as int, tag: tag@ },
            DomOp::CreateText { id, text } => Op::CreateText { id: *id as int, text: text@ },
            DomOp::SetText { id, text } => Op::SetText { id: *id as int, text: text@ },
            DomOp::AppendChild { parent, child } => Op::AppendChild {
                parent: *parent as int,
                child: *child as int,
            },
            DomOp::InsertBefore { parent, child, before } => Op::InsertBefore {
                parent: *parent as int,
                child: *child as int,
                before: *before as int,
            },
            DomOp::RemoveChild { parent, child } => Op::RemoveChild {
                parent: *parent as int,
                child: *child as int,
            },
            DomOp::SetAttribute { id, key, value } => Op::SetAttribute {
                id: *id as int,
                key: key@,
                value: value@,
            },
            DomOp::RemoveAttribute { id, key } => Op::RemoveAttribute {
                id: *id as int,
                key: key@,
            },
            DomOp::AttachListener { id, event_type, handle } => Op::AttachListener {
                id: *id as int,
                event_type: event_type@,
                handle: *handle as int,
            },
            DomOp::DetachListener { handle } => Op::DetachListener { handle: *handle as int },
        }
    }
}

/// The page-mutation boundary. `ops` is the ordered log of mutations the host
/// must replay against the real page; `next_id` feeds fresh node and
/// registration-handle ids.
pub struct Page {
    pub ops: Vec<DomOp>,
    pub next_id: NodeId,
}

/// The mutations recorded so far, in order, in ghost form.
pub open spec fn page_log(p: Page) -> Seq<Op> {
    p.ops@.map_values(|o: DomOp| o@)
}

impl Page {
    /// An empty log. Id 0 is left to the host for its mount point.
    pub fn new() -> (r: Page)
        ensures
            page_log(r) == Seq::<Op>::empty(),
            r.ops@ == Seq::<DomOp>::empty(),
            r.next_id == 1,
    {
        let r = Page { ops: Vec::new(), next_id: 1 };
        proof {
            assert(page_log(r) =~= Seq::<Op>::empty());
        }
        r
    }

    /// Hand the recorded mutations to the host and clear the log.
    pub fn drain(&mut self) -> (r: Vec<DomOp>)
        ensures
            r@ == old(self).ops@,
            final(self).ops@ == Seq::<DomOp>::empty(),
            final(self).next_id == old(self).next_id,
            page_log(*final(self)) == Seq::<Op>::empty(),
    {
        let mut taken: Vec<DomOp> = Vec::new();
        core::mem::swap(&mut taken, &mut self.ops);
        proof {
            assert(page_log(*self) =~= Seq::<Op>::empty());
        }
        taken
    }
}

/// Record one page mutation.
pub(crate) fn emit(page: &mut Page, op: DomOp)
    ensures
        final(page).ops@ == old(page).ops@.push(op),
        final(page).next_id == old(page).next_id,
        page_log(*final(page)) == page_log(*old(page)).push(op@),
{
    let ghost g = op@;
    page.ops.push(op);
    proof {
        assert(page_log(*page) =~= page_log(*old(page)).push(g));
    }
}

/// Allocate a fresh node or registration-handle id.
pub(crate) fn alloc_id(page: &mut Page) -> (id: NodeId)
    requires
        old(page).next_id < NodeId::MAX,
    ensures
        id == old(page).next_id,
        final(page).next_id == old(page).next_id + 1,
        final(page).ops@ == old(page).ops@,
        page_log(*final(page)) == page_log(*old(page)),
{
    let id = page.next_id;
    page.next_id = page.next_id + 1;
    id
}

} // verus!
