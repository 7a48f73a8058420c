use vstd::prelude::*;
use crate::LifecycleError;
use crate::NodeId;
use crate::page::{Page, DomOp, Op, page_log, emit, alloc_id};

verus! {

/// One declared event binding: a symbolic event-type name and, while attached,
/// the registration handle the host gave back. The callback itself is opaque
/// and stays with the host, keyed by the handle.
#[derive(Debug)]
pub struct DOMEventListener {
    pub event_type: String,
    pub handle: Option<u64>,
}

pub open spec fn all_attached(evs: Seq<DOMEventListener>) -> bool {
    forall|i: int| 0 <= i < evs.len() ==> evs[i].handle is Some
}

pub open spec fn all_unattached(evs: Seq<DOMEventListener>) -> bool {
    forall|i: int| 0 <= i < evs.len() ==> evs[i].handle is None
}

/// The mutations that detaching every listener of `evs`, first to last, puts
/// on the log.
pub open spec fn events_detach_ops(evs: Seq<DOMEventListener>) -> Seq<Op>
    decreases evs.len(),
{
    if evs.len() == 0 {
        Seq::<Op>::empty()
    } else {
        seq![Op::DetachListener { handle: evs[0].handle->0 as int }] + events_detach_ops(
            evs.drop_first(),
        )
    }
}

/// The mutations that attaching every listener of `evs` to node `id`, first to
/// last, puts on the log, handles drawn from `base` upward.
pub open spec fn events_attach_ops(evs: Seq<DOMEventListener>, id: int, base: int) -> Seq<Op>
    decreases evs.len(),
{
    if evs.len() == 0 {
        Seq::<Op>::empty()
    } else {
        seq![Op::AttachListener { id, event_type: evs[0].event_type@, handle: base }]
            + events_attach_ops(evs.drop_first(), id, base + 1)
    }
}

/// An event patch always detaches the whole previous list, then attaches the
/// whole new list, listener content notwithstanding: opaque callbacks carry no
/// comparable identity.
pub open spec fn events_patch_ops(
    new: Seq<DOMEventListener>,
    prev: Seq<DOMEventListener>,
    id: int,
    base: int,
) -> Seq<Op> {
    events_detach_ops(prev) + events_attach_ops(new, id, base)
}

/// `res` is `new` with handles `base`, `base + 1`, ... filled in, in order.
pub open spec fn events_attached_as(
    res: Seq<DOMEventListener>,
    new: Seq<DOMEventListener>,
    base: int,
) -> bool {
    &&& res.len() == new.len()
    &&& forall|i: int|
        0 <= i < new.len() ==> res[i].event_type@ == new[i].event_type@ && res[i].handle == Some(
            (base + i) as u64,
        )
}

impl DOMEventListener {
    /// A fresh, unattached binding for the given symbolic event type.
    pub fn new(event_type: String) -> (r: DOMEventListener)
        ensures
            r.event_type@ == event_type@,
            r.handle is None,
    {
        DOMEventListener { event_type, handle: None }
    }

    pub fn event_type(&self) -> (r: &String)
        ensures
            r@ == self.event_type@,
    {
        &self.event_type
    }

    fn do_attach(&mut self, page: &mut Page, parent: NodeId)
        requires
            old(self).handle is None,
            old(page).next_id < NodeId::MAX,
        ensures
            final(self).event_type@ == old(self).event_type@,
            final(self).handle == Some(old(page).next_id),
            final(page).next_id == old(page).next_id + 1,
            page_log(*final(page)) == page_log(*old(page)).push(
                Op::AttachListener {
                    id: parent as int,
                    event_type: old(self).event_type@,
                    handle: old(page).next_id as int,
                },
            ),
    {
        let h = alloc_id(page);
        emit(
            page,
            DomOp::AttachListener { id: parent, event_type: self.event_type.clone(), handle: h },
        );
        self.handle = Some(h);
    }

    fn do_detach(&mut self, page: &mut Page)
        requires
            old(self).handle is Some,
        ensures
            final(self).event_type@ == old(self).event_type@,
            final(self).handle is None,
            final(page).next_id == old(page).next_id,
            page_log(*final(page)) == page_log(*old(page)).push(
                Op::DetachListener { handle: old(self).handle->0 as int },
            ),
    {
        let h: u64 = match self.handle {
            Some(h) => h,
            None => 0,
        };
        emit(page, DomOp::DetachListener { handle: h });
        self.handle = None;
    }

    /// Register the listener against `parent` and store the handle the host
    /// gives back. Double-attach is a fatal lifecycle fault: the call errs and
    /// the page is untouched.
    pub fn attach(&mut self, page: &mut Page, parent: NodeId) -> (r: Result<(), LifecycleError>)
        requires
            old(page).next_id < NodeId::MAX,
        ensures
            old(self).handle is Some ==> (r matches Err(e) && e is AlreadyAttached)
                && *final(self) == *old(self) && *final(page) == *old(page),
            old(self).handle is None ==> r is Ok && final(self).event_type@ == old(
                self,
            ).event_type@ && final(self).handle == Some(old(page).next_id) && final(page).next_id
                == old(page).next_id + 1 && page_log(*final(page)) == page_log(*old(page)).push(
                Op::AttachListener {
                    id: parent as int,
                    event_type: old(self).event_type@,
                    handle: old(page).next_id as int,
                },
            ),
    {
        if self.handle.is_some() {
            Err(LifecycleError::AlreadyAttached)
        } else {
            self.do_attach(page, parent);
            Ok(())
        }
    }

    /// Remove the registration through the stored handle and clear it.
    /// Detach-without-attach is a fatal lifecycle fault: the call errs and the
    /// page is untouched.
    pub fn detach(&mut self, page: &mut Page) -> (r: Result<(), LifecycleError>)
        ensures
            old(self).handle is None ==> (r matches Err(e) && e is NotAttached) && *final(self)
                == *old(self) && *final(page) == *old(page),
            old(self).handle is Some ==> r is Ok && final(self).event_type@ == old(
                self,
            ).event_type@ && final(self).handle is None && final(page).next_id == old(page).next_id
                && page_log(*final(page)) == page_log(*old(page)).push(
                Op::DetachListener { handle: old(self).handle->0 as int },
            ),
    {
        if self.handle.is_none() {
            Err(LifecycleError::NotAttached)
        } else {
            self.do_detach(page);
            Ok(())
        }
    }
}

impl PartialEq for DOMEventListener {
    /// Equality between any two listeners is defined to always hold: the
    /// registered callbacks are opaque and carry no comparable identity. This
    /// deliberate simplification is what forces an event patch to detach and
    /// reattach unconditionally.
    fn eq(&self, _other: &DOMEventListener) -> (r: bool) {
        true
    }
}

impl vstd::std_specs::cmp::PartialEqSpecImpl for DOMEventListener {
    open spec fn obeys_eq_spec() -> bool {
        true
    }

    open spec fn eq_spec(&self, _other: &DOMEventListener) -> bool {
        true
    }
}

/// The ordered event bindings of one element.
pub struct Events(pub Vec<DOMEventListener>);

impl Events {
    pub fn new() -> (r: Events)
        ensures
            r.0@ == Seq::<DOMEventListener>::empty(),
    {
        Events(Vec::new())
    }

    /// Detach every listener, first to last.
    pub fn remove(self, page: &mut Page)
        requires
            all_attached(self.0@),
        ensures
            final(page).next_id == old(page).next_id,
            page_log(*final(page)) == page_log(*old(page)) + events_detach_ops(self.0@),
    {
        let ghost evs = self.0@;
        let ghost log0 = page_log(*page);
        let n = self.0.len();
        let mut i: usize = 0;
        proof {
            assert(evs.skip(0) =~= evs);
        }
        while i < n
            invariant
                i <= n,
                n == evs.len(),
                self.0@ == evs,
                all_attached(evs),
                page.next_id == old(page).next_id,
                page_log(*page) + events_detach_ops(evs.skip(i as int)) == log0
                    + events_detach_ops(evs),
            decreases n - i,
        {
            let ghost pre = page_log(*page);
            let l = &self.0[i];
            let h: u64 = match l.handle {
                Some(h) => h,
                None => 0,
            };
            emit(page, DomOp::DetachListener { handle: h });
            proof {
                let rest = evs.skip(i as int);
                assert(rest[0] == evs[i as int]);
                assert(rest.drop_first() =~= evs.skip(i as int + 1));
                assert(events_detach_ops(rest) == seq![
                    Op::DetachListener { handle: evs[i as int].handle->0 as int },
                ] + events_detach_ops(evs.skip(i as int + 1)));
                assert(page_log(*page) + events_detach_ops(evs.skip(i as int + 1)) =~= pre
                    + events_detach_ops(rest));
            }
            i = i + 1;
        }
        proof {
            assert(evs.skip(n as int) =~= Seq::<DOMEventListener>::empty());
            assert(page_log(*page) + events_detach_ops(evs.skip(n as int)) =~= page_log(*page));
        }
    }

    /// Detach every previous listener, then attach every new one in declared
    /// order, whether or not the two lists look alike: opaque callbacks cannot
    /// be compared, so an event patch always rebinds.
    pub fn patch(self, page: &mut Page, id: NodeId, prev: Option<Events>) -> (res: Events)
        requires
            all_unattached(self.0@),
            (prev matches Some(o) ==> all_attached(o.0@)),
            old(page).next_id + self.0@.len() <= NodeId::MAX,
        ensures
            final(page).next_id == old(page).next_id + self.0@.len(),
            page_log(*final(page)) == page_log(*old(page)) + events_patch_ops(
                self.0@,
                events_of(prev),
                id as int,
                old(page).next_id as int,
            ),
            events_attached_as(res.0@, self.0@, old(page).next_id as int),
    {
        let ghost prevseq = events_of(prev);
        match prev {
            Some(o) => o.remove(page),
            None => {
                proof {
                    assert(page_log(*page) + events_detach_ops(prevseq) =~= page_log(*page));
                }
            },
        }
        let ghost log1 = page_log(*page);
        let ghost base = page.next_id as int;
        let ghost evs = self.0@;
        let n = self.0.len();
        let mut out: Vec<DOMEventListener> = Vec::new();
        let mut i: usize = 0;
        proof {
            assert(evs.skip(0) =~= evs);
            assert(evs.take(0) =~= Seq::<DOMEventListener>::empty());
        }
        while i < n
            invariant
                i <= n,
                n == evs.len(),
                self.0@ == evs,
                page.next_id as int == base + i,
                base + n <= NodeId::MAX,
                page_log(*page) + events_attach_ops(evs.skip(i as int), id as int, base + i)
                    == log1 + events_attach_ops(evs, id as int, base),
                events_attached_as(out@, evs.take(i as int), base),
            decreases n - i,
        {
            let ghost pre = page_log(*page);
            let h = alloc_id(page);
            let et = self.0[i].event_type.clone();
            emit(page, DomOp::AttachListener { id, event_type: et, handle: h });
            let et2 = self.0[i].event_type.clone();
            out.push(DOMEventListener { event_type: et2, handle: Some(h) });
            proof {
                let rest = evs.skip(i as int);
                assert(rest[0] == evs[i as int]);
                assert(rest.drop_first() =~= evs.skip(i as int + 1));
                assert(events_attach_ops(rest, id as int, base + i) == seq![
                    Op::AttachListener {
                        id: id as int,
                        event_type: evs[i as int].event_type@,
                        handle: base + i,
                    },
                ] + events_attach_ops(evs.skip(i as int + 1), id as int, base + i + 1));
                assert(page_log(*page) + events_attach_ops(
                    evs.skip(i as int + 1),
                    id as int,
                    base + i + 1,
                ) =~= pre + events_attach_ops(rest, id as int, base + i));
                assert(evs.take(i as int + 1).drop_last() =~= evs.take(i as int));
            }
            i = i + 1;
        }
        proof {
            assert(evs.skip(n as int) =~= Seq::<DOMEventListener>::empty());
            assert(page_log(*page) + events_attach_ops(
                evs.skip(n as int),
                id as int,
                base + n,
            ) =~= page_log(*page));
            assert(evs.take(n as int) =~= evs);
            assert(page_log(*page) =~= page_log(*old(page)) + events_patch_ops(
                evs,
                prevseq,
                id as int,
                base,
            ));
        }
        Events(out)
    }
}

/// The listener list behind an optional `Events`.
pub open spec fn events_of(e: Option<Events>) -> Seq<DOMEventListener> {
    match e {
        Some(o) => o.0@,
        None => Seq::<DOMEventListener>::empty(),
    }
}

/// The shared render-request state: many producers raise one coalesced
/// pending-render flag that a single consumer drains. `wakes` counts the
/// wake-bridge invocations the host owes its scheduler, one per `send`.
pub struct RenderRequest {
    pub pending: bool,
    pub wakes: u64,
}

/// The state after one `send`.
pub open spec fn sent(s: RenderRequest) -> RenderRequest {
    RenderRequest {
        pending: true,
        wakes: if s.wakes < u64::MAX { (s.wakes + 1) as u64 } else { s.wakes },
    }
}

/// The state after one `receive`.
pub open spec fn received(s: RenderRequest) -> RenderRequest {
    RenderRequest { pending: false, wakes: s.wakes }
}

impl RenderRequest {
    /// No render pending, no wake owed.
    pub fn new() -> (r: RenderRequest)
        ensures
            !r.pending,
            r.wakes == 0,
    {
        RenderRequest { pending: false, wakes: 0 }
    }

    /// Enqueue one render signal. Signals coalesce: however many are queued,
    /// the one pending flag is raised. Each send owes the host one synchronous
    /// wake-bridge invocation.
    pub fn send(&mut self)
        ensures
            *final(self) == sent(*old(self)),
    {
        self.pending = true;
        self.wakes = self.wakes.saturating_add(1);
    }

    /// Drain everything queued: report whether at least one signal was
    /// pending, and leave none pending.
    pub fn receive(&mut self) -> (r: bool)
        ensures
            r == old(self).pending,
            *final(self) == received(*old(self)),
    {
        let r = self.pending;
        self.pending = false;
        r
    }
}

} // verus!
