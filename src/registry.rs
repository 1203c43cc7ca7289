//! Connection state of each worker role, and the startup condition that
//! holds the fusion loop back until every role it needs has finished its
//! handshake.
use vstd::prelude::*;

use crate::error::GError;
use crate::process::{role_at, role_index, Process, PROCESS_COUNT};

verus! {

/// Connection state of one worker.
#[derive(Debug, Clone, Copy, PartialEq, Eq, Structural)]
pub enum WorkerSlot {
    Disconnected,
    Handshaking,
    Ready,
    Busy,
}

/// What happened on a worker's connection.
#[derive(Debug, Clone, Copy, PartialEq, Eq, Structural)]
pub enum SlotEvent {
    /// A connection for the role was accepted.
    Connected,
    /// The calibration dimensions were sent.
    HandshakeSent,
    /// A request went out.
    RequestSent,
    /// Its response came back.
    ResponseReceived,
    /// The connection failed.
    IoFailed,
}

/// The state after `e`, or `None` where `e` cannot happen in state `s`.
pub open spec fn slot_step(s: WorkerSlot, e: SlotEvent) -> Option<WorkerSlot> {
    match (s, e) {
        (WorkerSlot::Disconnected, SlotEvent::Connected) => Some(WorkerSlot::Handshaking),
        (WorkerSlot::Handshaking, SlotEvent::HandshakeSent) => Some(WorkerSlot::Ready),
        (WorkerSlot::Ready, SlotEvent::RequestSent) => Some(WorkerSlot::Busy),
        (WorkerSlot::Busy, SlotEvent::ResponseReceived) => Some(WorkerSlot::Ready),
        (_, SlotEvent::IoFailed) => Some(WorkerSlot::Disconnected),
        _ => None,
    }
}

/// A worker that finished its handshake and has not failed since.
pub open spec fn is_live(s: WorkerSlot) -> bool {
    s == WorkerSlot::Ready || s == WorkerSlot::Busy
}

impl WorkerSlot {
    /// Whether the worker finished its handshake and has not failed since.
    pub fn is_live(&self) -> (r: bool)
        ensures
            r == is_live(*self),
    {
        match self {
            WorkerSlot::Ready | WorkerSlot::Busy => true,
            _ => false,
        }
    }

    /// The state after `e`; an event that cannot happen in this state is a
    /// channel error.
    pub fn step(self, e: SlotEvent) -> (r: Result<WorkerSlot, GError>)
        ensures
            slot_step(self, e) matches Some(s) ==> r == Ok::<WorkerSlot, GError>(s),
            slot_step(self, e) is None ==> r == Err::<WorkerSlot, GError>(GError::CommError),
    {
        match (self, e) {
            (WorkerSlot::Disconnected, SlotEvent::Connected) => Ok(WorkerSlot::Handshaking),
            (WorkerSlot::Handshaking, SlotEvent::HandshakeSent) => Ok(WorkerSlot::Ready),
            (WorkerSlot::Ready, SlotEvent::RequestSent) => Ok(WorkerSlot::Busy),
            (WorkerSlot::Busy, SlotEvent::ResponseReceived) => Ok(WorkerSlot::Ready),
            (_, SlotEvent::IoFailed) => Ok(WorkerSlot::Disconnected),
            _ => Err(GError::CommError),
        }
    }
}

/// The state of every worker role.
pub struct ProcessTable {
    slots: Vec<WorkerSlot>,
}

impl ProcessTable {
    /// The slots, one per role, in the order of `role_index`.
    pub closed spec fn view(&self) -> Seq<WorkerSlot> {
        self.slots@
    }

    /// The state of role `p`.
    pub open spec fn slot_of(&self, p: Process) -> WorkerSlot {
        self@[role_index(p) as int]
    }

    /// One slot per role.
    pub open spec fn wf(&self) -> bool {
        self@.len() == PROCESS_COUNT
    }

    /// Whether every role in `roles` is live.
    pub open spec fn all_live(&self, roles: Seq<Process>) -> bool {
        forall|i: int| 0 <= i < roles.len() ==> is_live(#[trigger] self.slot_of(roles[i]))
    }

    /// A table in which no role is connected.
    pub fn new() -> (r: ProcessTable)
        ensures
            r.wf(),
            forall|p: Process| #[trigger] r.slot_of(p) == WorkerSlot::Disconnected,
    {
        let mut slots: Vec<WorkerSlot> = Vec::new();
        let mut i: usize = 0;
        while i < PROCESS_COUNT
            invariant
                i <= PROCESS_COUNT,
                slots@.len() == i,
                forall|j: int| 0 <= j < i ==> slots@[j] == WorkerSlot::Disconnected,
            decreases PROCESS_COUNT - i,
        {
            slots.push(WorkerSlot::Disconnected);
            i = i + 1;
        }
        ProcessTable { slots }
    }

    /// The state of role `p`.
    pub fn slot(&self, p: Process) -> (r: WorkerSlot)
        requires
            self.wf(),
        ensures
            r == self.slot_of(p),
    {
        self.slots[p.index()]
    }

    /// Records event `e` on role `p`. Where `e` cannot happen in the role's
    /// state the table is left as it was and a channel error comes back.
    pub fn apply(&mut self, p: Process, e: SlotEvent) -> (r: Result<WorkerSlot, GError>)
        requires
            old(self).wf(),
        ensures
            final(self).wf(),
            slot_step(old(self).slot_of(p), e) matches Some(s) ==> r == Ok::<
                WorkerSlot,
                GError,
            >(s) && final(self)@ == old(self)@.update(role_index(p) as int, s),
            slot_step(old(self).slot_of(p), e) is None ==> r == Err::<WorkerSlot, GError>(
                GError::CommError,
            ) && final(self)@ == old(self)@,
    {
        let i = p.index();
        let cur = self.slots[i];
        match cur.step(e) {
            Ok(s) => {
                self.slots.set(i, s);
                Ok(s)
            },
            Err(err) => Err(err),
        }
    }

    /// The state of role `p` where its worker is live; `ModelUninit` where it
    /// has not finished its handshake or has failed since.
    pub fn get(&self, p: Process) -> (r: Result<WorkerSlot, GError>)
        requires
            self.wf(),
        ensures
            is_live(self.slot_of(p)) ==> r == Ok::<WorkerSlot, GError>(self.slot_of(p)),
            !is_live(self.slot_of(p)) ==> r == Err::<WorkerSlot, GError>(GError::ModelUninit),
    {
        let s = self.slots[p.index()];
        if s.is_live() {
            Ok(s)
        } else {
            Err(GError::ModelUninit)
        }
    }

    /// Whether every role in `roles` is live, as needed before the first cycle.
    pub fn is_complete(&self, roles: &[Process]) -> (r: bool)
        requires
            self.wf(),
        ensures
            r == self.all_live(roles@),
    {
        let mut i: usize = 0;
        while i < roles.len()
            invariant
                self.wf(),
                i <= roles@.len(),
                self.all_live(roles@.subrange(0, i as int)),
            decreases roles@.len() - i,
        {
            if !self.slots[roles[i].index()].is_live() {
                assert(!is_live(self.slot_of(roles@[i as int])));
                return false;
            }
            assert forall|j: int| 0 <= j < i + 1 implies is_live(
                #[trigger] self.slot_of(roles@.subrange(0, i + 1)[j]),
            ) by {
                if j < i {
                    assert(roles@.subrange(0, i + 1)[j] == roles@.subrange(0, i as int)[j]);
                }
            }
            i = i + 1;
        }
        assert(roles@.subrange(0, roles@.len() as int) =~= roles@);
        true
    }

    /// The roles that are not live, in the order of `role_index`.
    pub fn missing(&self) -> (r: Vec<Process>)
        requires
            self.wf(),
        ensures
            forall|p: Process| r@.contains(p) <==> !is_live(#[trigger] self.slot_of(p)),
    {
        let mut out: Vec<Process> = Vec::new();
        let mut i: usize = 0;
        while i < PROCESS_COUNT
            invariant
                self.wf(),
                i <= PROCESS_COUNT,
                forall|p: Process|
                    out@.contains(p) <==> role_index(p) < i && !is_live(#[trigger] self.slot_of(p)),
            decreases PROCESS_COUNT - i,
        {
            let p = Process::at_index(i);
            let ghost before = out@;
            assert(self.slots@[i as int] == self.slot_of(p));
            if !self.slots[i].is_live() {
                out.push(p);
                assert(out@ == before.push(p));
            }
            proof {
                assert forall|q: Process|
                    out@.contains(q) <==> role_index(q) < i + 1 && !is_live(
                        #[trigger] self.slot_of(q),
                    ) by {
                    if role_index(q) == i {
                        assert(q == p);
                    }
                    if out@ != before {
                        assert(out@.contains(q) <==> before.contains(q) || q == p) by {
                            if q == p {
                                assert(out@[before.len() as int] == p);
                            }
                            if out@.contains(q) && q != p {
                                let k = choose|k: int| 0 <= k < out@.len() && out@[k] == q;
                                assert(before[k] == q);
                            }
                            if before.contains(q) {
                                let k = choose|k: int| 0 <= k < before.len() && before[k] == q;
                                assert(out@[k] == q);
                            }
                        }
                    }
                }
            }
            i = i + 1;
        }
        out
    }
}

} // verus!
