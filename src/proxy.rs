//! The request/response façade in front of one worker: requests queue up,
//! go out one at a time, and responses are handed back in the order the
//! requests were submitted.
use vstd::prelude::*;

use crate::error::GError;
use crate::registry::{SlotEvent, WorkerSlot};

verus! {

/// One worker's queues and connection state. Every request gets a ticket,
/// numbered from zero in the order of submission; the worker answers one
/// request at a time, so the `k`-th response taken out carries ticket `k`.
pub struct WorkerProxy<Req, Resp> {
    slot: WorkerSlot,
    requests: Vec<Req>,
    responses: Vec<Resp>,
    submitted: u64,
    taken: u64,
    log: Ghost<Seq<Req>>,
}

impl<Req, Resp> WorkerProxy<Req, Resp> {
    pub closed spec fn slot_state(&self) -> WorkerSlot {
        self.slot
    }

    /// Requests submitted and not yet sent, oldest first.
    pub closed spec fn queued(&self) -> Seq<Req> {
        self.requests@
    }

    /// Responses received and not yet taken, oldest first.
    pub closed spec fn answered(&self) -> Seq<Resp> {
        self.responses@
    }

    /// Tickets handed out so far.
    pub closed spec fn submitted(&self) -> nat {
        self.submitted as nat
    }

    /// Every request that holds a ticket, indexed by ticket.
    pub closed spec fn requests_log(&self) -> Seq<Req> {
        self.log@
    }

    /// Responses taken out so far.
    pub closed spec fn taken(&self) -> nat {
        self.taken as nat
    }

    /// Whether a request is with the worker and its response is awaited.
    pub open spec fn in_flight(&self) -> bool {
        self.slot_state() == WorkerSlot::Busy
    }

    /// Every ticket not yet taken is answered, in flight or queued, in
    /// ticket order.
    pub open spec fn wf(&self) -> bool {
        &&& self.submitted() == self.taken() + self.answered().len() + (if self.in_flight() {
            1nat
        } else {
            0nat
        }) + self.queued().len()
        &&& self.requests_log().len() == self.submitted()
        &&& self.queued() == self.requests_log().subrange(
            self.next_queued_ticket() as int,
            self.submitted() as int,
        )
    }

    /// The ticket of the request that the worker is answering.
    pub open spec fn in_flight_ticket(&self) -> nat {
        self.taken() + self.answered().len()
    }

    /// The ticket of the oldest queued request.
    pub open spec fn next_queued_ticket(&self) -> nat {
        self.taken() + self.answered().len() + (if self.in_flight() {
            1nat
        } else {
            0nat
        })
    }

    /// A proxy for a worker that has not connected yet.
    pub fn new() -> (r: Self)
        ensures
            r.wf(),
            r.slot_state() == WorkerSlot::Disconnected,
            r.queued() == Seq::<Req>::empty(),
            r.answered() == Seq::<Resp>::empty(),
            r.submitted() == 0,
            r.taken() == 0,
            r.requests_log() == Seq::<Req>::empty(),
    {
        let r = WorkerProxy {
            slot: WorkerSlot::Disconnected,
            requests: Vec::new(),
            responses: Vec::new(),
            submitted: 0,
            taken: 0,
            log: Ghost(Seq::empty()),
        };
        assert(r.requests@ =~= r.log@.subrange(0, 0));
        r
    }

    /// The connection state.
    pub fn slot(&self) -> (r: WorkerSlot)
        ensures
            r == self.slot_state(),
    {
        self.slot
    }

    /// How many tickets were handed out.
    pub fn tickets_issued(&self) -> (r: u64)
        ensures
            r == self.submitted(),
    {
        self.submitted
    }

    /// A connection was accepted: the handshake starts.
    pub fn connect(&mut self) -> (r: Result<(), GError>)
        requires
            old(self).wf(),
        ensures
            final(self).wf(),
            final(self).requests_log() == old(self).requests_log(),
            final(self).queued() == old(self).queued(),
            final(self).answered() == old(self).answered(),
            final(self).submitted() == old(self).submitted(),
            final(self).taken() == old(self).taken(),
            old(self).slot_state() == WorkerSlot::Disconnected ==> r == Ok::<(), GError>(())
                && final(self).slot_state() == WorkerSlot::Handshaking,
            old(self).slot_state() != WorkerSlot::Disconnected ==> r == Err::<(), GError>(
                GError::CommError,
            ) && final(self).slot_state() == old(self).slot_state(),
    {
        match self.slot.step(SlotEvent::Connected) {
            Ok(s) => {
                self.slot = s;
                Ok(())
            },
            Err(e) => Err(e),
        }
    }

    /// The calibration dimensions were sent: requests may go out.
    pub fn handshake_done(&mut self) -> (r: Result<(), GError>)
        requires
            old(self).wf(),
        ensures
            final(self).wf(),
            final(self).requests_log() == old(self).requests_log(),
            final(self).queued() == old(self).queued(),
            final(self).answered() == old(self).answered(),
            final(self).submitted() == old(self).submitted(),
            final(self).taken() == old(self).taken(),
            old(self).slot_state() == WorkerSlot::Handshaking ==> r == Ok::<(), GError>(())
                && final(self).slot_state() == WorkerSlot::Ready,
            old(self).slot_state() != WorkerSlot::Handshaking ==> r == Err::<(), GError>(
                GError::CommError,
            ) && final(self).slot_state() == old(self).slot_state(),
    {
        match self.slot.step(SlotEvent::HandshakeSent) {
            Ok(s) => {
                self.slot = s;
                Ok(())
            },
            Err(e) => Err(e),
        }
    }

    /// Queues `req` and returns its ticket. Fails, queueing nothing, where the
    /// worker is disconnected: its queue is torn down.
    pub fn submit(&mut self, req: Req) -> (r: Result<u64, GError>)
        requires
            old(self).wf(),
            old(self).submitted() < u64::MAX,
        ensures
            final(self).wf(),
            old(self).slot_state() == WorkerSlot::Disconnected ==> final(self).requests_log()
                == old(self).requests_log(),
            old(self).slot_state() != WorkerSlot::Disconnected ==> final(self).requests_log()
                == old(self).requests_log().push(req),
            final(self).slot_state() == old(self).slot_state(),
            final(self).answered() == old(self).answered(),
            final(self).taken() == old(self).taken(),
            old(self).slot_state() == WorkerSlot::Disconnected ==> r == Err::<u64, GError>(
                GError::CommError,
            ) && final(self).queued() == old(self).queued() && final(self).submitted()
                == old(self).submitted(),
            old(self).slot_state() != WorkerSlot::Disconnected ==> r == Ok::<u64, GError>(
                old(self).submitted() as u64,
            ) && final(self).queued() == old(self).queued().push(req) && final(self).submitted()
                == old(self).submitted() + 1,
    {
        if self.slot == WorkerSlot::Disconnected {
            return Err(GError::CommError);
        }
        let t = self.submitted;
        self.requests.push(req);
        self.submitted = t + 1;
        self.log = Ghost(self.log@.push(req));
        assert(self.requests@ =~= self.log@.subrange(
            self.next_queued_ticket() as int,
            self.submitted() as int,
        ));
        Ok(t)
    }

    /// Hands the oldest queued request to the worker, with its ticket, where
    /// the worker is ready and something is queued; otherwise nothing changes.
    pub fn start(&mut self) -> (r: Option<(u64, Req)>)
        requires
            old(self).wf(),
        ensures
            final(self).wf(),
            final(self).requests_log() == old(self).requests_log(),
            r matches Some((t, q)) ==> t < old(self).submitted() && q == old(
                self,
            ).requests_log()[t as int],
            final(self).answered() == old(self).answered(),
            final(self).submitted() == old(self).submitted(),
            final(self).taken() == old(self).taken(),
            (old(self).slot_state() == WorkerSlot::Ready && old(self).queued().len() > 0) ==> r
                == Some((old(self).next_queued_ticket() as u64, old(self).queued()[0]))
                && final(self).queued() == old(self).queued().remove(0) && final(self).slot_state() == WorkerSlot::Busy && final(self).in_flight_ticket()
                == old(self).next_queued_ticket(),
            !(old(self).slot_state() == WorkerSlot::Ready && old(self).queued().len() > 0) ==> r
                is None && final(self).queued() == old(self).queued() && final(self).slot_state()
                == old(self).slot_state(),
    {
        if self.slot == WorkerSlot::Ready && self.requests.len() > 0 {
            let t = self.taken + self.responses.len() as u64;
            let req = self.requests.remove(0);
            self.slot = WorkerSlot::Busy;
            assert(self.requests@ =~= self.log@.subrange(
                self.next_queued_ticket() as int,
                self.submitted() as int,
            ));
            Some((t, req))
        } else {
            None
        }
    }

    /// Records the worker's response to the request in flight. Fails,
    /// changing nothing, where no request is in flight.
    pub fn complete(&mut self, resp: Resp) -> (r: Result<(), GError>)
        requires
            old(self).wf(),
        ensures
            final(self).wf(),
            final(self).requests_log() == old(self).requests_log(),
            final(self).queued() == old(self).queued(),
            final(self).submitted() == old(self).submitted(),
            final(self).taken() == old(self).taken(),
            old(self).in_flight() ==> r == Ok::<(), GError>(()) && final(self).answered()
                == old(self).answered().push(resp) && final(self).slot_state()
                == WorkerSlot::Ready,
            !old(self).in_flight() ==> r == Err::<(), GError>(GError::CommError) && final(self).answered() == old(self).answered() && final(self).slot_state() == old(self).slot_state(),
    {
        if self.slot == WorkerSlot::Busy {
            self.responses.push(resp);
            self.slot = WorkerSlot::Ready;
            assert(self.requests@ =~= self.log@.subrange(
                self.next_queued_ticket() as int,
                self.submitted() as int,
            ));
            Ok(())
        } else {
            Err(GError::CommError)
        }
    }

    /// The connection failed: the worker is disconnected, and the queued
    /// requests and the one in flight are dropped as answered by nobody.
    /// Responses already received stay to be taken.
    pub fn fail(&mut self)
        requires
            old(self).wf(),
        ensures
            final(self).slot_state() == WorkerSlot::Disconnected,
            final(self).queued() == Seq::<Req>::empty(),
            final(self).answered() == old(self).answered(),
            final(self).taken() == old(self).taken(),
            final(self).submitted() == old(self).taken() + old(self).answered().len(),
            final(self).requests_log() == old(self).requests_log().subrange(
                0,
                final(self).submitted() as int,
            ),
            final(self).wf(),
    {
        self.slot = WorkerSlot::Disconnected;
        self.requests = Vec::new();
        self.submitted = self.taken + self.responses.len() as u64;
        self.log = Ghost(self.log@.subrange(0, self.submitted as int));
        assert(self.requests@ =~= self.log@.subrange(
            self.next_queued_ticket() as int,
            self.submitted() as int,
        ));
    }

    /// The oldest response not yet taken, with its ticket; `None` where no
    /// response is waiting.
    pub fn take_result(&mut self) -> (r: Option<(u64, Resp)>)
        requires
            old(self).wf(),
        ensures
            final(self).wf(),
            final(self).requests_log() == old(self).requests_log(),
            final(self).queued() == old(self).queued(),
            final(self).slot_state() == old(self).slot_state(),
            final(self).submitted() == old(self).submitted(),
            old(self).answered().len() > 0 ==> r == Some(
                (old(self).taken() as u64, old(self).answered()[0]),
            ) && final(self).answered() == old(self).answered().remove(0) && final(self).taken()
                == old(self).taken() + 1,
            old(self).answered().len() == 0 ==> r is None && final(self).answered() == old(self).answered() && final(self).taken() == old(self).taken(),
    {
        if self.responses.len() > 0 {
            let t = self.taken;
            let resp = self.responses.remove(0);
            self.taken = t + 1;
            Some((t, resp))
        } else {
            None
        }
    }
}

/// Strict FIFO in every well-formed state: the tickets not yet taken are,
/// in this order, the answered ones, the one in flight and the queued ones,
/// and the request that goes out next is the oldest one queued.
pub proof fn lemma_fifo_order<Req, Resp>(p: &WorkerProxy<Req, Resp>)
    requires
        p.wf(),
    ensures
        p.taken() <= p.in_flight_ticket(),
        p.in_flight_ticket() <= p.next_queued_ticket(),
        p.next_queued_ticket() <= p.submitted(),
        p.next_queued_ticket() + p.queued().len() == p.submitted(),
        forall|k: int|
            0 <= k < p.queued().len() ==> #[trigger] p.queued()[k] == p.requests_log()[p.next_queued_ticket() + k],
{
    assert forall|k: int| 0 <= k < p.queued().len() implies #[trigger] p.queued()[k]
        == p.requests_log()[p.next_queued_ticket() + k] by {}
}

} // verus!
