use crate::error::CameraError;
use crate::event::{emitted, CameraBackend, CameraEvent, EventQueue};
use crate::frame::{Frame, FrameView};
use std::collections::VecDeque;
use vstd::prelude::*;

verus! {

/// What travels from producers to the dispatcher's worker.
#[derive(Debug)]
pub enum FrameMsg {
    Frame(Frame),
    /// Asks the worker to exit.
    Stop,
}

/// Why a non-blocking send did not go through; the message comes back.
#[derive(Debug)]
pub enum TrySendError<T> {
    /// The queue holds as many messages as its capacity.
    Full(T),
    /// The receiving side is gone.
    Disconnected(T),
}

/// What became of one submitted frame.
#[derive(Clone, Copy, Debug, PartialEq, Eq, Structural)]
pub enum SubmitOutcome {
    /// Waiting in the queue for the worker.
    Queued,
    /// Shed because the queue was full.
    Dropped,
    /// The worker is gone.
    Closed,
    /// Refused because its layout does not hold.
    Invalid,
}

/// A frame queue seen as plain values.
pub struct FrameQueueView {
    pub items: Seq<FrameMsg>,
    pub capacity: nat,
    pub disconnected: bool,
}

impl FrameQueueView {
    pub open spec fn is_full(self) -> bool {
        self.items.len() >= self.capacity
    }

    pub open spec fn with_items(self, items: Seq<FrameMsg>) -> FrameQueueView {
        FrameQueueView { items, capacity: self.capacity, disconnected: self.disconnected }
    }
}

/// A message that may stand in the queue: a stop request, or a frame whose
/// layout holds.
pub open spec fn admissible(m: FrameMsg) -> bool {
    match m {
        FrameMsg::Frame(f) => f@.valid(),
        FrameMsg::Stop => true,
    }
}

/// Bounded first-in first-out channel from producers to the worker. Sending
/// never waits: a full queue refuses the message.
pub struct FrameQueue {
    items: VecDeque<FrameMsg>,
    capacity: usize,
    disconnected: bool,
}

impl View for FrameQueue {
    type V = FrameQueueView;

    closed spec fn view(&self) -> FrameQueueView {
        FrameQueueView {
            items: self.items@,
            capacity: self.capacity as nat,
            disconnected: self.disconnected,
        }
    }
}

impl FrameQueue {
    /// At least one slot, never more messages than slots, only admissible
    /// messages, and nothing waiting once the receiving side is gone.
    pub open spec fn wf(&self) -> bool {
        &&& self@.capacity >= 1
        &&& self@.items.len() <= self@.capacity
        &&& forall|i: int| 0 <= i < self@.items.len() ==> admissible(#[trigger] self@.items[i])
        &&& self@.disconnected ==> self@.items.len() == 0
    }

    /// An empty, connected queue with `capacity` slots (at least one).
    pub fn new(capacity: usize) -> (r: Self)
        ensures
            r.wf(),
            r@.items == Seq::<FrameMsg>::empty(),
            r@.capacity == if capacity == 0 { 1 } else { capacity },
            !r@.disconnected,
    {
        FrameQueue {
            items: VecDeque::new(),
            capacity: if capacity == 0 { 1 } else { capacity },
            disconnected: false,
        }
    }

    pub fn len(&self) -> (r: usize)
        ensures
            r == self@.items.len(),
    {
        self.items.len()
    }

    pub fn capacity(&self) -> (r: usize)
        ensures
            r == self@.capacity,
    {
        self.capacity
    }

    pub fn is_disconnected(&self) -> (r: bool)
        ensures
            r == self@.disconnected,
    {
        self.disconnected
    }

    /// Appends the message unless the queue is full or disconnected.
    pub fn try_send(&mut self, msg: FrameMsg) -> (r: Result<(), TrySendError<FrameMsg>>)
        requires
            old(self).wf(),
            admissible(msg),
        ensures
            final(self).wf(),
            old(self)@.disconnected ==> r == Err::<(), _>(TrySendError::Disconnected(msg))
                && final(self)@ == old(self)@,
            !old(self)@.disconnected && old(self)@.is_full() ==> r == Err::<(), _>(
                TrySendError::Full(msg),
            ) && final(self)@ == old(self)@,
            !old(self)@.disconnected && !old(self)@.is_full() ==> r is Ok && final(self)@
                == old(self)@.with_items(old(self)@.items.push(msg)),
    {
        if self.disconnected {
            Err(TrySendError::Disconnected(msg))
        } else if self.items.len() >= self.capacity {
            Err(TrySendError::Full(msg))
        } else {
            self.items.push_back(msg);
            Ok(())
        }
    }

    /// Takes the oldest message, if any.
    pub fn try_recv(&mut self) -> (r: Option<FrameMsg>)
        requires
            old(self).wf(),
        ensures
            final(self).wf(),
            old(self)@.items.len() == 0 ==> r is None && final(self)@ == old(self)@,
            old(self)@.items.len() > 0 ==> r == Some(old(self)@.items[0]) && final(self)@
                == old(self)@.with_items(old(self)@.items.drop_first()),
            r matches Some(m) ==> admissible(m),
    {
        let r = self.items.pop_front();
        proof {
            if old(self)@.items.len() > 0 {
                assert(admissible(old(self)@.items[0]));
            }
        }
        r
    }

    /// The receiving side goes away: waiting messages are discarded and
    /// every later send fails.
    pub fn disconnect(&mut self)
        requires
            old(self).wf(),
        ensures
            final(self).wf(),
            final(self)@ == (FrameQueueView {
                items: Seq::<FrameMsg>::empty(),
                capacity: old(self)@.capacity,
                disconnected: true,
            }),
    {
        self.items.clear();
        self.disconnected = true;
    }
}

/// What a submission of `f` into `q` comes to.
pub open spec fn submit_outcome(q: FrameQueueView, f: FrameView) -> SubmitOutcome {
    if !f.valid() {
        SubmitOutcome::Invalid
    } else if q.disconnected {
        SubmitOutcome::Closed
    } else if q.is_full() {
        SubmitOutcome::Dropped
    } else {
        SubmitOutcome::Queued
    }
}

/// The queue after a submission of `f`.
pub open spec fn queue_after_submit(q: FrameQueueView, f: Frame) -> FrameQueueView {
    if submit_outcome(q, f@) == SubmitOutcome::Queued {
        q.with_items(q.items.push(FrameMsg::Frame(f)))
    } else {
        q
    }
}

/// The event that reports an outcome: a shed or refused frame is a drop, a
/// frame sent after the worker is gone is a `Closed` error.
pub open spec fn outcome_event(o: SubmitOutcome, backend: CameraBackend) -> Option<CameraEvent> {
    match o {
        SubmitOutcome::Queued => None,
        SubmitOutcome::Dropped => Some(CameraEvent::FrameDropped { backend }),
        SubmitOutcome::Invalid => Some(CameraEvent::FrameDropped { backend }),
        SubmitOutcome::Closed => Some(CameraEvent::Error { backend, error: CameraError::Closed }),
    }
}

/// The events after reporting an outcome on a channel of the given capacity.
pub open spec fn events_after_submit(
    events: Seq<CameraEvent>,
    capacity: nat,
    o: SubmitOutcome,
    backend: CameraBackend,
) -> Seq<CameraEvent> {
    match outcome_event(o, backend) {
        None => events,
        Some(e) => emitted(events, capacity, e),
    }
}

/// Submits a frame without waiting: a frame whose layout does not hold is
/// refused, a full queue sheds the frame, a queue whose worker is gone
/// rejects it; each of these is reported on the event channel.
pub fn try_send_frame(
    queue: &mut FrameQueue,
    events: &mut EventQueue,
    backend: CameraBackend,
    frame: Frame,
) -> (r: SubmitOutcome)
    requires
        old(queue).wf(),
        old(events).wf(),
    ensures
        final(queue).wf(),
        final(events).wf(),
        final(events).spec_capacity() == old(events).spec_capacity(),
        r == submit_outcome(old(queue)@, frame@),
        final(queue)@ == queue_after_submit(old(queue)@, frame),
        final(events)@ == events_after_submit(old(events)@, old(events).spec_capacity(), r, backend),
{
    if !frame.validate() {
        let _ = events.emit(CameraEvent::FrameDropped { backend });
        return SubmitOutcome::Invalid;
    }
    match queue.try_send(FrameMsg::Frame(frame)) {
        Ok(()) => SubmitOutcome::Queued,
        Err(TrySendError::Full(_)) => {
            let _ = events.emit(CameraEvent::FrameDropped { backend });
            SubmitOutcome::Dropped
        },
        Err(TrySendError::Disconnected(_)) => {
            let _ = events.emit(CameraEvent::Error { backend, error: CameraError::Closed });
            SubmitOutcome::Closed
        },
    }
}

/// The queue and events after submitting `frames` one after another, with
/// no message taken out in between.
pub open spec fn submit_all(
    q: FrameQueueView,
    events: Seq<CameraEvent>,
    event_capacity: nat,
    backend: CameraBackend,
    frames: Seq<Frame>,
) -> (FrameQueueView, Seq<CameraEvent>)
    decreases frames.len(),
{
    if frames.len() == 0 {
        (q, events)
    } else {
        let f = frames[0];
        let o = submit_outcome(q, f@);
        submit_all(
            queue_after_submit(q, f),
            events_after_submit(events, event_capacity, o, backend),
            event_capacity,
            backend,
            frames.drop_first(),
        )
    }
}

/// `n` drop reports.
pub open spec fn drop_events(n: nat, backend: CameraBackend) -> Seq<CameraEvent> {
    Seq::new(n, |i: int| CameraEvent::FrameDropped { backend })
}

/// The queue messages that carry `frames`, in order.
pub open spec fn frame_msgs(frames: Seq<Frame>) -> Seq<FrameMsg> {
    Seq::new(frames.len(), |i: int| FrameMsg::Frame(frames[i]))
}

pub open spec fn min_nat(a: nat, b: nat) -> nat {
    if a <= b {
        a
    } else {
        b
    }
}

/// Backpressure sheds, and never more than it must: when valid frames are
/// submitted to a connected queue with no message taken out, the first ones
/// fill the free slots in order, and every frame beyond them produces exactly
/// one drop report (given room on the event channel).
pub proof fn lemma_backpressure(
    q: FrameQueueView,
    events: Seq<CameraEvent>,
    event_capacity: nat,
    backend: CameraBackend,
    frames: Seq<Frame>,
)
    requires
        q.items.len() <= q.capacity,
        !q.disconnected,
        forall|i: int| 0 <= i < frames.len() ==> (#[trigger] frames[i])@.valid(),
        events.len() + frames.len() <= event_capacity,
    ensures
        ({
            let (q2, events2) = submit_all(q, events, event_capacity, backend, frames);
            let kept = min_nat(frames.len(), (q.capacity - q.items.len()) as nat);
            &&& q2.capacity == q.capacity
            &&& !q2.disconnected
            &&& q2.items == q.items + frame_msgs(frames.take(kept as int))
            &&& events2 == events + drop_events((frames.len() - kept) as nat, backend)
        }),
    decreases frames.len(),
{
    let free = (q.capacity - q.items.len()) as nat;
    if frames.len() == 0 {
        assert(frame_msgs(frames.take(0)) =~= Seq::<FrameMsg>::empty());
        assert(drop_events(0, backend) =~= Seq::<CameraEvent>::empty());
        assert(q.items + Seq::<FrameMsg>::empty() =~= q.items);
        assert(events + Seq::<CameraEvent>::empty() =~= events);
    } else {
        let f = frames[0];
        let rest = frames.drop_first();
        assert(f@.valid());
        assert forall|i: int| 0 <= i < rest.len() implies (#[trigger] rest[i])@.valid() by {
            assert(rest[i] == frames[i + 1]);
        }
        let q1 = queue_after_submit(q, f);
        let o = submit_outcome(q, f@);
        let e1 = events_after_submit(events, event_capacity, o, backend);
        if q.items.len() < q.capacity {
            assert(o == SubmitOutcome::Queued);
            assert(e1 == events);
            lemma_backpressure(q1, e1, event_capacity, backend, rest);
            let kept = min_nat(frames.len(), free);
            assert(min_nat(rest.len(), (q1.capacity - q1.items.len()) as nat) == kept - 1);
            assert(q1.items + frame_msgs(rest.take(kept - 1)) =~= q.items + frame_msgs(
                frames.take(kept as int),
            ));
        } else {
            assert(o == SubmitOutcome::Dropped);
            assert(e1 == events.push(CameraEvent::FrameDropped { backend }));
            lemma_backpressure(q1, e1, event_capacity, backend, rest);
            assert(free == 0);
            assert(frame_msgs(rest.take(0)) =~= Seq::<FrameMsg>::empty());
            assert(frame_msgs(frames.take(0)) =~= Seq::<FrameMsg>::empty());
            assert(e1 + drop_events(rest.len(), backend) =~= events + drop_events(
                frames.len(),
                backend,
            ));
        }
    }
}

} // verus!
