use crate::event::{emitted, CameraBackend, CameraEvent, EventQueue};
use crate::frame::Frame;
use crate::queue::{
    events_after_submit, queue_after_submit, submit_outcome, try_send_frame, FrameMsg, FrameQueue,
    FrameQueueView, SubmitOutcome,
};
use crate::sink::{called, deliveries, Delivery, FrameSink, SinkSet};
use vstd::prelude::*;

verus! {

/// Whether the dispatcher's worker is still taking messages.
#[derive(Clone, Copy, Debug, PartialEq, Eq, Structural)]
pub enum WorkerState {
    Running,
    /// Terminal: the worker has returned and the queue has no receiver.
    Exited,
}

/// What one iteration of the worker did.
#[derive(Clone, Copy, Debug, PartialEq, Eq, Structural)]
pub enum WorkerStep {
    /// Took a frame and handed it to every sink.
    Delivered,
    /// Found nothing to take; the worker waits and polls again.
    Idle,
    /// The worker is done.
    Exited,
}

/// What one receive of the worker came to.
#[derive(Debug)]
pub enum Received {
    /// The oldest frame, taken out of the queue.
    Frame(Frame),
    /// Nothing arrived: wait (bounded) and poll the stop flag again.
    Idle,
    /// A raised stop flag or a stop message ended the worker.
    Exited,
}

/// One receive of the worker. A raised stop flag or a stop message at the
/// head of the queue ends it: the queue is torn down and `Stopped` is
/// reported. Otherwise the oldest frame, if any, is taken out.
pub fn worker_receive(
    stop_requested: bool,
    queue: &mut FrameQueue,
    events: &mut EventQueue,
    backend: CameraBackend,
) -> (r: Received)
    requires
        old(queue).wf(),
        old(events).wf(),
        !old(queue)@.disconnected,
    ensures
        final(queue).wf(),
        final(events).wf(),
        final(events).spec_capacity() == old(events).spec_capacity(),
        ({
            let q = old(queue)@;
            let ends = stop_requested || (q.items.len() > 0 && q.items[0] is Stop);
            &&& ends ==> r is Exited && final(queue)@ == (FrameQueueView {
                items: Seq::<FrameMsg>::empty(),
                capacity: q.capacity,
                disconnected: true,
            }) && final(events)@ == emitted(
                old(events)@,
                old(events).spec_capacity(),
                CameraEvent::Stopped { backend },
            )
            &&& !ends && q.items.len() == 0 ==> r is Idle && final(queue)@ == q && final(events)@
                == old(events)@
            &&& !ends && q.items.len() > 0 ==> r == Received::Frame(q.items[0]->Frame_0)
                && final(queue)@ == q.with_items(q.items.drop_first()) && final(events)@ == old(
                events,
            )@
        }),
{
    if !stop_requested {
        match queue.try_recv() {
            None => return Received::Idle,
            Some(FrameMsg::Frame(frame)) => return Received::Frame(frame),
            Some(FrameMsg::Stop) => {},
        }
    }
    queue.disconnect();
    let _ = events.emit(CameraEvent::Stopped { backend });
    Received::Exited
}

/// A dispatcher seen as plain values.
pub struct DispatcherView {
    pub queue: FrameQueueView,
    pub sink_count: nat,
    pub stop_requested: bool,
    pub worker: WorkerState,
    pub backend: CameraBackend,
    /// Every sink call made so far, oldest first.
    pub delivered: Seq<Delivery>,
}

impl DispatcherView {
    /// The queue loses its receiver exactly when the worker exits.
    pub open spec fn consistent(self) -> bool {
        (self.worker == WorkerState::Exited) == self.queue.disconnected
    }

    /// The worker's exit: the queue is torn down.
    pub open spec fn exited(self) -> DispatcherView {
        DispatcherView {
            queue: FrameQueueView {
                items: Seq::<FrameMsg>::empty(),
                capacity: self.queue.capacity,
                disconnected: true,
            },
            worker: WorkerState::Exited,
            ..self
        }
    }
}

/// The dispatcher and events after `stop`: the stop flag is raised, a stop
/// message is offered to the queue, and a running worker exits, reporting
/// `Stopped`.
pub open spec fn stop_post(d: DispatcherView, events: Seq<CameraEvent>, event_capacity: nat) -> (
    DispatcherView,
    Seq<CameraEvent>,
) {
    let flagged = DispatcherView { stop_requested: true, ..d };
    if d.worker == WorkerState::Running {
        (
            flagged.exited(),
            emitted(events, event_capacity, CameraEvent::Stopped { backend: d.backend }),
        )
    } else if !d.queue.disconnected && !d.queue.is_full() {
        (
            DispatcherView { queue: d.queue.with_items(d.queue.items.push(FrameMsg::Stop)), ..flagged },
            events,
        )
    } else {
        (flagged, events)
    }
}

/// Stopping is idempotent, and once it returns the worker has exited: a
/// second `stop` changes nothing and reports nothing.
pub proof fn lemma_stop_idempotent(d: DispatcherView, events: Seq<CameraEvent>, event_capacity: nat)
    requires
        d.consistent(),
    ensures
        ({
            let (d1, e1) = stop_post(d, events, event_capacity);
            &&& d1.worker == WorkerState::Exited
            &&& d1.consistent()
            &&& stop_post(d1, e1, event_capacity) == (d1, e1)
        }),
{
    let (d1, e1) = stop_post(d, events, event_capacity);
    assert(d1.worker == WorkerState::Exited);
    let flagged = DispatcherView { stop_requested: true, ..d1 };
    assert(flagged == d1);
}

/// The dispatcher, events and result after one iteration of the worker.
pub open spec fn step_post(d: DispatcherView, events: Seq<CameraEvent>, event_capacity: nat) -> (
    DispatcherView,
    Seq<CameraEvent>,
    WorkerStep,
) {
    if d.worker == WorkerState::Exited {
        (d, events, WorkerStep::Exited)
    } else if d.stop_requested || (d.queue.items.len() > 0 && d.queue.items[0] is Stop) {
        (
            d.exited(),
            emitted(events, event_capacity, CameraEvent::Stopped { backend: d.backend }),
            WorkerStep::Exited,
        )
    } else if d.queue.items.len() == 0 {
        (d, events, WorkerStep::Idle)
    } else {
        let f = d.queue.items[0]->Frame_0;
        (
            DispatcherView {
                queue: d.queue.with_items(d.queue.items.drop_first()),
                delivered: d.delivered + deliveries(d.sink_count, f@),
                ..d
            },
            events,
            WorkerStep::Delivered,
        )
    }
}

/// The dispatcher and events after `n` iterations of the worker.
pub open spec fn run_steps(d: DispatcherView, events: Seq<CameraEvent>, event_capacity: nat, n: nat) -> (
    DispatcherView,
    Seq<CameraEvent>,
)
    decreases n,
{
    if n == 0 {
        (d, events)
    } else {
        let (d1, e1, _) = step_post(d, events, event_capacity);
        run_steps(d1, e1, event_capacity, (n - 1) as nat)
    }
}

/// The sink calls that handing each queued frame to `n` sinks makes, in
/// queue order.
pub open spec fn frames_delivered(n: nat, msgs: Seq<FrameMsg>) -> Seq<Delivery>
    decreases msgs.len(),
{
    if msgs.len() == 0 {
        Seq::empty()
    } else {
        deliveries(n, msgs[0]->Frame_0@) + frames_delivered(n, msgs.drop_first())
    }
}

/// Whether every queued message is a frame.
pub open spec fn all_frames(msgs: Seq<FrameMsg>) -> bool {
    forall|i: int| 0 <= i < msgs.len() ==> (#[trigger] msgs[i]) is Frame
}

proof fn lemma_frames_delivered_push(n: nat, msgs: Seq<FrameMsg>, f: Frame)
    ensures
        frames_delivered(n, msgs.push(FrameMsg::Frame(f))) == frames_delivered(n, msgs) + deliveries(
            n,
            f@,
        ),
    decreases msgs.len(),
{
    let pushed = msgs.push(FrameMsg::Frame(f));
    if msgs.len() == 0 {
        assert(pushed[0] == FrameMsg::Frame(f));
        assert(pushed.drop_first() =~= Seq::<FrameMsg>::empty());
        assert(frames_delivered(n, pushed.drop_first()) == Seq::<Delivery>::empty());
        assert(frames_delivered(n, msgs) == Seq::<Delivery>::empty());
        assert(frames_delivered(n, pushed) == deliveries(n, f@) + frames_delivered(n, pushed.drop_first()));
        assert(deliveries(n, f@) + Seq::<Delivery>::empty() =~= deliveries(n, f@));
        assert(Seq::<Delivery>::empty() + deliveries(n, f@) =~= deliveries(n, f@));
    } else {
        assert(pushed[0] == msgs[0]);
        assert(pushed.drop_first() =~= msgs.drop_first().push(FrameMsg::Frame(f)));
        lemma_frames_delivered_push(n, msgs.drop_first(), f);
        let head = deliveries(n, msgs[0]->Frame_0@);
        assert(head + (frames_delivered(n, msgs.drop_first()) + deliveries(n, f@)) =~= (head
            + frames_delivered(n, msgs.drop_first())) + deliveries(n, f@));
    }
}

/// A running worker with no stop requested takes the queued frames one per
/// iteration, handing each to every sink, and is then idle with the queue
/// empty.
proof fn lemma_drain(d: DispatcherView, events: Seq<CameraEvent>, event_capacity: nat)
    requires
        d.worker == WorkerState::Running,
        !d.stop_requested,
        all_frames(d.queue.items),
    ensures
        ({
            let (d2, e2) = run_steps(d, events, event_capacity, d.queue.items.len());
            &&& d2 == DispatcherView {
                queue: d.queue.with_items(Seq::<FrameMsg>::empty()),
                delivered: d.delivered + frames_delivered(d.sink_count, d.queue.items),
                ..d
            }
            &&& e2 == events
        }),
    decreases d.queue.items.len(),
{
    let items = d.queue.items;
    if items.len() == 0 {
        assert(d.queue.with_items(Seq::<FrameMsg>::empty()) == d.queue) by {
            assert(items =~= Seq::<FrameMsg>::empty());
        }
        assert(d.delivered + Seq::<Delivery>::empty() =~= d.delivered);
    } else {
        assert(items[0] is Frame);
        let (d1, e1, r) = step_post(d, events, event_capacity);
        let f = items[0]->Frame_0;
        assert(d1 == DispatcherView {
            queue: d.queue.with_items(items.drop_first()),
            delivered: d.delivered + deliveries(d.sink_count, f@),
            ..d
        });
        assert(all_frames(d1.queue.items)) by {
            assert forall|i: int| 0 <= i < d1.queue.items.len() implies (#[trigger] d1.queue.items[i]) is Frame by {
                assert(d1.queue.items[i] == items[i + 1]);
            }
        }
        lemma_drain(d1, e1, event_capacity);
        assert(run_steps(d, events, event_capacity, items.len()) == run_steps(
            d1,
            e1,
            event_capacity,
            (items.len() - 1) as nat,
        ));
        assert(d1.delivered + frames_delivered(d.sink_count, items.drop_first()) =~= d.delivered
            + frames_delivered(d.sink_count, items));
    }
}

/// Every frame a running dispatcher accepts reaches every sink registered
/// before it was submitted exactly once, after the frames queued ahead of
/// it, and its buffer covers all its rows: the delivery record gains one
/// entry per sink for it, in registration order, within one worker
/// iteration per queued frame. `Dispatcher::wf` holds every entry of that
/// record to an `on_frame` call that was made with a handle onto the frame.
/// A stop requested, or a stop message queued, before the frame is taken
/// discards it instead.
pub proof fn lemma_submitted_frame_reaches_every_sink(
    d: DispatcherView,
    events: Seq<CameraEvent>,
    event_capacity: nat,
    f: Frame,
)
    requires
        d.consistent(),
        !d.stop_requested,
        all_frames(d.queue.items),
        submit_outcome(d.queue, f@) == SubmitOutcome::Queued,
    ensures
        ({
            let d1 = DispatcherView { queue: queue_after_submit(d.queue, f), ..d };
            let (d2, e2) = run_steps(d1, events, event_capacity, d.queue.items.len() + 1);
            &&& d2.delivered == d.delivered + frames_delivered(d.sink_count, d.queue.items)
                + deliveries(d.sink_count, f@)
            &&& d2.queue.items.len() == 0
            &&& e2 == events
            &&& f@.data.len() >= f@.stride * f@.height
        }),
{
    assert(d.worker == WorkerState::Running);
    let d1 = DispatcherView { queue: queue_after_submit(d.queue, f), ..d };
    assert(d1.queue.items == d.queue.items.push(FrameMsg::Frame(f)));
    assert(all_frames(d1.queue.items)) by {
        assert forall|i: int| 0 <= i < d1.queue.items.len() implies (#[trigger] d1.queue.items[i]) is Frame by {
            if i < d.queue.items.len() {
                assert(d1.queue.items[i] == d.queue.items[i]);
            }
        }
    }
    lemma_drain(d1, events, event_capacity);
    lemma_frames_delivered_push(d.sink_count, d.queue.items, f);
    assert(d.delivered + (frames_delivered(d.sink_count, d.queue.items) + deliveries(d.sink_count, f@))
        =~= d.delivered + frames_delivered(d.sink_count, d.queue.items) + deliveries(d.sink_count, f@));
}

/// Fans frames from a bounded queue out to every registered sink, reports
/// lifecycle events, and coordinates shutdown. Each call of `step` is one
/// iteration of its worker.
pub struct Dispatcher<S> {
    queue: FrameQueue,
    sinks: SinkSet<S>,
    stop_requested: bool,
    worker: WorkerState,
    backend: CameraBackend,
    delivered: Ghost<Seq<Delivery>>,
}

impl<S: FrameSink> View for Dispatcher<S> {
    type V = DispatcherView;

    closed spec fn view(&self) -> DispatcherView {
        DispatcherView {
            queue: self.queue@,
            sink_count: self.sinks.spec_sinks().len(),
            stop_requested: self.stop_requested,
            worker: self.worker,
            backend: self.backend,
            delivered: self.delivered@,
        }
    }
}

impl<S: FrameSink> Dispatcher<S> {
    /// A well-formed queue, torn down exactly when the worker has exited,
    /// and a delivery record in which every entry is a call that was made.
    pub open spec fn wf(&self) -> bool {
        &&& self.queue_wf()
        &&& self@.consistent()
        &&& self.deliveries_made()
    }

    pub closed spec fn queue_wf(&self) -> bool {
        self.queue.wf()
    }

    /// The registered sinks, in registration order.
    pub closed spec fn spec_sinks(&self) -> Seq<S> {
        self.sinks.spec_sinks()
    }

    /// Each recorded delivery names a registered sink that was called with
    /// that frame.
    pub open spec fn deliveries_made(&self) -> bool {
        forall|k: int|
            0 <= k < self@.delivered.len() ==> {
                let d = #[trigger] self@.delivered[k];
                &&& d.sink < self.spec_sinks().len()
                &&& called(self.spec_sinks()[d.sink as int], d.frame)
            }
    }

    /// A running dispatcher with a queue of `capacity` slots (at least one)
    /// and no sinks; its worker reports `Started`.
    pub fn new(capacity: usize, backend: CameraBackend, events: &mut EventQueue) -> (r: Self)
        requires
            old(events).wf(),
        ensures
            r.wf(),
            r@.queue.items == Seq::<FrameMsg>::empty(),
            r@.queue.capacity == if capacity == 0 { 1 } else { capacity },
            r@.sink_count == 0,
            r.spec_sinks() == Seq::<S>::empty(),
            !r@.stop_requested,
            r@.worker == WorkerState::Running,
            r@.backend == backend,
            r@.delivered == Seq::<Delivery>::empty(),
            final(events).wf(),
            final(events).spec_capacity() == old(events).spec_capacity(),
            final(events)@ == emitted(
                old(events)@,
                old(events).spec_capacity(),
                CameraEvent::Started { backend },
            ),
    {
        let queue = FrameQueue::new(capacity);
        let _ = events.emit(CameraEvent::Started { backend });
        Dispatcher {
            queue,
            sinks: SinkSet::new(),
            stop_requested: false,
            worker: WorkerState::Running,
            backend,
            delivered: Ghost(Seq::empty()),
        }
    }

    pub fn backend(&self) -> (r: CameraBackend)
        ensures
            r == self@.backend,
    {
        self.backend
    }

    pub fn worker_state(&self) -> (r: WorkerState)
        ensures
            r == self@.worker,
    {
        self.worker
    }

    pub fn sink_count(&self) -> (r: usize)
        ensures
            r == self@.sink_count,
    {
        self.sinks.len()
    }

    pub fn queued(&self) -> (r: usize)
        ensures
            r == self@.queue.items.len(),
    {
        self.queue.len()
    }

    /// Registers a sink; it sees every frame dispatched from now on.
    pub fn add_sink(&mut self, sink: S)
        requires
            old(self).wf(),
        ensures
            final(self).wf(),
            final(self)@ == (DispatcherView { sink_count: old(self)@.sink_count + 1, ..old(self)@ }),
            final(self).spec_sinks() == old(self).spec_sinks().push(sink),
    {
        self.sinks.add(sink);
        proof {
            assert forall|k: int| 0 <= k < self@.delivered.len() implies {
                let d = #[trigger] self@.delivered[k];
                &&& d.sink < self.spec_sinks().len()
                &&& called(self.spec_sinks()[d.sink as int], d.frame)
            } by {
                let d = self@.delivered[k];
                assert(self.spec_sinks()[d.sink as int] == old(self).spec_sinks()[d.sink as int]);
            }
        }
    }

    /// Submits a frame without waiting, as `try_send_frame` does on this
    /// dispatcher's queue.
    pub fn submit(&mut self, events: &mut EventQueue, frame: Frame) -> (r: SubmitOutcome)
        requires
            old(self).wf(),
            old(events).wf(),
        ensures
            final(self).spec_sinks() == old(self).spec_sinks(),
            final(self).wf(),
            final(events).wf(),
            final(events).spec_capacity() == old(events).spec_capacity(),
            r == submit_outcome(old(self)@.queue, frame@),
            final(self)@ == (DispatcherView {
                queue: queue_after_submit(old(self)@.queue, frame),
                ..old(self)@
            }),
            final(events)@ == events_after_submit(
                old(events)@,
                old(events).spec_capacity(),
                r,
                old(self)@.backend,
            ),
    {
        let backend = self.backend;
        try_send_frame(&mut self.queue, events, backend, frame)
    }

    /// One iteration of the worker. An exited worker does nothing. A raised
    /// stop flag or a stop message ends the worker, which reports `Stopped`.
    /// Otherwise the oldest frame is taken and handed to every sink, once
    /// each, in registration order.
    pub fn step(&mut self, events: &mut EventQueue) -> (r: WorkerStep)
        requires
            old(self).wf(),
            old(events).wf(),
        ensures
            final(self).spec_sinks() == old(self).spec_sinks(),
            r == WorkerStep::Delivered ==> forall|i: int|
                0 <= i < old(self)@.sink_count ==> called(
                    #[trigger] old(self).spec_sinks()[i],
                    old(self)@.queue.items[0]->Frame_0@,
                ),
            final(self).wf(),
            final(events).wf(),
            final(events).spec_capacity() == old(events).spec_capacity(),
            (final(self)@, final(events)@, r) == step_post(
                old(self)@,
                old(events)@,
                old(events).spec_capacity(),
            ),
    {
        if self.worker == WorkerState::Exited {
            return WorkerStep::Exited;
        }
        let backend = self.backend;
        match worker_receive(self.stop_requested, &mut self.queue, events, backend) {
            Received::Idle => WorkerStep::Idle,
            Received::Exited => {
                self.worker = WorkerState::Exited;
                WorkerStep::Exited
            },
            Received::Frame(frame) => {
                let ghost before = self.delivered@;
                let log = self.sinks.deliver(&frame);
                proof {
                    self.delivered@ = self.delivered@ + log@;
                    assert forall|k: int| 0 <= k < self@.delivered.len() implies {
                        let d = #[trigger] self@.delivered[k];
                        &&& d.sink < self.spec_sinks().len()
                        &&& called(self.spec_sinks()[d.sink as int], d.frame)
                    } by {
                        if k >= before.len() {
                            assert(self@.delivered[k] == log@[k - before.len()]);
                        } else {
                            assert(self@.delivered[k] == before[k]);
                        }
                    }
                }
                WorkerStep::Delivered
            },
        }
    }

    /// Raises the stop flag, offers a stop message, and waits for the worker
    /// to exit. Calling it again does nothing.
    pub fn stop(&mut self, events: &mut EventQueue)
        requires
            old(self).wf(),
            old(events).wf(),
        ensures
            final(self).spec_sinks() == old(self).spec_sinks(),
            final(self).wf(),
            final(events).wf(),
            final(events).spec_capacity() == old(events).spec_capacity(),
            (final(self)@, final(events)@) == stop_post(
                old(self)@,
                old(events)@,
                old(events).spec_capacity(),
            ),
    {
        self.stop_requested = true;
        let _ = self.queue.try_send(FrameMsg::Stop);
        if self.worker == WorkerState::Running {
            let backend = self.backend;
            let _ = worker_receive(true, &mut self.queue, events, backend);
            self.worker = WorkerState::Exited;
        }
    }
}

} // verus!
