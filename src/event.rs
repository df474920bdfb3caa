use crate::error::CameraError;
use std::collections::VecDeque;
use vstd::prelude::*;

verus! {

/// Which concrete backend produced a frame or an event.
#[derive(Clone, Copy, Debug, PartialEq, Eq, Structural)]
pub enum CameraBackend {
    Android,
    Avf,
    Dshow,
    V4l2,
    Ffmpeg,
}

/// Observations of the pipeline. They never steer it.
#[derive(Debug, Clone)]
pub enum CameraEvent {
    Started { backend: CameraBackend },
    Stopped { backend: CameraBackend },
    FrameDropped { backend: CameraBackend },
    Warning { backend: CameraBackend, message: String },
    Error { backend: CameraBackend, error: CameraError },
}

/// Capacity of the event channel that `open_camera` creates.
pub const EVENT_CAPACITY: usize = 128;

/// Bounded, best-effort event channel: an event that finds it full is lost,
/// and sending never waits.
pub struct EventQueue {
    events: VecDeque<CameraEvent>,
    capacity: usize,
}

impl View for EventQueue {
    type V = Seq<CameraEvent>;

    closed spec fn view(&self) -> Seq<CameraEvent> {
        self.events@
    }
}

impl EventQueue {
    pub closed spec fn spec_capacity(&self) -> nat {
        self.capacity as nat
    }

    pub closed spec fn wf(&self) -> bool {
        &&& self.capacity >= 1
        &&& self.events@.len() <= self.capacity
    }

    pub open spec fn has_room(&self) -> bool {
        self@.len() < self.spec_capacity()
    }

    /// An empty channel that holds up to `capacity` events (at least one).
    pub fn new(capacity: usize) -> (r: Self)
        ensures
            r.wf(),
            r@ == Seq::<CameraEvent>::empty(),
            r.spec_capacity() == if capacity == 0 { 1 } else { capacity },
    {
        EventQueue { events: VecDeque::new(), capacity: if capacity == 0 { 1 } else { capacity } }
    }

    pub fn capacity(&self) -> (r: usize)
        ensures
            r == self.spec_capacity(),
    {
        self.capacity
    }

    pub fn len(&self) -> (r: usize)
        ensures
            r == self@.len(),
    {
        self.events.len()
    }

    /// Sends without waiting; the event is kept only if there is room.
    pub fn emit(&mut self, event: CameraEvent) -> (sent: bool)
        requires
            old(self).wf(),
        ensures
            final(self).wf(),
            final(self).spec_capacity() == old(self).spec_capacity(),
            sent == old(self).has_room(),
            final(self)@ == emitted(old(self)@, old(self).spec_capacity(), event),
    {
        if self.events.len() < self.capacity {
            self.events.push_back(event);
            true
        } else {
            false
        }
    }

    /// Takes the oldest event, if any.
    pub fn try_recv(&mut self) -> (r: Option<CameraEvent>)
        requires
            old(self).wf(),
        ensures
            final(self).wf(),
            final(self).spec_capacity() == old(self).spec_capacity(),
            old(self)@.len() == 0 ==> r is None && final(self)@ == old(self)@,
            old(self)@.len() > 0 ==> r == Some(old(self)@[0]) && final(self)@ == old(self)@.drop_first(),
    {
        self.events.pop_front()
    }
}

/// The events after a best-effort send into a channel of the given capacity.
pub open spec fn emitted(events: Seq<CameraEvent>, capacity: nat, event: CameraEvent) -> Seq<
    CameraEvent,
> {
    if events.len() < capacity {
        events.push(event)
    } else {
        events
    }
}

/// Reports a frame lost to backpressure.
pub fn report_drop(events: &mut EventQueue, backend: CameraBackend)
    requires
        old(events).wf(),
    ensures
        final(events).wf(),
        final(events).spec_capacity() == old(events).spec_capacity(),
        final(events)@ == emitted(
            old(events)@,
            old(events).spec_capacity(),
            CameraEvent::FrameDropped { backend },
        ),
{
    let _ = events.emit(CameraEvent::FrameDropped { backend });
}

} // verus!
