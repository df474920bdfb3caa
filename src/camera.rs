use crate::config::CameraConfig;
use crate::dispatch::{step_post, stop_post, Dispatcher, DispatcherView, WorkerState, WorkerStep};
use crate::error::CameraError;
use crate::event::{CameraBackend, CameraEvent, EventQueue, EVENT_CAPACITY};
use crate::frame::Frame;
use crate::queue::{events_after_submit, queue_after_submit, submit_outcome, FrameMsg, SubmitOutcome};
use crate::sink::{called, Delivery, FrameSink};
use vstd::prelude::*;

verus! {

/// What every capture backend provides. A driver turns native buffers into
/// valid frames and native failures into `CameraError`.
pub trait CameraDriver: Sized {
    /// What the driver needs to reach the frame pipeline and the event
    /// channel.
    type Port;

    /// Opens the device the selector names, or a platform default.
    fn open(input_url: &str, config: CameraConfig, port: Self::Port) -> Result<Self, CameraError>;

    /// Which backend this is; no side effects.
    fn backend(&self) -> CameraBackend;

    /// Begins capture.
    fn start(&mut self) -> Result<(), CameraError>;

    /// Ends capture. It never fails, and it may be called any number of
    /// times, before `start` too.
    fn stop(&mut self) -> (r: Result<(), CameraError>)
        ensures
            r is Ok,
    ;
}

/// Operating systems the backends are built for.
#[derive(Clone, Copy, Debug, PartialEq, Eq, Structural)]
pub enum TargetOs {
    Android,
    Ios,
    Macos,
    Windows,
    Linux,
    Other,
}

/// The build's target and which backends it enables.
#[derive(Clone, Copy, Debug, PartialEq, Eq, Structural)]
pub struct BuildTarget {
    pub os: TargetOs,
    pub android: bool,
    pub avf: bool,
    pub dshow: bool,
    pub v4l2: bool,
    pub ffmpeg: bool,
}

/// The one backend a build compiles in: the first that is enabled and
/// applies to the target, in the order Android, AVFoundation, DirectShow,
/// V4L2, FFmpeg.
pub open spec fn selected_backend(t: BuildTarget) -> Option<CameraBackend> {
    if t.android && t.os == TargetOs::Android {
        Some(CameraBackend::Android)
    } else if t.avf && (t.os == TargetOs::Ios || t.os == TargetOs::Macos) {
        Some(CameraBackend::Avf)
    } else if t.dshow && t.os == TargetOs::Windows {
        Some(CameraBackend::Dshow)
    } else if t.v4l2 && t.os == TargetOs::Linux {
        Some(CameraBackend::V4l2)
    } else if t.ffmpeg && (t.os == TargetOs::Macos || t.os == TargetOs::Linux || t.os
        == TargetOs::Windows) {
        Some(CameraBackend::Ffmpeg)
    } else {
        None
    }
}

pub fn select_backend(target: &BuildTarget) -> (r: Option<CameraBackend>)
    ensures
        r == selected_backend(*target),
{
    let os = target.os;
    if target.android && os == TargetOs::Android {
        Some(CameraBackend::Android)
    } else if target.avf && (os == TargetOs::Ios || os == TargetOs::Macos) {
        Some(CameraBackend::Avf)
    } else if target.dshow && os == TargetOs::Windows {
        Some(CameraBackend::Dshow)
    } else if target.v4l2 && os == TargetOs::Linux {
        Some(CameraBackend::V4l2)
    } else if target.ffmpeg && (os == TargetOs::Macos || os == TargetOs::Linux || os
        == TargetOs::Windows) {
        Some(CameraBackend::Ffmpeg)
    } else {
        None
    }
}

/// A camera's pipeline and event channel seen as plain values.
pub struct CameraView {
    pub dispatcher: DispatcherView,
    pub events: Seq<CameraEvent>,
    pub event_capacity: nat,
}

/// One driver bound to one dispatcher, with the receiving side of the event
/// channel.
pub struct Camera<D, S> {
    driver: D,
    dispatcher: Dispatcher<S>,
    events: EventQueue,
}

impl<D: CameraDriver, S: FrameSink> View for Camera<D, S> {
    type V = CameraView;

    closed spec fn view(&self) -> CameraView {
        CameraView {
            dispatcher: self.dispatcher@,
            events: self.events@,
            event_capacity: self.events.spec_capacity(),
        }
    }
}

impl<D: CameraDriver, S: FrameSink> Camera<D, S> {
    pub closed spec fn wf(&self) -> bool {
        &&& self.dispatcher.wf()
        &&& self.events.wf()
    }

    pub closed spec fn spec_driver(&self) -> D {
        self.driver
    }

    /// The registered sinks, in registration order.
    pub closed spec fn spec_sinks(&self) -> Seq<S> {
        self.dispatcher.spec_sinks()
    }

    /// The backend tag the camera was opened with.
    pub fn backend(&self) -> (r: CameraBackend)
        ensures
            r == self@.dispatcher.backend,
    {
        self.dispatcher.backend()
    }

    /// The driver, for backend-specific extensions.
    pub fn driver(&self) -> (r: &D)
        ensures
            *r == self.spec_driver(),
    {
        &self.driver
    }

    pub fn add_sink(&mut self, sink: S)
        requires
            old(self).wf(),
        ensures
            final(self).wf(),
            final(self)@ == (CameraView {
                dispatcher: DispatcherView {
                    sink_count: old(self)@.dispatcher.sink_count + 1,
                    ..old(self)@.dispatcher
                },
                ..old(self)@
            }),
            final(self).spec_sinks() == old(self).spec_sinks().push(sink),
            final(self).spec_driver() == old(self).spec_driver(),
    {
        self.dispatcher.add_sink(sink);
    }

    /// The receiving side of the event channel.
    pub fn events(&self) -> (r: &EventQueue)
        ensures
            r@ == self@.events,
    {
        &self.events
    }

    /// Takes the oldest event, if any; draining is optional.
    pub fn poll_event(&mut self) -> (r: Option<CameraEvent>)
        requires
            old(self).wf(),
        ensures
            final(self).spec_sinks() == old(self).spec_sinks(),
            final(self).spec_driver() == old(self).spec_driver(),
            final(self).wf(),
            final(self)@.dispatcher == old(self)@.dispatcher,
            final(self)@.event_capacity == old(self)@.event_capacity,
            old(self)@.events.len() == 0 ==> r is None && final(self)@.events == old(self)@.events,
            old(self)@.events.len() > 0 ==> r == Some(old(self)@.events[0]) && final(self)@.events
                == old(self)@.events.drop_first(),
    {
        self.events.try_recv()
    }

    /// Starts the driver and returns what it returned; the pipeline is left
    /// as it is.
    pub fn start(&mut self) -> (r: Result<(), CameraError>)
        requires
            old(self).wf(),
        ensures
            final(self).wf(),
            final(self)@ == old(self)@,
            final(self).spec_sinks() == old(self).spec_sinks(),
            exists|m: &mut D|
                *m == old(self).spec_driver() && *final(m) == final(self).spec_driver()
                    && #[trigger] call_ensures(D::start, (m,), r),
    {
        self.driver.start()
    }

    /// Stops the driver, then the dispatcher; any number of calls are safe.
    pub fn stop(&mut self) -> (r: Result<(), CameraError>)
        requires
            old(self).wf(),
        ensures
            r is Ok,
            final(self).wf(),
            final(self).spec_sinks() == old(self).spec_sinks(),
            exists|m: &mut D|
                *m == old(self).spec_driver() && *final(m) == final(self).spec_driver()
                    && #[trigger] call_ensures(D::stop, (m,), r),
            final(self)@.event_capacity == old(self)@.event_capacity,
            (final(self)@.dispatcher, final(self)@.events) == stop_post(
                old(self)@.dispatcher,
                old(self)@.events,
                old(self)@.event_capacity,
            ),
    {
        let r = self.driver.stop();
        self.dispatcher.stop(&mut self.events);
        r
    }

    /// Where the driver's frames enter the pipeline: submits without waiting.
    pub fn submit(&mut self, frame: Frame) -> (r: SubmitOutcome)
        requires
            old(self).wf(),
        ensures
            final(self).spec_sinks() == old(self).spec_sinks(),
            final(self).spec_driver() == old(self).spec_driver(),
            final(self).wf(),
            final(self)@.event_capacity == old(self)@.event_capacity,
            r == submit_outcome(old(self)@.dispatcher.queue, frame@),
            final(self)@.dispatcher == (DispatcherView {
                queue: queue_after_submit(old(self)@.dispatcher.queue, frame),
                ..old(self)@.dispatcher
            }),
            final(self)@.events == events_after_submit(
                old(self)@.events,
                old(self)@.event_capacity,
                r,
                old(self)@.dispatcher.backend,
            ),
    {
        self.dispatcher.submit(&mut self.events, frame)
    }

    /// One iteration of the dispatcher's worker.
    pub fn step(&mut self) -> (r: WorkerStep)
        requires
            old(self).wf(),
        ensures
            final(self).spec_sinks() == old(self).spec_sinks(),
            final(self).spec_driver() == old(self).spec_driver(),
            r == WorkerStep::Delivered ==> forall|i: int|
                0 <= i < old(self)@.dispatcher.sink_count ==> called(
                    #[trigger] old(self).spec_sinks()[i],
                    old(self)@.dispatcher.queue.items[0]->Frame_0@,
                ),
            final(self).wf(),
            final(self)@.event_capacity == old(self)@.event_capacity,
            (final(self)@.dispatcher, final(self)@.events, r) == step_post(
                old(self)@.dispatcher,
                old(self)@.events,
                old(self)@.event_capacity,
            ),
    {
        self.dispatcher.step(&mut self.events)
    }
}

/// Opens a camera on the backend the build selects. With no backend
/// selected it fails with `NoDriver` and creates nothing. Otherwise it
/// creates the event channel and a running dispatcher sized by the
/// configuration, then opens the driver; if that fails, the dispatcher is
/// stopped again and the driver's error is returned.
pub fn open_camera<D: CameraDriver, S: FrameSink>(
    input_url: &str,
    config: CameraConfig,
    target: &BuildTarget,
    port: D::Port,
) -> (r: Result<Camera<D, S>, CameraError>)
    ensures
        selected_backend(*target) is None ==> r matches Err(CameraError::NoDriver),
        selected_backend(*target) is Some ==> (r matches Err(e) ==> call_ensures(
            D::open,
            (input_url, config, port),
            Err::<D, CameraError>(e),
        )),
        r matches Ok(c) ==> call_ensures(
            D::open,
            (input_url, config, port),
            Ok::<D, CameraError>(c.spec_driver()),
        ),
        r matches Ok(c) ==> {
            &&& selected_backend(*target) == Some(c@.dispatcher.backend)
            &&& c.wf()
            &&& c@.dispatcher.worker == WorkerState::Running
            &&& !c@.dispatcher.stop_requested
            &&& c@.dispatcher.queue.items == Seq::<FrameMsg>::empty()
            &&& c@.dispatcher.queue.capacity == if config.buffer_frames == 0 {
                1
            } else {
                config.buffer_frames
            }
            &&& c@.dispatcher.sink_count == 0
            &&& c.spec_sinks() == Seq::<S>::empty()
            &&& c@.dispatcher.delivered == Seq::<Delivery>::empty()
            &&& c@.event_capacity == EVENT_CAPACITY
            &&& c@.events == seq![CameraEvent::Started { backend: c@.dispatcher.backend }]
        },
{
    let backend = match select_backend(target) {
        None => return Err(CameraError::NoDriver),
        Some(b) => b,
    };
    let mut events = EventQueue::new(EVENT_CAPACITY);
    let capacity = config.buffer_frames;
    let mut dispatcher: Dispatcher<S> = Dispatcher::new(capacity, backend, &mut events);
    match D::open(input_url, config, port) {
        Ok(driver) => Ok(Camera { driver, dispatcher, events }),
        Err(e) => {
            dispatcher.stop(&mut events);
            Err(e)
        },
    }
}

/// The DirectShow backend: it opens, but capture is not available.
#[derive(Debug)]
pub struct DshowCameraDriver {
    /// The configuration it was opened with.
    pub config: CameraConfig,
}

impl CameraDriver for DshowCameraDriver {
    type Port = ();

    fn open(input_url: &str, config: CameraConfig, port: ()) -> (r: Result<Self, CameraError>)
        ensures
            r is Ok,
    {
        Ok(DshowCameraDriver { config })
    }

    fn backend(&self) -> (r: CameraBackend)
        ensures
            r == CameraBackend::Dshow,
    {
        CameraBackend::Dshow
    }

    fn start(&mut self) -> (r: Result<(), CameraError>)
        ensures
            r matches Err(CameraError::Unsupported(_)),
    {
        Err(CameraError::unsupported("directshow backend not implemented"))
    }

    fn stop(&mut self) -> (r: Result<(), CameraError>) {
        Ok(())
    }
}

/// The V4L2 backend: it opens, but capture is not available.
#[derive(Debug)]
pub struct V4l2CameraDriver {
    /// The configuration it was opened with.
    pub config: CameraConfig,
}

impl CameraDriver for V4l2CameraDriver {
    type Port = ();

    fn open(input_url: &str, config: CameraConfig, port: ()) -> (r: Result<Self, CameraError>)
        ensures
            r is Ok,
    {
        Ok(V4l2CameraDriver { config })
    }

    fn backend(&self) -> (r: CameraBackend)
        ensures
            r == CameraBackend::V4l2,
    {
        CameraBackend::V4l2
    }

    fn start(&mut self) -> (r: Result<(), CameraError>)
        ensures
            r matches Err(CameraError::Unsupported(_)),
    {
        Err(CameraError::unsupported("v4l2 backend not implemented"))
    }

    fn stop(&mut self) -> (r: Result<(), CameraError>) {
        Ok(())
    }
}

} // verus!
