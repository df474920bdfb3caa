use asimov_camera::{
    open_camera, select_backend, try_send_frame, BuildTarget, Camera, CameraBackend, CameraConfig, CameraDriver,
    CameraError, CameraEvent, Dispatcher, DshowCameraDriver, EventQueue, Frame, FrameMsg,
    FrameQueue, FrameSink, PixelFormat, SinkSet, SubmitOutcome, TargetOs, TrySendError,
    V4l2CameraDriver, WorkerState, WorkerStep, EVENT_CAPACITY,
};
use bytes::Bytes;
use std::sync::{Arc, Mutex};

#[derive(Clone, Default)]
struct Recorder {
    seen: Arc<Mutex<Vec<Frame>>>,
}

impl FrameSink for Recorder {
    fn on_frame(&self, frame: Frame) {
        self.seen.lock().unwrap().push(frame);
    }
}

fn rgb_frame(width: u32, height: u32, fill: u8) -> Frame {
    let stride = width * 3;
    Frame::new_rgb8(Bytes::from(vec![fill; (stride * height) as usize]), width, height, stride)
}

fn drain(events: &mut EventQueue) -> Vec<CameraEvent> {
    let mut out = Vec::new();
    while let Some(e) = events.try_recv() {
        out.push(e);
    }
    out
}

fn count_dropped(events: &[CameraEvent]) -> usize {
    events.iter().filter(|e| matches!(e, CameraEvent::FrameDropped { .. })).count()
}

fn count_errors(events: &[CameraEvent]) -> usize {
    events.iter().filter(|e| matches!(e, CameraEvent::Error { .. })).count()
}

fn no_backend() -> BuildTarget {
    BuildTarget { os: TargetOs::Linux, android: false, avf: false, dshow: false, v4l2: false, ffmpeg: false }
}

#[test]
fn frame_validate_round_trip() {
    let f = Frame::new_rgb8(Bytes::from(vec![0u8; 24]), 4, 2, 12);
    assert!(f.validate());
    let g = Frame::new_rgb8(Bytes::from(vec![0u8; 23]), 4, 2, 12);
    assert!(!g.validate());
}

#[test]
fn frame_validate_rejects_bad_layouts() {
    assert!(!Frame::new_rgb8(Bytes::from(vec![0u8; 24]), 0, 2, 12).validate());
    assert!(!Frame::new_rgb8(Bytes::from(vec![0u8; 24]), 4, 0, 12).validate());
    assert!(!Frame::new_rgb8(Bytes::from(vec![0u8; 24]), 4, 2, 0).validate());
    assert!(!Frame::new_rgb8(Bytes::from(vec![0u8; 24]), 4, 2, 11).validate());
    assert!(!Frame::new_bgra8(Bytes::from(vec![0u8; 24]), 4, 2, 12).validate());
    assert!(Frame::new_bgra8(Bytes::from(vec![0u8; 32]), 4, 2, 16).validate());
    let padded = Frame::new(Bytes::from(vec![0u8; 40]), 4, 2, 20, PixelFormat::Rgb8);
    assert!(padded.validate());
}

#[test]
fn frame_builders_keep_fields() {
    let f = Frame::new_bgra8(Bytes::from(vec![1u8, 2, 3, 4]), 1, 1, 4).with_timestamp_ns(77);
    assert_eq!(f.pixel_format, PixelFormat::Bgra8);
    assert_eq!(f.timestamp_ns, 77);
    assert_eq!(f.width, 1);
    assert_eq!(&f.data[..], &[1u8, 2, 3, 4]);
    assert_eq!(Frame::new_rgb8(Bytes::new(), 1, 1, 3).timestamp_ns, 0);
    assert_eq!(PixelFormat::Rgb8.bytes_per_pixel(), 3);
    assert_eq!(PixelFormat::Bgra8.bytes_per_pixel(), 4);
}

#[test]
fn burst_with_no_draining_sheds_excess() {
    let config = CameraConfig::new(640, 480, 30000).with_buffer_frames(2);
    let mut events = EventQueue::new(EVENT_CAPACITY);
    let mut d: Dispatcher<Recorder> = Dispatcher::new(config.buffer_frames, CameraBackend::Ffmpeg, &mut events);
    let sink = Recorder::default();
    d.add_sink(sink.clone());
    let mut outcomes = Vec::new();
    for k in 0..5u8 {
        outcomes.push(d.submit(&mut events, rgb_frame(640, 480, k)));
    }
    assert_eq!(
        outcomes,
        vec![
            SubmitOutcome::Queued,
            SubmitOutcome::Queued,
            SubmitOutcome::Dropped,
            SubmitOutcome::Dropped,
            SubmitOutcome::Dropped
        ]
    );
    while d.step(&mut events) == WorkerStep::Delivered {}
    let seen = sink.seen.lock().unwrap();
    assert_eq!(seen.len(), 2);
    assert_eq!(seen[0].data[0], 0);
    assert_eq!(seen[1].data[0], 1);
    let evs = drain(&mut events);
    assert_eq!(count_dropped(&evs), 3);
    assert_eq!(count_errors(&evs), 0);
    assert!(matches!(evs[0], CameraEvent::Started { backend: CameraBackend::Ffmpeg }));
}

#[test]
fn two_sinks_share_one_immutable_frame() {
    let mut events = EventQueue::new(EVENT_CAPACITY);
    let mut d: Dispatcher<Recorder> = Dispatcher::new(2, CameraBackend::V4l2, &mut events);
    let a = Recorder::default();
    let b = Recorder::default();
    d.add_sink(a.clone());
    d.add_sink(b.clone());
    let data: Vec<u8> = (0..24u8).collect();
    let f = Frame::new_rgb8(Bytes::from(data.clone()), 4, 2, 12);
    assert_eq!(d.submit(&mut events, f), SubmitOutcome::Queued);
    assert_eq!(d.step(&mut events), WorkerStep::Delivered);
    let fa = a.seen.lock().unwrap()[0].clone();
    let fb = b.seen.lock().unwrap()[0].clone();
    assert_eq!((fa.width, fa.height), (fb.width, fb.height));
    assert_eq!(fa.data, fb.data);
    let mut local = fa.data.to_vec();
    local[0] = 200;
    assert_eq!(fb.data[0], 0);
    assert_eq!(&fb.data[..], &data[..]);
}

#[test]
fn every_sink_called_once_per_frame() {
    let mut events = EventQueue::new(EVENT_CAPACITY);
    let mut d: Dispatcher<Recorder> = Dispatcher::new(4, CameraBackend::Avf, &mut events);
    let sinks: Vec<Recorder> = (0..3).map(|_| Recorder::default()).collect();
    for s in &sinks {
        d.add_sink(s.clone());
    }
    assert_eq!(d.sink_count(), 3);
    assert_eq!(d.submit(&mut events, rgb_frame(2, 2, 9)), SubmitOutcome::Queued);
    assert_eq!(d.submit(&mut events, rgb_frame(2, 2, 8)), SubmitOutcome::Queued);
    assert_eq!(d.step(&mut events), WorkerStep::Delivered);
    assert_eq!(d.step(&mut events), WorkerStep::Delivered);
    assert_eq!(d.step(&mut events), WorkerStep::Idle);
    for s in &sinks {
        let seen = s.seen.lock().unwrap();
        assert_eq!(seen.len(), 2);
        assert_eq!(seen[0].data[0], 9);
        assert_eq!(seen[1].data[0], 8);
        assert!(seen.iter().all(|f| f.data.len() >= (f.stride * f.height) as usize));
    }
}

#[test]
fn invalid_frame_is_refused_and_reported() {
    let mut events = EventQueue::new(EVENT_CAPACITY);
    let mut d: Dispatcher<Recorder> = Dispatcher::new(2, CameraBackend::Ffmpeg, &mut events);
    let bad = Frame::new_rgb8(Bytes::from(vec![0u8; 23]), 4, 2, 12);
    assert_eq!(d.submit(&mut events, bad), SubmitOutcome::Invalid);
    assert_eq!(d.queued(), 0);
    let evs = drain(&mut events);
    assert_eq!(count_dropped(&evs), 1);
}

#[test]
fn stop_is_idempotent_and_closes_the_queue() {
    let mut events = EventQueue::new(EVENT_CAPACITY);
    let mut d: Dispatcher<Recorder> = Dispatcher::new(2, CameraBackend::Ffmpeg, &mut events);
    assert_eq!(d.submit(&mut events, rgb_frame(2, 2, 1)), SubmitOutcome::Queued);
    d.stop(&mut events);
    assert_eq!(d.worker_state(), WorkerState::Exited);
    d.stop(&mut events);
    d.stop(&mut events);
    assert_eq!(d.worker_state(), WorkerState::Exited);
    assert_eq!(d.step(&mut events), WorkerStep::Exited);
    assert_eq!(d.submit(&mut events, rgb_frame(2, 2, 1)), SubmitOutcome::Closed);
    let evs = drain(&mut events);
    let stopped = evs.iter().filter(|e| matches!(e, CameraEvent::Stopped { .. })).count();
    assert_eq!(stopped, 1);
    assert!(matches!(
        evs.last(),
        Some(CameraEvent::Error { backend: CameraBackend::Ffmpeg, error: CameraError::Closed })
    ));
}

#[test]
fn stop_message_ends_the_worker() {
    let mut q = FrameQueue::new(1);
    assert!(q.try_send(FrameMsg::Stop).is_ok());
    assert!(matches!(q.try_send(FrameMsg::Stop), Err(TrySendError::Full(FrameMsg::Stop))));
    assert!(matches!(q.try_recv(), Some(FrameMsg::Stop)));
    assert!(q.try_recv().is_none());
    q.disconnect();
    assert!(q.is_disconnected());
    assert!(matches!(q.try_send(FrameMsg::Stop), Err(TrySendError::Disconnected(_))));
}

#[test]
fn frame_queue_capacity_is_at_least_one() {
    assert_eq!(FrameQueue::new(0).capacity(), 1);
    assert_eq!(FrameQueue::new(3).capacity(), 3);
    assert_eq!(EventQueue::new(0).capacity(), 1);
}

#[test]
fn try_send_frame_reports_each_outcome() {
    let mut q = FrameQueue::new(1);
    let mut events = EventQueue::new(8);
    assert_eq!(try_send_frame(&mut q, &mut events, CameraBackend::Dshow, rgb_frame(1, 1, 0)), SubmitOutcome::Queued);
    assert_eq!(events.len(), 0);
    assert_eq!(try_send_frame(&mut q, &mut events, CameraBackend::Dshow, rgb_frame(1, 1, 0)), SubmitOutcome::Dropped);
    q.disconnect();
    assert_eq!(try_send_frame(&mut q, &mut events, CameraBackend::Dshow, rgb_frame(1, 1, 0)), SubmitOutcome::Closed);
    let evs = drain(&mut events);
    assert!(matches!(evs[0], CameraEvent::FrameDropped { backend: CameraBackend::Dshow }));
    assert!(matches!(evs[1], CameraEvent::Error { error: CameraError::Closed, .. }));
}

#[test]
fn report_drop_emits_one_event() {
    let mut events = EventQueue::new(4);
    asimov_camera::report_drop(&mut events, CameraBackend::Android);
    assert_eq!(events.len(), 1);
    assert!(matches!(events.try_recv(), Some(CameraEvent::FrameDropped { backend: CameraBackend::Android })));
}

#[test]
fn full_event_channel_loses_events_without_blocking() {
    let mut events = EventQueue::new(2);
    assert!(events.emit(CameraEvent::Started { backend: CameraBackend::Ffmpeg }));
    assert!(events.emit(CameraEvent::Stopped { backend: CameraBackend::Ffmpeg }));
    assert!(!events.emit(CameraEvent::FrameDropped { backend: CameraBackend::Ffmpeg }));
    assert_eq!(events.len(), 2);
    assert!(matches!(events.try_recv(), Some(CameraEvent::Started { .. })));
}

#[test]
fn open_without_backend_is_no_driver() {
    let r: Result<Camera<DshowCameraDriver, Recorder>, CameraError> =
        open_camera("", CameraConfig::default(), &no_backend(), ());
    assert!(matches!(r, Err(CameraError::NoDriver)));
}

#[test]
fn open_selects_backend_and_starts_dispatcher() {
    let target = BuildTarget { os: TargetOs::Windows, android: false, avf: false, dshow: true, v4l2: false, ffmpeg: true };
    let mut cam: Camera<DshowCameraDriver, Recorder> =
        open_camera("video=Cam", CameraConfig::default(), &target, ()).unwrap();
    assert_eq!(cam.backend(), CameraBackend::Dshow);
    assert_eq!(cam.driver().config.width, 640);
    assert!(matches!(cam.poll_event(), Some(CameraEvent::Started { backend: CameraBackend::Dshow })));
    assert!(matches!(cam.start(), Err(CameraError::Unsupported(_))));
    let sink = Recorder::default();
    cam.add_sink(sink.clone());
    assert_eq!(cam.submit(rgb_frame(2, 2, 5)), SubmitOutcome::Queued);
    assert_eq!(cam.step(), WorkerStep::Delivered);
    assert_eq!(sink.seen.lock().unwrap().len(), 1);
    assert!(cam.stop().is_ok());
    assert!(cam.stop().is_ok());
    assert_eq!(cam.events().len(), 1);
    assert!(matches!(cam.poll_event(), Some(CameraEvent::Stopped { .. })));
    assert!(cam.poll_event().is_none());
}

#[test]
fn stop_before_start_is_safe() {
    let target = BuildTarget { os: TargetOs::Linux, android: false, avf: false, dshow: false, v4l2: true, ffmpeg: false };
    let mut cam: Camera<V4l2CameraDriver, Recorder> =
        open_camera("", CameraConfig::default().with_buffer_frames(0), &target, ()).unwrap();
    assert!(cam.stop().is_ok());
    assert!(matches!(cam.start(), Err(CameraError::Unsupported(_))));
    assert!(cam.stop().is_ok());
    assert_eq!(cam.step(), WorkerStep::Exited);
}

#[test]
fn backend_selection_follows_precedence() {
    let all = |os| BuildTarget { os, android: true, avf: true, dshow: true, v4l2: true, ffmpeg: true };
    assert_eq!(select_backend(&all(TargetOs::Android)), Some(CameraBackend::Android));
    assert_eq!(select_backend(&all(TargetOs::Macos)), Some(CameraBackend::Avf));
    assert_eq!(select_backend(&all(TargetOs::Ios)), Some(CameraBackend::Avf));
    assert_eq!(select_backend(&all(TargetOs::Windows)), Some(CameraBackend::Dshow));
    assert_eq!(select_backend(&all(TargetOs::Linux)), Some(CameraBackend::V4l2));
    assert_eq!(select_backend(&all(TargetOs::Other)), None);
    let ff = BuildTarget { os: TargetOs::Macos, android: false, avf: false, dshow: false, v4l2: false, ffmpeg: true };
    assert_eq!(select_backend(&ff), Some(CameraBackend::Ffmpeg));
    assert_eq!(select_backend(&no_backend()), None);
}

#[test]
fn sink_set_delivers_to_each() {
    let mut set: SinkSet<Recorder> = SinkSet::new();
    let a = Recorder::default();
    set.add(a.clone());
    set.add(a.clone());
    assert_eq!(set.len(), 2);
    let _ = set.deliver(&rgb_frame(1, 1, 3));
    assert_eq!(a.seen.lock().unwrap().len(), 2);
}

#[test]
fn dispatcher_drivers_stop_cleanly() {
    let mut d = DshowCameraDriver::open("", CameraConfig::default(), ()).unwrap();
    assert!(d.stop().is_ok());
    assert_eq!(d.backend(), CameraBackend::Dshow);
    let mut v = V4l2CameraDriver::open("", CameraConfig::default(), ()).unwrap();
    assert!(v.stop().is_ok());
    assert_eq!(v.backend(), CameraBackend::V4l2);
}
