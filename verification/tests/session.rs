use frame_transport::codec::{encode, ParameterObject, PodProperty, PodValue, Rectangle};
use frame_transport::driver::{SessionDriver, SessionState, TerminationCause};
use frame_transport::negotiate::NegotiationError;
use frame_transport::stage::{PlaneBacking, PlaneHandle, RawPlane, StageError, TransferablePlane};
use frame_transport::transport::{DescriptorTransport, TransportError};
use frame_transport::vocab::{
    KEY_VIDEO_FORMAT, KEY_VIDEO_SIZE, OBJECT_TYPE_FORMAT, VIDEO_FORMAT_BGRA,
};

fn chosen_format_bytes() -> Vec<u8> {
    let obj = ParameterObject {
        object_type: OBJECT_TYPE_FORMAT,
        object_id: 4,
        properties: vec![
            PodProperty { key: KEY_VIDEO_FORMAT, flags: 0, value: PodValue::Id(VIDEO_FORMAT_BGRA) },
            PodProperty {
                key: KEY_VIDEO_SIZE,
                flags: 0,
                value: PodValue::Rect(Rectangle { width: 640, height: 480 }),
            },
        ],
    };
    encode(&obj)
}

fn streaming_driver() -> SessionDriver {
    let mut driver = SessionDriver::new();
    assert!(driver.on_started());
    assert!(driver.on_connected());
    let request = driver
        .on_format_selected(&chosen_format_bytes())
        .expect("a concrete supported format must be accepted");
    assert!(!request.is_empty());
    assert_eq!(driver.current_state(), SessionState::Streaming);
    driver
}

#[test]
fn session_reaches_streaming_through_the_states() {
    let mut driver = SessionDriver::new();
    assert_eq!(driver.current_state(), SessionState::Created);
    assert!(driver.on_started());
    assert_eq!(driver.current_state(), SessionState::Connecting);
    assert!(!driver.on_started());
    assert!(driver.on_connected());
    assert_eq!(driver.current_state(), SessionState::Negotiating);
    assert!(!driver.on_connected());
    driver.on_format_selected(&chosen_format_bytes()).expect("format must be accepted");
    assert_eq!(driver.current_state(), SessionState::Streaming);
    let format = driver.negotiated_format().expect("a format must be recorded");
    assert_eq!(format.width, 640);
    assert_eq!(format.height, 480);
    assert_eq!(format.pixel_format, VIDEO_FORMAT_BGRA);
    assert_eq!(format.modifier, 0);
}

#[test]
fn malformed_selection_is_dropped_and_session_continues() {
    let mut driver = SessionDriver::new();
    assert!(driver.on_started());
    assert!(driver.on_connected());
    let r = driver.on_format_selected(&vec![1, 2, 3]);
    assert_eq!(r, Err(NegotiationError::MalformedParameterObject));
    assert_eq!(driver.current_state(), SessionState::Negotiating);
    assert!(driver.transport_write_open());
}

#[test]
fn unrecognized_selection_drains_the_session() {
    let mut driver = SessionDriver::new();
    assert!(driver.on_started());
    assert!(driver.on_connected());
    let obj = ParameterObject { object_type: OBJECT_TYPE_FORMAT, object_id: 4, properties: vec![] };
    let r = driver.on_format_selected(&encode(&obj));
    assert_eq!(r, Err(NegotiationError::UnrecognizedFormat));
    assert_eq!(driver.current_state(), SessionState::Closed);
    assert!(!driver.transport_write_open());
    assert_eq!(
        driver.termination_cause(),
        Some(TerminationCause::Negotiation(NegotiationError::UnrecognizedFormat))
    );
}

#[test]
fn renegotiation_replaces_the_format_wholesale() {
    let mut driver = streaming_driver();
    let obj = ParameterObject {
        object_type: OBJECT_TYPE_FORMAT,
        object_id: 4,
        properties: vec![
            PodProperty { key: KEY_VIDEO_FORMAT, flags: 0, value: PodValue::Id(VIDEO_FORMAT_BGRA) },
            PodProperty {
                key: KEY_VIDEO_SIZE,
                flags: 0,
                value: PodValue::Rect(Rectangle { width: 800, height: 600 }),
            },
            PodProperty {
                key: frame_transport::vocab::KEY_VIDEO_MODIFIER,
                flags: 0,
                value: PodValue::Long(9),
            },
        ],
    };
    driver.on_format_selected(&encode(&obj)).expect("renegotiation must be accepted");
    assert_eq!(driver.current_state(), SessionState::Streaming);
    let format = driver.negotiated_format().expect("a format must be recorded");
    assert_eq!((format.width, format.height, format.modifier), (800, 600, 9));
}

/// Two buffers queued before one callback: only the most recently queued one
/// is staged and sent; the older one is discarded without being staged.
#[test]
fn only_the_newest_queued_frame_is_delivered() {
    let mut driver = streaming_driver();
    let older = vec![RawPlane { backing: PlaneBacking::Mapped(vec![1, 1, 1]), offset: 10, stride: 3 }];
    let newest = vec![
        RawPlane { backing: PlaneBacking::Descriptor(7), offset: 20, stride: 4 },
        RawPlane { backing: PlaneBacking::Mapped(vec![5, 6]), offset: 30, stride: 2 },
    ];
    driver.on_frames_queued(vec![older, newest]).expect("a valid frame must be delivered");
    assert_eq!(driver.current_state(), SessionState::Streaming);
    let delivered = driver.delivered();
    assert_eq!(delivered.len(), 2);
    assert!(matches!(delivered[0].handle, PlaneHandle::Borrowed(7)));
    assert_eq!(delivered[0].offset, 20);
    match &delivered[1].handle {
        PlaneHandle::Staged(region) => {
            assert_eq!(region.bytes(), &vec![5, 6]);
            assert!(region.is_fully_sealed());
        },
        PlaneHandle::Borrowed(_) => panic!("the mapped plane must arrive as a staged region"),
    }
    assert_eq!(delivered[1].offset, 30);
}

#[test]
fn empty_queue_delivers_nothing() {
    let mut driver = streaming_driver();
    driver.on_frames_queued(vec![]).expect("an empty queue is no error");
    assert_eq!(driver.current_state(), SessionState::Streaming);
    assert!(driver.delivered().is_empty());
}

/// A staging failure aborts the whole frame: nothing of it is delivered and
/// the session drains.
#[test]
fn staging_failure_delivers_nothing_and_drains() {
    let mut driver = streaming_driver();
    let frame = vec![
        RawPlane { backing: PlaneBacking::Mapped(vec![1, 2]), offset: 0, stride: 2 },
        RawPlane { backing: PlaneBacking::Descriptor(0), offset: 0, stride: 4 },
    ];
    let r = driver.on_frames_queued(vec![frame]);
    assert_eq!(r, Err(TerminationCause::Stage(StageError::InvalidDescriptor)));
    assert_eq!(driver.current_state(), SessionState::Closed);
    assert!(driver.delivered().is_empty());
    assert!(!driver.transport_write_open());
    assert_eq!(
        driver.termination_cause(),
        Some(TerminationCause::Stage(StageError::InvalidDescriptor))
    );
}

/// Stop while streaming: the driver drains, the end-of-stream signal goes out
/// exactly once, the state becomes `Closed`, and a second signal fails rather
/// than re-executing.
#[test]
fn stop_while_streaming_signals_end_of_stream_once() {
    let mut driver = streaming_driver();
    assert!(driver.transport_write_open());
    assert!(driver.on_stop());
    assert_eq!(driver.current_state(), SessionState::Closed);
    assert!(!driver.transport_write_open());
    assert_eq!(driver.termination_cause(), Some(TerminationCause::Stopped));
    assert!(!driver.on_stop());
    assert_eq!(driver.current_state(), SessionState::Closed);
}

#[test]
fn second_end_of_stream_signal_fails() {
    let mut transport = DescriptorTransport::new();
    assert_eq!(transport.signal_end_of_stream(), Ok(()));
    assert_eq!(transport.signal_end_of_stream(), Err(TransportError::Closed));
    assert!(!transport.write_direction_open());
}

#[test]
fn stream_error_drains_the_session() {
    let mut driver = streaming_driver();
    assert!(driver.on_stream_error());
    assert_eq!(driver.current_state(), SessionState::Closed);
    assert_eq!(driver.termination_cause(), Some(TerminationCause::StreamFailed));
    assert!(!driver.on_stream_error());
}

#[test]
fn send_on_closed_transport_fails() {
    let mut transport = DescriptorTransport::new();
    transport.signal_end_of_stream().expect("first signal must succeed");
    let planes = vec![TransferablePlane { handle: PlaneHandle::Borrowed(4), offset: 0, stride: 1 }];
    assert_eq!(transport.send_frame(planes), Err(TransportError::Closed));
    assert!(transport.sent_units().is_empty());
}

#[test]
fn partial_send_reports_what_went_through() {
    let mut transport = DescriptorTransport::new();
    let planes = vec![
        TransferablePlane { handle: PlaneHandle::Borrowed(4), offset: 0, stride: 1 },
        TransferablePlane { handle: PlaneHandle::Borrowed(-3), offset: 8, stride: 1 },
        TransferablePlane { handle: PlaneHandle::Borrowed(6), offset: 16, stride: 1 },
    ];
    assert_eq!(transport.send_frame(planes), Err(TransportError::Partial));
    let sent = transport.sent_units();
    assert_eq!(sent.len(), 1);
    assert!(matches!(sent[0].handle, PlaneHandle::Borrowed(4)));
    assert!(transport.write_direction_open());
}

#[test]
fn full_send_preserves_order() {
    let mut transport = DescriptorTransport::new();
    let planes = vec![
        TransferablePlane { handle: PlaneHandle::Borrowed(4), offset: 0, stride: 1 },
        TransferablePlane { handle: PlaneHandle::Borrowed(6), offset: 8, stride: 2 },
    ];
    assert_eq!(transport.send_frame(planes), Ok(()));
    let sent = transport.sent_units();
    assert_eq!(sent.len(), 2);
    assert_eq!((sent[0].offset, sent[1].offset), (0, 8));
    assert!(matches!(sent[0].handle, PlaneHandle::Borrowed(4)));
    assert!(matches!(sent[1].handle, PlaneHandle::Borrowed(6)));
}
