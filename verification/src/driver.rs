//! Stream session driver.
//!
//! Owns the negotiated connection state, the current frame format and the
//! descriptor transport, and advances the session state machine
//! `Created -> Connecting -> Negotiating -> Streaming -> Draining -> Closed`
//! as events arrive. Each callback is a function of the current state and the
//! event: the surrounding event loop performs the outside work (connecting,
//! waiting, dequeuing buffers) and hands the driver plain values. Of queued
//! frames only the most recently queued one is staged and sent; older ones are
//! discarded undelivered. Any staging or transport failure while streaming
//! drains the session: the end-of-stream signal is sent once and the state
//! becomes `Closed` with the failure recorded as the termination cause.

use vstd::prelude::*;

use crate::negotiate::{
    spec_selected_format, on_format_selected as selected_format, FrameFormat, NegotiationError,
    spec_buffer_request_props,
};
use crate::codec::spec_encode_object;
use crate::stage::{spec_frame_ok, spec_plane_staged, stage, RawPlane, StageError,
    TransferablePlane};
use crate::transport::{
    spec_frame_sendable, spec_plane_sendable, DescriptorTransport, TransportError,
};
use crate::vocab::{OBJECT_TYPE_PARAM_BUFFERS, PARAM_ID_BUFFERS};

verus! {

/// Where the session stands.
#[derive(Clone, Copy, Debug, PartialEq, Eq, Structural)]
pub enum SessionState {
    /// Fresh; nothing opened yet.
    Created,
    /// Opening the media-streaming connection.
    Connecting,
    /// Connected; format offer and selection in flight.
    Negotiating,
    /// A format is accepted; frames flow.
    Streaming,
    /// Stopping: the end-of-stream signal goes out, in-flight buffers drop.
    Draining,
    /// Terminal.
    Closed,
}

/// Why the session ended.
#[derive(Clone, Copy, Debug, PartialEq, Eq, Structural)]
pub enum TerminationCause {
    /// An explicit stop request.
    Stopped,
    /// A fatal error reported by the underlying stream.
    StreamFailed,
    /// Staging a frame failed.
    Stage(StageError),
    /// Delivering descriptors failed.
    Transport(TransportError),
    /// The remote endpoint chose a format the vocabulary cannot express.
    Negotiation(NegotiationError),
}

/// The session driver: single owner of the transport and of the negotiated
/// format, which callbacks read by reference instead of sharing ambient
/// mutable state.
#[derive(Debug)]
pub struct SessionDriver {
    state: SessionState,
    format: Option<FrameFormat>,
    transport: DescriptorTransport,
    cause: Option<TerminationCause>,
}

impl SessionDriver {
    /// Where the session stands.
    pub closed spec fn state(&self) -> SessionState {
        self.state
    }

    /// The current negotiated frame format, if one was accepted.
    pub closed spec fn format(&self) -> Option<FrameFormat> {
        self.format
    }

    /// Why the session ended, once it has.
    pub closed spec fn cause(&self) -> Option<TerminationCause> {
        self.cause
    }

    /// The ordered log of plane units delivered to the consumer.
    pub closed spec fn log(&self) -> Seq<TransferablePlane> {
        self.transport.log()
    }

    /// Whether the transport's write direction is still open.
    pub closed spec fn write_open(&self) -> bool {
        self.transport.is_write_open()
    }

    /// The driver's internal consistency: until the session drains, the
    /// transport's write direction is open.
    pub closed spec fn wf(&self) -> bool {
        (self.state is Created || self.state is Connecting || self.state is Negotiating
            || self.state is Streaming) ==> self.transport.is_write_open()
    }

    /// A fresh driver owning a fresh transport.
    pub fn new() -> (r: SessionDriver)
        ensures
            r.wf(),
            r.state() is Created,
            r.format() is None,
            r.cause() is None,
            r.log() == Seq::<TransferablePlane>::empty(),
            r.write_open(),
    {
        SessionDriver {
            state: SessionState::Created,
            format: None,
            transport: DescriptorTransport::new(),
            cause: None,
        }
    }

    /// Where the session stands.
    pub fn current_state(&self) -> (r: SessionState)
        ensures
            r == self.state(),
    {
        self.state
    }

    /// The current negotiated frame format, if one was accepted.
    pub fn negotiated_format(&self) -> (r: Option<FrameFormat>)
        ensures
            r == self.format(),
    {
        self.format
    }

    /// Why the session ended, once it has.
    pub fn termination_cause(&self) -> (r: Option<TerminationCause>)
        ensures
            r == self.cause(),
    {
        self.cause
    }

    /// The plane units delivered to the consumer so far, in order.
    pub fn delivered(&self) -> (r: &Vec<TransferablePlane>)
        ensures
            r@ == self.log(),
    {
        self.transport.sent_units()
    }

    /// Whether the transport's write direction is still open.
    pub fn transport_write_open(&self) -> (r: bool)
        ensures
            r == self.write_open(),
    {
        self.transport.write_direction_open()
    }

    /// The session starts: the media-streaming connection is being opened.
    /// Acts only in `Created`.
    pub fn on_started(&mut self) -> (accepted: bool)
        requires
            old(self).wf(),
        ensures
            final(self).wf(),
            accepted == (old(self).state() is Created),
            accepted ==> final(self).state() is Connecting,
            !accepted ==> final(self).state() == old(self).state(),
            final(self).format() == old(self).format(),
            final(self).cause() == old(self).cause(),
            final(self).log() == old(self).log(),
            final(self).write_open() == old(self).write_open(),
    {
        match self.state {
            SessionState::Created => {
                self.state = SessionState::Connecting;
                true
            },
            _ => false,
        }
    }

    /// The connection is up: format negotiation begins. Acts only in
    /// `Connecting`.
    pub fn on_connected(&mut self) -> (accepted: bool)
        requires
            old(self).wf(),
        ensures
            final(self).wf(),
            accepted == (old(self).state() is Connecting),
            accepted ==> final(self).state() is Negotiating,
            !accepted ==> final(self).state() == old(self).state(),
            final(self).format() == old(self).format(),
            final(self).cause() == old(self).cause(),
            final(self).log() == old(self).log(),
            final(self).write_open() == old(self).write_open(),
    {
        match self.state {
            SessionState::Connecting => {
                self.state = SessionState::Negotiating;
                true
            },
            _ => false,
        }
    }

    /// The remote endpoint reports its chosen format, as raw bytes. A
    /// well-formed recognizable choice replaces the frame format wholesale
    /// (no merge), moves the session to `Streaming`, and yields the encoded
    /// follow-up request for descriptor-backed buffers, to be sent to the
    /// endpoint. Malformed bytes are dropped and the session continues
    /// unchanged; an unrecognizable format drains the session.
    pub fn on_format_selected(&mut self, bytes: &Vec<u8>) -> (r: Result<Vec<u8>, NegotiationError>)
        requires
            old(self).wf(),
            old(self).state() is Negotiating || old(self).state() is Streaming,
        ensures
            final(self).wf(),
            final(self).log() == old(self).log(),
            match spec_selected_format(bytes@) {
                Ok(f) => r matches Ok(req) && req@ == spec_encode_object(
                    OBJECT_TYPE_PARAM_BUFFERS,
                    PARAM_ID_BUFFERS,
                    spec_buffer_request_props(),
                ) && final(self).state() is Streaming && final(self).format() == Some(f) && final(self).cause() == old(self).cause() && final(self).write_open(),
                Err(NegotiationError::MalformedParameterObject) => r == Err::<
                    Vec<u8>,
                    NegotiationError,
                >(NegotiationError::MalformedParameterObject) && final(self).state() == old(self).state() && final(self).format() == old(self).format() && final(self).cause()
                    == old(self).cause() && final(self).write_open(),
                Err(NegotiationError::UnrecognizedFormat) => r == Err::<Vec<u8>, NegotiationError>(
                    NegotiationError::UnrecognizedFormat,
                ) && final(self).state() is Closed && !final(self).write_open() && final(self).cause() == Some(
                    TerminationCause::Negotiation(NegotiationError::UnrecognizedFormat),
                ) && final(self).format() == old(self).format(),
            },
    {
        match selected_format(bytes) {
            Ok((format, request)) => {
                self.format = Some(format);
                self.state = SessionState::Streaming;
                Ok(request)
            },
            Err(NegotiationError::MalformedParameterObject) => {
                Err(NegotiationError::MalformedParameterObject)
            },
            Err(NegotiationError::UnrecognizedFormat) => {
                self.state = SessionState::Draining;
                let _ = self.transport.signal_end_of_stream();
                self.state = SessionState::Closed;
                self.cause = Some(
                    TerminationCause::Negotiation(NegotiationError::UnrecognizedFormat),
                );
                Err(NegotiationError::UnrecognizedFormat)
            },
        }
    }

    /// Frame buffers were queued since the last callback. Only the most
    /// recently queued frame is staged and sent; the older ones are discarded
    /// without being staged. A staging or delivery failure drains the session
    /// and nothing of the failed frame reaches the consumer.
    pub fn on_frames_queued(&mut self, queued: Vec<Vec<RawPlane>>) -> (r: Result<
        (),
        TerminationCause,
    >)
        requires
            old(self).wf(),
            old(self).state() is Streaming,
        ensures
            final(self).wf(),
            final(self).format() == old(self).format(),
            queued@.len() == 0 ==> r is Ok && final(self).state() is Streaming && final(self).log()
                == old(self).log() && final(self).cause() == old(self).cause() && final(self).write_open(),
            queued@.len() > 0 && spec_frame_ok(queued@.last()@) ==> {
                let staged_len = queued@.last()@.len();
                &&& r is Ok
                &&& final(self).state() is Streaming
                &&& final(self).write_open()
                &&& final(self).cause() == old(self).cause()
                &&& final(self).log().len() == old(self).log().len() + staged_len
                &&& final(self).log().take(old(self).log().len() as int) == old(self).log()
                &&& forall|k: int|
                    0 <= k < staged_len ==> spec_plane_staged(
                        queued@.last()@[k],
                        #[trigger] final(self).log()[old(self).log().len() + k],
                    )
            },
            queued@.len() > 0 && !spec_frame_ok(queued@.last()@) ==> r == Err::<
                (),
                TerminationCause,
            >(TerminationCause::Stage(StageError::InvalidDescriptor)) && final(self).state()
                is Closed && !final(self).write_open() && final(self).log() == old(self).log()
                && final(self).cause() == Some(
                TerminationCause::Stage(StageError::InvalidDescriptor),
            ),
    {
        let mut pending = queued;
        let newest = match pending.pop() {
            None => {
                return Ok(());
            },
            Some(frame) => frame,
        };
        match stage(&newest) {
            Ok(planes) => {
                assert(spec_frame_sendable(planes@)) by {
                    assert forall|j: int|
                        0 <= j < planes@.len() implies spec_plane_sendable(
                        #[trigger] planes@[j],
                    ) by {
                        assert(spec_plane_staged(newest@[j], planes@[j]));
                    };
                };
                let ghost sent = planes@;
                let ghost base = self.transport.log();
                match self.transport.send_frame(planes) {
                    Ok(()) => {
                        proof {
                            assert(final(self).log() == base + sent);
                            assert((base + sent).take(base.len() as int) =~= base);
                        }
                        Ok(())
                    },
                    Err(e) => {
                        self.state = SessionState::Draining;
                        let _ = self.transport.signal_end_of_stream();
                        self.state = SessionState::Closed;
                        self.cause = Some(TerminationCause::Transport(e));
                        Err(TerminationCause::Transport(e))
                    },
                }
            },
            Err(e) => {
                self.state = SessionState::Draining;
                let _ = self.transport.signal_end_of_stream();
                self.state = SessionState::Closed;
                self.cause = Some(TerminationCause::Stage(e));
                Err(TerminationCause::Stage(e))
            },
        }
    }

    /// An explicit stop while streaming: the session drains — the
    /// end-of-stream signal goes out exactly once — and closes. In any other
    /// state nothing happens.
    pub fn on_stop(&mut self) -> (stopped: bool)
        requires
            old(self).wf(),
        ensures
            final(self).wf(),
            stopped == (old(self).state() is Streaming),
            final(self).format() == old(self).format(),
            final(self).log() == old(self).log(),
            stopped ==> final(self).state() is Closed && !final(self).write_open() && final(self).cause() == Some(TerminationCause::Stopped) && old(self).write_open(),
            !stopped ==> final(self).state() == old(self).state() && final(self).write_open()
                == old(self).write_open() && final(self).cause() == old(self).cause(),
    {
        match self.state {
            SessionState::Streaming => {
                self.state = SessionState::Draining;
                let _ = self.transport.signal_end_of_stream();
                self.state = SessionState::Closed;
                self.cause = Some(TerminationCause::Stopped);
                true
            },
            _ => false,
        }
    }

    /// A fatal error reported by the underlying stream while streaming: the
    /// session drains and closes, with the failure recorded. In any other
    /// state nothing happens.
    pub fn on_stream_error(&mut self) -> (acted: bool)
        requires
            old(self).wf(),
        ensures
            final(self).wf(),
            acted == (old(self).state() is Streaming),
            final(self).format() == old(self).format(),
            final(self).log() == old(self).log(),
            acted ==> final(self).state() is Closed && !final(self).write_open() && final(self).cause() == Some(TerminationCause::StreamFailed),
            !acted ==> final(self).state() == old(self).state() && final(self).write_open() == old(self).write_open() && final(self).cause() == old(self).cause(),
    {
        match self.state {
            SessionState::Streaming => {
                self.state = SessionState::Draining;
                let _ = self.transport.signal_end_of_stream();
                self.state = SessionState::Closed;
                self.cause = Some(TerminationCause::StreamFailed);
                true
            },
            _ => false,
        }
    }
}

} // verus!
