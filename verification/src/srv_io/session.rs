//! Worker session: how far one exchange with the worker has come.
//!
//! A session opens no connection and reads no byte. It is told what
//! happened on the connection, event by event, and answers with its next
//! state, with the event to send to the client if there is one, and with
//! what it needs done next.
//!
//! ```text
//! Connecting -> Handshaking -> Streaming(rows_remaining) -> Done
//!      |             |
//!      +-------------+--> Failed
//! ```

use vstd::prelude::*;
use crate::srv_io::event::event_of;
use crate::srv_io::event::stream_event;
use crate::srv_io::event::EventModel;
use crate::srv_io::event::StreamEvent;
use crate::srv_io::frame::be_u16;
use crate::srv_io::frame::frame_length;
use crate::srv_io::frame::Frame;
use crate::srv_io::lb_app_io::LbConvError;
use crate::srv_io::row::classify;
use crate::srv_io::row::classify_row;
use crate::srv_io::row::ClassifiedRow;
use crate::srv_io::row::RowModel;

verus! {

/// What a session does once a row has reported a failure.
#[derive(Debug, Clone, Copy, PartialEq, Eq, Structural)]
pub enum ErrorPolicy {
    /// The first failure ends the session.
    StopAtError,
    /// Every declared frame is still asked for, whatever the rows before it said.
    KeepPulling,
}

impl Default for ErrorPolicy {
    fn default() -> (policy: ErrorPolicy)
        ensures
            policy == ErrorPolicy::StopAtError,
    {
        ErrorPolicy::StopAtError
    }
}

/// The states of a session.
#[derive(Debug, Clone, Copy, PartialEq, Eq, Structural)]
pub enum SessionState {
    /// The connection is being opened.
    Connecting,
    /// The request is being sent, or, once `request_sent`, the row count awaited.
    Handshaking { request_sent: bool },
    /// Frames are being pulled; `rows_remaining` of them may still be asked for.
    Streaming { rows_remaining: usize },
    /// The stream is over.
    Done,
    /// The exchange broke down before any event was sent.
    Failed,
}

/// What happened on the connection.
#[derive(Debug, PartialEq, Eq)]
pub enum WorkerEvent {
    /// The connection is open.
    Connected,
    /// The request was written in full.
    RequestSent,
    /// The two bytes of the row count arrived.
    RowCount { hi: u8, lo: u8 },
    /// A frame was read in full.
    FrameRead(Frame),
    /// A frame could not be read in full.
    FrameLost,
    /// The step under way failed, for the given reason.
    Failed(LbConvError),
}

/// What the session needs done next.
#[derive(Debug, Clone, Copy, PartialEq, Eq, Structural)]
pub enum Directive {
    /// Open the connection to the worker.
    Connect,
    /// Write the request.
    SendRequest,
    /// Read the two bytes of the row count.
    ReadRowCount,
    /// Read one frame.
    ReadFrame,
    /// Close the connection and end the stream.
    Close,
    /// Close the connection and answer with a single error response.
    Abort(LbConvError),
}

/// A snapshot of the stream towards the client.
#[derive(Debug, Clone, Copy, PartialEq, Eq, Structural)]
pub struct StreamState {
    /// The number of content lines that the client is promised.
    pub total_rows: usize,
    /// The number of events sent so far.
    pub rows_emitted: usize,
    /// Whether the stream is over.
    pub terminated: bool,
}

/// The mathematical state of a session.
pub struct SessionModel {
    pub state: SessionState,
    pub policy: ErrorPolicy,
    pub total_rows: nat,
    pub rows_emitted: nat,
    pub failure: Option<LbConvError>,
}

/// The number of content lines shown to the client for a worker that
/// declared `declared` data rows: one more, for the header row.
pub open spec fn exposed_rows(declared: nat) -> nat {
    declared + 1
}

/// The number of frames to ask for: the header row, the data rows and the
/// completion frame.
pub open spec fn rows_to_pull(declared: nat) -> nat {
    declared + 2
}

/// Whether a row ends the stream whatever is still declared.
pub open spec fn ends_stream(row: RowModel, policy: ErrorPolicy) -> bool {
    ||| row is Completion
    ||| (policy == ErrorPolicy::StopAtError && (row is AppError || row is TransportError))
}

/// A session that has not begun.
pub open spec fn initial_session(policy: ErrorPolicy) -> SessionModel {
    SessionModel {
        state: SessionState::Connecting,
        policy,
        total_rows: 0,
        rows_emitted: 0,
        failure: None,
    }
}

/// Why a step before the stream failed, as far as the event tells: an event
/// that was not awaited counts as a fault of the connection.
pub open spec fn cause_of(event: WorkerEvent) -> LbConvError {
    match event {
        WorkerEvent::Failed(cause) => cause,
        _ => LbConvError::ContainerIoError,
    }
}

/// The session after a failure before the stream.
pub open spec fn session_failed(s: SessionModel, cause: LbConvError) -> SessionModel {
    SessionModel {
        state: SessionState::Failed,
        policy: s.policy,
        total_rows: s.total_rows,
        rows_emitted: s.rows_emitted,
        failure: Some(cause),
    }
}

/// The session after the row count arrived.
pub open spec fn session_opened(s: SessionModel, declared: nat) -> SessionModel {
    SessionModel {
        state: SessionState::Streaming { rows_remaining: rows_to_pull(declared) as usize },
        policy: s.policy,
        total_rows: exposed_rows(declared),
        rows_emitted: 0,
        failure: None,
    }
}

/// The row that an event stands for while frames are pulled: anything but a
/// frame read in full is a transport error.
pub open spec fn row_of_event(event: WorkerEvent) -> RowModel {
    match event {
        WorkerEvent::FrameRead(frame) => classify(frame.bytes()),
        _ => RowModel::TransportError,
    }
}

/// The session after one pull gave `row`.
pub open spec fn session_pull(s: SessionModel, row: RowModel) -> SessionModel {
    match s.state {
        SessionState::Streaming { rows_remaining } => SessionModel {
            state: if ends_stream(row, s.policy) || rows_remaining <= 1 {
                SessionState::Done
            } else {
                SessionState::Streaming { rows_remaining: (rows_remaining - 1) as usize }
            },
            policy: s.policy,
            total_rows: s.total_rows,
            rows_emitted: s.rows_emitted + 1,
            failure: s.failure,
        },
        _ => s,
    }
}

/// The state that follows `s` on `event`.
pub open spec fn session_step(s: SessionModel, event: WorkerEvent) -> SessionModel {
    match s.state {
        SessionState::Connecting => match event {
            WorkerEvent::Connected => SessionModel {
                state: SessionState::Handshaking { request_sent: false },
                policy: s.policy,
                total_rows: s.total_rows,
                rows_emitted: s.rows_emitted,
                failure: s.failure,
            },
            _ => session_failed(s, cause_of(event)),
        },
        SessionState::Handshaking { request_sent: false } => match event {
            WorkerEvent::RequestSent => SessionModel {
                state: SessionState::Handshaking { request_sent: true },
                policy: s.policy,
                total_rows: s.total_rows,
                rows_emitted: s.rows_emitted,
                failure: s.failure,
            },
            _ => session_failed(s, cause_of(event)),
        },
        SessionState::Handshaking { request_sent: true } => match event {
            WorkerEvent::RowCount { hi, lo } => session_opened(s, be_u16(hi, lo)),
            _ => session_failed(s, cause_of(event)),
        },
        SessionState::Streaming { .. } => session_pull(s, row_of_event(event)),
        SessionState::Done => s,
        SessionState::Failed => s,
    }
}

/// The event that the client is sent when `event` reaches a session in state `s`.
pub open spec fn session_emits(s: SessionModel, event: WorkerEvent) -> Option<EventModel> {
    match s.state {
        SessionState::Streaming { .. } => Some(event_of(row_of_event(event), s.total_rows)),
        _ => None,
    }
}

/// What a session in state `s` needs done next.
pub open spec fn directive_of(s: SessionModel) -> Directive {
    match s.state {
        SessionState::Connecting => Directive::Connect,
        SessionState::Handshaking { request_sent: false } => Directive::SendRequest,
        SessionState::Handshaking { request_sent: true } => Directive::ReadRowCount,
        SessionState::Streaming { .. } => Directive::ReadFrame,
        SessionState::Done => Directive::Close,
        SessionState::Failed => Directive::Abort(
            match s.failure {
                Some(cause) => cause,
                None => LbConvError::ContainerIoError,
            },
        ),
    }
}

/// What holds of every session that began with `initial_session`.
pub open spec fn session_inv(s: SessionModel) -> bool {
    &&& s.total_rows <= 0x1_0000
    &&& s.rows_emitted <= s.total_rows + 1
    &&& (s.state is Failed <==> s.failure is Some)
    &&& match s.state {
        SessionState::Connecting => s.total_rows == 0 && s.rows_emitted == 0,
        SessionState::Handshaking { .. } => s.total_rows == 0 && s.rows_emitted == 0,
        SessionState::Streaming { rows_remaining } => {
            &&& 1 <= rows_remaining
            &&& 1 <= s.total_rows
            &&& rows_remaining + s.rows_emitted == s.total_rows + 1
        },
        SessionState::Done => 1 <= s.rows_emitted && 1 <= s.total_rows,
        SessionState::Failed => s.total_rows == 0 && s.rows_emitted == 0,
    }
}

/// Every session is well-formed: the one that has not begun is, and no
/// event leads out of the well-formed ones. So the counters never run over,
/// and a streaming session always has a frame left to ask for.
pub proof fn law_session_stays_well_formed(
    s: SessionModel,
    event: WorkerEvent,
    policy: ErrorPolicy,
)
    ensures
        session_inv(initial_session(policy)),
        session_inv(s) ==> session_inv(session_step(s, event)),
{
}

/// No event reaches the client before the row count has arrived: only a
/// streaming session emits, and a session starts to stream on nothing but
/// the row count that answers a request which was sent.
pub proof fn law_no_event_before_handshake(s: SessionModel, event: WorkerEvent)
    ensures
        session_emits(s, event) is Some <==> s.state is Streaming,
        session_step(s, event).state is Streaming && !(s.state is Streaming) ==> s.state
            == (SessionState::Handshaking { request_sent: true }) && event is RowCount,
{
}

/// A session fails only before it streams, and a failed or finished session
/// stays as it is.
pub proof fn law_failure_is_before_the_stream(s: SessionModel, event: WorkerEvent)
    ensures
        session_step(s, event).state is Failed ==> s.state is Connecting || s.state is Handshaking
            || s.state is Failed,
        s.state is Failed || s.state is Done ==> session_step(s, event) == s,
        s.state is Failed || s.state is Done ==> session_emits(s, event) is None,
{
}

/// The row count fixes the totals: a worker that declares `n` data rows is
/// pulled `n + 2` times at most, and the client is told of `n + 1` rows.
pub proof fn law_row_count_fixes_totals(s: SessionModel, hi: u8, lo: u8)
    requires
        s.state == (SessionState::Handshaking { request_sent: true }),
    ensures
        ({
            let opened = session_step(s, WorkerEvent::RowCount { hi, lo });
            &&& opened.state == (SessionState::Streaming {
                rows_remaining: (be_u16(hi, lo) + 2) as usize,
            })
            &&& opened.total_rows == be_u16(hi, lo) + 1
            &&& opened.rows_emitted == 0
        }),
{
}

/// One pull, one event, one row less to ask for. The stream ends on the
/// completion signal, whatever was declared, and on the last declared frame;
/// a failure ends it if the policy says so.
pub proof fn law_pull_counts_down(s: SessionModel, event: WorkerEvent)
    requires
        session_inv(s),
        s.state is Streaming,
    ensures
        ({
            let next = session_step(s, event);
            let row = row_of_event(event);
            let left = s.state->rows_remaining;
            &&& session_emits(s, event) == Some(event_of(row, s.total_rows))
            &&& next.rows_emitted == s.rows_emitted + 1
            &&& next.total_rows == s.total_rows
            &&& next.state is Done <==> ends_stream(row, s.policy) || left == 1
            &&& !(next.state is Done) ==> next.state == (SessionState::Streaming {
                rows_remaining: (left - 1) as usize,
            })
            &&& row is Completion ==> directive_of(next) == Directive::Close
        }),
{
}

/// One exchange with the worker.
#[derive(Debug)]
pub struct WorkerSession {
    state: SessionState,
    policy: ErrorPolicy,
    total_rows: usize,
    rows_emitted: usize,
    failure: Option<LbConvError>,
}

impl View for WorkerSession {
    type V = SessionModel;

    closed spec fn view(&self) -> SessionModel {
        SessionModel {
            state: self.state,
            policy: self.policy,
            total_rows: self.total_rows as nat,
            rows_emitted: self.rows_emitted as nat,
            failure: self.failure,
        }
    }
}

impl WorkerSession {
    #[verifier::type_invariant]
    spec fn well_formed(&self) -> bool {
        session_inv(self@)
    }

    /// A session that has not begun.
    pub fn new(policy: ErrorPolicy) -> (session: WorkerSession)
        ensures
            session@ == initial_session(policy),
    {
        WorkerSession {
            state: SessionState::Connecting,
            policy,
            total_rows: 0,
            rows_emitted: 0,
            failure: None,
        }
    }

    /// The state of the session.
    pub fn state(&self) -> (state: SessionState)
        ensures
            state == self@.state,
            session_inv(self@),
    {
        proof {
            use_type_invariant(self);
        }
        self.state
    }

    /// What the session needs done next.
    pub fn directive(&self) -> (directive: Directive)
        ensures
            directive == directive_of(self@),
            session_inv(self@),
    {
        proof {
            use_type_invariant(self);
        }
        match self.state {
            SessionState::Connecting => Directive::Connect,
            SessionState::Handshaking { request_sent } => {
                if request_sent {
                    Directive::ReadRowCount
                } else {
                    Directive::SendRequest
                }
            },
            SessionState::Streaming { .. } => Directive::ReadFrame,
            SessionState::Done => Directive::Close,
            SessionState::Failed => match self.failure {
                Some(cause) => Directive::Abort(cause),
                None => Directive::Abort(LbConvError::ContainerIoError),
            },
        }
    }

    /// The number of content lines that the client is promised, once the
    /// row count has arrived.
    pub fn total_rows(&self) -> (total: usize)
        ensures
            total == self@.total_rows,
    {
        self.total_rows
    }

    /// The stream towards the client, once the row count has arrived.
    pub fn stream_state(&self) -> (stream: Option<StreamState>)
        ensures
            stream == match self@.state {
                SessionState::Streaming { .. } => Some(
                    StreamState {
                        total_rows: self@.total_rows as usize,
                        rows_emitted: self@.rows_emitted as usize,
                        terminated: false,
                    },
                ),
                SessionState::Done => Some(
                    StreamState {
                        total_rows: self@.total_rows as usize,
                        rows_emitted: self@.rows_emitted as usize,
                        terminated: true,
                    },
                ),
                _ => None,
            },
    {
        match self.state {
            SessionState::Streaming { .. } => Some(
                StreamState {
                    total_rows: self.total_rows,
                    rows_emitted: self.rows_emitted,
                    terminated: false,
                },
            ),
            SessionState::Done => Some(
                StreamState {
                    total_rows: self.total_rows,
                    rows_emitted: self.rows_emitted,
                    terminated: true,
                },
            ),
            _ => None,
        }
    }

    /// Takes in what happened on the connection. Moves to the next state and
    /// gives the event to send to the client, if there is one.
    pub fn advance(&mut self, event: WorkerEvent) -> (emitted: Option<StreamEvent>)
        ensures
            final(self)@ == session_step(old(self)@, event),
            session_inv(final(self)@),
            match emitted {
                Some(e) => session_emits(old(self)@, event) == Some(e@),
                None => session_emits(old(self)@, event) is None,
            },
    {
        proof {
            use_type_invariant(&*self);
        }
        match self.state {
            SessionState::Connecting => {
                match event {
                    WorkerEvent::Connected => {
                        self.state = SessionState::Handshaking { request_sent: false };
                    },
                    WorkerEvent::Failed(cause) => {
                        self.fail(cause);
                    },
                    _ => {
                        self.fail(LbConvError::ContainerIoError);
                    },
                }
                None
            },
            SessionState::Handshaking { request_sent } => {
                if !request_sent {
                    match event {
                        WorkerEvent::RequestSent => {
                            self.state = SessionState::Handshaking { request_sent: true };
                        },
                        WorkerEvent::Failed(cause) => {
                            self.fail(cause);
                        },
                        _ => {
                            self.fail(LbConvError::ContainerIoError);
                        },
                    }
                } else {
                    match event {
                        WorkerEvent::RowCount { hi, lo } => {
                            let declared = frame_length(hi, lo) as usize;
                            *self = WorkerSession {
                                state: SessionState::Streaming { rows_remaining: declared + 2 },
                                policy: self.policy,
                                total_rows: declared + 1,
                                rows_emitted: 0,
                                failure: None,
                            };
                        },
                        WorkerEvent::Failed(cause) => {
                            self.fail(cause);
                        },
                        _ => {
                            self.fail(LbConvError::ContainerIoError);
                        },
                    }
                }
                None
            },
            SessionState::Streaming { rows_remaining } => {
                let row = match event {
                    WorkerEvent::FrameRead(frame) => classify_row(frame.into_payload()),
                    _ => ClassifiedRow::TransportError,
                };
                let ends = match &row {
                    ClassifiedRow::Completion => true,
                    ClassifiedRow::Data { .. } => false,
                    _ => match self.policy {
                        ErrorPolicy::StopAtError => true,
                        ErrorPolicy::KeepPulling => false,
                    },
                };
                let next = if ends || rows_remaining <= 1 {
                    SessionState::Done
                } else {
                    SessionState::Streaming { rows_remaining: rows_remaining - 1 }
                };
                *self = WorkerSession {
                    state: next,
                    policy: self.policy,
                    total_rows: self.total_rows,
                    rows_emitted: self.rows_emitted + 1,
                    failure: self.failure,
                };
                Some(stream_event(row, self.total_rows))
            },
            SessionState::Done => None,
            SessionState::Failed => None,
        }
    }

    fn fail(&mut self, cause: LbConvError)
        requires
            old(self).state is Connecting || old(self).state is Handshaking,
        ensures
            final(self)@ == session_failed(old(self)@, cause),
            session_inv(final(self)@),
    {
        proof {
            use_type_invariant(&*self);
        }
        *self = WorkerSession {
            state: SessionState::Failed,
            policy: self.policy,
            total_rows: self.total_rows,
            rows_emitted: self.rows_emitted,
            failure: Some(cause),
        };
    }
}

} // verus!
