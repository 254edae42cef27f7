//! The list-conversion gateway: one exchange with the worker, from the
//! first byte it sends to the last event for the client.

use vstd::prelude::*;
use vstd::utf8::*;
use crate::srv_io::event::event_of;
use crate::srv_io::event::server_error_text;
use crate::srv_io::event::events_view;
use crate::srv_io::event::EventModel;
use crate::srv_io::event::StreamEvent;
use crate::srv_io::frame::be_u16;
use crate::srv_io::frame::frame_at;
use crate::srv_io::frame::frame_bytes;
use crate::srv_io::frame::read_frame;
use crate::srv_io::frame::ByteStream;
use crate::srv_io::frame::PREFIX_LEN;
use crate::srv_io::row::classify;
use crate::srv_io::row::done_marker;
use crate::srv_io::row::error_marker;
use crate::srv_io::row::lemma_done_marker;
use crate::srv_io::row::lemma_error_marker;
use crate::srv_io::row::RowModel;
use crate::srv_io::session::ends_stream;
use crate::srv_io::session::exposed_rows;
use crate::srv_io::session::rows_to_pull;
use crate::srv_io::session::session_inv;
use crate::srv_io::session::session_pull;
use crate::srv_io::session::Directive;
use crate::srv_io::session::ErrorPolicy;
use crate::srv_io::session::SessionState;
use crate::srv_io::session::WorkerEvent;
use crate::srv_io::session::WorkerSession;
use crate::types::lb_app_types::ListRowModel;

verus! {

/// Why an exchange broke down before the stream began. Each of these is
/// answered with a single error response, never with an event.
#[derive(Debug, Clone, Copy, PartialEq, Eq, Structural)]
pub enum LbConvError {
    /// The worker's address is not configured.
    EnvVarError,
    /// The connection could not be opened, written to, or read from.
    ContainerIoError,
    /// The request could not be put into JSON.
    JsonParseError,
}

/// The row that one pull at `pos` gives: the classified payload of the
/// frame there, or a transport error if no whole frame is there.
pub open spec fn pulled_row(bytes: Seq<u8>, pos: int) -> RowModel {
    match frame_at(bytes, pos) {
        Some((payload, _)) => classify(payload),
        None => RowModel::TransportError,
    }
}

/// Where the stream stands after one pull at `pos`: behind the frame, or at
/// the end if no whole frame was there.
pub open spec fn pulled_next(bytes: Seq<u8>, pos: int) -> int {
    match frame_at(bytes, pos) {
        Some((_, next)) => next,
        None => bytes.len() as int,
    }
}

/// The events for the frames from `pos` on, one for each pull and in the
/// order of the pulls, while at most `rows_remaining` frames are asked for.
pub open spec fn events_from(
    bytes: Seq<u8>,
    pos: int,
    rows_remaining: nat,
    total_rows: nat,
    policy: ErrorPolicy,
) -> Seq<EventModel>
    decreases rows_remaining,
{
    if rows_remaining == 0 {
        Seq::empty()
    } else {
        let row = pulled_row(bytes, pos);
        let first = seq![event_of(row, total_rows)];
        if ends_stream(row, policy) {
            first
        } else {
            first + events_from(
                bytes,
                pulled_next(bytes, pos),
                (rows_remaining - 1) as nat,
                total_rows,
                policy,
            )
        }
    }
}

/// What the client gets out of one exchange, where `opening` says how
/// connecting and sending the request went and `reply` holds every byte
/// that the worker sent before the connection ended.
///
/// A failure before the row count has arrived is an error and no event.
/// From then on there are only events.
pub open spec fn conversion(
    opening: Result<(), LbConvError>,
    reply: Seq<u8>,
    policy: ErrorPolicy,
) -> Result<Seq<EventModel>, LbConvError> {
    match opening {
        Err(cause) => Err(cause),
        Ok(_) => {
            if reply.len() < 2 {
                Err(LbConvError::ContainerIoError)
            } else {
                let declared = be_u16(reply[0], reply[1]);
                Ok(
                    events_from(
                        reply,
                        2,
                        rows_to_pull(declared),
                        exposed_rows(declared),
                        policy,
                    ),
                )
            }
        },
    }
}

/// The two bytes that declare `declared` data rows.
pub open spec fn count_bytes(declared: nat) -> Seq<u8>
    recommends
        declared <= u16::MAX,
{
    seq![(declared / 256) as u8, (declared % 256) as u8]
}

/// The wire form of payloads sent one behind the other.
pub open spec fn frames_bytes(payloads: Seq<Seq<u8>>) -> Seq<u8>
    decreases payloads.len(),
{
    if payloads.len() == 0 {
        Seq::empty()
    } else {
        frame_bytes(payloads[0]) + frames_bytes(payloads.drop_first())
    }
}

/// Whether a payload is a content line that fits a frame: UTF-8 without
/// either marker, of at most 65535 bytes.
pub open spec fn is_content(payload: Seq<u8>) -> bool {
    &&& payload.len() <= u16::MAX
    &&& valid_utf8(payload)
    &&& !error_marker().is_prefix_of(payload)
    &&& !done_marker().is_prefix_of(payload)
}

/// The content event for a payload.
pub open spec fn content_event(payload: Seq<u8>, total_rows: nat) -> EventModel {
    EventModel::Message(ListRowModel { total_rows, row_data: decode_utf8(payload) })
}

/// Whether there is an error event among `events`.
pub open spec fn has_error_event(events: Seq<EventModel>) -> bool {
    exists|i: int| 0 <= i < events.len() && #[trigger] events[i] is Error
}

/// Whether a stream came to its end in order: it closes with the completion
/// event, or every one of the `pulls` frames was asked for.
pub open spec fn stream_is_whole(events: Seq<EventModel>, pulls: nat) -> bool {
    events.len() > 0 && (events.last() is Complete || events.len() == pulls)
}

/// A frame that is wholly there is read back as it was sent.
pub proof fn lemma_frame_round_trip(bytes: Seq<u8>, pos: int, payload: Seq<u8>)
    requires
        0 <= pos,
        payload.len() <= u16::MAX,
        pos + 2 + payload.len() <= bytes.len(),
        bytes.subrange(pos, pos + 2 + payload.len()) == frame_bytes(payload),
    ensures
        frame_at(bytes, pos) == Some((payload, pos + 2 + payload.len())),
{
    let len = payload.len();
    let wire = frame_bytes(payload);
    let cut = bytes.subrange(pos, pos + 2 + len);
    assert(bytes[pos] == cut[0] && bytes[pos + 1] == cut[1]);
    assert(wire[0] == (len / 256) as u8 && wire[1] == (len % 256) as u8);
    assert(be_u16((len / 256) as u8, (len % 256) as u8) == len);
    assert(bytes.subrange(pos + 2, pos + 2 + len) =~= payload) by {
        assert forall|i: int| 0 <= i < len implies bytes[pos + 2 + i] == payload[i] by {
            assert(cut[2 + i] == wire[2 + i]);
        }
    }
}

/// The completion marker on its own is classified as completion.
pub proof fn lemma_done_is_completion()
    ensures
        classify(done_marker()) == RowModel::Completion,
        done_marker().len() == 5,
{
    lemma_done_marker();
    lemma_error_marker();
    encode_utf8_valid_utf8("done!"@);
    let done = done_marker();
    assert(done.is_prefix_of(done)) by {
        assert(done.subrange(0, done.len() as int) =~= done);
    }
    assert(!error_marker().is_prefix_of(done)) by {
        assert(done.subrange(0, 2)[0] == 0x64u8);
        assert(error_marker()[0] == 0x2du8);
    }
}

/// Frames that hold content lines and then the completion marker give one
/// content event each, in order, and then the completion event.
pub proof fn lemma_events_of_frames(
    bytes: Seq<u8>,
    pos: int,
    rows: Seq<Seq<u8>>,
    rows_remaining: nat,
    total_rows: nat,
    policy: ErrorPolicy,
)
    requires
        0 <= pos <= bytes.len(),
        bytes.subrange(pos, bytes.len() as int) == frames_bytes(rows.push(done_marker())),
        forall|i: int| 0 <= i < rows.len() ==> is_content(#[trigger] rows[i]),
        rows_remaining > rows.len(),
    ensures
        events_from(bytes, pos, rows_remaining, total_rows, policy) == Seq::new(
            rows.len() + 1,
            |i: int|
                if i < rows.len() {
                    content_event(rows[i], total_rows)
                } else {
                    EventModel::Complete
                },
        ),
        position_after(bytes, pos, rows.len() + 1) == bytes.len(),
    decreases rows.len(),
{
    let payloads = rows.push(done_marker());
    let first = payloads[0];
    let rest = payloads.drop_first();
    let tail = bytes.subrange(pos, bytes.len() as int);
    let expected = Seq::new(
        rows.len() + 1,
        |i: int|
            if i < rows.len() {
                content_event(rows[i], total_rows)
            } else {
                EventModel::Complete
            },
    );
    lemma_done_is_completion();
    assert(first.len() <= u16::MAX) by {
        if rows.len() > 0 {
            assert(first == rows[0]);
        }
    }
    assert(tail == frame_bytes(first) + frames_bytes(rest));
    let next = pos + 2 + first.len();
    assert(frame_bytes(first).len() == 2 + first.len());
    assert(tail.len() == frame_bytes(first).len() + frames_bytes(rest).len());
    assert(bytes.subrange(pos, next) =~= frame_bytes(first)) by {
        assert(bytes.subrange(pos, next) =~= tail.subrange(0, next - pos));
    }
    lemma_frame_round_trip(bytes, pos, first);
    assert(pulled_row(bytes, pos) == classify(first));
    assert(pulled_next(bytes, pos) == next);
    assert(position_after(bytes, pos, rows.len() + 1) == position_after(bytes, next, rows.len()));
    if rows.len() == 0 {
        assert(first == done_marker());
        assert(events_from(bytes, pos, rows_remaining, total_rows, policy) =~= expected);
        assert(rest =~= Seq::<Seq<u8>>::empty());
        assert(frames_bytes(rest).len() == 0);
    } else {
        assert(first == rows[0]);
        assert(is_content(rows[0]));
        let later = rows.drop_first();
        assert(rest =~= later.push(done_marker()));
        assert(bytes.subrange(next, bytes.len() as int) =~= frames_bytes(rest)) by {
            assert(bytes.subrange(next, bytes.len() as int) =~= tail.subrange(
                next - pos,
                tail.len() as int,
            ));
        }
        assert forall|i: int| 0 <= i < later.len() implies is_content(#[trigger] later[i]) by {
            assert(later[i] == rows[i + 1]);
        }
        lemma_events_of_frames(
            bytes,
            next,
            later,
            (rows_remaining - 1) as nat,
            total_rows,
            policy,
        );
        let after = events_from(bytes, next, (rows_remaining - 1) as nat, total_rows, policy);
        assert(events_from(bytes, pos, rows_remaining, total_rows, policy) == seq![
            content_event(rows[0], total_rows),
        ] + after);
        assert(seq![content_event(rows[0], total_rows)] + after =~= expected) by {
            assert forall|i: int| 1 <= i < expected.len() implies expected[i] == after[i - 1] by {
                if i - 1 < later.len() {
                    assert(later[i - 1] == rows[i]);
                }
            }
        }
    }
}

/// Row-count accounting. A worker that declares `declared` data rows and
/// then sends the header row, the data rows and the completion frame is
/// seen by the client as `declared + 1` content events, each of which names
/// `declared + 1` as the total, followed by one completion event. One frame
/// is read for each event: `declared + 2` pulls take the reply to its end.
pub proof fn law_row_count_accounting(declared: nat, rows: Seq<Seq<u8>>, policy: ErrorPolicy)
    requires
        declared <= u16::MAX,
        rows.len() == declared + 1,
        forall|i: int| 0 <= i < rows.len() ==> is_content(#[trigger] rows[i]),
    ensures
        conversion(
            Ok(()),
            count_bytes(declared) + frames_bytes(rows.push(done_marker())),
            policy,
        ) == Ok::<Seq<EventModel>, LbConvError>(
            Seq::new(
                declared + 2,
                |i: int|
                    if i <= declared {
                        content_event(rows[i], declared + 1)
                    } else {
                        EventModel::Complete
                    },
            ),
        ),
        position_after(
            count_bytes(declared) + frames_bytes(rows.push(done_marker())),
            2,
            declared + 2,
        ) == (count_bytes(declared) + frames_bytes(rows.push(done_marker()))).len(),
{
    let sent = frames_bytes(rows.push(done_marker()));
    let reply = count_bytes(declared) + sent;
    assert(reply[0] == (declared / 256) as u8 && reply[1] == (declared % 256) as u8);
    assert(be_u16(reply[0], reply[1]) == declared);
    assert(reply.subrange(2, reply.len() as int) =~= sent);
    lemma_events_of_frames(reply, 2, rows, declared + 2, declared + 1, policy);
    assert(Seq::new(
        rows.len() + 1,
        |i: int|
            if i < rows.len() {
                content_event(rows[i], declared + 1)
            } else {
                EventModel::Complete
            },
    ) =~= Seq::new(
        declared + 2,
        |i: int|
            if i <= declared {
                content_event(rows[i], declared + 1)
            } else {
                EventModel::Complete
            },
    ));
}

/// UTF-8 fidelity. A content line of at most 65535 bytes of UTF-8, in one
/// script or another, reaches the client byte for byte: the text of its
/// event encodes to the very payload that the worker framed.
pub proof fn law_utf8_fidelity(payload: Seq<u8>, total_rows: nat)
    requires
        is_content(payload),
    ensures
        pulled_row(frame_bytes(payload), 0) == (RowModel::Data { row_text: decode_utf8(payload) }),
        event_of(pulled_row(frame_bytes(payload), 0), total_rows) == content_event(
            payload,
            total_rows,
        ),
        encode_utf8(decode_utf8(payload)) == payload,
{
    let wire = frame_bytes(payload);
    assert(wire.subrange(0, 2 + payload.len() as int) =~= wire);
    lemma_frame_round_trip(wire, 0, payload);
    decode_utf8_encode_utf8(payload);
}

/// Every stream has a first event, never more events than frames were to be
/// pulled, and either comes to its end in order or holds an error event.
pub proof fn lemma_stream_shape(
    bytes: Seq<u8>,
    pos: int,
    rows_remaining: nat,
    total_rows: nat,
    policy: ErrorPolicy,
)
    requires
        rows_remaining >= 1,
    ensures
        ({
            let events = events_from(bytes, pos, rows_remaining, total_rows, policy);
            &&& 1 <= events.len() <= rows_remaining
            &&& events[0] == event_of(pulled_row(bytes, pos), total_rows)
            &&& (stream_is_whole(events, rows_remaining) || has_error_event(events))
        }),
    decreases rows_remaining,
{
    let events = events_from(bytes, pos, rows_remaining, total_rows, policy);
    let row = pulled_row(bytes, pos);
    if ends_stream(row, policy) {
        assert(events =~= seq![event_of(row, total_rows)]);
        if !(row is Completion) {
            assert(events[0] is Error);
        }
    } else if rows_remaining == 1 {
        assert(events_from(bytes, pulled_next(bytes, pos), 0, total_rows, policy)
            =~= Seq::<EventModel>::empty());
        assert(events =~= seq![event_of(row, total_rows)]);
    } else {
        let after = events_from(
            bytes,
            pulled_next(bytes, pos),
            (rows_remaining - 1) as nat,
            total_rows,
            policy,
        );
        lemma_stream_shape(
            bytes,
            pulled_next(bytes, pos),
            (rows_remaining - 1) as nat,
            total_rows,
            policy,
        );
        assert(events == seq![event_of(row, total_rows)] + after);
        assert(events.last() == after.last());
        if has_error_event(after) {
            let i = choose|i: int| 0 <= i < after.len() && #[trigger] after[i] is Error;
            assert(events[i + 1] is Error);
        }
    }
}

/// Where the stream stands after `pulls` pulls that began at `pos`.
pub open spec fn position_after(bytes: Seq<u8>, pos: int, pulls: nat) -> int
    decreases pulls,
{
    if pulls == 0 {
        pos
    } else {
        position_after(bytes, pulled_next(bytes, pos), (pulls - 1) as nat)
    }
}

/// Events come in the order of the frames, one for one: the event at
/// index `k` is the event of the row that the pull after `k` pulls gave.
/// Nothing is held back, put together or moved.
pub proof fn law_events_in_arrival_order(
    bytes: Seq<u8>,
    pos: int,
    rows_remaining: nat,
    total_rows: nat,
    policy: ErrorPolicy,
    k: int,
)
    requires
        0 <= k < events_from(bytes, pos, rows_remaining, total_rows, policy).len(),
    ensures
        events_from(bytes, pos, rows_remaining, total_rows, policy)[k] == event_of(
            pulled_row(bytes, position_after(bytes, pos, k as nat)),
            total_rows,
        ),
    decreases k,
{
    let events = events_from(bytes, pos, rows_remaining, total_rows, policy);
    let row = pulled_row(bytes, pos);
    if k > 0 {
        let next = pulled_next(bytes, pos);
        let after = events_from(bytes, next, (rows_remaining - 1) as nat, total_rows, policy);
        assert(events == seq![event_of(row, total_rows)] + after);
        assert(events[k] == after[k - 1]);
        law_events_in_arrival_order(
            bytes,
            next,
            (rows_remaining - 1) as nat,
            total_rows,
            policy,
            k - 1,
        );
        assert(position_after(bytes, pos, k as nat) == position_after(
            bytes,
            next,
            (k - 1) as nat,
        ));
    }
}

/// How a stream ends. Nothing follows the completion event. If the first
/// failure is to end the session, nothing follows an error event either:
/// every event but the last is a content line. If every declared frame is
/// to be asked for, a stream without the completion event has used every
/// pull.
pub proof fn law_stream_ends_by_policy(
    bytes: Seq<u8>,
    pos: int,
    rows_remaining: nat,
    total_rows: nat,
    policy: ErrorPolicy,
)
    requires
        rows_remaining >= 1,
    ensures
        ({
            let events = events_from(bytes, pos, rows_remaining, total_rows, policy);
            &&& forall|i: int| 0 <= i < events.len() - 1 ==> !(#[trigger] events[i] is Complete)
            &&& policy == ErrorPolicy::StopAtError ==> forall|i: int|
                0 <= i < events.len() - 1 ==> #[trigger] events[i] is Message
            &&& policy == ErrorPolicy::KeepPulling && !(events.last() is Complete) ==> events.len()
                == rows_remaining
        }),
    decreases rows_remaining,
{
    let events = events_from(bytes, pos, rows_remaining, total_rows, policy);
    let row = pulled_row(bytes, pos);
    if ends_stream(row, policy) {
        assert(events =~= seq![event_of(row, total_rows)]);
    } else if rows_remaining == 1 {
        assert(events_from(bytes, pulled_next(bytes, pos), 0, total_rows, policy)
            =~= Seq::<EventModel>::empty());
        assert(events =~= seq![event_of(row, total_rows)]);
    } else {
        let after = events_from(
            bytes,
            pulled_next(bytes, pos),
            (rows_remaining - 1) as nat,
            total_rows,
            policy,
        );
        lemma_stream_shape(
            bytes,
            pulled_next(bytes, pos),
            (rows_remaining - 1) as nat,
            total_rows,
            policy,
        );
        law_stream_ends_by_policy(
            bytes,
            pulled_next(bytes, pos),
            (rows_remaining - 1) as nat,
            total_rows,
            policy,
        );
        assert(events == seq![event_of(row, total_rows)] + after);
        assert(events.last() == after.last());
        assert forall|i: int| 0 <= i < events.len() - 1 implies !(#[trigger] events[i]
            is Complete) by {
            if i > 0 {
                assert(events[i] == after[i - 1]);
            }
        }
        if policy == ErrorPolicy::StopAtError {
            assert forall|i: int| 0 <= i < events.len() - 1 implies #[trigger] events[i]
                is Message by {
                if i > 0 {
                    assert(events[i] == after[i - 1]);
                }
            }
        }
    }
}

/// Failures before the stream and failures in the stream stay apart. If the
/// worker cannot be reached, or the row count never arrives, the outcome is
/// a single error and no event. Once the row count has arrived the outcome
/// is a stream, whatever follows: a stream that does not come to its end in
/// order holds at least one error event.
pub proof fn law_failure_separation(
    opening: Result<(), LbConvError>,
    reply: Seq<u8>,
    policy: ErrorPolicy,
)
    ensures
        opening matches Err(cause) ==> conversion(opening, reply, policy) == Err::<
            Seq<EventModel>,
            LbConvError,
        >(cause),
        opening is Ok && reply.len() < 2 ==> conversion(opening, reply, policy) == Err::<
            Seq<EventModel>,
            LbConvError,
        >(LbConvError::ContainerIoError),
        opening is Ok && reply.len() >= 2 ==> ({
            &&& conversion(opening, reply, policy) matches Ok(events)
            &&& events.len() >= 1
            &&& (stream_is_whole(events, rows_to_pull(be_u16(reply[0], reply[1])))
                || has_error_event(events))
        }),
{
    if opening is Ok && reply.len() >= 2 {
        let declared = be_u16(reply[0], reply[1]);
        lemma_stream_shape(reply, 2, rows_to_pull(declared), exposed_rows(declared), policy);
    }
}

/// Partial-frame robustness. When the connection ends with only one of the
/// two bytes of a length prefix received, the pull gives the error event
/// with the text `500 INTERNAL SERVER ERROR`, and the stream goes on from
/// the end of the bytes.
pub proof fn law_partial_prefix(
    bytes: Seq<u8>,
    pos: int,
    rows_remaining: nat,
    total_rows: nat,
    policy: ErrorPolicy,
)
    requires
        rows_remaining >= 1,
        0 <= pos,
        pos + 1 == bytes.len(),
    ensures
        pulled_row(bytes, pos) == RowModel::TransportError,
        pulled_next(bytes, pos) == bytes.len(),
        events_from(bytes, pos, rows_remaining, total_rows, policy)[0] == (EventModel::Error {
            data: server_error_text(),
        }),
        server_error_text() == "500 INTERNAL SERVER ERROR"@,
{
    lemma_stream_shape(bytes, pos, rows_remaining, total_rows, policy);
}

/// Pulls one row: reads the next frame of `conn`, classifies it, moves the
/// session on and gives the event for the client. A session that is not
/// streaming reads nothing and gives nothing.
pub fn receive_list_row(conn: &mut ByteStream, session: &mut WorkerSession) -> (event: Option<
    StreamEvent,
>)
    ensures
        final(conn).bytes() == old(conn).bytes(),
        session_inv(old(session)@),
        session_inv(final(session)@),
        old(session)@.state is Streaming ==> {
            let row = pulled_row(old(conn).bytes(), old(conn).position());
            &&& final(conn).position() == pulled_next(old(conn).bytes(), old(conn).position())
            &&& final(session)@ == session_pull(old(session)@, row)
            &&& event matches Some(e) && e@ == event_of(row, old(session)@.total_rows)
        },
        !(old(session)@.state is Streaming) ==> {
            &&& final(conn).position() == old(conn).position()
            &&& final(session)@ == old(session)@
            &&& event is None
        },
{
    match session.directive() {
        Directive::ReadFrame => {
            let incoming = match read_frame(conn) {
                Ok(frame) => WorkerEvent::FrameRead(frame),
                Err(_) => WorkerEvent::FrameLost,
            };
            session.advance(incoming)
        },
        _ => None,
    }
}

/// Runs one whole exchange over a reply that is held in memory, and gives
/// what the client gets: the events of the stream in order, or the one
/// error that is answered before any stream begins.
pub fn convert_lb_list(
    opening: Result<(), LbConvError>,
    reply: Vec<u8>,
    policy: ErrorPolicy,
) -> (outcome: Result<Vec<StreamEvent>, LbConvError>)
    ensures
        match outcome {
            Ok(events) => conversion(opening, reply@, policy) == Ok::<
                Seq<EventModel>,
                LbConvError,
            >(events_view(events@)),
            Err(cause) => conversion(opening, reply@, policy) == Err::<
                Seq<EventModel>,
                LbConvError,
            >(cause),
        },
{
    let ghost bytes = reply@;
    let mut conn = ByteStream::new(reply);
    let mut session = WorkerSession::new(policy);
    match opening {
        Ok(_) => {
            let _ = session.advance(WorkerEvent::Connected);
            let _ = session.advance(WorkerEvent::RequestSent);
            match conn.read_exact(PREFIX_LEN) {
                Some(count) => {
                    let _ = session.advance(WorkerEvent::RowCount { hi: count[0], lo: count[1] });
                },
                None => {
                    let _ = session.advance(WorkerEvent::Failed(LbConvError::ContainerIoError));
                },
            }
        },
        Err(cause) => {
            let _ = session.advance(WorkerEvent::Failed(cause));
        },
    }
    if let Directive::Abort(cause) = session.directive() {
        return Err(cause);
    }
    let ghost declared = be_u16(bytes[0], bytes[1]);
    let ghost total = exposed_rows(declared);
    let ghost full = events_from(bytes, 2, rows_to_pull(declared), total, policy);
    let mut events: Vec<StreamEvent> = Vec::new();
    let mut streaming = true;
    assert(events_view(events@) =~= Seq::<EventModel>::empty());
    while streaming
        invariant
            conn.bytes() == bytes,
            session_inv(session@),
            session@.policy == policy,
            session@.total_rows == total,
            session@.state is Streaming || session@.state is Done,
            streaming == (session@.state is Streaming),
            full == events_view(events@) + (match session@.state {
                SessionState::Streaming { rows_remaining } => events_from(
                    bytes,
                    conn.position(),
                    rows_remaining as nat,
                    total,
                    policy,
                ),
                _ => Seq::<EventModel>::empty(),
            }),
        decreases
            (match session@.state {
                SessionState::Streaming { rows_remaining } => rows_remaining as int,
                _ => 0,
            }),
    {
        let ghost before = events_view(events@);
        let ghost pos = conn.position();
        let ghost left = session@.state->rows_remaining as nat;
        match receive_list_row(&mut conn, &mut session) {
            Some(event) => {
                events.push(event);
                proof {
                    let rest = match session@.state {
                        SessionState::Streaming { rows_remaining } => events_from(
                            bytes,
                            conn.position(),
                            rows_remaining as nat,
                            total,
                            policy,
                        ),
                        _ => Seq::<EventModel>::empty(),
                    };
                    assert(events_view(events@) =~= before + seq![event@]);
                    assert(events_from(bytes, pulled_next(bytes, pos), 0, total, policy)
                        =~= Seq::<EventModel>::empty());
                    assert(events_from(bytes, pos, left, total, policy) =~= seq![event@] + rest);
                    assert(before + (seq![event@] + rest) =~= (before + seq![event@]) + rest);
                }
            },
            None => {},
        }
        streaming = match session.state() {
            SessionState::Streaming { .. } => true,
            _ => false,
        };
    }
    assert(events_view(events@) =~= full);
    Ok(events)
}

} // verus!
