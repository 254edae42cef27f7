//! Stream adapter: the event that the client is sent for a classified row.

use vstd::prelude::*;
use vstd::string::*;
use crate::srv_io::row::ClassifiedRow;
use crate::srv_io::row::RowModel;
use crate::types::lb_app_types::ListRow;
use crate::types::lb_app_types::ListRowModel;

verus! {

/// One event of the response stream.
#[derive(Debug, Clone, PartialEq, Eq)]
pub enum StreamEvent {
    /// An event of the default kind. Its payload is the row.
    Message(ListRow),
    /// An event of kind `complete`, with the payload `done!`.
    Complete,
    /// An event of kind `error`, with the payload `data`.
    Error { data: String },
}

/// An event with its texts as character sequences.
pub enum EventModel {
    Message(ListRowModel),
    Complete,
    Error { data: Seq<char> },
}

impl View for StreamEvent {
    type V = EventModel;

    open spec fn view(&self) -> EventModel {
        match self {
            StreamEvent::Message(row) => EventModel::Message(row@),
            StreamEvent::Complete => EventModel::Complete,
            StreamEvent::Error { data } => EventModel::Error { data: data@ },
        }
    }
}

/// The views of a sequence of events, in order.
pub open spec fn events_view(events: Seq<StreamEvent>) -> Seq<EventModel> {
    events.map_values(|e: StreamEvent| e@)
}

/// The payload of the error event for a failure that is not the worker's
/// own report. It gives away nothing about the cause.
pub open spec fn server_error_text() -> Seq<char> {
    "500 INTERNAL SERVER ERROR"@
}

/// The payload of the completion event.
pub open spec fn completion_text() -> Seq<char> {
    "done!"@
}

/// The event for a classified row, where `total_rows` is the number of
/// content lines that the client was promised.
pub open spec fn event_of(row: RowModel, total_rows: nat) -> EventModel {
    match row {
        RowModel::Data { row_text } => EventModel::Message(
            ListRowModel { total_rows, row_data: row_text },
        ),
        RowModel::Completion => EventModel::Complete,
        RowModel::AppError { code, message } => EventModel::Error { data: message },
        RowModel::TransportError => EventModel::Error { data: server_error_text() },
    }
}

/// The kind that an event is sent under. A content line goes under the
/// default kind, which has no name.
pub open spec fn event_name_of(event: EventModel) -> Option<Seq<char>> {
    match event {
        EventModel::Message(_) => None,
        EventModel::Complete => Some("complete"@),
        EventModel::Error { .. } => Some("error"@),
    }
}

/// The payload of an event that carries plain text. The payload of a
/// content line is its row, which is not put into text here.
pub open spec fn event_text_of(event: EventModel) -> Option<Seq<char>> {
    match event {
        EventModel::Message(_) => None,
        EventModel::Complete => Some(completion_text()),
        EventModel::Error { data } => Some(data),
    }
}

impl StreamEvent {
    /// The kind that the event is sent under, if it is not the default kind.
    pub fn event_name(&self) -> (name: Option<&'static str>)
        ensures
            match name {
                Some(n) => event_name_of(self@) == Some(n@),
                None => event_name_of(self@) is None,
            },
    {
        match self {
            StreamEvent::Message(_) => None,
            StreamEvent::Complete => Some("complete"),
            StreamEvent::Error { .. } => Some("error"),
        }
    }

    /// The text that the event carries, if its payload is plain text.
    pub fn text(&self) -> (text: Option<String>)
        ensures
            match text {
                Some(t) => event_text_of(self@) == Some(t@),
                None => event_text_of(self@) is None,
            },
    {
        match self {
            StreamEvent::Message(_) => None,
            StreamEvent::Complete => Some("done!".to_owned()),
            StreamEvent::Error { data } => Some(data.clone()),
        }
    }
}

/// The error event for a failure on this side of the connection.
pub fn build_server_err_event() -> (event: StreamEvent)
    ensures
        event@ == (EventModel::Error { data: server_error_text() }),
{
    StreamEvent::Error { data: "500 INTERNAL SERVER ERROR".to_owned() }
}

/// The error event that hands the worker's own report on, unchanged.
pub fn build_python_app_err_event(err_msg: String) -> (event: StreamEvent)
    ensures
        event@ == (EventModel::Error { data: err_msg@ }),
{
    StreamEvent::Error { data: err_msg }
}

/// Turns a classified row into the event that the client is sent.
pub fn stream_event(row: ClassifiedRow, total_rows: usize) -> (event: StreamEvent)
    ensures
        event@ == event_of(row@, total_rows as nat),
{
    match row {
        ClassifiedRow::Data { row_text } => StreamEvent::Message(
            ListRow { total_rows, row_data: row_text },
        ),
        ClassifiedRow::Completion => StreamEvent::Complete,
        ClassifiedRow::AppError { code, message } => build_python_app_err_event(message),
        ClassifiedRow::TransportError => build_server_err_event(),
    }
}

} // verus!
