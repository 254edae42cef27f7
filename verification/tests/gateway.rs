use custom_backend::srv_io::event::StreamEvent;
use custom_backend::srv_io::frame::ByteStream;
use custom_backend::srv_io::lb_app_io::convert_lb_list;
use custom_backend::srv_io::lb_app_io::receive_list_row;
use custom_backend::srv_io::lb_app_io::LbConvError;
use custom_backend::srv_io::session::ErrorPolicy;
use custom_backend::srv_io::session::SessionState;
use custom_backend::srv_io::session::WorkerEvent;
use custom_backend::srv_io::session::WorkerSession;
use custom_backend::types::lb_app_types::ListRow;

fn frame(payload: &[u8]) -> Vec<u8> {
    let mut out = vec![(payload.len() / 256) as u8, (payload.len() % 256) as u8];
    out.extend_from_slice(payload);
    out
}

fn reply(declared: u16, frames: &[&str]) -> Vec<u8> {
    let mut out = declared.to_be_bytes().to_vec();
    for text in frames {
        out.extend(frame(text.as_bytes()));
    }
    out
}

fn row(total_rows: usize, text: &str) -> StreamEvent {
    StreamEvent::Message(ListRow { total_rows, row_data: String::from(text) })
}

fn error(text: &str) -> StreamEvent {
    StreamEvent::Error { data: String::from(text) }
}

fn stream(sent: Vec<u8>) -> Vec<StreamEvent> {
    convert_lb_list(Ok(()), sent, ErrorPolicy::StopAtError).unwrap()
}

fn first_is_error_with(events: &[StreamEvent], needle: &str) {
    assert_eq!(events[0].event_name(), Some("error"));
    assert!(events[0].text().unwrap().contains(needle));
}

#[test]
fn too_long_list_req() {
    let events = stream(reply(0, &["-- 403 FORBIDDEN -- the list holds too many films"]));
    first_is_error_with(&events, "403 FORBIDDEN");
}

#[test]
fn lb_server_down_req() {
    let events = stream(reply(0, &["-- 502 BAD GATEWAY -- letterboxd.com is down"]));
    first_is_error_with(&events, "502 BAD GATEWAY");
}

#[test]
fn bad_list_req() {
    let events = stream(reply(0, &["-- 422 UNPROCESSABLE CONTENT -- no such list"]));
    first_is_error_with(&events, "422 UNPROCESSABLE CONTENT");
}

#[test]
fn req_to_crashed_app() {
    // The worker declares its rows and dies before it sends a frame.
    let events = stream(reply(3, &[]));
    first_is_error_with(&events, "500 INTERNAL SERVER ERROR");
    assert_eq!(events, vec![error("500 INTERNAL SERVER ERROR")]);
}

#[test]
fn bad_attr_req() {
    let events = stream(reply(0, &["-- 422 UNPROCESSABLE CONTENT -- bad attribute"]));
    first_is_error_with(&events, "422 UNPROCESSABLE CONTENT");
    assert_eq!(events, vec![error("-- 422 UNPROCESSABLE CONTENT -- bad attribute")]);
}

#[test]
fn no_attr_req() {
    let sent = reply(
        4,
        &[
            "Title,Year",
            "2001: A Space Odyssey,1968",
            "Blade Runner,1982",
            "The Players vs. Ángeles Caídos,1969",
            "8½,1963",
            "done!",
        ],
    );
    let events = stream(sent);
    let correct_rows = vec![
        ListRow { total_rows: 5, row_data: String::from("Title,Year") },
        ListRow { total_rows: 5, row_data: String::from("2001: A Space Odyssey,1968") },
        ListRow { total_rows: 5, row_data: String::from("Blade Runner,1982") },
        ListRow { total_rows: 5, row_data: String::from("The Players vs. Ángeles Caídos,1969") },
        ListRow { total_rows: 5, row_data: String::from("8½,1963") },
    ];
    let mut received_rows: Vec<ListRow> = Vec::new();
    for event in &events[..events.len() - 1] {
        match event {
            StreamEvent::Message(row) => received_rows.push(row.clone()),
            other => panic!("not a content line: {:?}", other),
        }
    }
    assert_eq!(correct_rows, received_rows);
    assert_eq!(events.len(), 6);
    assert_eq!(events[5], StreamEvent::Complete);
    assert_eq!(events[5].event_name(), Some("complete"));
    assert_eq!(events[5].text(), Some(String::from("done!")));
    assert_eq!(events[0].event_name(), None);
    assert_eq!(events[0].text(), None);
}

#[test]
fn big_list_req() {
    let mut lines: Vec<String> = vec![String::from("Title,Year,Cast,Watches,Likes\n")];
    for i in 0..1500 {
        let cast = "Ángeles Caídos; 黒澤明; Ἀριστοτέλης; ".repeat(1 + i % 40);
        lines.push(format!("Film number {i},{},\"{cast}\",{},{}\n", 1900 + i % 120, i * 7, i * 3));
    }
    let mut sent = 1500u16.to_be_bytes().to_vec();
    for line in &lines {
        sent.extend(frame(line.as_bytes()));
    }
    sent.extend(frame(b"done!"));
    let correct_list = lines.concat();

    let events = stream(sent);
    assert_eq!(events.len(), 1502);
    let mut received_list = String::new();
    for event in &events[..1501] {
        match event {
            StreamEvent::Message(row) => {
                assert_eq!(row.total_rows, 1501);
                received_list.push_str(&row.row_data);
            },
            other => panic!("not a content line: {:?}", other),
        }
    }
    assert_eq!(correct_list, received_list);
    assert_eq!(events[1501], StreamEvent::Complete);
}

#[test]
fn row_count_accounting_for_small_counts() {
    for declared in [0u16, 1, 2, 7] {
        let mut texts: Vec<String> = vec![String::from("Title")];
        for i in 0..declared {
            texts.push(format!("Film {i}"));
        }
        texts.push(String::from("done!"));
        let borrowed: Vec<&str> = texts.iter().map(|t| t.as_str()).collect();
        for policy in [ErrorPolicy::StopAtError, ErrorPolicy::KeepPulling] {
            let events = convert_lb_list(Ok(()), reply(declared, &borrowed), policy).unwrap();
            assert_eq!(events.len(), declared as usize + 2);
            for (i, event) in events.iter().enumerate() {
                if i <= declared as usize {
                    assert_eq!(*event, row(declared as usize + 1, &texts[i]));
                } else {
                    assert_eq!(*event, StreamEvent::Complete);
                }
            }
        }
    }
}

#[test]
fn row_count_accounting_counts_frame_reads() {
    let sent = reply(2, &["Title", "A", "B", "done!"]);
    let mut conn = ByteStream::new(sent);
    assert_eq!(conn.read_exact(2), Some(vec![0, 2]));
    let mut session = WorkerSession::new(ErrorPolicy::StopAtError);
    session.advance(WorkerEvent::Connected);
    session.advance(WorkerEvent::RequestSent);
    session.advance(WorkerEvent::RowCount { hi: 0, lo: 2 });
    let mut reads = 0;
    while receive_list_row(&mut conn, &mut session).is_some() {
        reads += 1;
    }
    assert_eq!(reads, 4);
    assert_eq!(session.state(), SessionState::Done);
    assert_eq!(conn.remaining(), 0);
    assert_eq!(session.stream_state().unwrap().rows_emitted, 4);
    assert_eq!(session.stream_state().unwrap().total_rows, 3);
    assert!(session.stream_state().unwrap().terminated);
}

#[test]
fn largest_row_count_is_annotated_without_overflow() {
    let events = stream(reply(65535, &["Title", "done!"]));
    assert_eq!(events, vec![row(65536, "Title"), StreamEvent::Complete]);
}

#[test]
fn utf8_rows_arrive_byte_for_byte() {
    let texts = [
        "",
        "plain ascii",
        "Ángeles Caídos",
        "七人の侍,1954",
        "ᏣᎳᎩ ᎦᏬᏂᎯᏍᏗ",
        "മനുഷ്യരെല്ലാവരും",
        "emoji 🎬 and \u{10FFFF}",
        " - not a marker",
        "-one hyphen",
        "done",
        "Done!",
    ];
    for text in texts {
        let events = stream(reply(0, &[text, "done!"]));
        match &events[0] {
            StreamEvent::Message(row) => {
                assert_eq!(row.row_data.as_bytes(), text.as_bytes());
                assert_eq!(row.total_rows, 1);
            },
            other => panic!("not a content line: {:?}", other),
        }
        assert_eq!(events[1], StreamEvent::Complete);
    }
}

#[test]
fn longest_frame_arrives_whole() {
    let text = "é".repeat(32767) + "x";
    assert_eq!(text.len(), 65535);
    let events = stream(reply(0, &[&text, "done!"]));
    assert_eq!(events, vec![row(1, &text), StreamEvent::Complete]);
}

#[test]
fn worker_unreachable_gives_one_error_and_no_event() {
    for cause in [
        LbConvError::EnvVarError,
        LbConvError::ContainerIoError,
        LbConvError::JsonParseError,
    ] {
        for policy in [ErrorPolicy::StopAtError, ErrorPolicy::KeepPulling] {
            let outcome = convert_lb_list(Err(cause), reply(1, &["Title", "A", "done!"]), policy);
            assert_eq!(outcome, Err(cause));
        }
    }
}

#[test]
fn missing_row_count_is_a_failure_before_the_stream() {
    assert_eq!(
        convert_lb_list(Ok(()), vec![], ErrorPolicy::StopAtError),
        Err(LbConvError::ContainerIoError)
    );
    assert_eq!(
        convert_lb_list(Ok(()), vec![0], ErrorPolicy::KeepPulling),
        Err(LbConvError::ContainerIoError)
    );
}

#[test]
fn failure_in_the_stream_is_an_event_and_no_error_response() {
    let mut sent = reply(2, &["Title", "A"]);
    sent.extend_from_slice(&[0, 9, b'c', b'u', b't']);
    let events = stream(sent);
    assert_eq!(events, vec![row(3, "Title"), row(3, "A"), error("500 INTERNAL SERVER ERROR")]);
}

#[test]
fn one_byte_of_a_length_prefix_gives_the_server_error_event() {
    let mut sent = reply(1, &["Title"]);
    sent.push(0);
    let events = stream(sent);
    assert_eq!(events, vec![row(2, "Title"), error("500 INTERNAL SERVER ERROR")]);

    let events = stream(vec![0, 0, 7]);
    assert_eq!(events, vec![error("500 INTERNAL SERVER ERROR")]);
}

#[test]
fn invalid_utf8_gives_the_server_error_event() {
    let mut sent = 0u16.to_be_bytes().to_vec();
    sent.extend(frame(&[b'o', b'k', 0xff, 0xfe]));
    sent.extend(frame(b"done!"));
    let events = stream(sent);
    assert_eq!(events, vec![error("500 INTERNAL SERVER ERROR")]);
}

#[test]
fn keep_pulling_asks_for_every_declared_frame() {
    let sent = reply(1, &["-- 500 INTERNAL SERVER ERROR -- boom", "Title", "done!"]);
    let events = convert_lb_list(Ok(()), sent, ErrorPolicy::KeepPulling).unwrap();
    assert_eq!(
        events,
        vec![error("-- 500 INTERNAL SERVER ERROR -- boom"), row(2, "Title"), StreamEvent::Complete]
    );

    let events = convert_lb_list(Ok(()), reply(2, &["Title"]), ErrorPolicy::KeepPulling).unwrap();
    assert_eq!(
        events,
        vec![
            row(3, "Title"),
            error("500 INTERNAL SERVER ERROR"),
            error("500 INTERNAL SERVER ERROR"),
            error("500 INTERNAL SERVER ERROR"),
        ]
    );
}

#[test]
fn stop_at_error_ends_on_the_first_failure() {
    let sent = reply(1, &["Title", "-- 400 BAD REQUEST -- nope", "done!"]);
    let events = stream(sent);
    assert_eq!(events, vec![row(2, "Title"), error("-- 400 BAD REQUEST -- nope")]);
}

#[test]
fn completion_ends_the_stream_before_the_count_is_used_up() {
    let sent = reply(5, &["Title", "done!", "never read"]);
    for policy in [ErrorPolicy::StopAtError, ErrorPolicy::KeepPulling] {
        let events = convert_lb_list(Ok(()), sent.clone(), policy).unwrap();
        assert_eq!(events, vec![row(6, "Title"), StreamEvent::Complete]);
    }
}

#[test]
fn worker_that_never_completes_is_cut_off_at_the_count() {
    let sent = reply(1, &["Title", "A", "B", "C"]);
    let events = stream(sent);
    assert_eq!(events, vec![row(2, "Title"), row(2, "A"), row(2, "B")]);
}

#[test]
fn pull_outside_the_stream_reads_nothing() {
    let mut conn = ByteStream::new(frame(b"Title"));
    let mut session = WorkerSession::new(ErrorPolicy::StopAtError);
    assert_eq!(receive_list_row(&mut conn, &mut session), None);
    assert_eq!(conn.remaining(), 7);
    assert_eq!(session.state(), SessionState::Connecting);
}
