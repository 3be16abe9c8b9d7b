use lte_modem::at::{classify, read_response, send_at_command, LineKind};
use lte_modem::error::Error;
use lte_modem::session::{advance, is_command, read_lines, Event, Progress, Session};

fn data(text: &str) -> Event {
    Event::Data(text.as_bytes().to_vec())
}

fn lines(texts: &[&str]) -> Vec<Vec<u8>> {
    texts.iter().map(|t| t.as_bytes().to_vec()).collect()
}

/// Runs a command over the events and gives the last session and every line
/// that was handed out, in order.
fn exchange(command: &[u8], events: &[Event]) -> (Session<()>, Vec<Vec<u8>>) {
    let mut session = Session::Open;
    let mut handed = Vec::new();
    for event in events {
        let (next, mut lines) = send_at_command(command, session, event);
        session = next;
        handed.append(&mut lines);
    }
    (session, handed)
}

#[test]
fn classify_tells_the_four_kinds() {
    assert_eq!(classify(b"OK"), LineKind::Success);
    assert_eq!(classify(b"ERROR"), LineKind::Failure);
    assert_eq!(classify(b""), LineKind::Blank);
    assert_eq!(classify(b"+CEREG: 1"), LineKind::Informational);
}

#[test]
fn classify_takes_ok_only_as_the_whole_line() {
    assert_eq!(classify(b"OKAY"), LineKind::Informational);
    assert_eq!(classify(b"OK 1"), LineKind::Informational);
    assert_eq!(classify(b"ok"), LineKind::Informational);
    assert_eq!(classify(b"O"), LineKind::Informational);
}

#[test]
fn classify_takes_error_as_a_prefix() {
    assert_eq!(classify(b"ERROR: 516"), LineKind::Failure);
    assert_eq!(classify(b"ERRORS"), LineKind::Failure);
    assert_eq!(classify(b"ERRO"), LineKind::Informational);
    assert_eq!(classify(b"+CME ERROR: 3"), LineKind::Informational);
}

#[test]
fn read_lines_drops_the_last_byte_and_trims() {
    let expected: Vec<&[u8]> = vec![b"+CEREG: 2", b"", b"OK"];
    assert_eq!(read_lines(b" +CEREG: 2\r\n\r\nOK\r\n"), expected);
    assert_eq!(read_lines(b" +CEREG: 2\r\n\r\nOK\r\n\0"), expected);
}

#[test]
fn read_lines_takes_the_last_byte_for_the_end_of_the_text() {
    let expected: Vec<&[u8]> = vec![b"O"];
    assert_eq!(read_lines(b"OK"), expected);
    assert!(read_lines(b"").is_empty());
    assert!(read_lines(b"K").is_empty());
}

#[test]
fn read_response_stops_at_ok() {
    let (handed, end) = read_response(b"one\r\n two \r\nOK\r\nthree\r\n");
    assert_eq!(handed, lines(&["one", "two"]));
    assert_eq!(end, Some(Ok(())));
}

#[test]
fn read_response_stops_at_error_and_keeps_the_line() {
    let (handed, end) = read_response(b"one\r\nERROR: 7 \r\ntwo\r\nOK\r\n");
    assert_eq!(handed, lines(&["one"]));
    assert_eq!(end, Some(Err(Error::CommandRejected(b"ERROR: 7".to_vec()))));
}

#[test]
fn read_response_without_terminal_line_goes_on() {
    let (handed, end) = read_response(b"\r\none\r\n\r\n");
    assert_eq!(handed, lines(&["one"]));
    assert_eq!(end, None);
}

#[test]
fn read_response_of_nothing_hands_out_nothing() {
    let (handed, end) = read_response(b"");
    assert!(handed.is_empty());
    assert_eq!(end, None);
}

#[test]
fn is_command_refuses_line_endings() {
    assert!(is_command(b"AT+CFUN=1"));
    assert!(is_command(b""));
    assert!(!is_command(b"AT\r"));
    assert!(!is_command(b"AT\nAT"));
    assert!(!is_command(b"\r\n"));
}

#[test]
fn advance_opens_writes_and_receives() {
    assert!(matches!(
        advance::<()>(b"AT", Session::Open, &Event::Opened),
        Progress::Next(Session::Write(command)) if command == b"AT"
    ));
    assert!(matches!(
        advance::<()>(b"AT", Session::Write(b"AT".to_vec()), &Event::Written),
        Progress::Next(Session::Receive)
    ));
    assert!(matches!(
        advance::<()>(b"AT", Session::Receive, &Event::NoData),
        Progress::Next(Session::Wait)
    ));
    assert!(matches!(
        advance::<()>(b"AT", Session::Wait, &Event::NoData),
        Progress::Next(Session::Wait)
    ));
}

#[test]
fn advance_leaves_data_to_the_operation() {
    let event = data("OK\r\n");
    assert!(matches!(
        advance::<()>(b"AT", Session::Receive, &event),
        Progress::Data(bytes) if bytes == b"OK\r\n"
    ));
    assert!(matches!(
        advance::<()>(b"AT", Session::Wait, &event),
        Progress::Data(bytes) if bytes == b"OK\r\n"
    ));
}

#[test]
fn advance_keeps_a_closed_session() {
    assert!(matches!(
        advance(b"AT", Session::Closed(Ok(7u8)), &Event::NoData),
        Progress::Next(Session::Closed(Ok(7u8)))
    ));
    assert!(matches!(
        advance::<()>(b"AT", Session::Closed(Err(Error::UnrecognisedValue)), &data("OK\r\n")),
        Progress::Next(Session::Closed(Err(Error::UnrecognisedValue)))
    ));
}

#[test]
fn command_is_written_as_given() {
    let (session, handed) = exchange(b"AT+CGMR", &[Event::Opened]);
    assert_eq!(session, Session::Write(b"AT+CGMR".to_vec()));
    assert!(handed.is_empty());
}

#[test]
fn ok_after_two_lines_is_success_and_hands_out_two() {
    let (session, handed) = exchange(
        b"AT+CGMR",
        &[Event::Opened, Event::Written, data("first\r\nsecond\r\nOK\r\n")],
    );
    assert_eq!(session, Session::Closed(Ok(())));
    assert_eq!(handed, lines(&["first", "second"]));
}

#[test]
fn lines_arrive_in_order_over_several_receives() {
    let (session, handed) = exchange(
        b"AT+CGMR",
        &[
            Event::Opened,
            Event::Written,
            Event::NoData,
            data("first\r\n"),
            Event::NoData,
            Event::NoData,
            data("second\r\nthird\r\n"),
            data("\r\nOK\r\nfourth\r\n"),
            data("fifth\r\n"),
        ],
    );
    assert_eq!(session, Session::Closed(Ok(())));
    assert_eq!(handed, lines(&["first", "second", "third"]));
}

#[test]
fn error_at_once_is_command_rejected_with_the_text() {
    let (session, handed) = exchange(b"AT+BAD", &[Event::Opened, Event::Written, data("ERROR\r\n")]);
    assert_eq!(session, Session::Closed(Err(Error::CommandRejected(b"ERROR".to_vec()))));
    assert!(handed.is_empty());
}

#[test]
fn error_line_is_carried_whole() {
    let (session, handed) = exchange(
        b"AT+BAD",
        &[Event::Opened, Event::Written, data("note\r\n  ERROR: 516\r\nOK\r\n")],
    );
    assert_eq!(session, Session::Closed(Err(Error::CommandRejected(b"ERROR: 516".to_vec()))));
    assert_eq!(handed, lines(&["note"]));
}

#[test]
fn open_failure_ends_before_any_write() {
    let (session, handed) = exchange(b"AT", &[Event::OpenFailed]);
    assert_eq!(session, Session::Closed(Err(Error::TransportUnavailable)));
    assert!(handed.is_empty());
}

#[test]
fn write_failure_ends_before_any_receive() {
    let (session, handed) = exchange(b"AT", &[Event::Opened, Event::WriteFailed]);
    assert_eq!(session, Session::Closed(Err(Error::TransportWriteError)));
    assert!(handed.is_empty());
}

#[test]
fn read_failure_ends_the_exchange() {
    let (session, handed) = exchange(
        b"AT",
        &[Event::Opened, Event::Written, data("first\r\n"), Event::ReadFailed],
    );
    assert_eq!(session, Session::Closed(Err(Error::TransportReadError)));
    assert_eq!(handed, lines(&["first"]));
}

#[test]
fn no_data_never_ends_the_exchange() {
    let mut session = Session::Receive;
    for _ in 0..1000 {
        let (next, handed) = send_at_command(b"AT", session, &Event::NoData);
        assert_eq!(next, Session::Wait);
        assert!(handed.is_empty());
        session = next;
    }
    let (next, handed) = send_at_command(b"AT", session, &data("late\r\nOK\r\n"));
    assert_eq!(next, Session::Closed(Ok(())));
    assert_eq!(handed, lines(&["late"]));
}

#[test]
fn data_without_terminal_line_keeps_receiving() {
    let (next, handed) = send_at_command(b"AT", Session::Wait, &data("+CEREG: 2\r\n"));
    assert_eq!(next, Session::Receive);
    assert_eq!(handed, lines(&["+CEREG: 2"]));
}

#[test]
fn an_event_out_of_turn_is_the_failure_of_the_call() {
    assert_eq!(
        send_at_command(b"AT", Session::Open, &Event::Written).0,
        Session::Closed(Err(Error::TransportUnavailable))
    );
    assert_eq!(
        send_at_command(b"AT", Session::Open, &data("OK\r\n")).0,
        Session::Closed(Err(Error::TransportUnavailable))
    );
    assert_eq!(
        send_at_command(b"AT", Session::Write(b"AT".to_vec()), &Event::Opened).0,
        Session::Closed(Err(Error::TransportWriteError))
    );
    assert_eq!(
        send_at_command(b"AT", Session::Write(b"AT".to_vec()), &Event::NoData).0,
        Session::Closed(Err(Error::TransportWriteError))
    );
    assert_eq!(
        send_at_command(b"AT", Session::Receive, &Event::Opened).0,
        Session::Closed(Err(Error::TransportReadError))
    );
    assert_eq!(
        send_at_command(b"AT", Session::Wait, &Event::WriteFailed).0,
        Session::Closed(Err(Error::TransportReadError))
    );
}

#[test]
fn a_closed_exchange_stays_closed() {
    let closed = Session::Closed(Err(Error::CommandRejected(b"ERROR".to_vec())));
    let (next, handed) = send_at_command(b"AT", closed, &data("more\r\nOK\r\n"));
    assert_eq!(next, Session::Closed(Err(Error::CommandRejected(b"ERROR".to_vec()))));
    assert!(handed.is_empty());
    let (next, handed) = send_at_command(b"AT", Session::Closed(Ok(())), &Event::ReadFailed);
    assert_eq!(next, Session::Closed(Ok(())));
    assert!(handed.is_empty());
}
