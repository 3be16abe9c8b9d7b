//! The operations on the modem: power, radio mode and the wait for the
//! network.
//!
//! Each operation takes a session and the latest event and gives the session
//! that follows. A caller begins with `Session::Open` (for the mode query,
//! with `ModeQuery::new()`), makes the call that the session names, and hands
//! in what the call gave, until the session is closed.

use vstd::prelude::*;
use crate::at::{contents, failure_line, informational, lemma_first_terminal, next_exchange, not_blank, read_response, send_at_command, terminal_line, verdict};
use crate::error::{Error, ErrorView};
use crate::session::{Event, Progress, Session, SessionView, advance, lines_brought, lines_in, next_transport, read_lines, receives};
use crate::text::{ascii, bytes_of, starts_with, views};

verus! {

/// Which radios of the modem are active.
#[derive(Debug, Copy, Clone, PartialEq, Eq, Structural)]
pub enum SystemMode {
    /// LTE-M only
    LteM,
    /// NB-IoT only
    NbIot,
    /// GNSS only
    GnssOnly,
    /// LTE-M and GNSS
    LteMAndGnss,
    /// NB-IoT and GNSS
    NbIotAndGnss,
}

/// Powers the modem on and lets it register by itself. Does not wait for the
/// network.
pub fn on(session: Session<()>, event: &Event) -> (next: Session<()>)
    ensures
        next@ == next_exchange(ascii("AT+CFUN=1"@), session@, *event),
{
    proof {
        reveal_strlit("AT+CFUN=1");
    }
    send_at_command(bytes_of("AT+CFUN=1"), session, event).0
}

/// Puts the modem into flight mode.
pub fn flight_mode(session: Session<()>, event: &Event) -> (next: Session<()>)
    ensures
        next@ == next_exchange(ascii("AT+CFUN=4"@), session@, *event),
{
    proof {
        reveal_strlit("AT+CFUN=4");
    }
    send_at_command(bytes_of("AT+CFUN=4"), session, event).0
}

/// Powers the modem off.
pub fn off(session: Session<()>, event: &Event) -> (next: Session<()>)
    ensures
        next@ == next_exchange(ascii("AT+CFUN=0"@), session@, *event),
{
    proof {
        reveal_strlit("AT+CFUN=0");
    }
    send_at_command(bytes_of("AT+CFUN=0"), session, event).0
}

/// The command that sets a radio mode. Its four fields stand for LTE-M,
/// NB-IoT, GNSS and the preference, which is left at 0.
pub open spec fn set_mode_command(mode: SystemMode) -> Seq<u8> {
    match mode {
        SystemMode::LteM => ascii("AT%XSYSTEMMODE=1,0,0,0"@),
        SystemMode::NbIot => ascii("AT%XSYSTEMMODE=0,1,0,0"@),
        SystemMode::GnssOnly => ascii("AT%XSYSTEMMODE=0,0,1,0"@),
        SystemMode::LteMAndGnss => ascii("AT%XSYSTEMMODE=1,0,1,0"@),
        SystemMode::NbIotAndGnss => ascii("AT%XSYSTEMMODE=0,1,1,0"@),
    }
}

/// Sets which radios are active. The modem takes this only while it is off;
/// where it refuses, the session closes with the error line.
pub fn set_system_mode(mode: SystemMode, session: Session<()>, event: &Event) -> (next: Session<()>)
    ensures
        next@ == next_exchange(set_mode_command(mode), session@, *event),
{
    proof {
        reveal_strlit("AT%XSYSTEMMODE=1,0,0,0");
        reveal_strlit("AT%XSYSTEMMODE=0,1,0,0");
        reveal_strlit("AT%XSYSTEMMODE=0,0,1,0");
        reveal_strlit("AT%XSYSTEMMODE=1,0,1,0");
        reveal_strlit("AT%XSYSTEMMODE=0,1,1,0");
    }
    let command = match mode {
        SystemMode::LteM => bytes_of("AT%XSYSTEMMODE=1,0,0,0"),
        SystemMode::NbIot => bytes_of("AT%XSYSTEMMODE=0,1,0,0"),
        SystemMode::GnssOnly => bytes_of("AT%XSYSTEMMODE=0,0,1,0"),
        SystemMode::LteMAndGnss => bytes_of("AT%XSYSTEMMODE=1,0,1,0"),
        SystemMode::NbIotAndGnss => bytes_of("AT%XSYSTEMMODE=0,1,1,0"),
    };
    send_at_command(command, session, event).0
}

/// What the answer to the mode query begins with for each mode: the name,
/// then the fields for LTE-M, NB-IoT and GNSS. The preference follows and
/// says nothing of the mode.
pub open spec fn mode_report(mode: SystemMode) -> Seq<u8> {
    match mode {
        SystemMode::LteM => ascii("%XSYSTEMMODE: 1,0,0,"@),
        SystemMode::NbIot => ascii("%XSYSTEMMODE: 0,1,0,"@),
        SystemMode::GnssOnly => ascii("%XSYSTEMMODE: 0,0,1,"@),
        SystemMode::LteMAndGnss => ascii("%XSYSTEMMODE: 1,0,1,"@),
        SystemMode::NbIotAndGnss => ascii("%XSYSTEMMODE: 0,1,1,"@),
    }
}

/// The mode that a line reports, if it reports one.
pub open spec fn reported_mode(line: Seq<u8>) -> Option<SystemMode> {
    if mode_report(SystemMode::LteM).is_prefix_of(line) {
        Some(SystemMode::LteM)
    } else if mode_report(SystemMode::NbIot).is_prefix_of(line) {
        Some(SystemMode::NbIot)
    } else if mode_report(SystemMode::GnssOnly).is_prefix_of(line) {
        Some(SystemMode::GnssOnly)
    } else if mode_report(SystemMode::LteMAndGnss).is_prefix_of(line) {
        Some(SystemMode::LteMAndGnss)
    } else if mode_report(SystemMode::NbIotAndGnss).is_prefix_of(line) {
        Some(SystemMode::NbIotAndGnss)
    } else {
        None
    }
}

/// Reads the radio mode from a line of the answer to the mode query.
pub fn parse_system_mode(line: &[u8]) -> (out: Result<SystemMode, Error>)
    ensures
        match out {
            Ok(mode) => reported_mode(line@) == Some(mode),
            Err(e) => reported_mode(line@) is None && e@ == ErrorView::UnrecognisedValue,
        },
{
    proof {
        reveal_strlit("%XSYSTEMMODE: 1,0,0,");
        reveal_strlit("%XSYSTEMMODE: 0,1,0,");
        reveal_strlit("%XSYSTEMMODE: 0,0,1,");
        reveal_strlit("%XSYSTEMMODE: 1,0,1,");
        reveal_strlit("%XSYSTEMMODE: 0,1,1,");
    }
    if starts_with(line, bytes_of("%XSYSTEMMODE: 1,0,0,")) {
        Ok(SystemMode::LteM)
    } else if starts_with(line, bytes_of("%XSYSTEMMODE: 0,1,0,")) {
        Ok(SystemMode::NbIot)
    } else if starts_with(line, bytes_of("%XSYSTEMMODE: 0,0,1,")) {
        Ok(SystemMode::GnssOnly)
    } else if starts_with(line, bytes_of("%XSYSTEMMODE: 1,0,1,")) {
        Ok(SystemMode::LteMAndGnss)
    } else if starts_with(line, bytes_of("%XSYSTEMMODE: 0,1,1,")) {
        Ok(SystemMode::NbIotAndGnss)
    } else {
        Err(Error::UnrecognisedValue)
    }
}

/// The mode that the lines report: that of the last line that reports one,
/// and `found` where none does.
pub open spec fn latest_mode(found: Option<SystemMode>, lines: Seq<Seq<u8>>) -> Option<SystemMode>
    decreases lines.len(),
{
    if lines.len() == 0 {
        found
    } else {
        match reported_mode(lines.last()) {
            Some(mode) => Some(mode),
            None => latest_mode(found, lines.drop_last()),
        }
    }
}

/// The mode that the lines report: that of the last line that reports one,
/// and `found` where none does.
pub fn latest(found: Option<SystemMode>, lines: &Vec<Vec<u8>>) -> (out: Option<SystemMode>)
    ensures
        out == latest_mode(found, contents(lines@)),
{
    let mut out = found;
    let mut i: usize = 0;
    let ghost all = contents(lines@);
    assert(all.take(0) =~= Seq::<Seq<u8>>::empty());
    while i < lines.len()
        invariant
            i <= lines.len(),
            all == contents(lines@),
            out == latest_mode(found, all.take(i as int)),
        decreases lines.len() - i,
    {
        proof {
            assert(all.take(i + 1).drop_last() =~= all.take(i as int));
            assert(all.take(i + 1).last() == lines@[i as int]@);
        }
        match parse_system_mode(lines[i].as_slice()) {
            Ok(mode) => {
                out = Some(mode);
            },
            Err(_) => {},
        }
        i += 1;
    }
    assert(all.take(lines.len() as int) =~= all);
    out
}

/// The state of a mode query: its session, and the mode that the
/// informational lines have reported so far.
#[derive(Debug, PartialEq, Eq)]
pub struct ModeQuery {
    pub session: Session<SystemMode>,
    pub found: Option<SystemMode>,
}

/// A `ModeQuery` as a mathematical value.
pub struct ModeQueryView {
    pub session: SessionView<SystemMode>,
    pub found: Option<SystemMode>,
}

impl View for ModeQuery {
    type V = ModeQueryView;

    open spec fn view(&self) -> ModeQueryView {
        ModeQueryView { session: self.session@, found: self.found }
    }
}

impl ModeQuery {
    /// A query that has not begun: the transport is to be opened, and no mode
    /// has been reported.
    pub fn new() -> (query: ModeQuery)
        ensures
            query@ == (ModeQueryView { session: SessionView::Open, found: None }),
    {
        ModeQuery { session: Session::Open, found: None }
    }
}

/// The result of a mode query whose response ended with success: the mode
/// that was reported, or the error that none was.
pub open spec fn mode_result(found: Option<SystemMode>) -> Result<SystemMode, ErrorView> {
    match found {
        Some(mode) => Ok(mode),
        None => Err(ErrorView::UnrecognisedValue),
    }
}

/// The mode query after `event`.
///
/// The transport decides as for every operation, with `AT%XSYSTEMMODE?` as the
/// command. Data is read as the response to a command: the informational
/// lines may report a mode, of which the latest counts. A response that ends
/// with success closes the session with the mode reported, or with
/// `UnrecognisedValue` where no line has reported one; a response that ends
/// with an error line closes it with that line.
pub open spec fn next_mode_query(query: ModeQueryView, event: Event) -> ModeQueryView {
    match next_transport(ascii("AT%XSYSTEMMODE?"@), query.session, event) {
        Some(next) => ModeQueryView { session: next, found: query.found },
        None => {
            let lines = lines_brought(event);
            let found = latest_mode(query.found, informational(lines));
            let session = match verdict(lines) {
                None => SessionView::Receive,
                Some(Ok(_)) => SessionView::Closed(mode_result(found)),
                Some(Err(e)) => SessionView::Closed(Err(e)),
            };
            ModeQueryView { session, found }
        },
    }
}

/// Asks the modem which radios are active.
pub fn get_system_mode(query: ModeQuery, event: &Event) -> (next: ModeQuery)
    ensures
        next@ == next_mode_query(query@, *event),
{
    proof {
        reveal_strlit("AT%XSYSTEMMODE?");
    }
    let ModeQuery { session, found } = query;
    match advance(bytes_of("AT%XSYSTEMMODE?"), session, event) {
        Progress::Next(next) => ModeQuery { session: next, found },
        Progress::Data(data) => {
            let (lines, end) = read_response(data);
            let found = latest(found, &lines);
            let session = match end {
                None => Session::Receive,
                Some(Ok(_)) => Session::Closed(
                    match found {
                        Some(mode) => Ok(mode),
                        None => Err(Error::UnrecognisedValue),
                    },
                ),
                Some(Err(e)) => Session::Closed(Err(e)),
            };
            ModeQuery { session, found }
        },
    }
}

/// The command that asks the modem to report each change of its
/// registration.
pub open spec fn subscribe_command() -> Seq<u8> {
    ascii("AT+CEREG=2"@)
}

/// The line tells that the modem is registered, at home (1) or roaming (5),
/// with or without a space after the colon.
pub open spec fn connected_line(line: Seq<u8>) -> bool {
    ||| ascii("+CEREG: 1"@).is_prefix_of(line)
    ||| ascii("+CEREG:1"@).is_prefix_of(line)
    ||| ascii("+CEREG: 5"@).is_prefix_of(line)
    ||| ascii("+CEREG:5"@).is_prefix_of(line)
}

/// One of the lines tells that the modem is registered.
pub open spec fn connected(lines: Seq<Seq<u8>>) -> bool {
    exists|i: int| 0 <= i < lines.len() && connected_line(#[trigger] lines[i])
}

/// Tells whether a trimmed line says that the modem is registered.
pub fn is_connected_line(line: &[u8]) -> (r: bool)
    ensures
        r == connected_line(line@),
{
    proof {
        reveal_strlit("+CEREG: 1");
        reveal_strlit("+CEREG:1");
        reveal_strlit("+CEREG: 5");
        reveal_strlit("+CEREG:5");
    }
    starts_with(line, bytes_of("+CEREG: 1")) || starts_with(line, bytes_of("+CEREG:1"))
        || starts_with(line, bytes_of("+CEREG: 5")) || starts_with(line, bytes_of("+CEREG:5"))
}

/// Tells whether a line of the received data says that the modem is
/// registered.
pub fn brings_connection(data: &[u8]) -> (r: bool)
    ensures
        r == connected(lines_in(data@)),
{
    let lines = read_lines(data);
    let mut i: usize = 0;
    while i < lines.len()
        invariant
            i <= lines.len(),
            views(lines@) == lines_in(data@),
            forall|k: int| 0 <= k < i ==> !connected_line(#[trigger] lines_in(data@)[k]),
        decreases lines.len() - i,
    {
        assert(views(lines@)[i as int] == lines@[i as int]@);
        if is_connected_line(lines[i]) {
            return true;
        }
        i += 1;
    }
    false
}

/// The wait for the network after `event`.
///
/// The transport decides as for every operation, with the subscription as the
/// command. Data with a line that tells of the registration closes the
/// session with success; any other data leaves it receiving.
pub open spec fn next_registration(session: SessionView<()>, event: Event) -> SessionView<()> {
    match next_transport(subscribe_command(), session, event) {
        Some(next) => next,
        None => if connected(lines_brought(event)) {
            SessionView::Closed(Ok(()))
        } else {
            SessionView::Receive
        },
    }
}

/// Waits for the modem to connect to a network.
///
/// The session closes with success on the first data that tells of the
/// registration. It sets no limit to the wait: that is the caller's to do.
pub fn wait_for_lte(session: Session<()>, event: &Event) -> (next: Session<()>)
    ensures
        next@ == next_registration(session@, *event),
{
    proof {
        reveal_strlit("AT+CEREG=2");
    }
    match advance(bytes_of("AT+CEREG=2"), session, event) {
        Progress::Next(next) => next,
        Progress::Data(data) => if brings_connection(data) {
            Session::Closed(Ok(()))
        } else {
            Session::Receive
        },
    }
}

/// A line reports a mode exactly if it begins with what the answer begins
/// with for that mode: no line reports two modes.
pub proof fn lemma_reported_mode_is_exact(line: Seq<u8>, mode: SystemMode)
    ensures
        reported_mode(line) == Some(mode) <==> mode_report(mode).is_prefix_of(line),
{
    reveal_strlit("%XSYSTEMMODE: 1,0,0,");
    reveal_strlit("%XSYSTEMMODE: 0,1,0,");
    reveal_strlit("%XSYSTEMMODE: 0,0,1,");
    reveal_strlit("%XSYSTEMMODE: 1,0,1,");
    reveal_strlit("%XSYSTEMMODE: 0,1,1,");
    if line.len() >= 20 {
        let head = line.subrange(0, 20);
        assert(head[14] == line[14] && head[16] == line[16] && head[18] == line[18]);
    }
}

/// What a modem answers to the mode query once `command` has set its mode:
/// the name, the three fields as the command gave them, and a preference of
/// the modem's own.
pub open spec fn mode_answer(command: Seq<u8>, preference: Seq<u8>) -> Seq<u8> {
    ascii("%XSYSTEMMODE: "@) + command.subrange(15, 21) + preference
}

/// The mode that was set is the mode that is read back, whatever the
/// preference: the answer to a query that follows `set_mode_command(mode)`
/// reports `mode`.
pub proof fn lemma_mode_round_trip(mode: SystemMode, preference: Seq<u8>)
    ensures
        reported_mode(mode_answer(set_mode_command(mode), preference)) == Some(mode),
{
    reveal_strlit("%XSYSTEMMODE: ");
    reveal_strlit("AT%XSYSTEMMODE=1,0,0,0");
    reveal_strlit("AT%XSYSTEMMODE=0,1,0,0");
    reveal_strlit("AT%XSYSTEMMODE=0,0,1,0");
    reveal_strlit("AT%XSYSTEMMODE=1,0,1,0");
    reveal_strlit("AT%XSYSTEMMODE=0,1,1,0");
    reveal_strlit("%XSYSTEMMODE: 1,0,0,");
    reveal_strlit("%XSYSTEMMODE: 0,1,0,");
    reveal_strlit("%XSYSTEMMODE: 0,0,1,");
    reveal_strlit("%XSYSTEMMODE: 1,0,1,");
    reveal_strlit("%XSYSTEMMODE: 0,1,1,");
    let answer = mode_answer(set_mode_command(mode), preference);
    assert(mode_report(mode) =~= answer.subrange(0, 20));
    lemma_reported_mode_is_exact(answer, mode);
}

/// A query that follows a command to set the mode gives that mode: where
/// the modem answers with the mode that was set and ends with `OK`, the
/// session closes with that mode.
pub proof fn lemma_query_after_set(
    mode: SystemMode,
    preference: Seq<u8>,
    query: ModeQueryView,
    event: Event,
)
    requires
        query.session.receiving(),
        lines_brought(event) == seq![
            mode_answer(set_mode_command(mode), preference),
            ascii("OK"@),
        ],
    ensures
        next_mode_query(query, event).session == SessionView::<SystemMode>::Closed(Ok(mode)),
{
    let answer = mode_answer(set_mode_command(mode), preference);
    let lines = lines_brought(event);
    lemma_mode_round_trip(mode, preference);
    assert(!terminal_line(answer)) by {
        reveal_strlit("%XSYSTEMMODE: ");
        reveal_strlit("OK");
        reveal_strlit("ERROR");
        assert(answer[0] == 37);
        if failure_line(answer) {
            assert(answer.subrange(0, 5)[0] == answer[0]);
        }
    }
    assert(terminal_line(lines[1]));
    lemma_first_terminal(lines, 1);
    assert(informational(lines) =~= seq![answer]) by {
        reveal(Seq::filter);
        reveal_strlit("%XSYSTEMMODE: ");
        let none = Seq::<Seq<u8>>::empty();
        none.lemma_filter_push(answer, not_blank());
        assert(lines.take(1) =~= none.push(answer));
    }
    assert(seq![answer].last() == answer);
}

/// The session after each of the events in turn, while the network is
/// awaited.
pub open spec fn run_registration(session: SessionView<()>, events: Seq<Event>) -> SessionView<()>
    decreases events.len(),
{
    if events.len() == 0 {
        session
    } else {
        next_registration(run_registration(session, events.drop_last()), events.last())
    }
}

/// Receives that give nothing never end the wait for the network: after any
/// number of them the session still waits.
pub proof fn lemma_no_data_keeps_monitoring(session: SessionView<()>, events: Seq<Event>)
    requires
        session.receiving(),
        events.len() > 0,
        forall|i: int| 0 <= i < events.len() ==> #[trigger] events[i] is NoData,
    ensures
        run_registration(session, events) == SessionView::<()>::Wait,
    decreases events.len(),
{
    let earlier = events.drop_last();
    if earlier.len() > 0 {
        lemma_no_data_keeps_monitoring(session, earlier);
    } else {
        assert(run_registration(session, earlier) == session);
    }
}

/// The wait for the network ends with the first data that tells of the
/// registration, and with nothing else that a receive gives: after the
/// events the session is closed, with success, exactly if one of them
/// brought a line that tells of it.
pub proof fn lemma_wait_ends_when_connected(session: SessionView<()>, events: Seq<Event>)
    requires
        session.receiving(),
        receives(events),
    ensures
        if exists|i: int| 0 <= i < events.len() && connected(lines_brought(#[trigger] events[i])) {
            run_registration(session, events) == SessionView::<()>::Closed(Ok(()))
        } else {
            run_registration(session, events).receiving()
        },
    decreases events.len(),
{
    if events.len() > 0 {
        let earlier = events.drop_last();
        lemma_wait_ends_when_connected(session, earlier);
        if exists|i: int| 0 <= i < earlier.len() && connected(lines_brought(#[trigger] earlier[i])) {
            let i = choose|i: int|
                0 <= i < earlier.len() && connected(lines_brought(#[trigger] earlier[i]));
            assert(events[i] == earlier[i]);
        } else if connected(lines_brought(events.last())) {
        } else {
            assert forall|i: int| 0 <= i < events.len() implies !connected(
                lines_brought(#[trigger] events[i]),
            ) by {
                if i < earlier.len() {
                    assert(events[i] == earlier[i]);
                }
            }
        }
    }
}

} // verus!
