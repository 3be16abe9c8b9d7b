//! A session with the modem, seen from the side that decides.
//!
//! The transport is a duplex channel that is opened, written to once and then
//! read until the operation ends. The library never touches it. A `Session`
//! names the call that is to be made on the transport next, and an `Event`
//! tells what that call gave. Each operation is a function from the session
//! and the event to the session that follows.

use vstd::prelude::*;
use vstd::slice::slice_to_vec;
use crate::error::{Error, ErrorView, result_view};
use crate::text::{CARRIAGE_RETURN, LINE_FEED, lines_of, split_lines, trim, trimmed, views};

verus! {

/// What a call on the transport gave.
#[derive(Debug, Clone, PartialEq, Eq)]
pub enum Event {
    /// The transport was opened.
    Opened,
    /// The transport could not be opened.
    OpenFailed,
    /// The command was written.
    Written,
    /// The command could not be written.
    WriteFailed,
    /// A receive gave these bytes: text, and one last byte that ends it.
    Data(Vec<u8>),
    /// A receive gave nothing: no data is there yet.
    NoData,
    /// A receive failed.
    ReadFailed,
}

/// Where a session stands: the call to make on the transport, or the end.
#[derive(Debug, PartialEq, Eq)]
pub enum Session<T> {
    /// Open the transport; the answer is `Opened` or `OpenFailed`.
    Open,
    /// Write these bytes, to which the transport adds the line ending; the
    /// answer is `Written` or `WriteFailed`.
    Write(Vec<u8>),
    /// Receive; the answer is `Data`, `NoData` or `ReadFailed`.
    Receive,
    /// Give up the processor until an event wakes it, then receive.
    Wait,
    /// The operation is over, with this result. No call is left to make.
    Closed(Result<T, Error>),
}

/// A `Session` as a mathematical value.
pub enum SessionView<T> {
    Open,
    Write(Seq<u8>),
    Receive,
    Wait,
    Closed(Result<T, ErrorView>),
}

impl<T> View for Session<T> {
    type V = SessionView<T>;

    open spec fn view(&self) -> SessionView<T> {
        match *self {
            Session::Open => SessionView::Open,
            Session::Write(command) => SessionView::Write(command@),
            Session::Receive => SessionView::Receive,
            Session::Wait => SessionView::Wait,
            Session::Closed(result) => SessionView::Closed(result_view(result)),
        }
    }
}

impl<T> SessionView<T> {
    /// The session awaits what a receive gives.
    pub open spec fn receiving(self) -> bool {
        self is Receive || self is Wait
    }
}

/// A command holds neither a line feed nor a carriage return: the transport
/// ends the line.
pub open spec fn command_text(command: Seq<u8>) -> bool {
    forall|i: int|
        0 <= i < command.len() ==> #[trigger] command[i] != LINE_FEED && command[i]
            != CARRIAGE_RETURN
}

/// Tells whether the bytes can be sent as a command.
pub fn is_command(command: &[u8]) -> (r: bool)
    ensures
        r == command_text(command@),
{
    let mut i: usize = 0;
    while i < command.len()
        invariant
            i <= command.len(),
            forall|k: int|
                0 <= k < i ==> #[trigger] command@[k] != LINE_FEED && command@[k]
                    != CARRIAGE_RETURN,
        decreases command.len() - i,
    {
        if command[i] == LINE_FEED || command[i] == CARRIAGE_RETURN {
            return false;
        }
        i += 1;
    }
    true
}

/// The session after `event`, as far as the transport alone decides it.
///
/// An open session writes the command once it is opened and receives once the
/// command is written. A receive that gave nothing is followed by a wait. An
/// event other than the success of the call that the session names is the
/// failure of that call and closes the session with the call's error; a closed
/// session stays as it is. `None` where the session awaits data and `event`
/// brings some: what follows then depends on the operation.
pub open spec fn next_transport<T>(
    command: Seq<u8>,
    session: SessionView<T>,
    event: Event,
) -> Option<SessionView<T>> {
    match session {
        SessionView::Open => Some(
            if event is Opened {
                SessionView::Write(command)
            } else {
                SessionView::Closed(Err(ErrorView::TransportUnavailable))
            },
        ),
        SessionView::Write(_) => Some(
            if event is Written {
                SessionView::Receive
            } else {
                SessionView::Closed(Err(ErrorView::TransportWriteError))
            },
        ),
        SessionView::Receive | SessionView::Wait => match event {
            Event::Data(_) => None,
            Event::NoData => Some(SessionView::Wait),
            _ => Some(SessionView::Closed(Err(ErrorView::TransportReadError))),
        },
        SessionView::Closed(result) => Some(SessionView::Closed(result)),
    }
}

/// How far the transport alone takes a session.
pub enum Progress<'a, T> {
    /// The session that follows.
    Next(Session<T>),
    /// The session awaits data and these bytes arrived: what follows is for
    /// the operation to decide.
    Data(&'a [u8]),
}

/// Takes the session over `event` as far as the transport alone decides it.
pub fn advance<'a, T>(command: &[u8], session: Session<T>, event: &'a Event) -> (out: Progress<
    'a,
    T,
>)
    ensures
        match out {
            Progress::Next(next) => next_transport(command@, session@, *event) == Some(next@),
            Progress::Data(data) => {
                &&& next_transport(command@, session@, *event) is None
                &&& session@.receiving()
                &&& *event matches Event::Data(received) && received@ == data@
            },
        },
{
    match session {
        Session::Open => match event {
            Event::Opened => Progress::Next(Session::Write(slice_to_vec(command))),
            _ => Progress::Next(Session::Closed(Err(Error::TransportUnavailable))),
        },
        Session::Write(_) => match event {
            Event::Written => Progress::Next(Session::Receive),
            _ => Progress::Next(Session::Closed(Err(Error::TransportWriteError))),
        },
        Session::Receive | Session::Wait => match event {
            Event::Data(data) => Progress::Data(data.as_slice()),
            Event::NoData => Progress::Next(Session::Wait),
            _ => Progress::Next(Session::Closed(Err(Error::TransportReadError))),
        },
        Session::Closed(result) => Progress::Next(Session::Closed(result)),
    }
}

/// The text that received data holds: all its bytes but the last, which ends
/// the text.
pub open spec fn text_of(data: Seq<u8>) -> Seq<u8> {
    if data.len() > 0 {
        data.drop_last()
    } else {
        data
    }
}

/// The lines that received data holds, in order, each without the white
/// space around it.
pub open spec fn lines_in(data: Seq<u8>) -> Seq<Seq<u8>> {
    lines_of(text_of(data)).map_values(|line: Seq<u8>| trimmed(line))
}

/// The lines that an event brings: those of its data, and none for any other
/// event.
pub open spec fn lines_brought(event: Event) -> Seq<Seq<u8>> {
    match event {
        Event::Data(data) => lines_in(data@),
        _ => Seq::empty(),
    }
}

/// Every one of the events is what a receive gave, data or nothing: no call
/// failed.
pub open spec fn receives(events: Seq<Event>) -> bool {
    forall|i: int| 0 <= i < events.len() ==> #[trigger] events[i] is Data || events[i] is NoData
}

/// Splits received data into its lines and trims each.
pub fn read_lines<'a>(data: &'a [u8]) -> (out: Vec<&'a [u8]>)
    ensures
        views(out@) == lines_in(data@),
{
    let text = if data.len() > 0 {
        &data[0..data.len() - 1]
    } else {
        data
    };
    assert(text@ =~= text_of(data@));
    let raw = split_lines(text);
    let mut out: Vec<&'a [u8]> = Vec::new();
    let mut i: usize = 0;
    while i < raw.len()
        invariant
            i <= raw.len(),
            views(raw@) == lines_of(text_of(data@)),
            out.len() == i,
            forall|k: int| 0 <= k < i ==> (#[trigger] out@[k])@ == trimmed(raw@[k]@),
        decreases raw.len() - i,
    {
        out.push(trim(raw[i]));
        i += 1;
    }
    assert(views(out@) =~= lines_in(data@)) by {
        assert forall|k: int| 0 <= k < out.len() implies views(out@)[k] == lines_in(data@)[k] by {
            assert(views(raw@)[k] == raw@[k]@);
        }
    }
    out
}

} // verus!
