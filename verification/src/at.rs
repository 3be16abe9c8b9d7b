//! The command executor: one AT command, and its response up to the line
//! that ends it.
//!
//! A response is a run of lines. The line `OK` ends it with success, a line
//! that begins with `ERROR` ends it with failure, and every other line that
//! is not blank is an informational line, handed to the caller in the order
//! of arrival.

use vstd::prelude::*;
use vstd::slice::slice_to_vec;
use crate::error::{Error, ErrorView, result_view};
use crate::session::{Event, Progress, Session, SessionView, advance, command_text, lines_brought, lines_in, next_transport, read_lines, receives};
use crate::text::{ascii, bytes_of, same_bytes, starts_with, views};

verus! {

/// What a trimmed line of a response is.
#[derive(Debug, Clone, Copy, PartialEq, Eq, Structural)]
pub enum LineKind {
    /// Nothing but white space was on the line.
    Blank,
    /// The line that ends a response with success.
    Success,
    /// A line that ends a response with failure.
    Failure,
    /// Any other line.
    Informational,
}

/// The line is `OK`.
pub open spec fn success_line(line: Seq<u8>) -> bool {
    line == ascii("OK"@)
}

/// The line begins with `ERROR`.
pub open spec fn failure_line(line: Seq<u8>) -> bool {
    ascii("ERROR"@).is_prefix_of(line)
}

/// The line ends a response.
pub open spec fn terminal_line(line: Seq<u8>) -> bool {
    success_line(line) || failure_line(line)
}

/// The kind of a trimmed line.
pub open spec fn kind_of(line: Seq<u8>) -> LineKind {
    if success_line(line) {
        LineKind::Success
    } else if failure_line(line) {
        LineKind::Failure
    } else if line.len() == 0 {
        LineKind::Blank
    } else {
        LineKind::Informational
    }
}

/// Classifies a trimmed line.
pub fn classify(line: &[u8]) -> (kind: LineKind)
    ensures
        kind == kind_of(line@),
{
    proof {
        reveal_strlit("OK");
        reveal_strlit("ERROR");
    }
    if same_bytes(line, bytes_of("OK")) {
        LineKind::Success
    } else if starts_with(line, bytes_of("ERROR")) {
        LineKind::Failure
    } else if line.len() == 0 {
        LineKind::Blank
    } else {
        LineKind::Informational
    }
}

/// The number of lines before the first one that ends a response, or the
/// number of all lines where none does.
pub open spec fn first_terminal(lines: Seq<Seq<u8>>) -> nat
    decreases lines.len(),
{
    if lines.len() == 0 || terminal_line(lines[0]) {
        0
    } else {
        1 + first_terminal(lines.skip(1))
    }
}

/// `first_terminal(lines)` is the first place that holds a terminal line.
pub proof fn lemma_first_terminal(lines: Seq<Seq<u8>>, n: int)
    requires
        0 <= n <= lines.len(),
        forall|k: int| 0 <= k < n ==> !terminal_line(#[trigger] lines[k]),
        n < lines.len() ==> terminal_line(lines[n]),
    ensures
        first_terminal(lines) == n,
    decreases n,
{
    if n > 0 {
        let rest = lines.skip(1);
        assert forall|k: int| 0 <= k < n - 1 implies !terminal_line(#[trigger] rest[k]) by {
            assert(rest[k] == lines[k + 1]);
        }
        lemma_first_terminal(rest, n - 1);
    }
}

/// The test that a line is not blank.
pub open spec fn not_blank() -> spec_fn(Seq<u8>) -> bool {
    |line: Seq<u8>| line.len() > 0
}

/// The informational lines of a response: the lines before the first
/// terminal line that are not blank, in their order.
pub open spec fn informational(lines: Seq<Seq<u8>>) -> Seq<Seq<u8>> {
    lines.take(first_terminal(lines) as int).filter(not_blank())
}

/// How the response ends: with success where its first terminal line is `OK`,
/// with that line as the error where it is another, and not yet where no line
/// is terminal.
pub open spec fn verdict(lines: Seq<Seq<u8>>) -> Option<Result<(), ErrorView>> {
    let stop = first_terminal(lines) as int;
    if stop >= lines.len() {
        None
    } else if success_line(lines[stop]) {
        Some(Ok(()))
    } else {
        Some(Err(ErrorView::CommandRejected(lines[stop])))
    }
}

/// What each of the lines holds.
pub open spec fn contents(lines: Seq<Vec<u8>>) -> Seq<Seq<u8>> {
    lines.map_values(|line: Vec<u8>| line@)
}

/// Reads the lines of received data up to the first terminal line. Gives the
/// informational lines among them, and how the response ends if it ends here.
pub fn read_response(data: &[u8]) -> (out: (Vec<Vec<u8>>, Option<Result<(), Error>>))
    ensures
        contents(out.0@) == informational(lines_in(data@)),
        match out.1 {
            Some(result) => verdict(lines_in(data@)) == Some(result_view(result)),
            None => verdict(lines_in(data@)) is None,
        },
{
    let lines = read_lines(data);
    let ghost all = lines_in(data@);
    let mut handed: Vec<Vec<u8>> = Vec::new();
    let mut i: usize = 0;
    proof {
        reveal(Seq::filter);
        assert(all.take(0) =~= Seq::<Seq<u8>>::empty());
        assert(contents(handed@) =~= Seq::<Seq<u8>>::empty());
    }
    while i < lines.len()
        invariant
            i <= lines.len(),
            all == lines_in(data@),
            views(lines@) == all,
            forall|k: int| 0 <= k < i ==> !terminal_line(#[trigger] all[k]),
            contents(handed@) == all.take(i as int).filter(not_blank()),
        decreases lines.len() - i,
    {
        let line = lines[i];
        assert(line@ == all[i as int]) by {
            assert(views(lines@)[i as int] == lines@[i as int]@);
        }
        let kind = classify(line);
        match kind {
            LineKind::Success => {
                proof {
                    lemma_first_terminal(all, i as int);
                }
                return (handed, Some(Ok(())));
            },
            LineKind::Failure => {
                proof {
                    lemma_first_terminal(all, i as int);
                }
                return (handed, Some(Err(Error::CommandRejected(slice_to_vec(line)))));
            },
            LineKind::Blank => {
                proof {
                    assert(all.take(i + 1) =~= all.take(i as int).push(all[i as int]));
                    all.take(i as int).lemma_filter_push(all[i as int], not_blank());
                }
            },
            LineKind::Informational => {
                let ghost before = contents(handed@);
                handed.push(slice_to_vec(line));
                proof {
                    assert(contents(handed@) =~= before.push(all[i as int]));
                    assert(all.take(i + 1) =~= all.take(i as int).push(all[i as int]));
                    all.take(i as int).lemma_filter_push(all[i as int], not_blank());
                }
            },
        }
        i += 1;
    }
    proof {
        lemma_first_terminal(all, all.len() as int);
    }
    (handed, None)
}

/// The session after `event`, while `command` is executed.
///
/// The transport decides as for every operation. Data that does not end the
/// response leaves the session receiving; data that holds a terminal line
/// closes it, with success or with the error line.
pub open spec fn next_exchange(
    command: Seq<u8>,
    session: SessionView<()>,
    event: Event,
) -> SessionView<()> {
    match next_transport(command, session, event) {
        Some(next) => next,
        None => match verdict(lines_brought(event)) {
            Some(result) => SessionView::Closed(result),
            None => SessionView::Receive,
        },
    }
}

/// The informational lines that `event` hands to the caller: those that it
/// brings to a session that awaits them, and none otherwise.
pub open spec fn handed_out(session: SessionView<()>, event: Event) -> Seq<Seq<u8>> {
    if session.receiving() {
        informational(lines_brought(event))
    } else {
        Seq::empty()
    }
}

/// Executes `command`, one event at a time.
///
/// Begin with `Session::Open`, make the call that the session names, and hand
/// in what it gave together with the session, until the session is closed.
/// Each step gives the session that follows and the informational lines that
/// the event brought, which are the caller's to handle, in this order, before
/// the next step.
pub fn send_at_command(command: &[u8], session: Session<()>, event: &Event) -> (out: (
    Session<()>,
    Vec<Vec<u8>>,
))
    requires
        command_text(command@),
    ensures
        out.0@ == next_exchange(command@, session@, *event),
        contents(out.1@) == handed_out(session@, *event),
{
    let ghost before = session@;
    match advance(command, session, event) {
        Progress::Next(next) => {
            let lines: Vec<Vec<u8>> = Vec::new();
            proof {
                lemma_nothing_handed_out(before, *event);
                assert(contents(lines@) =~= Seq::<Seq<u8>>::empty());
            }
            (next, lines)
        },
        Progress::Data(data) => {
            let (lines, end) = read_response(data);
            match end {
                Some(result) => (Session::Closed(result), lines),
                None => (Session::Receive, lines),
            }
        },
    }
}

/// An event that the transport alone decides hands out no line.
pub proof fn lemma_nothing_handed_out(session: SessionView<()>, event: Event)
    requires
        !(session.receiving() && event is Data),
    ensures
        handed_out(session, event) == Seq::<Seq<u8>>::empty(),
{
    reveal(Seq::filter);
    if session.receiving() {
        assert(lines_brought(event) == Seq::<Seq<u8>>::empty());
        assert(Seq::<Seq<u8>>::empty().take(0) =~= Seq::<Seq<u8>>::empty());
    }
}

/// Before `first_terminal(lines)` no line is terminal, and the line there
/// is, if there is one.
pub proof fn lemma_first_terminal_is_first(lines: Seq<Seq<u8>>)
    ensures
        first_terminal(lines) <= lines.len(),
        forall|k: int| 0 <= k < first_terminal(lines) ==> !terminal_line(#[trigger] lines[k]),
        first_terminal(lines) < lines.len() ==> terminal_line(
            lines[first_terminal(lines) as int],
        ),
    decreases lines.len(),
{
    if lines.len() > 0 && !terminal_line(lines[0]) {
        let rest = lines.skip(1);
        lemma_first_terminal_is_first(rest);
        assert forall|k: int| 0 <= k < first_terminal(lines) implies !terminal_line(
            #[trigger] lines[k],
        ) by {
            if k > 0 {
                assert(lines[k] == rest[k - 1]);
            }
        }
        if first_terminal(rest) < rest.len() {
            assert(rest[first_terminal(rest) as int] == lines[first_terminal(rest) as int + 1]);
        }
    }
}

/// A response read in two parts is the response read at once: lines that
/// follow a terminal line change nothing, and lines that follow an unfinished
/// response continue it.
pub proof fn lemma_response_in_parts(a: Seq<Seq<u8>>, b: Seq<Seq<u8>>)
    ensures
        verdict(a) is Some ==> informational(a + b) == informational(a) && verdict(a + b)
            == verdict(a),
        verdict(a) is None ==> informational(a + b) == informational(a) + informational(b)
            && verdict(a + b) == verdict(b),
{
    lemma_first_terminal_is_first(a);
    lemma_first_terminal_is_first(b);
    let m = first_terminal(a) as int;
    let n = first_terminal(b) as int;
    if m < a.len() {
        assert forall|k: int| 0 <= k < m implies !terminal_line(#[trigger] (a + b)[k]) by {
            assert((a + b)[k] == a[k]);
        }
        assert((a + b)[m] == a[m]);
        lemma_first_terminal(a + b, m);
        assert((a + b).take(m) =~= a.take(m));
    } else {
        assert forall|k: int| 0 <= k < m + n implies !terminal_line(#[trigger] (a + b)[k]) by {
            if k < m {
                assert((a + b)[k] == a[k]);
            } else {
                assert((a + b)[k] == b[k - m]);
            }
        }
        if n < b.len() {
            assert((a + b)[m + n] == b[n]);
        }
        lemma_first_terminal(a + b, m + n);
        assert((a + b).take(m + n) =~= a.take(m) + b.take(n));
        Seq::filter_distributes_over_add(a.take(m), b.take(n), not_blank());
    }
}

/// The session after each of the events in turn, and all the lines that they
/// handed out, in the order in which they were handed out.
pub open spec fn run_exchange(
    command: Seq<u8>,
    session: SessionView<()>,
    events: Seq<Event>,
) -> (SessionView<()>, Seq<Seq<u8>>)
    decreases events.len(),
{
    if events.len() == 0 {
        (session, Seq::empty())
    } else {
        let (before, lines) = run_exchange(command, session, events.drop_last());
        (
            next_exchange(command, before, events.last()),
            lines + handed_out(before, events.last()),
        )
    }
}

/// All the lines that the events bring, in the order of arrival.
pub open spec fn all_lines(events: Seq<Event>) -> Seq<Seq<u8>>
    decreases events.len(),
{
    if events.len() == 0 {
        Seq::empty()
    } else {
        all_lines(events.drop_last()) + lines_brought(events.last())
    }
}

/// The informational lines reach the caller in the order of arrival, each
/// once, and none after the terminal line.
///
/// Whatever the pieces in which a response arrives, and however many receives
/// give nothing in between, the lines handed out over all the steps are the
/// informational lines of the response as a whole, and the session is closed
/// exactly if the response holds a terminal line, with what its first
/// terminal line says.
pub proof fn lemma_lines_in_order(command: Seq<u8>, session: SessionView<()>, events: Seq<Event>)
    requires
        session.receiving(),
        receives(events),
    ensures
        run_exchange(command, session, events).1 == informational(all_lines(events)),
        match verdict(all_lines(events)) {
            Some(result) => run_exchange(command, session, events).0 == SessionView::Closed(
                result,
            ),
            None => run_exchange(command, session, events).0.receiving(),
        },
    decreases events.len(),
{
    reveal(Seq::filter);
    if events.len() == 0 {
        assert(Seq::<Seq<u8>>::empty().take(0) =~= Seq::<Seq<u8>>::empty());
    } else {
        let earlier = events.drop_last();
        let event = events.last();
        lemma_lines_in_order(command, session, earlier);
        lemma_response_in_parts(all_lines(earlier), lines_brought(event));
        let (before, lines) = run_exchange(command, session, earlier);
        if verdict(all_lines(earlier)) is Some {
            assert(lines + handed_out(before, event) =~= lines);
        } else if event is NoData {
            assert(lines_brought(event).take(0) =~= Seq::<Seq<u8>>::empty());
            assert(all_lines(earlier) + lines_brought(event) =~= all_lines(earlier));
            assert(lines + handed_out(before, event) =~= lines);
        }
    }
}

/// A closed exchange is over: whatever comes after, the session keeps its
/// result and no line is handed out.
pub proof fn lemma_closed_is_final(
    command: Seq<u8>,
    result: Result<(), ErrorView>,
    events: Seq<Event>,
)
    ensures
        run_exchange(command, SessionView::Closed(result), events) == (
            SessionView::Closed(result),
            Seq::<Seq<u8>>::empty(),
        ),
    decreases events.len(),
{
    if events.len() > 0 {
        let earlier = events.drop_last();
        lemma_closed_is_final(command, result, earlier);
        let (before, lines) = run_exchange(command, SessionView::Closed(result), earlier);
        assert(lines + handed_out(before, events.last()) =~= lines);
    }
}

/// Receives that give nothing never end an exchange: after any number of
/// them the session still waits, and no line was handed out.
pub proof fn lemma_no_data_keeps_waiting(
    command: Seq<u8>,
    session: SessionView<()>,
    events: Seq<Event>,
)
    requires
        session.receiving(),
        events.len() > 0,
        forall|i: int| 0 <= i < events.len() ==> #[trigger] events[i] is NoData,
    ensures
        run_exchange(command, session, events) == (SessionView::<()>::Wait, Seq::<Seq<u8>>::empty()),
    decreases events.len(),
{
    let earlier = events.drop_last();
    let (before, lines) = run_exchange(command, session, earlier);
    if earlier.len() > 0 {
        lemma_no_data_keeps_waiting(command, session, earlier);
    }
    lemma_nothing_handed_out(before, events.last());
    assert(lines + handed_out(before, events.last()) =~= lines);
}

} // verus!
