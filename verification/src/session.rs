//! The engine of one connection: the life of the session, the framing of
//! the client's bytes into lines, and the reply to each line.
//!
//! The engine does no input or output. Its caller accepts the connection,
//! reads and writes the socket and keeps time, tells the engine what
//! happened and does what the engine answers.

use crate::command_evaluator::{evaluate_command, evaluation, evaluation_effect};
use crate::command_parser::{parse, parsed, Command, NEWLINE};
use crate::rush_pin_manager::{PinTable, RushPinManager};
use crate::text::{fmt_truncate, from_utf8, truncated, truncated_fits};
use vstd::prelude::*;
use vstd::slice::slice_subrange;
use vstd::string::*;
use vstd::utf8::*;

verus! {

/// Capacity of the buffer that the client's bytes are gathered in.
pub const READ_BUFFER_SIZE: usize = 1024;

/// The port that the service listens on.
pub const LISTEN_PORT: u16 = 80;

/// Seconds without traffic after which the socket gives up.
pub const SOCKET_TIMEOUT_SECS: u64 = 10;

/// Seconds between keep-alive probes on the socket.
pub const KEEP_ALIVE_SECS: u64 = 3;

/// Milliseconds between two looks at the link while it is down.
pub const LINK_POLL_MS: u64 = 500;

/// Milliseconds between closing the socket and aborting it.
pub const DRAIN_DELAY_MS: u64 = 1000;

/// Where a session is in its life.
#[derive(Clone, Copy, Debug, PartialEq, Eq, Structural)]
pub enum SessionState {
    /// The link is not up yet.
    Idle,
    /// Waiting for a client to connect.
    Accepting,
    /// A client is connected and served.
    Active,
    /// The socket is closed and the peer is given time to see it.
    Draining,
    /// The socket is being aborted.
    Closed,
}

/// What the caller tells the session.
#[derive(Clone, Copy, Debug, PartialEq, Eq, Structural)]
pub enum SessionEvent {
    /// The link was looked at and is down.
    LinkDown,
    /// The link was looked at and is up.
    LinkUp,
    /// A client has connected.
    Connected,
    /// The client has closed its side: a read returned no bytes.
    EndOfStream,
    /// The connection was reset during a read, a write or a flush.
    ConnectionReset,
    /// A read, a write or a flush failed otherwise.
    IoError,
    /// The delay after closing the socket is over.
    DrainElapsed,
    /// The socket was aborted.
    Aborted,
}

/// What the session asks its caller to do next.
#[derive(Clone, Copy, Debug, PartialEq, Eq, Structural)]
pub enum SessionAction {
    /// Wait `LINK_POLL_MS` and look at the link again.
    WaitForLink,
    /// Accept a client on `LISTEN_PORT`, with the timeout and keep-alive
    /// set on the socket.
    Accept,
    /// Serve the client: write the replies that are due, flush, then wait
    /// for bytes from the client and for the sweep of the watched pins,
    /// whichever comes first.
    Serve,
    /// Close the socket and wait `DRAIN_DELAY_MS`.
    CloseAndWait,
    /// Abort the socket.
    Abort,
    /// The event means nothing in this state: go on as before.
    Ignore,
}

/// The number of bytes before the first line end.
pub open spec fn line_length(bytes: Seq<u8>) -> nat
    decreases bytes.len(),
{
    if bytes.len() > 0 && bytes[0] != NEWLINE {
        1 + line_length(bytes.drop_first())
    } else {
        0
    }
}

/// The number of line ends that the bytes begin with.
pub open spec fn blank_lines(bytes: Seq<u8>) -> nat
    decreases bytes.len(),
{
    if bytes.len() > 0 && bytes[0] == NEWLINE {
        1 + blank_lines(bytes.drop_first())
    } else {
        0
    }
}

/// The number of bytes after the last line end.
pub open spec fn trailing_length(bytes: Seq<u8>) -> nat
    decreases bytes.len(),
{
    if bytes.len() > 0 && bytes.last() != NEWLINE {
        1 + trailing_length(bytes.drop_last())
    } else {
        0
    }
}

/// The reply to the bytes of one line, before truncation.
pub open spec fn response(message: Seq<u8>, table: PinTable) -> Seq<char> {
    if valid_utf8(message) {
        evaluation(message, table)
    } else {
        "could not parse command - conversion to utf8 failed\n"@
    }
}

/// The pin table after the bytes of one line were dealt with.
pub open spec fn response_effect(message: Seq<u8>, table: PinTable) -> PinTable {
    if valid_utf8(message) {
        evaluation_effect(message, table)
    } else {
        table
    }
}

/// The pin table once the pin that the bytes of one line address is ready
/// for their command.
pub open spec fn response_preparation(message: Seq<u8>, table: PinTable) -> PinTable {
    if valid_utf8(message) {
        match parsed(message) {
            Ok(command) => command.preparation(table),
            Err(_) => table,
        }
    } else {
        table
    }
}

/// A session as a mathematical value.
pub struct SessionView {
    pub state: SessionState,
    /// The complete lines that are not answered yet, each with its line
    /// end.
    pub pending: Seq<u8>,
    /// The beginning of a line whose end has not arrived yet.
    pub carry: Seq<u8>,
}

impl SessionView {
    /// The lines that wait end with a line end, the beginning of the next
    /// line holds none, and both fit in the buffer.
    pub open spec fn wf(self) -> bool {
        &&& self.pending.len() + self.carry.len() <= READ_BUFFER_SIZE
        &&& self.pending.len() > 0 ==> self.pending.last() == NEWLINE
        &&& forall|i: int| 0 <= i < self.carry.len() ==> self.carry[i] != NEWLINE
    }

    /// The session after `event`.
    pub open spec fn step(self, event: SessionEvent) -> SessionView {
        match (self.state, event) {
            (SessionState::Idle, SessionEvent::LinkUp) => SessionView {
                state: SessionState::Accepting,
                ..self
            },
            (SessionState::Accepting, SessionEvent::Connected) => SessionView {
                state: SessionState::Active,
                pending: Seq::empty(),
                carry: Seq::empty(),
            },
            (SessionState::Active, SessionEvent::EndOfStream) => SessionView {
                state: SessionState::Draining,
                ..self
            },
            (SessionState::Active, SessionEvent::ConnectionReset) => SessionView {
                state: SessionState::Draining,
                ..self
            },
            (SessionState::Active, SessionEvent::IoError) => SessionView {
                state: SessionState::Draining,
                ..self
            },
            (SessionState::Draining, SessionEvent::DrainElapsed) => SessionView {
                state: SessionState::Closed,
                ..self
            },
            (SessionState::Closed, SessionEvent::Aborted) => SessionView {
                state: SessionState::Accepting,
                ..self
            },
            _ => self,
        }
    }

    /// What the caller is to do after `event`.
    pub open spec fn step_action(self, event: SessionEvent) -> SessionAction {
        match (self.state, event) {
            (SessionState::Idle, SessionEvent::LinkDown) => SessionAction::WaitForLink,
            (SessionState::Idle, SessionEvent::LinkUp) => SessionAction::Accept,
            (SessionState::Accepting, SessionEvent::Connected) => SessionAction::Serve,
            (SessionState::Active, SessionEvent::EndOfStream) => SessionAction::CloseAndWait,
            (SessionState::Active, SessionEvent::ConnectionReset) => SessionAction::CloseAndWait,
            (SessionState::Active, SessionEvent::IoError) => SessionAction::CloseAndWait,
            (SessionState::Draining, SessionEvent::DrainElapsed) => SessionAction::Abort,
            (SessionState::Closed, SessionEvent::Aborted) => SessionAction::Accept,
            _ => SessionAction::Ignore,
        }
    }

    /// The session after `bytes` arrived from the client. No bytes mean
    /// that the client is gone. Else the bytes join the beginning of a line
    /// that was kept: what ends with the last line end waits to be
    /// answered, what follows it is kept for the next arrival.
    pub open spec fn receive(self, bytes: Seq<u8>) -> SessionView {
        if bytes.len() == 0 {
            self.step(SessionEvent::EndOfStream)
        } else {
            let all = self.carry + bytes;
            let cut = all.len() - trailing_length(all);
            SessionView { state: self.state, pending: all.take(cut), carry: all.skip(cut) }
        }
    }

    /// The lines that wait, without the empty lines at their beginning.
    pub open spec fn due(self) -> Seq<u8> {
        self.pending.skip(blank_lines(self.pending) as int)
    }

    /// The next line to answer, without its line end. Empty lines are
    /// passed over. Only a session that serves a client answers lines: once the socket
    /// has failed or the client is gone, the lines that wait stay
    /// unanswered.
    pub open spec fn next_line(self) -> Option<Seq<u8>> {
        if self.state != SessionState::Active || self.due().len() == 0 {
            None
        } else {
            Some(self.due().take(line_length(self.due()) as int))
        }
    }

    /// The session after the next line was asked for. A session that does
    /// not serve a client is as before.
    pub open spec fn after_next_line(self) -> SessionView {
        if self.state != SessionState::Active {
            self
        } else if self.due().len() == 0 {
            SessionView { pending: Seq::empty(), ..self }
        } else {
            SessionView { pending: self.due().skip(line_length(self.due()) + 1 as int), ..self }
        }
    }
}

/// A count of bytes before the first line end is right if no line end is
/// among them and one follows.
pub proof fn line_length_counted(bytes: Seq<u8>, count: nat)
    requires
        count <= bytes.len(),
        forall|i: int| 0 <= i < count ==> bytes[i] != NEWLINE,
        count == bytes.len() || bytes[count as int] == NEWLINE,
    ensures
        line_length(bytes) == count,
    decreases count,
{
    if count > 0 {
        line_length_counted(bytes.drop_first(), (count - 1) as nat);
    }
}

/// A count of leading line ends is right if line ends fill it and none
/// follows.
pub proof fn blank_lines_counted(bytes: Seq<u8>, count: nat)
    requires
        count <= bytes.len(),
        forall|i: int| 0 <= i < count ==> bytes[i] == NEWLINE,
        count == bytes.len() || bytes[count as int] != NEWLINE,
    ensures
        blank_lines(bytes) == count,
    decreases count,
{
    if count > 0 {
        blank_lines_counted(bytes.drop_first(), (count - 1) as nat);
    }
}

/// A count of bytes after the last line end is right if no line end is
/// among them and one stands before them.
pub proof fn trailing_length_counted(bytes: Seq<u8>, count: nat)
    requires
        count <= bytes.len(),
        forall|i: int| bytes.len() - count <= i < bytes.len() ==> bytes[i] != NEWLINE,
        count == bytes.len() || bytes[bytes.len() - count - 1] == NEWLINE,
    ensures
        trailing_length(bytes) == count,
    decreases count,
{
    if count > 0 {
        trailing_length_counted(bytes.drop_last(), (count - 1) as nat);
    }
}

/// Answers the bytes of one line: carries out the command that they hold
/// and formats the reply into `fmt_buffer`. Bytes that are no text, and
/// text that is no command, are answered with a notice and change nothing.
pub fn process_message<'a>(
    message: &[u8],
    fmt_buffer: &'a mut [u8],
    pin_manager: &mut RushPinManager,
) -> (reply: &'a str)
    requires
        old(pin_manager).wf(),
    ensures
        final(pin_manager).wf(),
        final(pin_manager)@ == response_effect(message@, old(pin_manager)@),
        reply@ == truncated(response(message@, old(pin_manager)@), old(fmt_buffer)@.len()),
        reply@.len() <= old(fmt_buffer)@.len(),
{
    proof {
        truncated_fits(response(message@, pin_manager@), fmt_buffer@.len());
    }
    match from_utf8(message) {
        None => {
            proof {
                reveal_strlit("could not parse command - conversion to utf8 failed\n");
            }
            fmt_truncate(fmt_buffer, "could not parse command - conversion to utf8 failed\n")
        },
        Some(msg_as_str) => evaluate_command(msg_as_str, fmt_buffer, pin_manager),
    }
}

/// Makes the pin that the bytes of one line address ready for their
/// command, and gives no reply. Bytes that hold no command change nothing.
pub fn prepare_message(message: &[u8], pin_manager: &mut RushPinManager)
    requires
        old(pin_manager).wf(),
    ensures
        final(pin_manager).wf(),
        final(pin_manager)@ == response_preparation(message@, old(pin_manager)@),
{
    if let Some(msg_as_str) = from_utf8(message) {
        if let Ok(command) = parse(msg_as_str) {
            command.prepare(pin_manager);
        }
    }
}

/// The engine of one connection.
pub struct Session {
    state: SessionState,
    read_buffer: [u8; 1024],
    /// Bytes of `read_buffer` in use, from its beginning.
    filled: usize,
    line_start: usize,
    lines_end: usize,
}

impl View for Session {
    type V = SessionView;

    closed spec fn view(&self) -> SessionView {
        SessionView {
            state: self.state,
            pending: self.read_buffer@.subrange(self.line_start as int, self.lines_end as int),
            carry: self.read_buffer@.subrange(self.lines_end as int, self.filled as int),
        }
    }
}

impl Session {
    /// The session is sound.
    pub closed spec fn wf(&self) -> bool {
        &&& self.line_start <= self.lines_end <= self.filled <= READ_BUFFER_SIZE
        &&& self.read_buffer@.len() == READ_BUFFER_SIZE
        &&& self.lines_end > 0 ==> self.read_buffer@[self.lines_end - 1] == NEWLINE
        &&& forall|i: int| self.lines_end <= i < self.filled ==> self.read_buffer@[i] != NEWLINE
    }

    /// A sound session has a sound value.
    pub proof fn wf_view(&self)
        requires
            self.wf(),
        ensures
            self@.wf(),
    {
    }

    /// A session before the link is up.
    pub fn new() -> (session: Self)
        ensures
            session.wf(),
            session@ == (SessionView {
                state: SessionState::Idle,
                pending: Seq::empty(),
                carry: Seq::empty(),
            }),
    {
        let session = Session {
            state: SessionState::Idle,
            read_buffer: [0u8; 1024],
            filled: 0,
            line_start: 0,
            lines_end: 0,
        };
        assert(session@.pending =~= Seq::empty());
        assert(session@.carry =~= Seq::empty());
        session
    }

    /// Where the session is in its life.
    pub fn state(&self) -> (state: SessionState)
        ensures
            state == self@.state,
    {
        self.state
    }

    /// The number of bytes kept of a line whose end has not arrived.
    pub fn carry_len(&self) -> (len: usize)
        requires
            self.wf(),
        ensures
            len == self@.carry.len(),
    {
        self.filled - self.lines_end
    }

    /// The bytes kept of a line whose end has not arrived.
    pub fn carry(&self) -> (bytes: &[u8])
        requires
            self.wf(),
        ensures
            bytes@ == self@.carry,
    {
        slice_subrange(&self.read_buffer, self.lines_end, self.filled)
    }

    /// Whether lines wait to be answered.
    pub fn has_pending(&self) -> (waiting: bool)
        requires
            self.wf(),
        ensures
            waiting == (self@.pending.len() > 0),
    {
        self.line_start < self.lines_end
    }

    /// The number of bytes that the next read may bring at most.
    pub fn read_window(&self) -> (room: usize)
        requires
            self.wf(),
        ensures
            room == READ_BUFFER_SIZE - self@.carry.len(),
    {
        READ_BUFFER_SIZE - (self.filled - self.lines_end)
    }

    /// Takes `event` in and says what the caller is to do next. An event
    /// that means nothing in the present state changes nothing.
    pub fn step(&mut self, event: SessionEvent) -> (action: SessionAction)
        requires
            old(self).wf(),
        ensures
            final(self).wf(),
            final(self)@ == old(self)@.step(event),
            action == old(self)@.step_action(event),
    {
        match (self.state, event) {
            (SessionState::Idle, SessionEvent::LinkDown) => SessionAction::WaitForLink,
            (SessionState::Idle, SessionEvent::LinkUp) => {
                self.state = SessionState::Accepting;
                SessionAction::Accept
            },
            (SessionState::Accepting, SessionEvent::Connected) => {
                self.state = SessionState::Active;
                self.filled = 0;
                self.line_start = 0;
                self.lines_end = 0;
                assert(self@.pending =~= Seq::empty());
                assert(self@.carry =~= Seq::empty());
                SessionAction::Serve
            },
            (SessionState::Active, SessionEvent::EndOfStream) => {
                self.state = SessionState::Draining;
                SessionAction::CloseAndWait
            },
            (SessionState::Active, SessionEvent::ConnectionReset) => {
                self.state = SessionState::Draining;
                SessionAction::CloseAndWait
            },
            (SessionState::Active, SessionEvent::IoError) => {
                self.state = SessionState::Draining;
                SessionAction::CloseAndWait
            },
            (SessionState::Draining, SessionEvent::DrainElapsed) => {
                self.state = SessionState::Closed;
                SessionAction::Abort
            },
            (SessionState::Closed, SessionEvent::Aborted) => {
                self.state = SessionState::Accepting;
                SessionAction::Accept
            },
            _ => SessionAction::Ignore,
        }
    }

    /// Takes in what a read of the socket brought. No bytes mean that the
    /// client is gone: the session begins to drain. Else the beginning of a
    /// line that was kept moves to the front of the buffer, the bytes join
    /// it, and what ends with the last line end waits for `next_line` or
    /// `next_reply`.
    pub fn receive(&mut self, bytes: &[u8]) -> (action: SessionAction)
        requires
            old(self).wf(),
            old(self)@.state == SessionState::Active,
            old(self)@.pending.len() == 0,
            bytes@.len() <= READ_BUFFER_SIZE - old(self)@.carry.len(),
        ensures
            final(self).wf(),
            final(self)@ == old(self)@.receive(bytes@),
            action == if bytes@.len() == 0 {
                SessionAction::CloseAndWait
            } else {
                SessionAction::Serve
            },
    {
        if bytes.len() == 0 {
            return self.step(SessionEvent::EndOfStream);
        }
        let ghost carry = self@.carry;
        assert(forall|k: int| 0 <= k < carry.len() ==> carry[k] != NEWLINE);
        let from = self.lines_end;
        let read_pos = self.filled - from;
        let mut i: usize = 0;
        while from > 0 && i < read_pos
            invariant
                i <= read_pos,
                from + read_pos <= READ_BUFFER_SIZE,
                carry.len() == read_pos,
                self.read_buffer@.len() == READ_BUFFER_SIZE,
                self.state == SessionState::Active,
                forall|k: int| 0 <= k < i ==> #[trigger] self.read_buffer@[k] == carry[k],
                forall|k: int| i <= k < read_pos ==> self.read_buffer@[from + k] == carry[k],
            decreases read_pos - i,
        {
            let byte = self.read_buffer[from + i];
            self.read_buffer[i] = byte;
            i += 1;
        }
        let mut j: usize = 0;
        while j < bytes.len()
            invariant
                j <= bytes@.len(),
                read_pos + bytes@.len() <= READ_BUFFER_SIZE,
                carry.len() == read_pos,
                self.read_buffer@.len() == READ_BUFFER_SIZE,
                self.state == SessionState::Active,
                forall|k: int| 0 <= k < read_pos ==> #[trigger] self.read_buffer@[k] == carry[k],
                forall|k: int| 0 <= k < j ==> self.read_buffer@[read_pos + k] == bytes@[k],
            decreases bytes.len() - j,
        {
            self.read_buffer[read_pos + j] = bytes[j];
            j += 1;
        }
        let filled = read_pos + bytes.len();
        let ghost all = self.read_buffer@.take(filled as int);
        assert(all =~= carry + bytes@);
        assert(forall|k: int| 0 <= k < read_pos ==> self.read_buffer@[k] != NEWLINE);
        let mut end: usize = filled;
        while end > read_pos && self.read_buffer[end - 1] != NEWLINE
            invariant
                read_pos <= end <= filled <= READ_BUFFER_SIZE,
                all == self.read_buffer@.take(filled as int),
                forall|k: int| 0 <= k < read_pos ==> self.read_buffer@[k] != NEWLINE,
                self.read_buffer@.len() == READ_BUFFER_SIZE,
                self.state == SessionState::Active,
                forall|k: int| end <= k < filled ==> self.read_buffer@[k] != NEWLINE,
            decreases end,
        {
            end -= 1;
        }
        let lines_end = if end > read_pos {
            end
        } else {
            0
        };
        proof {
            trailing_length_counted(all, (filled - lines_end) as nat);
        }
        self.filled = filled;
        self.line_start = 0;
        self.lines_end = lines_end;
        assert(self@.pending =~= all.take(lines_end as int));
        assert(self@.carry =~= all.skip(lines_end as int));
        SessionAction::Serve
    }

    /// Takes the next line that waits out of the buffer, without its line
    /// end. Empty lines are passed over. `None` says that no line waits any
    /// more, or that the session does not serve a client: then nothing
    /// changes.
    pub fn next_line(&mut self) -> (line: Option<&[u8]>)
        requires
            old(self).wf(),
        ensures
            final(self).wf(),
            final(self)@ == old(self)@.after_next_line(),
            line.is_some() == old(self)@.next_line().is_some(),
            line.is_some() ==> Some(line.unwrap()@) == old(self)@.next_line(),
            old(self)@.state != SessionState::Active ==> line.is_none() && final(self)@ == old(
                self,
            )@,
    {
        if self.state != SessionState::Active {
            return None;
        }
        let ghost pending = self@.pending;
        let first = self.line_start;
        let mut start: usize = first;
        while start < self.lines_end && self.read_buffer[start] == NEWLINE
            invariant
                first <= start <= self.lines_end <= self.filled <= READ_BUFFER_SIZE,
                self.read_buffer@.len() == READ_BUFFER_SIZE,
                forall|k: int| first <= k < start ==> self.read_buffer@[k] == NEWLINE,
            decreases self.lines_end - start,
        {
            start += 1;
        }
        proof {
            blank_lines_counted(pending, (start - first) as nat);
            assert(self@.due() =~= self.read_buffer@.subrange(start as int, self.lines_end as int));
        }
        if start == self.lines_end {
            self.line_start = start;
            assert(self@.pending =~= Seq::empty());
            return None;
        }
        let ghost due = self@.due();
        let mut end: usize = start;
        while self.read_buffer[end] != NEWLINE
            invariant
                start <= end < self.lines_end <= self.filled <= READ_BUFFER_SIZE,
                self.read_buffer@.len() == READ_BUFFER_SIZE,
                self.read_buffer@[self.lines_end - 1] == NEWLINE,
                forall|k: int| start <= k < end ==> self.read_buffer@[k] != NEWLINE,
            decreases self.lines_end - end,
        {
            end += 1;
        }
        proof {
            line_length_counted(due, (end - start) as nat);
        }
        self.line_start = end + 1;
        let line = slice_subrange(&self.read_buffer, start, end);
        assert(line@ =~= due.take(line_length(due) as int));
        assert(self@.pending =~= due.skip(line_length(due) + 1 as int));
        Some(line)
    }

    /// Answers the next line that waits: carries out its command on the pin
    /// table and formats the reply into `fmt_buffer`, cut to the buffer's
    /// length. Empty lines are passed over. `None` says that no line waits
    /// any more, or that the session does not serve a client: then neither
    /// the session nor the pin table changes, so the lines that wait when a
    /// write fails are never carried out.
    pub fn next_reply<'a>(
        &mut self,
        fmt_buffer: &'a mut [u8],
        pin_manager: &mut RushPinManager,
    ) -> (reply: Option<&'a str>)
        requires
            old(self).wf(),
            old(pin_manager).wf(),
        ensures
            final(self).wf(),
            final(pin_manager).wf(),
            final(self)@ == old(self)@.after_next_line(),
            reply.is_some() == old(self)@.next_line().is_some(),
            reply.is_none() ==> final(pin_manager)@ == old(pin_manager)@,
            old(self)@.state != SessionState::Active ==> reply.is_none() && final(self)@ == old(
                self,
            )@,
            reply.is_some() ==> {
                &&& final(pin_manager)@ == response_effect(
                    old(self)@.next_line().unwrap(),
                    old(pin_manager)@,
                )
                &&& reply.unwrap()@ == truncated(
                    response(old(self)@.next_line().unwrap(), old(pin_manager)@),
                    old(fmt_buffer)@.len(),
                )
                &&& reply.unwrap()@.len() <= old(fmt_buffer)@.len()
            },
    {
        match self.next_line() {
            Some(line) => {
                proof {
                    truncated_fits(response(line@, pin_manager@), fmt_buffer@.len());
                }
                Some(process_message(line, fmt_buffer, pin_manager))
            },
            None => None,
        }
    }
}

/// Whatever ends the service of a client, the end of the stream, a reset
/// or another failure of the socket, during a read or while a reply or a
/// pushed line is written, the session drains and the lines that still
/// wait are never answered; it is closed and, with the next client, serves
/// again from an empty buffer.
pub proof fn lost_connection_leads_to_the_next_client(session: SessionView, event: SessionEvent)
    requires
        session.state == SessionState::Active,
        event == SessionEvent::EndOfStream || event == SessionEvent::ConnectionReset || event
            == SessionEvent::IoError,
    ensures
        session.step(event).state == SessionState::Draining,
        session.step_action(event) == SessionAction::CloseAndWait,
        session.step(event).next_line().is_none(),
        session.step(event).after_next_line() == session.step(event),
        session.step(event).step(SessionEvent::DrainElapsed).state == SessionState::Closed,
        session.step(event).step_action(SessionEvent::DrainElapsed) == SessionAction::Abort,
        session.step(event).step(SessionEvent::DrainElapsed).step(SessionEvent::Aborted).state
            == SessionState::Accepting,
        session.step(event).step(SessionEvent::DrainElapsed).step(SessionEvent::Aborted).step(
            SessionEvent::Connected,
        ) == (SessionView {
            state: SessionState::Active,
            pending: Seq::empty(),
            carry: Seq::empty(),
        }),
{
}

/// An event keeps a sound session sound.
pub proof fn step_keeps_soundness(session: SessionView, event: SessionEvent)
    requires
        session.wf(),
    ensures
        session.step(event).wf(),
{
}

/// An arrival keeps a sound session sound and loses no byte: what waits and
/// what is kept are, together, what was kept before and what arrived.
pub proof fn receive_keeps_soundness(session: SessionView, bytes: Seq<u8>)
    requires
        session.wf(),
        session.pending.len() == 0,
        bytes.len() <= READ_BUFFER_SIZE - session.carry.len(),
    ensures
        session.receive(bytes).wf(),
        bytes.len() > 0 ==> session.receive(bytes).pending + session.receive(bytes).carry
            == session.carry + bytes,
{
    if bytes.len() > 0 {
        let all = session.carry + bytes;
        trailing_is_free_of_line_ends(all);
        let cut = all.len() - trailing_length(all);
        assert(all.take(cut) + all.skip(cut) =~= all);
    }
}

/// To take a line out keeps a sound session sound.
pub proof fn next_line_keeps_soundness(session: SessionView)
    requires
        session.wf(),
    ensures
        session.after_next_line().wf(),
{
    let due = session.due();
    if session.state == SessionState::Active && due.len() > 0 {
        let blank = blank_lines(session.pending);
        blank_lines_bounded(session.pending);
        line_length_bounded(due);
        let rest = due.skip(line_length(due) + 1 as int);
        if rest.len() > 0 {
            assert(rest.last() == session.pending.last());
        }
    }
}

/// No more line ends begin the bytes than there are bytes, and what
/// follows them begins with none.
pub proof fn blank_lines_bounded(bytes: Seq<u8>)
    ensures
        blank_lines(bytes) <= bytes.len(),
        blank_lines(bytes) < bytes.len() ==> bytes[blank_lines(bytes) as int] != NEWLINE,
    decreases bytes.len(),
{
    if bytes.len() > 0 && bytes[0] == NEWLINE {
        blank_lines_bounded(bytes.drop_first());
    }
}

/// A line is no longer than the bytes, and where the bytes end with a line
/// end, a line end follows the first line.
pub proof fn line_length_bounded(bytes: Seq<u8>)
    ensures
        line_length(bytes) <= bytes.len(),
        bytes.len() > 0 && bytes.last() == NEWLINE ==> line_length(bytes) < bytes.len(),
    decreases bytes.len(),
{
    if bytes.len() > 0 && bytes[0] != NEWLINE {
        line_length_bounded(bytes.drop_first());
        if bytes.last() == NEWLINE {
            assert(bytes.drop_first().len() > 0);
            assert(bytes.drop_first().last() == bytes.last());
        }
    }
}

/// What follows the last line end holds no line end, and a line end stands
/// before it unless there is none at all.
pub proof fn trailing_is_free_of_line_ends(bytes: Seq<u8>)
    ensures
        trailing_length(bytes) <= bytes.len(),
        forall|i: int|
            bytes.len() - trailing_length(bytes) <= i < bytes.len() ==> bytes[i] != NEWLINE,
        trailing_length(bytes) < bytes.len() ==> bytes[bytes.len() - trailing_length(bytes) - 1]
            == NEWLINE,
    decreases bytes.len(),
{
    if bytes.len() > 0 && bytes.last() != NEWLINE {
        let front = bytes.drop_last();
        trailing_is_free_of_line_ends(front);
        assert forall|i: int|
            bytes.len() - trailing_length(bytes) <= i < bytes.len() implies bytes[i]
            != NEWLINE by {
            if i < front.len() {
                assert(front[i] == bytes[i]);
            }
        }
        if trailing_length(bytes) < bytes.len() {
            assert(front[front.len() - trailing_length(front) - 1] == bytes[bytes.len()
                - trailing_length(bytes) - 1]);
        }
    }
}

} // verus!
