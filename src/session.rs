use vstd::prelude::*;

verus! {

/// Size of the buffer that each datagram is received into.
pub const RECV_BUFFER_LEN: usize = 1024;

/// What the listen loop learns from its socket.
#[derive(Clone, Copy, Debug, PartialEq, Eq, Structural)]
pub enum ListenEvent {
    /// A datagram of this many bytes arrived.
    Received(usize),
    /// Receiving failed, for instance because the socket was closed.
    ReceiveFailed,
}

/// What the listen loop does next.
#[derive(Clone, Copy, Debug, PartialEq, Eq, Structural)]
pub enum ListenAction {
    /// Report a datagram of this many bytes and receive again.
    Report(usize),
    /// Leave the loop quietly.
    Exit,
}

/// What the talk loop learns from standard input and from its socket.
#[derive(Clone, Debug)]
pub enum TalkEvent {
    /// A line of input, without its line terminator.
    Line(String),
    /// Standard input has ended.
    EndOfInput,
    /// Reading standard input failed.
    ReadFailed,
    /// Sending a datagram failed.
    SendFailed,
}

/// What the talk loop does next.
#[derive(Clone, Debug)]
pub enum TalkAction {
    /// Send this text, byte for byte, as one datagram to the group, then
    /// read the next line.
    Send(String),
    /// Leave the loop; the process ends without error.
    Exit,
    /// Stop the process with an error.
    Abort,
}

/// The listen loop reports each datagram and ends, without an error, at the
/// first failed receive.
pub fn listen_step(event: ListenEvent) -> (r: ListenAction)
    ensures
        r == match event {
            ListenEvent::Received(n) => ListenAction::Report(n),
            ListenEvent::ReceiveFailed => ListenAction::Exit,
        },
{
    match event {
        ListenEvent::Received(n) => ListenAction::Report(n),
        ListenEvent::ReceiveFailed => ListenAction::Exit,
    }
}

/// The talk loop sends each line as it is, ends without an error when input
/// ends, and aborts when reading or sending fails.
pub fn talk_step(event: TalkEvent) -> (r: TalkAction)
    ensures
        event matches TalkEvent::Line(line) ==> r matches TalkAction::Send(payload) && payload@
            == line@,
        event is EndOfInput ==> r is Exit,
        event is ReadFailed ==> r is Abort,
        event is SendFailed ==> r is Abort,
{
    match event {
        TalkEvent::Line(line) => TalkAction::Send(line),
        TalkEvent::EndOfInput => TalkAction::Exit,
        TalkEvent::ReadFailed => TalkAction::Abort,
        TalkEvent::SendFailed => TalkAction::Abort,
    }
}

} // verus!
