//! The decisions of the port thread: what it does with the outcome of a
//! read, and with what the window sent it.
use vstd::prelude::*;

verus! {

/// What the window asks of the port thread.
pub enum PortCmd {
    /// Write these bytes to the port.
    Write(Vec<u8>),
    /// Set the DTR line.
    SetDtr(bool),
    /// Set the RTS line.
    SetRts(bool),
    /// Close the port and end the thread.
    Close,
}

/// The outcome of one read from the port.
pub enum ReadResult {
    /// This many bytes were read (possibly none).
    Bytes(usize),
    /// Nothing arrived before the read timed out.
    TimedOut,
    /// The read failed otherwise.
    Failed,
}

/// What the thread does after a read.
pub enum ReadAction {
    /// Add this many of the bytes read to the receive buffer.
    Append(usize),
    /// Nothing; go on.
    Wait,
    /// Mark the port closed and end the thread.
    Stop,
}

/// What the thread found in its inbox.
pub enum Inbox {
    Cmd(PortCmd),
    /// No message is waiting.
    Empty,
    /// The window dropped its end of the channel.
    Disconnected,
}

/// What the thread does with the port after looking at its inbox.
pub enum PortAction {
    /// Write these bytes and flush.
    Write(Vec<u8>),
    SetDtr(bool),
    SetRts(bool),
    /// Nothing; go on.
    Wait,
    /// Mark the port closed and end the thread.
    Stop,
}

/// The step after a read: bytes read are buffered, a time-out or an empty
/// read changes nothing, any other failure ends the thread.
pub fn on_read(r: ReadResult) -> (a: ReadAction)
    ensures
        match r {
            ReadResult::Bytes(n) => if n > 0 {
                a == ReadAction::Append(n)
            } else {
                a == ReadAction::Wait
            },
            ReadResult::TimedOut => a == ReadAction::Wait,
            ReadResult::Failed => a == ReadAction::Stop,
        },
{
    match r {
        ReadResult::Bytes(n) => if n > 0 {
            ReadAction::Append(n)
        } else {
            ReadAction::Wait
        },
        ReadResult::TimedOut => ReadAction::Wait,
        ReadResult::Failed => ReadAction::Stop,
    }
}

/// The step after looking at the inbox: each command becomes its port
/// operation; a close request or a dropped channel ends the thread; an
/// empty inbox changes nothing.
pub fn on_inbox(m: Inbox) -> (a: PortAction)
    ensures
        match m {
            Inbox::Cmd(PortCmd::Write(d)) => a matches PortAction::Write(w) && w@ == d@,
            Inbox::Cmd(PortCmd::SetDtr(v)) => a == PortAction::SetDtr(v),
            Inbox::Cmd(PortCmd::SetRts(v)) => a == PortAction::SetRts(v),
            Inbox::Cmd(PortCmd::Close) => a == PortAction::Stop,
            Inbox::Disconnected => a == PortAction::Stop,
            Inbox::Empty => a == PortAction::Wait,
        },
{
    match m {
        Inbox::Cmd(PortCmd::Write(d)) => PortAction::Write(d),
        Inbox::Cmd(PortCmd::SetDtr(v)) => PortAction::SetDtr(v),
        Inbox::Cmd(PortCmd::SetRts(v)) => PortAction::SetRts(v),
        Inbox::Cmd(PortCmd::Close) => PortAction::Stop,
        Inbox::Disconnected => PortAction::Stop,
        Inbox::Empty => PortAction::Wait,
    }
}

} // verus!
