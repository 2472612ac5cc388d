//! The connection manager: owns at most one active transport, mediates
//! connect, send and disconnect, and reports every lifecycle transition as a
//! [`Notification`] value for the caller's event sink.  The manager never
//! retries and never reconnects; a dropped link requires a new `connect`.

use vstd::prelude::*;
use vstd::string::StringExecFns;

use crate::codec::{encode, packet_json};
use crate::serial::{open_serial, write_text, SerialLink};
use crate::value::ActionPacket;

verus! {

/// The baud rate the device's firmware expects.
pub const BAUD_RATE: u32 = 115200;

/// The bounded I/O timeout of the serial link, in milliseconds.
pub const IO_TIMEOUT_MS: u64 = 2000;

/// An event owed to the external notification sink: a connection-state
/// change, an inbound message from a duplex transport, or a rejected verb.
#[derive(Debug, PartialEq, Eq)]
pub enum Notification {
    Connected(bool),
    Inbound(String),
    InvalidAction(String),
}

/// Why a manager operation failed, each carrying what the caller needs for
/// a human-readable report.
#[derive(Debug, PartialEq, Eq)]
pub enum ManagerError {
    NotConnected,
    TransportOpenFailure(String),
    TransportIoFailure(String),
}

impl ManagerError {
    /// The human-readable message carried to the caller.
    pub open spec fn spec_message(&self) -> Seq<char> {
        match self {
            ManagerError::NotConnected => "not connected"@,
            ManagerError::TransportOpenFailure(m) => m@,
            ManagerError::TransportIoFailure(m) => "Write failed: "@ + m@,
        }
    }

    /// Renders the error as its human-readable message.
    pub fn message(&self) -> (r: String)
        ensures
            r@ == self.spec_message(),
    {
        match self {
            ManagerError::NotConnected => "not connected".to_owned(),
            ManagerError::TransportOpenFailure(m) => m.clone(),
            ManagerError::TransportIoFailure(m) => {
                let mut s = "Write failed: ".to_owned();
                s.append(m.as_str());
                s
            },
        }
    }
}

/// Why sending a command line failed: the line did not parse, or the link
/// refused it.
#[derive(Debug, PartialEq, Eq)]
pub enum CommandError {
    Parse(crate::parser::ParseError),
    Link(ManagerError),
}

/// Owns the single active transport.  The abstract state is `connected` —
/// the manager holds a link exactly while connected — together with the log
/// of texts handed to successful writes.
pub struct ConnectionManager {
    link: Option<SerialLink>,
    sent: Ghost<Seq<Seq<char>>>,
}

impl ConnectionManager {
    /// Whether a transport is currently held.
    pub closed spec fn connected(&self) -> bool {
        self.link is Some
    }

    /// The texts handed to successful writes, in order.
    pub closed spec fn sent_log(&self) -> Seq<Seq<char>> {
        self.sent@
    }

    /// Creates a manager in the initial, disconnected state.
    pub fn new() -> (r: ConnectionManager)
        ensures
            !r.connected(),
            r.sent_log() == Seq::<Seq<char>>::empty(),
    {
        ConnectionManager { link: None, sent: Ghost(Seq::empty()) }
    }

    /// Reports the current state, together with the `connected`
    /// notification the caller owes its sink.
    pub fn is_connected(&self) -> (r: (bool, Notification))
        ensures
            r.0 == self.connected(),
            r.1 == Notification::Connected(self.connected()),
    {
        let b = self.link.is_some();
        (b, Notification::Connected(b))
    }

    /// Connects to the named port.  While already connected this is a
    /// no-op that keeps the held transport — no second link is opened — and
    /// still reports success.  Otherwise the port is opened; on failure the
    /// manager stays disconnected and the error is surfaced.  The returned
    /// notification reports the resulting state.
    pub fn connect(&mut self, port_name: &str) -> (r: (Result<(), ManagerError>, Notification))
        ensures
            old(self).connected() ==> *final(self) == *old(self) && r.0 is Ok && r.1
                == Notification::Connected(true),
            !old(self).connected() ==> {
                &&& r.0 is Ok <==> final(self).connected()
                &&& final(self).sent_log() == old(self).sent_log()
                &&& r.0 is Ok ==> r.1 == Notification::Connected(true)
                &&& r.0 is Err ==> *final(self) == *old(self) && r.1 == Notification::Connected(
                    false,
                ) && r.0->Err_0 is TransportOpenFailure
            },
    {
        if self.link.is_some() {
            return (Ok(()), Notification::Connected(true));
        }
        match open_serial(port_name, BAUD_RATE, IO_TIMEOUT_MS) {
            Ok(l) => {
                self.link = Some(l);
                (Ok(()), Notification::Connected(true))
            },
            Err(m) => (Err(ManagerError::TransportOpenFailure(m)), Notification::Connected(false)),
        }
    }

    /// Disconnects.  While connected the transport is dropped, the state
    /// flips, and the `connected=false` notification is owed; while already
    /// disconnected this is an error, not a no-op.
    pub fn disconnect(&mut self) -> (r: (Result<(), ManagerError>, Option<Notification>))
        ensures
            !final(self).connected(),
            final(self).sent_log() == old(self).sent_log(),
            old(self).connected() ==> r.0 is Ok && r.1 == Some(Notification::Connected(false)),
            !old(self).connected() ==> r.0 == Err::<(), ManagerError>(ManagerError::NotConnected)
                && *final(self) == *old(self) && r.1 is None,
    {
        match self.link.take() {
            Some(_l) => (Ok(()), Some(Notification::Connected(false))),
            None => (Err(ManagerError::NotConnected), None),
        }
    }

    /// What a duplex transport's read loop does when its inbound stream
    /// ends or fails: the first observation flips the state to disconnected
    /// and owes exactly one `connected=false` notification; any later one
    /// finds the state already disconnected and owes nothing.
    pub fn on_stream_end(&mut self) -> (r: Option<Notification>)
        ensures
            !final(self).connected(),
            final(self).sent_log() == old(self).sent_log(),
            old(self).connected() ==> r == Some(Notification::Connected(false)),
            !old(self).connected() ==> r is None && *final(self) == *old(self),
    {
        match self.link.take() {
            Some(_l) => Some(Notification::Connected(false)),
            None => None,
        }
    }

    /// What a duplex transport's read loop does with one inbound frame: it
    /// is owed to the sink as an inbound-message notification, unchanged.
    pub fn on_inbound_frame(&self, text: String) -> (n: Notification)
        ensures
            n == Notification::Inbound(text),
    {
        Notification::Inbound(text)
    }

    /// Sends a packet: fails with `NotConnected` before any successful
    /// connect, else writes the packet's canonical wire text followed by a
    /// newline through the held transport, surfacing a write failure as
    /// `TransportIoFailure`.  The connection state is not changed; on
    /// success exactly that text joins the log of written texts.
    pub fn send(&mut self, packet: &ActionPacket) -> (r: Result<(), ManagerError>)
        ensures
            final(self).connected() == old(self).connected(),
            !old(self).connected() ==> r == Err::<(), ManagerError>(ManagerError::NotConnected)
                && *final(self) == *old(self),
            old(self).connected() ==> (r is Ok || r->Err_0 is TransportIoFailure),
            r is Ok ==> final(self).sent_log() == old(self).sent_log().push(
                packet_json(packet@) + "\n"@,
            ),
            r is Err ==> final(self).sent_log() == old(self).sent_log(),
    {
        match self.link.take() {
            None => Err(ManagerError::NotConnected),
            Some(mut l) => {
                let mut text = encode(packet);
                text.append("\n");
                let res = write_text(&mut l, text.as_str());
                self.link = Some(l);
                match res {
                    Ok(u) => {
                        self.sent = Ghost(self.sent@.push(text@));
                        Ok(u)
                    },
                    Err(m) => Err(ManagerError::TransportIoFailure(m)),
                }
            },
        }
    }

    /// Parses one command line and sends the resulting packet: a parse
    /// failure is surfaced without touching the link; otherwise this sends
    /// exactly as `send` does.
    pub fn send_command(&mut self, line: &str) -> (r: Result<(), CommandError>)
        ensures
            final(self).connected() == old(self).connected(),
            crate::parser::parse_spec(line@) is Err ==> *final(self) == *old(self) && r is Err && (
            r->Err_0 matches CommandError::Parse(e) && e@ == crate::parser::parse_spec(
                line@,
            )->Err_0),
            crate::parser::parse_spec(line@) is Ok && !old(self).connected() ==> r == Err::<
                (),
                CommandError,
            >(CommandError::Link(ManagerError::NotConnected)) && *final(self) == *old(self),
            crate::parser::parse_spec(line@) is Ok && old(self).connected() ==> (r is Ok || (
            r->Err_0 matches CommandError::Link(m) && m is TransportIoFailure)),
            r is Ok ==> final(self).sent_log() == old(self).sent_log().push(
                packet_json(crate::parser::parse_spec(line@)->Ok_0) + "\n"@,
            ),
            r is Err ==> final(self).sent_log() == old(self).sent_log(),
    {
        match crate::parser::parse(line) {
            Err(e) => Err(CommandError::Parse(e)),
            Ok(packet) => match self.send(&packet) {
                Ok(u) => Ok(u),
                Err(m) => Err(CommandError::Link(m)),
            },
        }
    }
}

} // verus!
