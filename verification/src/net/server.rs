//! The session of the server: what it does for each request that it reads,
//! and what it replies when the work is done.

use vstd::prelude::*;
use vstd::utf8::encode_utf8;
use crate::encoding::{frames, Ending, FileReceiver};
use crate::net::{
    bare_packet, create_error, create_okay, create_redirect, le16, parse_delete, parse_dir,
    parse_download, parse_packet, parse_redirect, parse_upload, text_field, text_packet, word16,
    Code, PACKET_SIZE,
};

verus! {

/// Where a session stands.
#[derive(Debug, PartialEq, Eq, Clone, Copy, Structural)]
pub enum State {
    /// The next packet is a request.
    AwaitingCommand,
    /// The request with this opcode is being worked on.
    Dispatching(Code),
    /// The peer has left.
    Closed,
}

/// What the worker is to do for a request.
#[derive(Debug)]
pub enum Command {
    /// Receive a file from the stream and store it under `name`.
    Receive { name: String, id: u16 },
    /// Remove the file at `path`.
    Remove { path: String },
    /// List the working directory to the peer.
    List,
    /// Send `ack`, then the file at `path`.
    Send { path: String, ack: [u8; PACKET_SIZE] },
    /// Send `reply` and go on reading: the request is none that the server
    /// works on.
    Refuse { reply: [u8; PACKET_SIZE] },
    /// Stop reading: the peer has left. Nothing is sent.
    Close,
}

/// How the work on a request ended.
#[derive(Debug, PartialEq, Eq, Clone, Copy, Structural)]
pub enum Handled {
    /// It was done.
    Done,
    /// The file system refused it.
    Failed,
    /// A data packet announced another total than the first one.
    Mismatch,
}

/// How the work on a request ended where it was to receive a file. Only
/// another total breaks the protocol: a transfer that another packet ended,
/// or that the stream starved, is done as far as it came, and `ending` tells
/// the caller that it is not whole.
pub open spec fn handled_receive(ending: Ending) -> Handled {
    if ending == Ending::Mismatch {
        Handled::Mismatch
    } else {
        Handled::Done
    }
}

impl Handled {
    /// The end of the work on a request from the end of its transfer.
    pub fn of_receive(ending: Ending) -> (handled: Handled)
        ensures
            handled == handled_receive(ending),
    {
        match ending {
            Ending::Mismatch => Handled::Mismatch,
            _ => Handled::Done,
        }
    }
}

/// The opcodes of the requests that the server works on.
pub open spec fn is_request(code: Code) -> bool {
    code == Code::Upload || code == Code::Delete || code == Code::Dir || code == Code::Redirect
        || code == Code::Download
}

/// The state behind a packet with opcode `code`.
pub open spec fn state_after(code: Code) -> State {
    if code == Code::Disconnect {
        State::Closed
    } else if is_request(code) {
        State::Dispatching(code)
    } else {
        State::AwaitingCommand
    }
}

/// Whether `command` is what the server does for `packet`, taken to have
/// opcode `code`.
pub open spec fn command_for(command: Command, code: Code, packet: Seq<u8>) -> bool {
    match command {
        Command::Receive { name, id } => {
            &&& code == Code::Upload || code == Code::Redirect
            &&& id == word16(packet[1], packet[2])
            &&& name@ == text_field(
                packet,
                if code == Code::Upload {
                    19
                } else {
                    3
                },
            )
        },
        Command::Remove { path } => code == Code::Delete && path@ == text_field(packet, 1),
        Command::List => code == Code::Dir,
        Command::Send { path, ack } => {
            &&& code == Code::Download
            &&& path@ == text_field(packet, 1)
            &&& ack@ == text_packet(Code::Redirect, le16(0), encode_utf8(path@))
        },
        Command::Refuse { reply } => {
            &&& code != Code::Disconnect
            &&& !is_request(code)
            &&& reply@ == bare_packet(Code::Error)
        },
        Command::Close => code == Code::Disconnect,
    }
}

/// The packets that close the work on a request. Work that was done is
/// acknowledged. A delete that failed is reported as text and ends its reply
/// itself, and so does a listing that was sent: neither is acknowledged.
/// Any other failure is answered with an error, and the session goes on: by
/// design, a file that cannot be created or opened does not end the
/// connection, and neither does a transfer that broke the protocol.
pub open spec fn replies_after(code: Code, handled: Handled) -> Seq<Seq<u8>> {
    if code == Code::Delete && handled != Handled::Done {
        seq![
            text_packet(Code::Stdout, Seq::empty(), encode_utf8("Unable to delete file"@)),
            bare_packet(Code::End),
        ]
    } else if code == Code::Dir && handled == Handled::Done {
        Seq::empty()
    } else if handled == Handled::Done {
        seq![bare_packet(Code::Okay)]
    } else {
        seq![bare_packet(Code::Error)]
    }
}

/// The session of one connection.
#[derive(Debug)]
pub struct Connection {
    state: State,
}

impl View for Connection {
    type V = State;

    closed spec fn view(&self) -> State {
        self.state
    }
}

impl Connection {
    /// A session is at work only on a request.
    pub open spec fn wf(&self) -> bool {
        match self@ {
            State::Dispatching(code) => is_request(code),
            _ => true,
        }
    }

    pub fn new() -> (connection: Connection)
        ensures
            connection@ == State::AwaitingCommand,
            connection.wf(),
    {
        Connection { state: State::AwaitingCommand }
    }

    pub fn state(&self) -> (state: State)
        ensures
            state == self@,
    {
        self.state
    }

    /// Takes what a read of the stream gave: a packet, or nothing where the
    /// peer has closed the stream or the read failed. Nothing closes the
    /// session; a packet is a request.
    pub fn handle(&mut self, packet: Option<[u8; PACKET_SIZE]>) -> (command: Command)
        requires
            old(self)@ == State::AwaitingCommand,
        ensures
            final(self).wf(),
            match packet {
                Some(packet) => {
                    &&& final(self)@ == state_after(Code::spec_from_u8(packet@[0]))
                    &&& command_for(command, Code::spec_from_u8(packet@[0]), packet@)
                },
                None => final(self)@ == State::Closed && command is Close,
            },
    {
        match packet {
            Some(packet) => {
                let code = parse_packet(&packet);
                self.handle_command(code, packet)
            },
            None => {
                self.state = State::Closed;
                Command::Close
            },
        }
    }

    /// Decides what to do for a request with opcode `command`.
    pub fn handle_command(&mut self, command: Code, packet: [u8; PACKET_SIZE]) -> (action:
        Command)
        requires
            old(self)@ == State::AwaitingCommand,
        ensures
            final(self).wf(),
            final(self)@ == state_after(command),
            command_for(action, command, packet@),
    {
        match command {
            Code::Upload => {
                let (name, id) = parse_upload(&packet);
                self.state = State::Dispatching(command);
                Command::Receive { name, id }
            },
            Code::Delete => {
                let path = parse_delete(packet);
                self.state = State::Dispatching(command);
                Command::Remove { path }
            },
            Code::Dir => {
                let _arg = parse_dir(packet);
                self.state = State::Dispatching(command);
                Command::List
            },
            Code::Redirect => {
                let (port, name) = parse_redirect(packet);
                self.state = State::Dispatching(command);
                Command::Receive { name, id: port }
            },
            Code::Download => {
                let path = parse_download(&packet);
                let ack = create_redirect(path.as_str(), 0);
                self.state = State::Dispatching(command);
                Command::Send { path, ack }
            },
            Code::Disconnect => {
                self.state = State::Closed;
                Command::Close
            },
            _ => Command::Refuse { reply: create_error() },
        }
    }

    /// Closes the work on a request: the packets to send, after which the
    /// session awaits the next request.
    pub fn finish(&mut self, handled: Handled) -> (replies: Vec<[u8; PACKET_SIZE]>)
        requires
            old(self)@ is Dispatching,
        ensures
            final(self)@ == State::AwaitingCommand,
            final(self).wf(),
            frames(replies@) == replies_after(old(self)@->Dispatching_0, handled),
    {
        let code = match self.state {
            State::Dispatching(code) => code,
            _ => Code::Unknown,
        };
        self.state = State::AwaitingCommand;
        let mut replies: Vec<[u8; PACKET_SIZE]> = Vec::new();
        if code == Code::Delete && handled != Handled::Done {
            replies = FileReceiver::new().delete_file(false);
        } else if code == Code::Dir && handled == Handled::Done {
        } else if handled == Handled::Done {
            replies.push(create_okay());
        } else {
            replies.push(create_error());
        }
        assert(frames(replies@) =~= replies_after(code, handled));
        replies
    }
}

} // verus!
