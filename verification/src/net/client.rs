//! The command driver of the client: the request that each command sends,
//! and what the client does behind it.

use vstd::prelude::*;
use vstd::utf8::encode_utf8;
use crate::encoding::OBJECT_ID;
use crate::net::{
    bare_packet, create_delete, create_dir, create_disconnect, create_download, create_upload,
    le16, text_packet, zeros, ArgError, Code, PACKET_SIZE,
};
use crate::text::{lower, lowered, same_text, trim, trimmed};

verus! {

/// What the client does once its request is sent.
#[derive(Debug, PartialEq, Eq, Clone, Copy, Structural)]
pub enum Follow {
    /// It sends the file.
    HostFile,
    /// It listens to the reply.
    Listen,
    /// It leaves.
    Leave,
}

/// The request to store a file on the server.
pub fn upload(file_name: &str) -> (r: ([u8; PACKET_SIZE], Follow))
    ensures
        r.0@ == text_packet(Code::Upload, le16(OBJECT_ID) + zeros(16), encode_utf8(file_name@)),
        r.1 == Follow::HostFile,
{
    (create_upload(file_name, OBJECT_ID), Follow::HostFile)
}

/// The request for a file of the server.
pub fn download(path: &str) -> (r: ([u8; PACKET_SIZE], Follow))
    ensures
        r.0@ == text_packet(Code::Download, Seq::empty(), encode_utf8(path@)),
        r.1 == Follow::Listen,
{
    (create_download(path), Follow::Listen)
}

/// The request to remove a file of the server.
pub fn delete(path: &str) -> (r: ([u8; PACKET_SIZE], Follow))
    ensures
        r.0@ == text_packet(Code::Delete, Seq::empty(), encode_utf8(path@)),
        r.1 == Follow::Listen,
{
    (create_delete(path), Follow::Listen)
}

/// The request for a listing of the server's directory.
pub fn dir() -> (r: ([u8; PACKET_SIZE], Follow))
    ensures
        r.0@ == bare_packet(Code::Dir),
        r.1 == Follow::Listen,
{
    let packet = create_dir("");
    proof {
        reveal_strlit("");
        assert(encode_utf8(""@) =~= Seq::<u8>::empty());
        assert(packet@ =~= bare_packet(Code::Dir));
    }
    (packet, Follow::Listen)
}

/// The packet that ends the session.
pub fn disconnect() -> (r: ([u8; PACKET_SIZE], Follow))
    ensures
        r.0@ == bare_packet(Code::Disconnect),
        r.1 == Follow::Leave,
{
    (create_disconnect(), Follow::Leave)
}

/// The index of the first blank at or behind `from`; the length of the text
/// where there is none.
pub open spec fn first_blank(text: Seq<char>, from: int) -> int
    decreases text.len() - from,
{
    if 0 <= from < text.len() && text[from] != ' ' {
        first_blank(text, from + 1)
    } else {
        from
    }
}

/// The parts of a text between its blanks. Two blanks in a row hold an empty
/// part, and a text without a blank is its one part.
pub open spec fn fields(text: Seq<char>) -> Seq<Seq<char>>
    decreases text.len(),
{
    let end = first_blank(text, 0);
    if 0 <= end < text.len() {
        seq![text.subrange(0, end)] + fields(text.subrange(end + 1, text.len() as int))
    } else {
        seq![text]
    }
}

/// The views of the words.
pub open spec fn words(list: Seq<&str>) -> Seq<Seq<char>> {
    Seq::new(list.len(), |i: int| list[i]@)
}

/// Cuts a text at its blanks.
pub fn split_blank<'a>(text: &'a str) -> (list: Vec<&'a str>)
    ensures
        words(list@) == fields(text@),
        list@.len() > 0,
{
    let len: usize = text.unicode_len();
    let mut list: Vec<&'a str> = Vec::new();
    let mut start: usize = 0;
    assert(text@.subrange(0, len as int) =~= text@);
    assert(words(list@) + fields(text@) =~= fields(text@));
    loop
        invariant
            start <= len,
            len == text@.len(),
            fields(text@) == words(list@) + fields(text@.subrange(start as int, len as int)),
        decreases len - start,
    {
        let ghost rest = text@.subrange(start as int, len as int);
        let ghost before = list@;
        let mut end: usize = start;
        while end < len && text.get_char(end) != ' '
            invariant
                start <= end <= len,
                len == text@.len(),
                rest == text@.subrange(start as int, len as int),
                first_blank(rest, 0) == first_blank(rest, end - start),
            decreases len - end,
        {
            end += 1;
        }
        let word = text.substring_char(start, end);
        list.push(word);
        if end == len {
            proof {
                assert(word@ =~= rest);
                assert(words(list@) =~= words(before) + seq![rest]);
            }
            return list;
        }
        proof {
            assert(rest.subrange(0, end - start) =~= word@);
            assert(rest.subrange(end - start + 1, rest.len() as int) =~= text@.subrange(
                end + 1,
                len as int,
            ));
            assert(words(list@) =~= words(before) + seq![word@]);
        }
        start = end + 1;
    }
}

/// The name of the command in a line: its first part, trimmed, in lower
/// case.
pub open spec fn command_name(line: Seq<char>) -> Seq<char> {
    lowered(trimmed(fields(trimmed(line))[0]))
}

/// The arguments of the command in a line: the parts behind the first.
pub open spec fn command_args(line: Seq<char>) -> Seq<Seq<char>> {
    fields(trimmed(line)).drop_first()
}

/// Reads a line of the shell: the name of the command and its arguments.
pub fn parse_command<'a>(command: &'a str) -> (r: (String, Vec<&'a str>))
    ensures
        r.0@ == command_name(command@),
        words(r.1@) == command_args(command@),
{
    let mut split = split_blank(trim(command));
    let ghost all = split@;
    let first = lower(trim(split[0]));
    split.remove(0);
    assert(words(split@) =~= words(all).drop_first());
    (first, split)
}

/// What the shell is asked to do.
#[derive(Debug)]
pub enum Order {
    /// Open a connection.
    Connect { host: String, port: String },
    Upload(String),
    Download(String),
    Delete(String),
    Dir,
    /// Leave the shell.
    Exit,
    /// No command of this name can be run.
    Invalid,
}

/// An order, with its texts as sequences of characters.
pub enum Request {
    Connect { host: Seq<char>, port: Seq<char> },
    Upload(Seq<char>),
    Download(Seq<char>),
    Delete(Seq<char>),
    Dir,
    Exit,
    Invalid,
}

impl View for Order {
    type V = Request;

    open spec fn view(&self) -> Request {
        match self {
            Order::Connect { host, port } => Request::Connect { host: host@, port: port@ },
            Order::Upload(path) => Request::Upload(path@),
            Order::Download(path) => Request::Download(path@),
            Order::Delete(path) => Request::Delete(path@),
            Order::Dir => Request::Dir,
            Order::Exit => Request::Exit,
            Order::Invalid => Request::Invalid,
        }
    }
}

/// What a decision of the shell holds: the request, or the message of the
/// error.
pub open spec fn decided(result: Result<Order, ArgError>) -> Result<Request, Seq<char>> {
    match result {
        Ok(order) => Ok(order@),
        Err(e) => Err(e@),
    }
}

/// The decision on a command while no connection is open: only `connect`
/// can be run, with a host and a port.
pub open spec fn pre_run(command: Seq<char>, args: Seq<Seq<char>>) -> Result<Request, Seq<char>> {
    if command == "connect"@ {
        if args.len() == 2 {
            Ok(Request::Connect { host: args[0], port: args[1] })
        } else {
            Err("Expected 2 arguments"@)
        }
    } else {
        Ok(Request::Invalid)
    }
}

/// The decision on a command of a connected client: each command with the
/// number of arguments that it takes.
pub open spec fn run(command: Seq<char>, args: Seq<Seq<char>>) -> Result<Request, Seq<char>> {
    if command == "upload"@ {
        if args.len() == 1 {
            Ok(Request::Upload(args[0]))
        } else {
            Err("Expected 1 argument"@)
        }
    } else if command == "download"@ {
        if args.len() == 1 {
            Ok(Request::Download(args[0]))
        } else {
            Err("Expected 1 argument"@)
        }
    } else if command == "delete"@ {
        if args.len() == 1 {
            Ok(Request::Delete(args[0]))
        } else {
            Err("Expected 1 argument"@)
        }
    } else if command == "dir"@ {
        if args.len() == 0 {
            Ok(Request::Dir)
        } else {
            Err("Expected 0 arguments"@)
        }
    } else {
        Ok(Request::Invalid)
    }
}

pub fn pre_run_command(command: &str, args: &Vec<&str>) -> (result: Result<Order, ArgError>)
    ensures
        decided(result) == pre_run(command@, words(args@)),
{
    if same_text(command, "connect") {
        if args.len() == 2 {
            Ok(Order::Connect { host: args[0].to_owned(), port: args[1].to_owned() })
        } else {
            Err(ArgError::new("Expected 2 arguments"))
        }
    } else {
        Ok(Order::Invalid)
    }
}

pub fn run_command(command: &str, args: &Vec<&str>) -> (result: Result<Order, ArgError>)
    ensures
        decided(result) == run(command@, words(args@)),
{
    if same_text(command, "upload") {
        if args.len() == 1 {
            Ok(Order::Upload(args[0].to_owned()))
        } else {
            Err(ArgError::new("Expected 1 argument"))
        }
    } else if same_text(command, "download") {
        if args.len() == 1 {
            Ok(Order::Download(args[0].to_owned()))
        } else {
            Err(ArgError::new("Expected 1 argument"))
        }
    } else if same_text(command, "delete") {
        if args.len() == 1 {
            Ok(Order::Delete(args[0].to_owned()))
        } else {
            Err(ArgError::new("Expected 1 argument"))
        }
    } else if same_text(command, "dir") {
        if args.is_empty() {
            Ok(Order::Dir)
        } else {
            Err(ArgError::new("Expected 0 arguments"))
        }
    } else {
        Ok(Order::Invalid)
    }
}

/// The decision on a line of the shell while no connection is open.
pub open spec fn unconnected_line(line: Seq<char>) -> Result<Request, Seq<char>> {
    pre_run(command_name(line), command_args(line))
}

/// The decision on a line of the shell of a connected client: `exit` leaves,
/// whatever stands behind it.
pub open spec fn connected_line(line: Seq<char>) -> Result<Request, Seq<char>> {
    if command_name(line) == "exit"@ {
        Ok(Request::Exit)
    } else {
        run(command_name(line), command_args(line))
    }
}

/// Decides on one line that the shell read while no connection is open.
pub fn pre_connection_shell(line: &str) -> (result: Result<Order, ArgError>)
    ensures
        decided(result) == unconnected_line(line@),
{
    let (command, args) = parse_command(line);
    pre_run_command(command.as_str(), &args)
}

/// Decides on one line that the shell of a connected client read.
pub fn post_connection_shell(line: &str) -> (result: Result<Order, ArgError>)
    ensures
        decided(result) == connected_line(line@),
{
    let (command, args) = parse_command(line);
    if same_text(command.as_str(), "exit") {
        Ok(Order::Exit)
    } else {
        run_command(command.as_str(), &args)
    }
}

/// What a client does from its start to its end.
#[derive(Debug)]
pub struct Plan {
    /// The host and the port to connect to; where one is missing, the shell
    /// asks for them.
    pub connect: Option<(String, String)>,
    /// The requests to make, in order.
    pub orders: Vec<Order>,
    /// Whether the shell follows the requests, or the client leaves.
    pub shell: bool,
}

/// The requests of a list of orders.
pub open spec fn requests(orders: Seq<Order>) -> Seq<Request> {
    Seq::new(orders.len(), |i: int| orders[i]@)
}

/// The requests that the options of a client ask for: the listing first,
/// then the download, the upload and the delete.
pub open spec fn planned(
    list: bool,
    download: Option<&str>,
    upload: Option<&str>,
    delete: Option<&str>,
) -> Seq<Request> {
    (if list {
        seq![Request::Dir]
    } else {
        Seq::empty()
    }) + (match download {
        Some(path) => seq![Request::Download(path@)],
        None => Seq::empty(),
    }) + (match upload {
        Some(path) => seq![Request::Upload(path@)],
        None => Seq::empty(),
    }) + (match delete {
        Some(path) => seq![Request::Delete(path@)],
        None => Seq::empty(),
    })
}

/// Plans the run of a client from its options. The shell follows where it is
/// asked for, and where no request is.
pub fn start_client(
    host: Option<&str>,
    port: Option<&str>,
    list: bool,
    download: Option<&str>,
    upload: Option<&str>,
    delete: Option<&str>,
    shell: bool,
) -> (plan: Plan)
    ensures
        match plan.connect {
            Some((h, p)) => {
                &&& host is Some
                &&& port is Some
                &&& h@ == host->Some_0@
                &&& p@ == port->Some_0@
            },
            None => host is None || port is None,
        },
        requests(plan.orders@) == planned(list, download, upload, delete),
        plan.shell == (shell || planned(list, download, upload, delete).len() == 0),
{
    let connect = match (host, port) {
        (Some(h), Some(p)) => Some((h.to_owned(), p.to_owned())),
        _ => None,
    };
    let mut orders: Vec<Order> = Vec::new();
    if list {
        orders.push(Order::Dir);
    }
    if let Some(path) = download {
        orders.push(Order::Download(path.to_owned()));
    }
    if let Some(path) = upload {
        orders.push(Order::Upload(path.to_owned()));
    }
    if let Some(path) = delete {
        orders.push(Order::Delete(path.to_owned()));
    }
    assert(requests(orders@) =~= planned(list, download, upload, delete));
    let shell = shell || orders.len() == 0;
    Plan { connect, orders, shell }
}

} // verus!
