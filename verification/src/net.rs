//! The packet codec: the fixed frame, the opcodes, and one encoder and one
//! decoder for each field layout.

use vstd::prelude::*;
use vstd::bytes::{spec_u64_from_le_bytes, spec_u64_to_le_bytes};
use vstd::slice::slice_subrange;
use vstd::utf8::encode_utf8;
use byteorder::{ByteOrder, LittleEndian};
use crate::text::{decoded, lossy_text, trim_end, trim_padding};

pub mod client;
pub mod laws;
pub mod server;

verus! {

/// The length of every packet.
pub const PACKET_SIZE: usize = 512;

/// Where the payload of a data packet begins.
pub const DATA_OFFSET: usize = 19;

/// Where the file name of an upload request begins.
pub const UPLOAD_NAME_OFFSET: usize = 19;

/// Where the file name of a redirect begins.
pub const REDIRECT_NAME_OFFSET: usize = 3;

/// What a command was given in place of the arguments it takes.
#[derive(Debug)]
pub struct ArgError {
    details: String,
}

impl View for ArgError {
    type V = Seq<char>;

    closed spec fn view(&self) -> Seq<char> {
        self.details@
    }
}

impl ArgError {
    pub fn new(msg: &str) -> (e: ArgError)
        ensures
            e@ == msg@,
    {
        ArgError { details: msg.to_owned() }
    }

    /// The message the error was made with.
    pub fn description(&self) -> (s: &str)
        ensures
            s@ == self@,
    {
        self.details.as_str()
    }
}

/// The purpose of a packet, held in its first byte.
#[derive(Debug, PartialEq, Eq, Clone, Copy, Structural)]
pub enum Code {
    Unknown,
    Upload,
    Download,
    Delete,
    Dir,
    Hello,
    Redirect,
    Okay,
    Error,
    Data,
    Stdout,
    End,
    Disconnect,
}

impl Code {
    /// The opcode that a byte stands for; a byte that stands for none is
    /// `Unknown`.
    pub open spec fn spec_from_u8(value: u8) -> Code {
        if value == 1 {
            Code::Upload
        } else if value == 2 {
            Code::Download
        } else if value == 3 {
            Code::Delete
        } else if value == 4 {
            Code::Dir
        } else if value == 5 {
            Code::Hello
        } else if value == 6 {
            Code::Redirect
        } else if value == 7 {
            Code::Okay
        } else if value == 8 {
            Code::Error
        } else if value == 9 {
            Code::Data
        } else if value == 10 {
            Code::Stdout
        } else if value == 11 {
            Code::End
        } else if value == 12 {
            Code::Disconnect
        } else {
            Code::Unknown
        }
    }

    /// The byte that stands for an opcode.
    pub open spec fn spec_to_u8(self) -> u8 {
        match self {
            Code::Unknown => 0,
            Code::Upload => 1,
            Code::Download => 2,
            Code::Delete => 3,
            Code::Dir => 4,
            Code::Hello => 5,
            Code::Redirect => 6,
            Code::Okay => 7,
            Code::Error => 8,
            Code::Data => 9,
            Code::Stdout => 10,
            Code::End => 11,
            Code::Disconnect => 12,
        }
    }

    #[verifier::when_used_as_spec(spec_from_u8)]
    pub fn from_u8(value: u8) -> (code: Code)
        ensures
            code == Code::spec_from_u8(value),
    {
        match value {
            0x0 => Code::Unknown,
            0x1 => Code::Upload,
            0x2 => Code::Download,
            0x3 => Code::Delete,
            0x4 => Code::Dir,
            0x5 => Code::Hello,
            0x6 => Code::Redirect,
            0x7 => Code::Okay,
            0x8 => Code::Error,
            0x9 => Code::Data,
            0xa => Code::Stdout,
            0xb => Code::End,
            0xc => Code::Disconnect,
            _ => Code::Unknown,
        }
    }

    #[verifier::when_used_as_spec(spec_to_u8)]
    pub fn to_u8(self) -> (value: u8)
        ensures
            value == self.spec_to_u8(),
    {
        match self {
            Code::Unknown => 0x0,
            Code::Upload => 0x1,
            Code::Download => 0x2,
            Code::Delete => 0x3,
            Code::Dir => 0x4,
            Code::Hello => 0x5,
            Code::Redirect => 0x6,
            Code::Okay => 0x7,
            Code::Error => 0x8,
            Code::Data => 0x9,
            Code::Stdout => 0xa,
            Code::End => 0xb,
            Code::Disconnect => 0xc,
        }
    }
}

/// Every opcode is read back from its byte.
pub proof fn lemma_code_round_trip(code: Code)
    ensures
        Code::spec_from_u8(code.spec_to_u8()) == code,
{
}

/// A byte is read back from its opcode exactly when it stands for one.
pub proof fn lemma_byte_round_trip(value: u8)
    ensures
        Code::spec_from_u8(value).spec_to_u8() == value <==> value <= 12,
{
}

/// `n` zero bytes.
pub open spec fn zeros(n: nat) -> Seq<u8> {
    Seq::new(n, |i: int| 0u8)
}

/// `text` in a field of `room` bytes: cut where it is longer, zero-filled
/// where it is shorter.
pub open spec fn padded(text: Seq<u8>, room: nat) -> Seq<u8> {
    Seq::new(
        room,
        |i: int|
            if i < text.len() {
                text[i]
            } else {
                0u8
            },
    )
}

/// The two bytes of a 16-bit field, low byte first.
pub open spec fn le16(value: u16) -> Seq<u8> {
    seq![(value % 256) as u8, (value / 256) as u8]
}

/// The 16-bit value whose low byte is `low` and whose high byte is `high`.
pub open spec fn word16(low: u8, high: u8) -> u16 {
    (high * 256 + low) as u16
}

/// A packet that holds its opcode and nothing else.
pub open spec fn bare_packet(code: Code) -> Seq<u8> {
    seq![code.spec_to_u8()] + zeros(511)
}

/// A packet with an opcode, the fixed fields `head` behind it, and `text` in
/// the rest of the frame.
pub open spec fn text_packet(code: Code, head: Seq<u8>, text: Seq<u8>) -> Seq<u8>
    recommends
        head.len() <= 511,
{
    seq![code.spec_to_u8()] + head + padded(text, (511 - head.len()) as nat)
}

/// A data packet: object id, bytes sent before this packet, total size, and
/// the payload field as it stands.
pub open spec fn data_packet(object: u16, sent: u64, total: u64, payload: Seq<u8>) -> Seq<u8>
    recommends
        payload.len() == 493,
{
    seq![Code::Data.spec_to_u8()] + le16(object) + spec_u64_to_le_bytes(sent)
        + spec_u64_to_le_bytes(total) + payload
}

/// The text in a packet from `start` to the end of the frame: decoded, and
/// without trailing NUL and white space.
pub open spec fn text_field(packet: Seq<u8>, start: int) -> Seq<char> {
    trim_end(decoded(packet.subrange(start, 512)))
}

/// Copies `text` into the frame from `start` on, as far as the frame goes.
fn write_text(packet: &mut [u8; PACKET_SIZE], start: usize, text: &[u8])
    requires
        1 <= start <= 512,
        forall|i: int| start <= i < 512 ==> old(packet)@[i] == 0,
    ensures
        final(packet)@ == old(packet)@.subrange(0, start as int) + padded(
            text@,
            (512 - start) as nat,
        ),
{
    let ghost before = packet@;
    let mut i: usize = 0;
    while i < text.len() && start + i < PACKET_SIZE
        invariant
            1 <= start <= 512,
            i <= text.len(),
            start + i <= 512,
            forall|j: int| 0 <= j < start ==> packet@[j] == before[j],
            forall|j: int| start <= j < start + i ==> packet@[j] == text@[j - start],
            forall|j: int| start + i <= j < 512 ==> packet@[j] == 0,
        decreases text.len() - i,
    {
        packet[start + i] = text[i];
        i += 1;
    }
    assert(packet@ =~= before.subrange(0, start as int) + padded(text@, (512 - start) as nat));
}

/// Writes a 16-bit value into bytes 1 and 2, low byte first.
fn write_word(packet: &mut [u8; PACKET_SIZE], value: u16)
    ensures
        final(packet)@ == old(packet)@.subrange(0, 1) + le16(value) + old(packet)@.subrange(3, 512),
{
    let ghost before = packet@;
    packet[1] = (value % 256) as u8;
    packet[2] = (value / 256) as u8;
    assert(packet@ =~= before.subrange(0, 1) + le16(value) + before.subrange(3, 512));
}

/// Reads the 16-bit value in bytes 1 and 2, low byte first.
fn read_word(packet: &[u8; PACKET_SIZE]) -> (value: u16)
    ensures
        value == word16(packet@[1], packet@[2]),
{
    let low: u16 = packet[1] as u16;
    let high: u16 = packet[2] as u16;
    high * 256 + low
}

/// Decodes the text that a packet holds from `start` on.
fn read_text(packet: &[u8; PACKET_SIZE], start: usize) -> (text: String)
    requires
        start <= 512,
    ensures
        text@ == text_field(packet@, start as int),
{
    let field = slice_subrange(packet.as_slice(), start, PACKET_SIZE);
    let raw = lossy_text(field);
    trim_padding(raw.as_str())
}

/// A packet that holds `code` and zeros.
fn create_bare(code: Code) -> (packet: [u8; PACKET_SIZE])
    ensures
        packet@ == bare_packet(code),
{
    let mut packet = [0u8; PACKET_SIZE];
    packet[0] = code.to_u8();
    assert(packet@ =~= bare_packet(code));
    packet
}

/// A packet with `code` and, from byte 1 on, `text`.
fn create_text(code: Code, text: &[u8]) -> (packet: [u8; PACKET_SIZE])
    ensures
        packet@ == text_packet(code, Seq::empty(), text@),
{
    let mut packet = create_bare(code);
    write_text(&mut packet, 1, text);
    assert(packet@ =~= text_packet(code, Seq::empty(), text@));
    packet
}

/// The redirect that announces `filename`. The port is carried and not used.
pub fn create_redirect(filename: &str, port: u16) -> (packet: [u8; PACKET_SIZE])
    ensures
        packet@ == text_packet(Code::Redirect, le16(port), encode_utf8(filename@)),
{
    let mut packet = create_bare(Code::Redirect);
    write_word(&mut packet, port);
    write_text(&mut packet, REDIRECT_NAME_OFFSET, filename.as_bytes());
    assert(packet@ =~= text_packet(Code::Redirect, le16(port), encode_utf8(filename@)));
    packet
}

pub fn create_okay() -> (packet: [u8; PACKET_SIZE])
    ensures
        packet@ == bare_packet(Code::Okay),
{
    create_bare(Code::Okay)
}

pub fn create_error() -> (packet: [u8; PACKET_SIZE])
    ensures
        packet@ == bare_packet(Code::Error),
{
    create_bare(Code::Error)
}

/// The packet that ends a reply made of text.
pub fn create_end() -> (packet: [u8; PACKET_SIZE])
    ensures
        packet@ == bare_packet(Code::End),
{
    create_bare(Code::End)
}

/// The packet that ends a session.
pub fn create_disconnect() -> (packet: [u8; PACKET_SIZE])
    ensures
        packet@ == bare_packet(Code::Disconnect),
{
    create_bare(Code::Disconnect)
}

/// The request to store a file under `file_name`. A name longer than its
/// field is cut.
pub fn create_upload(file_name: &str, id: u16) -> (packet: [u8; PACKET_SIZE])
    ensures
        packet@ == text_packet(Code::Upload, le16(id) + zeros(16), encode_utf8(file_name@)),
{
    let mut packet = create_bare(Code::Upload);
    write_word(&mut packet, id);
    write_text(&mut packet, UPLOAD_NAME_OFFSET, file_name.as_bytes());
    assert(packet@ =~= text_packet(
        Code::Upload,
        le16(id) + zeros(16),
        encode_utf8(file_name@),
    ));
    packet
}

pub fn create_download(file_name: &str) -> (packet: [u8; PACKET_SIZE])
    ensures
        packet@ == text_packet(Code::Download, Seq::empty(), encode_utf8(file_name@)),
{
    create_text(Code::Download, file_name.as_bytes())
}

pub fn create_delete(file_name: &str) -> (packet: [u8; PACKET_SIZE])
    ensures
        packet@ == text_packet(Code::Delete, Seq::empty(), encode_utf8(file_name@)),
{
    create_text(Code::Delete, file_name.as_bytes())
}

/// The request for a listing. The peer does not read the name.
pub fn create_dir(file_name: &str) -> (packet: [u8; PACKET_SIZE])
    ensures
        packet@ == text_packet(Code::Dir, Seq::empty(), encode_utf8(file_name@)),
{
    create_text(Code::Dir, file_name.as_bytes())
}

/// A packet of text for the peer to show. Text longer than the frame is cut.
pub fn create_stdout(text: &[u8]) -> (packet: [u8; PACKET_SIZE])
    ensures
        packet@ == text_packet(Code::Stdout, Seq::empty(), text@),
{
    create_text(Code::Stdout, text)
}

pub fn parse_upload(packet: &[u8; PACKET_SIZE]) -> (r: (String, u16))
    ensures
        r.0@ == text_field(packet@, 19),
        r.1 == word16(packet@[1], packet@[2]),
{
    let id = read_word(packet);
    let name = read_text(packet, UPLOAD_NAME_OFFSET);
    (name, id)
}

pub fn parse_download(packet: &[u8; PACKET_SIZE]) -> (name: String)
    ensures
        name@ == text_field(packet@, 1),
{
    read_text(packet, 1)
}

/// The eight bytes of `value`, low byte first.
///
/// Calls `write_u64` of byteorder's `LittleEndian` on a buffer of eight
/// bytes. Trusted: the buffer then holds the little-endian bytes of `value`.
#[verifier::external_body]
fn u64_le_bytes(value: u64) -> (bytes: [u8; 8])
    ensures
        bytes@ == spec_u64_to_le_bytes(value),
{
    let mut bytes = [0u8; 8];
    LittleEndian::write_u64(&mut bytes, value);
    bytes
}

/// The value whose little-endian bytes are the first eight of `bytes`.
///
/// Calls `read_u64` of byteorder's `LittleEndian`, which panics on fewer
/// than eight bytes. Trusted: it returns the value that those eight bytes
/// encode, low byte first.
#[verifier::external_body]
fn u64_from_le(bytes: &[u8]) -> (value: u64)
    requires
        bytes@.len() >= 8,
    ensures
        value == spec_u64_from_le_bytes(bytes@.subrange(0, 8)),
{
    LittleEndian::read_u64(bytes)
}

/// Copies eight bytes into the frame from `start` on.
fn write_bytes(packet: &mut [u8; PACKET_SIZE], start: usize, bytes: &[u8; 8])
    requires
        start + 8 <= 512,
    ensures
        final(packet)@ == old(packet)@.subrange(0, start as int) + bytes@ + old(packet)@.subrange(
            start + 8,
            512,
        ),
{
    let ghost before = packet@;
    let mut i: usize = 0;
    while i < 8
        invariant
            start + 8 <= 512,
            i <= 8,
            forall|j: int| 0 <= j < start ==> packet@[j] == before[j],
            forall|j: int| start <= j < start + i ==> packet@[j] == bytes@[j - start],
            forall|j: int| start + i <= j < 512 ==> packet@[j] == before[j],
        decreases 8 - i,
    {
        packet[start + i] = bytes[i];
        i += 1;
    }
    assert(packet@ =~= before.subrange(0, start as int) + bytes@ + before.subrange(
        start + 8,
        512,
    ));
}

/// Stamps a buffer as a data packet: the opcode, the object id, the bytes
/// sent before this packet and the total size. The payload stays as it is.
pub fn mod_data(packet: &mut [u8; PACKET_SIZE], object: u16, bytes_t: u64, bytes_s: u64)
    ensures
        final(packet)@ == data_packet(object, bytes_t, bytes_s, old(packet)@.subrange(19, 512)),
{
    let ghost before = packet@;
    packet[0] = Code::Data.to_u8();
    write_word(packet, object);
    let sent = u64_le_bytes(bytes_t);
    write_bytes(packet, 3, &sent);
    let total = u64_le_bytes(bytes_s);
    write_bytes(packet, 11, &total);
    assert(packet@ =~= data_packet(object, bytes_t, bytes_s, before.subrange(19, 512)));
}

/// The header of a data packet: object id, bytes sent before this packet,
/// total size.
pub fn parse_data(packet: [u8; PACKET_SIZE]) -> (r: (u16, u64, u64))
    ensures
        r.0 == word16(packet@[1], packet@[2]),
        r.1 == spec_u64_from_le_bytes(packet@.subrange(3, 11)),
        r.2 == spec_u64_from_le_bytes(packet@.subrange(11, 19)),
{
    let id = read_word(&packet);
    let transmitted = slice_subrange(packet.as_slice(), 3, 11);
    let total = slice_subrange(packet.as_slice(), 11, 19);
    assert(transmitted@.subrange(0, 8) =~= packet@.subrange(3, 11));
    assert(total@.subrange(0, 8) =~= packet@.subrange(11, 19));
    (id, u64_from_le(transmitted), u64_from_le(total))
}

pub fn parse_redirect(packet: [u8; PACKET_SIZE]) -> (r: (u16, String))
    ensures
        r.0 == word16(packet@[1], packet@[2]),
        r.1@ == text_field(packet@, 3),
{
    let port = read_word(&packet);
    let file = read_text(&packet, REDIRECT_NAME_OFFSET);
    (port, file)
}

pub fn parse_delete(packet: [u8; PACKET_SIZE]) -> (name: String)
    ensures
        name@ == text_field(packet@, 1),
{
    read_text(&packet, 1)
}

/// The argument of a listing request: none is read.
pub fn parse_dir(_packet: [u8; PACKET_SIZE]) -> (name: String)
    ensures
        name@ == Seq::<char>::empty(),
{
    String::new()
}

pub fn parse_packet(packet: &[u8; PACKET_SIZE]) -> (code: Code)
    ensures
        code == Code::spec_from_u8(packet@[0]),
{
    Code::from_u8(packet[0])
}

} // verus!
