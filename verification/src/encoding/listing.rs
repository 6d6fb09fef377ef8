//! Replies made of text: the directory listing, the report of a failed
//! delete, and the listener that reads them.

use vstd::prelude::*;
use vstd::slice::{slice_subrange, slice_to_vec};
use vstd::utf8::encode_utf8;
use crate::encoding::{
    frames, receive_run, FileReceiver, FileTransmitter, Outcome, Progress, Receipt,
};
use crate::net::{
    bare_packet, create_end, create_stdout, parse_packet, parse_redirect, text_field,
    text_packet, word16, Code, PACKET_SIZE,
};

verus! {

/// The bytes of text that one packet carries at most.
pub const TEXT_SIZE: usize = 511;

/// The line feed that ends each entry of a listing.
pub const LINE_FEED: u8 = 10;

/// The encoded names of the entries.
pub open spec fn names(entries: Seq<String>) -> Seq<Seq<u8>> {
    Seq::new(entries.len(), |i: int| encode_utf8(entries[i]@))
}

/// The text of a listing: each name in order, with a line feed behind it.
pub open spec fn listing(names: Seq<Seq<u8>>) -> Seq<u8>
    decreases names.len(),
{
    if names.len() == 0 {
        Seq::empty()
    } else {
        listing(names.drop_last()) + names.last() + seq![LINE_FEED]
    }
}

/// The number of packets that carry `len` bytes of text: one for each 511
/// bytes begun, and one for no text at all.
pub open spec fn text_count(len: nat) -> nat {
    if len == 0 {
        1
    } else {
        ((len - 1) / 511 + 1) as nat
    }
}

/// The part of `text` that the `k`-th packet carries.
pub open spec fn text_at(text: Seq<u8>, k: int) -> Seq<u8> {
    text.subrange(
        511 * k,
        if text.len() - 511 * k > 511 {
            511 * k + 511
        } else {
            text.len() as int
        },
    )
}

/// The packets of a reply made of `text`: the text cut at every 511th byte,
/// each part in a packet of output, the last one zero-filled, and the packet
/// that ends the reply.
pub open spec fn text_packets(text: Seq<u8>) -> Seq<Seq<u8>> {
    Seq::new(
        text_count(text.len()) + 1,
        |k: int|
            if k < text_count(text.len()) {
                text_packet(Code::Stdout, Seq::empty(), text_at(text, k))
            } else {
                bare_packet(Code::End)
            },
    )
}

/// The length of `bytes` without its trailing zeros.
pub open spec fn stripped_len(bytes: Seq<u8>) -> nat
    decreases bytes.len(),
{
    if bytes.len() > 0 && bytes.last() == 0 {
        stripped_len(bytes.drop_last())
    } else {
        bytes.len()
    }
}

/// The text that a packet of output carries: the frame behind the opcode,
/// without the zeros that fill it.
pub open spec fn stdout_text(packet: Seq<u8>) -> Seq<u8> {
    packet.subrange(1, 1 + stripped_len(packet.subrange(1, 512)) as int)
}

/// The index of the first line feed at or behind `from`; the length of the
/// text where there is none.
pub open spec fn first_feed(text: Seq<u8>, from: int) -> int
    decreases text.len() - from,
{
    if 0 <= from < text.len() && text[from] != LINE_FEED {
        first_feed(text, from + 1)
    } else {
        from
    }
}

/// The lines of a text: what stands before each line feed. What stands
/// behind the last line feed is no line.
pub open spec fn lines(text: Seq<u8>) -> Seq<Seq<u8>>
    decreases text.len(),
{
    let end = first_feed(text, 0);
    if 0 <= end < text.len() {
        seq![text.subrange(0, end)] + lines(text.subrange(end + 1, text.len() as int))
    } else {
        Seq::empty()
    }
}

/// The views of the rows.
pub open spec fn rows(list: Seq<Vec<u8>>) -> Seq<Seq<u8>> {
    Seq::new(list.len(), |i: int| list[i]@)
}

/// What the listener makes of one packet of a reply.
#[derive(Debug)]
pub enum Heard {
    /// A file follows under this name: the listener turns receiver.
    Redirect { port: u16, name: String },
    /// Text to show.
    Text(Vec<u8>),
    /// The reply is over.
    End,
    /// A packet that the listener passes over.
    Other(Code),
}

/// What the listener has at the end of a reply.
pub struct Listened {
    /// The text of the packets of output, in a row.
    pub text: Seq<u8>,
    /// The redirect that ended the reply, if one did.
    pub redirect: Option<(u16, Seq<char>)>,
    /// The file that was received behind the redirect.
    pub file: Option<Outcome>,
    /// The index of the first packet that was not read.
    pub next: int,
    /// Whether the reply was ended, or the packets ran out.
    pub ended: bool,
}

/// The listener's run through `packets` from index `from` on: it gathers the
/// text of the packets of output and passes over what it does not know. The
/// packet that ends the reply stops it. At a redirect it turns receiver for
/// the packets that follow, and stops where the receiver does.
pub open spec fn listen_run(packets: Seq<Seq<u8>>, from: int) -> Listened
    decreases packets.len() - from,
{
    if from < 0 || from >= packets.len() {
        Listened { text: Seq::empty(), redirect: None, file: None, next: from, ended: false }
    } else {
        let packet = packets[from];
        let code = Code::spec_from_u8(packet[0]);
        if code == Code::End {
            Listened {
                text: Seq::empty(),
                redirect: None,
                file: None,
                next: from + 1,
                ended: true,
            }
        } else if code == Code::Redirect {
            let run = receive_run(Progress::receiving(), packets, from + 1);
            Listened {
                text: Seq::empty(),
                redirect: Some((word16(packet[1], packet[2]), text_field(packet, 3))),
                file: Some(run),
                next: run.next,
                ended: true,
            }
        } else if code == Code::Stdout {
            let rest = listen_run(packets, from + 1);
            Listened { text: stdout_text(packet) + rest.text, ..rest }
        } else {
            listen_run(packets, from + 1)
        }
    }
}

/// What the listener read from packets held in memory.
#[derive(Debug)]
pub struct Reply {
    pub text: Vec<u8>,
    pub redirect: Option<(u16, String)>,
    pub file: Option<Receipt>,
    pub next: usize,
    pub ended: bool,
}

impl Reply {
    /// Whether the reply holds what a run of the listener gave.
    pub open spec fn matches(&self, run: Listened) -> bool {
        &&& self.text@ == run.text
        &&& self.next == run.next
        &&& self.ended == run.ended
        &&& match self.redirect {
            Some((port, name)) => run.redirect == Some((port, name@)),
            None => run.redirect is None,
        }
        &&& match self.file {
            Some(receipt) => run.file is Some && receipt.matches(run.file->Some_0),
            None => run.file is None,
        }
    }
}

impl FileTransmitter {
    /// Frames `text` as a reply: packets of output, then the packet that
    /// ends the reply.
    pub fn reply(&self, text: &[u8]) -> (packets: Vec<[u8; PACKET_SIZE]>)
        ensures
            frames(packets@) == text_packets(text@),
    {
        let len: usize = text.len();
        let count: usize = if len == 0 {
            1
        } else {
            (len - 1) / TEXT_SIZE + 1
        };
        let mut packets: Vec<[u8; PACKET_SIZE]> = Vec::new();
        let mut k: usize = 0;
        while k < count
            invariant
                k <= count,
                len == text@.len(),
                count == text_count(text@.len()),
                packets.len() == k,
                forall|i: int|
                    0 <= i < k ==> (#[trigger] packets@[i])@ == text_packets(text@)[i],
            decreases count - k,
        {
            assert(TEXT_SIZE * k == 511 * k <= len);
            let start: usize = TEXT_SIZE * k;
            let end: usize = if len - start > TEXT_SIZE {
                start + TEXT_SIZE
            } else {
                len
            };
            let part = slice_subrange(text, start, end);
            assert(part@ == text_at(text@, k as int));
            packets.push(create_stdout(part));
            k += 1;
        }
        packets.push(create_end());
        assert(frames(packets@) =~= text_packets(text@));
        packets
    }

    /// Lists a directory for the peer: the names of its entries, in the
    /// order given, each closed by a line feed, as a reply. A name may begin
    /// in one packet and go on in the next.
    pub fn dir(&self, entries: &Vec<String>) -> (packets: Vec<[u8; PACKET_SIZE]>)
        ensures
            frames(packets@) == text_packets(listing(names(entries@))),
    {
        let mut text: Vec<u8> = Vec::new();
        let mut i: usize = 0;
        while i < entries.len()
            invariant
                i <= entries.len(),
                text@ == listing(names(entries@).subrange(0, i as int)),
            decreases entries.len() - i,
        {
            let ghost before = text@;
            let name = entries[i].as_str().as_bytes();
            let mut k: usize = 0;
            while k < name.len()
                invariant
                    k <= name.len(),
                    text@ == before + name@.subrange(0, k as int),
                decreases name.len() - k,
            {
                text.push(name[k]);
                k += 1;
                assert(text@ =~= before + name@.subrange(0, k as int));
            }
            text.push(LINE_FEED);
            i += 1;
            proof {
                let so_far = names(entries@).subrange(0, i as int);
                assert(so_far.drop_last() =~= names(entries@).subrange(0, i - 1));
                assert(so_far.last() == name@);
                assert(name@.subrange(0, name@.len() as int) =~= name@);
                assert(text@ =~= listing(so_far.drop_last()) + so_far.last() + seq![LINE_FEED]);
            }
        }
        assert(names(entries@).subrange(0, i as int) =~= names(entries@));
        self.reply(text.as_slice())
    }
}

impl FileReceiver {
    /// The packets by which the handler of a delete request reports itself:
    /// none where the file was removed, the failure as text and the end of
    /// the reply where it was not.
    pub fn delete_file(&self, removed: bool) -> (packets: Vec<[u8; PACKET_SIZE]>)
        ensures
            removed ==> packets@.len() == 0,
            !removed ==> frames(packets@) == seq![
                text_packet(Code::Stdout, Seq::empty(), encode_utf8("Unable to delete file"@)),
                bare_packet(Code::End),
            ],
    {
        let mut packets: Vec<[u8; PACKET_SIZE]> = Vec::new();
        if !removed {
            packets.push(create_stdout("Unable to delete file".as_bytes()));
            packets.push(create_end());
            assert(frames(packets@) =~= seq![
                text_packet(Code::Stdout, Seq::empty(), encode_utf8("Unable to delete file"@)),
                bare_packet(Code::End),
            ]);
        }
        packets
    }

    /// The text of a packet of output.
    pub fn stdout_payload(packet: &[u8; PACKET_SIZE]) -> (text: Vec<u8>)
        ensures
            text@ == stdout_text(packet@),
    {
        let ghost field = packet@.subrange(1, 512);
        let mut n: usize = TEXT_SIZE;
        assert(field.subrange(0, n as int) == field);
        while n > 0 && packet[n] == 0
            invariant
                n <= 511,
                field == packet@.subrange(1, 512),
                stripped_len(field) == stripped_len(field.subrange(0, n as int)),
            decreases n,
        {
            assert(field.subrange(0, n as int).drop_last() == field.subrange(0, n as int - 1));
            n = n - 1;
        }
        let mut text: Vec<u8> = Vec::new();
        let mut k: usize = 0;
        while k < n
            invariant
                k <= n <= 511,
                text@ == packet@.subrange(1, 1 + k),
            decreases n - k,
        {
            text.push(packet[1 + k]);
            k += 1;
            assert(text@ =~= packet@.subrange(1, 1 + k));
        }
        text
    }

    /// The entries of a listing, from its text.
    pub fn entries(text: &[u8]) -> (list: Vec<Vec<u8>>)
        ensures
            rows(list@) == lines(text@),
    {
        let len: usize = text.len();
        let mut list: Vec<Vec<u8>> = Vec::new();
        let mut start: usize = 0;
        assert(text@.subrange(0, len as int) =~= text@);
        assert(rows(list@) + lines(text@) =~= lines(text@));
        while start < len
            invariant
                start <= len,
                len == text@.len(),
                lines(text@) == rows(list@) + lines(text@.subrange(start as int, len as int)),
            decreases len - start,
        {
            let ghost rest = text@.subrange(start as int, len as int);
            let mut end: usize = start;
            while end < len && text[end] != LINE_FEED
                invariant
                    start <= end <= len,
                    len == text@.len(),
                    rest == text@.subrange(start as int, len as int),
                    first_feed(rest, 0) == first_feed(rest, end - start),
                decreases len - end,
            {
                end += 1;
            }
            if end == len {
                assert(lines(rest) =~= Seq::<Seq<u8>>::empty());
                assert(lines(text@) =~= rows(list@));
                return list;
            }
            let ghost before = list@;
            let line = slice_to_vec(slice_subrange(text, start, end));
            list.push(line);
            proof {
                assert(rest.subrange(0, end - start) =~= line@);
                assert(rest.subrange(end - start + 1, rest.len() as int) =~= text@.subrange(
                    end + 1,
                    len as int,
                ));
                assert(rows(list@) =~= rows(before) + seq![line@]);
            }
            start = end + 1;
        }
        assert(lines(text@.subrange(start as int, len as int)) =~= Seq::<Seq<u8>>::empty());
        assert(lines(text@) =~= rows(list@));
        list
    }

    /// Takes one packet of a reply.
    pub fn hear(&self, packet: &[u8; PACKET_SIZE]) -> (heard: Heard)
        ensures
            match heard {
                Heard::Redirect { port, name } => {
                    &&& Code::spec_from_u8(packet@[0]) == Code::Redirect
                    &&& port == word16(packet@[1], packet@[2])
                    &&& name@ == text_field(packet@, 3)
                },
                Heard::Text(text) => {
                    &&& Code::spec_from_u8(packet@[0]) == Code::Stdout
                    &&& text@ == stdout_text(packet@)
                },
                Heard::End => Code::spec_from_u8(packet@[0]) == Code::End,
                Heard::Other(code) => {
                    &&& code == Code::spec_from_u8(packet@[0])
                    &&& code != Code::Redirect
                    &&& code != Code::Stdout
                    &&& code != Code::End
                },
            },
    {
        let code = parse_packet(packet);
        match code {
            Code::Redirect => {
                let (port, name) = parse_redirect(*packet);
                Heard::Redirect { port, name }
            },
            Code::Stdout => Heard::Text(Self::stdout_payload(packet)),
            Code::End => Heard::End,
            _ => Heard::Other(code),
        }
    }

    /// Listens to a reply held in memory, from the first packet on.
    pub fn listen(&mut self, packets: &Vec<[u8; PACKET_SIZE]>) -> (reply: Reply)
        ensures
            reply.matches(listen_run(frames(packets@), 0)),
    {
        let ghost all = listen_run(frames(packets@), 0);
        let mut text: Vec<u8> = Vec::new();
        let mut i: usize = 0;
        while i < packets.len()
            invariant
                i <= packets.len(),
                all == listen_run(frames(packets@), 0),
                all.text == text@ + listen_run(frames(packets@), i as int).text,
                all.redirect == listen_run(frames(packets@), i as int).redirect,
                all.file == listen_run(frames(packets@), i as int).file,
                all.next == listen_run(frames(packets@), i as int).next,
                all.ended == listen_run(frames(packets@), i as int).ended,
            decreases packets.len() - i,
        {
            let packet = &packets[i];
            assert(frames(packets@)[i as int] == packet@);
            match self.hear(packet) {
                Heard::Redirect { port, name } => {
                    assert(all.text =~= text@);
                    let receipt = self.get_file_from(packets, i + 1);
                    let next = receipt.next;
                    return Reply {
                        text,
                        redirect: Some((port, name)),
                        file: Some(receipt),
                        next,
                        ended: true,
                    };
                },
                Heard::End => {
                    assert(all.text =~= text@);
                    return Reply { text, redirect: None, file: None, next: i + 1, ended: true };
                },
                Heard::Text(part) => {
                    let ghost before = text@;
                    let mut k: usize = 0;
                    while k < part.len()
                        invariant
                            k <= part.len(),
                            text@ == before + part@.subrange(0, k as int),
                        decreases part.len() - k,
                    {
                        text.push(part[k]);
                        k += 1;
                        assert(text@ =~= before + part@.subrange(0, k as int));
                    }
                    assert(part@.subrange(0, part@.len() as int) =~= part@);
                    assert(all.text =~= text@ + listen_run(frames(packets@), i + 1).text);
                },
                Heard::Other(_) => {},
            }
            i += 1;
        }
        assert(all.text =~= text@);
        Reply { text, redirect: None, file: None, next: i, ended: false }
    }
}

} // verus!
