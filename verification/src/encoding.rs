//! The transfer engine: the sender frames the bytes of a file into data
//! packets, the receiver puts them together again.

use vstd::prelude::*;
use vstd::bytes::spec_u64_from_le_bytes;
use crate::net::{
    data_packet, mod_data, padded, parse_data, parse_packet, Code, DATA_OFFSET, PACKET_SIZE,
};
use crate::stats::{recent, speed, RealtimeStats};

pub mod laws;
pub mod listing;

verus! {

/// The bytes of a file that one data packet carries at most.
pub const CHUNK_SIZE: usize = 493;

/// The object id that every data packet carries.
pub const OBJECT_ID: u16 = 1;

/// The side of a transfer.
#[derive(Debug, PartialEq, Eq, Clone, Copy, Structural)]
pub enum Role {
    Sending,
    Receiving,
}

/// How far a transfer has come.
pub struct Progress {
    pub role: Role,
    /// Whether the total size is known.
    pub announced: bool,
    /// The total size in bytes; 0 until it is known.
    pub total: nat,
    /// The bytes sent or written so far.
    pub done: nat,
}

impl Progress {
    /// Nothing goes past the total, and nothing moves before the total is
    /// known.
    pub open spec fn wf(self) -> bool {
        &&& self.done <= self.total <= u64::MAX
        &&& !self.announced ==> self.total == 0
    }

    /// The whole of the announced size has gone through.
    pub open spec fn complete(self) -> bool {
        self.announced && self.done == self.total
    }

    /// A transfer that awaits its first data packet.
    pub open spec fn receiving() -> Progress {
        Progress { role: Role::Receiving, announced: false, total: 0, done: 0 }
    }

    /// A transfer of `total` bytes of which none has been sent.
    pub open spec fn sending(total: nat) -> Progress {
        Progress { role: Role::Sending, announced: true, total, done: 0 }
    }

    /// The same transfer, `len` bytes further.
    pub open spec fn advance(self, len: nat) -> Progress {
        Progress { done: self.done + len, ..self }
    }
}

/// The size that the window of a transfer shows once `total` is announced:
/// the first size that was set, and none where the total does not fit.
pub open spec fn shown_size(before: nat, total: nat) -> nat {
    if before == 0 && total <= usize::MAX {
        total
    } else {
        before
    }
}

/// Whether `after` is the window `before` with `bytes` more counted: one
/// sample more, which holds the bytes counted before it. Where the count
/// would not fit, the window stays as it is.
pub open spec fn sampled(before: RealtimeStats, after: RealtimeStats, bytes: nat) -> bool {
    if before.current_bytes() + bytes <= usize::MAX {
        &&& after.current_bytes() == before.current_bytes() + bytes
        &&& after.measures().len() == before.measures().len() + 1
        &&& after.measures().drop_last() == before.measures()
        &&& after.measures().last().1 == before.current_bytes()
    } else {
        &&& after.current_bytes() == before.current_bytes()
        &&& after.measures() == before.measures()
    }
}

/// One transfer in flight: its progress, and the window of samples from
/// which its speed is read.
#[derive(Debug)]
pub struct Session {
    role: Role,
    announced: bool,
    total_size: u64,
    bytes_transferred: u64,
    stats: RealtimeStats,
}

impl View for Session {
    type V = Progress;

    closed spec fn view(&self) -> Progress {
        Progress {
            role: self.role,
            announced: self.announced,
            total: self.total_size as nat,
            done: self.bytes_transferred as nat,
        }
    }
}

impl Session {
    /// The window of samples of the transfer.
    pub closed spec fn window(&self) -> RealtimeStats {
        self.stats
    }

    /// The progress is well formed, and the window counts the bytes of the
    /// transfer as far as a count fits.
    pub open spec fn wf(&self) -> bool {
        &&& self@.wf()
        &&& self.window().wf()
        &&& self.window().current_bytes() <= self@.done
        &&& self@.done <= usize::MAX ==> self.window().current_bytes() == self@.done
    }

    /// The session of a file of `total_size` bytes that is about to be sent.
    pub fn sending(total_size: u64) -> (session: Session)
        ensures
            session@ == Progress::sending(total_size as nat),
            session.wf(),
            session.window().measures() == seq![(0u64, 0usize)],
            session.window().size() == shown_size(0, total_size as nat),
    {
        let mut session = Session {
            role: Role::Sending,
            announced: true,
            total_size,
            bytes_transferred: 0,
            stats: RealtimeStats::new(),
        };
        session.show_size();
        session
    }

    /// The session of a file that is about to be received.
    pub fn receiving() -> (session: Session)
        ensures
            session@ == Progress::receiving(),
            session.wf(),
            session.window().measures() == seq![(0u64, 0usize)],
            session.window().size() == 0,
    {
        Session {
            role: Role::Receiving,
            announced: false,
            total_size: 0,
            bytes_transferred: 0,
            stats: RealtimeStats::new(),
        }
    }

    /// Shows the total in the window, where none is shown yet.
    fn show_size(&mut self)
        ensures
            final(self)@ == old(self)@,
            final(self).window().size() == shown_size(
                old(self).window().size(),
                old(self)@.total,
            ),
            final(self).window().current_bytes() == old(self).window().current_bytes(),
            final(self).window().measures() == old(self).window().measures(),
    {
        if self.total_size <= usize::MAX as u64 {
            self.stats.set_size(self.total_size as usize);
        }
    }

    /// Counts `bytes` more in the window, where the count fits.
    fn sample(&mut self, bytes: usize)
        requires
            old(self).window().wf(),
        ensures
            final(self)@ == old(self)@,
            final(self).window().wf(),
            final(self).window().size() == old(self).window().size(),
            sampled(old(self).window(), final(self).window(), bytes as nat),
    {
        if bytes <= usize::MAX - self.stats.get_bytes() {
            self.stats.add_bytes(bytes);
        }
    }

    pub fn role(&self) -> (role: Role)
        ensures
            role == self@.role,
    {
        self.role
    }

    /// The announced size; 0 while none is known.
    pub fn total_size(&self) -> (total: u64)
        ensures
            total == self@.total,
    {
        self.total_size
    }

    pub fn bytes_transferred(&self) -> (done: u64)
        ensures
            done == self@.done,
    {
        self.bytes_transferred
    }

    pub fn is_complete(&self) -> (complete: bool)
        ensures
            complete == self@.complete(),
    {
        self.announced && self.bytes_transferred == self.total_size
    }

    /// The window of samples of the transfer.
    pub fn stats(&self) -> (stats: &RealtimeStats)
        ensures
            *stats == self.window(),
    {
        &self.stats
    }

    /// The speed of the transfer over the last second: bytes, and the
    /// nanoseconds in which they went. Older samples leave the window.
    pub fn speed(&mut self) -> (r: (usize, u64))
        requires
            old(self).wf(),
        ensures
            final(self).wf(),
            final(self)@ == old(self)@,
            (r.0 as int, r.1 as int) == speed(old(self).window().measures()),
            final(self).window().measures() == recent(old(self).window().measures()),
            final(self).window().current_bytes() == old(self).window().current_bytes(),
            final(self).window().size() == old(self).window().size(),
    {
        self.stats._get_speed()
    }
}

/// The views of the packets in a row.
pub open spec fn frames(packets: Seq<[u8; PACKET_SIZE]>) -> Seq<Seq<u8>> {
    Seq::new(packets.len(), |i: int| packets[i]@)
}

/// The bytes of a file that go into the next packet, where `read` bytes were
/// read: no more than a chunk, and no more than the total has left.
pub open spec fn chunk_len(progress: Progress, read: nat) -> nat {
    let rest = (progress.total - progress.done) as nat;
    let most = if read < 493 {
        read
    } else {
        493
    };
    if most < rest {
        most
    } else {
        rest
    }
}

/// The number of data packets that carry `len` bytes.
pub open spec fn chunk_count(len: nat) -> nat {
    ((len + 492) / 493) as nat
}

/// The `k`-th chunk of `content`.
pub open spec fn chunk_at(content: Seq<u8>, k: int) -> Seq<u8> {
    content.subrange(
        493 * k,
        if 493 * (k + 1) < content.len() {
            493 * (k + 1)
        } else {
            content.len() as int
        },
    )
}

/// The data packets of a file, in order: each announces the bytes sent before
/// it and the total, and carries one chunk, zero-filled where the chunk is
/// short.
pub open spec fn data_packets(content: Seq<u8>) -> Seq<Seq<u8>> {
    Seq::new(
        chunk_count(content.len()),
        |k: int|
            data_packet(
                OBJECT_ID,
                (493 * k) as u64,
                content.len() as u64,
                padded(chunk_at(content, k), 493),
            ),
    )
}

/// What the receiver makes of one packet.
#[derive(Debug, PartialEq, Eq, Clone, Copy, Structural)]
pub enum Received {
    /// A data packet: the first `len` bytes of its payload belong to the
    /// file, and `done` tells whether the file is whole with them.
    Chunk { len: usize, done: bool },
    /// A data packet whose total differs from the one announced first. The
    /// transfer is given up.
    Mismatch,
    /// Another packet: it ends the transfer and is left to the caller.
    Stopped(Code),
}

/// The total that a data packet announces.
pub open spec fn announced_total(packet: Seq<u8>) -> u64 {
    spec_u64_from_le_bytes(packet.subrange(11, 19))
}

/// The receiver's step: what one packet does to a transfer.
pub open spec fn receive_step(progress: Progress, packet: Seq<u8>) -> (Progress, Received) {
    let code = Code::spec_from_u8(packet[0]);
    let total = announced_total(packet) as nat;
    if code != Code::Data {
        (progress, Received::Stopped(code))
    } else if progress.announced && total != progress.total {
        (progress, Received::Mismatch)
    } else {
        let known = Progress { announced: true, total, ..progress };
        let len = chunk_len(known, 493);
        let next = known.advance(len);
        (next, Received::Chunk { len: len as usize, done: next.complete() })
    }
}

/// How a run of packets ended for the receiver.
#[derive(Debug, PartialEq, Eq, Clone, Copy, Structural)]
pub enum Ending {
    /// The announced size was reached.
    Complete,
    /// A packet that is no data packet came first.
    Stopped(Code),
    /// A data packet announced another total.
    Mismatch,
    /// The packets ran out before the announced size was reached.
    Starved,
}

/// What the receiver has after a run of packets.
pub struct Outcome {
    /// The bytes written to the file.
    pub content: Seq<u8>,
    pub progress: Progress,
    pub ending: Ending,
    /// The index of the first packet that was not read. A packet that stops
    /// the receiver is not read.
    pub next: int,
}

/// The receiver's run through `packets` from index `from` on: it writes the
/// part of each payload that the step allows, and stops where the file is
/// whole, where a total differs, or at a packet that is no data packet.
pub open spec fn receive_run(progress: Progress, packets: Seq<Seq<u8>>, from: int) -> Outcome
    decreases packets.len() - from,
{
    if from < 0 || from >= packets.len() {
        Outcome { content: Seq::empty(), progress, ending: Ending::Starved, next: from }
    } else {
        let (next, received) = receive_step(progress, packets[from]);
        match received {
            Received::Stopped(code) => Outcome {
                content: Seq::empty(),
                progress,
                ending: Ending::Stopped(code),
                next: from,
            },
            Received::Mismatch => Outcome {
                content: Seq::empty(),
                progress,
                ending: Ending::Mismatch,
                next: from + 1,
            },
            Received::Chunk { len, done } => {
                let written = packets[from].subrange(19, 19 + len);
                if done {
                    Outcome {
                        content: written,
                        progress: next,
                        ending: Ending::Complete,
                        next: from + 1,
                    }
                } else {
                    let rest = receive_run(next, packets, from + 1);
                    Outcome { content: written + rest.content, ..rest }
                }
            },
        }
    }
}

/// What the receiver has after a run through packets held in memory.
#[derive(Debug)]
pub struct Receipt {
    /// The bytes written to the file.
    pub content: Vec<u8>,
    pub session: Session,
    pub ending: Ending,
    /// The index of the first packet that was not read.
    pub next: usize,
}

impl Receipt {
    /// Whether the receipt holds what a run of the receiver gave.
    pub open spec fn matches(&self, run: Outcome) -> bool {
        &&& self.session.wf()
        &&& self.content@ == run.content
        &&& self.session@ == run.progress
        &&& self.ending == run.ending
        &&& self.next == run.next
    }
}

/// The role that writes a file from the packets of a stream.
#[derive(Debug)]
pub struct FileReceiver {}

impl FileReceiver {
    pub fn new() -> FileReceiver {
        FileReceiver {  }
    }

    /// Takes one packet of a transfer. For a data packet it tells how much
    /// of the payload to write: never past the announced size.
    pub fn receive(&self, session: &mut Session, packet: &[u8; PACKET_SIZE]) -> (received:
        Received)
        requires
            old(session).wf(),
        ensures
            final(session).wf(),
            (final(session)@, received) == receive_step(old(session)@, packet@),
            match received {
                Received::Chunk { len, done } => {
                    &&& sampled(old(session).window(), final(session).window(), len as nat)
                    &&& final(session).window().size() == shown_size(
                        old(session).window().size(),
                        final(session)@.total,
                    )
                },
                _ => final(session).window() == old(session).window(),
            },
    {
        let code = parse_packet(packet);
        if code != Code::Data {
            return Received::Stopped(code);
        }
        let (_id, _sent, total) = parse_data(*packet);
        if session.announced && total != session.total_size {
            return Received::Mismatch;
        }
        session.announced = true;
        session.total_size = total;
        let rest: u64 = total - session.bytes_transferred;
        let len: usize = if rest < CHUNK_SIZE as u64 {
            rest as usize
        } else {
            CHUNK_SIZE
        };
        session.show_size();
        session.sample(len);
        session.bytes_transferred = session.bytes_transferred + len as u64;
        Received::Chunk { len, done: session.bytes_transferred == session.total_size }
    }

    /// Receives a file from packets held in memory, from the first one on.
    pub fn get_file(&mut self, packets: &Vec<[u8; PACKET_SIZE]>) -> (receipt: Receipt)
        ensures
            receipt.matches(receive_run(Progress::receiving(), frames(packets@), 0)),
    {
        self.get_file_from(packets, 0)
    }

    /// Receives a file from packets held in memory, from the packet at
    /// `from` on: the bytes that the transfer writes, the session as it
    /// stands at the end, how the run ended and where.
    pub fn get_file_from(&mut self, packets: &Vec<[u8; PACKET_SIZE]>, from: usize) -> (receipt:
        Receipt)
        ensures
            receipt.matches(receive_run(Progress::receiving(), frames(packets@), from as int)),
    {
        let mut session = Session::receiving();
        let mut file: Vec<u8> = Vec::new();
        let mut i: usize = from;
        let ghost all = receive_run(Progress::receiving(), frames(packets@), from as int);
        while i < packets.len()
            invariant
                from <= i,
                session.wf(),
                all == receive_run(Progress::receiving(), frames(packets@), from as int),
                all.content == file@ + receive_run(session@, frames(packets@), i as int).content,
                all.progress == receive_run(session@, frames(packets@), i as int).progress,
                all.ending == receive_run(session@, frames(packets@), i as int).ending,
                all.next == receive_run(session@, frames(packets@), i as int).next,
            decreases packets.len() - i,
        {
            let ghost written = file@;
            let packet = &packets[i];
            assert(frames(packets@)[i as int] == packet@);
            match self.receive(&mut session, packet) {
                Received::Stopped(code) => {
                    assert(all.content =~= file@);
                    return Receipt {
                        content: file,
                        session,
                        ending: Ending::Stopped(code),
                        next: i,
                    };
                },
                Received::Mismatch => {
                    assert(all.content =~= file@);
                    return Receipt {
                        content: file,
                        session,
                        ending: Ending::Mismatch,
                        next: i + 1,
                    };
                },
                Received::Chunk { len, done } => {
                    let mut k: usize = 0;
                    while k < len
                        invariant
                            k <= len <= 493,
                            file@ == written + packet@.subrange(19, 19 + k),
                        decreases len - k,
                    {
                        file.push(packet[DATA_OFFSET + k]);
                        k += 1;
                        assert(file@ =~= written + packet@.subrange(19, 19 + k));
                    }
                    if done {
                        assert(all.content =~= file@);
                        return Receipt {
                            content: file,
                            session,
                            ending: Ending::Complete,
                            next: i + 1,
                        };
                    }
                    assert(all.content =~= file@ + receive_run(
                        session@,
                        frames(packets@),
                        i + 1,
                    ).content);
                },
            }
            i += 1;
        }
        assert(all.content =~= file@);
        Receipt { content: file, session, ending: Ending::Starved, next: i }
    }
}

/// The role that reads a file and frames it for the stream.
#[derive(Debug)]
pub struct FileTransmitter {}

impl FileTransmitter {
    pub fn new() -> FileTransmitter {
        FileTransmitter {  }
    }

    /// Frames the bytes that were read into the payload field of `packet`.
    /// Where none are left to send it tells so and changes nothing. Else it
    /// zero-fills the payload behind the chunk, stamps the packet with the
    /// bytes sent before it and the total, and counts the chunk as sent.
    pub fn frame(&self, session: &mut Session, packet: &mut [u8; PACKET_SIZE], read: usize) -> (send:
        bool)
        requires
            old(session).wf(),
        ensures
            final(session).wf(),
            send == (chunk_len(old(session)@, read as nat) > 0),
            final(session).window().size() == old(session).window().size(),
            send ==> sampled(
                old(session).window(),
                final(session).window(),
                chunk_len(old(session)@, read as nat),
            ),
            !send ==> final(session).window() == old(session).window(),
            final(session)@ == old(session)@.advance(chunk_len(old(session)@, read as nat)),
            !send ==> final(packet)@ == old(packet)@,
            send ==> final(packet)@ == data_packet(
                OBJECT_ID,
                old(session)@.done as u64,
                old(session)@.total as u64,
                padded(
                    old(packet)@.subrange(19, 19 + chunk_len(old(session)@, read as nat) as int),
                    493,
                ),
            ),
    {
        let rest: u64 = session.total_size - session.bytes_transferred;
        let most: usize = if read < CHUNK_SIZE {
            read
        } else {
            CHUNK_SIZE
        };
        let len: usize = if (most as u64) < rest {
            most
        } else {
            rest as usize
        };
        if len == 0 {
            return false;
        }
        let ghost before = packet@;
        let mut i: usize = DATA_OFFSET + len;
        while i < PACKET_SIZE
            invariant
                19 + len <= i <= 512,
                forall|j: int| 0 <= j < 19 + len ==> packet@[j] == before[j],
                forall|j: int| 19 + len <= j < i ==> packet@[j] == 0,
            decreases 512 - i,
        {
            packet[i] = 0;
            i += 1;
        }
        assert(packet@.subrange(19, 512) =~= padded(before.subrange(19, 19 + len), 493));
        mod_data(packet, OBJECT_ID, session.bytes_transferred, session.total_size);
        session.sample(len);
        session.bytes_transferred = session.bytes_transferred + len as u64;
        true
    }

    /// Frames a file held in memory: its data packets, in order.
    pub fn host_file(&mut self, content: &[u8]) -> (r: (Vec<[u8; PACKET_SIZE]>, Session))
        ensures
            frames(r.0@) == data_packets(content@),
            r.1@ == Progress::sending(content@.len()).advance(content@.len()),
            r.1.wf(),
    {
        let size: u64 = content.len() as u64;
        let mut session = Session::sending(size);
        let mut packets: Vec<[u8; PACKET_SIZE]> = Vec::new();
        let mut packet = [0u8; PACKET_SIZE];
        let mut sent: usize = 0;
        while sent < content.len()
            invariant
                session@ == Progress::sending(content@.len()).advance(sent as nat),
                session.wf(),
                size == content@.len(),
                sent <= content.len(),
                sent == 493 * packets.len() || sent == content.len(),
                packets.len() == chunk_count(sent as nat),
                forall|k: int|
                    0 <= k < packets.len() ==> (#[trigger] packets@[k])@ == data_packets(
                        content@,
                    )[k],
            decreases content.len() - sent,
        {
            let read: usize = if content.len() - sent < CHUNK_SIZE {
                content.len() - sent
            } else {
                CHUNK_SIZE
            };
            let mut k: usize = 0;
            while k < read
                invariant
                    k <= read <= 493,
                    sent + read <= content.len(),
                    forall|j: int| 19 <= j < 19 + k ==> packet@[j] == content@[sent + j - 19],
                decreases read - k,
            {
                packet[DATA_OFFSET + k] = content[sent + k];
                k += 1;
            }
            assert(packet@.subrange(19, 19 + read) =~= chunk_at(content@, packets.len() as int));
            let send = self.frame(&mut session, &mut packet, read);
            assert(send);
            packets.push(packet);
            sent = sent + read;
        }
        assert(frames(packets@) =~= data_packets(content@));
        (packets, session)
    }
}

} // verus!
