//! What holds of every transfer: the receiver never writes past the announced
//! size, and what the sender frames the receiver puts together again.

use vstd::prelude::*;
use crate::encoding::{
    announced_total, chunk_at, chunk_count, data_packets, receive_run, receive_step, Ending,
    Outcome, Progress, Received, Role, OBJECT_ID,
};
use crate::encoding::listing::{
    first_feed, lines, listen_run, listing, stdout_text, stripped_len, text_at, text_count,
    text_packets, LINE_FEED,
};
use crate::net::laws::{is_trimmed, lemma_data_round_trip, lemma_redirect_round_trip};
use crate::net::server::{replies_after, Handled};
use crate::net::{bare_packet, le16, padded, text_packet, zeros, Code};
use vstd::utf8::{encode_utf8, is_ascii_chars, is_ascii_chars_encode_utf8};

verus! {

/// A step of the receiver keeps the transfer within its announced size, and
/// never takes bytes back.
pub proof fn lemma_receive_within_total(progress: Progress, packet: Seq<u8>)
    requires
        progress.wf(),
    ensures
        receive_step(progress, packet).0.wf(),
        receive_step(progress, packet).0.done >= progress.done,
        receive_step(progress, packet).0.done <= receive_step(progress, packet).0.total,
{
}

/// A data packet that comes again when the file is whole writes nothing, and
/// the transfer stays whole.
pub proof fn lemma_resend_writes_nothing(progress: Progress, packet: Seq<u8>)
    requires
        progress.wf(),
        progress.complete(),
        Code::spec_from_u8(packet[0]) == Code::Data,
        announced_total(packet) == progress.total,
    ensures
        receive_step(progress, packet) == (progress, Received::Chunk { len: 0, done: true }),
{
}

/// Every packet has the length of a frame.
pub open spec fn well_framed(packets: Seq<Seq<u8>>) -> bool {
    forall|i: int| 0 <= i < packets.len() ==> (#[trigger] packets[i]).len() == 512
}

/// Whatever the packets, a run of the receiver writes exactly the bytes that
/// it counts, and counts no more than the announced size.
pub proof fn lemma_run_within_total(progress: Progress, packets: Seq<Seq<u8>>, from: int)
    requires
        progress.wf(),
        well_framed(packets),
    ensures
        receive_run(progress, packets, from).progress.wf(),
        receive_run(progress, packets, from).progress.done == progress.done + receive_run(
            progress,
            packets,
            from,
        ).content.len(),
        receive_run(progress, packets, from).ending == Ending::Complete ==> receive_run(
            progress,
            packets,
            from,
        ).progress.complete(),
    decreases packets.len() - from,
{
    if 0 <= from < packets.len() {
        let (next, received) = receive_step(progress, packets[from]);
        match received {
            Received::Chunk { len, done } => {
                if !done {
                    lemma_run_within_total(next, packets, from + 1);
                }
            },
            _ => {},
        }
    }
}

/// The receiver's progress before the `k`-th data packet of a file of `total`
/// bytes.
pub open spec fn progress_before(total: nat, k: int) -> Progress {
    if k == 0 {
        Progress::receiving()
    } else {
        Progress { role: Role::Receiving, announced: true, total, done: (493 * k) as nat }
    }
}

/// From the `k`-th data packet of a file on, the receiver writes the rest of
/// the file and ends with the file whole.
pub proof fn lemma_loopback_from(content: Seq<u8>, k: int)
    requires
        content.len() <= u64::MAX,
        0 <= k < chunk_count(content.len()),
    ensures
        ({
            let run = receive_run(progress_before(content.len(), k), data_packets(content), k);
            &&& run.content == content.subrange(493 * k, content.len() as int)
            &&& run.progress == Progress {
                role: Role::Receiving,
                announced: true,
                total: content.len(),
                done: content.len(),
            }
            &&& run.ending == Ending::Complete
            &&& run.next == chunk_count(content.len())
        }),
    decreases chunk_count(content.len()) - k,
{
    let total = content.len();
    let packets = data_packets(content);
    let packet = packets[k];
    let payload = padded(chunk_at(content, k), 493);
    lemma_data_round_trip(OBJECT_ID, (493 * k) as u64, total as u64, payload);
    let before = progress_before(total, k);
    let (next, received) = receive_step(before, packet);
    let run = receive_run(before, packets, k);
    if k + 1 < chunk_count(total) {
        assert(next == progress_before(total, k + 1));
        lemma_loopback_from(content, k + 1);
        assert(packet.subrange(19, 512) =~= chunk_at(content, k));
        assert(run.content =~= content.subrange(493 * k, total as int));
    } else {
        assert(packet.subrange(19, 19 + (total - 493 * k)) =~= chunk_at(content, k));
        assert(run.content =~= content.subrange(493 * k, total as int));
    }
}

/// A file that the sender frames and the receiver takes arrives as it was
/// sent, whatever its length: the bytes written are those of the file, and
/// their number is its length. Every packet is read. A file that is not
/// empty ends the run whole; an empty file has no packet, and the receiver
/// writes nothing.
pub proof fn lemma_loopback(content: Seq<u8>)
    requires
        content.len() <= u64::MAX,
    ensures
        ({
            let run = receive_run(Progress::receiving(), data_packets(content), 0);
            &&& run.content == content
            &&& run.progress.done == content.len()
            &&& content.len() > 0 ==> run.ending == Ending::Complete && run.progress.total
                == content.len()
            &&& content.len() == 0 ==> run.ending == Ending::Starved
            &&& run.next == chunk_count(content.len())
        }),
{
    if content.len() > 0 {
        lemma_loopback_from(content, 0);
        assert(content.subrange(0, content.len() as int) =~= content);
    } else {
        assert(data_packets(content).len() == 0);
        assert(receive_run(Progress::receiving(), data_packets(content), 0).content =~= content);
    }
}

/// Text that the zero fill of a packet cannot be taken for: it holds no zero
/// byte.
pub open spec fn no_zero(text: Seq<u8>) -> bool {
    forall|i: int| 0 <= i < text.len() ==> text[i] != 0
}

/// Stripping takes the zero fill off text that does not end in a zero.
pub proof fn lemma_strip_fill(text: Seq<u8>, fill: nat)
    requires
        text.len() == 0 || text.last() != 0,
    ensures
        stripped_len(text + zeros(fill)) == text.len(),
    decreases fill,
{
    let all = text + zeros(fill);
    if fill == 0 {
        assert(all =~= text);
    } else {
        assert(all.last() == 0);
        assert(all.drop_last() =~= text + zeros((fill - 1) as nat));
        lemma_strip_fill(text, (fill - 1) as nat);
    }
}

/// A packet of output gives back its text, where the text fits in the frame
/// and does not end in a zero.
pub proof fn lemma_stdout_round_trip(text: Seq<u8>)
    requires
        text.len() <= 511,
        text.len() == 0 || text.last() != 0,
    ensures
        stdout_text(text_packet(Code::Stdout, Seq::empty(), text)) == text,
{
    let packet = text_packet(Code::Stdout, Seq::empty(), text);
    let fill = (511 - text.len()) as nat;
    assert(packet.subrange(1, 512) =~= text + zeros(fill));
    lemma_strip_fill(text, fill);
    assert(packet.subrange(1, 1 + text.len() as int) =~= text);
}

/// The text of a reply from its `k`-th packet on.
pub open spec fn text_from(text: Seq<u8>, k: int) -> Seq<u8> {
    text.subrange(
        if 511 * k < text.len() {
            511 * k
        } else {
            text.len() as int
        },
        text.len() as int,
    )
}

/// From the `k`-th packet of a reply on, the listener gathers the rest of
/// the text and stops behind the packet that ends the reply.
pub proof fn lemma_listen_from(text: Seq<u8>, k: int)
    requires
        no_zero(text),
        0 <= k <= text_count(text.len()),
    ensures
        ({
            let run = listen_run(text_packets(text), k);
            &&& run.text == text_from(text, k)
            &&& run.redirect is None
            &&& run.file is None
            &&& run.next == text_count(text.len()) + 1
            &&& run.ended
        }),
    decreases text_count(text.len()) - k,
{
    let packets = text_packets(text);
    let run = listen_run(packets, k);
    if k < text_count(text.len()) {
        let part = text_at(text, k);
        lemma_stdout_round_trip(part);
        lemma_listen_from(text, k + 1);
        assert(run.text =~= text_from(text, k));
    } else {
        assert(run.text =~= text_from(text, k));
    }
}

/// A reply made of text reaches the listener as it was sent, however many
/// packets it spans and wherever they cut it: the listener gathers exactly the
/// text, and reads every packet up to the one that ends the reply.
pub proof fn lemma_reply_round_trip(text: Seq<u8>)
    requires
        no_zero(text),
    ensures
        ({
            let run = listen_run(text_packets(text), 0);
            &&& run.text == text
            &&& run.redirect is None
            &&& run.file is None
            &&& run.next == text_packets(text).len()
            &&& run.ended
        }),
{
    lemma_listen_from(text, 0);
    assert(text_from(text, 0) =~= text);
}

/// A name that can stand in a listing: it holds no zero byte and no line
/// feed.
pub open spec fn plain_name(name: Seq<u8>) -> bool {
    forall|i: int| 0 <= i < name.len() ==> name[i] != 0 && name[i] != LINE_FEED
}

/// Text made of whole lines: it is empty or ends in a line feed.
pub open spec fn whole_lines(text: Seq<u8>) -> bool {
    text.len() == 0 || text.last() == LINE_FEED
}

/// An index is the first line feed behind `from` where it holds one and none
/// stands between.
pub proof fn lemma_first_feed_is(text: Seq<u8>, from: int, at: int)
    requires
        0 <= from <= at < text.len(),
        text[at] == LINE_FEED,
        forall|i: int| from <= i < at ==> text[i] != LINE_FEED,
    ensures
        first_feed(text, from) == at,
    decreases at - from,
{
    if from < at {
        lemma_first_feed_is(text, from + 1, at);
    }
}

/// Where the first line feed behind `from` stands.
pub proof fn lemma_first_feed_found(text: Seq<u8>, from: int)
    requires
        0 <= from <= text.len(),
    ensures
        from <= first_feed(text, from) <= text.len(),
        first_feed(text, from) < text.len() ==> text[first_feed(text, from)] == LINE_FEED,
        forall|i: int| from <= i < first_feed(text, from) ==> text[i] != LINE_FEED,
    decreases text.len() - from,
{
    if from < text.len() && text[from] != LINE_FEED {
        lemma_first_feed_found(text, from + 1);
    }
}

/// A name and its line feed behind whole lines make one more line.
pub proof fn lemma_lines_push(text: Seq<u8>, name: Seq<u8>)
    requires
        whole_lines(text),
        plain_name(name),
    ensures
        lines(text + name + seq![LINE_FEED]) == lines(text).push(name),
        no_zero(text) ==> no_zero(text + name + seq![LINE_FEED]),
    decreases text.len(),
{
    let all = text + name + seq![LINE_FEED];
    if text.len() == 0 {
        lemma_first_feed_is(all, 0, name.len() as int);
        assert(all.subrange(0, name.len() as int) =~= name);
        assert(all.subrange(name.len() as int + 1, all.len() as int) =~= Seq::<u8>::empty());
        assert(lines(Seq::<u8>::empty()) =~= Seq::<Seq<u8>>::empty());
        assert(lines(text) =~= Seq::<Seq<u8>>::empty());
        assert(lines(all) =~= lines(text).push(name));
    } else {
        lemma_first_feed_found(text, 0);
        let at = first_feed(text, 0);
        assert(at < text.len()) by {
            if at >= text.len() {
                assert(text[text.len() - 1] != LINE_FEED);
            }
        }
        lemma_first_feed_is(all, 0, at);
        let rest = text.subrange(at + 1, text.len() as int);
        assert(all.subrange(0, at) =~= text.subrange(0, at));
        assert(all.subrange(at + 1, all.len() as int) =~= rest + name + seq![LINE_FEED]);
        lemma_lines_push(rest, name);
        assert(lines(all) =~= lines(text).push(name));
    }
}

/// The text of a listing is made of whole lines, and its lines are the names.
pub proof fn lemma_lines_of_listing(names: Seq<Seq<u8>>)
    requires
        forall|i: int| 0 <= i < names.len() ==> plain_name(#[trigger] names[i]),
    ensures
        whole_lines(listing(names)),
        no_zero(listing(names)),
        lines(listing(names)) == names,
    decreases names.len(),
{
    if names.len() == 0 {
        assert(lines(listing(names)) =~= names);
    } else {
        lemma_lines_of_listing(names.drop_last());
        lemma_lines_push(listing(names.drop_last()), names.last());
        assert(names.drop_last().push(names.last()) =~= names);
    }
}

/// A listing reaches the listener entry by entry: the lines of the text that
/// it gathers from the packets of the listing are the names that were listed,
/// in their order, none lost and none twice, also where a name begins in one
/// packet and ends in the next.
pub proof fn lemma_listing_round_trip(names: Seq<Seq<u8>>)
    requires
        forall|i: int| 0 <= i < names.len() ==> plain_name(#[trigger] names[i]),
    ensures
        lines(listen_run(text_packets(listing(names)), 0).text) == names,
        listen_run(text_packets(listing(names)), 0).ended,
{
    lemma_lines_of_listing(names);
    lemma_reply_round_trip(listing(names));
}

/// The reply to a delete that failed reaches the listener as one message,
/// and ends: the peer is told, and the session goes on.
pub proof fn lemma_failed_delete_is_told()
    ensures
        ({
            let run = listen_run(replies_after(Code::Delete, Handled::Failed), 0);
            &&& run.text == encode_utf8("Unable to delete file"@)
            &&& run.ended
            &&& run.next == 2
        }),
{
    let message = "Unable to delete file"@;
    let text = encode_utf8(message);
    reveal_strlit("Unable to delete file");
    assert(is_ascii_chars(message));
    is_ascii_chars_encode_utf8(message);
    assert(no_zero(text)) by {
        assert forall|i: int| 0 <= i < text.len() implies text[i] != 0 by {
            assert(message[i] as u8 == text[i]);
        }
    }
    lemma_reply_round_trip(text);
    assert(text.len() == 21);
    assert(text_at(text, 0) =~= text);
    assert(text_packets(text) =~= replies_after(Code::Delete, Handled::Failed));
}

/// A run of the receiver depends only on the packets from its start on:
/// packets in front of them move where it stops, and nothing else.
pub proof fn lemma_run_behind(
    progress: Progress,
    front: Seq<Seq<u8>>,
    packets: Seq<Seq<u8>>,
    from: int,
)
    requires
        0 <= from,
    ensures
        receive_run(progress, front + packets, front.len() + from) == (Outcome {
            next: receive_run(progress, packets, from).next + front.len(),
            ..receive_run(progress, packets, from)
        }),
    decreases packets.len() - from,
{
    if from < packets.len() {
        assert((front + packets)[front.len() + from] == packets[from]);
        let (next, received) = receive_step(progress, packets[from]);
        match received {
            Received::Chunk { len, done } => {
                if !done {
                    lemma_run_behind(next, front, packets, from + 1);
                }
            },
            _ => {},
        }
    }
}

/// A run of the receiver that did not starve is the same whatever packets
/// follow: it does not read them.
pub proof fn lemma_run_before(
    progress: Progress,
    packets: Seq<Seq<u8>>,
    back: Seq<Seq<u8>>,
    from: int,
)
    requires
        0 <= from,
        receive_run(progress, packets, from).ending != Ending::Starved,
    ensures
        receive_run(progress, packets + back, from) == receive_run(progress, packets, from),
    decreases packets.len() - from,
{
    if from < packets.len() {
        assert((packets + back)[from] == packets[from]);
        let (next, received) = receive_step(progress, packets[from]);
        match received {
            Received::Chunk { len, done } => {
                if !done {
                    lemma_run_before(next, packets, back, from + 1);
                }
            },
            _ => {},
        }
    }
}

/// The reply to a download: the redirect that names the file, the data
/// packets of the file, and the acknowledgement.
pub open spec fn download_reply(name: Seq<char>, content: Seq<u8>) -> Seq<Seq<u8>> {
    seq![text_packet(Code::Redirect, le16(0), encode_utf8(name))] + data_packets(content)
        + seq![bare_packet(Code::Okay)]
}

/// A download reaches the listener as it was sent: the redirect gives the
/// name, and the file behind it arrives byte for byte, whatever its length.
/// The acknowledgement behind a file that is not empty is not read by the
/// receiver.
pub proof fn lemma_download_round_trip(name: Seq<char>, content: Seq<u8>)
    requires
        encode_utf8(name).len() <= 509,
        is_trimmed(name),
        content.len() <= u64::MAX,
    ensures
        ({
            let run = listen_run(download_reply(name, content), 0);
            &&& run.text == Seq::<u8>::empty()
            &&& run.redirect == Some((0u16, name))
            &&& run.file is Some
            &&& run.file->Some_0.content == content
            &&& run.file->Some_0.progress.done == content.len()
            &&& content.len() > 0 ==> run.file->Some_0.ending == Ending::Complete && run.next
                == 1 + chunk_count(content.len())
            &&& content.len() == 0 ==> run.file->Some_0.ending == Ending::Stopped(Code::Okay)
        }),
{
    let redirect = text_packet(Code::Redirect, le16(0), encode_utf8(name));
    let front = seq![redirect];
    let data = data_packets(content);
    let back = seq![bare_packet(Code::Okay)];
    let reply = download_reply(name, content);
    lemma_redirect_round_trip(name, 0);
    assert(reply =~= front + (data + back));
    assert(reply[0] == redirect);
    lemma_run_behind(Progress::receiving(), front, data + back, 0);
    if content.len() > 0 {
        lemma_loopback_from(content, 0);
        assert(content.subrange(0, content.len() as int) =~= content);
        lemma_run_before(Progress::receiving(), data, back, 0);
    } else {
        assert(data.len() == 0);
        assert(data + back =~= back);
        assert(receive_run(Progress::receiving(), back, 0).content =~= content);
    }
}

} // verus!
