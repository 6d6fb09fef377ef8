//! What is encoded is decoded again: one law for each field layout.

use vstd::prelude::*;
use vstd::bytes::{
    lemma_auto_spec_u64_to_from_le_bytes, spec_u64_from_le_bytes, spec_u64_to_le_bytes,
};
use vstd::utf8::{
    encode_utf8, encode_utf8_decode_utf8, encode_utf8_valid_utf8, is_ascii_chars,
    is_ascii_chars_encode_utf8,
};
use crate::net::{bare_packet, data_packet, le16, padded, text_field, text_packet, word16, zeros, Code};
use crate::text::{decoded, is_padding, lemma_trimmed_len_bound, trim_end, trimmed_len};

verus! {

/// Text that the decoders give back as it is: it does not end in NUL or
/// white space.
pub open spec fn is_trimmed(text: Seq<char>) -> bool {
    text.len() == 0 || !is_padding(text.last())
}

/// `n` NUL characters.
pub open spec fn nuls(n: nat) -> Seq<char> {
    Seq::new(n, |i: int| '\0')
}

/// A 16-bit value is read back from its two bytes.
pub proof fn lemma_word_round_trip(value: u16)
    ensures
        le16(value).len() == 2,
        word16(le16(value)[0], le16(value)[1]) == value,
{
}

/// The encoding of two texts in a row is the two encodings in a row.
pub proof fn lemma_encode_concat(a: Seq<char>, b: Seq<char>)
    ensures
        encode_utf8(a + b) == encode_utf8(a) + encode_utf8(b),
    decreases a.len(),
{
    if a.len() == 0 {
        assert(a + b =~= b);
        assert(encode_utf8(a) + encode_utf8(b) =~= encode_utf8(b));
    } else {
        assert((a + b).drop_first() =~= a.drop_first() + b);
        lemma_encode_concat(a.drop_first(), b);
        assert(encode_utf8(a + b) =~= encode_utf8(a) + encode_utf8(b));
    }
}

/// NUL characters are encoded as zero bytes.
pub proof fn lemma_encode_nuls(n: nat)
    ensures
        encode_utf8(nuls(n)) == zeros(n),
{
    assert(is_ascii_chars(nuls(n)));
    is_ascii_chars_encode_utf8(nuls(n));
    assert forall|i: int| 0 <= i < n implies encode_utf8(nuls(n))[i] == 0u8 by {
        assert(nuls(n)[i] == '\0');
    }
    assert(encode_utf8(nuls(n)) =~= zeros(n));
}

/// Trimming takes trailing NUL characters off text that is trimmed.
pub proof fn lemma_trim_nuls(text: Seq<char>, n: nat)
    requires
        is_trimmed(text),
    ensures
        trim_end(text + nuls(n)) == text,
    decreases n,
{
    let all = text + nuls(n);
    if n == 0 {
        assert(all =~= text);
        assert(trimmed_len(text) == text.len());
        assert(trim_end(text) =~= text);
    } else {
        assert(all.last() == '\0');
        assert(all.drop_last() =~= text + nuls((n - 1) as nat));
        lemma_trim_nuls(text, (n - 1) as nat);
        lemma_trimmed_len_bound(all.drop_last());
        assert(trimmed_len(all) == trimmed_len(all.drop_last()));
        assert(trim_end(all.drop_last()).len() == trimmed_len(all.drop_last()));
        assert(trim_end(all) =~= text);
    }
}

/// A text field gives back the text that was written into it, where the text
/// fits in the field and is trimmed.
pub proof fn lemma_field_round_trip(text: Seq<char>, room: nat)
    requires
        encode_utf8(text).len() <= room,
        is_trimmed(text),
    ensures
        trim_end(decoded(padded(encode_utf8(text), room))) == text,
{
    let fill = (room - encode_utf8(text).len()) as nat;
    let all = text + nuls(fill);
    lemma_encode_concat(text, nuls(fill));
    lemma_encode_nuls(fill);
    assert(padded(encode_utf8(text), room) =~= encode_utf8(text) + zeros(fill));
    encode_utf8_valid_utf8(all);
    encode_utf8_decode_utf8(all);
    lemma_trim_nuls(text, fill);
}

/// A packet that holds only its opcode gives the opcode back.
pub proof fn lemma_bare_round_trip(code: Code)
    ensures
        bare_packet(code).len() == 512,
        Code::spec_from_u8(bare_packet(code)[0]) == code,
{
}

/// An upload request gives back its opcode, its id and its file name, where
/// the name fits in its field and is trimmed.
pub proof fn lemma_upload_round_trip(name: Seq<char>, id: u16)
    requires
        encode_utf8(name).len() <= 493,
        is_trimmed(name),
    ensures
        ({
            let packet = text_packet(Code::Upload, le16(id) + zeros(16), encode_utf8(name));
            &&& packet.len() == 512
            &&& Code::spec_from_u8(packet[0]) == Code::Upload
            &&& word16(packet[1], packet[2]) == id
            &&& text_field(packet, 19) == name
        }),
{
    let packet = text_packet(Code::Upload, le16(id) + zeros(16), encode_utf8(name));
    lemma_word_round_trip(id);
    lemma_field_round_trip(name, 493);
    assert(packet.subrange(19, 512) =~= padded(encode_utf8(name), 493));
}

/// A redirect gives back its opcode, its port and its file name, where the
/// name fits in its field and is trimmed.
pub proof fn lemma_redirect_round_trip(name: Seq<char>, port: u16)
    requires
        encode_utf8(name).len() <= 509,
        is_trimmed(name),
    ensures
        ({
            let packet = text_packet(Code::Redirect, le16(port), encode_utf8(name));
            &&& packet.len() == 512
            &&& Code::spec_from_u8(packet[0]) == Code::Redirect
            &&& word16(packet[1], packet[2]) == port
            &&& text_field(packet, 3) == name
        }),
{
    let packet = text_packet(Code::Redirect, le16(port), encode_utf8(name));
    lemma_word_round_trip(port);
    lemma_field_round_trip(name, 509);
    assert(packet.subrange(3, 512) =~= padded(encode_utf8(name), 509));
}

/// A packet whose text begins at byte 1 (a download or delete request, a
/// listing request, a packet of output) gives back its opcode and its text,
/// where the text fits in the frame and is trimmed.
pub proof fn lemma_text_round_trip(code: Code, text: Seq<char>)
    requires
        encode_utf8(text).len() <= 511,
        is_trimmed(text),
    ensures
        ({
            let packet = text_packet(code, Seq::empty(), encode_utf8(text));
            &&& packet.len() == 512
            &&& Code::spec_from_u8(packet[0]) == code
            &&& text_field(packet, 1) == text
        }),
{
    let packet = text_packet(code, Seq::empty(), encode_utf8(text));
    lemma_field_round_trip(text, 511);
    assert(packet.subrange(1, 512) =~= padded(encode_utf8(text), 511));
}

/// A data packet gives back its opcode, its three header fields and its
/// payload.
pub proof fn lemma_data_round_trip(object: u16, sent: u64, total: u64, payload: Seq<u8>)
    requires
        payload.len() == 493,
    ensures
        ({
            let packet = data_packet(object, sent, total, payload);
            &&& packet.len() == 512
            &&& Code::spec_from_u8(packet[0]) == Code::Data
            &&& word16(packet[1], packet[2]) == object
            &&& spec_u64_from_le_bytes(packet.subrange(3, 11)) == sent
            &&& spec_u64_from_le_bytes(packet.subrange(11, 19)) == total
            &&& packet.subrange(19, 512) == payload
        }),
{
    let packet = data_packet(object, sent, total, payload);
    lemma_auto_spec_u64_to_from_le_bytes();
    lemma_word_round_trip(object);
    assert(spec_u64_to_le_bytes(sent).len() == 8);
    assert(spec_u64_to_le_bytes(total).len() == 8);
    assert(packet.subrange(3, 11) =~= spec_u64_to_le_bytes(sent));
    assert(packet.subrange(11, 19) =~= spec_u64_to_le_bytes(total));
    assert(packet.subrange(19, 512) =~= payload);
}

} // verus!
