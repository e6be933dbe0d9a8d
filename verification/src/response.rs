//! The reply that goes back to the caller when a command fails: the message
//! is cut to fit the caller's buffer, and the encoded reply is framed in
//! that buffer, followed by an end tag and a length delimiter.

use vstd::prelude::*;
use vstd::utf8::{encode_utf8, is_char_boundary};
use crate::proto::Resp;

verus! {

/// The code of the reply to a command that returned an error.
pub const COMMAND_FAILED: i32 = 100;

/// The code of the reply to a command that panicked.
pub const COMMAND_PANICKED: i32 = 1000;

/// The code of the reply to a failed command: [`COMMAND_PANICKED`] where it
/// panicked, [`COMMAND_FAILED`] where it returned an error.
pub fn failure_code(panicked: bool) -> (c: i32)
    ensures
        c == (if panicked { 1000i32 } else { 100i32 }),
        c == (if panicked { COMMAND_PANICKED } else { COMMAND_FAILED }),
{
    if panicked {
        COMMAND_PANICKED
    } else {
        COMMAND_FAILED
    }
}

/// Bytes of the caller's buffer that the message leaves free.
pub const RESERVED: usize = 16;

/// The tag written after the encoded reply, which tells the caller where it ends.
pub const END_TAG: u8 = 10;

#[verifier::external_type_specification]
#[verifier::external_body]
pub struct ExEncodeError(prost::EncodeError);

/// The LEB128 encoding of `v`: seven bits per byte, low bits first, the
/// high bit set on every byte but the last.
pub open spec fn varint(v: nat) -> Seq<u8>
    decreases v,
{
    if v < 128 {
        seq![v as u8]
    } else {
        seq![(v % 128 + 128) as u8] + varint(v / 128)
    }
}

/// Calls `prost::encode_length_delimiter`, which writes the LEB128
/// encoding of `length` at the start of the slice `buf[at..]`. It first
/// compares the encoding's length with the room in the slice and fails,
/// writing nothing, where the room is short; otherwise it writes the
/// encoding's bytes and nothing else.
#[verifier::external_body]
fn encode_length_delimiter(length: usize, buf: &mut Vec<u8>, at: usize) -> (r: Result<(), prost::EncodeError>)
    requires
        at <= old(buf).len(),
    ensures
        r is Ok <==> varint(length as nat).len() <= old(buf).len() - at,
        r is Ok ==> final(buf)@ == old(buf)@.take(at as int) + varint(length as nat)
            + old(buf)@.skip(at + varint(length as nat).len()),
        r is Err ==> final(buf)@ == old(buf)@,
{
    let mut tail: &mut [u8] = &mut buf[at..];
    prost::encode_length_delimiter(length, &mut tail)
}

/// The room that a buffer of `capacity` bytes leaves for the message.
pub open spec fn message_room(capacity: nat) -> nat {
    if capacity > RESERVED {
        (capacity - RESERVED) as nat
    } else {
        0
    }
}

/// The bytes of a message cut to `room` bytes, where it is longer.
pub open spec fn cut(bytes: Seq<u8>, room: nat) -> Seq<u8> {
    if bytes.len() > room {
        bytes.take(room as int)
    } else {
        bytes
    }
}

/// Whether a message can be cut to fit a buffer of `capacity` bytes: it
/// fits whole, or the cut falls between two characters.
pub open spec fn cuttable(msg: Seq<char>, capacity: nat) -> bool {
    encode_utf8(msg).len() > message_room(capacity)
        ==> is_char_boundary(encode_utf8(msg), message_room(capacity) as int)
}

/// The room that a buffer of `capacity` bytes leaves for the message.
pub fn room_for(capacity: usize) -> (room: usize)
    ensures
        room == message_room(capacity as nat),
{
    if capacity > RESERVED {
        capacity - RESERVED
    } else {
        0
    }
}

/// Whether `msg` can be cut to fit a buffer of `capacity` bytes.
pub fn can_cut(msg: &str, capacity: usize) -> (b: bool)
    ensures
        b == cuttable(msg@, capacity as nat),
{
    let room = room_for(capacity);
    msg.as_bytes().len() <= room || msg.is_char_boundary(room)
}

/// Cuts `msg` to the room that a buffer of `capacity` bytes leaves for it:
/// all but [`RESERVED`] bytes of the buffer, or nothing where it is smaller.
pub fn trim_message(msg: String, capacity: usize) -> (t: String)
    requires
        cuttable(msg@, capacity as nat),
    ensures
        encode_utf8(t@) == cut(encode_utf8(msg@), message_room(capacity as nat)),
{
    let room = room_for(capacity);
    if msg.as_str().as_bytes().len() > room {
        let (head, _) = msg.as_str().split_at(room);
        let t = head.to_owned();
        proof {
            assert(encode_utf8(t@) =~= encode_utf8(msg@).take(room as int));
        }
        t
    } else {
        msg
    }
}

/// The reply to a failed command: its code, and its message cut to the room
/// that the caller's buffer of `capacity` bytes leaves.
pub fn reply_for(code: i32, msg: String, capacity: usize) -> (r: Resp)
    requires
        cuttable(msg@, capacity as nat),
    ensures
        r.ret == code,
        encode_utf8(r.msg@) == cut(encode_utf8(msg@), message_room(capacity as nat)),
{
    Resp { ret: code, msg: trim_message(msg, capacity) }
}

/// Why a reply could not be framed.
pub enum FillError {
    /// The encoded reply needs more bytes than the buffer has.
    Insufficient { required: usize, remaining: usize },
}

/// The length that the delimiter after the end tag carries: what the
/// buffer has left after the encoded reply and the tag, less one.
pub open spec fn trailer_length(encoded_len: nat, capacity: nat) -> int {
    capacity - encoded_len - 2
}

/// The buffer after framing: the encoded reply, the end tag, the
/// delimiter, and the rest of the buffer as it was.
pub open spec fn framed(encoded: Seq<u8>, buffer: Seq<u8>) -> Seq<u8> {
    let d = varint(trailer_length(encoded.len(), buffer.len()) as nat);
    encoded + seq![END_TAG] + d + buffer.skip((encoded.len() + 1 + d.len()) as int)
}

/// Whether framing `encoded_len` bytes into a buffer of `capacity` bytes is
/// defined: the reply does not fit at all, or leaves room for the end tag
/// and at least one byte after it.
pub open spec fn framable(encoded_len: nat, capacity: nat) -> bool {
    encoded_len > capacity || encoded_len + 2 <= capacity
}

/// Whether framing `encoded_len` bytes into a buffer of `capacity` bytes is
/// defined (see [`framable`]).
pub fn can_fill(encoded_len: usize, capacity: usize) -> (b: bool)
    ensures
        b == framable(encoded_len as nat, capacity as nat),
{
    encoded_len > capacity || (capacity >= 2 && encoded_len <= capacity - 2)
}

/// The LEB128 encoding of `v` is at most one byte longer than `v` is large.
pub proof fn lemma_varint_len(v: nat)
    ensures
        1 <= varint(v).len() <= v + 1,
    decreases v,
{
    if v >= 128 {
        lemma_varint_len(v / 128);
    }
}

/// Frames the encoded reply in the caller's buffer: writes the reply at its
/// start, the end tag after it, then the length that the buffer has left
/// after the tag, less one, as a length delimiter. Fails, leaving the
/// buffer as it was, where the reply does not fit.
pub fn fill(encoded: &[u8], buffer: &mut Vec<u8>) -> (r: Result<(), FillError>)
    requires
        framable(encoded@.len(), old(buffer)@.len()),
    ensures
        encoded@.len() > old(buffer)@.len() ==> {
            &&& r matches Err(FillError::Insufficient { required, remaining })
            &&& required == encoded@.len()
            &&& remaining == old(buffer)@.len()
            &&& final(buffer)@ == old(buffer)@
        },
        encoded@.len() <= old(buffer)@.len() ==> {
            &&& r is Ok
            &&& final(buffer)@ == framed(encoded@, old(buffer)@)
        },
{
    let n = encoded.len();
    let cap = buffer.len();
    if n > cap {
        return Err(FillError::Insufficient { required: n, remaining: cap });
    }
    let ghost before = buffer@;
    let mut i: usize = 0;
    while i < n
        invariant
            n == encoded@.len(),
            n + 2 <= cap,
            cap == buffer@.len(),
            before.len() == cap,
            i <= n,
            forall|k: int| 0 <= k < i ==> buffer@[k] == encoded@[k],
            forall|k: int| i <= k < cap ==> buffer@[k] == before[k],
        decreases n - i,
    {
        buffer.set(i, encoded[i]);
        i = i + 1;
    }
    buffer.set(n, END_TAG);
    let length: usize = cap - n - 2;
    proof {
        lemma_varint_len(length as nat);
    }
    let ghost tagged = buffer@;
    let r = encode_length_delimiter(length, buffer, n + 1);
    match r {
        Ok(()) => {
            proof {
                let d = varint(length as nat);
                assert(tagged.take(n + 1) =~= encoded@ + seq![END_TAG]);
                assert(tagged.skip(n + 1 + d.len()) =~= before.skip(n + 1 + d.len()));
                assert(buffer@ =~= framed(encoded@, before));
            }
            Ok(())
        }
        Err(_) => {
            proof {
                assert(false);
            }
            Ok(())
        }
    }
}

/// Framing keeps the buffer's length: the reply comes first, the end tag
/// right after it, then the delimiter, and every byte past the delimiter is
/// the buffer's own.
pub proof fn lemma_framed_layout(encoded: Seq<u8>, buffer: Seq<u8>)
    requires
        encoded.len() + 2 <= buffer.len(),
    ensures
        framed(encoded, buffer).len() == buffer.len(),
        framed(encoded, buffer).take(encoded.len() as int) == encoded,
        framed(encoded, buffer)[encoded.len() as int] == END_TAG,
        ({
            let d = varint(trailer_length(encoded.len(), buffer.len()) as nat);
            let start: int = encoded.len() as int + 1;
            &&& framed(encoded, buffer).subrange(start, start + d.len()) == d
            &&& framed(encoded, buffer).skip(start + d.len()) == buffer.skip(start + d.len())
        }),
{
    let f = framed(encoded, buffer);
    let d = varint(trailer_length(encoded.len(), buffer.len()) as nat);
    let start: int = encoded.len() as int + 1;
    lemma_varint_len(trailer_length(encoded.len(), buffer.len()) as nat);
    assert(f.take(encoded.len() as int) =~= encoded);
    assert(f.subrange(start, start + d.len()) =~= d);
    assert(f.skip(start + d.len()) =~= buffer.skip(start + d.len()));
}

/// A cut message is a prefix of the message and fits its room; a message
/// that fits is left whole.
pub proof fn lemma_cut_fits(bytes: Seq<u8>, room: nat)
    ensures
        cut(bytes, room).len() <= room || cut(bytes, room) == bytes,
        cut(bytes, room).len() <= bytes.len(),
        cut(bytes, room) == bytes.take(cut(bytes, room).len() as int),
        bytes.len() <= room ==> cut(bytes, room) == bytes,
{
    assert(bytes.take(bytes.len() as int) =~= bytes);
}

/// A message cut for a buffer of more than [`RESERVED`] bytes leaves that
/// many bytes of the buffer free.
pub proof fn lemma_cut_leaves_reserve(bytes: Seq<u8>, capacity: nat)
    requires
        capacity > RESERVED,
    ensures
        cut(bytes, message_room(capacity)).len() + RESERVED <= capacity,
{
}

/// The number that a LEB128 byte sequence carries: seven bits per byte,
/// low bits first.
pub open spec fn leb128_value(bytes: Seq<u8>) -> nat
    decreases bytes.len(),
{
    if bytes.len() == 0 {
        0
    } else {
        (bytes[0] % 128) as nat + 128 * leb128_value(bytes.drop_first())
    }
}

/// Whether `bytes` is one complete LEB128 number: every byte but the last
/// has its high bit set, and the last has it clear.
pub open spec fn leb128_complete(bytes: Seq<u8>) -> bool {
    &&& bytes.len() >= 1
    &&& bytes[bytes.len() - 1] < 128
    &&& forall|j: int| 0 <= j < bytes.len() - 1 ==> #[trigger] bytes[j] >= 128
}

/// The encoding of `v` is one complete LEB128 number that reads back as `v`.
pub proof fn lemma_varint_reads_back(v: nat)
    ensures
        leb128_value(varint(v)) == v,
        leb128_complete(varint(v)),
    decreases v,
{
    if v < 128 {
        assert(varint(v).drop_first() =~= Seq::<u8>::empty());
        assert(leb128_value(Seq::<u8>::empty()) == 0);
    } else {
        lemma_varint_reads_back(v / 128);
        let first = (v % 128 + 128) as u8;
        let rest = varint(v / 128);
        assert(varint(v) == seq![first] + rest);
        assert((seq![first] + rest).drop_first() =~= rest);
        assert(first % 128 == v % 128);
        assert(v % 128 + 128 * (v / 128) == v) by (nonlinear_arith);
        assert(leb128_value(varint(v)) == (first % 128) as nat + 128 * leb128_value(rest));
        assert forall|j: int| 0 <= j < varint(v).len() - 1 implies #[trigger] varint(v)[j] >= 128 by {
            if j > 0 {
                assert(varint(v)[j] == rest[j - 1]);
            }
        }
    }
}

/// What framing writes, for every reply of `n` bytes and every buffer of
/// `c >= n + 2` bytes: the reply, then the end tag 10, then one complete
/// LEB128 number that reads back as exactly `c - n - 2`, the length the
/// buffer has left after the tag, less one; the buffer keeps its length,
/// and every byte after the delimiter is the buffer's own.
pub proof fn lemma_fill_writes_remaining_length(encoded: Seq<u8>, buffer: Seq<u8>)
    requires
        encoded.len() + 2 <= buffer.len(),
    ensures
        ({
            let n = encoded.len() as int;
            let c = buffer.len() as int;
            let f = framed(encoded, buffer);
            let d = varint((c - n - 2) as nat);
            &&& f.len() == c
            &&& f.take(n) == encoded
            &&& f[n] == 10
            &&& n + 1 + d.len() <= c
            &&& f.subrange(n + 1, n + 1 + d.len()) == d
            &&& leb128_complete(f.subrange(n + 1, n + 1 + d.len()))
            &&& leb128_value(f.subrange(n + 1, n + 1 + d.len())) == c - n - 2
            &&& f.skip(n + 1 + d.len()) == buffer.skip(n + 1 + d.len())
        }),
{
    let n = encoded.len() as int;
    let c = buffer.len() as int;
    lemma_framed_layout(encoded, buffer);
    lemma_varint_len((c - n - 2) as nat);
    lemma_varint_reads_back((c - n - 2) as nat);
}

/// The room for the message is all of the buffer but 16 bytes, and none
/// where the buffer has 16 bytes or fewer: a message that fits in it is
/// kept whole, and a longer one is cut to exactly that many bytes, a prefix
/// of itself.
pub proof fn lemma_room_is_all_but_sixteen(bytes: Seq<u8>, capacity: nat)
    ensures
        capacity > 16 ==> message_room(capacity) == capacity - 16,
        capacity <= 16 ==> message_room(capacity) == 0,
        capacity > 16 && bytes.len() + 16 <= capacity ==> cut(bytes, message_room(capacity)) == bytes,
        capacity > 16 && bytes.len() + 16 > capacity ==> {
            &&& cut(bytes, message_room(capacity)).len() == capacity - 16
            &&& cut(bytes, message_room(capacity)) == bytes.take(capacity - 16)
        },
        capacity <= 16 ==> cut(bytes, message_room(capacity)).len() == 0,
{
}

/// Every message can be cut for a buffer where it fits whole in all but
/// 16 bytes, and for a buffer of at most 16 bytes, where nothing of it is
/// kept: only a cut inside a message that does not fit can fall inside a
/// character.
pub proof fn lemma_fitting_message_is_cuttable(msg: Seq<char>, capacity: nat)
    ensures
        encode_utf8(msg).len() + 16 <= capacity ==> cuttable(msg, capacity),
        capacity <= 16 ==> cuttable(msg, capacity),
{
    vstd::utf8::encode_utf8_valid_utf8(msg);
}

/// Framing is defined exactly for a reply that does not fit at all, and for
/// one that leaves room for the end tag and at least one byte after it; it
/// is undefined only where the reply fills the buffer or leaves one byte.
pub proof fn lemma_framable_sizes(encoded_len: nat, capacity: nat)
    ensures
        encoded_len + 2 <= capacity ==> framable(encoded_len, capacity),
        encoded_len > capacity ==> framable(encoded_len, capacity),
        capacity <= encoded_len + 1 && encoded_len <= capacity ==> !framable(encoded_len, capacity),
{
}

} // verus!
