//! Fixed-size frames on the chat's sockets.
//!
//! A client writes every message as one frame of `DATA_SIZE` bytes: the
//! UTF-8 text of the message, cut to the frame's size when longer and padded
//! with zero bytes when shorter. A reader keeps the bytes before the first
//! zero byte and decodes them as UTF-8.

use vstd::prelude::*;
use vstd::string::StrSliceExecFns;
use vstd::utf8::*;

verus! {

/// Size in bytes of the frame in which a client sends one message.
pub const DATA_SIZE: usize = 96;

/// Size in bytes of the frame in which the server relays a message to its clients.
pub const MSG_SIZE: usize = 32;

/// Size in bytes of the frame in which the server relays a user name to its clients.
pub const USER_NAME_SIZE: usize = 16;

/// Why the bytes of a frame could not be read back as text.
pub enum FrameError {
    /// The bytes before the first zero byte are not valid UTF-8.
    InvalidUtf8,
}

/// `n` zero bytes.
pub open spec fn zero_padding(n: nat) -> Seq<u8> {
    Seq::new(n, |i: int| 0u8)
}

/// The frame of `size` bytes that carries `payload`: its first `size` bytes when it is
/// that long, else the payload followed by zero bytes up to `size`.
pub open spec fn framed(payload: Seq<u8>, size: nat) -> Seq<u8> {
    if payload.len() >= size {
        payload.take(size as int)
    } else {
        payload + zero_padding((size - payload.len()) as nat)
    }
}

/// The index of the first zero byte of `buf` at or after `from`, or the length of `buf`
/// when there is none.
pub open spec fn first_zero_from(buf: Seq<u8>, from: int) -> int
    decreases buf.len() - from,
{
    if from < 0 || from >= buf.len() {
        buf.len() as int
    } else if buf[from] == 0 {
        from
    } else {
        first_zero_from(buf, from + 1)
    }
}

/// The bytes of `buf` before its first zero byte.
pub open spec fn payload_of(buf: Seq<u8>) -> Seq<u8> {
    buf.take(first_zero_from(buf, 0))
}

/// No byte of `bytes` is zero.
pub open spec fn zero_free(bytes: Seq<u8>) -> bool {
    forall|i: int| 0 <= i < bytes.len() ==> bytes[i] != 0
}

/// No character of `text` is NUL.
pub open spec fn nul_free(text: Seq<char>) -> bool {
    forall|i: int| 0 <= i < text.len() ==> text[i] != '\0'
}

/// The text that a reader gets back from the frame `buf`: the UTF-8 decoding of
/// its payload, or `None` where that payload is not UTF-8.
pub open spec fn frame_text(buf: Seq<u8>) -> Option<Seq<char>> {
    let payload = payload_of(buf);
    if valid_utf8(payload) {
        Some(decode_utf8(payload))
    } else {
        None
    }
}

/// `String::from_utf8` of std: the text whose UTF-8 encoding is `bytes`, or `None`
/// where `bytes` is not valid UTF-8. The contract takes UTF-8 validity and decoding
/// as vstd's `valid_utf8` and `decode_utf8` define them; std returns an error
/// exactly on the invalid inputs.
#[verifier::external_body]
fn string_from_utf8(bytes: Vec<u8>) -> (text: Option<String>)
    ensures
        text is Some <==> valid_utf8(bytes@),
        text matches Some(s) ==> s@ == decode_utf8(bytes@),
{
    String::from_utf8(bytes).ok()
}

/// Lays `payload` out in a frame of `size` bytes: cut to `size` bytes, or padded with
/// zero bytes up to `size`.
pub fn frame_bytes(payload: Vec<u8>, size: usize) -> (frame: Vec<u8>)
    ensures
        frame@ == framed(payload@, size as nat),
        frame@.len() == size,
{
    let mut frame = payload;
    if frame.len() >= size {
        frame.truncate(size);
    } else {
        let ghost original = frame@;
        while frame.len() < size
            invariant
                original.len() <= frame.len() <= size,
                frame@ == original + zero_padding((frame.len() - original.len()) as nat),
            decreases size - frame.len(),
        {
            frame.push(0u8);
            assert(frame@ =~= original + zero_padding((frame.len() - original.len()) as nat));
        }
    }
    frame
}

/// The frame of `size` bytes that carries the UTF-8 encoding of `text`.
pub fn frame_text_bytes(text: &str, size: usize) -> (frame: Vec<u8>)
    ensures
        frame@ == framed(encode_utf8(text@), size as nat),
        frame@.len() == size,
{
    let bytes = text.as_bytes_vec();
    frame_bytes(bytes, size)
}

/// The frame in which a client sends `json`, the encoded message: `DATA_SIZE` bytes.
pub fn encode_frame(json: &str) -> (frame: Vec<u8>)
    ensures
        frame@ == framed(encode_utf8(json@), DATA_SIZE as nat),
        frame@.len() == DATA_SIZE,
{
    frame_text_bytes(json, DATA_SIZE)
}

/// The bytes of `buf` before its first zero byte.
pub fn frame_payload(buf: &Vec<u8>) -> (payload: Vec<u8>)
    ensures
        payload@ == payload_of(buf@),
        zero_free(payload@),
{
    let mut payload: Vec<u8> = Vec::new();
    let mut i: usize = 0;
    while i < buf.len() && buf[i] != 0
        invariant
            i <= buf.len(),
            payload@ == buf@.take(i as int),
            zero_free(payload@),
            first_zero_from(buf@, i as int) == first_zero_from(buf@, 0),
        decreases buf.len() - i,
    {
        payload.push(buf[i]);
        i = i + 1;
        assert(payload@ =~= buf@.take(i as int));
    }
    assert(first_zero_from(buf@, i as int) == i);
    payload
}

/// Reads back the text carried by the frame `buf`: the bytes before its first zero byte,
/// decoded as UTF-8.
pub fn decode_frame(buf: &Vec<u8>) -> (text: Result<String, FrameError>)
    ensures
        frame_text(buf@) is None ==> text is Err,
        frame_text(buf@) matches Some(t) ==> text matches Ok(s) && s@ == t,
{
    let payload = frame_payload(buf);
    match string_from_utf8(payload) {
        Some(s) => Ok(s),
        None => Err(FrameError::InvalidUtf8),
    }
}

/// The UTF-8 encoding of a scalar other than NUL holds no zero byte.
proof fn lemma_scalar_encoding_zero_free(v: u32)
    requires
        is_scalar(v),
        v != 0,
    ensures
        zero_free(encode_scalar(v)),
{
    if has_width_1_encoding(v) {
        assert(leading_byte_width_1(v) != 0) by (bit_vector)
            requires
                0 < v <= 0x7f,
        ;
    } else {
        assert(leading_byte_width_2(v) != 0) by (bit_vector);
        assert(leading_byte_width_3(v) != 0) by (bit_vector);
        assert(leading_byte_width_4(v) != 0) by (bit_vector);
        assert(last_continuation_byte(v) != 0) by (bit_vector);
        assert(second_last_continuation_byte(v) != 0) by (bit_vector);
        assert(third_last_continuation_byte(v) != 0) by (bit_vector);
    }
}

/// The UTF-8 encoding of a text without NUL characters holds no zero byte.
pub proof fn lemma_encoding_zero_free(text: Seq<char>)
    requires
        nul_free(text),
    ensures
        zero_free(encode_utf8(text)),
    decreases text.len(),
{
    if text.len() > 0 {
        let c = text[0];
        vstd::utf8::char_is_scalar(c);
        assert(c as u32 != 0) by {
            if c as u32 == 0 {
                vstd::utf8::char_u32_cast(c, 0u32);
                vstd::utf8::char_u32_cast('\0', 0u32);
            }
        }
        lemma_scalar_encoding_zero_free(c as u32);
        let rest = text.drop_first();
        assert(nul_free(rest)) by {
            assert forall|i: int| 0 <= i < rest.len() implies rest[i] != '\0' by {
                assert(rest[i] == text[i + 1]);
            }
        }
        lemma_encoding_zero_free(rest);
        let head = encode_scalar(c as u32);
        let tail = encode_utf8(rest);
        assert(encode_utf8(text) == head + tail);
        assert forall|i: int| 0 <= i < (head + tail).len() implies (head + tail)[i] != 0 by {
            if i < head.len() {
                assert((head + tail)[i] == head[i]);
            } else {
                assert((head + tail)[i] == tail[i - head.len()]);
            }
        }
    }
}

/// The first zero byte of `buf` at or after `from` is at `end` when none of the bytes
/// from `from` up to `end` is zero and `end` is the end of `buf` or holds a zero byte.
proof fn lemma_first_zero_at(buf: Seq<u8>, from: int, end: int)
    requires
        0 <= from <= end <= buf.len(),
        forall|j: int| from <= j < end ==> buf[j] != 0,
        end == buf.len() || buf[end] == 0,
    ensures
        first_zero_from(buf, from) == end,
    decreases end - from,
{
    if from < end {
        lemma_first_zero_at(buf, from + 1, end);
    }
}

/// Round trip through a frame: the text that a reader gets back from a frame of `size`
/// bytes is the text that was framed, when that text has no NUL character and its
/// UTF-8 encoding fits in the frame.
pub proof fn lemma_frame_round_trip(text: Seq<char>, size: nat)
    requires
        nul_free(text),
        encode_utf8(text).len() <= size,
    ensures
        frame_text(framed(encode_utf8(text), size)) == Some(text),
{
    let bytes = encode_utf8(text);
    let frame = framed(bytes, size);
    lemma_encoding_zero_free(text);
    assert(frame == bytes + zero_padding((size - bytes.len()) as nat)) by {
        if bytes.len() == size {
            assert(bytes.take(size as int) =~= bytes + zero_padding(0));
        }
    }
    assert forall|j: int| 0 <= j < bytes.len() implies frame[j] != 0 by {
        assert(frame[j] == bytes[j]);
    }
    if bytes.len() < frame.len() {
        assert(frame[bytes.len() as int] == 0u8);
    }
    lemma_first_zero_at(frame, 0, bytes.len() as int);
    assert(payload_of(frame) =~= bytes);
    vstd::utf8::encode_utf8_valid_utf8(text);
    vstd::utf8::encode_utf8_decode_utf8(text);
}

/// A frame always has the size it was made for, whatever its payload.
pub proof fn lemma_frame_size(payload: Seq<u8>, size: nat)
    ensures
        framed(payload, size).len() == size,
{
}

} // verus!
