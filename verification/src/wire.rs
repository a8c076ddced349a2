//! The wire format: one message per frame.
//!
//! A frame is the message's `id` as eight little-endian bytes, one byte that
//! tells the kind, and the payload of that kind. A screenshot's payload is a
//! block: the image's length as eight little-endian bytes, then the image.
//! Recognized text is a block of UTF-8, then one byte that tells whether a
//! key follows (`0` or `1`), then the key as a block of UTF-8. The other
//! kinds have no payload. A frame holds nothing after its payload.

use vstd::prelude::*;
use vstd::string::*;
use vstd::utf8::*;
use crate::message::{Message, MessageView, Payload, PayloadView};
use crate::text::string_from_utf8;

verus! {

/// Why a frame is no message.
#[derive(Clone, Copy, Debug, PartialEq, Eq, Structural)]
pub enum DecodeError {
    /// The frame ends before the message does.
    Truncated,
    /// The byte that tells the kind names none.
    UnknownKind,
    /// A text is not well-formed UTF-8.
    InvalidText,
    /// The byte that tells whether a key follows is neither `0` nor `1`.
    InvalidKeyFlag,
    /// The frame goes on after the message has ended.
    TrailingBytes,
}

/// The length of what every frame begins with: the `id` and the kind.
pub const HEADER_LEN: usize = 9;

pub const TAG_EMPTY: u8 = 0;

pub const TAG_INITIALIZATION: u8 = 1;

pub const TAG_REQUEST_SCREENSHOT: u8 = 2;

pub const TAG_RESPONSE_SCREENSHOT: u8 = 3;

pub const TAG_OCR_MESSAGE: u8 = 4;

/// The eight little-endian bytes of `v`.
#[verifier::opaque]
pub open spec fn u64_bytes(v: u64) -> Seq<u8> {
    seq![
        (v % 0x100) as u8,
        (v / 0x100 % 0x100) as u8,
        (v / 0x1_0000 % 0x100) as u8,
        (v / 0x100_0000 % 0x100) as u8,
        (v / 0x1_0000_0000 % 0x100) as u8,
        (v / 0x100_0000_0000 % 0x100) as u8,
        (v / 0x1_0000_0000_0000 % 0x100) as u8,
        (v / 0x100_0000_0000_0000 % 0x100) as u8,
    ]
}

/// The number that the first eight bytes of `s` spell, little end first.
#[verifier::opaque]
pub open spec fn bytes_u64(s: Seq<u8>) -> int
    recommends
        s.len() >= 8,
{
    s[0] as int + s[1] as int * 0x100 + s[2] as int * 0x1_0000 + s[3] as int * 0x100_0000
        + s[4] as int * 0x1_0000_0000 + s[5] as int * 0x100_0000_0000 + s[6] as int
        * 0x1_0000_0000_0000 + s[7] as int * 0x100_0000_0000_0000
}

/// `data` behind its length.
pub open spec fn block(data: Seq<u8>) -> Seq<u8> {
    u64_bytes(data.len() as u64) + data
}

/// The block that `s` begins with and what follows it, if `s` begins with
/// a whole block.
pub open spec fn take_block(s: Seq<u8>) -> Option<(Seq<u8>, Seq<u8>)> {
    if s.len() < 8 {
        None
    } else {
        let n = bytes_u64(s);
        if s.len() - 8 < n {
            None
        } else {
            Some((s.subrange(8, 8 + n), s.skip(8 + n)))
        }
    }
}

/// The byte that tells a payload's kind.
pub open spec fn kind_tag(payload: PayloadView) -> u8 {
    match payload {
        PayloadView::Empty => TAG_EMPTY,
        PayloadView::Initialization => TAG_INITIALIZATION,
        PayloadView::RequestScreenshot => TAG_REQUEST_SCREENSHOT,
        PayloadView::ResponseScreenshot { .. } => TAG_RESPONSE_SCREENSHOT,
        PayloadView::OcrMessage { .. } => TAG_OCR_MESSAGE,
    }
}

/// The bytes of a payload.
pub open spec fn encode_payload(payload: PayloadView) -> Seq<u8> {
    match payload {
        PayloadView::ResponseScreenshot { image } => block(image),
        PayloadView::OcrMessage { text, key } => block(encode_utf8(text)) + match key {
            None => seq![0u8],
            Some(k) => seq![1u8] + block(encode_utf8(k)),
        },
        _ => Seq::empty(),
    }
}

/// The frame of a message.
pub open spec fn spec_encode(message: MessageView) -> Seq<u8> {
    u64_bytes(message.id) + seq![kind_tag(message.payload)] + encode_payload(message.payload)
}

/// A message can be framed when each of its lengths fits in eight bytes.
/// Every [`Message`] can.
pub open spec fn representable(message: MessageView) -> bool {
    match message.payload {
        PayloadView::ResponseScreenshot { image } => image.len() <= u64::MAX,
        PayloadView::OcrMessage { text, key } => {
            &&& encode_utf8(text).len() <= u64::MAX
            &&& key matches Some(k) ==> encode_utf8(k).len() <= u64::MAX
        },
        _ => true,
    }
}

/// A payload without content, read from what follows the header.
pub open spec fn decode_bare(payload: PayloadView, rest: Seq<u8>) -> Result<PayloadView, DecodeError> {
    if rest.len() == 0 {
        Ok(payload)
    } else {
        Err(DecodeError::TrailingBytes)
    }
}

/// A screenshot, read from what follows the header.
pub open spec fn decode_screenshot(rest: Seq<u8>) -> Result<PayloadView, DecodeError> {
    match take_block(rest) {
        None => Err(DecodeError::Truncated),
        Some((image, after)) => decode_bare(PayloadView::ResponseScreenshot { image }, after),
    }
}

/// The key of recognized text, read from what follows the text.
pub open spec fn decode_key(after: Seq<u8>) -> Result<Option<Seq<char>>, DecodeError> {
    if after.len() == 0 {
        Err(DecodeError::Truncated)
    } else if after[0] == 0 {
        if after.len() == 1 {
            Ok(None)
        } else {
            Err(DecodeError::TrailingBytes)
        }
    } else if after[0] == 1 {
        match take_block(after.skip(1)) {
            None => Err(DecodeError::Truncated),
            Some((key, end)) => if !valid_utf8(key) {
                Err(DecodeError::InvalidText)
            } else if end.len() != 0 {
                Err(DecodeError::TrailingBytes)
            } else {
                Ok(Some(decode_utf8(key)))
            },
        }
    } else {
        Err(DecodeError::InvalidKeyFlag)
    }
}

/// Recognized text, read from what follows the header.
pub open spec fn decode_text(rest: Seq<u8>) -> Result<PayloadView, DecodeError> {
    match take_block(rest) {
        None => Err(DecodeError::Truncated),
        Some((text, after)) => if !valid_utf8(text) {
            Err(DecodeError::InvalidText)
        } else {
            match decode_key(after) {
                Err(e) => Err(e),
                Ok(key) => Ok(PayloadView::OcrMessage { text: decode_utf8(text), key }),
            }
        },
    }
}

/// The payload of the kind that `tag` tells, read from what follows the
/// header.
pub open spec fn decode_payload(tag: u8, rest: Seq<u8>) -> Result<PayloadView, DecodeError> {
    if tag == TAG_EMPTY {
        decode_bare(PayloadView::Empty, rest)
    } else if tag == TAG_INITIALIZATION {
        decode_bare(PayloadView::Initialization, rest)
    } else if tag == TAG_REQUEST_SCREENSHOT {
        decode_bare(PayloadView::RequestScreenshot, rest)
    } else if tag == TAG_RESPONSE_SCREENSHOT {
        decode_screenshot(rest)
    } else if tag == TAG_OCR_MESSAGE {
        decode_text(rest)
    } else {
        Err(DecodeError::UnknownKind)
    }
}

/// The message that a frame holds, or why it holds none.
pub open spec fn spec_decode(bytes: Seq<u8>) -> Result<MessageView, DecodeError> {
    if bytes.len() < HEADER_LEN {
        Err(DecodeError::Truncated)
    } else {
        match decode_payload(bytes[8], bytes.skip(9)) {
            Err(e) => Err(e),
            Ok(payload) => Ok(MessageView { id: bytes_u64(bytes) as u64, payload }),
        }
    }
}

/// The view of what [`decode`] returns.
pub open spec fn decoded_view(result: Result<Message, DecodeError>) -> Result<
    MessageView,
    DecodeError,
> {
    match result {
        Ok(message) => Ok(message@),
        Err(e) => Err(e),
    }
}

/// The eight bytes of a number spell that number.
pub proof fn lemma_u64_bytes(v: u64)
    ensures
        u64_bytes(v).len() == 8,
        bytes_u64(u64_bytes(v)) == v,
{
    reveal(u64_bytes);
    reveal(bytes_u64);
    assert(v == (v % 0x100) + (v / 0x100 % 0x100) * 0x100 + (v / 0x1_0000 % 0x100) * 0x1_0000 + (v
        / 0x100_0000 % 0x100) * 0x100_0000 + (v / 0x1_0000_0000 % 0x100) * 0x1_0000_0000 + (v
        / 0x100_0000_0000 % 0x100) * 0x100_0000_0000 + (v / 0x1_0000_0000_0000 % 0x100)
        * 0x1_0000_0000_0000 + (v / 0x100_0000_0000_0000 % 0x100) * 0x100_0000_0000_0000)
        by (bit_vector);
}

/// The number that eight bytes spell, taken byte by byte.
proof fn lemma_spelled(b0: u8, b1: u8, b2: u8, b3: u8, b4: u8, b5: u8, b6: u8, b7: u8) -> (v: u64)
    ensures
        v == b0 as int + b1 as int * 0x100 + b2 as int * 0x1_0000 + b3 as int * 0x100_0000
            + b4 as int * 0x1_0000_0000 + b5 as int * 0x100_0000_0000 + b6 as int
            * 0x1_0000_0000_0000 + b7 as int * 0x100_0000_0000_0000,
        v % 0x100 == b0,
        v / 0x100 % 0x100 == b1,
        v / 0x1_0000 % 0x100 == b2,
        v / 0x100_0000 % 0x100 == b3,
        v / 0x1_0000_0000 % 0x100 == b4,
        v / 0x100_0000_0000 % 0x100 == b5,
        v / 0x1_0000_0000_0000 % 0x100 == b6,
        v / 0x100_0000_0000_0000 % 0x100 == b7,
{
    let v: u64 = (b0 as int + b1 as int * 0x100 + b2 as int * 0x1_0000 + b3 as int * 0x100_0000
        + b4 as int * 0x1_0000_0000 + b5 as int * 0x100_0000_0000 + b6 as int
        * 0x1_0000_0000_0000 + b7 as int * 0x100_0000_0000_0000) as u64;
    let w: u64 = (b0 as u64) | (b1 as u64) << 8 | (b2 as u64) << 16 | (b3 as u64) << 24 | (b4 as u64)
        << 32 | (b5 as u64) << 40 | (b6 as u64) << 48 | (b7 as u64) << 56;
    assert(w == b0 as u64 + (b1 as u64) * 0x100 + (b2 as u64) * 0x1_0000 + (b3 as u64) * 0x100_0000
        + (b4 as u64) * 0x1_0000_0000 + (b5 as u64) * 0x100_0000_0000 + (b6 as u64)
        * 0x1_0000_0000_0000 + (b7 as u64) * 0x100_0000_0000_0000) by (bit_vector)
        requires
            w == (b0 as u64) | (b1 as u64) << 8 | (b2 as u64) << 16 | (b3 as u64) << 24 | (b4 as u64)
                << 32 | (b5 as u64) << 40 | (b6 as u64) << 48 | (b7 as u64) << 56,
    ;
    assert(w % 0x100 == b0 as u64 && w / 0x100 % 0x100 == b1 as u64 && w / 0x1_0000 % 0x100
        == b2 as u64 && w / 0x100_0000 % 0x100 == b3 as u64 && w / 0x1_0000_0000 % 0x100
        == b4 as u64 && w / 0x100_0000_0000 % 0x100 == b5 as u64 && w / 0x1_0000_0000_0000 % 0x100
        == b6 as u64 && w / 0x100_0000_0000_0000 % 0x100 == b7 as u64) by (bit_vector)
        requires
            w == (b0 as u64) | (b1 as u64) << 8 | (b2 as u64) << 16 | (b3 as u64) << 24 | (b4 as u64)
                << 32 | (b5 as u64) << 40 | (b6 as u64) << 48 | (b7 as u64) << 56,
    ;
    v
}

/// A number that eight bytes spell is written with those bytes.
pub proof fn lemma_bytes_u64(s: Seq<u8>)
    requires
        s.len() >= 8,
    ensures
        0 <= bytes_u64(s) <= u64::MAX,
        u64_bytes(bytes_u64(s) as u64) == s.take(8),
{
    reveal(u64_bytes);
    reveal(bytes_u64);
    let v = lemma_spelled(s[0], s[1], s[2], s[3], s[4], s[5], s[6], s[7]);
    assert(v == bytes_u64(s));
    assert(u64_bytes(v) =~= s.take(8));
}

/// Writes the eight bytes of `v` at the end of `out`.
fn put_u64(out: &mut Vec<u8>, v: u64)
    ensures
        final(out)@ == old(out)@ + u64_bytes(v),
{
    out.push((v % 0x100) as u8);
    out.push((v / 0x100 % 0x100) as u8);
    out.push((v / 0x1_0000 % 0x100) as u8);
    out.push((v / 0x100_0000 % 0x100) as u8);
    out.push((v / 0x1_0000_0000 % 0x100) as u8);
    out.push((v / 0x100_0000_0000 % 0x100) as u8);
    out.push((v / 0x1_0000_0000_0000 % 0x100) as u8);
    out.push((v / 0x100_0000_0000_0000 % 0x100) as u8);
    proof {
        reveal(u64_bytes);
        assert(out@ =~= old(out)@ + u64_bytes(v));
    }
}

/// Writes `data` as a block at the end of `out`.
fn put_block(out: &mut Vec<u8>, data: &[u8])
    ensures
        final(out)@ == old(out)@ + block(data@),
        data@.len() <= usize::MAX,
{
    let ghost before = out@;
    put_u64(out, data.len() as u64);
    let mut i: usize = 0;
    while i < data.len()
        invariant
            i <= data.len(),
            out@ == before + u64_bytes(data@.len() as u64) + data@.take(i as int),
        decreases data.len() - i,
    {
        out.push(data[i]);
        i += 1;
        assert(data@.take(i as int) =~= data@.take(i - 1).push(data@[i - 1]));
    }
    assert(data@.take(i as int) =~= data@);
    assert(out@ =~= before + block(data@));
}

/// Frames a message.
///
/// Every message can be framed, and [`decode`] gives the message back from
/// its frame.
pub fn encode(message: &Message) -> (bytes: Vec<u8>)
    ensures
        bytes@ == spec_encode(message@),
        representable(message@),
        spec_decode(bytes@) == Ok::<MessageView, DecodeError>(message@),
{
    let mut out: Vec<u8> = Vec::new();
    put_u64(&mut out, message.id);
    match &message.payload {
        Payload::Empty => {
            out.push(TAG_EMPTY);
        },
        Payload::Initialization => {
            out.push(TAG_INITIALIZATION);
        },
        Payload::RequestScreenshot => {
            out.push(TAG_REQUEST_SCREENSHOT);
        },
        Payload::ResponseScreenshot { image } => {
            out.push(TAG_RESPONSE_SCREENSHOT);
            put_block(&mut out, image.as_slice());
        },
        Payload::OcrMessage { text, key } => {
            out.push(TAG_OCR_MESSAGE);
            let text_bytes = text.as_str().as_bytes_vec();
            assert(text_bytes@ == encode_utf8(text@));
            put_block(&mut out, text_bytes.as_slice());
            match key {
                None => {
                    out.push(0u8);
                },
                Some(k) => {
                    out.push(1u8);
                    let key_bytes = k.as_str().as_bytes_vec();
                    assert(key_bytes@ == encode_utf8(k@));
                    put_block(&mut out, key_bytes.as_slice());
                },
            }
        },
    }
    proof {
        lemma_u64_bytes(message.id);
        assert(out@ =~= spec_encode(message@));
        law_round_trip(message@);
    }
    out
}

/// Reads the number that the eight bytes from `at` on spell.
fn get_u64(bytes: &[u8], at: usize) -> (v: u64)
    requires
        at + 8 <= bytes.len(),
    ensures
        v == bytes_u64(bytes@.skip(at as int)),
{
    proof {
        reveal(bytes_u64);
        lemma_bytes_u64(bytes@.skip(at as int));
    }
    let b0 = bytes[at] as u64;
    let b1 = bytes[at + 1] as u64;
    let b2 = bytes[at + 2] as u64;
    let b3 = bytes[at + 3] as u64;
    let b4 = bytes[at + 4] as u64;
    let b5 = bytes[at + 5] as u64;
    let b6 = bytes[at + 6] as u64;
    let b7 = bytes[at + 7] as u64;
    b0 + b1 * 0x100 + b2 * 0x1_0000 + b3 * 0x100_0000 + b4 * 0x1_0000_0000 + b5 * 0x100_0000_0000 + b6
        * 0x1_0000_0000_0000 + b7 * 0x100_0000_0000_0000
}

/// Finds the block that begins at `at`: where its content begins and ends.
fn get_block(bytes: &[u8], at: usize) -> (found: Option<(usize, usize)>)
    requires
        at <= bytes.len(),
    ensures
        match found {
            None => take_block(bytes@.skip(at as int)) is None,
            Some((start, end)) => {
                &&& start == at + 8
                &&& start <= end <= bytes.len()
                &&& take_block(bytes@.skip(at as int)) == Some(
                    (bytes@.subrange(start as int, end as int), bytes@.skip(end as int)),
                )
            },
        },
{
    let left = bytes.len() - at;
    if left < 8 {
        return None;
    }
    let n = get_u64(bytes, at);
    if n > (left - 8) as u64 {
        return None;
    }
    let start = at + 8;
    let end = start + n as usize;
    proof {
        let s = bytes@.skip(at as int);
        assert(s.subrange(8, 8 + n) =~= bytes@.subrange(start as int, end as int));
        assert(s.skip(8 + n) =~= bytes@.skip(end as int));
    }
    Some((start, end))
}

/// Copies the bytes from `start` up to `end`.
fn copy_range(bytes: &[u8], start: usize, end: usize) -> (out: Vec<u8>)
    requires
        start <= end <= bytes.len(),
    ensures
        out@ == bytes@.subrange(start as int, end as int),
{
    let mut out: Vec<u8> = Vec::new();
    let mut i: usize = start;
    while i < end
        invariant
            start <= i <= end <= bytes.len(),
            out@ == bytes@.subrange(start as int, i as int),
        decreases end - i,
    {
        out.push(bytes[i]);
        i += 1;
        assert(bytes@.subrange(start as int, i as int) =~= bytes@.subrange(start as int, i - 1).push(
            bytes@[i - 1],
        ));
    }
    out
}

/// Reads the key of recognized text, which begins at `at`.
fn get_key(bytes: &[u8], at: usize) -> (result: Result<Option<String>, DecodeError>)
    requires
        at <= bytes.len(),
    ensures
        match result {
            Ok(key) => decode_key(bytes@.skip(at as int)) == Ok::<Option<Seq<char>>, DecodeError>(
                crate::message::key_view(key),
            ),
            Err(e) => decode_key(bytes@.skip(at as int)) == Err::<Option<Seq<char>>, DecodeError>(e),
        },
{
    let ghost after = bytes@.skip(at as int);
    if at == bytes.len() {
        return Err(DecodeError::Truncated);
    }
    let flag = bytes[at];
    assert(after[0] == flag);
    if flag == 0 {
        if bytes.len() - at == 1 {
            Ok(None)
        } else {
            Err(DecodeError::TrailingBytes)
        }
    } else if flag == 1 {
        assert(after.skip(1) =~= bytes@.skip(at + 1));
        match get_block(bytes, at + 1) {
            None => Err(DecodeError::Truncated),
            Some((start, end)) => {
                match string_from_utf8(copy_range(bytes, start, end)) {
                    None => Err(DecodeError::InvalidText),
                    Some(key) => {
                        if end != bytes.len() {
                            Err(DecodeError::TrailingBytes)
                        } else {
                            Ok(Some(key))
                        }
                    },
                }
            },
        }
    } else {
        Err(DecodeError::InvalidKeyFlag)
    }
}

/// Reads the message that a frame holds.
///
/// No frame makes it fail otherwise than by the error that [`spec_decode`]
/// gives for it.
pub fn decode(bytes: &[u8]) -> (result: Result<Message, DecodeError>)
    ensures
        decoded_view(result) == spec_decode(bytes@),
{
    if bytes.len() < HEADER_LEN {
        return Err(DecodeError::Truncated);
    }
    assert(bytes@.skip(0) =~= bytes@);
    let id = get_u64(bytes, 0);
    let tag = bytes[8];
    let ghost rest = bytes@.skip(9);
    let left = bytes.len() - HEADER_LEN;
    if tag == TAG_EMPTY {
        if left == 0 {
            Ok(Message { id, payload: Payload::Empty })
        } else {
            Err(DecodeError::TrailingBytes)
        }
    } else if tag == TAG_INITIALIZATION {
        if left == 0 {
            Ok(Message { id, payload: Payload::Initialization })
        } else {
            Err(DecodeError::TrailingBytes)
        }
    } else if tag == TAG_REQUEST_SCREENSHOT {
        if left == 0 {
            Ok(Message { id, payload: Payload::RequestScreenshot })
        } else {
            Err(DecodeError::TrailingBytes)
        }
    } else if tag == TAG_RESPONSE_SCREENSHOT {
        match get_block(bytes, HEADER_LEN) {
            None => Err(DecodeError::Truncated),
            Some((start, end)) => {
                if end != bytes.len() {
                    Err(DecodeError::TrailingBytes)
                } else {
                    let image = copy_range(bytes, start, end);
                    Ok(Message { id, payload: Payload::ResponseScreenshot { image } })
                }
            },
        }
    } else if tag == TAG_OCR_MESSAGE {
        match get_block(bytes, HEADER_LEN) {
            None => Err(DecodeError::Truncated),
            Some((start, end)) => {
                match string_from_utf8(copy_range(bytes, start, end)) {
                    None => Err(DecodeError::InvalidText),
                    Some(text) => {
                        match get_key(bytes, end) {
                            Err(e) => Err(e),
                            Ok(key) => Ok(Message { id, payload: Payload::OcrMessage { text, key } }),
                        }
                    },
                }
            },
        }
    } else {
        Err(DecodeError::UnknownKind)
    }
}

/// The number that a sequence spells is told by its first eight bytes.
proof fn lemma_bytes_u64_prefix(s: Seq<u8>, t: Seq<u8>)
    requires
        s.len() >= 8,
        t.len() >= 8,
        s.take(8) == t.take(8),
    ensures
        bytes_u64(s) == bytes_u64(t),
{
    reveal(bytes_u64);
    assert forall|i: int| 0 <= i < 8 implies s[i] == t[i] by {
        assert(s.take(8)[i] == s[i]);
        assert(t.take(8)[i] == t[i]);
    }
}

/// A block is read back from where it was written, whatever follows it.
proof fn lemma_take_block(data: Seq<u8>, tail: Seq<u8>)
    requires
        data.len() <= u64::MAX,
    ensures
        take_block(block(data) + tail) == Some((data, tail)),
{
    let s = block(data) + tail;
    lemma_u64_bytes(data.len() as u64);
    assert(s.take(8) =~= u64_bytes(data.len() as u64).take(8));
    lemma_bytes_u64_prefix(s, u64_bytes(data.len() as u64));
    assert(s.subrange(8, 8 + data.len() as int) =~= data);
    assert(s.skip(8 + data.len() as int) =~= tail);
}

/// A frame that is cut short holds no whole block where one was written.
proof fn lemma_take_block_cut(data: Seq<u8>, n: int)
    requires
        data.len() <= u64::MAX,
        0 <= n < block(data).len(),
    ensures
        take_block(block(data).take(n)) is None,
{
    let s = block(data).take(n);
    lemma_u64_bytes(data.len() as u64);
    if n >= 8 {
        assert(s.take(8) =~= u64_bytes(data.len() as u64).take(8));
        lemma_bytes_u64_prefix(s, u64_bytes(data.len() as u64));
    }
}

/// Round trip: the frame of a message holds that message.
pub proof fn law_round_trip(message: MessageView)
    requires
        representable(message),
    ensures
        spec_decode(spec_encode(message)) == Ok::<MessageView, DecodeError>(message),
{
    broadcast use {encode_utf8_valid_utf8, encode_utf8_decode_utf8};

    let bytes = spec_encode(message);
    let rest = encode_payload(message.payload);
    lemma_u64_bytes(message.id);
    assert(bytes.take(8) =~= u64_bytes(message.id).take(8));
    lemma_bytes_u64_prefix(bytes, u64_bytes(message.id));
    assert(bytes[8] == kind_tag(message.payload));
    assert(bytes.skip(9) =~= rest);
    match message.payload {
        PayloadView::ResponseScreenshot { image } => {
            lemma_take_block(image, Seq::empty());
            assert(rest =~= block(image) + Seq::<u8>::empty());
        },
        PayloadView::OcrMessage { text, key } => {
            let after = match key {
                None => seq![0u8],
                Some(k) => seq![1u8] + block(encode_utf8(k)),
            };
            lemma_take_block(encode_utf8(text), after);
            match key {
                None => {},
                Some(k) => {
                    lemma_take_block(encode_utf8(k), Seq::empty());
                    assert(after.skip(1) =~= block(encode_utf8(k)) + Seq::<u8>::empty());
                },
            }
        },
        _ => {},
    }
}

/// What was read as a block had been written as one.
proof fn lemma_block_taken(s: Seq<u8>)
    requires
        take_block(s) is Some,
    ensures
        take_block(s).unwrap().0.len() <= u64::MAX,
        s == block(take_block(s).unwrap().0) + take_block(s).unwrap().1,
{
    let (data, tail) = take_block(s).unwrap();
    lemma_bytes_u64(s);
    assert(s =~= s.take(8) + data + tail);
}

/// Decoding accepts nothing but what encoding writes: a frame that holds a
/// message is the frame of that message.
pub proof fn law_decode_exact(bytes: Seq<u8>, message: MessageView)
    requires
        spec_decode(bytes) == Ok::<MessageView, DecodeError>(message),
    ensures
        representable(message),
        spec_encode(message) == bytes,
{
    broadcast use decode_utf8_encode_utf8;

    let rest = bytes.skip(9);
    lemma_bytes_u64(bytes);
    assert(bytes =~= bytes.take(8) + seq![bytes[8]] + rest);
    match message.payload {
        PayloadView::ResponseScreenshot { image } => {
            lemma_block_taken(rest);
            assert(rest =~= block(image));
        },
        PayloadView::OcrMessage { text, key } => {
            lemma_block_taken(rest);
            let (text_bytes, after) = take_block(rest).unwrap();
            match key {
                None => {
                    assert(after =~= seq![0u8]);
                },
                Some(k) => {
                    lemma_block_taken(after.skip(1));
                    let (key_bytes, end) = take_block(after.skip(1)).unwrap();
                    assert(after =~= seq![1u8] + block(key_bytes));
                },
            }
        },
        _ => {
            assert(rest =~= Seq::<u8>::empty());
        },
    }
}

/// A frame that was cut short holds no message: every proper prefix of a
/// message's frame is refused as truncated.
pub proof fn law_truncated_frame(message: MessageView, n: int)
    requires
        representable(message),
        0 <= n < spec_encode(message).len(),
    ensures
        spec_decode(spec_encode(message).take(n)) == Err::<MessageView, DecodeError>(
            DecodeError::Truncated,
        ),
{
    broadcast use {encode_utf8_valid_utf8, encode_utf8_decode_utf8};

    let full = spec_encode(message);
    let cut = full.take(n);
    let payload = encode_payload(message.payload);
    lemma_u64_bytes(message.id);
    if n >= 9 {
        let k = n - 9;
        assert(cut[8] == kind_tag(message.payload));
        assert(cut.skip(9) =~= payload.take(k));
        match message.payload {
            PayloadView::ResponseScreenshot { image } => {
                lemma_take_block_cut(image, k);
            },
            PayloadView::OcrMessage { text, key } => {
                let text_block = block(encode_utf8(text));
                let after = match key {
                    None => seq![0u8],
                    Some(k) => seq![1u8] + block(encode_utf8(k)),
                };
                if k < text_block.len() {
                    assert(payload.take(k) =~= text_block.take(k));
                    lemma_take_block_cut(encode_utf8(text), k);
                } else {
                    let j = k - text_block.len();
                    assert(payload.take(k) =~= text_block + after.take(j));
                    lemma_take_block(encode_utf8(text), after.take(j));
                    if j >= 1 {
                        match key {
                            None => {},
                            Some(key_text) => {
                                assert(after.take(j).skip(1) =~= block(encode_utf8(key_text)).take(
                                    j - 1,
                                ));
                                lemma_take_block_cut(encode_utf8(key_text), j - 1);
                            },
                        }
                    }
                }
            },
            _ => {},
        }
    }
}

} // verus!
