//! The framing codec for the browser-facing stdio channel (Native Messaging):
//! each message is a 4-byte unsigned length prefix followed by that many bytes
//! of UTF-8 text. On every supported target the host's native byte order is
//! little-endian, and the codec fixes that order.

use vstd::prelude::*;

verus! {

use vstd::bytes::spec_u32_from_le_bytes;
use vstd::bytes::spec_u32_to_le_bytes;
use vstd::bytes::lemma_auto_spec_u32_to_from_le_bytes;
use vstd::bytes::u32_from_le_bytes;
use vstd::bytes::u32_to_le_bytes;
use vstd::utf8::encode_utf8;
use vstd::utf8::decode_utf8;
use vstd::utf8::valid_utf8;
use vstd::utf8::encode_utf8_valid_utf8;
use vstd::utf8::encode_utf8_decode_utf8;
use vstd::slice::slice_subrange;

/// A failure while decoding one frame.
#[derive(Debug, Clone, Copy, PartialEq, Eq, Structural)]
pub enum FrameError {
    /// The input ended before the declared number of bytes was available.
    Truncated,
    /// The framed payload is not valid UTF-8.
    InvalidEncoding,
}

/// The frame of a text: a 4-byte length prefix followed by the text's UTF-8 bytes.
pub open spec fn frame_of(t: Seq<char>) -> Seq<u8> {
    spec_u32_to_le_bytes(encode_utf8(t).len() as u32) + encode_utf8(t)
}

/// What decoding the front of `input` yields: the framed text together with
/// the number of bytes the frame occupies, or the error.
pub open spec fn decode_of(input: Seq<u8>) -> Result<(Seq<char>, int), FrameError> {
    if input.len() < 4 {
        Err(FrameError::Truncated)
    } else {
        let n = spec_u32_from_le_bytes(input.take(4)) as int;
        if input.len() < 4 + n {
            Err(FrameError::Truncated)
        } else {
            let payload = input.subrange(4, 4 + n);
            if valid_utf8(payload) {
                Ok((decode_utf8(payload), 4 + n))
            } else {
                Err(FrameError::InvalidEncoding)
            }
        }
    }
}

/// Relies on String::from_utf8: it returns Ok exactly when the bytes are
/// valid UTF-8, and then the string's characters are the decoding of the bytes.
#[verifier::external_body]
pub(crate) fn string_from_utf8(bytes: Vec<u8>) -> (r: Option<String>)
    ensures
        r is Some <==> valid_utf8(bytes@),
        r matches Some(s) ==> s@ == decode_utf8(bytes@),
{
    String::from_utf8(bytes).ok()
}

/// Encode `text` as one frame: its byte length as the 4-byte prefix, then its
/// UTF-8 bytes.
pub fn encode(text: &str) -> (r: Vec<u8>)
    requires
        encode_utf8(text@).len() <= u32::MAX,
    ensures
        r@ == frame_of(text@),
{
    let bytes = text.as_bytes();
    let mut out = u32_to_le_bytes(bytes.len() as u32);
    let mut i: usize = 0;
    while i < bytes.len()
        invariant
            i <= bytes.len(),
            bytes@ == encode_utf8(text@),
            encode_utf8(text@).len() <= u32::MAX,
            out@ == spec_u32_to_le_bytes(encode_utf8(text@).len() as u32) + bytes@.take(i as int),
        decreases bytes.len() - i,
    {
        out.push(bytes[i]);
        i = i + 1;
        proof {
            assert(bytes@.take(i as int) == bytes@.take(i - 1).push(bytes@[i - 1]));
        }
    }
    proof {
        assert(bytes@.take(bytes@.len() as int) == bytes@);
        assert(out@ == frame_of(text@));
    }
    out
}

/// Decode one frame from the front of `input`, returning the text and the
/// number of bytes consumed. On an error nothing is consumed.
pub fn read(input: &[u8]) -> (r: Result<(String, usize), FrameError>)
    ensures
        r matches Ok(p) ==> decode_of(input@) matches Ok(q) && p.0@ == q.0 && p.1 as int == q.1,
        r matches Err(e) ==> decode_of(input@) matches Err(e2) && e == e2,
{
    if input.len() < 4 {
        return Err(FrameError::Truncated);
    }
    let prefix = slice_subrange(input, 0, 4);
    proof {
        assert(prefix@ == input@.take(4));
    }
    let n = u32_from_le_bytes(prefix) as usize;
    if input.len() - 4 < n {
        return Err(FrameError::Truncated);
    }
    let payload = slice_subrange(input, 4, 4 + n);
    let mut payload_vec: Vec<u8> = Vec::new();
    let mut i: usize = 0;
    while i < payload.len()
        invariant
            i <= payload.len(),
            payload_vec@ == payload@.take(i as int),
        decreases payload.len() - i,
    {
        payload_vec.push(payload[i]);
        i = i + 1;
        proof {
            assert(payload@.take(i as int) == payload@.take(i - 1).push(payload@[i - 1]));
        }
    }
    proof {
        assert(payload_vec@ == payload@);
    }
    match string_from_utf8(payload_vec) {
        Some(s) => Ok((s, 4 + n)),
        None => Err(FrameError::InvalidEncoding),
    }
}

/// UTF-8 encoding distributes over concatenation of texts.
pub proof fn lemma_encode_utf8_concat(a: Seq<char>, b: Seq<char>)
    ensures
        encode_utf8(a + b) == encode_utf8(a) + encode_utf8(b),
    decreases a.len(),
{
    if a.len() == 0 {
        assert(a + b =~= b);
        assert(encode_utf8(a) + encode_utf8(b) =~= encode_utf8(b));
    } else {
        assert((a + b).drop_first() =~= a.drop_first() + b);
        assert((a + b)[0] == a[0]);
        lemma_encode_utf8_concat(a.drop_first(), b);
        assert(vstd::utf8::encode_scalar(a[0] as u32) + (encode_utf8(a.drop_first())
            + encode_utf8(b)) =~= (vstd::utf8::encode_scalar(a[0] as u32) + encode_utf8(
            a.drop_first(),
        )) + encode_utf8(b));
    }
}

/// Round-trip law: the frame of any text, whatever bytes follow it on the
/// stream, decodes back to that text, consuming exactly the frame.
pub proof fn lemma_frame_round_trip(t: Seq<char>, rest: Seq<u8>)
    requires
        encode_utf8(t).len() <= u32::MAX,
    ensures
        decode_of(frame_of(t) + rest) == Ok::<(Seq<char>, int), FrameError>((
            t,
            4 + encode_utf8(t).len() as int,
        )),
{
    let body = encode_utf8(t);
    let input = frame_of(t) + rest;
    lemma_auto_spec_u32_to_from_le_bytes();
    assert(input.take(4) == spec_u32_to_le_bytes(body.len() as u32));
    assert(spec_u32_from_le_bytes(input.take(4)) == body.len());
    assert(input.subrange(4, 4 + body.len() as int) == body);
    encode_utf8_valid_utf8(t);
    encode_utf8_decode_utf8(t);
}

/// Truncation law: an input whose length prefix declares more bytes than the
/// input holds decodes to `Truncated`.
pub proof fn lemma_declared_length_truncated(input: Seq<u8>)
    requires
        input.len() >= 4,
        input.len() - 4 < spec_u32_from_le_bytes(input.take(4)),
    ensures
        decode_of(input) == Err::<(Seq<char>, int), FrameError>(FrameError::Truncated),
{
}

} // verus!
