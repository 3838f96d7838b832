//! The wire codec: one stateful decoder/encoder per connection that turns an
//! arbitrarily fragmented byte stream into discrete messages and back.
//!
//! A frame is `[length prefix][payload]`: the prefix is the varint of the
//! zigzag image of the payload's byte count (`2 * count` for the
//! non-negative counts that occur). Decoding consumes either one whole frame
//! or nothing at all, which is what makes it safe to call again with more
//! bytes after any cut.

use vstd::prelude::*;

use crate::message::{
    parse_request, serialize_response, spec_parse_request, spec_serialize_response, Request,
    Response,
};
use crate::varint::{
    leb128, lemma_leb128_prefix_incomplete, lemma_pow128_10, lemma_varint_parse_bound,
    lemma_varint_roundtrip, pow128, unzigzag, varint_parse,
};

verus! {

/// The fatal conditions of the connection layer. Incomplete input is not
/// among them: it is the codec's normal state between frames.
#[derive(Debug, Clone, Copy, PartialEq, Eq)]
pub enum Fatal {
    /// A complete frame's payload violated the message schema.
    MalformedPayload,
    /// The peer closed the one control connection.
    PeerDisconnected,
    /// A response could not be written out whole.
    EncodeFailure,
}

/// The bytes of one frame around `payload`. `2 * len` is the zigzag image of
/// the non-negative length `len`.
pub open spec fn spec_frame(payload: Seq<u8>) -> Seq<u8> {
    leb128(2 * payload.len()) + payload
}

/// Splits the first complete frame off the front of `b`: the payload and how
/// many bytes the whole frame occupies. `None` means `b` does not yet hold a
/// complete frame — the prefix is unreadable or non-positive, or payload
/// bytes are still missing.
pub open spec fn frame_split(b: Seq<u8>) -> Option<(Seq<u8>, int)> {
    match varint_parse(b) {
        None => None,
        Some((v, n)) => {
            let len = unzigzag(v);
            if len <= 0 || n + len > b.len() {
                None
            } else {
                Some((b.subrange(n as int, n + len), n + len))
            }
        },
    }
}

/// The stateful codec of one connection: it owns that connection's
/// accumulation buffer, whose content is the codec's view.
#[derive(Debug)]
pub struct ABCICodec {
    receive_buf: Vec<u8>,
}

impl View for ABCICodec {
    type V = Seq<u8>;

    closed spec fn view(&self) -> Seq<u8> {
        self.receive_buf@
    }
}

impl ABCICodec {
    /// A fresh codec with an empty accumulation buffer.
    pub fn new() -> (c: ABCICodec)
        ensures
            c@ == Seq::<u8>::empty(),
    {
        ABCICodec { receive_buf: Vec::new() }
    }

    /// Appends `chunk` to the accumulation buffer and attempts to take one
    /// frame off its front. Without a complete frame the call returns
    /// `Ok(None)` — more data is needed — and consumes nothing, so the next
    /// call sees every byte again. With a complete frame whose payload fits
    /// the schema it consumes exactly that frame and returns the message; a
    /// payload that violates the schema is fatal and consumes nothing.
    pub fn decode(&mut self, chunk: &[u8]) -> (r: Result<Option<Request>, Fatal>)
        ensures
            ({
                let b = old(self)@ + chunk@;
                match frame_split(b) {
                    None => r == Ok::<Option<Request>, Fatal>(None) && final(self)@ == b,
                    Some((payload, used)) => match spec_parse_request(payload) {
                        Some(req) => final(self)@ == b.skip(used) && (r matches Ok(o) && o
                            matches Some(q) && q@ == req),
                        None => r == Err::<Option<Request>, Fatal>(Fatal::MalformedPayload)
                            && final(self)@ == b,
                    },
                }
            }),
    {
        let ghost b = old(self)@ + chunk@;
        let mut tail = vstd::slice::slice_to_vec(chunk);
        self.receive_buf.append(&mut tail);
        assert(self.receive_buf@.skip(0) =~= self.receive_buf@);
        let (v, n) = match crate::varint::read_varint_at(self.receive_buf.as_slice(), 0, 10) {
            None => {
                return Ok(None);
            },
            Some(x) => x,
        };
        proof {
            lemma_varint_parse_bound(b, 10);
            lemma_pow128_10();
        }
        if v % 2 != 0 || v == 0 {
            return Ok(None);
        }
        let len128: u128 = v / 2;
        if (n as u128) + len128 > self.receive_buf.len() as u128 {
            return Ok(None);
        }
        let len: usize = len128 as usize;
        let used: usize = n + len;
        let payload_slice = vstd::slice::slice_subrange(self.receive_buf.as_slice(), n, used);
        assert(payload_slice@ =~= b.subrange(n as int, n as int + len as int));
        match parse_request(payload_slice) {
            None => Err(Fatal::MalformedPayload),
            Some(req) => {
                let rest = self.receive_buf.split_off(used);
                self.receive_buf = rest;
                assert(self.receive_buf@ =~= b.skip(n as int + len as int));
                Ok(Some(req))
            },
        }
    }

    /// Appends one frame holding `msg`'s serialized payload to `buf`: the
    /// length prefix, then the payload, nothing else. Serializing the
    /// library's own messages cannot fail, so the result is always `Ok`; the
    /// `Result` is the shape every frame writer shares.
    pub fn encode(&self, msg: &Response, buf: &mut Vec<u8>) -> (r: Result<(), Fatal>)
        ensures
            r is Ok,
            final(buf)@ == old(buf)@ + spec_frame(spec_serialize_response(msg@)),
    {
        let mut payload = serialize_response(msg);
        crate::varint::push_leb128(buf, 2 * (payload.len() as u128));
        buf.append(&mut payload);
        assert(buf@ =~= old(buf)@ + spec_frame(spec_serialize_response(msg@)));
        Ok(())
    }
}

/// A frame, with anything at all after it, splits back into exactly its
/// payload, consuming exactly the frame.
pub proof fn lemma_frame_split_roundtrip(payload: Seq<u8>, rest: Seq<u8>)
    requires
        0 < payload.len(),
        2 * payload.len() < pow128(10),
    ensures
        frame_split(spec_frame(payload) + rest) == Some(
            (payload, spec_frame(payload).len() as int),
        ),
{
    lemma_varint_roundtrip(2 * payload.len(), payload + rest, 10);
    assert(spec_frame(payload) + rest =~= leb128(2 * payload.len()) + (payload + rest));
    let n = leb128(2 * payload.len()).len();
    assert((spec_frame(payload) + rest).subrange(n as int, n + payload.len() as int)
        =~= payload);
}

/// No strict prefix of a frame holds a complete frame: cut anywhere, the
/// decoder still waits for more data.
pub proof fn lemma_frame_prefix_incomplete(payload: Seq<u8>, k: int)
    requires
        0 < payload.len(),
        2 * payload.len() < pow128(10),
        0 <= k < spec_frame(payload).len(),
    ensures
        frame_split(spec_frame(payload).take(k)) is None,
{
    let prefix = leb128(2 * payload.len());
    let n = prefix.len() as int;
    if k < n {
        assert(spec_frame(payload).take(k) =~= prefix.take(k));
        lemma_leb128_prefix_incomplete(2 * payload.len(), k, 10);
    } else {
        lemma_varint_roundtrip(2 * payload.len(), payload.take(k - n), 10);
        assert(spec_frame(payload).take(k) =~= prefix + payload.take(k - n));
    }
}

/// Round trip of the whole codec: a response that a machine can hold,
/// framed and fed back, splits into exactly its own payload, and that
/// payload reads back as the counterpart request with identical content.
pub proof fn lemma_codec_roundtrip(r: crate::message::RespV)
    requires
        2 * spec_serialize_response(r).len() < pow128(10),
    ensures
        ({
            let p = spec_serialize_response(r);
            frame_split(spec_frame(p)) == Some((p, spec_frame(p).len() as int))
                && spec_parse_request(p) == Some(crate::message::request_counterpart(r))
        }),
{
    let p = spec_serialize_response(r);
    crate::varint::lemma_leb128_shape(crate::message::resp_field(r) * 8 + 2);
    lemma_frame_split_roundtrip(p, Seq::<u8>::empty());
    assert(spec_frame(p) + Seq::<u8>::empty() =~= spec_frame(p));
    crate::message::lemma_response_roundtrip(r);
}

/// Fragmentation invariance: a valid frame cut at any point first yields no
/// message and no consumption, and the two pieces in sequence decode to
/// exactly what the frame fed whole decodes to — the payload, with the
/// buffer drained.
pub proof fn lemma_fragmentation_invariance(payload: Seq<u8>, k: int)
    requires
        0 < payload.len(),
        2 * payload.len() < pow128(10),
        0 <= k < spec_frame(payload).len(),
    ensures
        frame_split(spec_frame(payload).take(k)) is None,
        frame_split(spec_frame(payload).take(k) + spec_frame(payload).skip(k)) == frame_split(
            spec_frame(payload),
        ),
        frame_split(spec_frame(payload)) == Some((payload, spec_frame(payload).len() as int)),
{
    lemma_frame_prefix_incomplete(payload, k);
    assert(spec_frame(payload).take(k) + spec_frame(payload).skip(k) =~= spec_frame(payload));
    lemma_frame_split_roundtrip(payload, Seq::<u8>::empty());
    assert(spec_frame(payload) + Seq::<u8>::empty() =~= spec_frame(payload));
}

} // verus!
