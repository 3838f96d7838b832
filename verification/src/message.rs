//! The message layer: requests and responses as closed tagged unions, and
//! their byte-level form inside one frame's payload.
//!
//! A payload is one field of a tagged union: a key varint `field * 8 + 2`
//! (length-delimited wire type), a length varint, and that many content
//! bytes, which must end the payload exactly. The kinds this layer itself
//! reads (echo, exception) carry a single string field encoded the same way
//! under field number one, omitted entirely when the string is empty; every
//! other kind carries an opaque payload whose schema its handler defines.

use vstd::prelude::*;
use vstd::string::StringSliceAdditionalSpecFns;
use vstd::utf8::{decode_utf8, encode_scalar, encode_utf8, valid_utf8};

use crate::varint::{leb128, pow128, varint_parse};

verus! {

/// One request from the peer. Exactly one variant is active; a payload whose
/// tag this layer does not know is an explicit case, not an error.
#[derive(Debug, PartialEq, Eq)]
pub enum Request {
    Echo { message: String },
    Flush { payload: Vec<u8> },
    Info { payload: Vec<u8> },
    SetOption { payload: Vec<u8> },
    InitChain { payload: Vec<u8> },
    Query { payload: Vec<u8> },
    CheckTx { payload: Vec<u8> },
    BeginBlock { payload: Vec<u8> },
    DeliverTx { payload: Vec<u8> },
    EndBlock { payload: Vec<u8> },
    Commit { payload: Vec<u8> },
    Unrecognized,
}

/// One response to the peer: the request kinds mirrored, plus an exception
/// carrying a human-readable error string.
#[derive(Debug, PartialEq, Eq)]
pub enum Response {
    Exception { error: String },
    Echo { message: String },
    Flush { payload: Vec<u8> },
    Info { payload: Vec<u8> },
    SetOption { payload: Vec<u8> },
    InitChain { payload: Vec<u8> },
    Query { payload: Vec<u8> },
    CheckTx { payload: Vec<u8> },
    BeginBlock { payload: Vec<u8> },
    DeliverTx { payload: Vec<u8> },
    EndBlock { payload: Vec<u8> },
    Commit { payload: Vec<u8> },
}

/// Mathematical model of a request.
pub enum ReqV {
    Echo { message: Seq<char> },
    Flush { payload: Seq<u8> },
    Info { payload: Seq<u8> },
    SetOption { payload: Seq<u8> },
    InitChain { payload: Seq<u8> },
    Query { payload: Seq<u8> },
    CheckTx { payload: Seq<u8> },
    BeginBlock { payload: Seq<u8> },
    DeliverTx { payload: Seq<u8> },
    EndBlock { payload: Seq<u8> },
    Commit { payload: Seq<u8> },
    Unrecognized,
}

/// Mathematical model of a response.
pub enum RespV {
    Exception { error: Seq<char> },
    Echo { message: Seq<char> },
    Flush { payload: Seq<u8> },
    Info { payload: Seq<u8> },
    SetOption { payload: Seq<u8> },
    InitChain { payload: Seq<u8> },
    Query { payload: Seq<u8> },
    CheckTx { payload: Seq<u8> },
    BeginBlock { payload: Seq<u8> },
    DeliverTx { payload: Seq<u8> },
    EndBlock { payload: Seq<u8> },
    Commit { payload: Seq<u8> },
}

impl View for Request {
    type V = ReqV;

    open spec fn view(&self) -> ReqV {
        match self {
            Request::Echo { message } => ReqV::Echo { message: message@ },
            Request::Flush { payload } => ReqV::Flush { payload: payload@ },
            Request::Info { payload } => ReqV::Info { payload: payload@ },
            Request::SetOption { payload } => ReqV::SetOption { payload: payload@ },
            Request::InitChain { payload } => ReqV::InitChain { payload: payload@ },
            Request::Query { payload } => ReqV::Query { payload: payload@ },
            Request::CheckTx { payload } => ReqV::CheckTx { payload: payload@ },
            Request::BeginBlock { payload } => ReqV::BeginBlock { payload: payload@ },
            Request::DeliverTx { payload } => ReqV::DeliverTx { payload: payload@ },
            Request::EndBlock { payload } => ReqV::EndBlock { payload: payload@ },
            Request::Commit { payload } => ReqV::Commit { payload: payload@ },
            Request::Unrecognized => ReqV::Unrecognized,
        }
    }
}

impl View for Response {
    type V = RespV;

    open spec fn view(&self) -> RespV {
        match self {
            Response::Exception { error } => RespV::Exception { error: error@ },
            Response::Echo { message } => RespV::Echo { message: message@ },
            Response::Flush { payload } => RespV::Flush { payload: payload@ },
            Response::Info { payload } => RespV::Info { payload: payload@ },
            Response::SetOption { payload } => RespV::SetOption { payload: payload@ },
            Response::InitChain { payload } => RespV::InitChain { payload: payload@ },
            Response::Query { payload } => RespV::Query { payload: payload@ },
            Response::CheckTx { payload } => RespV::CheckTx { payload: payload@ },
            Response::BeginBlock { payload } => RespV::BeginBlock { payload: payload@ },
            Response::DeliverTx { payload } => RespV::DeliverTx { payload: payload@ },
            Response::EndBlock { payload } => RespV::EndBlock { payload: payload@ },
            Response::Commit { payload } => RespV::Commit { payload: payload@ },
        }
    }
}

/// Field number of each response kind in the tagged union.
pub open spec fn resp_field(r: RespV) -> nat {
    match r {
        RespV::Exception { .. } => 1,
        RespV::Echo { .. } => 2,
        RespV::Flush { .. } => 3,
        RespV::Info { .. } => 4,
        RespV::SetOption { .. } => 5,
        RespV::InitChain { .. } => 6,
        RespV::Query { .. } => 7,
        RespV::CheckTx { .. } => 8,
        RespV::BeginBlock { .. } => 9,
        RespV::DeliverTx { .. } => 10,
        RespV::EndBlock { .. } => 11,
        RespV::Commit { .. } => 12,
    }
}

/// The single string field of the kinds this layer reads itself: field
/// number one, length-delimited; an empty string is simply omitted.
pub open spec fn spec_string_payload(chars: Seq<char>) -> Seq<u8> {
    if chars.len() == 0 {
        seq![]
    } else {
        seq![10u8] + leb128(encode_utf8(chars).len()) + encode_utf8(chars)
    }
}

/// Content bytes of each response kind.
pub open spec fn resp_inner(r: RespV) -> Seq<u8> {
    match r {
        RespV::Exception { error } => spec_string_payload(error),
        RespV::Echo { message } => spec_string_payload(message),
        RespV::Flush { payload } => payload,
        RespV::Info { payload } => payload,
        RespV::SetOption { payload } => payload,
        RespV::InitChain { payload } => payload,
        RespV::Query { payload } => payload,
        RespV::CheckTx { payload } => payload,
        RespV::BeginBlock { payload } => payload,
        RespV::DeliverTx { payload } => payload,
        RespV::EndBlock { payload } => payload,
        RespV::Commit { payload } => payload,
    }
}

/// One tagged-union field: key varint, length varint, content bytes.
pub open spec fn spec_body(field: nat, inner: Seq<u8>) -> Seq<u8> {
    leb128(field * 8 + 2) + leb128(inner.len()) + inner
}

/// The serialized form of a response: the payload of one outgoing frame.
pub open spec fn spec_serialize_response(r: RespV) -> Seq<u8> {
    spec_body(resp_field(r), resp_inner(r))
}

/// Parses the string field of an echo payload. `None` is a schema violation.
pub open spec fn spec_parse_string_payload(inner: Seq<u8>) -> Option<Seq<char>> {
    if inner.len() == 0 {
        Some(Seq::empty())
    } else if inner[0] != 10u8 {
        None
    } else {
        match varint_parse(inner.skip(1)) {
            None => None,
            Some((len, m)) => if 1 + m + len != inner.len() {
                None
            } else if valid_utf8(inner.skip(1 + m as int)) {
                Some(decode_utf8(inner.skip(1 + m as int)))
            } else {
                None
            },
        }
    }
}

/// Parses one frame's payload as a request. A structurally sound field with
/// an unknown number is the explicit unrecognized case; anything else that
/// does not fit the grammar is `None`, a fatal schema violation.
pub open spec fn spec_parse_request(p: Seq<u8>) -> Option<ReqV> {
    match varint_parse(p) {
        None => None,
        Some((key, n)) => if key % 8 != 2 {
            None
        } else {
            match varint_parse(p.skip(n as int)) {
                None => None,
                Some((len, m)) => if n + m + len != p.len() {
                    None
                } else {
                    let inner = p.skip(n as int + m as int);
                    let field = key / 8;
                    if field == 2 {
                        match spec_parse_string_payload(inner) {
                            None => None,
                            Some(message) => Some(ReqV::Echo { message }),
                        }
                    } else if field == 3 {
                        Some(ReqV::Flush { payload: inner })
                    } else if field == 4 {
                        Some(ReqV::Info { payload: inner })
                    } else if field == 5 {
                        Some(ReqV::SetOption { payload: inner })
                    } else if field == 6 {
                        Some(ReqV::InitChain { payload: inner })
                    } else if field == 7 {
                        Some(ReqV::Query { payload: inner })
                    } else if field == 8 {
                        Some(ReqV::CheckTx { payload: inner })
                    } else if field == 9 {
                        Some(ReqV::BeginBlock { payload: inner })
                    } else if field == 10 {
                        Some(ReqV::DeliverTx { payload: inner })
                    } else if field == 11 {
                        Some(ReqV::EndBlock { payload: inner })
                    } else if field == 12 {
                        Some(ReqV::Commit { payload: inner })
                    } else {
                        Some(ReqV::Unrecognized)
                    }
                },
            }
        },
    }
}

/// The request that reading back a serialized response yields: the same kind
/// with the same content, except an exception, whose tag requests do not
/// have, which lands on the explicit unrecognized case.
pub open spec fn request_counterpart(r: RespV) -> ReqV {
    match r {
        RespV::Exception { .. } => ReqV::Unrecognized,
        RespV::Echo { message } => ReqV::Echo { message },
        RespV::Flush { payload } => ReqV::Flush { payload },
        RespV::Info { payload } => ReqV::Info { payload },
        RespV::SetOption { payload } => ReqV::SetOption { payload },
        RespV::InitChain { payload } => ReqV::InitChain { payload },
        RespV::Query { payload } => ReqV::Query { payload },
        RespV::CheckTx { payload } => ReqV::CheckTx { payload },
        RespV::BeginBlock { payload } => ReqV::BeginBlock { payload },
        RespV::DeliverTx { payload } => ReqV::DeliverTx { payload },
        RespV::EndBlock { payload } => ReqV::EndBlock { payload },
        RespV::Commit { payload } => ReqV::Commit { payload },
    }
}

/// A response a machine can hold: its content bytes are not astronomically
/// many, so their count fits a length varint. Every executable `Response`
/// satisfies this; only unbounded ghost values could violate it.
pub open spec fn resp_fits(r: RespV) -> bool {
    resp_inner(r).len() < pow128(10)
}

/// A string encodes to no bytes exactly when it has no characters.
pub proof fn lemma_encode_utf8_empty(chars: Seq<char>)
    ensures
        encode_utf8(chars).len() == 0 <==> chars.len() == 0,
{
    if chars.len() > 0 {
        assert(encode_utf8(chars) == encode_scalar(chars[0] as u32) + encode_utf8(
            chars.drop_first(),
        ));
        assert(encode_scalar(chars[0] as u32).len() >= 1);
    }
}

/// Reading the string field back yields exactly the encoded string.
pub proof fn lemma_string_payload_roundtrip(chars: Seq<char>)
    requires
        encode_utf8(chars).len() < pow128(10),
    ensures
        spec_parse_string_payload(spec_string_payload(chars)) == Some(chars),
{
    lemma_encode_utf8_empty(chars);
    if chars.len() == 0 {
        assert(chars =~= Seq::<char>::empty());
    } else {
        let utf8 = encode_utf8(chars);
        let inner = spec_string_payload(chars);
        crate::varint::lemma_varint_roundtrip(utf8.len(), utf8, 10);
        assert(inner[0] == 10u8);
        assert(inner.skip(1) =~= leb128(utf8.len()) + utf8);
        let m = leb128(utf8.len()).len();
        assert(inner.skip(1 + m as int) =~= utf8);
        vstd::utf8::encode_utf8_valid_utf8(chars);
        vstd::utf8::encode_utf8_decode_utf8(chars);
    }
}

/// Round trip of the message layer: a response that a machine can hold,
/// read back under the request schema, is the counterpart request with
/// identical content.
pub proof fn lemma_response_roundtrip(r: RespV)
    requires
        resp_fits(r),
    ensures
        spec_parse_request(spec_serialize_response(r)) == Some(request_counterpart(r)),
{
    let field = resp_field(r);
    let inner = resp_inner(r);
    let key = field * 8 + 2;
    let p = spec_serialize_response(r);
    crate::varint::lemma_pow128_10();
    crate::varint::lemma_varint_roundtrip(key, leb128(inner.len()) + inner, 10);
    assert(p =~= leb128(key) + (leb128(inner.len()) + inner));
    let n = leb128(key).len();
    assert(key % 8 == 2 && key / 8 == field);
    crate::varint::lemma_varint_roundtrip(inner.len(), inner, 10);
    assert(p.skip(n as int) =~= leb128(inner.len()) + inner);
    let m = leb128(inner.len()).len();
    assert(p.skip(n as int + m as int) =~= inner);
    match r {
        RespV::Exception { error } => {},
        RespV::Echo { message } => {
            lemma_string_payload_roundtrip(message);
        },
        _ => {},
    }
}

/// Relies on std's `str::from_utf8`: it succeeds exactly on valid UTF-8, and
/// the returned string slice is the input bytes themselves, read as text.
#[verifier::external_body]
fn bytes_to_str(v: &[u8]) -> (r: Option<&str>)
    ensures
        r is Some <==> valid_utf8(v@),
        r matches Some(s) ==> s.spec_bytes() == v@,
{
    core::str::from_utf8(v).ok()
}

/// Appends the encoding of the single string field to `out`.
fn push_string_payload(out: &mut Vec<u8>, s: &String)
    ensures
        final(out)@ == old(out)@ + spec_string_payload(s@),
{
    let bytes: &[u8] = s.as_str().as_bytes();
    assert(bytes@ == encode_utf8(s@));
    proof {
        lemma_encode_utf8_empty(s@);
    }
    if bytes.len() == 0 {
        assert(old(out)@ + spec_string_payload(s@) =~= out@);
    } else {
        out.push(10u8);
        crate::varint::push_leb128(out, bytes.len() as u128);
        let mut tail = vstd::slice::slice_to_vec(bytes);
        out.append(&mut tail);
        assert(out@ =~= old(out)@ + spec_string_payload(s@));
    }
}

/// Serializes a response into the payload of one frame.
pub fn serialize_response(msg: &Response) -> (out: Vec<u8>)
    ensures
        out@ == spec_serialize_response(msg@),
{
    let mut inner: Vec<u8> = Vec::new();
    let field: u128 = match msg {
        Response::Exception { error } => {
            push_string_payload(&mut inner, error);
            1
        },
        Response::Echo { message } => {
            push_string_payload(&mut inner, message);
            2
        },
        Response::Flush { payload } => {
            inner = vstd::slice::slice_to_vec(payload.as_slice());
            3
        },
        Response::Info { payload } => {
            inner = vstd::slice::slice_to_vec(payload.as_slice());
            4
        },
        Response::SetOption { payload } => {
            inner = vstd::slice::slice_to_vec(payload.as_slice());
            5
        },
        Response::InitChain { payload } => {
            inner = vstd::slice::slice_to_vec(payload.as_slice());
            6
        },
        Response::Query { payload } => {
            inner = vstd::slice::slice_to_vec(payload.as_slice());
            7
        },
        Response::CheckTx { payload } => {
            inner = vstd::slice::slice_to_vec(payload.as_slice());
            8
        },
        Response::BeginBlock { payload } => {
            inner = vstd::slice::slice_to_vec(payload.as_slice());
            9
        },
        Response::DeliverTx { payload } => {
            inner = vstd::slice::slice_to_vec(payload.as_slice());
            10
        },
        Response::EndBlock { payload } => {
            inner = vstd::slice::slice_to_vec(payload.as_slice());
            11
        },
        Response::Commit { payload } => {
            inner = vstd::slice::slice_to_vec(payload.as_slice());
            12
        },
    };
    assert(field == resp_field(msg@) && inner@ == resp_inner(msg@));
    let mut out: Vec<u8> = Vec::new();
    crate::varint::push_leb128(&mut out, field * 8 + 2);
    crate::varint::push_leb128(&mut out, inner.len() as u128);
    out.append(&mut inner);
    assert(out@ =~= spec_serialize_response(msg@));
    out
}

/// Parses the string field of an echo payload; `None` is a schema violation.
fn parse_string_payload(inner: &[u8]) -> (r: Option<String>)
    ensures
        r is Some <==> spec_parse_string_payload(inner@) is Some,
        r matches Some(s) ==> spec_parse_string_payload(inner@) == Some(s@),
{
    if inner.len() == 0 {
        return Some(String::new());
    }
    if inner[0] != 10u8 {
        return None;
    }
    let (len, m) = match crate::varint::read_varint_at(inner, 1, 10) {
        None => {
            return None;
        },
        Some(x) => x,
    };
    proof {
        crate::varint::lemma_varint_parse_bound(inner@.skip(1), 10);
        crate::varint::lemma_pow128_10();
    }
    if 1 + (m as u128) + len != inner.len() as u128 {
        return None;
    }
    let start: usize = 1 + m;
    let content = vstd::slice::slice_subrange(inner, start, inner.len());
    assert(content@ =~= inner@.skip(1 + m as int));
    match bytes_to_str(content) {
        None => None,
        Some(s) => {
            proof {
                vstd::utf8::encode_utf8_decode_utf8(s@);
            }
            Some(s.to_owned())
        },
    }
}

/// Parses one frame's payload as a request; `None` is a fatal schema
/// violation, while an unknown field number yields the unrecognized case.
pub fn parse_request(p: &[u8]) -> (r: Option<Request>)
    ensures
        r is Some <==> spec_parse_request(p@) is Some,
        r matches Some(req) ==> spec_parse_request(p@) == Some(req@),
{
    assert(p@.skip(0) =~= p@);
    let (key, n) = match crate::varint::read_varint_at(p, 0, 10) {
        None => {
            return None;
        },
        Some(x) => x,
    };
    if key % 8 != 2 {
        return None;
    }
    proof {
        crate::varint::lemma_varint_parse_bound(p@, 10);
    }
    let (len, m) = match crate::varint::read_varint_at(p, n, 10) {
        None => {
            return None;
        },
        Some(x) => x,
    };
    proof {
        crate::varint::lemma_varint_parse_bound(p@.skip(n as int), 10);
        crate::varint::lemma_pow128_10();
    }
    if (n as u128) + (m as u128) + len != p.len() as u128 {
        return None;
    }
    let start: usize = n + m;
    let inner = vstd::slice::slice_subrange(p, start, p.len());
    assert(inner@ =~= p@.skip(n as int + m as int));
    let field = key / 8;
    if field == 2 {
        match parse_string_payload(inner) {
            None => None,
            Some(message) => Some(Request::Echo { message }),
        }
    } else if field == 3 {
        Some(Request::Flush { payload: vstd::slice::slice_to_vec(inner) })
    } else if field == 4 {
        Some(Request::Info { payload: vstd::slice::slice_to_vec(inner) })
    } else if field == 5 {
        Some(Request::SetOption { payload: vstd::slice::slice_to_vec(inner) })
    } else if field == 6 {
        Some(Request::InitChain { payload: vstd::slice::slice_to_vec(inner) })
    } else if field == 7 {
        Some(Request::Query { payload: vstd::slice::slice_to_vec(inner) })
    } else if field == 8 {
        Some(Request::CheckTx { payload: vstd::slice::slice_to_vec(inner) })
    } else if field == 9 {
        Some(Request::BeginBlock { payload: vstd::slice::slice_to_vec(inner) })
    } else if field == 10 {
        Some(Request::DeliverTx { payload: vstd::slice::slice_to_vec(inner) })
    } else if field == 11 {
        Some(Request::EndBlock { payload: vstd::slice::slice_to_vec(inner) })
    } else if field == 12 {
        Some(Request::Commit { payload: vstd::slice::slice_to_vec(inner) })
    } else {
        Some(Request::Unrecognized)
    }
}

} // verus!
