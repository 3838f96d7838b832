//! The dispatcher and the per-connection step: a total mapping from each
//! decoded request to a response, and the decode–dispatch–encode step that a
//! transport loop drives with the bytes it reads.
//!
//! The transport itself — sockets, scheduling, the process-exit fault
//! boundary — lives outside this crate and only moves plain bytes in and
//! out.

use vstd::prelude::*;

use crate::codec::{frame_split, spec_frame, ABCICodec, Fatal};
use crate::message::{spec_parse_request, spec_serialize_response, ReqV, Request, RespV, Response};

verus! {

/// The business-logic collaborator: one method per delegated request kind,
/// each taking that kind's payload and returning the response payload. A
/// serving loop may share one application across connections; any
/// synchronization that needs is the collaborator's own affair.
pub trait Application {
    fn info(&mut self, payload: &[u8]) -> Vec<u8>;

    fn set_option(&mut self, payload: &[u8]) -> Vec<u8>;

    fn init_chain(&mut self, payload: &[u8]) -> Vec<u8>;

    fn query(&mut self, payload: &[u8]) -> Vec<u8>;

    fn check_tx(&mut self, payload: &[u8]) -> Vec<u8>;

    fn begin_block(&mut self, payload: &[u8]) -> Vec<u8>;

    fn deliver_tx(&mut self, payload: &[u8]) -> Vec<u8>;

    fn end_block(&mut self, payload: &[u8]) -> Vec<u8>;

    fn commit(&mut self, payload: &[u8]) -> Vec<u8>;
}

/// What the dispatcher owes for each request kind: an echo comes back with
/// the same message, a flush gets the canned empty value, an unrecognized
/// request gets the fixed exception text, and every delegated kind gets a
/// response of the matching kind wrapping whatever the application returned.
pub open spec fn variant_matches(req: ReqV, resp: RespV) -> bool {
    match req {
        ReqV::Echo { message } => resp == RespV::Echo { message },
        ReqV::Flush { .. } => resp == RespV::Flush { payload: Seq::<u8>::empty() },
        ReqV::Info { .. } => resp is Info,
        ReqV::SetOption { .. } => resp is SetOption,
        ReqV::InitChain { .. } => resp is InitChain,
        ReqV::Query { .. } => resp is Query,
        ReqV::CheckTx { .. } => resp is CheckTx,
        ReqV::BeginBlock { .. } => resp is BeginBlock,
        ReqV::DeliverTx { .. } => resp is DeliverTx,
        ReqV::EndBlock { .. } => resp is EndBlock,
        ReqV::Commit { .. } => resp is Commit,
        ReqV::Unrecognized => resp == RespV::Exception { error: "Unrecognized request"@ },
    }
}

/// The dispatcher: a total mapping from one request to one response. It
/// never fails; an application-level failure must live inside the delegated
/// payload, not interrupt dispatch. Echo, flush and the unrecognized case
/// are answered here, without touching the application.
pub fn respond<A: Application>(app: &mut A, request: &Request) -> (resp: Response)
    ensures
        variant_matches(request@, resp@),
        (request@ is Echo || request@ is Flush || request@ is Unrecognized) ==> *final(app)
            == *old(app),
{
    match request {
        Request::Echo { message } => Response::Echo { message: message.as_str().to_owned() },
        Request::Flush { .. } => Response::Flush { payload: Vec::new() },
        Request::Info { payload } => Response::Info { payload: app.info(payload.as_slice()) },
        Request::SetOption { payload } => Response::SetOption {
            payload: app.set_option(payload.as_slice()),
        },
        Request::InitChain { payload } => Response::InitChain {
            payload: app.init_chain(payload.as_slice()),
        },
        Request::Query { payload } => Response::Query { payload: app.query(payload.as_slice()) },
        Request::CheckTx { payload } => Response::CheckTx {
            payload: app.check_tx(payload.as_slice()),
        },
        Request::BeginBlock { payload } => Response::BeginBlock {
            payload: app.begin_block(payload.as_slice()),
        },
        Request::DeliverTx { payload } => Response::DeliverTx {
            payload: app.deliver_tx(payload.as_slice()),
        },
        Request::EndBlock { payload } => Response::EndBlock {
            payload: app.end_block(payload.as_slice()),
        },
        Request::Commit { payload } => Response::Commit {
            payload: app.commit(payload.as_slice()),
        },
        Request::Unrecognized => Response::Exception {
            error: "Unrecognized request".to_owned(),
        },
    }
}

/// Outcome of feeding one chunk to a connection: either the buffered bytes
/// do not yet hold a whole frame, or one request was decoded and dispatched
/// and its framed response is ready to write.
#[derive(Debug, PartialEq, Eq)]
pub enum Step {
    NeedMoreData,
    Reply(Vec<u8>),
}

/// One step of a connection: append the bytes just read, and if they
/// complete a frame, dispatch the request and frame the response. The caller
/// loops: it writes each reply, reads again on `NeedMoreData` (an empty
/// terminal read is the peer disconnecting), and treats every `Err` as fatal
/// to the whole process.
pub fn handle_chunk<A: Application>(codec: &mut ABCICodec, app: &mut A, chunk: &[u8]) -> (r:
    Result<Step, Fatal>)
    ensures
        ({
            let b = old(codec)@ + chunk@;
            match frame_split(b) {
                None => r == Ok::<Step, Fatal>(Step::NeedMoreData) && final(codec)@ == b,
                Some((payload, used)) => match spec_parse_request(payload) {
                    None => r == Err::<Step, Fatal>(Fatal::MalformedPayload) && final(codec)@
                        == b,
                    Some(req) => final(codec)@ == b.skip(used) && (r matches Ok(s) && s matches
                        Step::Reply(out) && exists|resp: RespV|
                        variant_matches(req, resp) && out@ == spec_frame(
                            #[trigger] spec_serialize_response(resp),
                        )),
                },
            }
        }),
{
    match codec.decode(chunk) {
        Err(e) => Err(e),
        Ok(None) => Ok(Step::NeedMoreData),
        Ok(Some(request)) => {
            let resp = respond(app, &request);
            let mut out: Vec<u8> = Vec::new();
            match codec.encode(&resp, &mut out) {
                Err(e) => Err(e),
                Ok(()) => {
                    assert(variant_matches(request@, resp@) && out@ == spec_frame(
                        spec_serialize_response(resp@),
                    ));
                    Ok(Step::Reply(out))
                },
            }
        },
    }
}

} // verus!
