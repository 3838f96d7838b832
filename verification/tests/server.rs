use abci::codec::ABCICodec;
use abci::message::{Request, Response};
use abci::server::{handle_chunk, respond, Application, Step};

/// A test collaborator: marks every payload it sees and counts calls.
#[derive(Clone)]
struct TaggingApp {
    calls: usize,
}

impl TaggingApp {
    fn new() -> TaggingApp {
        TaggingApp { calls: 0 }
    }

    fn tag(&mut self, marker: u8, payload: &[u8]) -> Vec<u8> {
        self.calls += 1;
        let mut out = vec![marker];
        out.extend_from_slice(payload);
        out
    }
}

impl Application for TaggingApp {
    fn info(&mut self, payload: &[u8]) -> Vec<u8> {
        self.tag(1, payload)
    }
    fn set_option(&mut self, payload: &[u8]) -> Vec<u8> {
        self.tag(2, payload)
    }
    fn init_chain(&mut self, payload: &[u8]) -> Vec<u8> {
        self.tag(3, payload)
    }
    fn query(&mut self, payload: &[u8]) -> Vec<u8> {
        self.tag(4, payload)
    }
    fn check_tx(&mut self, payload: &[u8]) -> Vec<u8> {
        self.tag(5, payload)
    }
    fn begin_block(&mut self, payload: &[u8]) -> Vec<u8> {
        self.tag(6, payload)
    }
    fn deliver_tx(&mut self, payload: &[u8]) -> Vec<u8> {
        self.tag(7, payload)
    }
    fn end_block(&mut self, payload: &[u8]) -> Vec<u8> {
        self.tag(8, payload)
    }
    fn commit(&mut self, payload: &[u8]) -> Vec<u8> {
        self.tag(9, payload)
    }
}

#[test]
fn dispatch_unrecognized_yields_exception() {
    let mut app = TaggingApp::new();
    let resp = respond(&mut app, &Request::Unrecognized);
    assert_eq!(
        resp,
        Response::Exception {
            error: String::from("Unrecognized request")
        }
    );
    assert_eq!(app.calls, 0);
}

#[test]
fn dispatch_echo_answers_without_the_application() {
    let mut app = TaggingApp::new();
    let resp = respond(
        &mut app,
        &Request::Echo {
            message: String::from("Helloworld"),
        },
    );
    assert_eq!(
        resp,
        Response::Echo {
            message: String::from("Helloworld")
        }
    );
    assert_eq!(app.calls, 0);
}

#[test]
fn dispatch_flush_yields_empty_flush() {
    let mut app = TaggingApp::new();
    let resp = respond(&mut app, &Request::Flush { payload: vec![] });
    assert_eq!(resp, Response::Flush { payload: vec![] });
    assert_eq!(app.calls, 0);
}

#[test]
fn dispatch_delegates_each_kind_to_its_method() {
    let mut app = TaggingApp::new();
    let body = vec![0xAA, 0xBB];
    let cases: Vec<(Request, Response)> = vec![
        (
            Request::Info {
                payload: body.clone(),
            },
            Response::Info {
                payload: vec![1, 0xAA, 0xBB],
            },
        ),
        (
            Request::SetOption {
                payload: body.clone(),
            },
            Response::SetOption {
                payload: vec![2, 0xAA, 0xBB],
            },
        ),
        (
            Request::InitChain {
                payload: body.clone(),
            },
            Response::InitChain {
                payload: vec![3, 0xAA, 0xBB],
            },
        ),
        (
            Request::Query {
                payload: body.clone(),
            },
            Response::Query {
                payload: vec![4, 0xAA, 0xBB],
            },
        ),
        (
            Request::CheckTx {
                payload: body.clone(),
            },
            Response::CheckTx {
                payload: vec![5, 0xAA, 0xBB],
            },
        ),
        (
            Request::BeginBlock {
                payload: body.clone(),
            },
            Response::BeginBlock {
                payload: vec![6, 0xAA, 0xBB],
            },
        ),
        (
            Request::DeliverTx {
                payload: body.clone(),
            },
            Response::DeliverTx {
                payload: vec![7, 0xAA, 0xBB],
            },
        ),
        (
            Request::EndBlock {
                payload: body.clone(),
            },
            Response::EndBlock {
                payload: vec![8, 0xAA, 0xBB],
            },
        ),
        (
            Request::Commit {
                payload: body.clone(),
            },
            Response::Commit {
                payload: vec![9, 0xAA, 0xBB],
            },
        ),
    ];
    for (req, expected) in cases {
        let resp = respond(&mut app, &req);
        assert_eq!(resp, expected);
    }
    assert_eq!(app.calls, 9);
}

#[test]
fn handle_chunk_answers_an_echo_frame() {
    let codec = ABCICodec::new();
    let mut frame: Vec<u8> = Vec::new();
    codec
        .encode(
            &Response::Echo {
                message: String::from("Helloworld"),
            },
            &mut frame,
        )
        .unwrap();

    let mut conn = ABCICodec::new();
    let mut app = TaggingApp::new();
    let step = handle_chunk(&mut conn, &mut app, &frame).unwrap();

    let mut expected: Vec<u8> = Vec::new();
    codec
        .encode(
            &Response::Echo {
                message: String::from("Helloworld"),
            },
            &mut expected,
        )
        .unwrap();
    assert_eq!(step, Step::Reply(expected));
    assert_eq!(app.calls, 0);
}

#[test]
fn handle_chunk_waits_on_a_partial_frame() {
    let codec = ABCICodec::new();
    let mut frame: Vec<u8> = Vec::new();
    codec
        .encode(
            &Response::Echo {
                message: String::from("Helloworld"),
            },
            &mut frame,
        )
        .unwrap();

    let mut conn = ABCICodec::new();
    let mut app = TaggingApp::new();
    let step = handle_chunk(&mut conn, &mut app, &frame[..frame.len() - 1]).unwrap();
    assert_eq!(step, Step::NeedMoreData);
    let step = handle_chunk(&mut conn, &mut app, &frame[frame.len() - 1..]).unwrap();
    assert!(matches!(step, Step::Reply(_)));
}

#[test]
fn handle_chunk_answers_an_unknown_tag_with_the_exception() {
    // field number 13 with the length-delimited wire type, empty content:
    // structurally sound, but no request kind carries that tag
    let frame: Vec<u8> = vec![0x04, 0x6A, 0x00];
    let mut conn = ABCICodec::new();
    let mut app = TaggingApp::new();
    let step = handle_chunk(&mut conn, &mut app, &frame).unwrap();

    let codec = ABCICodec::new();
    let mut expected: Vec<u8> = Vec::new();
    codec
        .encode(
            &Response::Exception {
                error: String::from("Unrecognized request"),
            },
            &mut expected,
        )
        .unwrap();
    assert_eq!(step, Step::Reply(expected));
    assert_eq!(app.calls, 0);
}

#[test]
fn handle_chunk_reports_a_malformed_payload() {
    let mut conn = ABCICodec::new();
    let mut app = TaggingApp::new();
    let r = handle_chunk(&mut conn, &mut app, &[0x02, 0xFF]);
    assert!(r.is_err());
}
