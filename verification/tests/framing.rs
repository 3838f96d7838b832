use abci::codec::ABCICodec;
use abci::message::{Request, Response};
use integer_encoding::VarInt;

#[test]
fn nine_thousand_byte_payload_framed_exactly() {
    // one tag byte + a two-byte length varint + 8997 content bytes: the
    // serialized payload is exactly 9000 bytes
    let msg = Response::DeliverTx {
        payload: vec![0xAB; 8997],
    };
    let codec = ABCICodec::new();
    let mut frame: Vec<u8> = Vec::new();
    codec.encode(&msg, &mut frame).unwrap();

    // the prefix is byte-for-byte the reference signed varint of 9000
    let prefix = 9000i64.encode_var_vec();
    assert_eq!(&frame[..prefix.len()], prefix.as_slice());
    // followed by exactly 9000 payload bytes
    assert_eq!(frame.len(), prefix.len() + 9000);
    // the prefix decodes back to 9000
    let (len, used) = i64::decode_var(&frame).unwrap();
    assert_eq!((len, used), (9000, prefix.len()));
    // and the whole frame decodes back to the original message
    let mut decoder = ABCICodec::new();
    let got = decoder.decode(&frame).unwrap().unwrap();
    assert_eq!(
        got,
        Request::DeliverTx {
            payload: vec![0xAB; 8997]
        }
    );
}

#[test]
fn frame_prefix_agrees_with_the_reference_varint() {
    // across one-, two- and three-byte prefixes, the frame opens with the
    // signed varint of the payload's byte count and holds exactly that many
    // payload bytes after it
    for content in [0usize, 1, 60, 125, 126, 127, 128, 300, 8192, 20000] {
        let msg = Response::Flush {
            payload: vec![0x5C; content],
        };
        let codec = ABCICodec::new();
        let mut frame: Vec<u8> = Vec::new();
        codec.encode(&msg, &mut frame).unwrap();

        let (len, used) = i64::decode_var(&frame).unwrap();
        assert!(len > 0);
        assert_eq!(frame.len(), used + len as usize);
        assert_eq!(&frame[..used], (len as i64).encode_var_vec().as_slice());

        let mut decoder = ABCICodec::new();
        let got = decoder.decode(&frame).unwrap().unwrap();
        assert_eq!(
            got,
            Request::Flush {
                payload: vec![0x5C; content]
            }
        );
    }
}
