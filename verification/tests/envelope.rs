use layer::client::connection::{completes, handle_frame, FrameError, Waiting};
use layer::client::envelope::{
    tl_read_bytes, tl_read_string, unwrap_at, unwrap_envelope, Envelope, EnvelopeError, Reply,
};
use layer::client::errors::{InvocationError, RpcError};
use layer::client::inflate::gz_inflate;
use layer::mtproto::encrypted::DecryptError;
use layer::mtproto::EncryptedSession;

const SERVER_FRAME: &str = "9ed6e6ef196cc931b4ce719828ada7c91309786d4f8f2d6f036227b312aaa39532f607fbc64c14f13d489cb319f0eb661544250eab966f21f18653b4955b586910aee418ac8f779dcff97a2952b15210040e3e1e6250b6bdf0c2878f8add8785f8e76235e01d6a24";
const SERVER_BODY: &[u8] = &[1, 109, 92, 243, 115, 101, 114, 118, 101, 114, 32, 98, 111, 100, 121, 46, 46, 46, 46];
const SERVER_SALT: i64 = 1234605616436508552;
const SERVER_SESSION: i64 = -72623859790382856;
const SERVER_MSG_ID: i64 = 6872032731132329985;
const SERVER_SEQ: i32 = 7;
const RESULT_GZIP_ERROR: &str = "016d5cf34444333322221111a1cf72302c1f8b08000000000002ff933ce5a2b884918181d7cdc7dfdf253edcd13324ded8808101004314b1af18000000000000";
const ZLIB_PACKED: &str = "a1cf723010789cdb5a5a34b3243133070012bd03e0000000";
const ZLIB_INNER: &[u8] = &[181, 117, 114, 153, 116, 97, 105, 108];

fn hex(s: &str) -> Vec<u8> {
    (0..s.len() / 2).map(|i| u8::from_str_radix(&s[2 * i..2 * i + 2], 16).unwrap()).collect()
}

fn test_key() -> [u8; 256] {
    core::array::from_fn(|i| ((i * 7 + 3) % 256) as u8)
}

fn le32(v: u32) -> Vec<u8> {
    v.to_le_bytes().to_vec()
}

fn rpc_result(req: i64, inner: &[u8]) -> Vec<u8> {
    let mut b = le32(0xf35c6d01);
    b.extend(req.to_le_bytes());
    b.extend_from_slice(inner);
    b
}

fn container(items: &[Vec<u8>]) -> Vec<u8> {
    let mut b = le32(0x73f1f8dc);
    b.extend(le32(items.len() as u32));
    for (i, item) in items.iter().enumerate() {
        b.extend((1000 + i as i64).to_le_bytes());
        b.extend((2 * i as i32).to_le_bytes());
        b.extend(le32(item.len() as u32));
        b.extend_from_slice(item);
    }
    b
}

fn update(tag: u8) -> Vec<u8> {
    let mut b = le32(0x78d4dec1);
    b.extend([tag, tag, tag, tag]);
    b
}

#[test]
fn result_with_packed_flood_wait() {
    let body = hex(RESULT_GZIP_ERROR);
    let err = unwrap_envelope(&body).unwrap_err();
    assert_eq!(
        err,
        EnvelopeError::Rpc(RpcError { code: 420, name: "FLOOD_WAIT".to_owned(), value: Some(30) })
    );
    match err.into_invocation() {
        InvocationError::Rpc(e) => {
            assert_eq!((e.code, e.name.as_str(), e.value), (420, "FLOOD_WAIT", Some(30)));
            assert_eq!(e.flood_wait_seconds(), Some(30));
        }
        other => panic!("expected an RPC error, got {other:?}"),
    }
}

#[test]
fn container_with_one_result_and_three_updates() {
    let answer = le32(0x997275b5);
    let body = container(&[
        update(1),
        rpc_result(77, &answer),
        update(2),
        update(3),
    ]);
    let env = unwrap_envelope(&body).unwrap();
    assert_eq!(env.reply, Some(Reply { req_msg_id: Some(77), body: answer }));
    assert_eq!(env.updates, vec![update(1), update(2), update(3)]);
}

#[test]
fn plain_answer_is_the_reply() {
    let body = le32(0x12345678);
    let env = unwrap_envelope(&body).unwrap();
    assert_eq!(env, Envelope { reply: Some(Reply { req_msg_id: None, body }), updates: vec![] });
}

#[test]
fn housekeeping_holds_nothing() {
    for id in [0x347773c5u32, 0x62d6b459, 0xedab447b, 0x9ec20908, 0xa7eff811] {
        let mut body = le32(id);
        body.extend([0u8; 16]);
        assert_eq!(unwrap_envelope(&body), Ok(Envelope { reply: None, updates: vec![] }));
    }
}

#[test]
fn update_family_goes_to_the_update_engine() {
    for id in [0x74ae4240u32, 0x78d4dec1, 0x725b04c3, 0x313bc7f8, 0x4d6deea5, 0xe317af7e] {
        let mut body = le32(id);
        body.extend([1u8, 2, 3]);
        let env = unwrap_envelope(&body).unwrap();
        assert_eq!(env, Envelope { reply: None, updates: vec![body.clone()] });
    }
}

#[test]
fn envelope_errors() {
    assert_eq!(unwrap_envelope(&[1, 2, 3]), Err(EnvelopeError::TooShort));
    assert_eq!(unwrap_envelope(&le32(0xf35c6d01)), Err(EnvelopeError::TooShort));
    assert_eq!(unwrap_envelope(&le32(0x2144ca19)), Err(EnvelopeError::TooShort));
    assert_eq!(unwrap_envelope(&le32(0x73f1f8dc)), Err(EnvelopeError::TooShort));
    let mut packed = le32(0x3072cfa1);
    packed.extend([3, 1, 2, 3]);
    assert_eq!(unwrap_envelope(&packed), Err(EnvelopeError::Decompress));
    // an error inside a container is the error of the whole message
    let mut err = le32(0x2144ca19);
    err.extend(400i32.to_le_bytes());
    err.extend([11u8]);
    err.extend(b"BAD_REQUEST");
    let body = container(&[update(1), err]);
    assert_eq!(
        unwrap_envelope(&body),
        Err(EnvelopeError::Rpc(RpcError { code: 400, name: "BAD_REQUEST".to_owned(), value: None }))
    );
}

#[test]
fn nesting_is_bounded() {
    let mut body = le32(0x997275b5);
    for _ in 0..32 {
        body = rpc_result(1, &body);
    }
    assert!(unwrap_envelope(&body).is_ok());
    body = rpc_result(1, &body);
    assert_eq!(unwrap_envelope(&body), Err(EnvelopeError::TooDeep));
    assert_eq!(unwrap_at(&rpc_result(1, &le32(5)), 0), Err(EnvelopeError::TooDeep));
}

#[test]
fn nested_result_keeps_the_inner_request() {
    let body = rpc_result(1, &rpc_result(2, &le32(9)));
    let env = unwrap_envelope(&body).unwrap();
    assert_eq!(env.reply.unwrap().req_msg_id, Some(2));
}

#[test]
fn container_that_ends_early() {
    let mut body = container(&[update(1), update(2)]);
    body.truncate(body.len() - 1);
    let env = unwrap_envelope(&body).unwrap();
    assert_eq!(env.updates, vec![update(1)]);
    // the count may promise more than there is
    let mut body = container(&[update(1)]);
    body[4] = 9;
    assert_eq!(unwrap_envelope(&body).unwrap().updates, vec![update(1)]);
}

#[test]
fn zlib_payload_is_unpacked_too() {
    let env = unwrap_envelope(&hex(ZLIB_PACKED)).unwrap();
    assert_eq!(env.reply.unwrap().body, ZLIB_INNER);
}

#[test]
fn inflate_tries_gzip_then_zlib() {
    assert_eq!(gz_inflate(&[1, 2, 3]), None);
    let packed = hex(ZLIB_PACKED);
    let zl = tl_read_bytes(&packed[4..]).unwrap();
    assert_eq!(gz_inflate(&zl).unwrap(), ZLIB_INNER);
}

#[test]
fn reading_byte_strings_without_padding() {
    assert_eq!(tl_read_bytes(&[]), Some(vec![]));
    assert_eq!(tl_read_bytes(&[2, 7, 8]), Some(vec![7, 8]));
    assert_eq!(tl_read_bytes(&[2, 7]), None);
    assert_eq!(tl_read_bytes(&[0xfe, 1, 0]), None);
    assert_eq!(tl_read_bytes(&[0xfe, 1, 0, 0, 9]), Some(vec![9]));
    assert_eq!(tl_read_bytes(&[0xfe, 2, 0, 0, 9]), None);
    assert_eq!(tl_read_string(&[2, b'h', b'i']), Some("hi".to_owned()));
    assert_eq!(tl_read_string(&[2, 0xff, b'i']), Some("\u{fffd}i".to_owned()));
}

#[test]
fn frame_is_decrypted_and_opened() {
    let mut session =
        EncryptedSession::with_session_id(test_key(), 5, 0, SERVER_SESSION);
    let mut frame = hex(SERVER_FRAME);
    let env = handle_frame(&mut session, &mut frame).unwrap();
    // the body starts with the ID of rpc_result and is too short for one
    // only if it is shorter than 12 bytes
    assert!(env.reply.is_some() || env.updates.is_empty());
    assert_eq!(session.salt(), SERVER_SALT);
    assert_eq!(session.session_id(), SERVER_SESSION);
}

#[test]
fn unpack_gives_the_server_message() {
    let session = EncryptedSession::with_session_id(test_key(), 5, 0, SERVER_SESSION);
    let mut frame = hex(SERVER_FRAME);
    let msg = session.unpack(&mut frame).unwrap();
    assert_eq!(msg.salt, SERVER_SALT);
    assert_eq!(msg.session_id, SERVER_SESSION);
    assert_eq!(msg.msg_id, SERVER_MSG_ID);
    assert_eq!(msg.seq_no, SERVER_SEQ);
    assert_eq!(msg.body, SERVER_BODY);
    let mut frame = hex(SERVER_FRAME);
    let msg = EncryptedSession::decrypt_frame(&test_key(), SERVER_SESSION, &mut frame).unwrap();
    assert_eq!(msg.body, SERVER_BODY);
}

#[test]
fn frame_for_another_session_is_refused() {
    let mut session = EncryptedSession::with_session_id(test_key(), 5, 0, SERVER_SESSION + 1);
    let mut frame = hex(SERVER_FRAME);
    assert_eq!(
        session.unpack(&mut frame).err(),
        Some(DecryptError::SessionMismatch)
    );
    let mut frame = hex(SERVER_FRAME);
    assert_eq!(
        handle_frame(&mut session, &mut frame),
        Err(FrameError::Decrypt(DecryptError::SessionMismatch))
    );
    assert_eq!(session.salt(), 5);
    let mut frame = hex(SERVER_FRAME);
    frame[30] ^= 1;
    assert_eq!(
        session.unpack(&mut frame).err(),
        Some(DecryptError::Crypto(layer::crypto::DecryptError::MessageKeyMismatch))
    );
    let mut frame = vec![0u8; 5];
    assert_eq!(
        session.unpack(&mut frame).err(),
        Some(DecryptError::Crypto(layer::crypto::DecryptError::InvalidBuffer))
    );
}

#[test]
fn what_ends_a_wait() {
    let reply = Envelope { reply: Some(Reply { req_msg_id: None, body: vec![1] }), updates: vec![] };
    let updates = Envelope { reply: None, updates: vec![vec![1]] };
    let nothing = Envelope { reply: None, updates: vec![] };
    assert!(completes(Waiting::Result, &reply));
    assert!(!completes(Waiting::Result, &updates));
    assert!(!completes(Waiting::Result, &nothing));
    assert!(completes(Waiting::Acknowledgement, &reply));
    assert!(completes(Waiting::Acknowledgement, &updates));
    assert!(!completes(Waiting::Acknowledgement, &nothing));
}
