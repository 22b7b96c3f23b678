use layer::client::errors::{InvocationError, RpcError, SignInError};
use layer::client::peer_cache::PeerError;
use layer::mtproto::authentication::Error as AuthError;
use layer::mtproto::message::PlainFrameError;
use layer::parser::errors::{IdError, ParamParseError, ParseError};
use layer::parser::parse_tl_file;
use layer::text::{decimal_string, push_byte_list, push_i64_list, text_of};
use layer::tl::deserialize::Error as CodecError;

#[test]
fn codec_errors_in_words() {
    assert_eq!(CodecError::UnexpectedEof.to_string(), "unexpected end of buffer");
    assert_eq!(
        CodecError::UnexpectedConstructor { id: 0xbc799737 }.to_string(),
        "unexpected constructor id: 0xbc799737"
    );
    assert_eq!(
        CodecError::UnexpectedConstructor { id: 0x1f }.to_string(),
        "unexpected constructor id: 0x0000001f"
    );
    assert_eq!(
        InvocationError::from_codec(CodecError::UnexpectedConstructor { id: 7 }),
        InvocationError::Deserialize("unexpected constructor id: 0x00000007".to_owned())
    );
    assert_eq!(
        InvocationError::from_codec(CodecError::UnexpectedEof).to_string(),
        "deserialize error: unexpected end of buffer"
    );
}

#[test]
fn crypto_errors_in_words() {
    assert_eq!(layer::crypto::DecryptError::InvalidBuffer.to_string(), "invalid ciphertext buffer length");
    assert_eq!(layer::crypto::DecryptError::AuthKeyMismatch.to_string(), "auth_key_id mismatch");
    assert_eq!(layer::crypto::DecryptError::MessageKeyMismatch.to_string(), "msg_key mismatch");
    assert_eq!(
        layer::mtproto::encrypted::DecryptError::Crypto(layer::crypto::DecryptError::MessageKeyMismatch)
            .to_string(),
        "crypto: msg_key mismatch"
    );
    assert_eq!(
        layer::mtproto::encrypted::DecryptError::FrameTooShort.to_string(),
        "inner plaintext too short"
    );
    assert_eq!(
        layer::mtproto::encrypted::DecryptError::SessionMismatch.to_string(),
        "session_id mismatch"
    );
    assert_eq!(PlainFrameError::TooShort.to_string(), "frame too short");
    assert_eq!(PlainFrameError::Encrypted.to_string(), "auth_key_id != 0 in plaintext response");
    assert_eq!(PlainFrameError::Truncated.to_string(), "truncated body");
}

#[test]
fn parse_errors_in_words() {
    assert_eq!(ParamParseError::Empty.to_string(), "empty token");
    assert_eq!(
        ParamParseError::TypeDef { name: "X".to_owned() }.to_string(),
        "generic type definition: X"
    );
    assert_eq!(ParamParseError::MissingDef.to_string(), "unknown generic or flag definition");
    assert_eq!(ParamParseError::InvalidFlag.to_string(), "invalid flag expression");
    assert_eq!(
        ParamParseError::InvalidGeneric.to_string(),
        "invalid generic argument (unclosed `<`)"
    );
    assert_eq!(
        ParamParseError::NotImplemented.to_string(),
        "parameter without `:type` is not supported"
    );
    assert_eq!(ParseError::Empty.to_string(), "empty definition");
    assert_eq!(ParseError::MissingType.to_string(), "missing `= Type`");
    assert_eq!(ParseError::MissingName.to_string(), "missing or malformed name");
    assert_eq!(ParseError::NotImplemented.to_string(), "unsupported TL syntax");
    assert_eq!(
        ParseError::InvalidParam(ParamParseError::InvalidFlag).to_string(),
        "invalid parameter: invalid flag expression"
    );
    assert_eq!(
        ParseError::InvalidId(IdError::Empty).to_string(),
        "invalid constructor ID: cannot parse integer from empty string"
    );
    assert_eq!(
        ParseError::InvalidId(IdError::InvalidDigit).to_string(),
        "invalid constructor ID: invalid digit found in string"
    );
    assert_eq!(
        ParseError::InvalidId(IdError::Overflow).to_string(),
        "invalid constructor ID: number too large to fit in target type"
    );
    assert_eq!(IdError::Overflow.to_string(), "number too large to fit in target type");
}

#[test]
fn handshake_errors_in_words() {
    let mut got = [0u8; 16];
    got[0] = 255;
    got[15] = 7;
    let expected = [1u8; 16];
    assert_eq!(
        AuthError::InvalidNonce { got, expected }.to_string(),
        "nonce mismatch: got [255, 0, 0, 0, 0, 0, 0, 0, 0, 0, 0, 0, 0, 0, 0, 7], \
expected [1, 1, 1, 1, 1, 1, 1, 1, 1, 1, 1, 1, 1, 1, 1, 1]"
    );
    assert!(AuthError::InvalidServerNonce { got, expected }
        .to_string()
        .starts_with("server_nonce mismatch: got [255, 0, "));
    assert!(AuthError::InvalidNewNonceHash { got, expected }
        .to_string()
        .starts_with("new nonce hash mismatch: got [255, 0, "));
    assert!(AuthError::InvalidAnswerHash { got: [2; 20], expected: [3; 20] }
        .to_string()
        .starts_with("answer hash mismatch: got [2, 2, "));
    assert_eq!(AuthError::InvalidPqSize { size: 7 }.to_string(), "pq size 7 invalid (expected 8)");
    assert_eq!(
        AuthError::UnknownFingerprints { fingerprints: vec![-3, 4] }.to_string(),
        "no known fingerprint in [-3, 4]"
    );
    assert_eq!(
        AuthError::UnknownFingerprints { fingerprints: Vec::new() }.to_string(),
        "no known fingerprint in []"
    );
    assert_eq!(AuthError::DhParamsFail.to_string(), "server returned DH params failure");
    assert_eq!(
        AuthError::EncryptedResponseNotPadded { len: 33 }.to_string(),
        "encrypted answer len 33 is not 16-byte aligned"
    );
    assert_eq!(
        AuthError::InvalidDhInnerData { error: CodecError::UnexpectedEof }.to_string(),
        "DH inner data deserialization error: unexpected end of buffer"
    );
    assert_eq!(
        AuthError::GParameterOutOfRange { value: vec![1, 0], low: vec![1], high: vec![1, 0, 0, 0, 0] }
            .to_string(),
        "g=256 not in range (1, 4294967296)"
    );
    assert_eq!(AuthError::DhGenRetry.to_string(), "DH gen retry requested");
    assert_eq!(AuthError::DhGenFail.to_string(), "DH gen failed");
}

#[test]
fn client_errors_in_words() {
    assert_eq!(
        RpcError { code: 303, name: "PHONE_MIGRATE".to_owned(), value: Some(5) }.to_string(),
        "RPC 303: PHONE_MIGRATE (value: 5)"
    );
    assert_eq!(
        RpcError { code: -2147483648, name: "X".to_owned(), value: Some(4294967295) }.to_string(),
        "RPC -2147483648: X (value: 4294967295)"
    );
    assert_eq!(
        InvocationError::Deserialize("bad".to_owned()).to_string(),
        "deserialize error: bad"
    );
    assert_eq!(InvocationError::Migrate(-1).to_string(), "DC migration to -1");
    assert_eq!(
        SignInError::SignUpRequired.to_string(),
        "sign up required — use official Telegram app"
    );
    assert_eq!(SignInError::Other(InvocationError::Dropped).to_string(), "request dropped");
    assert_eq!(
        PeerError::UnknownChannel { channel_id: -100 }.to_string(),
        "no access hash known for channel -100"
    );
}

#[test]
fn schema_items_in_words() {
    let defs: Vec<_> = parse_tl_file("ns.thing#1f flags:# a:flags.12?Vector<ns.Item> b:int = ns.Thing;")
        .into_iter()
        .map(|d| d.unwrap())
        .collect();
    let def = &defs[0];
    assert_eq!(def.to_string(), "ns.thing#1f flags:# a:flags.12?Vector<ns.Item> b:int = ns.Thing");
    assert_eq!(def.ty.to_string(), "ns.Thing");
    assert_eq!(def.params[0].to_string(), "flags:#");
    assert_eq!(def.params[1].to_string(), "a:flags.12?Vector<ns.Item>");
    assert_eq!(def.params[2].to_string(), "b:int");
}

#[test]
fn numbers_in_words() {
    assert_eq!(decimal_string(0), "0");
    assert_eq!(decimal_string(-1), "-1");
    assert_eq!(decimal_string(1234567890123), "1234567890123");
    assert_eq!(decimal_string(i64::MIN), "-9223372036854775808");
    assert_eq!(decimal_string(i64::MAX), "9223372036854775807");
    assert_eq!(text_of("abc"), "abc");
    let mut out = b"x=".to_vec();
    push_byte_list(&mut out, &[0, 10, 255]);
    push_i64_list(&mut out, &[]);
    push_i64_list(&mut out, &[-5]);
    assert_eq!(out, b"x=[0, 10, 255][][-5]");
}

#[test]
fn random_source_failure_in_words() {
    assert_eq!(
        layer::crypto::random::RandomUnavailable.to_string(),
        "the operating system's random source failed"
    );
    assert_eq!(
        AuthError::RandomUnavailable.to_string(),
        "the operating system's random source failed"
    );
}
