use layer::client::framing::{
    abridged_frame, abridged_parse, full_frame, full_parse, init_bytes, intermediate_frame,
    intermediate_parse, FrameError, FullFramer, Parsed,
};
use layer::client::transport_kind::{Socks5Config, TransportKind};
use layer::client::transport_obfuscated::{derive_keys, handshake, ObfCipher};

fn payload(len: usize) -> Vec<u8> {
    (0..len).map(|i| (i * 7 % 251) as u8).collect()
}

#[test]
fn abridged_roundtrip_for_every_length() {
    for words in [1usize, 2, 126, 127, 128, 255, 256, 1000, 0x7fff] {
        let p = payload(words * 4);
        let mut stream = abridged_frame(&p);
        let framed = stream.len();
        assert_eq!(framed, p.len() + if words < 127 { 1 } else { 4 });
        stream.extend([9, 9, 9]);
        assert_eq!(abridged_parse(&stream), Parsed::Frame { payload: p, consumed: framed });
    }
}

#[test]
fn abridged_header_bytes() {
    assert_eq!(abridged_frame(&payload(4))[0], 1);
    assert_eq!(abridged_frame(&payload(126 * 4))[0], 126);
    assert_eq!(abridged_frame(&payload(127 * 4))[..4], [0x7f, 127, 0, 0]);
    assert_eq!(abridged_frame(&payload(0x1234 * 4))[..4], [0x7f, 0x34, 0x12, 0]);
}

#[test]
fn abridged_waits_for_a_whole_frame() {
    let p = payload(200 * 4);
    let stream = abridged_frame(&p);
    for cut in [0usize, 1, 3, 4, 100, stream.len() - 1] {
        assert_eq!(abridged_parse(&stream[..cut]), Parsed::NeedMore, "cut at {cut}");
    }
    assert_eq!(abridged_parse(&[5, 1, 2, 3]), Parsed::NeedMore);
}

#[test]
fn abridged_transport_error_is_no_frame() {
    let mut stream = vec![0x7f, 0x01, 0x00, 0x00];
    stream.extend((-404i32).to_le_bytes());
    stream.extend([1, 2, 3, 4]);
    assert_eq!(abridged_parse(&stream), Parsed::TransportError { code: -404, consumed: 8 });
    assert_eq!(abridged_parse(&stream[..7]), Parsed::NeedMore);
}

#[test]
fn abridged_rejects_implausible_lengths() {
    assert_eq!(
        abridged_parse(&[0, 1, 2, 3]),
        Parsed::Corrupt(FrameError::ImplausibleLength { words: 0 })
    );
    assert_eq!(
        abridged_parse(&[0x7f, 0x00, 0x80, 0x00]),
        Parsed::Corrupt(FrameError::ImplausibleLength { words: 0x8000 })
    );
    assert_eq!(
        abridged_parse(&[0xff, 0xff, 0xff, 0xff]),
        Parsed::Corrupt(FrameError::ImplausibleLength { words: 0xffffff })
    );
    assert_eq!(
        abridged_parse(&[0x7f, 0, 0, 0]),
        Parsed::Corrupt(FrameError::ImplausibleLength { words: 0 })
    );
}

#[test]
fn intermediate_roundtrip_for_every_length() {
    for len in [0usize, 1, 2, 3, 4, 5, 255, 256, 70000] {
        let p = payload(len);
        let mut stream = intermediate_frame(&p);
        assert_eq!(&stream[..4], &(len as u32).to_le_bytes());
        let framed = stream.len();
        stream.extend([7, 7]);
        assert_eq!(intermediate_parse(&stream), Parsed::Frame { payload: p, consumed: framed });
        if len > 0 {
            assert_eq!(intermediate_parse(&stream[..framed - 1]), Parsed::NeedMore);
        }
    }
    assert_eq!(intermediate_parse(&[1, 0, 0]), Parsed::NeedMore);
}

#[test]
fn full_roundtrip_for_every_length() {
    for len in [0usize, 1, 2, 3, 4, 5, 255, 256, 70000] {
        let p = payload(len);
        let mut stream = full_frame(3, &p);
        assert_eq!(stream.len(), len + 12);
        assert_eq!(&stream[..4], &((len + 12) as u32).to_le_bytes());
        assert_eq!(&stream[4..8], &3u32.to_le_bytes());
        let framed = stream.len();
        stream.extend([7, 7]);
        assert_eq!(full_parse(&stream), Parsed::Frame { payload: p, consumed: framed });
        assert_eq!(full_parse(&stream[..framed - 1]), Parsed::NeedMore);
    }
}

#[test]
fn full_frame_known_bytes() {
    // length 13, sequence number 0, one byte, CRC-32 of the nine bytes before it
    let frame = full_frame(0, &[0x61]);
    assert_eq!(&frame[..9], &[13, 0, 0, 0, 0, 0, 0, 0, 0x61]);
    assert_eq!(frame.len(), 13);
}

#[test]
fn full_checks_length_and_checksum() {
    assert_eq!(
        full_parse(&[11, 0, 0, 0, 0, 0, 0, 0, 0, 0, 0]),
        Parsed::Corrupt(FrameError::TooShort { total: 11 })
    );
    let good = full_frame(0, &payload(8));
    for i in 4..good.len() {
        let mut bad = good.clone();
        bad[i] ^= 1;
        match full_parse(&bad) {
            Parsed::Corrupt(FrameError::CrcMismatch { got, expected }) => assert_ne!(got, expected),
            other => panic!("byte {i}: {other:?}"),
        }
    }
}

#[test]
fn full_framer_counts() {
    let mut f = FullFramer::new();
    let a = f.frame(&payload(4));
    let b = f.frame(&payload(4));
    assert_eq!(&a[4..8], &[0, 0, 0, 0]);
    assert_eq!(&b[4..8], &[1, 0, 0, 0]);
    assert_eq!(f.send_seqno, 2);
    assert_eq!(f.accept(&a), Parsed::Frame { payload: payload(4), consumed: 16 });
    assert_eq!(f.accept(&a[..5]), Parsed::NeedMore);
    assert_eq!(f.recv_seqno, 1);
}

#[test]
fn init_bytes_of_each_framing() {
    assert_eq!(init_bytes(&TransportKind::Abridged), vec![0xef]);
    assert_eq!(init_bytes(&TransportKind::Intermediate), vec![0xee; 4]);
    assert_eq!(init_bytes(&TransportKind::Full), Vec::<u8>::new());
    assert_eq!(init_bytes(&TransportKind::Obfuscated { secret: None }), Vec::<u8>::new());
    assert_eq!(TransportKind::default(), TransportKind::Abridged);
}

#[test]
fn socks5_settings() {
    let c = Socks5Config::new("127.0.0.1:1080");
    assert_eq!(c.proxy_addr, "127.0.0.1:1080");
    assert!(c.auth.is_none());
    let c = Socks5Config::with_auth("proxy:1", "user", "pass");
    assert_eq!(c.auth, Some(("user".to_owned(), "pass".to_owned())));
}

#[test]
fn keystream_is_an_involution() {
    let key: [u8; 32] = core::array::from_fn(|i| i as u8);
    let iv = [7u8; 16];
    let mut enc = ObfCipher::new(key, iv);
    let mut dec = ObfCipher::new(key, iv);
    let plain = payload(100);
    let mut data = plain.clone();
    enc.apply(&mut data[..33]);
    enc.apply(&mut data[33..]);
    assert_ne!(data, plain);
    dec.apply(&mut data);
    assert_eq!(data, plain);
}

#[test]
fn keystream_known_answer() {
    // the first round is SHA-256 of 32 zero bytes and 16 zero bytes
    let mut c = ObfCipher::new([0u8; 32], [0u8; 16]);
    let mut data = [0u8; 4];
    c.apply(&mut data);
    assert_eq!(data, [0x17, 0xb0, 0x76, 0x1f]);
}

#[test]
fn keys_from_the_nonce() {
    let nonce: [u8; 64] = core::array::from_fn(|i| i as u8);
    let (ek, ei, dk, di) = derive_keys(&nonce, None);
    assert_eq!(ek.to_vec(), (8u8..40).collect::<Vec<_>>());
    assert_eq!(ei.to_vec(), (40u8..56).collect::<Vec<_>>());
    assert_eq!(dk.to_vec(), (8u8..40).rev().collect::<Vec<_>>());
    assert_eq!(di.to_vec(), (40u8..56).rev().collect::<Vec<_>>());
    let secret = [9u8; 16];
    let (ek2, ei2, dk2, _) = derive_keys(&nonce, Some(&secret));
    assert_ne!(ek2, ek);
    assert_ne!(dk2, dk);
    assert_ne!(ek2, dk2);
    assert_eq!(ei2, ei);
}

#[test]
fn obfuscated_handshake_header() {
    let nonce: [u8; 64] = core::array::from_fn(|i| (i * 3) as u8);
    let (header, _enc, _dec) = handshake(&nonce, None);
    assert_eq!(header.len(), 64);
    assert_eq!(&header[..56], &nonce[..56]);
    let (ek, ei, _, _) = derive_keys(&nonce, None);
    let mut fresh = ObfCipher::new(ek, ei);
    let mut tail = header[56..].to_vec();
    fresh.apply(&mut tail);
    assert_eq!(&tail[..4], &[0xef, 0xef, 0xef, 0xef]);
    assert_eq!(&tail[4..], &nonce[60..]);
}
