use layer::mtproto::message::{plaintext_body, PlainFrameError};
use layer::mtproto::transport::{AbridgedTransport, Transport};
use layer::mtproto::{Message, MessageId, Session};

#[test]
fn session_seq_no_increments() {
    let mut s = Session::new();
    let a = s.next_seq_no();
    let b = s.next_seq_no();
    assert!(a & 1 == 1, "content-related seq_no must be odd");
    assert!(b & 1 == 1);
    assert!(b > a, "seq_no must increase");
}

#[test]
fn session_seq_no_values() {
    let mut s = Session::new();
    assert_eq!(s.next_seq_no(), 1);
    assert_eq!(s.next_seq_no_unrelated(), 2);
    assert_eq!(s.next_seq_no(), 3);
    assert_eq!(s.next_seq_no(), 5);
    assert_eq!(s.next_seq_no_unrelated(), 6);
}

#[test]
fn session_unrelated_seq_no_is_even() {
    let mut s = Session::new();
    let n = s.next_seq_no_unrelated();
    assert_eq!(n & 1, 0, "unrelated seq_no must be even");
}

#[test]
fn message_plaintext_bytes_layout() {
    let mut s = Session::new();
    // Use a zero-length body to inspect the fixed header
    let id = s.next_msg_id();
    let msg = Message::plaintext(id, 1, vec![0xAA, 0xBB]);
    let wire = msg.to_plaintext_bytes();

    // auth_key_id (8 bytes) + msg_id (8 bytes) + length (4 bytes) + body (2 bytes)
    assert_eq!(wire.len(), 8 + 8 + 4 + 2);
    // auth_key_id must be 0 for plaintext
    assert_eq!(&wire[..8], &[0u8; 8]);
    // length field must match body
    assert_eq!(u32::from_le_bytes(wire[16..20].try_into().unwrap()), 2);
    // body is intact
    assert_eq!(&wire[20..], &[0xAA, 0xBB]);
}

#[test]
fn message_id_holds_time_and_counter() {
    let id = MessageId::at(0x1234_5678, 3);
    assert_eq!(id.0, 0x1234_5678_0000_000c);
    let mut s = Session::new();
    let a = s.next_msg_id_at(100);
    let b = s.next_msg_id_at(100);
    assert_eq!(a.0, (100u64 << 32) | 4);
    assert_eq!(b.0, (100u64 << 32) | 8);
    assert!(b > a);
    assert_eq!(a.0 & 3, 0);
}

#[test]
fn message_id_uses_the_clock() {
    let mut s = Session::new();
    let id = s.next_msg_id();
    let now = std::time::SystemTime::now()
        .duration_since(std::time::UNIX_EPOCH)
        .unwrap()
        .as_secs();
    let secs = id.0 >> 32;
    assert!(secs <= now && now - secs < 60);
    assert_eq!(id.0 & 0xffff_ffff, 4);
}

#[test]
fn plaintext_frame_carries_the_id() {
    let msg = Message::plaintext(MessageId(0x0807060504030201), 1, vec![9, 9, 9, 9]);
    let wire = msg.to_plaintext_bytes();
    assert_eq!(&wire[8..16], &[1, 2, 3, 4, 5, 6, 7, 8]);
    assert_eq!(plaintext_body(&wire).unwrap(), vec![9, 9, 9, 9]);
}

// ── AbridgedTransport ─────────────────────────────────────────────────────────

struct MemTransport {
    inbox: Vec<u8>,
    outbox: Vec<u8>,
}

impl Transport for MemTransport {
    type Error = std::io::Error;
    fn send(&mut self, data: &[u8]) -> Result<(), Self::Error> {
        self.outbox.extend_from_slice(data);
        Ok(())
    }
    fn recv(&mut self) -> Result<Vec<u8>, Self::Error> {
        Ok(std::mem::take(&mut self.inbox))
    }
}

#[test]
fn abridged_sends_init_byte_once() {
    let inner = MemTransport { inbox: vec![], outbox: vec![] };
    let mut t = AbridgedTransport::new(inner);

    let payload = vec![0u8; 4]; // 4 bytes = 1 word
    t.send_message(&payload).unwrap();
    // First byte must be 0xef (init)
    assert_eq!(t.inner_mut().outbox[0], 0xef);

    let prev_len = t.inner_mut().outbox.len();
    // Second call must NOT send 0xef again
    t.send_message(&payload).unwrap();
    let second_byte = t.inner_mut().outbox[prev_len];
    assert_ne!(second_byte, 0xef, "init byte must only be sent once");
}

#[test]
fn abridged_frames_short_and_long_payloads() {
    let inner = MemTransport { inbox: vec![1, 2, 3, 4], outbox: vec![] };
    let mut t = AbridgedTransport::new(inner);
    t.send_message(&[7u8; 8]).unwrap();
    assert_eq!(t.inner_mut().outbox[..2], [0xef, 2]);
    assert_eq!(t.inner_mut().outbox.len(), 10);
    t.inner_mut().outbox.clear();
    t.send_message(&vec![5u8; 127 * 4]).unwrap();
    assert_eq!(t.inner_mut().outbox[..4], [0x7f, 127, 0, 0]);
    t.inner_mut().outbox.clear();
    t.send_message(&vec![5u8; 0x1_02_03 * 4]).unwrap();
    assert_eq!(t.inner_mut().outbox[..4], [0x7f, 0x03, 0x02, 0x01]);
    assert_eq!(t.recv_message().unwrap(), vec![1, 2, 3, 4]);
}

// ── Plaintext frames ─────────────────────────────────────────────────────────

#[test]
fn plaintext_body_ok() {
    let mut f = vec![0u8; 24];
    f[16..20].copy_from_slice(&4u32.to_le_bytes());
    f[20..24].copy_from_slice(&[1, 2, 3, 4]);
    assert_eq!(plaintext_body(&f).unwrap(), &[1, 2, 3, 4]);
}

#[test]
fn plaintext_body_rejects_short() {
    assert!(plaintext_body(&[0u8; 10]).is_err());
}

#[test]
fn plaintext_body_rejects_encrypted() {
    let mut f = [0u8; 24];
    f[0] = 1;
    assert!(plaintext_body(&f).is_err());
}

#[test]
fn plaintext_body_says_why() {
    assert_eq!(plaintext_body(&[0u8; 19]), Err(PlainFrameError::TooShort));
    let mut f = [0u8; 24];
    f[7] = 1;
    assert_eq!(plaintext_body(&f), Err(PlainFrameError::Encrypted));
    let mut f = [0u8; 24];
    f[16] = 5;
    assert_eq!(plaintext_body(&f), Err(PlainFrameError::Truncated));
    f[16] = 3;
    assert_eq!(plaintext_body(&f), Ok(vec![0, 0, 0]));
}

#[test]
fn identifiers_grow_when_the_clock_steps_back() {
    let mut s = Session::new();
    let a = s.next_msg_id_at(1_700_000_000).0;
    let b = s.next_msg_id_at(1_700_000_000).0;
    let c = s.next_msg_id_at(1_600_000_000).0;
    let d = s.next_msg_id_at(1_600_000_000).0;
    let e = s.next_msg_id_at(1_700_000_001).0;
    assert_eq!(a, (1_700_000_000u64 << 32) | (1 << 2));
    assert_eq!(b, (1_700_000_000u64 << 32) | (2 << 2));
    assert_eq!(c, b + 4);
    assert_eq!(d, c + 4);
    assert_eq!(e, (1_700_000_001u64 << 32) | (5 << 2));
    for id in [a, b, c, d, e] {
        assert_eq!(id % 4, 0);
    }
    assert!(a < b && b < c && c < d && d < e);
}

#[test]
fn identifiers_grow_from_call_to_call() {
    let mut s = Session::new();
    let mut last = 0u64;
    for _ in 0..1000 {
        let id = s.next_msg_id().0;
        assert!(id > last);
        assert_eq!(id % 4, 0);
        last = id;
    }
}
