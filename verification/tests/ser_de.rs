use layer::tl::deserialize::Error;
use layer::tl::{Cursor, Deserializable, RawVec, Serializable};

// ── Primitive round-trips ─────────────────────────────────────────────────────

#[test]
fn roundtrip_i32() {
    for v in [0i32, -1, i32::MAX, i32::MIN, 42] {
        let bytes = v.to_bytes();
        assert_eq!(i32::from_bytes(&bytes).unwrap(), v);
    }
}

#[test]
fn roundtrip_i64() {
    for v in [0i64, -1, i64::MAX, i64::MIN, 1_234_567_890] {
        let bytes = v.to_bytes();
        assert_eq!(i64::from_bytes(&bytes).unwrap(), v);
    }
}

#[test]
fn roundtrip_u32() {
    for v in [0u32, 1, u32::MAX, 0x1cb5c415] {
        let bytes = v.to_bytes();
        assert_eq!(bytes, v.to_le_bytes());
        assert_eq!(u32::from_bytes(&bytes).unwrap(), v);
    }
}

#[test]
fn roundtrip_bool_true() {
    let bytes = true.to_bytes();
    assert_eq!(bytes, 0x997275b5u32.to_le_bytes());
    assert_eq!(bool::from_bytes(&bytes).unwrap(), true);
}

#[test]
fn roundtrip_bool_false() {
    let bytes = false.to_bytes();
    assert_eq!(bytes, 0xbc799737u32.to_le_bytes());
    assert_eq!(bool::from_bytes(&bytes).unwrap(), false);
}

#[test]
fn integers_are_little_endian() {
    assert_eq!(0x01020304i32.to_bytes(), vec![4, 3, 2, 1]);
    assert_eq!(0x0102030405060708i64.to_bytes(), vec![8, 7, 6, 5, 4, 3, 2, 1]);
    assert_eq!((-2i32).to_bytes(), vec![0xfe, 0xff, 0xff, 0xff]);
}

// ── String / bytes ────────────────────────────────────────────────────────────

#[test]
fn roundtrip_empty_string() {
    let s = String::new();
    let bytes = s.to_bytes();
    assert_eq!(String::from_bytes(&bytes).unwrap(), s);
}

#[test]
fn empty_string_is_one_word() {
    assert_eq!(String::new().to_bytes(), vec![0, 0, 0, 0]);
}

#[test]
fn roundtrip_short_string() {
    let s = "hello world".to_owned();
    let bytes = s.to_bytes();
    assert_eq!(bytes.len() % 4, 0, "must be 4-byte aligned");
    assert_eq!(String::from_bytes(&bytes).unwrap(), s);
}

#[test]
fn short_string_layout() {
    let bytes = "abc".to_owned().to_bytes();
    assert_eq!(bytes, vec![3, b'a', b'b', b'c']);
    let bytes = "abcd".to_owned().to_bytes();
    assert_eq!(bytes, vec![4, b'a', b'b', b'c', b'd', 0, 0, 0]);
}

#[test]
fn roundtrip_long_string() {
    // >253 bytes triggers the 4-byte length header path
    let s = "x".repeat(300);
    let bytes = s.clone().to_bytes();
    assert_eq!(String::from_bytes(&bytes).unwrap(), s);
}

#[test]
fn long_string_layout() {
    let s = "x".repeat(300);
    let bytes = s.to_bytes();
    assert_eq!(bytes.len(), 304);
    assert_eq!(bytes.len() % 4, 0);
    assert_eq!(&bytes[..4], &[0xfe, 0x2c, 0x01, 0x00]);
}

#[test]
fn string_of_253_and_254_bytes() {
    let a = vec![7u8; 253];
    let bytes = a.to_bytes();
    assert_eq!(bytes[0], 253);
    assert_eq!(bytes.len(), 256);
    assert_eq!(Vec::<u8>::from_bytes(&bytes).unwrap(), a);
    let b = vec![7u8; 254];
    let bytes = b.to_bytes();
    assert_eq!(&bytes[..4], &[0xfe, 254, 0, 0]);
    assert_eq!(bytes.len(), 260);
    assert_eq!(Vec::<u8>::from_bytes(&bytes).unwrap(), b);
}

#[test]
fn roundtrip_bytes_vec() {
    let v: Vec<u8> = (0u8..=255).collect();
    let bytes = v.clone().to_bytes();
    assert_eq!(Vec::<u8>::from_bytes(&bytes).unwrap(), v);
}

#[test]
fn string_that_is_not_utf8_is_refused() {
    let bytes = vec![2u8, 0xff, 0xfe, 0];
    assert_eq!(String::from_bytes(&bytes), Err(Error::UnexpectedEof));
    assert_eq!(Vec::<u8>::from_bytes(&bytes).unwrap(), vec![0xff, 0xfe]);
}

#[test]
fn string_with_wide_characters() {
    let s = "żółw 🐢".to_owned();
    let bytes = s.to_bytes();
    assert_eq!(bytes.len() % 4, 0);
    assert_eq!(String::from_bytes(&bytes).unwrap(), s);
}

// ── Vectors ───────────────────────────────────────────────────────────────────

#[test]
fn roundtrip_vec_i32() {
    let v: Vec<i32> = vec![1, 2, 3, -99];
    let bytes = v.to_bytes();
    assert_eq!(Vec::<i32>::from_bytes(&bytes).unwrap(), vec![1, 2, 3, -99]);
}

#[test]
fn roundtrip_empty_vec() {
    let v: Vec<i64> = vec![];
    let bytes = v.to_bytes();
    assert_eq!(Vec::<i64>::from_bytes(&bytes).unwrap(), Vec::<i64>::new());
}

#[test]
fn boxed_vector_layout() {
    let v: Vec<i32> = vec![5];
    assert_eq!(v.to_bytes(), vec![0x15, 0xc4, 0xb5, 0x1c, 1, 0, 0, 0, 5, 0, 0, 0]);
}

#[test]
fn bare_vector_roundtrip() {
    let v = RawVec(vec![7i64, -7]);
    let bytes = v.to_bytes();
    assert_eq!(bytes.len(), 4 + 16);
    assert_eq!(&bytes[..4], &[2, 0, 0, 0]);
    assert_eq!(RawVec::<i64>::from_bytes(&bytes).unwrap(), v);
}

#[test]
fn vector_of_strings_roundtrip() {
    let v = vec!["a".to_owned(), String::new(), "x".repeat(300)];
    let bytes = v.to_bytes();
    assert_eq!(Vec::<String>::from_bytes(&bytes).unwrap(), v);
}

#[test]
fn vector_with_wrong_id_is_refused() {
    let bytes = vec![1u8, 2, 3, 4, 0, 0, 0, 0];
    assert_eq!(
        Vec::<i32>::from_bytes(&bytes),
        Err(Error::UnexpectedConstructor { id: 0x04030201 })
    );
}

#[test]
fn vector_shorter_than_its_count_is_refused() {
    let mut bytes = vec![3i32, 4].to_bytes();
    bytes.truncate(bytes.len() - 1);
    assert_eq!(Vec::<i32>::from_bytes(&bytes), Err(Error::UnexpectedEof));
    // a negative count asks for more items than any buffer holds
    let mut bytes = 0x1cb5c415u32.to_bytes();
    bytes.extend((-1i32).to_bytes());
    assert_eq!(Vec::<i32>::from_bytes(&bytes), Err(Error::UnexpectedEof));
}

// ── Fixed-size arrays ─────────────────────────────────────────────────────────

#[test]
fn roundtrip_int128() {
    let v: [u8; 16] = [1, 2, 3, 4, 5, 6, 7, 8, 9, 10, 11, 12, 13, 14, 15, 16];
    assert_eq!(<[u8; 16]>::from_bytes(&v.to_bytes()).unwrap(), v);
}

#[test]
fn roundtrip_int256() {
    let v: [u8; 32] = core::array::from_fn(|i| i as u8);
    assert_eq!(<[u8; 32]>::from_bytes(&v.to_bytes()).unwrap(), v);
}

// ── Cursor EOF detection ──────────────────────────────────────────────────────

#[test]
fn deserialize_truncated_returns_eof() {
    let result = i32::from_bytes(&[0x01, 0x02]); // only 2 bytes, need 4
    assert_eq!(result, Err(Error::UnexpectedEof));
}

#[test]
fn truncated_values_are_eof() {
    assert_eq!(i64::from_bytes(&[0; 7]), Err(Error::UnexpectedEof));
    assert_eq!(bool::from_bytes(&[0xb5, 0x75]), Err(Error::UnexpectedEof));
    assert_eq!(<[u8; 16]>::from_bytes(&[0; 15]), Err(Error::UnexpectedEof));
    assert_eq!(<[u8; 32]>::from_bytes(&[0; 31]), Err(Error::UnexpectedEof));
    assert_eq!(Vec::<u8>::from_bytes(&[]), Err(Error::UnexpectedEof));
    assert_eq!(Vec::<u8>::from_bytes(&[3, 1, 2]), Err(Error::UnexpectedEof));
    assert_eq!(Vec::<u8>::from_bytes(&[2, 1, 2]), Err(Error::UnexpectedEof));
    assert_eq!(Vec::<u8>::from_bytes(&[0xfe, 1, 0]), Err(Error::UnexpectedEof));
}

#[test]
fn bool_with_unknown_id_is_refused() {
    assert_eq!(
        bool::from_bytes(&[0x78, 0x56, 0x34, 0x12]),
        Err(Error::UnexpectedConstructor { id: 0x12345678 })
    );
}

#[test]
fn cursor_reads_in_order() {
    let data = [1u8, 2, 3, 4, 5, 6, 7];
    let mut c = Cursor::from_slice(&data);
    assert_eq!(c.pos(), 0);
    assert_eq!(c.remaining(), 7);
    assert_eq!(c.read_byte(), Ok(1));
    let mut two = [0u8; 2];
    assert_eq!(c.read_exact(&mut two), Ok(()));
    assert_eq!(two, [2, 3]);
    assert_eq!(c.pos(), 3);
    let mut five = [9u8; 5];
    assert_eq!(c.read_exact(&mut five), Err(Error::UnexpectedEof));
    assert_eq!(five, [9u8; 5]);
    assert_eq!(c.pos(), 3);
    let mut rest = vec![0u8];
    assert_eq!(c.read_to_end(&mut rest), 4);
    assert_eq!(rest, vec![0, 4, 5, 6, 7]);
    assert_eq!(c.remaining(), 0);
    assert_eq!(c.read_byte(), Err(Error::UnexpectedEof));
}

#[test]
fn cursor_reads_values_one_after_the_other() {
    let mut bytes = 7i32.to_bytes();
    bytes.extend("hi".to_owned().to_bytes());
    bytes.extend(true.to_bytes());
    let mut c = Cursor::from_slice(&bytes);
    assert_eq!(i32::deserialize(&mut c), Ok(7));
    assert_eq!(String::deserialize(&mut c), Ok("hi".to_owned()));
    assert_eq!(bool::deserialize(&mut c), Ok(true));
    assert_eq!(c.remaining(), 0);
}

// ── Option passthrough ────────────────────────────────────────────────────────

#[test]
fn option_none_writes_nothing() {
    let v: Option<i32> = None;
    assert_eq!(v.to_bytes(), b"");
}

#[test]
fn option_some_writes_inner() {
    let v: Option<i32> = Some(42);
    assert_eq!(v.to_bytes(), 42i32.to_bytes());
}
