use layer::crc32::crc32;

#[test]
fn crc32_known_values() {
    assert_eq!(crc32(b""), 0);
    assert_eq!(crc32(b"123456789"), 0xcbf43926);
    assert_eq!(crc32(b"a"), 0xe8b7be43);
    assert_eq!(crc32(b"The quick brown fox jumps over the lazy dog"), 0x414fa339);
}

#[test]
fn crc32_of_canonical_bool_false() {
    assert_eq!(crc32(b"boolFalse = Bool"), 0xbc799737);
}
