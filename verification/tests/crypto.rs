use layer::crypto::aes::{ige_decrypt, ige_encrypt};
use layer::crypto::rsa::{encrypt_hashed, increment, Key};
use layer::crypto::{
    calc_key, decrypt_data_v2, do_encrypt_data_v2, encrypt_data_v2, generate_key_data_from_nonce,
    padding_len, AuthKey, DecryptError, DequeBuffer, Side,
};
use layer::mtproto::authentication::key_for_fingerprint;

const KEY_ID: &str = "9ed6e6ef196cc931";
const NEW_NONCE_HASH_1: &str = "af531f538a42ccacdbb9b8b33abbca03";
const NEW_NONCE_HASH_3: &str = "3577732be2092a76ee740bc895b86c97";
const NONCE_KEY: &str = "486e27b24a7a6d86f7a50dd324148fd15e8b631430ab0aa55635c58faae00e8c";
const NONCE_IV: &str = "7815d95f39d3f12275b48d1290af853da5c387130de4bae1cd95f81b01060b10";
const CLIENT_KEY: &str = "fb190693c4409d1b210eca74a7603428a6d75aa2263fffe159b44647eacb53b3";
const CLIENT_IV: &str = "094f96f29c1e7a6d8969f5247598b0e9a2e8119536506e729e7a07d448f018f6";
const SERVER_KEY: &str = "b152ee12906d00ce5ad2e6a0a589e87177200cfb673c1e89ec5578545af87ccb";
const SERVER_IV: &str = "376603355ed14036081de8d7a35e49ab7a1b4e2bb1c516b96f5d69b8d87b0d33";
const IGE_CIPHER: &str = "b2cdb56ec94b728c67835ede49a247ecc19e958acb8078099165f157db4895fc5e7ce4867d8359ffda113debc2a47451";
const CLIENT_FRAME: &str = "9ed6e6ef196cc931d1e2a6e431c95c6ffb63814fe6614eee153a45bc2a9afe997993e5b17a34c049977790d7372babba503d63ed291ee60a150405166656524fd558e2244c7c69aa";
const SERVER_FRAME: &str = "9ed6e6ef196cc931b4ce719828ada7c91309786d4f8f2d6f036227b312aaa39532f607fbc64c14f13d489cb319f0eb661544250eab966f21f18653b4955b586910aee418ac8f779dcff97a2952b15210040e3e1e6250b6bdf0c2878f8add8785f8e76235e01d6a24";
const SERVER_BODY: &[u8] = &[1, 109, 92, 243, 115, 101, 114, 118, 101, 114, 32, 98, 111, 100, 121, 46, 46, 46, 46];
const RSA_N: &str = "24618977732741541265293671344761069582058699342339064615690798822712256193345338203384146107983533080770557852630075064926868529407508276097218732654797542486561243454230223264204027902276806867261204252850045270010447601415534472505296352146737099721055594388603419123936169920714471934566216988460733773810775521906211140943278708015217243174967153892993727565958008341690451310867429236202159193753163209616670445070198978887525003838345919945807879435470373881564045045050275846402048600964695067511731527194026700665306273582020284283507431902382181484866280395465836733929173904129492869527210124630259073667811";
const RSA_OUT: &str = "7ed6db4feefd404c44a90fd556bf9f5ee3ea93210f5e50ee012e482029ac37d3baf06b9244fb9cb424ae7664376a4ccc70bbe3b399f7690a55c50ee120abe46606214077fb45ddbc76677bae92712147878b80e1bca70ddd8243db8ee2c104415f29ef82f811508e2fcab5d5dbee0064ce77f70d4337cf8ccb94dcdafe195ff6e6fb08dc8bb7b3d01caa9aa064a8b196a0eb5c45fa50d93cfaa49e03ad5a6c6705e659fd90f45eee8fd07898c01277b59676463a5f6cbbd20d47cf0203710c28261cd03a09da4ae3bead34ed7a60c17036036eda3507a0f566942d2f65d33d662898720c608a6c92af86a8f7d703277fa5d51bbfcd029a0c74e5430fb9e42bc2";
const RSA_N2: &str = "6059970576787741205485370350159154485022027810106422978608684716234732289005591971745965286106296116849967420555267420748344735564711641104157322110890798929042439550280071589887002432642640509437094381638113442654624551026894247674271949919126529651681547939468784547382347892430822750387110957642563508613546615523965994439182638466469741968986056833304860799482257423684764979755421260181896843226269374454759422153583636936729796509293213695976774490900928897239469037083774769634508829034442181933561761700852202472127088119646591636436002527730399145280375081516155975556488171781331666368724307677722382289115";
const RSA_OUT2: &str = "150f421d103a07091d4bbc9aa1d084d68b08735e4a4c233a1187422fc329898d7bd528369921153ab41c1c480c7da00bcb7ebd70584990445f7812ac9e3a711394bf8658ccbd8addede2a9cb853b34424454e4f038e49b956b0ea75d03987b667d8eb9314a43457651b7b81b72e06d0dbb4112057db7b04a757a2d342522021db05f6b628ee97771e5dbf91a78337a67ff105eaa77bc792b5e557ecf239aeade8334a90fc241e9cc4db3987d08d895e2a66bf1fcdf79977e125b144c8f3e0c2e66f6228d677410e90fb39a7f9ba867f7061c22c25fd6a1cc031fda22c3763485ab22bbdf65383352d3d58f87e5f9c7b6486fbf380c17a93dcf6c6e6f63e64975";

fn hex(s: &str) -> Vec<u8> {
    (0..s.len() / 2).map(|i| u8::from_str_radix(&s[2 * i..2 * i + 2], 16).unwrap()).collect()
}

fn test_key() -> [u8; 256] {
    core::array::from_fn(|i| ((i * 7 + 3) % 256) as u8)
}

fn new_nonce() -> [u8; 32] {
    core::array::from_fn(|i| ((i * 5 + 1) % 256) as u8)
}

fn server_nonce() -> [u8; 16] {
    core::array::from_fn(|i| ((i * 11 + 2) % 256) as u8)
}

#[test]
fn auth_key_identifier() {
    let key = AuthKey::from_bytes(test_key());
    assert_eq!(key.key_id().to_vec(), hex(KEY_ID));
    assert_eq!(key.to_bytes(), test_key());
    let other = AuthKey::from_bytes([0u8; 256]);
    assert!(key.same_id(&key));
    assert!(!key.same_id(&other));
}

#[test]
fn auth_key_new_nonce_hash() {
    let key = AuthKey::from_bytes(test_key());
    assert_eq!(key.calc_new_nonce_hash(&new_nonce(), 1).to_vec(), hex(NEW_NONCE_HASH_1));
    assert_eq!(key.calc_new_nonce_hash(&new_nonce(), 3).to_vec(), hex(NEW_NONCE_HASH_3));
}

#[test]
fn key_data_from_nonces() {
    let (key, iv) = generate_key_data_from_nonce(&server_nonce(), &new_nonce());
    assert_eq!(key.to_vec(), hex(NONCE_KEY));
    assert_eq!(iv.to_vec(), hex(NONCE_IV));
}

#[test]
fn message_keys_of_both_sides() {
    let key = AuthKey::from_bytes(test_key());
    let msg_key: [u8; 16] = core::array::from_fn(|i| 100 + i as u8);
    let (k, v) = calc_key(&key, &msg_key, Side::Client);
    assert_eq!(k.to_vec(), hex(CLIENT_KEY));
    assert_eq!(v.to_vec(), hex(CLIENT_IV));
    let (k, v) = calc_key(&key, &msg_key, Side::Server);
    assert_eq!(k.to_vec(), hex(SERVER_KEY));
    assert_eq!(v.to_vec(), hex(SERVER_IV));
    assert_eq!(Side::Client.x(), 0);
    assert_eq!(Side::Server.x(), 8);
}

#[test]
fn ige_known_answer() {
    let key: [u8; 32] = core::array::from_fn(|i| i as u8);
    let iv: [u8; 32] = core::array::from_fn(|i| 32 + i as u8);
    let plain: Vec<u8> = (0..48).map(|i| ((i * 3) % 256) as u8).collect();
    let mut buf = plain.clone();
    ige_encrypt(&mut buf, &key, &iv);
    assert_eq!(buf, hex(IGE_CIPHER));
    ige_decrypt(&mut buf, &key, &iv);
    assert_eq!(buf, plain);
    let mut empty: Vec<u8> = vec![];
    ige_encrypt(&mut empty, &key, &iv);
    assert!(empty.is_empty());
}

#[test]
fn padding_is_17_to_32_bytes() {
    assert_eq!(padding_len(0), 32);
    assert_eq!(padding_len(1), 31);
    assert_eq!(padding_len(15), 17);
    assert_eq!(padding_len(16), 32);
    assert_eq!(padding_len(22), 26);
    for n in 0..100usize {
        assert_eq!((n + padding_len(n)) % 16, 0);
    }
}

#[test]
fn encrypt_with_fixed_padding() {
    let key = AuthKey::from_bytes(test_key());
    let rnd: [u8; 32] = core::array::from_fn(|i| 200u8.wrapping_add(i as u8));
    let mut buf = DequeBuffer::with_capacity(64, 32);
    buf.extend_from_slice(b"hello, encrypted world");
    do_encrypt_data_v2(&mut buf, &key, &rnd);
    assert_eq!(buf.to_vec(), hex(CLIENT_FRAME));
}

#[test]
fn encrypt_with_random_padding_has_the_frame_shape() {
    let key = AuthKey::from_bytes(test_key());
    let mut a = DequeBuffer::with_capacity(64, 32);
    a.extend_from_slice(b"hello, encrypted world");
    encrypt_data_v2(&mut a, &key).unwrap();
    let mut b = DequeBuffer::with_capacity(64, 32);
    b.extend_from_slice(b"hello, encrypted world");
    encrypt_data_v2(&mut b, &key).unwrap();
    assert_eq!(a.len(), 24 + 48);
    assert_eq!(a.to_vec()[..8].to_vec(), hex(KEY_ID));
    assert_ne!(a.to_vec(), b.to_vec());
}

#[test]
fn decrypt_server_frame() {
    let key = AuthKey::from_bytes(test_key());
    let mut frame = hex(SERVER_FRAME);
    let plain = decrypt_data_v2(&mut frame, &key).unwrap();
    assert_eq!(&plain[32..32 + SERVER_BODY.len()], SERVER_BODY);
    assert_eq!(&frame[24..], &plain[..]);
}

#[test]
fn decrypt_errors() {
    let key = AuthKey::from_bytes(test_key());
    let mut short = vec![0u8; 23];
    assert_eq!(decrypt_data_v2(&mut short, &key), Err(DecryptError::InvalidBuffer));
    let mut odd = vec![0u8; 24 + 15];
    assert_eq!(decrypt_data_v2(&mut odd, &key), Err(DecryptError::InvalidBuffer));
    let mut other = hex(SERVER_FRAME);
    other[0] ^= 1;
    let before = other.clone();
    assert_eq!(decrypt_data_v2(&mut other, &key), Err(DecryptError::AuthKeyMismatch));
    assert_eq!(other, before);
    // a frame that the client made is not one that the server made
    let mut own = hex(CLIENT_FRAME);
    assert_eq!(decrypt_data_v2(&mut own, &key), Err(DecryptError::MessageKeyMismatch));
}

#[test]
fn tampering_with_any_byte_of_the_ciphertext_is_noticed() {
    let key = AuthKey::from_bytes(test_key());
    let good = hex(SERVER_FRAME);
    for i in 8..good.len() {
        let mut frame = good.clone();
        frame[i] ^= 0x40;
        assert_eq!(
            decrypt_data_v2(&mut frame, &key),
            Err(DecryptError::MessageKeyMismatch),
            "byte {i}"
        );
    }
}

#[test]
fn deque_buffer_grows_at_both_ends() {
    let mut b = DequeBuffer::with_capacity(8, 4);
    assert!(b.is_empty());
    assert_eq!(b.len(), 0);
    b.extend_from_slice(&[5, 6]);
    b.extend_front(&[3, 4]);
    assert_eq!(b.to_vec(), vec![3, 4, 5, 6]);
    b.extend_front(&[0, 1, 2]);
    assert_eq!(b.to_vec(), vec![0, 1, 2, 3, 4, 5, 6]);
    assert_eq!(b.len(), 7);
    b.extend_front(&[]);
    assert_eq!(b.len(), 7);
    b.overwrite(&[9; 7]);
    assert_eq!(b.to_vec(), vec![9; 7]);
    b.clear();
    assert!(b.is_empty());
    b.extend_front(&[1, 2, 3, 4]);
    b.extend_front(&[0]);
    assert_eq!(b.to_vec(), vec![0, 1, 2, 3, 4]);
}

#[test]
fn increment_counts_in_big_endian() {
    let mut k = [0u8; 32];
    assert!(!increment(&mut k));
    assert_eq!(k[31], 1);
    k[31] = 0xff;
    k[30] = 0xff;
    assert!(!increment(&mut k));
    assert_eq!(&k[29..], &[1, 0, 0]);
    let mut top = [0xffu8; 32];
    assert!(increment(&mut top));
    assert_eq!(top, [0u8; 32]);
}

fn rsa_input() -> (Vec<u8>, [u8; 224]) {
    let data: Vec<u8> = (0..100).map(|i| ((i * 9 + 4) % 256) as u8).collect();
    let random: [u8; 224] = core::array::from_fn(|i| ((i * 31 + 7) % 256) as u8);
    (data, random)
}

#[test]
fn rsa_pad_known_answer() {
    let (data, random) = rsa_input();
    let key = Key::new(RSA_N, "65537").unwrap();
    assert_eq!(encrypt_hashed(&data, &key, &random), Some(hex(RSA_OUT)));
    let key = Key::new(RSA_N2, "65537").unwrap();
    assert_eq!(encrypt_hashed(&data, &key, &random), Some(hex(RSA_OUT2)));
}

#[test]
fn rsa_pad_without_a_usable_modulus() {
    let (data, random) = rsa_input();
    let key = Key::new("1", "65537").unwrap();
    assert_eq!(encrypt_hashed(&data, &key, &random), None);
    assert!(Key::new("12x", "65537").is_none());
    assert!(Key::new("123", "").is_none());
}

#[test]
fn rsa_pad_output_is_256_bytes() {
    let (data, random) = rsa_input();
    let key = key_for_fingerprint(-3414540481677951611).unwrap();
    let out = encrypt_hashed(&data, &key, &random).unwrap();
    assert_eq!(out.len(), 256);
    let short = encrypt_hashed(&[], &key, &random).unwrap();
    assert_eq!(short.len(), 256);
    assert_ne!(short, out);
}

#[test]
fn known_fingerprints() {
    assert!(key_for_fingerprint(-3414540481677951611).is_some());
    assert!(key_for_fingerprint(-5595554452916591101).is_some());
    assert!(key_for_fingerprint(0).is_none());
    assert!(key_for_fingerprint(1).is_none());
}

#[test]
fn a_server_frame_is_unpacked_to_what_went_in() {
    let mut key_bytes = [0u8; 256];
    for (i, b) in key_bytes.iter_mut().enumerate() {
        *b = (i * 7 + 3) as u8;
    }
    let key = AuthKey::from_bytes(key_bytes);
    let session =
        layer::mtproto::encrypted::EncryptedSession::with_session_id(key_bytes, 11, 0, 77);
    for body in [&b""[..], &b"abcd"[..], &[0x5au8; 100][..]] {
        let mut frame = layer::mtproto::encrypted::server_frame(
            &key,
            -5,
            77,
            0x6400_0000_1234_5601,
            3,
            body,
            &[9u8; 32],
        );
        assert_eq!((frame.len() - 24) % 16, 0);
        let mut copy = frame.clone();
        let m = session.unpack(&mut frame).unwrap();
        assert_eq!(m.salt, -5);
        assert_eq!(m.session_id, 77);
        assert_eq!(m.msg_id, 0x6400_0000_1234_5601);
        assert_eq!(m.seq_no, 3);
        assert_eq!(m.body, body);
        let other =
            layer::mtproto::encrypted::EncryptedSession::with_session_id(key_bytes, 11, 0, 78);
        assert_eq!(
            other.unpack(&mut copy).unwrap_err(),
            layer::mtproto::encrypted::DecryptError::SessionMismatch
        );
    }
}
