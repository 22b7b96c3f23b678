use layer::crypto::aes::{ige_decrypt, ige_encrypt};
use layer::crypto::{generate_key_data_from_nonce, AuthKey};
use layer::mtproto::authentication::{
    check_g_in_range, check_new_nonce_hash, check_nonce, check_server_nonce, do_step1, do_step2,
    do_step2_with_factors, do_step3, finish, read_be64, step1, step2, step3, trim_be, Error,
    Step2, Step3,
};
use layer::tl::{enums, functions, types, Cursor, Deserializable, Identifiable, Serializable};
use num_bigint::BigUint;
use sha1::{Digest, Sha1};

const PRODUCTION: i64 = -3414540481677951611;
const PQ: u64 = 1470626929934143021;

fn nonce() -> [u8; 16] {
    core::array::from_fn(|i| (i * 3 + 1) as u8)
}

fn server_nonce() -> [u8; 16] {
    core::array::from_fn(|i| (i * 5 + 2) as u8)
}

fn random256() -> [u8; 256] {
    core::array::from_fn(|i| ((i * 13 + 7) % 256) as u8)
}

fn random272() -> [u8; 272] {
    core::array::from_fn(|i| ((i * 29 + 11) % 256) as u8)
}

fn new_nonce() -> [u8; 32] {
    random256()[..32].try_into().unwrap()
}

fn res_pq() -> types::ResPq {
    types::ResPq {
        nonce: nonce(),
        server_nonce: server_nonce(),
        pq: PQ.to_be_bytes().to_vec(),
        server_public_key_fingerprints: vec![123, PRODUCTION],
    }
}

fn after_step2() -> (functions::ReqDhParams, Step2) {
    let (_, s1) = do_step1(&nonce()).unwrap();
    do_step2(s1, enums::ResPq::ResPq(res_pq()), &random256()).unwrap()
}

fn prime() -> Vec<u8> {
    vec![0xff; 256]
}

fn server_secret() -> BigUint {
    BigUint::from_bytes_be(&[0x5a; 200])
}

fn server_answer(inner: &types::ServerDhInnerData) -> Vec<u8> {
    let body = enums::ServerDhInnerData::ServerDhInnerData(inner.clone()).to_bytes();
    let mut plain = Sha1::digest(&body).to_vec();
    plain.extend_from_slice(&body);
    while plain.len() % 16 != 0 {
        plain.push(0xaa);
    }
    let (key, iv) = generate_key_data_from_nonce(&server_nonce(), &new_nonce());
    ige_encrypt(&mut plain, &key, &iv);
    plain
}

fn inner_data() -> types::ServerDhInnerData {
    let p = BigUint::from_bytes_be(&prime());
    let g_a = BigUint::from(3u32).modpow(&server_secret(), &p);
    types::ServerDhInnerData {
        nonce: nonce(),
        server_nonce: server_nonce(),
        g: 3,
        dh_prime: prime(),
        g_a: g_a.to_bytes_be(),
        server_time: 1_700_000_100,
    }
}

fn dh_params(inner: &types::ServerDhInnerData) -> enums::ServerDhParams {
    enums::ServerDhParams::ParamsOk(types::ServerDhParamsOk {
        nonce: nonce(),
        server_nonce: server_nonce(),
        encrypted_answer: server_answer(inner),
    })
}

fn after_step3() -> (functions::SetClientDhParams, Step3) {
    let (_, s2) = after_step2();
    do_step3(s2, dh_params(&inner_data()), &random272(), 1_700_000_000).unwrap()
}

/// What the server computes from the client's share.
fn shared_key(req: &functions::SetClientDhParams) -> [u8; 256] {
    let (key, iv) = generate_key_data_from_nonce(&server_nonce(), &new_nonce());
    let mut plain = req.encrypted_data.clone();
    ige_decrypt(&mut plain, &key, &iv);
    let mut cursor = Cursor::from_slice(&plain[20..]);
    let enums::ClientDhInnerData::ClientDhInnerData(inner) =
        enums::ClientDhInnerData::deserialize(&mut cursor).unwrap();
    assert_eq!(&plain[..20], Sha1::digest(&plain[20..20 + cursor.pos()]).as_slice());
    assert_eq!(inner.nonce, nonce());
    assert_eq!(inner.server_nonce, server_nonce());
    assert_eq!(inner.retry_id, 0);
    let p = BigUint::from_bytes_be(&prime());
    let gab = BigUint::from_bytes_be(&inner.g_b).modpow(&server_secret(), &p).to_bytes_be();
    let mut key = [0u8; 256];
    key[256 - gab.len()..].copy_from_slice(&gab);
    key
}

#[test]
fn step1_makes_the_request() {
    let (req, _) = do_step1(&nonce()).unwrap();
    assert_eq!(req.nonce, nonce());
    assert_eq!(functions::ReqPqMulti::constructor_id(), 0xbe7e8ef1);
    let mut expected = 0xbe7e8ef1u32.to_le_bytes().to_vec();
    expected.extend(nonce());
    assert_eq!(req.to_bytes(), expected);
    let (a, _) = step1().unwrap();
    let (b, _) = step1().unwrap();
    assert_ne!(a.nonce, b.nonce);
}

#[test]
fn step2_factorizes_and_encrypts() {
    let (req, _) = after_step2();
    assert_eq!(req.nonce, nonce());
    assert_eq!(req.server_nonce, server_nonce());
    assert_eq!(req.p, 1206429347u32.to_be_bytes());
    assert_eq!(req.q, 1218991343u32.to_be_bytes());
    assert_eq!(req.public_key_fingerprint, PRODUCTION);
    assert_eq!(req.encrypted_data.len(), 256);
    // the same randomness gives the same request
    let (again, _) = after_step2();
    assert_eq!(again, req);
    let (_, s1) = do_step1(&nonce()).unwrap();
    let (with, _) =
        do_step2_with_factors(s1, res_pq(), &random256(), 1206429347, 1218991343).unwrap();
    assert_eq!(with, req);
    let (_, s1) = do_step1(&nonce()).unwrap();
    let (other, _) = step2(s1, enums::ResPq::ResPq(res_pq())).unwrap();
    assert_ne!(other.encrypted_data, req.encrypted_data);
}

#[test]
fn step2_errors() {
    let (_, s1) = do_step1(&nonce()).unwrap();
    let mut bad = res_pq();
    bad.nonce[0] ^= 1;
    assert_eq!(
        do_step2(s1, enums::ResPq::ResPq(bad.clone()), &random256()).unwrap_err(),
        Error::InvalidNonce { got: bad.nonce, expected: nonce() }
    );
    let (_, s1) = do_step1(&nonce()).unwrap();
    let mut bad = res_pq();
    bad.pq = vec![1, 2, 3];
    assert_eq!(
        do_step2(s1, enums::ResPq::ResPq(bad), &random256()).unwrap_err(),
        Error::InvalidPqSize { size: 3 }
    );
    let (_, s1) = do_step1(&nonce()).unwrap();
    let mut bad = res_pq();
    bad.server_public_key_fingerprints = vec![1, 2];
    assert_eq!(
        do_step2(s1, enums::ResPq::ResPq(bad), &random256()).unwrap_err(),
        Error::UnknownFingerprints { fingerprints: vec![1, 2] }
    );
}

#[test]
fn handshake_gives_a_deterministic_key() {
    let (req, s3) = after_step3();
    assert_eq!(req.nonce, nonce());
    assert_eq!(req.server_nonce, server_nonce());
    assert_eq!(req.encrypted_data.len() % 16, 0);
    let key = shared_key(&req);
    let hash = AuthKey::from_bytes(key).calc_new_nonce_hash(&new_nonce(), 1);
    let done = finish(
        s3,
        enums::SetClientDhParamsAnswer::DhGenOk(types::DhGenOk {
            nonce: nonce(),
            server_nonce: server_nonce(),
            new_nonce_hash1: hash,
        }),
    )
    .unwrap();
    assert_eq!(done.auth_key, key);
    assert_eq!(done.time_offset, 100);
    let mut salt = [0u8; 8];
    for i in 0..8 {
        salt[i] = new_nonce()[i] ^ server_nonce()[i];
    }
    assert_eq!(done.first_salt, i64::from_le_bytes(salt));
    // once more, with the same randomness
    let (req2, _) = after_step3();
    assert_eq!(req2, req);
}

#[test]
fn finish_errors() {
    let (req, s3) = after_step3();
    let key = shared_key(&req);
    let auth = AuthKey::from_bytes(key);
    let ok = |hash: [u8; 16]| types::DhGenOk {
        nonce: nonce(),
        server_nonce: server_nonce(),
        new_nonce_hash1: hash,
    };
    let good = auth.calc_new_nonce_hash(&new_nonce(), 1);
    let mut bad_nonce = ok(good);
    bad_nonce.nonce[3] ^= 1;
    assert_eq!(
        finish(s3, enums::SetClientDhParamsAnswer::DhGenOk(bad_nonce.clone())).unwrap_err(),
        Error::InvalidNonce { got: bad_nonce.nonce, expected: nonce() }
    );
    let (_, s3) = after_step3();
    let mut bad_server = ok(good);
    bad_server.server_nonce[3] ^= 1;
    assert_eq!(
        finish(s3, enums::SetClientDhParamsAnswer::DhGenOk(bad_server.clone())).unwrap_err(),
        Error::InvalidServerNonce { got: bad_server.server_nonce, expected: server_nonce() }
    );
    let (_, s3) = after_step3();
    let mut wrong = good;
    wrong[0] ^= 1;
    assert_eq!(
        finish(s3, enums::SetClientDhParamsAnswer::DhGenOk(ok(wrong))).unwrap_err(),
        Error::InvalidNewNonceHash { got: wrong, expected: good }
    );
    let (_, s3) = after_step3();
    let retry = auth.calc_new_nonce_hash(&new_nonce(), 2);
    assert_eq!(
        finish(
            s3,
            enums::SetClientDhParamsAnswer::DhGenRetry(types::DhGenRetry {
                nonce: nonce(),
                server_nonce: server_nonce(),
                new_nonce_hash2: retry,
            })
        )
        .unwrap_err(),
        Error::DhGenRetry
    );
    let (_, s3) = after_step3();
    let fail = auth.calc_new_nonce_hash(&new_nonce(), 3);
    assert_eq!(
        finish(
            s3,
            enums::SetClientDhParamsAnswer::DhGenFail(types::DhGenFail {
                nonce: nonce(),
                server_nonce: server_nonce(),
                new_nonce_hash3: fail,
            })
        )
        .unwrap_err(),
        Error::DhGenFail
    );
    // a retry with the hash of a success is a wrong hash
    let (_, s3) = after_step3();
    assert_eq!(
        finish(
            s3,
            enums::SetClientDhParamsAnswer::DhGenRetry(types::DhGenRetry {
                nonce: nonce(),
                server_nonce: server_nonce(),
                new_nonce_hash2: good,
            })
        )
        .unwrap_err(),
        Error::InvalidNewNonceHash { got: good, expected: retry }
    );
}

#[test]
fn step3_nonce_errors() {
    let (_, s2) = after_step2();
    let mut bad = types::ServerDhParamsOk {
        nonce: nonce(),
        server_nonce: server_nonce(),
        encrypted_answer: server_answer(&inner_data()),
    };
    bad.nonce[0] ^= 1;
    assert_eq!(
        do_step3(s2, enums::ServerDhParams::ParamsOk(bad.clone()), &random272(), 0).unwrap_err(),
        Error::InvalidNonce { got: bad.nonce, expected: nonce() }
    );
    let (_, s2) = after_step2();
    bad.nonce = nonce();
    bad.server_nonce[0] ^= 1;
    assert_eq!(
        do_step3(s2, enums::ServerDhParams::ParamsOk(bad.clone()), &random272(), 0).unwrap_err(),
        Error::InvalidServerNonce { got: bad.server_nonce, expected: server_nonce() }
    );
    // nonces inside the encrypted answer
    let (_, s2) = after_step2();
    let mut inner = inner_data();
    inner.nonce[5] ^= 1;
    assert_eq!(
        do_step3(s2, dh_params(&inner), &random272(), 0).unwrap_err(),
        Error::InvalidNonce { got: inner.nonce, expected: nonce() }
    );
    let (_, s2) = after_step2();
    let mut inner = inner_data();
    inner.server_nonce[5] ^= 1;
    assert_eq!(
        do_step3(s2, dh_params(&inner), &random272(), 0).unwrap_err(),
        Error::InvalidServerNonce { got: inner.server_nonce, expected: server_nonce() }
    );
}

#[test]
fn step3_refusal_of_the_server() {
    let expected: [u8; 16] = Sha1::digest(new_nonce())[4..].try_into().unwrap();
    let fail = |hash: [u8; 16]| {
        enums::ServerDhParams::Fail(types::ServerDhParamsFail {
            nonce: nonce(),
            server_nonce: server_nonce(),
            new_nonce_hash: hash,
        })
    };
    let (_, s2) = after_step2();
    assert_eq!(do_step3(s2, fail(expected), &random272(), 0).unwrap_err(), Error::DhParamsFail);
    let (_, s2) = after_step2();
    assert_eq!(
        do_step3(s2, fail([0u8; 16]), &random272(), 0).unwrap_err(),
        Error::InvalidNewNonceHash { got: [0u8; 16], expected }
    );
}

#[test]
fn step3_malformed_answers() {
    let answer = |bytes: Vec<u8>| {
        enums::ServerDhParams::ParamsOk(types::ServerDhParamsOk {
            nonce: nonce(),
            server_nonce: server_nonce(),
            encrypted_answer: bytes,
        })
    };
    let (_, s2) = after_step2();
    assert_eq!(
        do_step3(s2, answer(vec![0; 17]), &random272(), 0).unwrap_err(),
        Error::EncryptedResponseNotPadded { len: 17 }
    );
    let (_, s2) = after_step2();
    assert_eq!(
        do_step3(s2, answer(vec![]), &random272(), 0).unwrap_err(),
        Error::InvalidDhInnerData { error: layer::tl::deserialize::Error::UnexpectedEof }
    );
    let (_, s2) = after_step2();
    assert!(matches!(
        do_step3(s2, answer(vec![0; 64]), &random272(), 0).unwrap_err(),
        Error::InvalidDhInnerData { .. }
    ));
    // the digest in front of the inner data must fit
    let (_, s2) = after_step2();
    let (key, iv) = generate_key_data_from_nonce(&server_nonce(), &new_nonce());
    let mut plain = server_answer(&inner_data());
    ige_decrypt(&mut plain, &key, &iv);
    plain[0] ^= 1;
    ige_encrypt(&mut plain, &key, &iv);
    assert!(matches!(
        do_step3(s2, answer(plain), &random272(), 0).unwrap_err(),
        Error::InvalidAnswerHash { .. }
    ));
}

#[test]
fn step3_rejects_numbers_out_of_range() {
    let run = |inner: types::ServerDhInnerData| {
        let (_, s2) = after_step2();
        do_step3(s2, dh_params(&inner), &random272(), 0).unwrap_err()
    };
    let mut high = prime();
    high[255] = 0xfe;
    for g in [1, 0, -3] {
        let mut inner = inner_data();
        inner.g = g;
        match run(inner) {
            Error::GParameterOutOfRange { low, high: h, .. } => {
                assert_eq!(low, vec![1]);
                assert_eq!(h, high);
            }
            other => panic!("g = {g}: {other:?}"),
        }
    }
    for g_a in [vec![], vec![0], vec![1], prime(), high.clone(), vec![2], vec![0xff; 200]] {
        let mut inner = inner_data();
        inner.g_a = g_a.clone();
        match run(inner) {
            Error::GParameterOutOfRange { value, .. } => assert_eq!(value, g_a),
            other => panic!("g_a = {g_a:?}: {other:?}"),
        }
    }
    // a small prime leaves no room for the safety band, or for anything
    for p in [vec![], vec![0], vec![2], vec![7], vec![0xff; 100]] {
        let mut inner = inner_data();
        inner.dh_prime = p.clone();
        assert!(
            matches!(run(inner), Error::GParameterOutOfRange { .. }),
            "prime {p:?}"
        );
    }
    // the band itself: 2^1984 is out, one more is in
    let mut band = vec![1u8];
    band.extend([0u8; 248]);
    let mut inner = inner_data();
    inner.g_a = band.clone();
    assert!(matches!(
        run(inner),
        Error::GParameterOutOfRange { value, low, .. } if value == band && low == band
    ));
    let mut inner = inner_data();
    band[248] = 1;
    inner.g_a = band;
    let (_, s2) = after_step2();
    assert!(do_step3(s2, dh_params(&inner), &random272(), 0).is_ok());
}

#[test]
fn checks_one_by_one() {
    assert_eq!(check_nonce(&nonce(), &nonce()), Ok(()));
    assert_eq!(
        check_nonce(&nonce(), &server_nonce()),
        Err(Error::InvalidNonce { got: nonce(), expected: server_nonce() })
    );
    assert_eq!(
        check_server_nonce(&nonce(), &server_nonce()),
        Err(Error::InvalidServerNonce { got: nonce(), expected: server_nonce() })
    );
    assert_eq!(
        check_new_nonce_hash(&nonce(), &server_nonce()),
        Err(Error::InvalidNewNonceHash { got: nonce(), expected: server_nonce() })
    );
    assert_eq!(check_g_in_range(&[5], &[4], &[6]), Ok(()));
    assert_eq!(check_g_in_range(&[0, 5], &[4], &[0, 0, 6]), Ok(()));
    assert_eq!(check_g_in_range(&[1, 0], &[0xff], &[1, 1]), Ok(()));
    for (v, lo, hi) in [([4u8], [4u8], [6u8]), ([6], [4], [6]), ([7], [4], [6]), ([0], [4], [6])] {
        assert_eq!(
            check_g_in_range(&v, &lo, &hi),
            Err(Error::GParameterOutOfRange {
                value: v.to_vec(),
                low: lo.to_vec(),
                high: hi.to_vec()
            })
        );
    }
}

#[test]
fn big_endian_helpers() {
    assert_eq!(trim_be(0), vec![0]);
    assert_eq!(trim_be(1), vec![1]);
    assert_eq!(trim_be(0x100), vec![1, 0]);
    assert_eq!(trim_be(u64::MAX), vec![0xff; 8]);
    assert_eq!(trim_be(1206429347), 1206429347u32.to_be_bytes());
    assert_eq!(read_be64(&PQ.to_be_bytes()), PQ);
}

#[test]
fn steps_with_fresh_randomness() {
    let (_, s2) = after_step2();
    let (a, _) = step3(s2, dh_params(&inner_data())).unwrap();
    let (_, s2) = after_step2();
    let (b, _) = step3(s2, dh_params(&inner_data())).unwrap();
    assert_ne!(a.encrypted_data, b.encrypted_data);
}

#[test]
fn schema_types_on_the_wire() {
    let r = res_pq();
    let boxed = enums::ResPq::ResPq(r.clone()).to_bytes();
    assert_eq!(&boxed[..4], &0x05162463u32.to_le_bytes());
    assert_eq!(&boxed[4..], &r.to_bytes()[..]);
    assert_eq!(enums::ResPq::from_bytes(&boxed), Ok(enums::ResPq::ResPq(r.clone())));
    assert_eq!(types::ResPq::from_bytes(&r.to_bytes()), Ok(r));
    let mut wrong = boxed.clone();
    wrong[0] ^= 1;
    assert_eq!(
        enums::ResPq::from_bytes(&wrong),
        Err(layer::tl::deserialize::Error::UnexpectedConstructor { id: 0x05162462 })
    );
    assert_eq!(
        enums::ResPq::from_bytes(&boxed[..boxed.len() - 1]),
        Err(layer::tl::deserialize::Error::UnexpectedEof)
    );
    let ok = enums::SetClientDhParamsAnswer::DhGenRetry(types::DhGenRetry {
        nonce: nonce(),
        server_nonce: server_nonce(),
        new_nonce_hash2: [9; 16],
    });
    let bytes = ok.to_bytes();
    assert_eq!(&bytes[..4], &0x46dc1fb9u32.to_le_bytes());
    assert_eq!(enums::SetClientDhParamsAnswer::from_bytes(&bytes), Ok(ok));
    assert_eq!(types::ServerDhInnerData::constructor_id(), 0xb5890dba);
    let inner = inner_data();
    let bytes = enums::ServerDhInnerData::ServerDhInnerData(inner.clone()).to_bytes();
    assert_eq!(
        enums::ServerDhInnerData::from_bytes(&bytes),
        Ok(enums::ServerDhInnerData::ServerDhInnerData(inner))
    );
    let (req, _) = after_step2();
    let bytes = req.to_bytes();
    assert_eq!(&bytes[..4], &0xd712e4beu32.to_le_bytes());
    assert_eq!(&bytes[4..20], &nonce());
}
