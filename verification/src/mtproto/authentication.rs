//! The key exchange, without I/O: each step takes the server's last answer
//! and gives the next request and the state to go on with.
//!
//! ```text
//! let (request, s1) = step1()?;             // send, receive
//! let (request, s2) = step2(s1, answer)?;   // send, receive
//! let (request, s3) = step3(s2, answer)?;   // send, receive
//! let done = finish(s3, answer)?;
//! ```

use vstd::prelude::*;
use crate::crypto::aes::{ige_decrypt, ige_encrypt, spec_ige_decrypt, spec_ige_encrypt};
use crate::crypto::auth_key::{spec_new_nonce_hash, AuthKey};
use crate::crypto::bigint::{
    be_value, lemma_be_value_single, lemma_min_be, less_be, min_be, modpow_be, spec_decimal_be,
    spec_modpow, sub_be,
};
use crate::crypto::factorize::factorize;
use crate::crypto::random::random_array;
use crate::crypto::rsa::{encrypt_hashed, left_pad, spec_encrypt_hashed, xor_bytes, Key};
use crate::crypto::sha::{sha1, spec_sha1};
use crate::crypto::{generate_key_data_from_nonce, spec_key_data_from_nonce};
use crate::mtproto::message::unix_time;
use crate::tl::deserialize::{Cursor, Deserializable};
use crate::tl::enums;
use crate::tl::enums::{ClientDhInnerDataView, PQInnerDataView, ServerDhInnerDataView};
use crate::tl::functions;
use crate::tl::serialize::{zeros, Serializable};
use crate::tl::types;
use crate::tl::wire::{as_i64, bytes_eq, copy_range, from_le64, load_array, push_all, read_le64};
use vstd::string::StringSliceAdditionalSpecFns;
use vstd::utf8::encode_utf8;

verus! {

// ─── errors ──────────────────────────────────────────────────────────────────
/// Why the key exchange stopped.
#[derive(Clone, Debug, PartialEq)]
#[allow(inconsistent_fields)]
pub enum Error {
    /// The server's answer does not carry our nonce.
    InvalidNonce { got: [u8; 16], expected: [u8; 16] },
    /// The product to factorize is not 8 bytes long.
    InvalidPqSize { size: usize },
    /// The server accepts none of the keys we know.
    UnknownFingerprints { fingerprints: Vec<i64> },
    /// The server refused to send DH parameters.
    DhParamsFail,
    /// The server's answer does not carry the server nonce it began with.
    InvalidServerNonce { got: [u8; 16], expected: [u8; 16] },
    /// The encrypted answer is not a whole number of blocks.
    EncryptedResponseNotPadded { len: usize },
    /// The decrypted answer is not the server's DH inner data.
    InvalidDhInnerData { error: crate::tl::deserialize::Error },
    /// A DH number lies outside the range it must lie in. The numbers are
    /// in big-endian form; a negative generator is given as the empty string.
    GParameterOutOfRange { value: Vec<u8>, low: Vec<u8>, high: Vec<u8> },
    /// The server asks to run the last step again.
    DhGenRetry,
    /// The server could not make the key.
    DhGenFail,
    /// The decrypted answer does not start with the digest of its content.
    InvalidAnswerHash { got: [u8; 20], expected: [u8; 20] },
    /// The server's hash of the new nonce is not the one our key gives.
    InvalidNewNonceHash { got: [u8; 16], expected: [u8; 16] },
    /// No padding of the inner data stays below the RSA modulus.
    RsaEncryptionFailed,
    /// The operating system had no random bytes to give.
    RandomUnavailable,
}

/// An error as contracts see it: byte strings in place of arrays and vectors.
#[allow(inconsistent_fields)]
pub enum ErrorView {
    InvalidNonce { got: Seq<u8>, expected: Seq<u8> },
    InvalidPqSize { size: usize },
    UnknownFingerprints { fingerprints: Seq<i64> },
    DhParamsFail,
    InvalidServerNonce { got: Seq<u8>, expected: Seq<u8> },
    EncryptedResponseNotPadded { len: usize },
    InvalidDhInnerData { error: crate::tl::deserialize::Error },
    GParameterOutOfRange { value: Seq<u8>, low: Seq<u8>, high: Seq<u8> },
    DhGenRetry,
    DhGenFail,
    InvalidAnswerHash { got: Seq<u8>, expected: Seq<u8> },
    InvalidNewNonceHash { got: Seq<u8>, expected: Seq<u8> },
    RsaEncryptionFailed,
    RandomUnavailable,
}

impl View for Error {
    type V = ErrorView;

    open spec fn view(&self) -> ErrorView {
        match self {
            Error::InvalidNonce { got, expected } => ErrorView::InvalidNonce {
                got: got@,
                expected: expected@,
            },
            Error::InvalidPqSize { size } => ErrorView::InvalidPqSize { size: *size },
            Error::UnknownFingerprints { fingerprints } => ErrorView::UnknownFingerprints {
                fingerprints: fingerprints@,
            },
            Error::DhParamsFail => ErrorView::DhParamsFail,
            Error::InvalidServerNonce { got, expected } => ErrorView::InvalidServerNonce {
                got: got@,
                expected: expected@,
            },
            Error::EncryptedResponseNotPadded { len } => ErrorView::EncryptedResponseNotPadded {
                len: *len,
            },
            Error::InvalidDhInnerData { error } => ErrorView::InvalidDhInnerData { error: *error },
            Error::GParameterOutOfRange { value, low, high } => ErrorView::GParameterOutOfRange {
                value: value@,
                low: low@,
                high: high@,
            },
            Error::DhGenRetry => ErrorView::DhGenRetry,
            Error::DhGenFail => ErrorView::DhGenFail,
            Error::InvalidAnswerHash { got, expected } => ErrorView::InvalidAnswerHash {
                got: got@,
                expected: expected@,
            },
            Error::InvalidNewNonceHash { got, expected } => ErrorView::InvalidNewNonceHash {
                got: got@,
                expected: expected@,
            },
            Error::RsaEncryptionFailed => ErrorView::RsaEncryptionFailed,
            Error::RandomUnavailable => ErrorView::RandomUnavailable,
        }
    }
}

/// A mismatch in words: what it is of, what came and what was expected.
pub open spec fn mismatch_text(what: Seq<u8>, got: Seq<u8>, expected: Seq<u8>) -> Seq<u8> {
    what + " mismatch: got ".spec_bytes() + crate::text::spec_number_list(
        crate::text::numbers_of_bytes(got),
    ) + ", expected ".spec_bytes() + crate::text::spec_number_list(
        crate::text::numbers_of_bytes(expected),
    )
}

/// Appends a mismatch in words.
fn push_mismatch(out: &mut Vec<u8>, what: &str, got: &[u8], expected: &[u8])
    ensures
        final(out)@ == old(out)@ + mismatch_text(what.spec_bytes(), got@, expected@),
{
    push_all(out, what.as_bytes());
    push_all(out, " mismatch: got ".as_bytes());
    crate::text::push_byte_list(out, got);
    push_all(out, ", expected ".as_bytes());
    crate::text::push_byte_list(out, expected);
    assert(out@ =~= old(out)@ + mismatch_text(what.spec_bytes(), got@, expected@));
}

/// The error in words, as bytes. Numbers are written in decimal, byte
/// strings as lists of numbers.
pub open spec fn spec_error_text(e: ErrorView) -> Seq<u8> {
    match e {
        ErrorView::InvalidNonce { got, expected } => mismatch_text(
            "nonce".spec_bytes(),
            got,
            expected,
        ),
        ErrorView::InvalidPqSize { size } => "pq size ".spec_bytes()
            + crate::text::spec_decimal_nat(size as nat) + " invalid (expected 8)".spec_bytes(),
        ErrorView::UnknownFingerprints { fingerprints } => "no known fingerprint in ".spec_bytes()
            + crate::text::spec_number_list(crate::text::numbers_of_i64(fingerprints)),
        ErrorView::DhParamsFail => "server returned DH params failure".spec_bytes(),
        ErrorView::InvalidServerNonce { got, expected } => mismatch_text(
            "server_nonce".spec_bytes(),
            got,
            expected,
        ),
        ErrorView::EncryptedResponseNotPadded { len } => "encrypted answer len ".spec_bytes()
            + crate::text::spec_decimal_nat(len as nat) + " is not 16-byte aligned".spec_bytes(),
        ErrorView::InvalidDhInnerData { error } => "DH inner data deserialization error: ".spec_bytes()
            + error.text_bytes(),
        ErrorView::GParameterOutOfRange { value, low, high } => "g=".spec_bytes()
            + crate::text::spec_decimal_nat(be_value(value)) + " not in range (".spec_bytes()
            + crate::text::spec_decimal_nat(be_value(low)) + ", ".spec_bytes()
            + crate::text::spec_decimal_nat(be_value(high)) + ")".spec_bytes(),
        ErrorView::DhGenRetry => "DH gen retry requested".spec_bytes(),
        ErrorView::DhGenFail => "DH gen failed".spec_bytes(),
        ErrorView::InvalidAnswerHash { got, expected } => mismatch_text(
            "answer hash".spec_bytes(),
            got,
            expected,
        ),
        ErrorView::InvalidNewNonceHash { got, expected } => mismatch_text(
            "new nonce hash".spec_bytes(),
            got,
            expected,
        ),
        ErrorView::RsaEncryptionFailed => "no padding of the inner data fits the key".spec_bytes(),
        ErrorView::RandomUnavailable => "the operating system's random source failed".spec_bytes(),
    }
}

impl Error {
    /// The error in words.
    pub fn to_string(&self) -> (s: String)
        ensures
            s@ == crate::client::session::spec_lenient_text(spec_error_text(self@)),
    {
        let mut out: Vec<u8> = Vec::new();
        match self {
            Error::InvalidNonce { got, expected } => {
                push_mismatch(&mut out, "nonce", got.as_slice(), expected.as_slice());
            },
            Error::InvalidPqSize { size } => {
                push_all(&mut out, "pq size ".as_bytes());
                crate::text::push_decimal_u64(&mut out, *size as u64);
                push_all(&mut out, " invalid (expected 8)".as_bytes());
            },
            Error::UnknownFingerprints { fingerprints } => {
                push_all(&mut out, "no known fingerprint in ".as_bytes());
                crate::text::push_i64_list(&mut out, fingerprints.as_slice());
            },
            Error::DhParamsFail => {
                push_all(&mut out, "server returned DH params failure".as_bytes());
            },
            Error::InvalidServerNonce { got, expected } => {
                push_mismatch(&mut out, "server_nonce", got.as_slice(), expected.as_slice());
            },
            Error::EncryptedResponseNotPadded { len } => {
                push_all(&mut out, "encrypted answer len ".as_bytes());
                crate::text::push_decimal_u64(&mut out, *len as u64);
                push_all(&mut out, " is not 16-byte aligned".as_bytes());
            },
            Error::InvalidDhInnerData { error } => {
                push_all(&mut out, "DH inner data deserialization error: ".as_bytes());
                error.push_text(&mut out);
            },
            Error::GParameterOutOfRange { value, low, high } => {
                push_all(&mut out, "g=".as_bytes());
                push_all(&mut out, crate::crypto::bigint::decimal_of_be(value.as_slice()).as_slice());
                push_all(&mut out, " not in range (".as_bytes());
                push_all(&mut out, crate::crypto::bigint::decimal_of_be(low.as_slice()).as_slice());
                push_all(&mut out, ", ".as_bytes());
                push_all(&mut out, crate::crypto::bigint::decimal_of_be(high.as_slice()).as_slice());
                push_all(&mut out, ")".as_bytes());
            },
            Error::DhGenRetry => {
                push_all(&mut out, "DH gen retry requested".as_bytes());
            },
            Error::DhGenFail => {
                push_all(&mut out, "DH gen failed".as_bytes());
            },
            Error::InvalidAnswerHash { got, expected } => {
                push_mismatch(&mut out, "answer hash", got.as_slice(), expected.as_slice());
            },
            Error::InvalidNewNonceHash { got, expected } => {
                push_mismatch(&mut out, "new nonce hash", got.as_slice(), expected.as_slice());
            },
            Error::RsaEncryptionFailed => {
                push_all(&mut out, "no padding of the inner data fits the key".as_bytes());
            },
            Error::RandomUnavailable => {
                push_all(&mut out, "the operating system's random source failed".as_bytes());
            },
        }
        assert(out@ =~= spec_error_text(self@));
        crate::client::session::lenient_text(out.as_slice())
    }
}

// ─── state ───────────────────────────────────────────────────────────────────
/// State after step 1.
#[derive(Debug)]
pub struct Step1 {
    nonce: [u8; 16],
}

/// State after step 2.
#[derive(Debug)]
pub struct Step2 {
    nonce: [u8; 16],
    server_nonce: [u8; 16],
    new_nonce: [u8; 32],
}

/// State after step 3. The shared secret is kept in big-endian form.
#[derive(Debug)]
pub struct Step3 {
    nonce: [u8; 16],
    server_nonce: [u8; 16],
    new_nonce: [u8; 32],
    gab: Vec<u8>,
    time_offset: i32,
}

impl Step1 {
    /// The client's nonce.
    pub closed spec fn nonce(self) -> Seq<u8> {
        self.nonce@
    }
}

impl Step2 {
    /// The client's nonce.
    pub closed spec fn nonce(self) -> Seq<u8> {
        self.nonce@
    }

    /// The server's nonce.
    pub closed spec fn server_nonce(self) -> Seq<u8> {
        self.server_nonce@
    }

    /// The client's second, secret nonce.
    pub closed spec fn new_nonce(self) -> Seq<u8> {
        self.new_nonce@
    }
}

impl Step3 {
    /// The client's nonce.
    pub closed spec fn nonce(self) -> Seq<u8> {
        self.nonce@
    }

    /// The server's nonce.
    pub closed spec fn server_nonce(self) -> Seq<u8> {
        self.server_nonce@
    }

    /// The client's second, secret nonce.
    pub closed spec fn new_nonce(self) -> Seq<u8> {
        self.new_nonce@
    }

    /// The shared secret, big-endian.
    pub closed spec fn gab(self) -> Seq<u8> {
        self.gab@
    }

    /// Seconds that the server's clock is ahead of ours.
    pub closed spec fn time_offset(self) -> i32 {
        self.time_offset
    }
}

/// What a finished key exchange gives.
#[derive(Clone, Debug, PartialEq)]
pub struct Finished {
    /// The 256-byte authorization key.
    pub auth_key: [u8; 256],
    /// Seconds that the server's clock is ahead of ours.
    pub time_offset: i32,
    /// The first server salt.
    pub first_salt: i64,
}

// ─── checks ──────────────────────────────────────────────────────────────────
/// Accepts the nonce `got` only if it is `expected`.
pub fn check_nonce(got: &[u8; 16], expected: &[u8; 16]) -> (r: Result<(), Error>)
    ensures
        got@ == expected@ ==> r is Ok,
        got@ != expected@ ==> r is Err && r->Err_0@ == (ErrorView::InvalidNonce {
            got: got@,
            expected: expected@,
        }),
{
    if bytes_eq(got.as_slice(), expected.as_slice()) {
        Ok(())
    } else {
        Err(Error::InvalidNonce { got: *got, expected: *expected })
    }
}

/// Accepts the server nonce `got` only if it is `expected`.
pub fn check_server_nonce(got: &[u8; 16], expected: &[u8; 16]) -> (r: Result<(), Error>)
    ensures
        got@ == expected@ ==> r is Ok,
        got@ != expected@ ==> r is Err && r->Err_0@ == (ErrorView::InvalidServerNonce {
            got: got@,
            expected: expected@,
        }),
{
    if bytes_eq(got.as_slice(), expected.as_slice()) {
        Ok(())
    } else {
        Err(Error::InvalidServerNonce { got: *got, expected: *expected })
    }
}

/// Accepts the hash `got` only if it is `expected`.
pub fn check_new_nonce_hash(got: &[u8; 16], expected: &[u8; 16]) -> (r: Result<(), Error>)
    ensures
        got@ == expected@ ==> r is Ok,
        got@ != expected@ ==> r is Err && r->Err_0@ == (ErrorView::InvalidNewNonceHash {
            got: got@,
            expected: expected@,
        }),
{
    if bytes_eq(got.as_slice(), expected.as_slice()) {
        Ok(())
    } else {
        Err(Error::InvalidNewNonceHash { got: *got, expected: *expected })
    }
}

/// `lo < v < hi`.
pub open spec fn in_open_range(v: nat, lo: nat, hi: nat) -> bool {
    lo < v && v < hi
}

/// Accepts the number `val` only if it lies strictly between `lo` and `hi`.
pub fn check_g_in_range(val: &[u8], lo: &[u8], hi: &[u8]) -> (r: Result<(), Error>)
    ensures
        in_open_range(be_value(val@), be_value(lo@), be_value(hi@)) ==> r is Ok,
        !in_open_range(be_value(val@), be_value(lo@), be_value(hi@)) ==> r is Err && r->Err_0@ == (
        ErrorView::GParameterOutOfRange { value: val@, low: lo@, high: hi@ }),
{
    if less_be(lo, val) && less_be(val, hi) {
        Ok(())
    } else {
        let value = copy_range(val, 0, val.len());
        let low = copy_range(lo, 0, lo.len());
        let high = copy_range(hi, 0, hi.len());
        assert(value@ =~= val@ && low@ =~= lo@ && high@ =~= hi@);
        Err(Error::GParameterOutOfRange { value, low, high })
    }
}

// ─── the server's keys ───────────────────────────────────────────────────────
/// Fingerprint of the production key.
pub const PRODUCTION_FINGERPRINT: i64 = -3414540481677951611;

/// Fingerprint of the key of the test servers.
pub const TEST_FINGERPRINT: i64 = -5595554452916591101;

/// The production key's modulus, in decimal.
pub open spec fn production_modulus() -> Seq<char> {
    "29379598170669337022986177149456128565388431120058863768162556424047512191330847455146576344487764408661701890505066208632169112269581063774293102577308490531282748465986139880977280302242772832972539403531316010870401287642763009136156734339538042419388722777357134487746169093539093850251243897188928735903389451772730245253062963384108812842079887538976360465290946139638691491496062099570836476454855996319192747663615955633778034897140982517446405334423701359108810182097749467210509584293428076654573384828809574217079944388301239431309115013843331317877374435868468779972014486325557807783825502498215169806323"@
}

/// The test key's modulus, in decimal.
pub open spec fn test_modulus() -> Seq<char> {
    "25342889448840415564971689590713473206898847759084779052582026594546022463853940585885215951168491965708222649399180603818074200620463776135424884632162512403163793083921641631564740959529419359595852941166848940585952337613333022396096584117954892216031229237302943701877588456738335398602461675225081791820393153757504952636234951323237820036543581047826906120927972487366805292115792231423684261262330394324750785450942589751755390156647751460719351439969059949569615302809050721500330239005077889855323917509948255722081644689442127297605422579707142646660768825302832201908302295573257427896031830742328565032949"@
}

/// The public exponent of both keys, in decimal.
pub open spec fn public_exponent() -> Seq<char> {
    "65537"@
}

/// Modulus and exponent, in their shortest big-endian form, of the key
/// written in decimal digits as `n` and `e`.
pub open spec fn spec_key(n: Seq<char>, e: Seq<char>) -> Option<(Seq<u8>, Seq<u8>)> {
    Some(
        (
            min_be(crate::text::decimal_value(encode_utf8(n))),
            min_be(crate::text::decimal_value(encode_utf8(e))),
        ),
    )
}

/// The keys of the servers are written in decimal digits and nothing else.
pub proof fn lemma_keys_are_digits()
    ensures
        crate::text::digit_chars(production_modulus()),
        crate::text::digit_chars(test_modulus()),
        crate::text::digit_chars(public_exponent()),
        production_modulus().len() > 0,
        test_modulus().len() > 0,
        public_exponent().len() > 0,
{
    reveal_strlit("65537");
    reveal_strlit("29379598170669337022986177149456128565388431120058863768162556424047512191330847455146576344487764408661701890505066208632169112269581063774293102577308490531282748465986139880977280302242772832972539403531316010870401287642763009136156734339538042419388722777357134487746169093539093850251243897188928735903389451772730245253062963384108812842079887538976360465290946139638691491496062099570836476454855996319192747663615955633778034897140982517446405334423701359108810182097749467210509584293428076654573384828809574217079944388301239431309115013843331317877374435868468779972014486325557807783825502498215169806323");
    reveal_strlit("25342889448840415564971689590713473206898847759084779052582026594546022463853940585885215951168491965708222649399180603818074200620463776135424884632162512403163793083921641631564740959529419359595852941166848940585952337613333022396096584117954892216031229237302943701877588456738335398602461675225081791820393153757504952636234951323237820036543581047826906120927972487366805292115792231423684261262330394324750785450942589751755390156647751460719351439969059949569615302809050721500330239005077889855323917509948255722081644689442127297605422579707142646660768825302832201908302295573257427896031830742328565032949");
}

/// Both keys are known: a fingerprint has a key just when it is the
/// production key's or the test key's.
pub proof fn lemma_known_fingerprints(fp: i64)
    ensures
        spec_key_for_fingerprint(fp) is Some <==> (fp == PRODUCTION_FINGERPRINT || fp
            == TEST_FINGERPRINT),
{
}

/// The key with the fingerprint `fp`: the production key, the test key, or
/// none.
pub open spec fn spec_key_for_fingerprint(fp: i64) -> Option<(Seq<u8>, Seq<u8>)> {
    if fp == PRODUCTION_FINGERPRINT {
        spec_key(production_modulus(), public_exponent())
    } else if fp == TEST_FINGERPRINT {
        spec_key(test_modulus(), public_exponent())
    } else {
        None
    }
}

/// The RSA key with the fingerprint `fp`, if it is one of ours.
pub fn key_for_fingerprint(fp: i64) -> (key: Option<Key>)
    ensures
        match spec_key_for_fingerprint(fp) {
            Some((n, e)) => key is Some && key->Some_0.modulus() == n && key->Some_0.exponent()
                == e,
            None => key is None,
        },
{
    proof {
        lemma_keys_are_digits();
    }
    if fp == PRODUCTION_FINGERPRINT {
        Key::new(
            "29379598170669337022986177149456128565388431120058863768162556424047512191330847455146576344487764408661701890505066208632169112269581063774293102577308490531282748465986139880977280302242772832972539403531316010870401287642763009136156734339538042419388722777357134487746169093539093850251243897188928735903389451772730245253062963384108812842079887538976360465290946139638691491496062099570836476454855996319192747663615955633778034897140982517446405334423701359108810182097749467210509584293428076654573384828809574217079944388301239431309115013843331317877374435868468779972014486325557807783825502498215169806323",
            "65537",
        )
    } else if fp == TEST_FINGERPRINT {
        Key::new(
            "25342889448840415564971689590713473206898847759084779052582026594546022463853940585885215951168491965708222649399180603818074200620463776135424884632162512403163793083921641631564740959529419359595852941166848940585952337613333022396096584117954892216031229237302943701877588456738335398602461675225081791820393153757504952636234951323237820036543581047826906120927972487366805292115792231423684261262330394324750785450942589751755390156647751460719351439969059949569615302809050721500330239005077889855323917509948255722081644689442127297605422579707142646660768825302832201908302295573257427896031830742328565032949",
            "65537",
        )
    } else {
        None
    }
}

/// The first of `fps` that is the fingerprint of a key of ours.
pub open spec fn first_known(fps: Seq<i64>) -> Option<i64>
    decreases fps.len(),
{
    if fps.len() == 0 {
        None
    } else if spec_key_for_fingerprint(fps[0]) is Some {
        Some(fps[0])
    } else {
        first_known(fps.skip(1))
    }
}

/// Picks the first fingerprint for which we have a key.
fn pick_fingerprint(fps: &Vec<i64>) -> (r: Option<(i64, Key)>)
    ensures
        match first_known(fps@) {
            Some(fp) => r is Some && r->Some_0.0 == fp && spec_key_for_fingerprint(fp) == Some(
                (r->Some_0.1.modulus(), r->Some_0.1.exponent()),
            ),
            None => r is None,
        },
{
    let mut i: usize = 0;
    assert(fps@.skip(0) =~= fps@);
    while i < fps.len()
        invariant
            i <= fps.len(),
            first_known(fps@) == first_known(fps@.skip(i as int)),
        decreases fps.len() - i,
    {
        let fp = fps[i];
        assert(fps@.skip(i as int)[0] == fp);
        match key_for_fingerprint(fp) {
            Some(key) => {
                return Some((fp, key));
            },
            None => {
                assert(fps@.skip(i as int).skip(1) =~= fps@.skip(i as int + 1));
            },
        }
        i += 1;
    }
    assert(fps@.skip(fps.len() as int) =~= Seq::<i64>::empty());
    None
}

// ─── numbers as bytes ────────────────────────────────────────────────────────
/// The eight big-endian bytes of `v`.
pub open spec fn be64(v: u64) -> Seq<u8> {
    seq![
        ((v >> 56) & 0xff) as u8,
        ((v >> 48) & 0xff) as u8,
        ((v >> 40) & 0xff) as u8,
        ((v >> 32) & 0xff) as u8,
        ((v >> 24) & 0xff) as u8,
        ((v >> 16) & 0xff) as u8,
        ((v >> 8) & 0xff) as u8,
        (v & 0xff) as u8,
    ]
}

/// The number whose eight big-endian bytes are `s`.
pub open spec fn from_be64(s: Seq<u8>) -> u64 {
    ((s[0] as u64) << 56) | ((s[1] as u64) << 48) | ((s[2] as u64) << 40) | ((s[3] as u64) << 32)
        | ((s[4] as u64) << 24) | ((s[5] as u64) << 16) | ((s[6] as u64) << 8) | (s[7] as u64)
}

/// Number of leading zero bytes of `s`, not counting its last byte.
pub open spec fn leading_zeros(s: Seq<u8>) -> int
    decreases s.len(),
{
    if s.len() <= 1 || s[0] != 0 {
        0
    } else {
        1 + leading_zeros(s.skip(1))
    }
}

/// The big-endian bytes of `v` without leading zero bytes; one zero byte
/// for zero.
pub open spec fn spec_trim_be(v: u64) -> Seq<u8> {
    be64(v).skip(leading_zeros(be64(v)))
}

/// The big-endian bytes of `v` without leading zero bytes.
pub fn trim_be(v: u64) -> (out: Vec<u8>)
    ensures
        out@ == spec_trim_be(v),
        1 <= out@.len() <= 8,
{
    let mut all: Vec<u8> = Vec::new();
    all.push(((v >> 56) & 0xff) as u8);
    all.push(((v >> 48) & 0xff) as u8);
    all.push(((v >> 40) & 0xff) as u8);
    all.push(((v >> 32) & 0xff) as u8);
    all.push(((v >> 24) & 0xff) as u8);
    all.push(((v >> 16) & 0xff) as u8);
    all.push(((v >> 8) & 0xff) as u8);
    all.push((v & 0xff) as u8);
    assert(all@ =~= be64(v));
    let mut skip: usize = 0;
    assert(all@.skip(0) =~= all@);
    while skip < 7 && all[skip] == 0
        invariant
            skip <= 7,
            all@.len() == 8,
            leading_zeros(all@) == skip + leading_zeros(all@.skip(skip as int)),
        decreases 7 - skip,
    {
        assert(all@.skip(skip as int).skip(1) =~= all@.skip(skip as int + 1));
        skip += 1;
    }
    assert(leading_zeros(all@.skip(skip as int)) == 0);
    copy_range(all.as_slice(), skip, 8)
}

/// Reads eight big-endian bytes as a number.
pub fn read_be64(data: &[u8]) -> (v: u64)
    requires
        data@.len() == 8,
    ensures
        v == from_be64(data@),
{
    ((data[0] as u64) << 56) | ((data[1] as u64) << 48) | ((data[2] as u64) << 40) | ((
    data[3] as u64) << 32) | ((data[4] as u64) << 24) | ((data[5] as u64) << 16) | ((data[6] as u64)
        << 8) | (data[7] as u64)
}

// ─── step 1 ──────────────────────────────────────────────────────────────────
/// Step 1 with the nonce `random`: the request `req_pq_multi` and the state.
pub fn do_step1(random: &[u8; 16]) -> (r: Result<(functions::ReqPqMulti, Step1), Error>)
    ensures
        r is Ok,
        r->Ok_0.0.nonce@ == random@,
        r->Ok_0.1.nonce() == random@,
{
    let nonce = *random;
    Ok((functions::ReqPqMulti { nonce }, Step1 { nonce }))
}

/// Step 1 with a random nonce. It fails only where the system gives no
/// random bytes.
pub fn step1() -> (r: Result<(functions::ReqPqMulti, Step1), Error>)
    ensures
        r is Ok ==> r->Ok_0.0.nonce@ == r->Ok_0.1.nonce(),
        r is Err ==> r->Err_0 is RandomUnavailable,
{
    match random_array::<16>() {
        Ok(random) => do_step1(&random),
        Err(_) => Err(Error::RandomUnavailable),
    }
}

// ─── step 2 ──────────────────────────────────────────────────────────────────
/// What step 2 gives on success.
pub struct Step2View {
    pub nonce: Seq<u8>,
    pub server_nonce: Seq<u8>,
    pub p: Seq<u8>,
    pub q: Seq<u8>,
    pub public_key_fingerprint: i64,
    pub encrypted_data: Seq<u8>,
    pub new_nonce: Seq<u8>,
}

/// The inner data of step 2 in binary form.
pub open spec fn spec_pq_inner(
    pq: Seq<u8>,
    p: u64,
    q: u64,
    nonce: Seq<u8>,
    server_nonce: Seq<u8>,
    new_nonce: Seq<u8>,
) -> Seq<u8> {
    enums::PQInnerData::ser(
        PQInnerDataView::PQInnerData(
            (pq, spec_trim_be(p), spec_trim_be(q), nonce, server_nonce, new_nonce),
        ),
    )
}

/// Step 2, given the factors `p` and `q` of the server's product: the
/// echoed nonce is checked, then the product's size; the new nonce is the
/// first 32 random bytes; the inner data is encrypted with RSA-PAD, fed with
/// the other 224 random bytes, under the first key of ours that the server
/// accepts.
pub open spec fn spec_step2(nonce: Seq<u8>, res: types::ResPq, random: Seq<u8>, p: u64, q: u64) -> Result<
    Step2View,
    ErrorView,
> {
    if res.nonce@ != nonce {
        Err(ErrorView::InvalidNonce { got: res.nonce@, expected: nonce })
    } else if res.pq@.len() != 8 {
        Err(ErrorView::InvalidPqSize { size: res.pq.len() })
    } else {
        let new_nonce = random.take(32);
        let inner = spec_pq_inner(res.pq@, p, q, nonce, res.server_nonce@, new_nonce);
        match first_known(res.server_public_key_fingerprints@) {
            None => Err(
                ErrorView::UnknownFingerprints {
                    fingerprints: res.server_public_key_fingerprints@,
                },
            ),
            Some(fp) => {
                let key = spec_key_for_fingerprint(fp)->Some_0;
                match spec_encrypt_hashed(inner, key.0, key.1, random.skip(32)) {
                    None => Err(ErrorView::RsaEncryptionFailed),
                    Some(c) => Ok(
                        Step2View {
                            nonce,
                            server_nonce: res.server_nonce@,
                            p: spec_trim_be(p),
                            q: spec_trim_be(q),
                            public_key_fingerprint: fp,
                            encrypted_data: c,
                            new_nonce,
                        },
                    ),
                }
            },
        }
    }
}

/// `r` is the outcome `expected` of step 2.
pub open spec fn step2_is(
    r: Result<(functions::ReqDhParams, Step2), Error>,
    expected: Result<Step2View, ErrorView>,
) -> bool {
    match expected {
        Ok(v) => r is Ok && {
            let (req, state) = r->Ok_0;
            &&& req.nonce@ == v.nonce
            &&& req.server_nonce@ == v.server_nonce
            &&& req.p@ == v.p
            &&& req.q@ == v.q
            &&& req.public_key_fingerprint == v.public_key_fingerprint
            &&& req.encrypted_data@ == v.encrypted_data
            &&& state.nonce() == v.nonce
            &&& state.server_nonce() == v.server_nonce
            &&& state.new_nonce() == v.new_nonce
        },
        Err(e) => r is Err && r->Err_0@ == e,
    }
}

/// Step 2 with the factors already found.
pub fn do_step2_with_factors(
    data: Step1,
    res_pq: types::ResPq,
    random: &[u8; 256],
    p: u64,
    q: u64,
) -> (r: Result<(functions::ReqDhParams, Step2), Error>)
    ensures
        step2_is(r, spec_step2(data.nonce(), res_pq, random@, p, q)),
{
    let nonce = data.nonce;
    match check_nonce(&res_pq.nonce, &nonce) {
        Ok(()) => {},
        Err(e) => {
            return Err(e);
        },
    }
    if res_pq.pq.len() != 8 {
        return Err(Error::InvalidPqSize { size: res_pq.pq.len() });
    }
    let new_nonce: [u8; 32] = load_array::<32>(random.as_slice(), 0);
    assert(new_nonce@ =~= random@.take(32));
    let rnd224: [u8; 224] = load_array::<224>(random.as_slice(), 32);
    assert(rnd224@ =~= random@.skip(32));
    let p_bytes = trim_be(p);
    let q_bytes = trim_be(q);
    let p_copy = copy_range(p_bytes.as_slice(), 0, p_bytes.len());
    let q_copy = copy_range(q_bytes.as_slice(), 0, q_bytes.len());
    assert(p_copy@ =~= p_bytes@);
    assert(q_copy@ =~= q_bytes@);
    let pq_copy = copy_range(res_pq.pq.as_slice(), 0, 8);
    assert(pq_copy@ =~= res_pq.pq@);
    let inner = enums::PQInnerData::PQInnerData(
        types::PQInnerData {
            pq: pq_copy,
            p: p_copy,
            q: q_copy,
            nonce,
            server_nonce: res_pq.server_nonce,
            new_nonce,
        },
    );
    let pq_inner = inner.to_bytes();
    proof {
        assert(inner.deep_view() == PQInnerDataView::PQInnerData(
            (
                res_pq.pq@,
                spec_trim_be(p),
                spec_trim_be(q),
                nonce@,
                res_pq.server_nonce@,
                new_nonce@,
            ),
        )) by {
            assert(pq_copy.deep_view() =~= pq_copy@);
            assert(p_copy.deep_view() =~= p_copy@);
            assert(q_copy.deep_view() =~= q_copy@);
            assert(nonce.deep_view() =~= nonce@);
            assert(res_pq.server_nonce.deep_view() =~= res_pq.server_nonce@);
            assert(new_nonce.deep_view() =~= new_nonce@);
        }
        crate::tl::roundtrip::lemma_bytes_aligned(res_pq.pq@);
        crate::tl::roundtrip::lemma_bytes_aligned(spec_trim_be(p));
        crate::tl::roundtrip::lemma_bytes_aligned(spec_trim_be(q));
        assert(pq_inner@.len() <= 144);
    }
    let (fingerprint, key) = match pick_fingerprint(&res_pq.server_public_key_fingerprints) {
        Some(found) => found,
        None => {
            let fps = &res_pq.server_public_key_fingerprints;
            let mut copy: Vec<i64> = Vec::new();
            let mut i: usize = 0;
            while i < fps.len()
                invariant
                    i <= fps.len(),
                    copy@ == fps@.take(i as int),
                decreases fps.len() - i,
            {
                copy.push(fps[i]);
                assert(fps@.take(i as int + 1) =~= fps@.take(i as int).push(fps@[i as int]));
                i += 1;
            }
            assert(fps@.take(fps.len() as int) =~= fps@);
            return Err(Error::UnknownFingerprints { fingerprints: copy });
        },
    };
    let ciphertext = match encrypt_hashed(pq_inner.as_slice(), &key, &rnd224) {
        Some(c) => c,
        None => {
            return Err(Error::RsaEncryptionFailed);
        },
    };
    Ok(
        (
            functions::ReqDhParams {
                nonce,
                server_nonce: res_pq.server_nonce,
                p: p_bytes,
                q: q_bytes,
                public_key_fingerprint: fingerprint,
                encrypted_data: ciphertext,
            },
            Step2 { nonce, server_nonce: res_pq.server_nonce, new_nonce },
        ),
    )
}

/// The constructor inside the boxed answer to step 1.
pub open spec fn res_pq_of(response: enums::ResPq) -> types::ResPq {
    match response {
        enums::ResPq::ResPq(res) => res,
    }
}

/// The factors that step 2 works with: those that `factorize` gives for
/// the server's product of eight bytes; zero and zero for a product of
/// another length, which the step refuses.
pub open spec fn spec_factors(res: types::ResPq) -> (u64, u64) {
    if res.pq@.len() == 8 {
        let found = crate::crypto::factorize::spec_factorize(from_be64(res.pq@) as int);
        (found.0 as u64, found.1 as u64)
    } else {
        (0, 0)
    }
}

/// Step 2 with the random bytes `random`: factorizes the server's product
/// and goes on as `do_step2_with_factors` says, with the factors found.
pub fn do_step2(data: Step1, response: enums::ResPq, random: &[u8; 256]) -> (r: Result<
    (functions::ReqDhParams, Step2),
    Error,
>)
    ensures
        step2_is(
            r,
            spec_step2(
                data.nonce(),
                res_pq_of(response),
                random@,
                spec_factors(res_pq_of(response)).0,
                spec_factors(res_pq_of(response)).1,
            ),
        ),
{
    let res_pq = match response {
        enums::ResPq::ResPq(x) => x,
    };
    let (p, q) = if res_pq.pq.len() == 8 {
        factorize(read_be64(res_pq.pq.as_slice()))
    } else {
        (0, 0)
    };
    let ghost res = res_pq;
    let r = do_step2_with_factors(data, res_pq, random, p, q);
    assert(res_pq_of(response) == res);
    assert(step2_is(r, spec_step2(data.nonce(), res_pq_of(response), random@, p, q)));
    r
}

/// Step 2 with fresh random bytes.
pub fn step2(data: Step1, response: enums::ResPq) -> (r: Result<
    (functions::ReqDhParams, Step2),
    Error,
>)
    ensures
        (r is Err && r->Err_0 is RandomUnavailable) || exists|random: Seq<u8>|
            random.len() == 256 && #[trigger] step2_is(
                r,
                spec_step2(
                    data.nonce(),
                    res_pq_of(response),
                    random,
                    spec_factors(res_pq_of(response)).0,
                    spec_factors(res_pq_of(response)).1,
                ),
            ),
{
    let random: [u8; 256] = match random_array::<256>() {
        Ok(random) => random,
        Err(_) => {
            return Err(Error::RandomUnavailable);
        },
    };
    let r = do_step2(data, response, &random);
    assert(random@.len() == 256);
    r
}

// ─── step 3 ──────────────────────────────────────────────────────────────────
/// What step 3 gives on success.
pub struct Step3View {
    pub nonce: Seq<u8>,
    pub server_nonce: Seq<u8>,
    pub new_nonce: Seq<u8>,
    pub encrypted_data: Seq<u8>,
    pub gab: Seq<u8>,
    pub time_offset: i32,
}

/// The width of the band that `g_a` and `g_b` must keep off both ends of the
/// range: 2 to the power 2048 − 64, big-endian.
pub open spec fn safety_be() -> Seq<u8> {
    seq![1u8] + zeros(248)
}

/// The number one, big-endian.
pub open spec fn one_be() -> Seq<u8> {
    seq![1u8]
}

/// `a − b`, or zero where that would be negative.
pub open spec fn minus(a: nat, b: nat) -> nat {
    if a >= b {
        (a - b) as nat
    } else {
        0
    }
}

/// The error for the number `value` outside the range from `low` to `high`.
pub open spec fn out_of_range(value: Seq<u8>, low: Seq<u8>, high: Seq<u8>) -> ErrorView {
    ErrorView::GParameterOutOfRange { value, low, high }
}

/// Number of padding bytes behind the 20-byte digest and `len` bytes of
/// inner data, to make whole blocks.
pub open spec fn dh_pad_len(len: int) -> int {
    (16 - (20 + len) % 16) % 16
}

/// What the server's refusal to send DH parameters leads to: the error for
/// the first check that fails, else `DhParamsFail`.
pub open spec fn spec_step3_fail(state: Step2, f: types::ServerDhParamsFail) -> ErrorView {
    if f.nonce@ != state.nonce() {
        ErrorView::InvalidNonce { got: f.nonce@, expected: state.nonce() }
    } else if f.server_nonce@ != state.server_nonce() {
        ErrorView::InvalidServerNonce { got: f.server_nonce@, expected: state.server_nonce() }
    } else {
        let expected = spec_sha1(state.new_nonce()).subrange(4, 20);
        if f.new_nonce_hash@ != expected {
            ErrorView::InvalidNewNonceHash { got: f.new_nonce_hash@, expected }
        } else {
            ErrorView::DhParamsFail
        }
    }
}

/// The DH exchange proper. The generator `g`, then `g_a`, then `g_b` must
/// lie strictly between 1 and `p − 1`; `g_a` and `g_b` must also keep the
/// safety band off both ends. The secret exponent is the first 256 random
/// bytes; the padding of the encrypted inner data comes from the bytes
/// behind them.
pub open spec fn spec_dh_exchange(
    state: Step2,
    key: Seq<u8>,
    iv: Seq<u8>,
    g: i32,
    dh_prime: Seq<u8>,
    g_a: Seq<u8>,
    server_time: i32,
    random: Seq<u8>,
    now: i32,
) -> Result<Step3View, ErrorView> {
    let p = be_value(dh_prime);
    let high = min_be(minus(p, 1));
    if g < 0 {
        Err(out_of_range(Seq::empty(), one_be(), high))
    } else {
        let g_be = spec_trim_be(g as u64);
        if !in_open_range(be_value(g_be), be_value(one_be()), be_value(high)) {
            Err(out_of_range(g_be, one_be(), high))
        } else {
            let b = random.take(256);
            let g_b = min_be(spec_modpow(be_value(g_be), be_value(b), p));
            let gab = min_be(spec_modpow(be_value(g_a), be_value(b), p));
            let high2 = min_be(minus(p, be_value(safety_be())));
            if !in_open_range(be_value(g_a), be_value(one_be()), be_value(high)) {
                Err(out_of_range(g_a, one_be(), high))
            } else if !in_open_range(be_value(g_b), be_value(one_be()), be_value(high)) {
                Err(out_of_range(g_b, one_be(), high))
            } else if !in_open_range(be_value(g_a), be_value(safety_be()), be_value(high2)) {
                Err(out_of_range(g_a, safety_be(), high2))
            } else if !in_open_range(be_value(g_b), be_value(safety_be()), be_value(high2)) {
                Err(out_of_range(g_b, safety_be(), high2))
            } else {
                let inner = enums::ClientDhInnerData::ser(
                    ClientDhInnerDataView::ClientDhInnerData(
                        (state.nonce(), state.server_nonce(), 0i64, g_b),
                    ),
                );
                let hashed = spec_sha1(inner) + inner + random.subrange(
                    256,
                    256 + dh_pad_len(inner.len() as int),
                );
                Ok(
                    Step3View {
                        nonce: state.nonce(),
                        server_nonce: state.server_nonce(),
                        new_nonce: state.new_nonce(),
                        encrypted_data: spec_ige_encrypt(key, iv, hashed),
                        gab,
                        time_offset: server_time.wrapping_sub(now),
                    },
                )
            }
        }
    }
}

/// What the server's DH parameters lead to. Both nonces are checked, then
/// the answer's length; the answer is decrypted under the key and IV that
/// the nonces give; its first 20 bytes must be the SHA-1 digest of the inner
/// data behind them; the inner data must carry both nonces; then the
/// exchange proper follows. An answer too short to hold the digest counts as
/// inner data that ends too early.
pub open spec fn spec_step3_ok(
    state: Step2,
    x: types::ServerDhParamsOk,
    random: Seq<u8>,
    now: i32,
) -> Result<Step3View, ErrorView> {
    if x.nonce@ != state.nonce() {
        Err(ErrorView::InvalidNonce { got: x.nonce@, expected: state.nonce() })
    } else if x.server_nonce@ != state.server_nonce() {
        Err(
            ErrorView::InvalidServerNonce { got: x.server_nonce@, expected: state.server_nonce() },
        )
    } else if x.encrypted_answer@.len() % 16 != 0 {
        Err(ErrorView::EncryptedResponseNotPadded { len: x.encrypted_answer.len() })
    } else {
        let (key, iv) = spec_key_data_from_nonce(state.server_nonce(), state.new_nonce());
        let plain = spec_ige_decrypt(key, iv, x.encrypted_answer@);
        if plain.len() < 20 {
            Err(
                ErrorView::InvalidDhInnerData {
                    error: crate::tl::deserialize::Error::UnexpectedEof,
                },
            )
        } else {
            match enums::ServerDhInnerData::parse(plain.skip(20)) {
                Err(e) => Err(ErrorView::InvalidDhInnerData { error: e }),
                Ok((ServerDhInnerDataView::ServerDhInnerData(inner), used)) => {
                    let got = plain.take(20);
                    let expected = spec_sha1(plain.subrange(20, 20 + used));
                    if got != expected {
                        Err(ErrorView::InvalidAnswerHash { got, expected })
                    } else if inner.0 != state.nonce() {
                        Err(ErrorView::InvalidNonce { got: inner.0, expected: state.nonce() })
                    } else if inner.1 != state.server_nonce() {
                        Err(
                            ErrorView::InvalidServerNonce {
                                got: inner.1,
                                expected: state.server_nonce(),
                            },
                        )
                    } else {
                        spec_dh_exchange(
                            state,
                            key,
                            iv,
                            inner.2,
                            inner.3,
                            inner.4,
                            inner.5,
                            random,
                            now,
                        )
                    }
                },
            }
        }
    }
}

/// What step 3 gives for the server's answer `response`.
pub open spec fn spec_step3(
    state: Step2,
    response: enums::ServerDhParams,
    random: Seq<u8>,
    now: i32,
) -> Result<Step3View, ErrorView> {
    match response {
        enums::ServerDhParams::Fail(f) => Err(spec_step3_fail(state, f)),
        enums::ServerDhParams::ParamsOk(x) => spec_step3_ok(state, x, random, now),
    }
}

/// `r` is the outcome `expected` of step 3.
pub open spec fn step3_is(
    r: Result<(functions::SetClientDhParams, Step3), Error>,
    expected: Result<Step3View, ErrorView>,
) -> bool {
    match expected {
        Ok(v) => r is Ok && {
            let (req, state) = r->Ok_0;
            &&& req.nonce@ == v.nonce
            &&& req.server_nonce@ == v.server_nonce
            &&& req.encrypted_data@ == v.encrypted_data
            &&& state.nonce() == v.nonce
            &&& state.server_nonce() == v.server_nonce
            &&& state.new_nonce() == v.new_nonce
            &&& state.gab() == v.gab
            &&& state.time_offset() == v.time_offset
        },
        Err(e) => r is Err && r->Err_0@ == e,
    }
}

/// The big-endian form of `p − b`, or of zero where `p` is below `b`.
fn minus_be(p: &[u8], b: &[u8]) -> (out: Vec<u8>)
    ensures
        out@ == min_be(minus(be_value(p@), be_value(b@))),
{
    if less_be(p, b) {
        let mut zero: Vec<u8> = Vec::new();
        zero.push(0u8);
        assert(zero@ =~= min_be(0));
        zero
    } else {
        sub_be(p, b)
    }
}

/// The exchange proper of step 3.
#[verifier::rlimit(100)]
fn dh_exchange(
    state: Step2,
    key: &[u8; 32],
    iv: &[u8; 32],
    inner: types::ServerDhInnerData,
    random: &[u8; 272],
    now: i32,
) -> (r: Result<(functions::SetClientDhParams, Step3), Error>)
    ensures
        step3_is(
            r,
            spec_dh_exchange(
                state,
                key@,
                iv@,
                inner.g,
                inner.dh_prime@,
                inner.g_a@,
                inner.server_time,
                random@,
                now,
            ),
        ),
{
    let Step2 { nonce, server_nonce, new_nonce } = state;
    let dh_prime = inner.dh_prime.as_slice();
    let g_a = inner.g_a.as_slice();
    let one: [u8; 1] = [1u8];
    assert(one@ =~= one_be());
    let high = minus_be(dh_prime, one.as_slice());
    proof {
        lemma_be_value_single(1u8);
        lemma_min_be(minus(be_value(dh_prime@), 1));
    }
    if inner.g < 0 {
        let value: Vec<u8> = Vec::new();
        let low = copy_range(one.as_slice(), 0, 1);
        assert(low@ =~= one_be());
        return Err(Error::GParameterOutOfRange { value, low, high });
    }
    let g_be = trim_be(inner.g as u64);
    match check_g_in_range(g_be.as_slice(), one.as_slice(), high.as_slice()) {
        Ok(()) => {},
        Err(e) => {
            return Err(e);
        },
    }
    let b = copy_range(random.as_slice(), 0, 256);
    assert(b@ =~= random@.take(256));
    let g_b = modpow_be(g_be.as_slice(), b.as_slice(), dh_prime);
    let gab = modpow_be(g_a, b.as_slice(), dh_prime);
    match check_g_in_range(g_a, one.as_slice(), high.as_slice()) {
        Ok(()) => {},
        Err(e) => {
            return Err(e);
        },
    }
    match check_g_in_range(g_b.as_slice(), one.as_slice(), high.as_slice()) {
        Ok(()) => {},
        Err(e) => {
            return Err(e);
        },
    }
    let mut safety: Vec<u8> = Vec::new();
    safety.push(1u8);
    let mut i: usize = 0;
    while i < 248
        invariant
            i <= 248,
            safety@ == seq![1u8] + zeros(i as int),
        decreases 248 - i,
    {
        safety.push(0u8);
        assert(safety@ =~= seq![1u8] + zeros(i as int + 1));
        i += 1;
    }
    let high2 = minus_be(dh_prime, safety.as_slice());
    match check_g_in_range(g_a, safety.as_slice(), high2.as_slice()) {
        Ok(()) => {},
        Err(e) => {
            return Err(e);
        },
    }
    match check_g_in_range(g_b.as_slice(), safety.as_slice(), high2.as_slice()) {
        Ok(()) => {},
        Err(e) => {
            return Err(e);
        },
    }
    let ghost g_b_seq = g_b@;
    let client_inner = enums::ClientDhInnerData::ClientDhInnerData(
        types::ClientDhInnerData { nonce, server_nonce, retry_id: 0, g_b },
    );
    proof {
        assert(client_inner.deep_view() == ClientDhInnerDataView::ClientDhInnerData(
            (nonce@, server_nonce@, 0i64, g_b_seq),
        )) by {
            assert(nonce.deep_view() =~= nonce@);
            assert(server_nonce.deep_view() =~= server_nonce@);
            assert(client_inner->ClientDhInnerData_0.g_b.deep_view() =~= g_b_seq);
        }
    }
    let inner_bytes = client_inner.to_bytes();
    let digest = sha1(inner_bytes.as_slice());
    let len = inner_bytes.len();
    let pad_len: usize = (16 - ((4 + len % 16) % 16)) % 16;
    assert(pad_len == dh_pad_len(len as int));
    let mut hashed: Vec<u8> = Vec::new();
    push_all(&mut hashed, digest.as_slice());
    push_all(&mut hashed, inner_bytes.as_slice());
    let padding = copy_range(random.as_slice(), 256, 256 + pad_len);
    push_all(&mut hashed, padding.as_slice());
    assert(hashed@.len() % 16 == 0);
    ige_encrypt(hashed.as_mut_slice(), key, iv);
    let time_offset = inner.server_time.wrapping_sub(now);
    Ok(
        (
            functions::SetClientDhParams { nonce, server_nonce, encrypted_data: hashed },
            Step3 { nonce, server_nonce, new_nonce, gab, time_offset },
        ),
    )
}

/// Step 3 with the random bytes `random` and the clock at `now` seconds:
/// the request `set_client_DH_params` and the state, or the error of the
/// first check that fails.
pub fn do_step3(data: Step2, response: enums::ServerDhParams, random: &[u8; 272], now: i32) -> (r:
    Result<(functions::SetClientDhParams, Step3), Error>)
    ensures
        step3_is(r, spec_step3(data, response, random@, now)),
{
    let x = match response {
        enums::ServerDhParams::Fail(f) => {
            match check_nonce(&f.nonce, &data.nonce) {
                Ok(()) => {},
                Err(e) => {
                    return Err(e);
                },
            }
            match check_server_nonce(&f.server_nonce, &data.server_nonce) {
                Ok(()) => {},
                Err(e) => {
                    return Err(e);
                },
            }
            let digest = sha1(data.new_nonce.as_slice());
            let expected: [u8; 16] = load_array::<16>(digest.as_slice(), 4);
            match check_new_nonce_hash(&f.new_nonce_hash, &expected) {
                Ok(()) => {},
                Err(e) => {
                    return Err(e);
                },
            }
            return Err(Error::DhParamsFail);
        },
        enums::ServerDhParams::ParamsOk(x) => x,
    };
    match check_nonce(&x.nonce, &data.nonce) {
        Ok(()) => {},
        Err(e) => {
            return Err(e);
        },
    }
    match check_server_nonce(&x.server_nonce, &data.server_nonce) {
        Ok(()) => {},
        Err(e) => {
            return Err(e);
        },
    }
    if x.encrypted_answer.len() % 16 != 0 {
        return Err(Error::EncryptedResponseNotPadded { len: x.encrypted_answer.len() });
    }
    let (key, iv) = generate_key_data_from_nonce(&data.server_nonce, &data.new_nonce);
    let mut plain = copy_range(x.encrypted_answer.as_slice(), 0, x.encrypted_answer.len());
    assert(plain@ =~= x.encrypted_answer@);
    ige_decrypt(plain.as_mut_slice(), &key, &iv);
    if plain.len() < 20 {
        return Err(
            Error::InvalidDhInnerData { error: crate::tl::deserialize::Error::UnexpectedEof },
        );
    }
    let got_hash: [u8; 20] = load_array::<20>(plain.as_slice(), 0);
    assert(got_hash@ =~= plain@.take(20));
    let tail = copy_range(plain.as_slice(), 20, plain.len());
    assert(tail@ =~= plain@.skip(20));
    let mut cursor = Cursor::from_slice(tail.as_slice());
    assert(cursor.rest() =~= tail@);
    let inner = match enums::ServerDhInnerData::deserialize(&mut cursor) {
        Ok(enums::ServerDhInnerData::ServerDhInnerData(inner)) => inner,
        Err(e) => {
            return Err(Error::InvalidDhInnerData { error: e });
        },
    };
    let used = cursor.pos();
    let content = copy_range(tail.as_slice(), 0, used);
    assert(content@ =~= plain@.subrange(20, 20 + used));
    let expected_hash = sha1(content.as_slice());
    if !bytes_eq(got_hash.as_slice(), expected_hash.as_slice()) {
        return Err(Error::InvalidAnswerHash { got: got_hash, expected: expected_hash });
    }
    proof {
        assert(inner.nonce.deep_view() =~= inner.nonce@);
        assert(inner.server_nonce.deep_view() =~= inner.server_nonce@);
        assert(inner.dh_prime.deep_view() =~= inner.dh_prime@);
        assert(inner.g_a.deep_view() =~= inner.g_a@);
    }
    match check_nonce(&inner.nonce, &data.nonce) {
        Ok(()) => {},
        Err(e) => {
            return Err(e);
        },
    }
    match check_server_nonce(&inner.server_nonce, &data.server_nonce) {
        Ok(()) => {},
        Err(e) => {
            return Err(e);
        },
    }
    dh_exchange(data, &key, &iv, inner, random, now)
}

/// Step 3 with fresh random bytes and the system's clock.
pub fn step3(data: Step2, response: enums::ServerDhParams) -> (r: Result<
    (functions::SetClientDhParams, Step3),
    Error,
>)
    ensures
        (r is Err && r->Err_0 is RandomUnavailable) || exists|random: Seq<u8>, now: i32|
            random.len() == 272 && #[trigger] step3_is(r, spec_step3(data, response, random, now)),
{
    let random: [u8; 272] = match random_array::<272>() {
        Ok(random) => random,
        Err(_) => {
            return Err(Error::RandomUnavailable);
        },
    };
    let (secs, _) = unix_time();
    let now: i32 = #[verifier::truncate] (secs as i32);
    let r = do_step3(data, response, &random, now);
    assert(random@.len() == 272);
    r
}

// ─── finish ──────────────────────────────────────────────────────────────────
/// What a finished exchange gives, as contracts see it.
pub struct FinishedView {
    pub auth_key: Seq<u8>,
    pub time_offset: i32,
    pub first_salt: i64,
}

/// The nonces, the hash and the number of the server's last answer.
pub open spec fn answer_parts(answer: enums::SetClientDhParamsAnswer) -> (
    Seq<u8>,
    Seq<u8>,
    Seq<u8>,
    u8,
) {
    match answer {
        enums::SetClientDhParamsAnswer::DhGenOk(x) => (
            x.nonce@,
            x.server_nonce@,
            x.new_nonce_hash1@,
            1u8,
        ),
        enums::SetClientDhParamsAnswer::DhGenRetry(x) => (
            x.nonce@,
            x.server_nonce@,
            x.new_nonce_hash2@,
            2u8,
        ),
        enums::SetClientDhParamsAnswer::DhGenFail(x) => (
            x.nonce@,
            x.server_nonce@,
            x.new_nonce_hash3@,
            3u8,
        ),
    }
}

/// The first server salt: the first eight bytes of the new nonce XORed with
/// those of the server nonce, read as a little-endian integer.
pub open spec fn spec_first_salt(new_nonce: Seq<u8>, server_nonce: Seq<u8>) -> i64 {
    as_i64(from_le64(xor_bytes(new_nonce.take(8), server_nonce.take(8))))
}

/// The largest shared secret that fits the key, plus one: 2 to the power
/// 2048, big-endian.
pub open spec fn key_limit_be() -> Seq<u8> {
    seq![1u8] + zeros(256)
}

/// What the server's last answer leads to. Both nonces are checked; the
/// key is the shared secret in 256 bytes, which a longer secret does not
/// fit; the answer's hash must be the one the key gives for the answer's
/// number; then `dh_gen_ok` gives the key, and the other two answers their
/// errors.
pub open spec fn spec_finish(state: Step3, answer: enums::SetClientDhParamsAnswer) -> Result<
    FinishedView,
    ErrorView,
> {
    let (nonce, server_nonce, hash, number) = answer_parts(answer);
    if nonce != state.nonce() {
        Err(ErrorView::InvalidNonce { got: nonce, expected: state.nonce() })
    } else if server_nonce != state.server_nonce() {
        Err(ErrorView::InvalidServerNonce { got: server_nonce, expected: state.server_nonce() })
    } else if state.gab().len() > 256 {
        Err(out_of_range(state.gab(), seq![0u8], key_limit_be()))
    } else {
        let key = left_pad(state.gab(), 256);
        let expected = spec_new_nonce_hash(key, state.new_nonce(), number);
        if hash != expected {
            Err(ErrorView::InvalidNewNonceHash { got: hash, expected })
        } else if number == 1 {
            Ok(
                FinishedView {
                    auth_key: key,
                    time_offset: state.time_offset(),
                    first_salt: spec_first_salt(state.new_nonce(), state.server_nonce()),
                },
            )
        } else if number == 2 {
            Err(ErrorView::DhGenRetry)
        } else {
            Err(ErrorView::DhGenFail)
        }
    }
}

/// Ends the key exchange: the authorization key, the first salt and the
/// time offset, or the error of the first check that fails.
pub fn finish(data: Step3, response: enums::SetClientDhParamsAnswer) -> (r: Result<Finished, Error>)
    ensures
        match spec_finish(data, response) {
            Ok(v) => r is Ok && r->Ok_0.auth_key@ == v.auth_key && r->Ok_0.time_offset
                == v.time_offset && r->Ok_0.first_salt == v.first_salt,
            Err(e) => r is Err && r->Err_0@ == e,
        },
{
    let Step3 { nonce, server_nonce, new_nonce, gab, time_offset } = data;
    let (a_nonce, a_server_nonce, hash, number): ([u8; 16], [u8; 16], [u8; 16], u8) =
        match response {
        enums::SetClientDhParamsAnswer::DhGenOk(x) => (
            x.nonce,
            x.server_nonce,
            x.new_nonce_hash1,
            1,
        ),
        enums::SetClientDhParamsAnswer::DhGenRetry(x) => (
            x.nonce,
            x.server_nonce,
            x.new_nonce_hash2,
            2,
        ),
        enums::SetClientDhParamsAnswer::DhGenFail(x) => (
            x.nonce,
            x.server_nonce,
            x.new_nonce_hash3,
            3,
        ),
    };
    match check_nonce(&a_nonce, &nonce) {
        Ok(()) => {},
        Err(e) => {
            return Err(e);
        },
    }
    match check_server_nonce(&a_server_nonce, &server_nonce) {
        Ok(()) => {},
        Err(e) => {
            return Err(e);
        },
    }
    if gab.len() > 256 {
        let mut low: Vec<u8> = Vec::new();
        low.push(0u8);
        let mut high: Vec<u8> = Vec::new();
        high.push(1u8);
        let mut i: usize = 0;
        while i < 256
            invariant
                i <= 256,
                high@ == seq![1u8] + zeros(i as int),
            decreases 256 - i,
        {
            high.push(0u8);
            assert(high@ =~= seq![1u8] + zeros(i as int + 1));
            i += 1;
        }
        assert(low@ =~= seq![0u8]);
        return Err(Error::GParameterOutOfRange { value: gab, low, high });
    }
    let mut padded: Vec<u8> = Vec::new();
    padded.resize(256 - gab.len(), 0u8);
    assert(padded@ =~= zeros(256 - gab@.len()));
    push_all(&mut padded, gab.as_slice());
    assert(padded@ =~= left_pad(gab@, 256));
    let key_bytes: [u8; 256] = load_array::<256>(padded.as_slice(), 0);
    assert(key_bytes@ =~= padded@);
    let auth_key = AuthKey::from_bytes(key_bytes);
    let expected = auth_key.calc_new_nonce_hash(&new_nonce, number);
    match check_new_nonce_hash(&hash, &expected) {
        Ok(()) => {},
        Err(e) => {
            return Err(e);
        },
    }
    let mut mixed: Vec<u8> = Vec::new();
    let mut i: usize = 0;
    while i < 8
        invariant
            i <= 8,
            mixed@.len() == i,
            forall|k: int| 0 <= k < i ==> mixed@[k] == new_nonce@[k] ^ server_nonce@[k],
        decreases 8 - i,
    {
        mixed.push(new_nonce[i] ^ server_nonce[i]);
        i += 1;
    }
    assert(mixed@ =~= xor_bytes(new_nonce@.take(8), server_nonce@.take(8)));
    let first_salt = #[verifier::truncate] (read_le64(mixed.as_slice(), 0) as i64);
    assert(mixed@.skip(0) =~= mixed@);
    if number == 1 {
        Ok(Finished { auth_key: auth_key.to_bytes(), time_offset, first_salt })
    } else if number == 2 {
        Err(Error::DhGenRetry)
    } else {
        Err(Error::DhGenFail)
    }
}

// ─── what the checks guarantee ───────────────────────────────────────────────
/// A `resPQ` that does not carry our nonce ends step 2 with `InvalidNonce`,
/// whatever else it holds.
pub proof fn lemma_step2_checks_nonce(nonce: Seq<u8>, res: types::ResPq, random: Seq<u8>, p: u64, q: u64)
    requires
        res.nonce@ != nonce,
    ensures
        spec_step2(nonce, res, random, p, q) == Err::<Step2View, ErrorView>(
            ErrorView::InvalidNonce { got: res.nonce@, expected: nonce },
        ),
{
}

/// An answer to step 2 that does not carry our nonce ends step 3 with
/// `InvalidNonce`; one that carries it but another server nonce ends it
/// with `InvalidServerNonce`.
pub proof fn lemma_step3_checks_nonces(
    state: Step2,
    response: enums::ServerDhParams,
    random: Seq<u8>,
    now: i32,
)
    ensures
        ({
            let (nonce, server_nonce) = match response {
                enums::ServerDhParams::Fail(f) => (f.nonce@, f.server_nonce@),
                enums::ServerDhParams::ParamsOk(x) => (x.nonce@, x.server_nonce@),
            };
            &&& nonce != state.nonce() ==> spec_step3(state, response, random, now) == Err::<
                Step3View,
                ErrorView,
            >(ErrorView::InvalidNonce { got: nonce, expected: state.nonce() })
            &&& nonce == state.nonce() && server_nonce != state.server_nonce() ==> spec_step3(
                state,
                response,
                random,
                now,
            ) == Err::<Step3View, ErrorView>(
                ErrorView::InvalidServerNonce { got: server_nonce, expected: state.server_nonce() },
            )
        }),
{
}

/// A refusal of the server whose hash of the new nonce is not ours ends
/// step 3 with `InvalidNewNonceHash`; a refusal that passes all checks ends
/// it with `DhParamsFail`.
pub proof fn lemma_step3_checks_refusal(state: Step2, f: types::ServerDhParamsFail)
    requires
        f.nonce@ == state.nonce(),
        f.server_nonce@ == state.server_nonce(),
    ensures
        spec_step3_fail(state, f) == if f.new_nonce_hash@ == spec_sha1(
            state.new_nonce(),
        ).subrange(4, 20) {
            ErrorView::DhParamsFail
        } else {
            ErrorView::InvalidNewNonceHash {
                got: f.new_nonce_hash@,
                expected: spec_sha1(state.new_nonce()).subrange(4, 20),
            }
        },
{
}

/// A last answer that does not carry our nonce ends the exchange with
/// `InvalidNonce`; one with another server nonce with
/// `InvalidServerNonce`; one whose hash is not what our key gives with
/// `InvalidNewNonceHash`, whatever the answer says otherwise.
pub proof fn lemma_finish_checks(state: Step3, answer: enums::SetClientDhParamsAnswer)
    ensures
        ({
            let (nonce, server_nonce, hash, number) = answer_parts(answer);
            let key = left_pad(state.gab(), 256);
            let expected = spec_new_nonce_hash(key, state.new_nonce(), number);
            &&& nonce != state.nonce() ==> spec_finish(state, answer) == Err::<
                FinishedView,
                ErrorView,
            >(ErrorView::InvalidNonce { got: nonce, expected: state.nonce() })
            &&& nonce == state.nonce() && server_nonce != state.server_nonce() ==> spec_finish(
                state,
                answer,
            ) == Err::<FinishedView, ErrorView>(
                ErrorView::InvalidServerNonce { got: server_nonce, expected: state.server_nonce() },
            )
            &&& nonce == state.nonce() && server_nonce == state.server_nonce() && state.gab().len()
                <= 256 && hash != expected ==> spec_finish(state, answer) == Err::<
                FinishedView,
                ErrorView,
            >(ErrorView::InvalidNewNonceHash { got: hash, expected })
            &&& spec_finish(state, answer) is Ok ==> answer is DhGenOk
        }),
{
}

/// The exchange goes through only with numbers in their ranges: the
/// generator, `g_a` and `g_b` strictly between 1 and `p − 1`, and `g_a` and
/// `g_b` at least the safety band off both ends. Anything else ends it with
/// `GParameterOutOfRange`.
pub proof fn lemma_dh_ranges(
    state: Step2,
    key: Seq<u8>,
    iv: Seq<u8>,
    g: i32,
    dh_prime: Seq<u8>,
    g_a: Seq<u8>,
    server_time: i32,
    random: Seq<u8>,
    now: i32,
)
    ensures
        ({
            let r = spec_dh_exchange(state, key, iv, g, dh_prime, g_a, server_time, random, now);
            let p = be_value(dh_prime);
            let band = be_value(safety_be());
            let g_b = spec_modpow(
                be_value(spec_trim_be(g as u64)),
                be_value(random.take(256)),
                p,
            );
            let in_range = {
                &&& g >= 0
                &&& 1 < be_value(spec_trim_be(g as u64)) < p - 1
                &&& 1 < be_value(g_a) < p - 1
                &&& 1 < g_b < p - 1
                &&& band < be_value(g_a) < p - band
                &&& band < g_b < p - band
            };
            &&& r is Ok <==> in_range
            &&& r is Err ==> r->Err_0 is GParameterOutOfRange
        }),
{
    let p = be_value(dh_prime);
    lemma_be_value_single(1u8);
    lemma_min_be(minus(p, 1));
    lemma_min_be(minus(p, be_value(safety_be())));
    if g >= 0 {
        let g_be = spec_trim_be(g as u64);
        lemma_min_be(spec_modpow(be_value(g_be), be_value(random.take(256)), p));
    }
}

/// The safety band is 256 to the power 248, which is 2 to the power
/// 2048 − 64.
pub proof fn lemma_safety_band()
    ensures
        be_value(safety_be()) == vstd::arithmetic::power::pow(256, 248),
{
    lemma_one_and_zeros(248);
}

/// A one followed by `n` zero bytes is 256 to the power `n`.
pub proof fn lemma_one_and_zeros(n: nat)
    ensures
        be_value(seq![1u8] + zeros(n as int)) == vstd::arithmetic::power::pow(256, n),
    decreases n,
{
    reveal(vstd::arithmetic::power::pow);
    if n == 0 {
        assert(seq![1u8] + zeros(0) =~= seq![1u8]);
        lemma_be_value_single(1u8);
    } else {
        lemma_one_and_zeros((n - 1) as nat);
        let shorter = seq![1u8] + zeros(n - 1);
        assert(seq![1u8] + zeros(n as int) =~= shorter.push(0u8));
        crate::crypto::bigint::lemma_be_value_push(shorter, 0u8);
        assert(vstd::arithmetic::power::pow(256, n) == 256 * vstd::arithmetic::power::pow(
            256,
            (n - 1) as nat,
        ));
    }
}

} // verus!
