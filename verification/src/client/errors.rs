//! The errors that the client reports.

use vstd::prelude::*;
use vstd::string::StringSliceAdditionalSpecFns;
use vstd::utf8::encode_utf8;
use crate::text::{
    all_digits, decimal_value, ends_with, is_all_digits, last_index_of, parse_decimal_u32, rfind,
    spec_ends_with, spec_starts_with, starts_with, str_copy, str_eq, str_prefix,
};
use crate::tl::wire::copy_range;

verus! {

/// An error that the server answered a request with.
///
/// A trailing `_<digits>` of the server's message is taken off the name and
/// kept as the value: `FLOOD_WAIT_30` has the name `FLOOD_WAIT` and the
/// value 30.
#[derive(Clone, Debug, PartialEq)]
pub struct RpcError {
    /// The status code.
    pub code: i32,
    /// The name, without a numeric suffix.
    pub name: String,
    /// The numeric suffix, if there was one.
    pub value: Option<u32>,
}

/// The byte `_`.
pub const UNDERSCORE: u8 = 0x5f;

/// The byte `*`.
pub const STAR: u8 = 0x2a;

/// Name and value in the server's message `m`. The value is what follows
/// the last underscore, if that is a non-empty run of digits that fits 32
/// bits; the name is then what stands before that underscore. Otherwise the
/// whole message is the name.
pub open spec fn spec_split_message(m: Seq<u8>) -> (Seq<u8>, Option<u32>) {
    match last_index_of(m, UNDERSCORE) {
        Some(i) => {
            let suffix = m.skip(i + 1);
            if suffix.len() > 0 && all_digits(suffix) && decimal_value(suffix) <= u32::MAX {
                (m.take(i), Some(decimal_value(suffix) as u32))
            } else {
                (m, None)
            }
        },
        None => (m, None),
    }
}

/// Whether the name `name` matches `pattern`: a pattern that ends in `*`
/// matches the names that start with the rest of it, else one that starts
/// with `*` matches the names that end with the rest, else only the name
/// itself matches.
pub open spec fn spec_matches(name: Seq<u8>, pattern: Seq<u8>) -> bool {
    if pattern.len() > 0 && pattern.last() == STAR {
        spec_starts_with(name, pattern.drop_last())
    } else if pattern.len() > 0 && pattern[0] == STAR {
        spec_ends_with(name, pattern.skip(1))
    } else {
        name == pattern
    }
}

/// The name `FLOOD_WAIT`.
pub open spec fn flood_wait_name() -> Seq<u8> {
    "FLOOD_WAIT".spec_bytes()
}

impl RpcError {
    /// The name's UTF-8 bytes.
    pub open spec fn name_bytes(self) -> Seq<u8> {
        encode_utf8(self.name@)
    }

    /// The error for the server's `code` and `message`.
    pub fn from_telegram(code: i32, message: &str) -> (e: Self)
        ensures
            e.code == code,
            (e.name_bytes(), e.value) == spec_split_message(message.spec_bytes()),
    {
        let bytes = message.as_bytes();
        match rfind(bytes, UNDERSCORE) {
            Some(idx) => {
                let total = bytes.len();
                let suffix = copy_range(bytes, idx + 1, total);
                assert(suffix@ =~= bytes@.skip(idx + 1));
                if suffix.len() > 0 && is_all_digits(suffix.as_slice()) {
                    match parse_decimal_u32(suffix.as_slice()) {
                        Some(v) => {
                            let name = str_prefix(message, idx);
                            return Self { code, name, value: Some(v) };
                        },
                        None => {},
                    }
                }
            },
            None => {},
        }
        Self { code, name: str_copy(message), value: None }
    }

    /// Whether the error's name matches `pattern`, which may start or end
    /// with the wildcard `*`.
    pub fn is(&self, pattern: &str) -> (r: bool)
        ensures
            r == spec_matches(self.name_bytes(), pattern.spec_bytes()),
    {
        let name = self.name.as_str().as_bytes();
        let pat = pattern.as_bytes();
        let n = pat.len();
        if n > 0 && pat[n - 1] == STAR {
            let prefix = copy_range(pat, 0, n - 1);
            assert(prefix@ =~= pat@.drop_last());
            starts_with(name, prefix.as_slice())
        } else if n > 0 && pat[0] == STAR {
            let suffix = copy_range(pat, 1, n);
            assert(suffix@ =~= pat@.skip(1));
            ends_with(name, suffix.as_slice())
        } else {
            crate::tl::wire::bytes_eq(name, pat)
        }
    }

    /// The seconds to wait, if this is a `FLOOD_WAIT` with code 420.
    pub fn flood_wait_seconds(&self) -> (r: Option<u64>)
        ensures
            r == if self.code == 420 && self.name_bytes() == flood_wait_name() {
                match self.value {
                    Some(v) => Some(v as u64),
                    None => None,
                }
            } else {
                None
            },
    {
        if self.code == 420 && str_eq(self.name.as_str(), "FLOOD_WAIT") {
            match self.value {
                Some(v) => Some(v as u64),
                None => None,
            }
        } else {
            None
        }
    }

    /// The error in words: code, name and, where there is one, the value.
    pub open spec fn text(self) -> Seq<char> {
        "RPC "@ + crate::text::spec_decimal_text(self.code as int) + ": "@ + self.name@ + (match self.value {
            Some(v) => " (value: "@ + crate::text::spec_decimal_text(v as int) + ")"@,
            None => Seq::empty(),
        })
    }

    /// The error in words: code, name and, where there is one, the value.
    pub fn to_string(&self) -> (s: String)
        ensures
            s@ == self.text(),
    {
        let mut s = crate::text::text_of("RPC ");
        s.append(crate::text::decimal_string(self.code as i64).as_str());
        s.append(": ");
        s.append(self.name.as_str());
        match self.value {
            Some(v) => {
                let ghost head = s@;
                s.append(" (value: ");
                s.append(crate::text::decimal_string(v as i64).as_str());
                s.append(")");
                assert(s@ =~= head + (" (value: "@ + crate::text::spec_decimal_text(v as int)
                    + ")"@));
            },
            None => {
                assert(s@ =~= s@ + Seq::<char>::empty());
            },
        }
        s
    }
}

/// The error of any operation that talks to the server.
#[derive(Clone, Debug, PartialEq)]
pub enum InvocationError {
    /// The server refused the request.
    Rpc(RpcError),
    /// The network failed; the text says how.
    Io(String),
    /// The answer could not be read.
    Deserialize(String),
    /// The request was dropped before an answer came.
    Dropped,
    /// The request must go to another datacenter. The client handles this
    /// itself.
    Migrate(i32),
}

impl InvocationError {
    /// Whether this is a server error whose name matches `pattern`.
    pub fn is(&self, pattern: &str) -> (r: bool)
        ensures
            r == match self {
                InvocationError::Rpc(e) => spec_matches(e.name_bytes(), pattern.spec_bytes()),
                _ => false,
            },
    {
        match self {
            InvocationError::Rpc(e) => e.is(pattern),
            _ => false,
        }
    }

    /// The seconds to wait, if this is a `FLOOD_WAIT` of the server.
    pub fn flood_wait_seconds(&self) -> (r: Option<u64>)
        ensures
            r == self.spec_flood_wait_seconds(),
    {
        match self {
            InvocationError::Rpc(e) => e.flood_wait_seconds(),
            _ => None,
        }
    }

    /// The seconds to wait, if this is a `FLOOD_WAIT` of the server.
    pub open spec fn spec_flood_wait_seconds(self) -> Option<u64> {
        match self {
            InvocationError::Rpc(e) => if e.code == 420 && e.name_bytes() == flood_wait_name() {
                match e.value {
                    Some(v) => Some(v as u64),
                    None => None,
                }
            } else {
                None
            },
            _ => None,
        }
    }

    /// The error for an answer that could not be read: it carries the words
    /// of the error of reading.
    pub fn from_codec(e: crate::tl::deserialize::Error) -> (r: Self)
        ensures
            r is Deserialize,
            r->Deserialize_0@ == e.text(),
    {
        InvocationError::Deserialize(e.to_string())
    }

    /// The error in words.
    pub open spec fn text(self) -> Seq<char> {
        match self {
            InvocationError::Rpc(e) => e.text(),
            InvocationError::Io(e) => "I/O error: "@ + e@,
            InvocationError::Deserialize(e) => "deserialize error: "@ + e@,
            InvocationError::Dropped => "request dropped"@,
            InvocationError::Migrate(dc) => "DC migration to "@ + crate::text::spec_decimal_text(
                dc as int,
            ),
        }
    }

    /// The error in words.
    pub fn to_string(&self) -> (s: String)
        ensures
            s@ == self.text(),
    {
        match self {
            InvocationError::Rpc(e) => e.to_string(),
            InvocationError::Io(e) => crate::text::text_of("I/O error: ").concat(e.as_str()),
            InvocationError::Deserialize(e) => crate::text::text_of("deserialize error: ").concat(
                e.as_str(),
            ),
            InvocationError::Dropped => crate::text::text_of("request dropped"),
            InvocationError::Migrate(dc) => crate::text::text_of("DC migration to ").concat(
                crate::text::decimal_string(*dc as i64).as_str(),
            ),
        }
    }
}

/// The password challenge of an account with two-factor authentication.
#[derive(Clone, Debug, PartialEq)]
pub struct PasswordToken {
    pub(crate) hint: Option<String>,
    pub(crate) salt1: Vec<u8>,
    pub(crate) salt2: Vec<u8>,
    pub(crate) p: Vec<u8>,
    pub(crate) g: i32,
    pub(crate) srp_b: Vec<u8>,
    pub(crate) srp_id: i64,
    pub(crate) secure_random: Vec<u8>,
}

/// A password challenge as contracts see it.
pub struct PasswordTokenView {
    pub hint: Option<Seq<char>>,
    pub salt1: Seq<u8>,
    pub salt2: Seq<u8>,
    pub p: Seq<u8>,
    pub g: i32,
    pub srp_b: Seq<u8>,
    pub srp_id: i64,
    pub secure_random: Seq<u8>,
}

/// What the password settings `pw` lack for a challenge; nothing where
/// they are complete. The first thing that is missing is named: the
/// algorithm, one that is known, the server's share, the number of the
/// challenge.
pub open spec fn spec_challenge_gap(pw: crate::client::api::types::Password) -> Option<Seq<char>> {
    match pw.current_algo {
        None => Some("no current_algo"@),
        Some(crate::client::api::enums::PasswordKdfAlgo::Unknown) => Some(
            "unsupported password KDF algo"@,
        ),
        Some(_) => if pw.srp_b is None {
            Some("no srp_b"@)
        } else if pw.srp_id is None {
            Some("no srp_id"@)
        } else {
            None
        },
    }
}

/// The challenge that the complete password settings `pw` make.
pub open spec fn spec_challenge(pw: crate::client::api::types::Password) -> PasswordTokenView {
    let algo =
        pw.current_algo->Some_0->Sha256Sha256Pbkdf2Hmacsha512iter100000Sha256ModPow_0;
    PasswordTokenView {
        hint: match pw.hint {
            Some(h) => Some(h@),
            None => None,
        },
        salt1: algo.salt1@,
        salt2: algo.salt2@,
        p: algo.p@,
        g: algo.g,
        srp_b: pw.srp_b->Some_0@,
        srp_id: pw.srp_id->Some_0,
        secure_random: pw.secure_random@,
    }
}

impl PasswordToken {
    /// The challenge as contracts see it.
    pub closed spec fn parts(self) -> PasswordTokenView {
        PasswordTokenView {
            hint: match self.hint {
                Some(h) => Some(h@),
                None => None,
            },
            salt1: self.salt1@,
            salt2: self.salt2@,
            p: self.p@,
            g: self.g,
            srp_b: self.srp_b@,
            srp_id: self.srp_id,
            secure_random: self.secure_random@,
        }
    }

    /// The challenge that the password settings `pw` of an account make.
    /// Settings that lack a part are refused, with the name of the first part
    /// that is missing.
    pub fn from_password(pw: crate::client::api::types::Password) -> (r: Result<
        PasswordToken,
        InvocationError,
    >)
        ensures
            match spec_challenge_gap(pw) {
                Some(what) => r is Err && r->Err_0 is Deserialize && r->Err_0->Deserialize_0@
                    == what,
                None => r is Ok && r->Ok_0.parts() == spec_challenge(pw),
            },
    {
        let algo = match pw.current_algo {
            None => {
                return Err(InvocationError::Deserialize("no current_algo".to_string()));
            },
            Some(crate::client::api::enums::PasswordKdfAlgo::Unknown) => {
                return Err(
                    InvocationError::Deserialize("unsupported password KDF algo".to_string()),
                );
            },
            Some(
                crate::client::api::enums::PasswordKdfAlgo::Sha256Sha256Pbkdf2Hmacsha512iter100000Sha256ModPow(
                    a,
                ),
            ) => a,
        };
        let srp_b = match pw.srp_b {
            Some(b) => b,
            None => {
                return Err(InvocationError::Deserialize("no srp_b".to_string()));
            },
        };
        let srp_id = match pw.srp_id {
            Some(id) => id,
            None => {
                return Err(InvocationError::Deserialize("no srp_id".to_string()));
            },
        };
        Ok(
            PasswordToken {
                hint: pw.hint,
                salt1: algo.salt1,
                salt2: algo.salt2,
                p: algo.p,
                g: algo.g,
                srp_b,
                srp_id,
                secure_random: pw.secure_random,
            },
        )
    }

    /// Answers the challenge with `password`: the proof `M1` and our share
    /// `g_a`, made with the random bytes that came with the challenge. There
    /// is no answer where the prime of the challenge is below two.
    pub fn answer(&self, password: &[u8]) -> (r: Option<([u8; 32], [u8; 256])>)
        ensures
            match crate::client::two_factor_auth::spec_calculate_2fa(
                self.parts().salt1,
                self.parts().salt2,
                self.parts().p,
                self.parts().g,
                self.parts().srp_b,
                self.parts().secure_random,
                password@,
            ) {
                Some(answer) => r is Some && r->Some_0.0@ == answer.m1 && r->Some_0.1@
                    == answer.g_a,
                None => r is None,
            },
    {
        crate::client::two_factor_auth::calculate_2fa(
            self.salt1.as_slice(),
            self.salt2.as_slice(),
            self.p.as_slice(),
            self.g,
            self.srp_b.as_slice(),
            self.secure_random.as_slice(),
            password,
        )
    }

    /// The number of the challenge, which the answer carries.
    pub fn srp_id(&self) -> (id: i64)
        ensures
            id == self.parts().srp_id,
    {
        self.srp_id
    }


    /// The hint that the account's owner left, as contracts see it.
    pub open spec fn spec_hint(self) -> Option<Seq<char>> {
        self.parts().hint
    }

    /// The hint that the account's owner left, if any.
    pub fn hint(&self) -> (h: Option<&str>)
        ensures
            match self.spec_hint() {
                Some(text) => h is Some && h->Some_0@ == text,
                None => h is None,
            },
    {
        match &self.hint {
            Some(h) => Some(h.as_str()),
            None => None,
        }
    }
}

/// What `request_login_code` gives and `sign_in` takes.
#[derive(Clone, Debug, PartialEq)]
pub struct LoginToken {
    pub(crate) phone: String,
    pub(crate) phone_code_hash: String,
}

/// The outcome of `sign_in` other than success.
#[derive(Debug, PartialEq)]
pub enum SignInError {
    /// The number is new: an account must be made first.
    SignUpRequired,
    /// The account has a password; the token goes to `check_password`.
    PasswordRequired(PasswordToken),
    /// The code was wrong or has expired.
    InvalidCode,
    /// Any other error.
    Other(InvocationError),
}

impl SignInError {
    /// The error for the failure `e` of the sign-in request: a
    /// `SESSION_PASSWORD_NEEDED` is not decided here, the codes that the
    /// server calls `PHONE_CODE_…` are invalid codes, and anything else is
    /// passed on.
    pub fn from_invocation(e: InvocationError) -> (r: Self)
        ensures
            match e {
                InvocationError::Rpc(rpc) => if spec_matches(
                    rpc.name_bytes(),
                    "PHONE_CODE_*".spec_bytes(),
                ) {
                    r is InvalidCode
                } else {
                    r is Other && r->Other_0 == e
                },
                _ => r is Other && r->Other_0 == e,
            },
    {
        if e.is("PHONE_CODE_*") {
            SignInError::InvalidCode
        } else {
            SignInError::Other(e)
        }
    }

    /// The error in words.
    pub open spec fn text(self) -> Seq<char> {
        match self {
            SignInError::SignUpRequired => "sign up required — use official Telegram app"@,
            SignInError::PasswordRequired(_) => "2FA password required"@,
            SignInError::InvalidCode => "invalid or expired code"@,
            SignInError::Other(e) => e.text(),
        }
    }

    /// The error in words.
    pub fn to_string(&self) -> (s: String)
        ensures
            s@ == self.text(),
    {
        match self {
            SignInError::SignUpRequired => crate::text::text_of(
                "sign up required — use official Telegram app",
            ),
            SignInError::PasswordRequired(_) => crate::text::text_of("2FA password required"),
            SignInError::InvalidCode => crate::text::text_of("invalid or expired code"),
            SignInError::Other(e) => e.to_string(),
        }
    }
}

} // verus!
