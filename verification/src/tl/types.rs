//! The constructors of the key exchange, each in its bare form: the fields
//! one after the other, without a leading constructor ID.

use vstd::prelude::*;
use crate::tl::deserialize::{Cursor, Deserializable, Error, Result};
use crate::tl::serialize::Serializable;
use crate::tl::Identifiable;

verus! {

/// Constructor ID of `resPQ`.
pub const RES_PQ_ID: u32 = 0x05162463;

/// Constructor ID of `p_q_inner_data`.
pub const P_Q_INNER_DATA_ID: u32 = 0x83c95aec;

/// Constructor ID of `server_DH_params_fail`.
pub const SERVER_DH_PARAMS_FAIL_ID: u32 = 0x79cb045d;

/// Constructor ID of `server_DH_params_ok`.
pub const SERVER_DH_PARAMS_OK_ID: u32 = 0xd0e8075c;

/// Constructor ID of `server_DH_inner_data`.
pub const SERVER_DH_INNER_DATA_ID: u32 = 0xb5890dba;

/// Constructor ID of `client_DH_inner_data`.
pub const CLIENT_DH_INNER_DATA_ID: u32 = 0x6643b654;

/// Constructor ID of `dh_gen_ok`.
pub const DH_GEN_OK_ID: u32 = 0x3bcbf734;

/// Constructor ID of `dh_gen_retry`.
pub const DH_GEN_RETRY_ID: u32 = 0x46dc1fb9;

/// Constructor ID of `dh_gen_fail`.
pub const DH_GEN_FAIL_ID: u32 = 0xa69dae02;

/// `resPQ`: the server's answer to the first request: its nonce, the product to factorize and the fingerprints of the keys it accepts.
#[derive(Clone, Debug, PartialEq)]
pub struct ResPq {
    pub nonce: [u8; 16],
    pub server_nonce: [u8; 16],
    pub pq: Vec<u8>,
    pub server_public_key_fingerprints: Vec<i64>,
}

impl DeepView for ResPq {
    type V = (Seq<u8>, Seq<u8>, Seq<u8>, Seq<i64>);

    open spec fn deep_view(&self) -> Self::V {
        (self.nonce.deep_view(), self.server_nonce.deep_view(), self.pq.deep_view(), self.server_public_key_fingerprints.deep_view())
    }
}

impl Identifiable for ResPq {
    open spec fn spec_constructor_id() -> u32 {
        RES_PQ_ID
    }

    fn constructor_id() -> (id: u32) {
        RES_PQ_ID
    }
}

impl Serializable for ResPq {
    open spec fn ser(v: Self::V) -> Seq<u8> {
        <[u8; 16]>::ser(v.0) + <[u8; 16]>::ser(v.1) + Vec::<u8>::ser(v.2) + Vec::<i64>::ser(v.3)
    }

    fn serialize(&self, buf: &mut Vec<u8>) {
        self.nonce.serialize(buf);
        self.server_nonce.serialize(buf);
        self.pq.serialize(buf);
        self.server_public_key_fingerprints.serialize(buf);
        assert(buf@ =~= old(buf)@ + Self::ser(self.deep_view()));
    }
}

impl Deserializable for ResPq {
    open spec fn parse(s: Seq<u8>) -> Result<(Self::V, int)> {
        match <[u8; 16]>::parse(s) {
            Err(e) => Err(e),
            Ok((v0, n0)) => match <[u8; 16]>::parse(s.skip(n0)) {
                    Err(e) => Err(e),
                    Ok((v1, n1)) => match Vec::<u8>::parse(s.skip(n0 + n1)) {
                            Err(e) => Err(e),
                            Ok((v2, n2)) => match Vec::<i64>::parse(s.skip(n0 + n1 + n2)) {
                                    Err(e) => Err(e),
                                    Ok((v3, n3)) => Ok(((v0, v1, v2, v3), n0 + n1 + n2 + n3)),
                                },
                        },
                },
        }
    }

    fn deserialize(buf: &mut Cursor) -> (r: Result<Self>) {
        let ghost s = buf.rest();
        let ghost at = buf.spec_pos();
        let nonce = match <[u8; 16]>::deserialize(buf) {
            Ok(v) => v,
            Err(e) => {
                return Err(e);
            },
        };
        assert(buf.rest() =~= s.skip(buf.spec_pos() - at));
        let server_nonce = match <[u8; 16]>::deserialize(buf) {
            Ok(v) => v,
            Err(e) => {
                return Err(e);
            },
        };
        assert(buf.rest() =~= s.skip(buf.spec_pos() - at));
        let pq = match Vec::<u8>::deserialize(buf) {
            Ok(v) => v,
            Err(e) => {
                return Err(e);
            },
        };
        assert(buf.rest() =~= s.skip(buf.spec_pos() - at));
        let server_public_key_fingerprints = match Vec::<i64>::deserialize(buf) {
            Ok(v) => v,
            Err(e) => {
                return Err(e);
            },
        };
        Ok(ResPq { nonce, server_nonce, pq, server_public_key_fingerprints })
    }
}

/// `p_q_inner_data`: the factors and the new nonce, which travel RSA-encrypted.
#[derive(Clone, Debug, PartialEq)]
pub struct PQInnerData {
    pub pq: Vec<u8>,
    pub p: Vec<u8>,
    pub q: Vec<u8>,
    pub nonce: [u8; 16],
    pub server_nonce: [u8; 16],
    pub new_nonce: [u8; 32],
}

impl DeepView for PQInnerData {
    type V = (Seq<u8>, Seq<u8>, Seq<u8>, Seq<u8>, Seq<u8>, Seq<u8>);

    open spec fn deep_view(&self) -> Self::V {
        (self.pq.deep_view(), self.p.deep_view(), self.q.deep_view(), self.nonce.deep_view(), self.server_nonce.deep_view(), self.new_nonce.deep_view())
    }
}

impl Identifiable for PQInnerData {
    open spec fn spec_constructor_id() -> u32 {
        P_Q_INNER_DATA_ID
    }

    fn constructor_id() -> (id: u32) {
        P_Q_INNER_DATA_ID
    }
}

impl Serializable for PQInnerData {
    open spec fn ser(v: Self::V) -> Seq<u8> {
        Vec::<u8>::ser(v.0) + Vec::<u8>::ser(v.1) + Vec::<u8>::ser(v.2) + <[u8; 16]>::ser(v.3) + <[u8; 16]>::ser(v.4) + <[u8; 32]>::ser(v.5)
    }

    fn serialize(&self, buf: &mut Vec<u8>) {
        self.pq.serialize(buf);
        self.p.serialize(buf);
        self.q.serialize(buf);
        self.nonce.serialize(buf);
        self.server_nonce.serialize(buf);
        self.new_nonce.serialize(buf);
        assert(buf@ =~= old(buf)@ + Self::ser(self.deep_view()));
    }
}

impl Deserializable for PQInnerData {
    open spec fn parse(s: Seq<u8>) -> Result<(Self::V, int)> {
        match Vec::<u8>::parse(s) {
            Err(e) => Err(e),
            Ok((v0, n0)) => match Vec::<u8>::parse(s.skip(n0)) {
                    Err(e) => Err(e),
                    Ok((v1, n1)) => match Vec::<u8>::parse(s.skip(n0 + n1)) {
                            Err(e) => Err(e),
                            Ok((v2, n2)) => match <[u8; 16]>::parse(s.skip(n0 + n1 + n2)) {
                                    Err(e) => Err(e),
                                    Ok((v3, n3)) => match <[u8; 16]>::parse(s.skip(n0 + n1 + n2 + n3)) {
                                            Err(e) => Err(e),
                                            Ok((v4, n4)) => match <[u8; 32]>::parse(s.skip(n0 + n1 + n2 + n3 + n4)) {
                                                    Err(e) => Err(e),
                                                    Ok((v5, n5)) => Ok(((v0, v1, v2, v3, v4, v5), n0 + n1 + n2 + n3 + n4 + n5)),
                                                },
                                        },
                                },
                        },
                },
        }
    }

    fn deserialize(buf: &mut Cursor) -> (r: Result<Self>) {
        let ghost s = buf.rest();
        let ghost at = buf.spec_pos();
        let pq = match Vec::<u8>::deserialize(buf) {
            Ok(v) => v,
            Err(e) => {
                return Err(e);
            },
        };
        assert(buf.rest() =~= s.skip(buf.spec_pos() - at));
        let p = match Vec::<u8>::deserialize(buf) {
            Ok(v) => v,
            Err(e) => {
                return Err(e);
            },
        };
        assert(buf.rest() =~= s.skip(buf.spec_pos() - at));
        let q = match Vec::<u8>::deserialize(buf) {
            Ok(v) => v,
            Err(e) => {
                return Err(e);
            },
        };
        assert(buf.rest() =~= s.skip(buf.spec_pos() - at));
        let nonce = match <[u8; 16]>::deserialize(buf) {
            Ok(v) => v,
            Err(e) => {
                return Err(e);
            },
        };
        assert(buf.rest() =~= s.skip(buf.spec_pos() - at));
        let server_nonce = match <[u8; 16]>::deserialize(buf) {
            Ok(v) => v,
            Err(e) => {
                return Err(e);
            },
        };
        assert(buf.rest() =~= s.skip(buf.spec_pos() - at));
        let new_nonce = match <[u8; 32]>::deserialize(buf) {
            Ok(v) => v,
            Err(e) => {
                return Err(e);
            },
        };
        Ok(PQInnerData { pq, p, q, nonce, server_nonce, new_nonce })
    }
}

/// `server_DH_params_fail`: the server refuses to go on.
#[derive(Clone, Debug, PartialEq)]
pub struct ServerDhParamsFail {
    pub nonce: [u8; 16],
    pub server_nonce: [u8; 16],
    pub new_nonce_hash: [u8; 16],
}

impl DeepView for ServerDhParamsFail {
    type V = (Seq<u8>, Seq<u8>, Seq<u8>);

    open spec fn deep_view(&self) -> Self::V {
        (self.nonce.deep_view(), self.server_nonce.deep_view(), self.new_nonce_hash.deep_view())
    }
}

impl Identifiable for ServerDhParamsFail {
    open spec fn spec_constructor_id() -> u32 {
        SERVER_DH_PARAMS_FAIL_ID
    }

    fn constructor_id() -> (id: u32) {
        SERVER_DH_PARAMS_FAIL_ID
    }
}

impl Serializable for ServerDhParamsFail {
    open spec fn ser(v: Self::V) -> Seq<u8> {
        <[u8; 16]>::ser(v.0) + <[u8; 16]>::ser(v.1) + <[u8; 16]>::ser(v.2)
    }

    fn serialize(&self, buf: &mut Vec<u8>) {
        self.nonce.serialize(buf);
        self.server_nonce.serialize(buf);
        self.new_nonce_hash.serialize(buf);
        assert(buf@ =~= old(buf)@ + Self::ser(self.deep_view()));
    }
}

impl Deserializable for ServerDhParamsFail {
    open spec fn parse(s: Seq<u8>) -> Result<(Self::V, int)> {
        match <[u8; 16]>::parse(s) {
            Err(e) => Err(e),
            Ok((v0, n0)) => match <[u8; 16]>::parse(s.skip(n0)) {
                    Err(e) => Err(e),
                    Ok((v1, n1)) => match <[u8; 16]>::parse(s.skip(n0 + n1)) {
                            Err(e) => Err(e),
                            Ok((v2, n2)) => Ok(((v0, v1, v2), n0 + n1 + n2)),
                        },
                },
        }
    }

    fn deserialize(buf: &mut Cursor) -> (r: Result<Self>) {
        let ghost s = buf.rest();
        let ghost at = buf.spec_pos();
        let nonce = match <[u8; 16]>::deserialize(buf) {
            Ok(v) => v,
            Err(e) => {
                return Err(e);
            },
        };
        assert(buf.rest() =~= s.skip(buf.spec_pos() - at));
        let server_nonce = match <[u8; 16]>::deserialize(buf) {
            Ok(v) => v,
            Err(e) => {
                return Err(e);
            },
        };
        assert(buf.rest() =~= s.skip(buf.spec_pos() - at));
        let new_nonce_hash = match <[u8; 16]>::deserialize(buf) {
            Ok(v) => v,
            Err(e) => {
                return Err(e);
            },
        };
        Ok(ServerDhParamsFail { nonce, server_nonce, new_nonce_hash })
    }
}

/// `server_DH_params_ok`: the server's DH parameters, AES-encrypted.
#[derive(Clone, Debug, PartialEq)]
pub struct ServerDhParamsOk {
    pub nonce: [u8; 16],
    pub server_nonce: [u8; 16],
    pub encrypted_answer: Vec<u8>,
}

impl DeepView for ServerDhParamsOk {
    type V = (Seq<u8>, Seq<u8>, Seq<u8>);

    open spec fn deep_view(&self) -> Self::V {
        (self.nonce.deep_view(), self.server_nonce.deep_view(), self.encrypted_answer.deep_view())
    }
}

impl Identifiable for ServerDhParamsOk {
    open spec fn spec_constructor_id() -> u32 {
        SERVER_DH_PARAMS_OK_ID
    }

    fn constructor_id() -> (id: u32) {
        SERVER_DH_PARAMS_OK_ID
    }
}

impl Serializable for ServerDhParamsOk {
    open spec fn ser(v: Self::V) -> Seq<u8> {
        <[u8; 16]>::ser(v.0) + <[u8; 16]>::ser(v.1) + Vec::<u8>::ser(v.2)
    }

    fn serialize(&self, buf: &mut Vec<u8>) {
        self.nonce.serialize(buf);
        self.server_nonce.serialize(buf);
        self.encrypted_answer.serialize(buf);
        assert(buf@ =~= old(buf)@ + Self::ser(self.deep_view()));
    }
}

impl Deserializable for ServerDhParamsOk {
    open spec fn parse(s: Seq<u8>) -> Result<(Self::V, int)> {
        match <[u8; 16]>::parse(s) {
            Err(e) => Err(e),
            Ok((v0, n0)) => match <[u8; 16]>::parse(s.skip(n0)) {
                    Err(e) => Err(e),
                    Ok((v1, n1)) => match Vec::<u8>::parse(s.skip(n0 + n1)) {
                            Err(e) => Err(e),
                            Ok((v2, n2)) => Ok(((v0, v1, v2), n0 + n1 + n2)),
                        },
                },
        }
    }

    fn deserialize(buf: &mut Cursor) -> (r: Result<Self>) {
        let ghost s = buf.rest();
        let ghost at = buf.spec_pos();
        let nonce = match <[u8; 16]>::deserialize(buf) {
            Ok(v) => v,
            Err(e) => {
                return Err(e);
            },
        };
        assert(buf.rest() =~= s.skip(buf.spec_pos() - at));
        let server_nonce = match <[u8; 16]>::deserialize(buf) {
            Ok(v) => v,
            Err(e) => {
                return Err(e);
            },
        };
        assert(buf.rest() =~= s.skip(buf.spec_pos() - at));
        let encrypted_answer = match Vec::<u8>::deserialize(buf) {
            Ok(v) => v,
            Err(e) => {
                return Err(e);
            },
        };
        Ok(ServerDhParamsOk { nonce, server_nonce, encrypted_answer })
    }
}

/// `server_DH_inner_data`: the DH parameters inside the server's encrypted answer.
#[derive(Clone, Debug, PartialEq)]
pub struct ServerDhInnerData {
    pub nonce: [u8; 16],
    pub server_nonce: [u8; 16],
    pub g: i32,
    pub dh_prime: Vec<u8>,
    pub g_a: Vec<u8>,
    pub server_time: i32,
}

impl DeepView for ServerDhInnerData {
    type V = (Seq<u8>, Seq<u8>, i32, Seq<u8>, Seq<u8>, i32);

    open spec fn deep_view(&self) -> Self::V {
        (self.nonce.deep_view(), self.server_nonce.deep_view(), self.g.deep_view(), self.dh_prime.deep_view(), self.g_a.deep_view(), self.server_time.deep_view())
    }
}

impl Identifiable for ServerDhInnerData {
    open spec fn spec_constructor_id() -> u32 {
        SERVER_DH_INNER_DATA_ID
    }

    fn constructor_id() -> (id: u32) {
        SERVER_DH_INNER_DATA_ID
    }
}

impl Serializable for ServerDhInnerData {
    open spec fn ser(v: Self::V) -> Seq<u8> {
        <[u8; 16]>::ser(v.0) + <[u8; 16]>::ser(v.1) + i32::ser(v.2) + Vec::<u8>::ser(v.3) + Vec::<u8>::ser(v.4) + i32::ser(v.5)
    }

    fn serialize(&self, buf: &mut Vec<u8>) {
        self.nonce.serialize(buf);
        self.server_nonce.serialize(buf);
        self.g.serialize(buf);
        self.dh_prime.serialize(buf);
        self.g_a.serialize(buf);
        self.server_time.serialize(buf);
        assert(buf@ =~= old(buf)@ + Self::ser(self.deep_view()));
    }
}

impl Deserializable for ServerDhInnerData {
    open spec fn parse(s: Seq<u8>) -> Result<(Self::V, int)> {
        match <[u8; 16]>::parse(s) {
            Err(e) => Err(e),
            Ok((v0, n0)) => match <[u8; 16]>::parse(s.skip(n0)) {
                    Err(e) => Err(e),
                    Ok((v1, n1)) => match i32::parse(s.skip(n0 + n1)) {
                            Err(e) => Err(e),
                            Ok((v2, n2)) => match Vec::<u8>::parse(s.skip(n0 + n1 + n2)) {
                                    Err(e) => Err(e),
                                    Ok((v3, n3)) => match Vec::<u8>::parse(s.skip(n0 + n1 + n2 + n3)) {
                                            Err(e) => Err(e),
                                            Ok((v4, n4)) => match i32::parse(s.skip(n0 + n1 + n2 + n3 + n4)) {
                                                    Err(e) => Err(e),
                                                    Ok((v5, n5)) => Ok(((v0, v1, v2, v3, v4, v5), n0 + n1 + n2 + n3 + n4 + n5)),
                                                },
                                        },
                                },
                        },
                },
        }
    }

    fn deserialize(buf: &mut Cursor) -> (r: Result<Self>) {
        let ghost s = buf.rest();
        let ghost at = buf.spec_pos();
        let nonce = match <[u8; 16]>::deserialize(buf) {
            Ok(v) => v,
            Err(e) => {
                return Err(e);
            },
        };
        assert(buf.rest() =~= s.skip(buf.spec_pos() - at));
        let server_nonce = match <[u8; 16]>::deserialize(buf) {
            Ok(v) => v,
            Err(e) => {
                return Err(e);
            },
        };
        assert(buf.rest() =~= s.skip(buf.spec_pos() - at));
        let g = match i32::deserialize(buf) {
            Ok(v) => v,
            Err(e) => {
                return Err(e);
            },
        };
        assert(buf.rest() =~= s.skip(buf.spec_pos() - at));
        let dh_prime = match Vec::<u8>::deserialize(buf) {
            Ok(v) => v,
            Err(e) => {
                return Err(e);
            },
        };
        assert(buf.rest() =~= s.skip(buf.spec_pos() - at));
        let g_a = match Vec::<u8>::deserialize(buf) {
            Ok(v) => v,
            Err(e) => {
                return Err(e);
            },
        };
        assert(buf.rest() =~= s.skip(buf.spec_pos() - at));
        let server_time = match i32::deserialize(buf) {
            Ok(v) => v,
            Err(e) => {
                return Err(e);
            },
        };
        Ok(ServerDhInnerData { nonce, server_nonce, g, dh_prime, g_a, server_time })
    }
}

/// `client_DH_inner_data`: the client's DH share, which travels AES-encrypted.
#[derive(Clone, Debug, PartialEq)]
pub struct ClientDhInnerData {
    pub nonce: [u8; 16],
    pub server_nonce: [u8; 16],
    pub retry_id: i64,
    pub g_b: Vec<u8>,
}

impl DeepView for ClientDhInnerData {
    type V = (Seq<u8>, Seq<u8>, i64, Seq<u8>);

    open spec fn deep_view(&self) -> Self::V {
        (self.nonce.deep_view(), self.server_nonce.deep_view(), self.retry_id.deep_view(), self.g_b.deep_view())
    }
}

impl Identifiable for ClientDhInnerData {
    open spec fn spec_constructor_id() -> u32 {
        CLIENT_DH_INNER_DATA_ID
    }

    fn constructor_id() -> (id: u32) {
        CLIENT_DH_INNER_DATA_ID
    }
}

impl Serializable for ClientDhInnerData {
    open spec fn ser(v: Self::V) -> Seq<u8> {
        <[u8; 16]>::ser(v.0) + <[u8; 16]>::ser(v.1) + i64::ser(v.2) + Vec::<u8>::ser(v.3)
    }

    fn serialize(&self, buf: &mut Vec<u8>) {
        self.nonce.serialize(buf);
        self.server_nonce.serialize(buf);
        self.retry_id.serialize(buf);
        self.g_b.serialize(buf);
        assert(buf@ =~= old(buf)@ + Self::ser(self.deep_view()));
    }
}

impl Deserializable for ClientDhInnerData {
    open spec fn parse(s: Seq<u8>) -> Result<(Self::V, int)> {
        match <[u8; 16]>::parse(s) {
            Err(e) => Err(e),
            Ok((v0, n0)) => match <[u8; 16]>::parse(s.skip(n0)) {
                    Err(e) => Err(e),
                    Ok((v1, n1)) => match i64::parse(s.skip(n0 + n1)) {
                            Err(e) => Err(e),
                            Ok((v2, n2)) => match Vec::<u8>::parse(s.skip(n0 + n1 + n2)) {
                                    Err(e) => Err(e),
                                    Ok((v3, n3)) => Ok(((v0, v1, v2, v3), n0 + n1 + n2 + n3)),
                                },
                        },
                },
        }
    }

    fn deserialize(buf: &mut Cursor) -> (r: Result<Self>) {
        let ghost s = buf.rest();
        let ghost at = buf.spec_pos();
        let nonce = match <[u8; 16]>::deserialize(buf) {
            Ok(v) => v,
            Err(e) => {
                return Err(e);
            },
        };
        assert(buf.rest() =~= s.skip(buf.spec_pos() - at));
        let server_nonce = match <[u8; 16]>::deserialize(buf) {
            Ok(v) => v,
            Err(e) => {
                return Err(e);
            },
        };
        assert(buf.rest() =~= s.skip(buf.spec_pos() - at));
        let retry_id = match i64::deserialize(buf) {
            Ok(v) => v,
            Err(e) => {
                return Err(e);
            },
        };
        assert(buf.rest() =~= s.skip(buf.spec_pos() - at));
        let g_b = match Vec::<u8>::deserialize(buf) {
            Ok(v) => v,
            Err(e) => {
                return Err(e);
            },
        };
        Ok(ClientDhInnerData { nonce, server_nonce, retry_id, g_b })
    }
}

/// `dh_gen_ok`: the key exchange succeeded.
#[derive(Clone, Debug, PartialEq)]
pub struct DhGenOk {
    pub nonce: [u8; 16],
    pub server_nonce: [u8; 16],
    pub new_nonce_hash1: [u8; 16],
}

impl DeepView for DhGenOk {
    type V = (Seq<u8>, Seq<u8>, Seq<u8>);

    open spec fn deep_view(&self) -> Self::V {
        (self.nonce.deep_view(), self.server_nonce.deep_view(), self.new_nonce_hash1.deep_view())
    }
}

impl Identifiable for DhGenOk {
    open spec fn spec_constructor_id() -> u32 {
        DH_GEN_OK_ID
    }

    fn constructor_id() -> (id: u32) {
        DH_GEN_OK_ID
    }
}

impl Serializable for DhGenOk {
    open spec fn ser(v: Self::V) -> Seq<u8> {
        <[u8; 16]>::ser(v.0) + <[u8; 16]>::ser(v.1) + <[u8; 16]>::ser(v.2)
    }

    fn serialize(&self, buf: &mut Vec<u8>) {
        self.nonce.serialize(buf);
        self.server_nonce.serialize(buf);
        self.new_nonce_hash1.serialize(buf);
        assert(buf@ =~= old(buf)@ + Self::ser(self.deep_view()));
    }
}

impl Deserializable for DhGenOk {
    open spec fn parse(s: Seq<u8>) -> Result<(Self::V, int)> {
        match <[u8; 16]>::parse(s) {
            Err(e) => Err(e),
            Ok((v0, n0)) => match <[u8; 16]>::parse(s.skip(n0)) {
                    Err(e) => Err(e),
                    Ok((v1, n1)) => match <[u8; 16]>::parse(s.skip(n0 + n1)) {
                            Err(e) => Err(e),
                            Ok((v2, n2)) => Ok(((v0, v1, v2), n0 + n1 + n2)),
                        },
                },
        }
    }

    fn deserialize(buf: &mut Cursor) -> (r: Result<Self>) {
        let ghost s = buf.rest();
        let ghost at = buf.spec_pos();
        let nonce = match <[u8; 16]>::deserialize(buf) {
            Ok(v) => v,
            Err(e) => {
                return Err(e);
            },
        };
        assert(buf.rest() =~= s.skip(buf.spec_pos() - at));
        let server_nonce = match <[u8; 16]>::deserialize(buf) {
            Ok(v) => v,
            Err(e) => {
                return Err(e);
            },
        };
        assert(buf.rest() =~= s.skip(buf.spec_pos() - at));
        let new_nonce_hash1 = match <[u8; 16]>::deserialize(buf) {
            Ok(v) => v,
            Err(e) => {
                return Err(e);
            },
        };
        Ok(DhGenOk { nonce, server_nonce, new_nonce_hash1 })
    }
}

/// `dh_gen_retry`: the server asks for another try.
#[derive(Clone, Debug, PartialEq)]
pub struct DhGenRetry {
    pub nonce: [u8; 16],
    pub server_nonce: [u8; 16],
    pub new_nonce_hash2: [u8; 16],
}

impl DeepView for DhGenRetry {
    type V = (Seq<u8>, Seq<u8>, Seq<u8>);

    open spec fn deep_view(&self) -> Self::V {
        (self.nonce.deep_view(), self.server_nonce.deep_view(), self.new_nonce_hash2.deep_view())
    }
}

impl Identifiable for DhGenRetry {
    open spec fn spec_constructor_id() -> u32 {
        DH_GEN_RETRY_ID
    }

    fn constructor_id() -> (id: u32) {
        DH_GEN_RETRY_ID
    }
}

impl Serializable for DhGenRetry {
    open spec fn ser(v: Self::V) -> Seq<u8> {
        <[u8; 16]>::ser(v.0) + <[u8; 16]>::ser(v.1) + <[u8; 16]>::ser(v.2)
    }

    fn serialize(&self, buf: &mut Vec<u8>) {
        self.nonce.serialize(buf);
        self.server_nonce.serialize(buf);
        self.new_nonce_hash2.serialize(buf);
        assert(buf@ =~= old(buf)@ + Self::ser(self.deep_view()));
    }
}

impl Deserializable for DhGenRetry {
    open spec fn parse(s: Seq<u8>) -> Result<(Self::V, int)> {
        match <[u8; 16]>::parse(s) {
            Err(e) => Err(e),
            Ok((v0, n0)) => match <[u8; 16]>::parse(s.skip(n0)) {
                    Err(e) => Err(e),
                    Ok((v1, n1)) => match <[u8; 16]>::parse(s.skip(n0 + n1)) {
                            Err(e) => Err(e),
                            Ok((v2, n2)) => Ok(((v0, v1, v2), n0 + n1 + n2)),
                        },
                },
        }
    }

    fn deserialize(buf: &mut Cursor) -> (r: Result<Self>) {
        let ghost s = buf.rest();
        let ghost at = buf.spec_pos();
        let nonce = match <[u8; 16]>::deserialize(buf) {
            Ok(v) => v,
            Err(e) => {
                return Err(e);
            },
        };
        assert(buf.rest() =~= s.skip(buf.spec_pos() - at));
        let server_nonce = match <[u8; 16]>::deserialize(buf) {
            Ok(v) => v,
            Err(e) => {
                return Err(e);
            },
        };
        assert(buf.rest() =~= s.skip(buf.spec_pos() - at));
        let new_nonce_hash2 = match <[u8; 16]>::deserialize(buf) {
            Ok(v) => v,
            Err(e) => {
                return Err(e);
            },
        };
        Ok(DhGenRetry { nonce, server_nonce, new_nonce_hash2 })
    }
}

/// `dh_gen_fail`: the key exchange failed.
#[derive(Clone, Debug, PartialEq)]
pub struct DhGenFail {
    pub nonce: [u8; 16],
    pub server_nonce: [u8; 16],
    pub new_nonce_hash3: [u8; 16],
}

impl DeepView for DhGenFail {
    type V = (Seq<u8>, Seq<u8>, Seq<u8>);

    open spec fn deep_view(&self) -> Self::V {
        (self.nonce.deep_view(), self.server_nonce.deep_view(), self.new_nonce_hash3.deep_view())
    }
}

impl Identifiable for DhGenFail {
    open spec fn spec_constructor_id() -> u32 {
        DH_GEN_FAIL_ID
    }

    fn constructor_id() -> (id: u32) {
        DH_GEN_FAIL_ID
    }
}

impl Serializable for DhGenFail {
    open spec fn ser(v: Self::V) -> Seq<u8> {
        <[u8; 16]>::ser(v.0) + <[u8; 16]>::ser(v.1) + <[u8; 16]>::ser(v.2)
    }

    fn serialize(&self, buf: &mut Vec<u8>) {
        self.nonce.serialize(buf);
        self.server_nonce.serialize(buf);
        self.new_nonce_hash3.serialize(buf);
        assert(buf@ =~= old(buf)@ + Self::ser(self.deep_view()));
    }
}

impl Deserializable for DhGenFail {
    open spec fn parse(s: Seq<u8>) -> Result<(Self::V, int)> {
        match <[u8; 16]>::parse(s) {
            Err(e) => Err(e),
            Ok((v0, n0)) => match <[u8; 16]>::parse(s.skip(n0)) {
                    Err(e) => Err(e),
                    Ok((v1, n1)) => match <[u8; 16]>::parse(s.skip(n0 + n1)) {
                            Err(e) => Err(e),
                            Ok((v2, n2)) => Ok(((v0, v1, v2), n0 + n1 + n2)),
                        },
                },
        }
    }

    fn deserialize(buf: &mut Cursor) -> (r: Result<Self>) {
        let ghost s = buf.rest();
        let ghost at = buf.spec_pos();
        let nonce = match <[u8; 16]>::deserialize(buf) {
            Ok(v) => v,
            Err(e) => {
                return Err(e);
            },
        };
        assert(buf.rest() =~= s.skip(buf.spec_pos() - at));
        let server_nonce = match <[u8; 16]>::deserialize(buf) {
            Ok(v) => v,
            Err(e) => {
                return Err(e);
            },
        };
        assert(buf.rest() =~= s.skip(buf.spec_pos() - at));
        let new_nonce_hash3 = match <[u8; 16]>::deserialize(buf) {
            Ok(v) => v,
            Err(e) => {
                return Err(e);
            },
        };
        Ok(DhGenFail { nonce, server_nonce, new_nonce_hash3 })
    }
}

} // verus!
