//! The requests of the key exchange. A request is written as its
//! constructor ID followed by its fields.

use vstd::prelude::*;
use crate::tl::enums;
use crate::tl::serialize::Serializable;
use crate::tl::wire::{le32, push_le32};
use crate::tl::{Identifiable, RemoteCall};

verus! {

/// Constructor ID of `req_pq_multi`.
pub const REQ_PQ_MULTI_ID: u32 = 0xbe7e8ef1;

/// Constructor ID of `req_DH_params`.
pub const REQ_DH_PARAMS_ID: u32 = 0xd712e4be;

/// Constructor ID of `set_client_DH_params`.
pub const SET_CLIENT_DH_PARAMS_ID: u32 = 0xf5045f1f;

/// `req_pq_multi`: the first request of the key exchange.
#[derive(Clone, Debug, PartialEq)]
pub struct ReqPqMulti {
    pub nonce: [u8; 16],
}

impl DeepView for ReqPqMulti {
    type V = Seq<u8>;

    open spec fn deep_view(&self) -> Self::V {
        self.nonce.deep_view()
    }
}

impl Identifiable for ReqPqMulti {
    open spec fn spec_constructor_id() -> u32 {
        REQ_PQ_MULTI_ID
    }

    fn constructor_id() -> (id: u32) {
        REQ_PQ_MULTI_ID
    }
}

impl Serializable for ReqPqMulti {
    open spec fn ser(v: Self::V) -> Seq<u8> {
        le32(REQ_PQ_MULTI_ID) + (<[u8; 16]>::ser(v))
    }

    fn serialize(&self, buf: &mut Vec<u8>) {
        push_le32(buf, REQ_PQ_MULTI_ID);
        self.nonce.serialize(buf);
        assert(buf@ =~= old(buf)@ + Self::ser(self.deep_view()));
    }
}

impl RemoteCall for ReqPqMulti {
    type Return = enums::ResPq;
}

/// `req_DH_params`: the second request: the factors and the RSA-encrypted inner data.
#[derive(Clone, Debug, PartialEq)]
pub struct ReqDhParams {
    pub nonce: [u8; 16],
    pub server_nonce: [u8; 16],
    pub p: Vec<u8>,
    pub q: Vec<u8>,
    pub public_key_fingerprint: i64,
    pub encrypted_data: Vec<u8>,
}

impl DeepView for ReqDhParams {
    type V = (Seq<u8>, Seq<u8>, Seq<u8>, Seq<u8>, i64, Seq<u8>);

    open spec fn deep_view(&self) -> Self::V {
        (self.nonce.deep_view(), self.server_nonce.deep_view(), self.p.deep_view(), self.q.deep_view(), self.public_key_fingerprint.deep_view(), self.encrypted_data.deep_view())
    }
}

impl Identifiable for ReqDhParams {
    open spec fn spec_constructor_id() -> u32 {
        REQ_DH_PARAMS_ID
    }

    fn constructor_id() -> (id: u32) {
        REQ_DH_PARAMS_ID
    }
}

impl Serializable for ReqDhParams {
    open spec fn ser(v: Self::V) -> Seq<u8> {
        le32(REQ_DH_PARAMS_ID) + (<[u8; 16]>::ser(v.0) + <[u8; 16]>::ser(v.1) + Vec::<u8>::ser(v.2) + Vec::<u8>::ser(v.3) + i64::ser(v.4) + Vec::<u8>::ser(v.5))
    }

    fn serialize(&self, buf: &mut Vec<u8>) {
        push_le32(buf, REQ_DH_PARAMS_ID);
        self.nonce.serialize(buf);
        self.server_nonce.serialize(buf);
        self.p.serialize(buf);
        self.q.serialize(buf);
        self.public_key_fingerprint.serialize(buf);
        self.encrypted_data.serialize(buf);
        assert(buf@ =~= old(buf)@ + Self::ser(self.deep_view()));
    }
}

impl RemoteCall for ReqDhParams {
    type Return = enums::ServerDhParams;
}

/// `set_client_DH_params`: the third request: the client's encrypted DH share.
#[derive(Clone, Debug, PartialEq)]
pub struct SetClientDhParams {
    pub nonce: [u8; 16],
    pub server_nonce: [u8; 16],
    pub encrypted_data: Vec<u8>,
}

impl DeepView for SetClientDhParams {
    type V = (Seq<u8>, Seq<u8>, Seq<u8>);

    open spec fn deep_view(&self) -> Self::V {
        (self.nonce.deep_view(), self.server_nonce.deep_view(), self.encrypted_data.deep_view())
    }
}

impl Identifiable for SetClientDhParams {
    open spec fn spec_constructor_id() -> u32 {
        SET_CLIENT_DH_PARAMS_ID
    }

    fn constructor_id() -> (id: u32) {
        SET_CLIENT_DH_PARAMS_ID
    }
}

impl Serializable for SetClientDhParams {
    open spec fn ser(v: Self::V) -> Seq<u8> {
        le32(SET_CLIENT_DH_PARAMS_ID) + (<[u8; 16]>::ser(v.0) + <[u8; 16]>::ser(v.1) + Vec::<u8>::ser(v.2))
    }

    fn serialize(&self, buf: &mut Vec<u8>) {
        push_le32(buf, SET_CLIENT_DH_PARAMS_ID);
        self.nonce.serialize(buf);
        self.server_nonce.serialize(buf);
        self.encrypted_data.serialize(buf);
        assert(buf@ =~= old(buf)@ + Self::ser(self.deep_view()));
    }
}

impl RemoteCall for SetClientDhParams {
    type Return = enums::SetClientDhParamsAnswer;
}

} // verus!
