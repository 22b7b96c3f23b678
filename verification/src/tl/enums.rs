//! The boxed types of the key exchange: each value is written as the ID of
//! its constructor followed by the constructor's fields.

use vstd::prelude::*;
use crate::tl::deserialize::{parse_u32, take_u32, Cursor, Deserializable, Error, Result};
use crate::tl::serialize::Serializable;
use crate::tl::types;
use crate::tl::wire::{le32, push_le32};

verus! {

/// The answer to `req_pq_multi`.
#[derive(Clone, Debug, PartialEq)]
pub enum ResPq {
    ResPq(types::ResPq),
}

/// The value of a `ResPq` as the codec sees it.
pub enum ResPqView {
    ResPq(<types::ResPq as DeepView>::V),
}

impl DeepView for ResPq {
    type V = ResPqView;

    open spec fn deep_view(&self) -> Self::V {
        match self {
            ResPq::ResPq(x) => ResPqView::ResPq(x.deep_view()),
        }
    }
}

impl Serializable for ResPq {
    open spec fn ser(v: Self::V) -> Seq<u8> {
        match v {
            ResPqView::ResPq(x) => le32(types::RES_PQ_ID) + types::ResPq::ser(x),
        }
    }

    fn serialize(&self, buf: &mut Vec<u8>) {
        match self {
            ResPq::ResPq(x) => {
                push_le32(buf, types::RES_PQ_ID);
                x.serialize(buf);
            },
        }
        assert(buf@ =~= old(buf)@ + Self::ser(self.deep_view()));
    }
}

impl Deserializable for ResPq {
    open spec fn parse(s: Seq<u8>) -> Result<(Self::V, int)> {
        match parse_u32(s) {
            Err(e) => Err(e),
            Ok((id, n)) => if id == types::RES_PQ_ID {
                match types::ResPq::parse(s.skip(n)) {
                    Err(e) => Err(e),
                    Ok((x, m)) => Ok((ResPqView::ResPq(x), n + m)),
                }
            } else {
                Err(Error::UnexpectedConstructor { id })
            },
        }
    }

    fn deserialize(buf: &mut Cursor) -> (r: Result<Self>) {
        let ghost s = buf.rest();
        let id = match take_u32(buf) {
            Ok(v) => v,
            Err(e) => {
                return Err(e);
            },
        };
        assert(buf.rest() =~= s.skip(4));
        if id == types::RES_PQ_ID {
            match types::ResPq::deserialize(buf) {
                Ok(x) => Ok(ResPq::ResPq(x)),
                Err(e) => Err(e),
            }
        } else {
            Err(Error::UnexpectedConstructor { id })
        }
    }
}

/// The inner data of `req_DH_params`.
#[derive(Clone, Debug, PartialEq)]
pub enum PQInnerData {
    PQInnerData(types::PQInnerData),
}

/// The value of a `PQInnerData` as the codec sees it.
pub enum PQInnerDataView {
    PQInnerData(<types::PQInnerData as DeepView>::V),
}

impl DeepView for PQInnerData {
    type V = PQInnerDataView;

    open spec fn deep_view(&self) -> Self::V {
        match self {
            PQInnerData::PQInnerData(x) => PQInnerDataView::PQInnerData(x.deep_view()),
        }
    }
}

impl Serializable for PQInnerData {
    open spec fn ser(v: Self::V) -> Seq<u8> {
        match v {
            PQInnerDataView::PQInnerData(x) => le32(types::P_Q_INNER_DATA_ID) + types::PQInnerData::ser(x),
        }
    }

    fn serialize(&self, buf: &mut Vec<u8>) {
        match self {
            PQInnerData::PQInnerData(x) => {
                push_le32(buf, types::P_Q_INNER_DATA_ID);
                x.serialize(buf);
            },
        }
        assert(buf@ =~= old(buf)@ + Self::ser(self.deep_view()));
    }
}

impl Deserializable for PQInnerData {
    open spec fn parse(s: Seq<u8>) -> Result<(Self::V, int)> {
        match parse_u32(s) {
            Err(e) => Err(e),
            Ok((id, n)) => if id == types::P_Q_INNER_DATA_ID {
                match types::PQInnerData::parse(s.skip(n)) {
                    Err(e) => Err(e),
                    Ok((x, m)) => Ok((PQInnerDataView::PQInnerData(x), n + m)),
                }
            } else {
                Err(Error::UnexpectedConstructor { id })
            },
        }
    }

    fn deserialize(buf: &mut Cursor) -> (r: Result<Self>) {
        let ghost s = buf.rest();
        let id = match take_u32(buf) {
            Ok(v) => v,
            Err(e) => {
                return Err(e);
            },
        };
        assert(buf.rest() =~= s.skip(4));
        if id == types::P_Q_INNER_DATA_ID {
            match types::PQInnerData::deserialize(buf) {
                Ok(x) => Ok(PQInnerData::PQInnerData(x)),
                Err(e) => Err(e),
            }
        } else {
            Err(Error::UnexpectedConstructor { id })
        }
    }
}

/// The answer to `req_DH_params`.
#[derive(Clone, Debug, PartialEq)]
pub enum ServerDhParams {
    Fail(types::ServerDhParamsFail),
    ParamsOk(types::ServerDhParamsOk),
}

/// The value of a `ServerDhParams` as the codec sees it.
pub enum ServerDhParamsView {
    Fail(<types::ServerDhParamsFail as DeepView>::V),
    ParamsOk(<types::ServerDhParamsOk as DeepView>::V),
}

impl DeepView for ServerDhParams {
    type V = ServerDhParamsView;

    open spec fn deep_view(&self) -> Self::V {
        match self {
            ServerDhParams::Fail(x) => ServerDhParamsView::Fail(x.deep_view()),
            ServerDhParams::ParamsOk(x) => ServerDhParamsView::ParamsOk(x.deep_view()),
        }
    }
}

impl Serializable for ServerDhParams {
    open spec fn ser(v: Self::V) -> Seq<u8> {
        match v {
            ServerDhParamsView::Fail(x) => le32(types::SERVER_DH_PARAMS_FAIL_ID) + types::ServerDhParamsFail::ser(x),
            ServerDhParamsView::ParamsOk(x) => le32(types::SERVER_DH_PARAMS_OK_ID) + types::ServerDhParamsOk::ser(x),
        }
    }

    fn serialize(&self, buf: &mut Vec<u8>) {
        match self {
            ServerDhParams::Fail(x) => {
                push_le32(buf, types::SERVER_DH_PARAMS_FAIL_ID);
                x.serialize(buf);
            },
            ServerDhParams::ParamsOk(x) => {
                push_le32(buf, types::SERVER_DH_PARAMS_OK_ID);
                x.serialize(buf);
            },
        }
        assert(buf@ =~= old(buf)@ + Self::ser(self.deep_view()));
    }
}

impl Deserializable for ServerDhParams {
    open spec fn parse(s: Seq<u8>) -> Result<(Self::V, int)> {
        match parse_u32(s) {
            Err(e) => Err(e),
            Ok((id, n)) => if id == types::SERVER_DH_PARAMS_FAIL_ID {
                match types::ServerDhParamsFail::parse(s.skip(n)) {
                    Err(e) => Err(e),
                    Ok((x, m)) => Ok((ServerDhParamsView::Fail(x), n + m)),
                }
            } else if id == types::SERVER_DH_PARAMS_OK_ID {
                match types::ServerDhParamsOk::parse(s.skip(n)) {
                    Err(e) => Err(e),
                    Ok((x, m)) => Ok((ServerDhParamsView::ParamsOk(x), n + m)),
                }
            } else {
                Err(Error::UnexpectedConstructor { id })
            },
        }
    }

    fn deserialize(buf: &mut Cursor) -> (r: Result<Self>) {
        let ghost s = buf.rest();
        let id = match take_u32(buf) {
            Ok(v) => v,
            Err(e) => {
                return Err(e);
            },
        };
        assert(buf.rest() =~= s.skip(4));
        if id == types::SERVER_DH_PARAMS_FAIL_ID {
            match types::ServerDhParamsFail::deserialize(buf) {
                Ok(x) => Ok(ServerDhParams::Fail(x)),
                Err(e) => Err(e),
            }
        } else if id == types::SERVER_DH_PARAMS_OK_ID {
            match types::ServerDhParamsOk::deserialize(buf) {
                Ok(x) => Ok(ServerDhParams::ParamsOk(x)),
                Err(e) => Err(e),
            }
        } else {
            Err(Error::UnexpectedConstructor { id })
        }
    }
}

/// The decrypted answer of the server.
#[derive(Clone, Debug, PartialEq)]
pub enum ServerDhInnerData {
    ServerDhInnerData(types::ServerDhInnerData),
}

/// The value of a `ServerDhInnerData` as the codec sees it.
pub enum ServerDhInnerDataView {
    ServerDhInnerData(<types::ServerDhInnerData as DeepView>::V),
}

impl DeepView for ServerDhInnerData {
    type V = ServerDhInnerDataView;

    open spec fn deep_view(&self) -> Self::V {
        match self {
            ServerDhInnerData::ServerDhInnerData(x) => ServerDhInnerDataView::ServerDhInnerData(x.deep_view()),
        }
    }
}

impl Serializable for ServerDhInnerData {
    open spec fn ser(v: Self::V) -> Seq<u8> {
        match v {
            ServerDhInnerDataView::ServerDhInnerData(x) => le32(types::SERVER_DH_INNER_DATA_ID) + types::ServerDhInnerData::ser(x),
        }
    }

    fn serialize(&self, buf: &mut Vec<u8>) {
        match self {
            ServerDhInnerData::ServerDhInnerData(x) => {
                push_le32(buf, types::SERVER_DH_INNER_DATA_ID);
                x.serialize(buf);
            },
        }
        assert(buf@ =~= old(buf)@ + Self::ser(self.deep_view()));
    }
}

impl Deserializable for ServerDhInnerData {
    open spec fn parse(s: Seq<u8>) -> Result<(Self::V, int)> {
        match parse_u32(s) {
            Err(e) => Err(e),
            Ok((id, n)) => if id == types::SERVER_DH_INNER_DATA_ID {
                match types::ServerDhInnerData::parse(s.skip(n)) {
                    Err(e) => Err(e),
                    Ok((x, m)) => Ok((ServerDhInnerDataView::ServerDhInnerData(x), n + m)),
                }
            } else {
                Err(Error::UnexpectedConstructor { id })
            },
        }
    }

    fn deserialize(buf: &mut Cursor) -> (r: Result<Self>) {
        let ghost s = buf.rest();
        let id = match take_u32(buf) {
            Ok(v) => v,
            Err(e) => {
                return Err(e);
            },
        };
        assert(buf.rest() =~= s.skip(4));
        if id == types::SERVER_DH_INNER_DATA_ID {
            match types::ServerDhInnerData::deserialize(buf) {
                Ok(x) => Ok(ServerDhInnerData::ServerDhInnerData(x)),
                Err(e) => Err(e),
            }
        } else {
            Err(Error::UnexpectedConstructor { id })
        }
    }
}

/// The inner data of `set_client_DH_params`.
#[derive(Clone, Debug, PartialEq)]
pub enum ClientDhInnerData {
    ClientDhInnerData(types::ClientDhInnerData),
}

/// The value of a `ClientDhInnerData` as the codec sees it.
pub enum ClientDhInnerDataView {
    ClientDhInnerData(<types::ClientDhInnerData as DeepView>::V),
}

impl DeepView for ClientDhInnerData {
    type V = ClientDhInnerDataView;

    open spec fn deep_view(&self) -> Self::V {
        match self {
            ClientDhInnerData::ClientDhInnerData(x) => ClientDhInnerDataView::ClientDhInnerData(x.deep_view()),
        }
    }
}

impl Serializable for ClientDhInnerData {
    open spec fn ser(v: Self::V) -> Seq<u8> {
        match v {
            ClientDhInnerDataView::ClientDhInnerData(x) => le32(types::CLIENT_DH_INNER_DATA_ID) + types::ClientDhInnerData::ser(x),
        }
    }

    fn serialize(&self, buf: &mut Vec<u8>) {
        match self {
            ClientDhInnerData::ClientDhInnerData(x) => {
                push_le32(buf, types::CLIENT_DH_INNER_DATA_ID);
                x.serialize(buf);
            },
        }
        assert(buf@ =~= old(buf)@ + Self::ser(self.deep_view()));
    }
}

impl Deserializable for ClientDhInnerData {
    open spec fn parse(s: Seq<u8>) -> Result<(Self::V, int)> {
        match parse_u32(s) {
            Err(e) => Err(e),
            Ok((id, n)) => if id == types::CLIENT_DH_INNER_DATA_ID {
                match types::ClientDhInnerData::parse(s.skip(n)) {
                    Err(e) => Err(e),
                    Ok((x, m)) => Ok((ClientDhInnerDataView::ClientDhInnerData(x), n + m)),
                }
            } else {
                Err(Error::UnexpectedConstructor { id })
            },
        }
    }

    fn deserialize(buf: &mut Cursor) -> (r: Result<Self>) {
        let ghost s = buf.rest();
        let id = match take_u32(buf) {
            Ok(v) => v,
            Err(e) => {
                return Err(e);
            },
        };
        assert(buf.rest() =~= s.skip(4));
        if id == types::CLIENT_DH_INNER_DATA_ID {
            match types::ClientDhInnerData::deserialize(buf) {
                Ok(x) => Ok(ClientDhInnerData::ClientDhInnerData(x)),
                Err(e) => Err(e),
            }
        } else {
            Err(Error::UnexpectedConstructor { id })
        }
    }
}

/// The answer to `set_client_DH_params`.
#[derive(Clone, Debug, PartialEq)]
pub enum SetClientDhParamsAnswer {
    DhGenOk(types::DhGenOk),
    DhGenRetry(types::DhGenRetry),
    DhGenFail(types::DhGenFail),
}

/// The value of a `SetClientDhParamsAnswer` as the codec sees it.
pub enum SetClientDhParamsAnswerView {
    DhGenOk(<types::DhGenOk as DeepView>::V),
    DhGenRetry(<types::DhGenRetry as DeepView>::V),
    DhGenFail(<types::DhGenFail as DeepView>::V),
}

impl DeepView for SetClientDhParamsAnswer {
    type V = SetClientDhParamsAnswerView;

    open spec fn deep_view(&self) -> Self::V {
        match self {
            SetClientDhParamsAnswer::DhGenOk(x) => SetClientDhParamsAnswerView::DhGenOk(x.deep_view()),
            SetClientDhParamsAnswer::DhGenRetry(x) => SetClientDhParamsAnswerView::DhGenRetry(x.deep_view()),
            SetClientDhParamsAnswer::DhGenFail(x) => SetClientDhParamsAnswerView::DhGenFail(x.deep_view()),
        }
    }
}

impl Serializable for SetClientDhParamsAnswer {
    open spec fn ser(v: Self::V) -> Seq<u8> {
        match v {
            SetClientDhParamsAnswerView::DhGenOk(x) => le32(types::DH_GEN_OK_ID) + types::DhGenOk::ser(x),
            SetClientDhParamsAnswerView::DhGenRetry(x) => le32(types::DH_GEN_RETRY_ID) + types::DhGenRetry::ser(x),
            SetClientDhParamsAnswerView::DhGenFail(x) => le32(types::DH_GEN_FAIL_ID) + types::DhGenFail::ser(x),
        }
    }

    fn serialize(&self, buf: &mut Vec<u8>) {
        match self {
            SetClientDhParamsAnswer::DhGenOk(x) => {
                push_le32(buf, types::DH_GEN_OK_ID);
                x.serialize(buf);
            },
            SetClientDhParamsAnswer::DhGenRetry(x) => {
                push_le32(buf, types::DH_GEN_RETRY_ID);
                x.serialize(buf);
            },
            SetClientDhParamsAnswer::DhGenFail(x) => {
                push_le32(buf, types::DH_GEN_FAIL_ID);
                x.serialize(buf);
            },
        }
        assert(buf@ =~= old(buf)@ + Self::ser(self.deep_view()));
    }
}

impl Deserializable for SetClientDhParamsAnswer {
    open spec fn parse(s: Seq<u8>) -> Result<(Self::V, int)> {
        match parse_u32(s) {
            Err(e) => Err(e),
            Ok((id, n)) => if id == types::DH_GEN_OK_ID {
                match types::DhGenOk::parse(s.skip(n)) {
                    Err(e) => Err(e),
                    Ok((x, m)) => Ok((SetClientDhParamsAnswerView::DhGenOk(x), n + m)),
                }
            } else if id == types::DH_GEN_RETRY_ID {
                match types::DhGenRetry::parse(s.skip(n)) {
                    Err(e) => Err(e),
                    Ok((x, m)) => Ok((SetClientDhParamsAnswerView::DhGenRetry(x), n + m)),
                }
            } else if id == types::DH_GEN_FAIL_ID {
                match types::DhGenFail::parse(s.skip(n)) {
                    Err(e) => Err(e),
                    Ok((x, m)) => Ok((SetClientDhParamsAnswerView::DhGenFail(x), n + m)),
                }
            } else {
                Err(Error::UnexpectedConstructor { id })
            },
        }
    }

    fn deserialize(buf: &mut Cursor) -> (r: Result<Self>) {
        let ghost s = buf.rest();
        let id = match take_u32(buf) {
            Ok(v) => v,
            Err(e) => {
                return Err(e);
            },
        };
        assert(buf.rest() =~= s.skip(4));
        if id == types::DH_GEN_OK_ID {
            match types::DhGenOk::deserialize(buf) {
                Ok(x) => Ok(SetClientDhParamsAnswer::DhGenOk(x)),
                Err(e) => Err(e),
            }
        } else if id == types::DH_GEN_RETRY_ID {
            match types::DhGenRetry::deserialize(buf) {
                Ok(x) => Ok(SetClientDhParamsAnswer::DhGenRetry(x)),
                Err(e) => Err(e),
            }
        } else if id == types::DH_GEN_FAIL_ID {
            match types::DhGenFail::deserialize(buf) {
                Ok(x) => Ok(SetClientDhParamsAnswer::DhGenFail(x)),
                Err(e) => Err(e),
            }
        } else {
            Err(Error::UnexpectedConstructor { id })
        }
    }
}

} // verus!
