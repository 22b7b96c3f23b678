//! The envelopes around what the server sends: results, errors, containers,
//! packed payloads, housekeeping and updates.

use vstd::prelude::*;
use vstd::utf8::encode_utf8;
use crate::client::errors::{spec_split_message, InvocationError, RpcError};
use crate::client::inflate::{gz_inflate, spec_inflate};
use crate::client::session::{lenient_text, spec_lenient_text};
use crate::tl::wire::{as_i32, as_i64, copy_range, from_le32, from_le64, read_le32, read_le64};

verus! {

pub const ID_RPC_RESULT: u32 = 0xf35c6d01;

pub const ID_RPC_ERROR: u32 = 0x2144ca19;

pub const ID_MSG_CONTAINER: u32 = 0x73f1f8dc;

pub const ID_GZIP_PACKED: u32 = 0x3072cfa1;

pub const ID_PONG: u32 = 0x347773c5;

pub const ID_MSGS_ACK: u32 = 0x62d6b459;

pub const ID_BAD_SERVER_SALT: u32 = 0xedab447b;

pub const ID_NEW_SESSION: u32 = 0x9ec20908;

pub const ID_BAD_MSG_NOTIFY: u32 = 0xa7eff811;

pub const ID_UPDATES: u32 = 0x74ae4240;

pub const ID_UPDATE_SHORT: u32 = 0x78d4dec1;

pub const ID_UPDATES_COMBINED: u32 = 0x725b04c3;

pub const ID_UPDATE_SHORT_MSG: u32 = 0x313bc7f8;

pub const ID_UPDATE_SHORT_CHAT_MSG: u32 = 0x4d6deea5;

pub const ID_UPDATES_TOO_LONG: u32 = 0xe317af7e;

/// How deep envelopes may be nested.
pub const MAX_DEPTH: usize = 32;

/// The constructor `id` is housekeeping that this layer ignores.
pub open spec fn is_housekeeping(id: u32) -> bool {
    id == ID_PONG || id == ID_MSGS_ACK || id == ID_NEW_SESSION || id == ID_BAD_SERVER_SALT || id
        == ID_BAD_MSG_NOTIFY
}

/// The constructor `id` belongs to the family of updates.
pub open spec fn is_update_family(id: u32) -> bool {
    id == ID_UPDATES || id == ID_UPDATE_SHORT || id == ID_UPDATES_COMBINED || id
        == ID_UPDATE_SHORT_MSG || id == ID_UPDATE_SHORT_CHAT_MSG || id == ID_UPDATES_TOO_LONG
}

/// The answer to a request: the identifier of the request it answers,
/// where the envelope named one, and the serialized result.
#[derive(Debug, PartialEq, Eq)]
pub struct Reply {
    pub req_msg_id: Option<i64>,
    pub body: Vec<u8>,
}

/// What an incoming message holds for the layers above: at most one answer
/// for a caller, and the update bodies for the update engine, in the order in
/// which they came.
#[derive(Debug, PartialEq, Eq)]
pub struct Envelope {
    pub reply: Option<Reply>,
    pub updates: Vec<Vec<u8>>,
}

/// Why an incoming message holds nothing usable.
#[derive(Debug, PartialEq)]
pub enum EnvelopeError {
    /// The message, or an envelope in it, is shorter than its fixed part.
    TooShort,
    /// The server answered with an error.
    Rpc(RpcError),
    /// A packed payload could not be decompressed.
    Decompress,
    /// Envelopes are nested more than `MAX_DEPTH` deep.
    TooDeep,
}

/// An answer as contracts see it.
pub struct ReplyView {
    pub req_msg_id: Option<i64>,
    pub body: Seq<u8>,
}

/// An envelope as contracts see it.
pub struct EnvelopeView {
    pub reply: Option<ReplyView>,
    pub updates: Seq<Seq<u8>>,
}

/// An error as contracts see it.
pub enum EnvelopeErrorView {
    TooShort,
    Rpc { code: i32, name: Seq<u8>, value: Option<u32> },
    Decompress,
    TooDeep,
}

impl View for Reply {
    type V = ReplyView;

    open spec fn view(&self) -> ReplyView {
        ReplyView { req_msg_id: self.req_msg_id, body: self.body@ }
    }
}

impl View for Envelope {
    type V = EnvelopeView;

    open spec fn view(&self) -> EnvelopeView {
        EnvelopeView {
            reply: match self.reply {
                Some(r) => Some(r@),
                None => None,
            },
            updates: Seq::new(self.updates@.len(), |i: int| self.updates@[i]@),
        }
    }
}

impl View for EnvelopeError {
    type V = EnvelopeErrorView;

    open spec fn view(&self) -> EnvelopeErrorView {
        match self {
            EnvelopeError::TooShort => EnvelopeErrorView::TooShort,
            EnvelopeError::Rpc(e) => EnvelopeErrorView::Rpc {
                code: e.code,
                name: e.name_bytes(),
                value: e.value,
            },
            EnvelopeError::Decompress => EnvelopeErrorView::Decompress,
            EnvelopeError::TooDeep => EnvelopeErrorView::TooDeep,
        }
    }
}

impl EnvelopeError {
    /// The error as the client reports it.
    pub fn into_invocation(self) -> (e: InvocationError)
        ensures
            match self {
                EnvelopeError::Rpc(rpc) => e == InvocationError::Rpc(rpc),
                _ => e is Deserialize,
            },
    {
        match self {
            EnvelopeError::TooShort => InvocationError::Deserialize("body too short".to_string()),
            EnvelopeError::Rpc(rpc) => InvocationError::Rpc(rpc),
            EnvelopeError::Decompress => InvocationError::Deserialize(
                "decompression failed".to_string(),
            ),
            EnvelopeError::TooDeep => InvocationError::Deserialize(
                "envelopes nested too deeply".to_string(),
            ),
        }
    }
}

/// An envelope that holds nothing.
pub open spec fn nothing() -> EnvelopeView {
    EnvelopeView { reply: None, updates: Seq::empty() }
}

/// The byte string at the start of `data`, without regard to padding: one
/// length byte below 254, else three length bytes after the first; nothing
/// where `data` ends too early. No data at all is the empty string.
pub open spec fn spec_read_bytes(data: Seq<u8>) -> Option<Seq<u8>> {
    if data.len() == 0 {
        Some(Seq::empty())
    } else if data[0] < 254 {
        if data.len() < 1 + data[0] {
            None
        } else {
            Some(data.subrange(1, 1 + data[0]))
        }
    } else if data.len() >= 4 {
        let len = crate::client::framing::words24(data[1], data[2], data[3]) as int;
        if data.len() < 4 + len {
            None
        } else {
            Some(data.subrange(4, 4 + len))
        }
    } else {
        None
    }
}

/// Reads the byte string at the start of `data`.
pub fn tl_read_bytes(data: &[u8]) -> (r: Option<Vec<u8>>)
    ensures
        match spec_read_bytes(data@) {
            Some(v) => r is Some && r->Some_0@ == v,
            None => r is None,
        },
{
    if data.len() == 0 {
        return Some(Vec::new());
    }
    let (len, start): (usize, usize) = if data[0] < 254 {
        (data[0] as usize, 1)
    } else if data.len() >= 4 {
        let a = data[1];
        let b = data[2];
        let c = data[3];
        let len = (a as usize) | ((b as usize) << 8) | ((c as usize) << 16);
        assert(len < 0x100_0000) by (bit_vector)
            requires
                len == (a as usize) | ((b as usize) << 8) | ((c as usize) << 16),
        ;
        (len, 4)
    } else {
        return None;
    };
    if data.len() - start < len {
        return None;
    }
    Some(copy_range(data, start, start + len))
}

/// The text at the start of `data`, decoded leniently.
pub open spec fn spec_read_string(data: Seq<u8>) -> Option<Seq<char>> {
    match spec_read_bytes(data) {
        Some(b) => Some(spec_lenient_text(b)),
        None => None,
    }
}

/// Reads the text at the start of `data`.
pub fn tl_read_string(data: &[u8]) -> (r: Option<String>)
    ensures
        match spec_read_string(data@) {
            Some(v) => r is Some && r->Some_0@ == v,
            None => r is None,
        },
{
    match tl_read_bytes(data) {
        Some(b) => Some(lenient_text(b.as_slice())),
        None => None,
    }
}

/// The error that an `rpc_error` of at least 8 bytes carries: the code, and
/// name and value from the message. A message that cannot be read counts as
/// empty.
pub open spec fn spec_rpc_error(body: Seq<u8>) -> EnvelopeErrorView {
    let text = match spec_read_string(body.skip(8)) {
        Some(t) => t,
        None => Seq::empty(),
    };
    let (name, value) = spec_split_message(encode_utf8(text));
    EnvelopeErrorView::Rpc { code: as_i32(from_le32(body.skip(4))), name, value }
}

/// The answer of `inner`, named after the request `req` unless it names a
/// request already.
pub open spec fn name_reply(inner: EnvelopeView, req: i64) -> EnvelopeView {
    match inner.reply {
        Some(r) => EnvelopeView {
            reply: Some(
                ReplyView {
                    req_msg_id: if r.req_msg_id is Some {
                        r.req_msg_id
                    } else {
                        Some(req)
                    },
                    body: r.body,
                },
            ),
            updates: inner.updates,
        },
        None => inner,
    }
}

/// `acc` with what `item` holds added: the item's answer replaces an
/// earlier one, its updates follow the earlier ones.
pub open spec fn merge(acc: EnvelopeView, item: EnvelopeView) -> EnvelopeView {
    EnvelopeView {
        reply: if item.reply is Some {
            item.reply
        } else {
            acc.reply
        },
        updates: acc.updates + item.updates,
    }
}

/// What the message `body` holds, with `depth` levels of nesting allowed.
///
/// - `rpc_result` holds what its inner message holds, as the answer to the
///   request that it names;
/// - `rpc_error` is the server's error;
/// - `msg_container` holds what its items hold, taken together;
/// - `gzip_packed` holds what its decompressed payload holds;
/// - housekeeping holds nothing;
/// - a message of the update family is an update for the update engine;
/// - anything else is the answer itself.
pub open spec fn spec_unwrap(body: Seq<u8>, depth: nat) -> Result<EnvelopeView, EnvelopeErrorView>
    decreases depth, 1nat, 0nat,
{
    if body.len() < 4 {
        Err(EnvelopeErrorView::TooShort)
    } else {
        let id = from_le32(body);
        if id == ID_RPC_RESULT {
            if body.len() < 12 {
                Err(EnvelopeErrorView::TooShort)
            } else if depth == 0 {
                Err(EnvelopeErrorView::TooDeep)
            } else {
                match spec_unwrap(body.skip(12), (depth - 1) as nat) {
                    Ok(inner) => Ok(name_reply(inner, as_i64(from_le64(body.skip(4))))),
                    Err(e) => Err(e),
                }
            }
        } else if id == ID_RPC_ERROR {
            if body.len() < 8 {
                Err(EnvelopeErrorView::TooShort)
            } else {
                Err(spec_rpc_error(body))
            }
        } else if id == ID_MSG_CONTAINER {
            if body.len() < 8 {
                Err(EnvelopeErrorView::TooShort)
            } else if depth == 0 {
                Err(EnvelopeErrorView::TooDeep)
            } else {
                spec_items(body, 8, from_le32(body.skip(4)) as nat, depth, nothing())
            }
        } else if id == ID_GZIP_PACKED {
            let packed = match spec_read_bytes(body.skip(4)) {
                Some(b) => b,
                None => Seq::empty(),
            };
            match spec_inflate(packed) {
                None => Err(EnvelopeErrorView::Decompress),
                Some(inner) => if depth == 0 {
                    Err(EnvelopeErrorView::TooDeep)
                } else {
                    spec_unwrap(inner, (depth - 1) as nat)
                },
            }
        } else if is_housekeeping(id) {
            Ok(nothing())
        } else if is_update_family(id) {
            Ok(EnvelopeView { reply: None, updates: seq![body] })
        } else {
            Ok(EnvelopeView { reply: Some(ReplyView { req_msg_id: None, body }), updates: Seq::empty() })
        }
    }
}

/// What up to `count` items of the container `body` from `pos` on hold,
/// added to `acc`. Each item is 16 bytes of header, the last four of which
/// are the length of the message that follows. The container ends early
/// where an item does not fit in it.
pub open spec fn spec_items(body: Seq<u8>, pos: int, count: nat, depth: nat, acc: EnvelopeView) -> Result<
    EnvelopeView,
    EnvelopeErrorView,
>
    decreases depth, 0nat, count,
{
    if count == 0 || depth == 0 || pos < 0 || pos + 16 > body.len() {
        Ok(acc)
    } else {
        let len = from_le32(body.skip(pos + 12)) as int;
        if pos + 16 + len > body.len() {
            Ok(acc)
        } else {
            match spec_unwrap(body.subrange(pos + 16, pos + 16 + len), (depth - 1) as nat) {
                Err(e) => Err(e),
                Ok(item) => spec_items(
                    body,
                    pos + 16 + len,
                    (count - 1) as nat,
                    depth,
                    merge(acc, item),
                ),
            }
        }
    }
}

/// `r` is the outcome `expected`.
pub open spec fn unwrapped_is(
    r: Result<Envelope, EnvelopeError>,
    expected: Result<EnvelopeView, EnvelopeErrorView>,
) -> bool {
    match expected {
        Ok(v) => r is Ok && r->Ok_0@ == v,
        Err(e) => r is Err && r->Err_0@ == e,
    }
}

/// Opens the message `body`, with `depth` levels of nesting allowed.
pub fn unwrap_at(body: &[u8], depth: usize) -> (r: Result<Envelope, EnvelopeError>)
    ensures
        unwrapped_is(r, spec_unwrap(body@, depth as nat)),
    decreases depth, 1nat, 0nat,
{
    if body.len() < 4 {
        return Err(EnvelopeError::TooShort);
    }
    let id = read_le32(body, 0);
    assert(body@.skip(0) =~= body@);
    if id == ID_RPC_RESULT {
        if body.len() < 12 {
            return Err(EnvelopeError::TooShort);
        }
        if depth == 0 {
            return Err(EnvelopeError::TooDeep);
        }
        let req = #[verifier::truncate] (read_le64(body, 4) as i64);
        let inner = copy_range(body, 12, body.len());
        assert(inner@ =~= body@.skip(12));
        match unwrap_at(inner.as_slice(), depth - 1) {
            Ok(mut env) => {
                let ghost before = env@;
                match env.reply {
                    Some(reply) => {
                        let named = match reply.req_msg_id {
                            Some(id) => Some(id),
                            None => Some(req),
                        };
                        env.reply = Some(Reply { req_msg_id: named, body: reply.body });
                    },
                    None => {
                        env.reply = None;
                    },
                }
                assert(env@.updates =~= before.updates);
                Ok(env)
            },
            Err(e) => Err(e),
        }
    } else if id == ID_RPC_ERROR {
        if body.len() < 8 {
            return Err(EnvelopeError::TooShort);
        }
        let code = #[verifier::truncate] (read_le32(body, 4) as i32);
        let tail = copy_range(body, 8, body.len());
        assert(tail@ =~= body@.skip(8));
        let message = match tl_read_string(tail.as_slice()) {
            Some(m) => m,
            None => String::new(),
        };
        Err(EnvelopeError::Rpc(RpcError::from_telegram(code, message.as_str())))
    } else if id == ID_MSG_CONTAINER {
        if body.len() < 8 {
            return Err(EnvelopeError::TooShort);
        }
        if depth == 0 {
            return Err(EnvelopeError::TooDeep);
        }
        let count = read_le32(body, 4) as usize;
        unwrap_items(body, count, depth)
    } else if id == ID_GZIP_PACKED {
        let tail = copy_range(body, 4, body.len());
        assert(tail@ =~= body@.skip(4));
        let packed = match tl_read_bytes(tail.as_slice()) {
            Some(b) => b,
            None => Vec::new(),
        };
        match gz_inflate(packed.as_slice()) {
            None => Err(EnvelopeError::Decompress),
            Some(inner) => {
                if depth == 0 {
                    return Err(EnvelopeError::TooDeep);
                }
                unwrap_at(inner.as_slice(), depth - 1)
            },
        }
    } else if id == ID_PONG || id == ID_MSGS_ACK || id == ID_NEW_SESSION || id
        == ID_BAD_SERVER_SALT || id == ID_BAD_MSG_NOTIFY {
        let env = Envelope { reply: None, updates: Vec::new() };
        assert(env@.updates =~= Seq::<Seq<u8>>::empty());
        Ok(env)
    } else if id == ID_UPDATES || id == ID_UPDATE_SHORT || id == ID_UPDATES_COMBINED || id
        == ID_UPDATE_SHORT_MSG || id == ID_UPDATE_SHORT_CHAT_MSG || id == ID_UPDATES_TOO_LONG {
        let mut updates: Vec<Vec<u8>> = Vec::new();
        let copy = copy_range(body, 0, body.len());
        assert(copy@ =~= body@);
        updates.push(copy);
        let env = Envelope { reply: None, updates };
        assert(env@.updates =~= seq![body@]);
        Ok(env)
    } else {
        let copy = copy_range(body, 0, body.len());
        assert(copy@ =~= body@);
        let env = Envelope {
            reply: Some(Reply { req_msg_id: None, body: copy }),
            updates: Vec::new(),
        };
        assert(env@.updates =~= Seq::<Seq<u8>>::empty());
        Ok(env)
    }
}

/// Opens the items of the container `body`.
fn unwrap_items(body: &[u8], count: usize, depth: usize) -> (r: Result<Envelope, EnvelopeError>)
    requires
        body@.len() >= 8,
        depth > 0,
    ensures
        unwrapped_is(r, spec_items(body@, 8, count as nat, depth as nat, nothing())),
    decreases depth, 0nat, count,
{
    let mut acc = Envelope { reply: None, updates: Vec::new() };
    assert(acc@ == nothing()) by {
        assert(acc@.updates =~= Seq::<Seq<u8>>::empty());
    }
    let total = body.len();
    let mut pos: usize = 8;
    let mut left: usize = count;
    while left > 0 && total - pos >= 16
        invariant
            8 <= pos <= total,
            total == body@.len(),
            depth > 0,
            left <= count,
            spec_items(body@, 8, count as nat, depth as nat, nothing()) == spec_items(
                body@,
                pos as int,
                left as nat,
                depth as nat,
                acc@,
            ),
        decreases left,
    {
        let len = read_le32(body, pos + 12) as usize;
        if total - pos - 16 < len {
            return Ok(acc);
        }
        let inner = copy_range(body, pos + 16, pos + 16 + len);
        let ghost before = acc@;
        match unwrap_at(inner.as_slice(), depth - 1) {
            Err(e) => {
                return Err(e);
            },
            Ok(item) => {
                let ghost item_view = item@;
                let Envelope { reply, updates } = item;
                match reply {
                    Some(r) => {
                        acc.reply = Some(r);
                    },
                    None => {},
                }
                let mut moved = updates;
                acc.updates.append(&mut moved);
                assert(acc@ == merge(before, item_view)) by {
                    assert(acc@.updates =~= before.updates + item_view.updates);
                }
            },
        }
        pos = pos + 16 + len;
        left -= 1;
    }
    Ok(acc)
}

/// Opens an incoming message.
pub fn unwrap_envelope(body: &[u8]) -> (r: Result<Envelope, EnvelopeError>)
    ensures
        unwrapped_is(r, spec_unwrap(body@, MAX_DEPTH as nat)),
{
    unwrap_at(body, MAX_DEPTH)
}

} // verus!
