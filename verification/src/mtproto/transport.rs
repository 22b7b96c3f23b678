//! The byte channel under the protocol, and the abridged framing on top
//! of it.

use vstd::prelude::*;

verus! {

/// A duplex byte channel. `send` hands bytes to the other side; `recv`
/// gives the next complete packet.
pub trait Transport {
    /// What goes wrong on the channel.
    type Error;

    /// Sends `data`.
    fn send(&mut self, data: &[u8]) -> Result<(), Self::Error>;

    /// Receives the next packet.
    fn recv(&mut self) -> Result<Vec<u8>, Self::Error>;
}

/// The byte that announces the abridged framing, sent once per connection.
pub const ABRIDGED_INIT: u8 = 0xef;

/// The length prefix of an abridged frame of `len` bytes: the number of
/// 4-byte words in one byte if that is below 127, else `0x7f` and the low 24
/// bits of the number.
pub open spec fn spec_abridged_header(len: usize) -> Seq<u8> {
    let words = len / 4;
    if words < 127 {
        seq![words as u8]
    } else {
        seq![0x7fu8, (words & 0xff) as u8, ((words >> 8) & 0xff) as u8, ((words >> 16) & 0xff) as u8]
    }
}

/// The length prefix of an abridged frame of `len` bytes.
pub fn abridged_header(len: usize) -> (header: Vec<u8>)
    ensures
        header@ == spec_abridged_header(len),
{
    let words = len / 4;
    let mut header: Vec<u8> = Vec::new();
    if words < 127 {
        header.push(words as u8);
    } else {
        header.push(0x7f);
        header.push((words & 0xff) as u8);
        header.push(((words >> 8) & 0xff) as u8);
        header.push(((words >> 16) & 0xff) as u8);
    }
    assert(header@ =~= spec_abridged_header(len));
    header
}

/// What one message is handed to the channel as, piece by piece: the
/// announcing byte if it has not gone out yet, the length prefix, the data.
pub open spec fn spec_abridged_parts(init_sent: bool, data: Seq<u8>) -> Seq<Seq<u8>> {
    (if init_sent {
        Seq::<Seq<u8>>::empty()
    } else {
        seq![seq![ABRIDGED_INIT]]
    }) + seq![spec_abridged_header(data.len() as usize), data]
}

/// A transport with the abridged framing applied to what is sent.
pub struct AbridgedTransport<T: Transport> {
    inner: T,
    init_sent: bool,
    record: Ghost<Seq<Seq<u8>>>,
}

impl<T: Transport> AbridgedTransport<T> {
    /// Whether the announcing byte has gone out.
    pub closed spec fn init_sent(self) -> bool {
        self.init_sent
    }

    /// The channel underneath.
    pub closed spec fn inner(self) -> T {
        self.inner
    }

    /// What this transport has handed to the channel so far, piece by
    /// piece, whether the channel took it or not.
    pub closed spec fn handed(self) -> Seq<Seq<u8>> {
        self.record@
    }

    /// Wraps `inner`; nothing has been sent yet.
    pub fn new(inner: T) -> (t: Self)
        ensures
            !t.init_sent(),
            t.inner() == inner,
            t.handed() == Seq::<Seq<u8>>::empty(),
    {
        Self { inner, init_sent: false, record: Ghost(Seq::empty()) }
    }

    /// Sends `data` as one frame: the announcing byte if it has not gone
    /// out, the length prefix, the data. Stops at the first failure of the
    /// channel. Once the announcing byte is out it is never sent again.
    ///
    /// The pieces of the message are handed to the channel in order, up to
    /// and with the first that it refuses: at least one, and all of them
    /// where the message went out. The announcing byte counts as gone out as
    /// soon as a piece behind it was handed over.
    pub fn send_message(&mut self, data: &[u8]) -> (r: Result<(), T::Error>)
        ensures
            ({
                let parts = spec_abridged_parts(old(self).init_sent(), data@);
                let n = final(self).handed().len() - old(self).handed().len();
                &&& 1 <= n <= parts.len()
                &&& final(self).handed() == old(self).handed() + parts.take(n)
                &&& r is Ok ==> n == parts.len()
                &&& final(self).init_sent() == (old(self).init_sent() || n >= 2)
            }),
    {
        let ghost before = self.record@;
        let ghost parts = spec_abridged_parts(self.init_sent, data@);
        let ghost mut n: int = 0;
        if !self.init_sent {
            let init: [u8; 1] = [ABRIDGED_INIT];
            assert(init@ =~= seq![ABRIDGED_INIT]);
            proof {
                self.record@ = self.record@.push(init@);
                n = n + 1;
                assert(self.record@ =~= before + parts.take(n));
            }
            match self.inner.send(init.as_slice()) {
                Ok(()) => {},
                Err(e) => {
                    return Err(e);
                },
            }
            self.init_sent = true;
        }
        let header = abridged_header(data.len());
        proof {
            self.record@ = self.record@.push(header@);
            n = n + 1;
            assert(self.record@ =~= before + parts.take(n));
        }
        match self.inner.send(header.as_slice()) {
            Ok(()) => {},
            Err(e) => {
                return Err(e);
            },
        }
        proof {
            self.record@ = self.record@.push(data@);
            n = n + 1;
            assert(self.record@ =~= before + parts.take(n));
        }
        self.inner.send(data)
    }

    /// Receives the next packet of the channel.
    pub fn recv_message(&mut self) -> (r: Result<Vec<u8>, T::Error>)
        ensures
            final(self).init_sent() == old(self).init_sent(),
            final(self).handed() == old(self).handed(),
    {
        self.inner.recv()
    }

    /// The channel underneath.
    pub fn inner_mut(&mut self) -> (inner: &mut T)
        ensures
            *inner == old(self).inner(),
            final(self).inner() == *final(inner),
            final(self).init_sent() == old(self).init_sent(),
            final(self).handed() == old(self).handed(),
    {
        &mut self.inner
    }
}

} // verus!
