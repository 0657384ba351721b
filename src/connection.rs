use vstd::prelude::*;

use crate::stream::{bytes_of, Stream};

verus! {

/// A connection to one SPI device: it owns exactly one transport, chosen when
/// the connection is made and never swapped, and forwards every operation to
/// it without buffering, retrying or translating anything.
pub struct Connection<S: Stream + Send> {
    stream: S,
}

impl<S: Stream + Send> Connection<S> {
    /// The transport that this connection owns, in its present state.
    pub closed spec fn transport(self) -> S {
        self.stream
    }

    /// Makes a connection that owns `stream`. It always succeeds.
    pub fn new(stream: S) -> (c: Self)
        ensures
            c.transport() == stream,
    {
        Connection { stream }
    }

    /// Writes `data` through the transport; its outcome is the transport's.
    pub fn write(&mut self, data: &[u8]) -> (r: Result<(), std::io::Error>)
        ensures
            S::write_spec(old(self).transport(), data@, final(self).transport(), r),
    {
        self.stream.write(data)
    }

    /// Reads `len` bytes through the transport; its outcome is the transport's.
    pub fn read(&mut self, len: usize) -> (r: Result<Vec<u8>, std::io::Error>)
        ensures
            S::read_spec(old(self).transport(), len as nat, final(self).transport(), bytes_of(r)),
            r is Ok ==> r->Ok_0@.len() == len,
    {
        self.stream.read(len)
    }

    /// Exchanges `data` with the transport in full duplex; its outcome is the
    /// transport's.
    pub fn transfer(&self, data: &[u8]) -> (r: Result<Vec<u8>, std::io::Error>)
        ensures
            S::transfer_spec(self.transport(), data@, bytes_of(r)),
            r is Ok ==> r->Ok_0@.len() == data@.len(),
    {
        self.stream.transfer(data)
    }
}

/// A connection holds no state of its own: two connections whose transports
/// are in the same state are the same, so whatever one may answer to a
/// `write`, `read` or `transfer`, the other may answer too.
pub proof fn lemma_connection_is_its_transport<S: Stream + Send>(a: Connection<S>, b: Connection<S>)
    requires
        a.transport() == b.transport(),
    ensures
        a == b,
{
}

} // verus!
