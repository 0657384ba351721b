use vstd::prelude::*;

verus! {

/// The I/O error that every transport reports its failures with.
#[verifier::external_type_specification]
#[verifier::external_body]
pub struct ExIoError(std::io::Error);

/// The outcome of a byte-returning operation, with the bytes seen as a sequence.
pub open spec fn bytes_of(r: Result<Vec<u8>, std::io::Error>) -> Result<Seq<u8>, std::io::Error> {
    match r {
        Ok(v) => Ok(v@),
        Err(e) => Err(e),
    }
}

/// A byte-oriented SPI transport: a bus device, a simulator or a test double.
///
/// Each operation is one synchronous request to the transport. Failures are
/// reported as I/O errors and never retried here. What a transport may answer
/// is described by the three relations below; an implementation that says
/// nothing keeps them unconstrained, as a real device does.
///
/// A successful `read` always returns exactly the requested number of bytes:
/// the receiving buffer starts zero-filled, so bytes that the transport did not
/// supply read as zero. A successful `transfer` returns exactly as many bytes
/// as it sent.
pub trait Stream: Sized {
    /// Whether writing `data` to the transport in state `pre` may leave it in
    /// state `post` with outcome `r`.
    open spec fn write_spec(pre: Self, data: Seq<u8>, post: Self, r: Result<(), std::io::Error>) -> bool {
        true
    }

    /// Whether reading `len` bytes from the transport in state `pre` may leave
    /// it in state `post` with outcome `r`.
    open spec fn read_spec(pre: Self, len: nat, post: Self, r: Result<Seq<u8>, std::io::Error>) -> bool {
        true
    }

    /// Whether a full-duplex exchange of `data` with the transport in state
    /// `s` may have outcome `r`. An exchange leaves the transport unchanged.
    open spec fn transfer_spec(s: Self, data: Seq<u8>, r: Result<Seq<u8>, std::io::Error>) -> bool {
        true
    }

    /// Writes `data` to the device; no response bytes are captured.
    fn write(&mut self, data: &[u8]) -> (r: Result<(), std::io::Error>)
        ensures
            Self::write_spec(*old(self), data@, *final(self), r),
    ;

    /// Reads `len` bytes from the device.
    fn read(&mut self, len: usize) -> (r: Result<Vec<u8>, std::io::Error>)
        ensures
            Self::read_spec(*old(self), len as nat, *final(self), bytes_of(r)),
            r is Ok ==> r->Ok_0@.len() == len,
    ;

    /// Writes `data` to the device while reading as many bytes back, and
    /// returns the bytes read.
    fn transfer(&self, data: &[u8]) -> (r: Result<Vec<u8>, std::io::Error>)
        ensures
            Self::transfer_spec(*self, data@, bytes_of(r)),
            r is Ok ==> r->Ok_0@.len() == data@.len(),
    ;
}

} // verus!
