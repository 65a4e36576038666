//! The interface that streams offer to the server: receiving framed
//! messages and sending them. Implementations do the socket I/O.
use vstd::prelude::*;
use std::io::Error;

verus! {

#[verifier::external_type_specification]
#[verifier::external_body]
pub struct ExIoError(Error);

/// The receive side of a stream.
pub trait HRecv {
    /// Reads what the socket has and decodes the frames it completes.
    fn recv(&mut self) -> Result<(), Error>;

    /// Removes and returns the payloads of the completed frames.
    fn drain_rx_queue(&mut self) -> Vec<Vec<u8>>;
}

/// The send side of a stream.
pub trait HSend {
    /// Frames `buf` and writes what the socket takes; returns the number of
    /// bytes written.
    fn send(&mut self, buf: &[u8]) -> Result<usize, Error>;
}

} // verus!
