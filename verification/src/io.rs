//! The link to the arm: anything that can send a command frame and read the
//! arm's reply.

use vstd::prelude::*;

verus! {

/// `std::io::Error`, carried through from a connection to the caller.
#[verifier::external_type_specification]
#[verifier::external_body]
pub struct ExIoError(std::io::Error);

/// One call made on a connection, with what it gave back.
pub ghost enum Exchange {
    /// `write(command)`.
    Write { command: Seq<u8>, outcome: Result<(), std::io::Error> },
    /// `read()`.
    Read { reply: Result<Seq<u8>, std::io::Error> },
    /// `write_and_read(command)`.
    WriteRead { command: Seq<u8>, reply: Result<Seq<u8>, std::io::Error> },
}

/// The bytes of a reply, or the error in its place.
pub open spec fn reply_view(r: Result<Vec<u8>, std::io::Error>) -> Result<Seq<u8>, std::io::Error> {
    match r {
        Ok(v) => Ok(v@),
        Err(e) => Err(e),
    }
}

/// A link to the arm. Implementations do the I/O; the library decides what
/// to send and what a reply means.
///
/// An implementation keeps, as its `history`, the calls made on it through
/// this trait, oldest first, each with what it gave back. The contracts of
/// the methods below are what the library relies on of every implementation;
/// nothing here checks an implementation against them.
pub trait Connection {
    /// The calls made on this connection, oldest first. An implementation
    /// that is verified gives its own definition: with this default, which
    /// keeps no call, no body of the methods below meets their contracts.
    closed spec fn history(&self) -> Seq<Exchange> {
        Seq::empty()
    }

    /// Send `command` to the arm.
    fn write(&mut self, command: &[u8]) -> (r: Result<(), std::io::Error>)
        ensures
            final(self).history() == old(self).history().push(
                Exchange::Write { command: command@, outcome: r },
            ),
    ;

    /// Read one reply from the arm.
    fn read(&mut self) -> (r: Result<Vec<u8>, std::io::Error>)
        ensures
            final(self).history() == old(self).history().push(
                Exchange::Read { reply: reply_view(r) },
            ),
    ;

    /// Send `command`, then read one reply.
    fn write_and_read(&mut self, command: &[u8]) -> (r: Result<Vec<u8>, std::io::Error>)
        ensures
            final(self).history() == old(self).history().push(
                Exchange::WriteRead { command: command@, reply: reply_view(r) },
            ),
    ;
}

/// `std::io::Error::from(std::io::ErrorKind::InvalidData)`: the error given
/// back for a reply that does not hold the frame it announces. Nothing is
/// stated of the value.
#[verifier::external_body]
pub(crate) fn invalid_reply_error() -> std::io::Error {
    std::io::Error::from(std::io::ErrorKind::InvalidData)
}

} // verus!
