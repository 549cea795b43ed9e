//! The duplex byte-channel capability: what the transaction engine
//! requires of a concrete transport (a serial port, a TCP socket, or a
//! test double), stated over the channel's own model of the request text
//! it has carried.
//!
//! The read side promises nothing about what arrives — the engine is
//! verified for every possible sequence of read outcomes — while the
//! write side tracks the text successfully sent, which is what the
//! gating contracts of the command validator are stated over.

use vstd::prelude::*;

verus! {

/// One attempt to read a chunk of pending response bytes.
pub enum ChunkRead {
    /// Bytes arrived.
    Data(Vec<u8>),
    /// The remote end reported end-of-stream.
    Eof,
    /// Nothing to read yet: a would-block or timed-out poll artifact,
    /// expected under a non-blocking or timeout-bounded configuration.
    Pending,
    /// A hard I/O failure, fatal to the transaction.
    Failed(String),
}

/// A duplex byte channel with explicit buffer clearing and a
/// per-transaction read deadline.
///
/// `written()` models the request text the channel has accepted so far;
/// it is how callers of the transaction engine state that a rejected
/// command caused no wire traffic.
pub trait Channel: Sized {
    /// The concatenation of all request text successfully sent. A
    /// verified implementation overrides this model; the default serves
    /// implementations outside the verifier's view, whose contracts are
    /// not checked anyway.
    open spec fn written(&self) -> Seq<char> {
        Seq::<char>::empty()
    }

    /// Discards any unread bytes pending on the input side, so that a
    /// stale reply can never be misframed as the next answer.
    fn clear_input(&mut self) -> (r: Result<(), String>)
        ensures
            final(self).written() == old(self).written(),
    ;

    /// Discards any not-yet-transmitted bytes on the output side.
    fn clear_output(&mut self) -> (r: Result<(), String>)
        ensures
            final(self).written() == old(self).written(),
    ;

    /// Writes the full request text and flushes it.
    fn send(&mut self, data: &str) -> (r: Result<(), String>)
        ensures
            r is Ok ==> final(self).written() == old(self).written() + data@,
            r is Err ==> final(self).written() == old(self).written(),
    ;

    /// Starts the read deadline for one transaction.
    fn reset_deadline(&mut self)
        ensures
            final(self).written() == old(self).written(),
    ;

    /// Whether the transaction's read deadline has passed.
    fn deadline_expired(&mut self) -> (r: bool)
        ensures
            final(self).written() == old(self).written(),
    ;

    /// Reads up to one chunk of pending response bytes.
    fn read_chunk(&mut self) -> (r: ChunkRead)
        ensures
            final(self).written() == old(self).written(),
    ;
}

} // verus!
