//! The transfer engine: a transmit channel that sends a buffer's bytes
//!
//! While a transfer is in flight the engine owns the buffer. It sends the bytes
//! that were unread when the transfer started; bytes appended meanwhile (through
//! the write half) stay in the buffer after them. Taking the buffer back once
//! the transfer is complete drops the sent bytes from it.

use vstd::prelude::*;

use crate::ring::{accepted, RingBuffer};

verus! {

/// A transmit capability that moves a buffer's bytes to a serial peripheral
///
/// The contracts describe the engine as the caller observes it: the hardware
/// finishes a transfer on its own, and the caller learns of it through
/// `is_transfer_complete`, which `done` models.
pub trait Sink: Sized {
    /// The engine's own well-formedness.
    spec fn wf(&self) -> bool;

    /// Whether a transfer owns a buffer: it was started and not taken back.
    spec fn active(&self) -> bool;

    /// Whether the hardware reports the transfer as complete.
    spec fn done(&self) -> bool;

    /// Whether the completion interrupt is latched.
    spec fn interrupt(&self) -> bool;

    /// The unread bytes of the owned buffer: first those the transfer sends,
    /// then the tail appended while it runs.
    spec fn queued(&self) -> Seq<u8>;

    /// How many leading queued bytes the transfer sends.
    spec fn in_flight(&self) -> nat;

    /// The capacity of the owned buffer.
    spec fn buffer_capacity(&self) -> nat;

    /// Every byte that completed transfers have sent, in order.
    spec fn sent(&self) -> Seq<u8>;

    /// Whether the completion interrupt is latched.
    fn is_transfer_interrupt(&self) -> (r: bool)
        requires
            self.wf(),
        ensures
            r == self.interrupt(),
    ;

    /// Clears the completion interrupt latch.
    fn transfer_clear_interrupt(&mut self)
        requires
            old(self).wf(),
        ensures
            final(self).wf(),
            !final(self).interrupt(),
            final(self).active() == old(self).active(),
            final(self).done() == old(self).done(),
            final(self).queued() == old(self).queued(),
            final(self).in_flight() == old(self).in_flight(),
            final(self).buffer_capacity() == old(self).buffer_capacity(),
            final(self).sent() == old(self).sent(),
    ;

    /// Whether the transfer is complete; the query changes nothing.
    fn is_transfer_complete(&self) -> (r: bool)
        requires
            self.wf(),
        ensures
            r == (self.active() && self.done()),
    ;

    /// Hands the buffer back once the transfer is complete, without the bytes
    /// it sent; returns nothing while the transfer runs, or when no transfer
    /// owns a buffer.
    fn transfer_complete(&mut self) -> (r: Option<RingBuffer>)
        requires
            old(self).wf(),
        ensures
            final(self).wf(),
            final(self).interrupt() == old(self).interrupt(),
            r is Some <==> old(self).active() && old(self).done(),
            r is None ==> {
                &&& final(self).active() == old(self).active()
                &&& final(self).done() == old(self).done()
                &&& final(self).queued() == old(self).queued()
                &&& final(self).in_flight() == old(self).in_flight()
                &&& final(self).sent() == old(self).sent()
            },
            r matches Some(b) ==> {
                &&& b.wf()
                &&& b@ == old(self).queued().skip(old(self).in_flight() as int)
                &&& b.spec_capacity() == old(self).buffer_capacity()
                &&& !final(self).active()
                &&& !final(self).done()
                &&& final(self).sent() == old(self).sent() + old(self).queued().take(
                    old(self).in_flight() as int,
                )
            },
    ;

    /// Starts a transfer of every unread byte of `buffer`, which the engine
    /// owns from now on.
    fn start_transfer(&mut self, buffer: RingBuffer)
        requires
            old(self).wf(),
            !old(self).active(),
            buffer.wf(),
        ensures
            final(self).wf(),
            final(self).active(),
            !final(self).done(),
            final(self).interrupt() == old(self).interrupt(),
            final(self).queued() == buffer@,
            final(self).in_flight() == buffer@.len(),
            final(self).buffer_capacity() == buffer.spec_capacity(),
            final(self).sent() == old(self).sent(),
    ;

    /// Appends to the tail of the owned buffer, behind the bytes in flight, as
    /// many leading bytes of `bytes` as fit. Returns how many, or nothing when
    /// no transfer owns a buffer.
    fn write_half(&mut self, bytes: &[u8]) -> (r: Option<usize>)
        requires
            old(self).wf(),
        ensures
            final(self).wf(),
            final(self).interrupt() == old(self).interrupt(),
            !old(self).active() ==> {
                &&& r is None
                &&& !final(self).active()
                &&& final(self).done() == old(self).done()
                &&& final(self).sent() == old(self).sent()
            },
            old(self).active() ==> (r matches Some(n) && {
                &&& n == accepted(
                    old(self).queued().len(),
                    old(self).buffer_capacity(),
                    bytes@.len(),
                )
                &&& final(self).queued() == old(self).queued() + bytes@.take(n as int)
                &&& final(self).active()
                &&& final(self).done() == old(self).done()
                &&& final(self).in_flight() == old(self).in_flight()
                &&& final(self).buffer_capacity() == old(self).buffer_capacity()
                &&& final(self).sent() == old(self).sent()
            }),
    ;
}

} // verus!
