//! A simulated transmit channel
//!
//! `Loopback` stands in for the DMA hardware off target. A transfer completes
//! only when [`Loopback::finish`] says so, which also latches the completion
//! interrupt; taking the buffer back then moves the bytes of that transfer to
//! the simulated wire.

use vstd::prelude::*;

use crate::ring::RingBuffer;
use crate::sink::Sink;

verus! {

/// A transmit channel whose hardware is simulated in software
pub struct Loopback {
    /// The buffer owned by the transfer in flight
    source: Option<RingBuffer>,
    /// The number of leading buffer bytes that the transfer sends
    in_flight: usize,
    /// The hardware completion flag
    done: bool,
    /// The completion interrupt latch
    interrupt: bool,
    /// Every byte sent so far
    wire: Vec<u8>,
}

impl Sink for Loopback {
    closed spec fn wf(&self) -> bool {
        match self.source {
            Some(b) => b.wf() && self.in_flight <= b@.len(),
            None => true,
        }
    }

    closed spec fn active(&self) -> bool {
        self.source is Some
    }

    closed spec fn done(&self) -> bool {
        self.done
    }

    closed spec fn interrupt(&self) -> bool {
        self.interrupt
    }

    closed spec fn queued(&self) -> Seq<u8> {
        match self.source {
            Some(b) => b@,
            None => Seq::empty(),
        }
    }

    closed spec fn in_flight(&self) -> nat {
        self.in_flight as nat
    }

    closed spec fn buffer_capacity(&self) -> nat {
        match self.source {
            Some(b) => b.spec_capacity(),
            None => 0,
        }
    }

    closed spec fn sent(&self) -> Seq<u8> {
        self.wire@
    }

    fn is_transfer_interrupt(&self) -> (r: bool) {
        self.interrupt
    }

    fn transfer_clear_interrupt(&mut self) {
        self.interrupt = false;
    }

    fn is_transfer_complete(&self) -> (r: bool) {
        self.source.is_some() && self.done
    }

    fn transfer_complete(&mut self) -> (r: Option<RingBuffer>) {
        if !self.done || self.source.is_none() {
            return None;
        }
        let mut buffer = self.source.take().unwrap();
        let ghost queued = buffer@;
        let ghost wire = self.wire@;
        let count = self.in_flight;
        let mut i: usize = 0;
        while i < count
            invariant
                self.source is None,
                self.in_flight == count,
                self.interrupt == old(self).interrupt,
                count == old(self).in_flight,
                queued == old(self).queued(),
                wire == old(self).sent(),
                buffer.wf(),
                buffer.spec_capacity() == old(self).buffer_capacity(),
                count <= queued.len(),
                i <= count,
                buffer@ == queued.skip(i as int),
                self.wire@ == wire + queued.take(i as int),
            decreases count - i,
        {
            let byte = buffer.pop();
            if let Some(b) = byte {
                self.wire.push(b);
            }
            assert(queued.skip(i as int).drop_first() =~= queued.skip(i + 1));
            assert(queued.take(i + 1) =~= queued.take(i as int).push(queued[i as int]));
            i = i + 1;
        }
        self.done = false;
        Some(buffer)
    }

    fn start_transfer(&mut self, buffer: RingBuffer) {
        self.in_flight = buffer.len();
        self.source = Some(buffer);
        self.done = false;
    }

    fn write_half(&mut self, bytes: &[u8]) -> (r: Option<usize>) {
        if self.source.is_none() {
            return None;
        }
        let mut buffer = self.source.take().unwrap();
        let n = buffer.insert(bytes);
        self.source = Some(buffer);
        Some(n)
    }
}

impl Loopback {
    /// A channel with no transfer and nothing sent.
    pub fn new() -> (r: Loopback)
        ensures
            r.wf(),
            !r.active(),
            !r.done(),
            !r.interrupt(),
            r.sent() == Seq::<u8>::empty(),
    {
        Loopback { source: None, in_flight: 0, done: false, interrupt: false, wire: Vec::new() }
    }

    /// The hardware finishes the transfer in flight, if there is one: the
    /// transfer becomes complete and the completion interrupt is latched.
    pub fn finish(&mut self)
        requires
            old(self).wf(),
        ensures
            final(self).wf(),
            final(self).active() == old(self).active(),
            final(self).queued() == old(self).queued(),
            final(self).in_flight() == old(self).in_flight(),
            final(self).buffer_capacity() == old(self).buffer_capacity(),
            final(self).sent() == old(self).sent(),
            old(self).active() ==> final(self).done() && final(self).interrupt(),
            !old(self).active() ==> final(self).done() == old(self).done() && final(self).interrupt()
                == old(self).interrupt(),
    {
        if self.source.is_some() {
            self.done = true;
            self.interrupt = true;
        }
    }

    /// Every byte sent so far, in order.
    pub fn sent_bytes(&self) -> (r: &[u8])
        ensures
            r@ == self.sent(),
    {
        self.wire.as_slice()
    }
}

} // verus!
