//! The non-blocking logging engine
//!
//! The engine holds exactly one of an idle buffer or a transfer in flight. A
//! record is serialized into the idle buffer, which then starts a transfer; or
//! into the buffer of a complete transfer, which is taken back and restarted;
//! or, while a transfer runs, into the tail of the buffer it owns. [`poll`] and
//! [`reclaim_in_interrupt`] take complete transfers back and restart them while
//! bytes remain.
//!
//! Every call is bounded work and never blocks. The caller provides mutual
//! exclusion: on target, each call runs inside one critical section.

use vstd::prelude::*;
use vstd::string::StringSliceAdditionalSpecFns;

use crate::filters::{filters_admit, Filter, Filters};
use crate::level::{level_passes, Level, LevelFilter};
use crate::loopback::Loopback;
use crate::record::{format_record, record_bytes};
use crate::ring::{accepted, RingBuffer};
use crate::sink::Sink;
use crate::{LoggingConfig, SetLoggerError};

verus! {

/// The state of the engine after a [`poll`]
#[derive(Clone, Copy, Debug, PartialEq, Eq, Structural)]
pub enum Poll {
    /// A transfer is in flight
    Active,
    /// No transfer is in flight; the next record starts one at once
    Idle,
}

/// The execution context of a call
#[derive(Clone, Copy, Debug, PartialEq, Eq, Structural)]
pub enum Context {
    /// Normal execution, outside any exception handler
    Thread,
    /// An interrupt or exception handler
    Interrupt,
}

/// The interrupt-only reclaim was called outside an interrupt handler
#[derive(Clone, Copy, Debug, PartialEq, Eq, Structural)]
pub struct NotInInterrupt;

/// The bytes of the record that `level`, `target` and `message` make.
pub open spec fn record_of(level: Level, target: &str, message: &str) -> Seq<u8> {
    record_bytes(level, target.spec_bytes(), message.spec_bytes())
}

/// The logging engine over a transfer engine `S`
pub struct Logger<S> {
    filters: Filters,
    sink: S,
    /// The buffer, while no transfer owns it
    buffer: Option<RingBuffer>,
    /// The capacity of the buffer
    capacity: Ghost<nat>,
    /// Every byte that went into the buffer, in order
    written: Ghost<Seq<u8>>,
}

impl<S: Sink> Logger<S> {
    /// The buffer is held by exactly one of the engine and the transfer, and
    /// what was sent followed by what is unsent is everything written.
    pub closed spec fn wf(&self) -> bool {
        &&& self.sink.wf()
        &&& match self.buffer {
            Some(b) => {
                &&& b.wf()
                &&& !self.sink.active()
                &&& b.spec_capacity() == self.capacity@
                &&& self.written@ == self.sink.sent() + b@
            },
            None => {
                &&& self.sink.active()
                &&& self.sink.in_flight() <= self.sink.queued().len()
                &&& self.sink.queued().len() <= self.capacity@
                &&& self.sink.buffer_capacity() == self.capacity@
                &&& self.written@ == self.sink.sent() + self.sink.queued()
            },
        }
    }

    /// Whether the engine holds the buffer: no transfer is in flight.
    pub closed spec fn idle(&self) -> bool {
        self.buffer is Some
    }

    /// Every byte that records put into the buffer, in order.
    pub closed spec fn written(&self) -> Seq<u8> {
        self.written@
    }

    /// Every byte that completed transfers sent, in order.
    pub closed spec fn sent(&self) -> Seq<u8> {
        self.sink.sent()
    }

    /// The buffered bytes not yet sent, oldest first.
    pub closed spec fn unsent(&self) -> Seq<u8> {
        match self.buffer {
            Some(b) => b@,
            None => self.sink.queued(),
        }
    }

    /// The capacity of the buffer.
    pub closed spec fn capacity(&self) -> nat {
        self.capacity@
    }

    /// The transfer engine.
    pub closed spec fn channel(&self) -> S {
        self.sink
    }

    /// The target filters.
    pub closed spec fn filter_list(&self) -> Seq<Filter> {
        self.filters.0@
    }

    /// How many leading unsent bytes a complete transfer would give up if
    /// it were taken back now.
    pub open spec fn reclaimable(&self) -> nat {
        if !self.idle() && self.channel().done() {
            self.channel().in_flight()
        } else {
            0
        }
    }

    /// Whether `next` follows from this state by one record of `bytes`.
    pub open spec fn recorded(self, next: Self, bytes: Seq<u8>) -> bool {
        let r = self.reclaimable();
        let kept = accepted((self.unsent().len() - r) as nat, self.capacity(), bytes.len());
        &&& next.written() == self.written() + bytes.take(kept as int)
        &&& next.sent() == self.sent() + self.unsent().take(r as int)
        &&& next.unsent() == self.unsent().skip(r as int) + bytes.take(kept as int)
        &&& next.capacity() == self.capacity()
        &&& next.filter_list() == self.filter_list()
        &&& !next.idle()
        &&& (!self.idle() && !self.channel().done()) ==> next.channel().in_flight()
            == self.channel().in_flight()
        &&& (self.idle() || self.channel().done()) ==> {
            &&& next.channel().in_flight() == next.unsent().len()
            &&& !next.channel().done()
        }
    }

    /// Whether `next` follows from this state by one servicing call: the
    /// interrupt latch is cleared and a complete transfer is taken back, then
    /// restarted if bytes remain.
    pub open spec fn serviced(self, next: Self) -> bool {
        let r = self.reclaimable();
        &&& next.written() == self.written()
        &&& next.sent() == self.sent() + self.unsent().take(r as int)
        &&& next.unsent() == self.unsent().skip(r as int)
        &&& next.capacity() == self.capacity()
        &&& next.filter_list() == self.filter_list()
        &&& !next.channel().interrupt()
        &&& self.idle() ==> next.idle()
        &&& (!self.idle() && !self.channel().done()) ==> {
            &&& !next.idle()
            &&& next.channel().in_flight() == self.channel().in_flight()
            &&& next.channel().done() == self.channel().done()
        }
        &&& (!self.idle() && self.channel().done()) ==> {
            &&& next.idle() == (next.unsent().len() == 0)
            &&& !next.idle() ==> next.channel().in_flight() == next.unsent().len()
                && !next.channel().done()
        }
    }

    /// An idle engine over `sink` that logs into `buffer`.
    pub fn new(sink: S, buffer: RingBuffer, filters: Filters) -> (r: Logger<S>)
        requires
            sink.wf(),
            !sink.active(),
            buffer.wf(),
        ensures
            r.wf(),
            r.idle(),
            r.unsent() == buffer@,
            r.written() == sink.sent() + buffer@,
            r.sent() == sink.sent(),
            r.capacity() == buffer.spec_capacity(),
            r.channel() == sink,
            r.filter_list() == filters.0@,
    {
        let ghost written = sink.sent() + buffer@;
        let ghost capacity = buffer.spec_capacity();
        Logger {
            filters,
            sink,
            buffer: Some(buffer),
            capacity: Ghost(capacity),
            written: Ghost(written),
        }
    }

    /// The transfer engine.
    pub fn sink(&self) -> (r: &S)
        ensures
            *r == self.channel(),
    {
        &self.sink
    }

    /// Whether a record of `level` from `target` is logged when the global
    /// maximum level is `max_level`.
    pub fn enabled(&self, level: Level, target: &str, max_level: LevelFilter) -> (r: bool)
        ensures
            r == (level_passes(level, max_level) && filters_admit(
                self.filter_list(),
                level,
                target@,
            )),
    {
        level.passes(max_level) && self.filters.is_enabled(level, target)
    }

    /// Serializes a record into the buffer and makes sure a transfer is in
    /// flight: an idle buffer starts one; a complete transfer is taken back,
    /// extended and restarted; a running transfer gets the record in its tail,
    /// and no transfer is started. Bytes that do not fit are dropped.
    pub fn record(&mut self, level: Level, target: &str, message: &str)
        requires
            old(self).wf(),
        ensures
            final(self).wf(),
            old(self).recorded(*final(self), record_of(level, target, message)),
    {
        let bytes = format_record(level, target, message);
        let ghost rec = bytes@;
        if self.buffer.is_some() {
            let mut buffer = self.buffer.take().unwrap();
            let n = buffer.insert(bytes.as_slice());
            self.written = Ghost(self.written@ + rec.take(n as int));
            proof {
                buffer.lemma_len_bounded();
                assert(self.written@ =~= self.sink.sent() + buffer@);
            }
            self.sink.start_transfer(buffer);
        } else if self.sink.is_transfer_complete() {
            let ghost queued = self.sink.queued();
            let ghost flight = self.sink.in_flight();
            let ghost sent = self.sink.sent();
            let reclaimed = self.sink.transfer_complete();
            match reclaimed {
                Some(buffer) => {
                    let mut buffer = buffer;
                    let n = buffer.insert(bytes.as_slice());
                    self.written = Ghost(self.written@ + rec.take(n as int));
                    proof {
                        buffer.lemma_len_bounded();
                        assert(queued =~= queued.take(flight as int) + queued.skip(flight as int));
                        assert(self.written@ =~= self.sink.sent() + buffer@);
                    }
                    self.sink.start_transfer(buffer);
                },
                None => {
                    proof {
                        assert(false);
                    }
                },
            }
        } else {
            let appended = self.sink.write_half(bytes.as_slice());
            let n = appended.unwrap();
            self.written = Ghost(self.written@ + rec.take(n as int));
            assert(self.written@ =~= self.sink.sent() + self.sink.queued());
        }
        assert(self.unsent() =~= old(self).unsent().skip(old(self).reclaimable() as int)
            + rec.take((self.written@.len() - old(self).written@.len()) as int));
    }

    /// Records the message if `enabled` lets it through, else does nothing.
    pub fn log(&mut self, level: Level, target: &str, message: &str, max_level: LevelFilter)
        requires
            old(self).wf(),
        ensures
            final(self).wf(),
            level_passes(level, max_level) && filters_admit(old(self).filter_list(), level, target@)
                ==> old(self).recorded(*final(self), record_of(level, target, message)),
            !(level_passes(level, max_level) && filters_admit(
                old(self).filter_list(),
                level,
                target@,
            )) ==> *final(self) == *old(self),
    {
        if self.enabled(level, target, max_level) {
            self.record(level, target, message);
        }
    }

    /// Drives the engine: clears the completion interrupt, takes a complete
    /// transfer back and restarts it if bytes remain. Returns whether the
    /// engine is now idle.
    pub fn poll(&mut self) -> (r: Poll)
        requires
            old(self).wf(),
        ensures
            final(self).wf(),
            old(self).serviced(*final(self)),
            r == Poll::Idle <==> final(self).idle(),
    {
        if self.sink.is_transfer_interrupt() {
            self.sink.transfer_clear_interrupt();
        }
        let ghost queued = self.sink.queued();
        let ghost flight = self.sink.in_flight();
        if self.sink.is_transfer_complete() {
            let reclaimed = self.sink.transfer_complete();
            if let Some(buffer) = reclaimed {
                proof {
                    assert(queued =~= queued.take(flight as int) + queued.skip(flight as int));
                    buffer.lemma_len_bounded();
                    assert(self.written@ =~= self.sink.sent() + buffer@);
                }
                if !buffer.is_empty() {
                    self.sink.start_transfer(buffer);
                } else {
                    self.buffer = Some(buffer);
                }
            }
        }
        proof {
            assert(old(self).unsent().skip(0) =~= old(self).unsent());
            assert(old(self).unsent().take(0) =~= Seq::<u8>::empty());
            assert(old(self).sent() + Seq::<u8>::empty() =~= old(self).sent());
        }
        if self.buffer.is_some() {
            Poll::Idle
        } else {
            Poll::Active
        }
    }

    /// The reclaim that only an interrupt handler may run: the same work as
    /// [`Logger::poll`], without the status. Outside an interrupt handler it
    /// changes nothing and reports the violation, which the caller treats as
    /// fatal.
    pub fn reclaim_in_interrupt(&mut self, context: Context) -> (r: Result<(), NotInInterrupt>)
        requires
            old(self).wf(),
        ensures
            final(self).wf(),
            r is Err <==> context == Context::Thread,
            r is Err ==> *final(self) == *old(self),
            r is Ok ==> old(self).serviced(*final(self)),
    {
        match context {
            Context::Thread => Err(NotInInterrupt),
            Context::Interrupt => {
                self.poll();
                Ok(())
            },
        }
    }
}

impl Logger<Loopback> {
    /// The simulated hardware finishes the transfer in flight, if there is one.
    pub fn finish_transfer(&mut self)
        requires
            old(self).wf(),
        ensures
            final(self).wf(),
            final(self).idle() == old(self).idle(),
            final(self).written() == old(self).written(),
            final(self).sent() == old(self).sent(),
            final(self).unsent() == old(self).unsent(),
            final(self).capacity() == old(self).capacity(),
            final(self).filter_list() == old(self).filter_list(),
            final(self).channel().in_flight() == old(self).channel().in_flight(),
            !old(self).idle() ==> final(self).channel().done() && final(self).channel().interrupt(),
    {
        self.sink.finish();
    }
}

/// The process-wide slot that holds the one registered engine
pub struct Registry<S> {
    logger: Option<Logger<S>>,
}

impl<S: Sink> Registry<S> {
    /// A registered engine is well formed.
    pub closed spec fn wf(&self) -> bool {
        self.logger matches Some(l) ==> l.wf()
    }

    /// Whether an engine was registered.
    pub closed spec fn is_set(&self) -> bool {
        self.logger is Some
    }

    /// The registered engine.
    pub closed spec fn current(&self) -> Logger<S> {
        self.logger->Some_0
    }

    /// A slot with no engine.
    pub fn new() -> (r: Registry<S>)
        ensures
            r.wf(),
            !r.is_set(),
    {
        Registry { logger: None }
    }

    /// The registered engine, if there is one.
    pub fn logger(&self) -> (r: Option<&Logger<S>>)
        ensures
            r is Some <==> self.is_set(),
            r matches Some(l) ==> *l == self.current(),
    {
        match &self.logger {
            Some(l) => Some(l),
            None => None,
        }
    }

    /// Logs through the registered engine; does nothing when none is.
    pub fn log(&mut self, level: Level, target: &str, message: &str, max_level: LevelFilter)
        requires
            old(self).wf(),
        ensures
            final(self).wf(),
            final(self).is_set() == old(self).is_set(),
            !old(self).is_set() ==> *final(self) == *old(self),
            old(self).is_set() && level_passes(level, max_level) && filters_admit(
                old(self).current().filter_list(),
                level,
                target@,
            ) ==> old(self).current().recorded(
                final(self).current(),
                record_of(level, target, message),
            ),
            old(self).is_set() && !(level_passes(level, max_level) && filters_admit(
                old(self).current().filter_list(),
                level,
                target@,
            )) ==> *final(self) == *old(self),
    {
        if self.logger.is_some() {
            let mut logger = self.logger.take().unwrap();
            logger.log(level, target, message, max_level);
            self.logger = Some(logger);
        }
    }
}

/// Registers an idle engine over `sink` and `buffer`, configured by `config`.
/// A second registration is refused and leaves the first engine in place.
pub fn init<S: Sink>(registry: &mut Registry<S>, sink: S, buffer: RingBuffer, config: LoggingConfig) -> (r:
    Result<(), SetLoggerError>)
    requires
        old(registry).wf(),
        sink.wf(),
        !sink.active(),
        buffer.wf(),
    ensures
        final(registry).wf(),
        final(registry).is_set(),
        r is Err <==> old(registry).is_set(),
        old(registry).is_set() ==> *final(registry) == *old(registry),
        !old(registry).is_set() ==> {
            let l = final(registry).current();
            &&& l.idle()
            &&& l.unsent() == buffer@
            &&& l.written() == sink.sent() + buffer@
            &&& l.sent() == sink.sent()
            &&& l.capacity() == buffer.spec_capacity()
            &&& l.channel() == sink
            &&& l.filter_list() == config.filters@
        },
{
    if registry.logger.is_some() {
        return Err(SetLoggerError(()));
    }
    registry.logger = Some(Logger::new(sink, buffer, Filters(config.filters)));
    Ok(())
}

/// Drives the registered engine; see [`Logger::poll`].
pub fn poll<S: Sink>(registry: &mut Registry<S>) -> (r: Poll)
    requires
        old(registry).wf(),
        old(registry).is_set(),
    ensures
        final(registry).wf(),
        final(registry).is_set(),
        old(registry).current().serviced(final(registry).current()),
        r == Poll::Idle <==> final(registry).current().idle(),
{
    let mut logger = registry.logger.take().unwrap();
    let r = logger.poll();
    registry.logger = Some(logger);
    r
}

/// The interrupt-only reclaim of the registered engine; see
/// [`Logger::reclaim_in_interrupt`].
pub fn reclaim_in_interrupt<S: Sink>(registry: &mut Registry<S>, context: Context) -> (r: Result<
    (),
    NotInInterrupt,
>)
    requires
        old(registry).wf(),
        old(registry).is_set(),
    ensures
        final(registry).wf(),
        final(registry).is_set(),
        r is Err <==> context == Context::Thread,
        r is Err ==> *final(registry) == *old(registry),
        r is Ok ==> old(registry).current().serviced(final(registry).current()),
{
    let mut logger = registry.logger.take().unwrap();
    let r = logger.reclaim_in_interrupt(context);
    registry.logger = Some(logger);
    r
}

/// Whether `next` follows from `prev` by a call that writes nothing: a poll, a
/// reclaim, a record that the filters drop, or the hardware finishing.
pub open spec fn quiet<S: Sink>(prev: Logger<S>, next: Logger<S>) -> bool {
    &&& next.written() == prev.written()
    &&& next.capacity() == prev.capacity()
    &&& next.unsent().len() <= prev.unsent().len()
}

/// Whether `next` follows from `prev` by `step`: a record of the given bytes,
/// or a call that writes nothing.
pub open spec fn step_holds<S: Sink>(prev: Logger<S>, next: Logger<S>, step: Option<Seq<u8>>) -> bool {
    match step {
        Some(bytes) => prev.recorded(next, bytes),
        None => quiet(prev, next),
    }
}

/// The bytes of the records among `steps`, in order.
pub open spec fn recorded_bytes(steps: Seq<Option<Seq<u8>>>) -> Seq<u8>
    decreases steps.len(),
{
    if steps.len() == 0 {
        Seq::empty()
    } else {
        recorded_bytes(steps.drop_last()) + match steps.last() {
            Some(bytes) => bytes,
            None => Seq::empty(),
        }
    }
}

/// What completed transfers sent, followed by what is still unsent, is exactly
/// what was written, and the unsent bytes fit in the buffer: bytes leave in the
/// order they were written, and nothing is lost or reordered on the way.
pub proof fn lemma_sent_then_unsent<S: Sink>(l: Logger<S>)
    requires
        l.wf(),
    ensures
        l.sent() + l.unsent() == l.written(),
        l.unsent().len() <= l.capacity(),
{
    if let Some(b) = l.buffer {
        b.lemma_len_bounded();
    }
}

/// A servicing call writes nothing.
pub proof fn lemma_serviced_is_quiet<S: Sink>(prev: Logger<S>, next: Logger<S>)
    requires
        prev.wf(),
        prev.serviced(next),
    ensures
        quiet(prev, next),
{
}

/// Records whose bytes, together with what was unsent at the start, fit in the
/// buffer are all kept, whole and in order, whatever polls, reclaims and
/// completed transfers come between them. Once nothing is left unsent, the
/// transfers have sent exactly those bytes after what was written before.
pub proof fn lemma_fitting_records_kept<S: Sink>(
    states: Seq<Logger<S>>,
    steps: Seq<Option<Seq<u8>>>,
)
    requires
        states.len() == steps.len() + 1,
        forall|i: int| 0 <= i < states.len() ==> #[trigger] states[i].wf(),
        forall|i: int|
            0 <= i < steps.len() ==> #[trigger] step_holds(states[i], states[i + 1], steps[i]),
        states[0].unsent().len() + recorded_bytes(steps).len() <= states[0].capacity(),
    ensures
        states.last().written() == states[0].written() + recorded_bytes(steps),
        states.last().unsent().len() <= states[0].unsent().len() + recorded_bytes(steps).len(),
        states.last().capacity() == states[0].capacity(),
        states.last().unsent().len() == 0 ==> states.last().sent() == states[0].written()
            + recorded_bytes(steps),
    decreases steps.len(),
{
    let n = steps.len() as int;
    lemma_sent_then_unsent(states.last());
    if n == 0 {
        assert(recorded_bytes(steps) =~= Seq::<u8>::empty());
        assert(states[0].written() + Seq::<u8>::empty() =~= states[0].written());
    } else {
        let pre_states = states.drop_last();
        let pre_steps = steps.drop_last();
        assert forall|i: int| 0 <= i < pre_states.len() implies #[trigger] pre_states[i].wf() by {
            assert(pre_states[i] == states[i]);
        }
        assert forall|i: int| 0 <= i < pre_steps.len() implies #[trigger] step_holds(
            pre_states[i],
            pre_states[i + 1],
            pre_steps[i],
        ) by {
            assert(step_holds(states[i], states[i + 1], steps[i]));
        }
        let last = match steps.last() {
            Some(bytes) => bytes,
            None => Seq::<u8>::empty(),
        };
        assert(recorded_bytes(steps) == recorded_bytes(pre_steps) + last);
        lemma_fitting_records_kept(pre_states, pre_steps);
        let a = states[n - 1];
        let b = states[n];
        assert(a == pre_states.last());
        assert(step_holds(a, b, steps[n - 1]));
        lemma_sent_then_unsent(a);
        match steps[n - 1] {
            Some(bytes) => {
                let r = a.reclaimable();
                assert(a.wf());
                if a.buffer is None {
                    assert(a.unsent() == a.sink.queued());
                }
                assert(r <= a.unsent().len());
                assert(bytes.take(bytes.len() as int) =~= bytes);
                assert(b.written() =~= states[0].written() + recorded_bytes(steps));
            },
            None => {
                assert(last =~= Seq::<u8>::empty());
                assert(recorded_bytes(steps) =~= recorded_bytes(pre_steps));
            },
        }
    }
}

/// A record that does not fit keeps only a prefix of its bytes, as many as the
/// buffer has room for, and leaves the engine consistent.
pub proof fn lemma_overflow_keeps_prefix<S: Sink>(prev: Logger<S>, next: Logger<S>, bytes: Seq<u8>)
    requires
        prev.wf(),
        next.wf(),
        prev.recorded(next, bytes),
    ensures
        ({
            let k = next.written().len() - prev.written().len();
            &&& 0 <= k <= bytes.len()
            &&& next.written() == prev.written() + bytes.take(k)
            &&& prev.unsent().len() - prev.reclaimable() + bytes.len() > prev.capacity() ==> k
                == prev.capacity() - (prev.unsent().len() - prev.reclaimable())
        }),
        next.unsent().len() <= next.capacity(),
        next.sent() + next.unsent() == next.written(),
{
    lemma_sent_then_unsent(prev);
    lemma_sent_then_unsent(next);
    assert(prev.reclaimable() <= prev.unsent().len());
}

/// Servicing an idle engine keeps it idle and changes nothing it holds: no
/// transfer is started, so repeated polls keep reporting idle.
pub proof fn lemma_idle_poll_is_stable<S: Sink>(prev: Logger<S>, next: Logger<S>)
    requires
        prev.wf(),
        next.wf(),
        prev.idle(),
        prev.serviced(next),
    ensures
        next.idle(),
        !next.channel().active(),
        next.unsent() == prev.unsent(),
        next.sent() == prev.sent(),
        next.written() == prev.written(),
{
    assert(prev.unsent().skip(0) =~= prev.unsent());
    assert(prev.sent() + prev.unsent().take(0) =~= prev.sent());
}

/// A transfer gives its bytes back at most once: right after a servicing call,
/// another one sends nothing and changes no ownership, since a transfer that
/// was just started is not complete.
pub proof fn lemma_reclaimed_once<S: Sink>(a: Logger<S>, b: Logger<S>, c: Logger<S>)
    requires
        a.wf(),
        b.wf(),
        a.serviced(b),
        b.serviced(c),
    ensures
        c.sent() == b.sent(),
        c.unsent() == b.unsent(),
        c.idle() == b.idle(),
{
    assert(b.reclaimable() == 0);
    assert(b.unsent().skip(0) =~= b.unsent());
    assert(b.sent() + b.unsent().take(0) =~= b.sent());
}

} // verus!
