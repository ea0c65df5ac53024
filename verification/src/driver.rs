//! The pin and channel capability the engine drives, and the ghost log of
//! operations it performs.
//!
//! Every contract of the engine is stated over this log: which pins were
//! read or driven, which opcodes were written, what data moved, and how the
//! shared-channel lock was taken and given back. An implementation of
//! [`Ecp5Impl`] backs the log with whatever transport the board provides;
//! the engine's guarantees then hold for any implementation that meets the
//! method contracts below.

use crate::command::Command;
use vstd::prelude::*;

verus! {

/// The control pins of the device.
#[derive(Copy, Clone, Debug, PartialEq, Eq, Structural)]
pub enum Pin {
    /// Active-low device reset; driving it low (re)starts bitstream loading.
    ProgramN,
    /// Initialization complete, or a configuration error, depending on phase.
    InitN,
    /// User-mode indicator: high once the configured design is live.
    Done,
    /// Downstream application/design reset; high releases the design.
    DesignResetN,
}

/// One observable operation performed against the device.
pub enum Event {
    /// A pin was read and showed the given level.
    PinRead(Pin, bool),
    /// A pin was driven to the given level.
    PinSet(Pin, bool),
    /// A command opcode was written to the configuration port.
    CommandWrite(Command),
    /// Data bytes were read back from the configuration port.
    DataRead(Seq<u8>),
    /// Data bytes were streamed to the configuration port.
    DataWrite(Seq<u8>),
    /// The shared channel was locked.
    Lock,
    /// The shared channel was released.
    Release,
    /// Execution paused for the given number of ticks.
    Sleep(u64),
}

/// The bytes streamed to the configuration port over the course of `ev`:
/// the concatenation of every `DataWrite` payload, in order.
pub open spec fn written_bytes(ev: Seq<Event>) -> Seq<u8>
    decreases ev.len(),
{
    if ev.len() == 0 {
        Seq::<u8>::empty()
    } else {
        written_bytes(ev.drop_last()) + (match ev.last() {
            Event::DataWrite(d) => d,
            _ => Seq::<u8>::empty(),
        })
    }
}

/// `post` continues `pre` and everything appended satisfies `allowed`.
pub open spec fn delta_within(
    pre: Seq<Event>,
    post: Seq<Event>,
    allowed: spec_fn(Event) -> bool,
) -> bool {
    &&& pre.is_prefix_of(post)
    &&& forall|i: int| pre.len() <= i < post.len() ==> allowed(#[trigger] post[i])
}

/// Events of one atomic locked command cycle for opcode `c`.
pub open spec fn lock_cycle_event(e: Event, c: Command) -> bool {
    e == Event::Lock || e == Event::CommandWrite(c) || e == Event::Release
}

/// Events of one atomic locked command-and-read cycle for opcode `c`.
pub open spec fn read_cycle_event(e: Event, c: Command) -> bool {
    lock_cycle_event(e, c) || e is DataRead
}

/// Events of polling the status register at interval `t`.
pub open spec fn status_poll_event(e: Event, t: u64) -> bool {
    read_cycle_event(e, Command::ReadStatus) || e == Event::Sleep(t)
}

/// Events of polling the DONE pin at interval `t`.
pub open spec fn done_poll_event(e: Event, t: u64) -> bool {
    (e matches Event::PinRead(p, v) && p == Pin::Done) || e == Event::Sleep(t)
}

/// The capability backing the engine: four pins plus a lockable byte channel
/// to the configuration port. The transport reports failures as an opaque
/// code byte, surfaced by the engine as `FpgaError::ImplError`.
///
/// A failing operation has no observable effect on the device model. The
/// channel lock is taken and given back in strict alternation, and release
/// cannot fail, so the engine can guarantee release on every exit path.
pub trait Ecp5Impl: Sized {
    /// The log of operations performed so far against the device.
    spec fn events(&self) -> Seq<Event>;

    /// Whether this side currently holds the shared-channel lock.
    spec fn locked(&self) -> bool;

    /// Read the PROGRAM_N pin.
    fn program_n(&mut self) -> (r: Result<bool, u8>)
        ensures
            final(self).locked() == old(self).locked(),
            r matches Ok(v) ==> final(self).events() == old(self).events().push(
                Event::PinRead(Pin::ProgramN, v),
            ),
            r is Err ==> final(self).events() == old(self).events();

    /// Drive the PROGRAM_N pin.
    fn set_program_n(&mut self, asserted: bool) -> (r: Result<(), u8>)
        ensures
            final(self).locked() == old(self).locked(),
            r is Ok ==> final(self).events() == old(self).events().push(
                Event::PinSet(Pin::ProgramN, asserted),
            ),
            r is Err ==> final(self).events() == old(self).events();

    /// Read the INIT_N pin.
    fn init_n(&mut self) -> (r: Result<bool, u8>)
        ensures
            final(self).locked() == old(self).locked(),
            r matches Ok(v) ==> final(self).events() == old(self).events().push(
                Event::PinRead(Pin::InitN, v),
            ),
            r is Err ==> final(self).events() == old(self).events();

    /// Drive the INIT_N pin.
    fn set_init_n(&mut self, asserted: bool) -> (r: Result<(), u8>)
        ensures
            final(self).locked() == old(self).locked(),
            r is Ok ==> final(self).events() == old(self).events().push(
                Event::PinSet(Pin::InitN, asserted),
            ),
            r is Err ==> final(self).events() == old(self).events();

    /// Read the DONE pin.
    fn done(&mut self) -> (r: Result<bool, u8>)
        ensures
            final(self).locked() == old(self).locked(),
            r matches Ok(v) ==> final(self).events() == old(self).events().push(
                Event::PinRead(Pin::Done, v),
            ),
            r is Err ==> final(self).events() == old(self).events();

    /// Drive the DONE pin.
    fn set_done(&mut self, asserted: bool) -> (r: Result<(), u8>)
        ensures
            final(self).locked() == old(self).locked(),
            r is Ok ==> final(self).events() == old(self).events().push(
                Event::PinSet(Pin::Done, asserted),
            ),
            r is Err ==> final(self).events() == old(self).events();

    /// Read the design-reset pin.
    fn design_reset_n(&mut self) -> (r: Result<bool, u8>)
        ensures
            final(self).locked() == old(self).locked(),
            r matches Ok(v) ==> final(self).events() == old(self).events().push(
                Event::PinRead(Pin::DesignResetN, v),
            ),
            r is Err ==> final(self).events() == old(self).events();

    /// Drive the design-reset pin.
    fn set_design_reset_n(&mut self, asserted: bool) -> (r: Result<(), u8>)
        ensures
            final(self).locked() == old(self).locked(),
            r is Ok ==> final(self).events() == old(self).events().push(
                Event::PinSet(Pin::DesignResetN, asserted),
            ),
            r is Err ==> final(self).events() == old(self).events();

    /// Write a command opcode to the configuration port. Only meaningful
    /// while the channel is held.
    fn write_command(&mut self, c: Command) -> (r: Result<(), u8>)
        requires
            old(self).locked(),
        ensures
            final(self).locked(),
            r is Ok ==> final(self).events() == old(self).events().push(Event::CommandWrite(c)),
            r is Err ==> final(self).events() == old(self).events();

    /// Read exactly `n` bytes back from the configuration port.
    fn read(&mut self, n: usize) -> (r: Result<Vec<u8>, u8>)
        requires
            old(self).locked(),
        ensures
            final(self).locked(),
            r matches Ok(v) ==> v@.len() == n && final(self).events() == old(self).events().push(
                Event::DataRead(v@),
            ),
            r is Err ==> final(self).events() == old(self).events();

    /// Stream data bytes to the configuration port.
    fn write(&mut self, data: &[u8]) -> (r: Result<(), u8>)
        requires
            old(self).locked(),
        ensures
            final(self).locked(),
            r is Ok ==> final(self).events() == old(self).events().push(Event::DataWrite(data@)),
            r is Err ==> final(self).events() == old(self).events();

    /// Take the shared-channel lock.
    fn lock(&mut self) -> (r: Result<(), u8>)
        requires
            !old(self).locked(),
        ensures
            final(self).locked() == r is Ok,
            r is Ok ==> final(self).events() == old(self).events().push(Event::Lock),
            r is Err ==> final(self).events() == old(self).events();

    /// Give the shared-channel lock back. Release cannot fail, so callers
    /// can guarantee it on every exit path.
    fn release(&mut self)
        requires
            old(self).locked(),
        ensures
            !final(self).locked(),
            final(self).events() == old(self).events().push(Event::Release);

    /// Pause for the given number of ticks.
    fn sleep_for(&mut self, ticks: u64)
        ensures
            final(self).locked() == old(self).locked(),
            final(self).events() == old(self).events().push(Event::Sleep(ticks));
}

/// A log extension within `allowed` followed by another is itself one.
pub proof fn lemma_delta_within_trans(
    a: Seq<Event>,
    b: Seq<Event>,
    c: Seq<Event>,
    allowed: spec_fn(Event) -> bool,
)
    requires
        delta_within(a, b, allowed),
        delta_within(b, c, allowed),
    ensures
        delta_within(a, c, allowed),
{
    assert(a.is_prefix_of(c)) by {
        assert(a =~= c.subrange(0, a.len() as int));
    }
    assert forall|i: int| a.len() <= i < c.len() implies allowed(#[trigger] c[i]) by {
        if i < b.len() {
            assert(b[i] == c[i]);
        }
    }
}

/// Appending events that all satisfy `allowed` is an extension within it.
pub proof fn lemma_delta_within_concat(
    pre: Seq<Event>,
    delta: Seq<Event>,
    allowed: spec_fn(Event) -> bool,
)
    requires
        forall|i: int| 0 <= i < delta.len() ==> allowed(#[trigger] delta[i]),
    ensures
        delta_within(pre, pre + delta, allowed),
{
    assert(pre =~= (pre + delta).subrange(0, pre.len() as int));
    assert forall|i: int| pre.len() <= i < (pre + delta).len() implies allowed(
        #[trigger] (pre + delta)[i],
    ) by {
        assert((pre + delta)[i] == delta[i - pre.len()]);
    }
}

/// An element of a prefix stands unchanged in the longer log.
pub proof fn lemma_prefix_index(a: Seq<Event>, b: Seq<Event>, i: int)
    requires
        a.is_prefix_of(b),
        0 <= i < a.len(),
    ensures
        b[i] == a[i],
{
    assert(a[i] == b.subrange(0, a.len() as int)[i]);
}

/// A log extension within a stronger bound is within a weaker one.
pub proof fn lemma_delta_within_weaken(
    a: Seq<Event>,
    b: Seq<Event>,
    strong: spec_fn(Event) -> bool,
    weak: spec_fn(Event) -> bool,
)
    requires
        delta_within(a, b, strong),
        forall|e: Event| #[trigger] strong(e) ==> weak(e),
    ensures
        delta_within(a, b, weak),
{
    assert forall|i: int| a.len() <= i < b.len() implies weak(#[trigger] b[i]) by {
        assert(strong(b[i]));
    }
}

/// Appending a data write extends the streamed bytes by its payload;
/// appending anything else leaves them unchanged.
pub proof fn lemma_written_bytes_push(ev: Seq<Event>, e: Event)
    ensures
        e matches Event::DataWrite(d) ==> written_bytes(ev.push(e)) == written_bytes(ev) + d,
        !(e is DataWrite) ==> written_bytes(ev.push(e)) == written_bytes(ev),
{
    assert(ev.push(e).drop_last() =~= ev);
    match e {
        Event::DataWrite(d) => {},
        _ => {
            assert(written_bytes(ev) + Seq::<u8>::empty() =~= written_bytes(ev));
        },
    }
}

} // verus!
