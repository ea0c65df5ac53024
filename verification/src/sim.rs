//! A scripted in-memory device implementing the [`Ecp5Impl`] capability.
//!
//! Pin levels and data-read answers come from fields the harness sets up in
//! advance, every operation is appended to an inspectable log, and each
//! method is proved to meet the capability's contract — so everything the
//! engine guarantees over the ghost event log holds, checked end to end,
//! when it drives this device.

use crate::command::Command;
use crate::driver::Ecp5Impl;
use crate::driver::Event;
use crate::driver::Pin;
use vstd::prelude::*;

verus! {

/// One logged operation, in executable form; its ghost view is [`Event`].
#[derive(Clone, Debug, PartialEq)]
pub enum EventRec {
    PinRead(Pin, bool),
    PinSet(Pin, bool),
    CommandWrite(Command),
    DataRead(Vec<u8>),
    DataWrite(Vec<u8>),
    Lock,
    Release,
    Sleep(u64),
}

impl EventRec {
    /// The ghost event this log entry stands for.
    pub open spec fn spec_event(self) -> Event {
        match self {
            EventRec::PinRead(p, v) => Event::PinRead(p, v),
            EventRec::PinSet(p, v) => Event::PinSet(p, v),
            EventRec::CommandWrite(c) => Event::CommandWrite(c),
            EventRec::DataRead(d) => Event::DataRead(d@),
            EventRec::DataWrite(d) => Event::DataWrite(d@),
            EventRec::Lock => Event::Lock,
            EventRec::Release => Event::Release,
            EventRec::Sleep(t) => Event::Sleep(t),
        }
    }
}

/// The ghost events of a log.
pub open spec fn spec_log_events(log: Seq<EventRec>) -> Seq<Event> {
    log.map_values(|e: EventRec| e.spec_event())
}

proof fn lemma_log_events_push(log: Seq<EventRec>, e: EventRec)
    ensures
        spec_log_events(log.push(e)) == spec_log_events(log).push(e.spec_event()),
{
    assert(spec_log_events(log.push(e)) =~= spec_log_events(log).push(e.spec_event()));
}

/// A simulated device: fixed pin levels, a countdown until DONE asserts,
/// and a queue of scripted data-read answers. It never fails.
pub struct SimDevice {
    /// Level returned for PROGRAM_N reads.
    pub pin_program_n: bool,
    /// Level returned for INIT_N reads.
    pub pin_init_n: bool,
    /// Level returned for design-reset reads.
    pub pin_design_reset_n: bool,
    /// DONE reads false this many more times, then true.
    pub done_after: u32,
    /// Scripted answers for data reads, consumed front first; a read finding
    /// no scripted answer of the right length sees zeroes.
    pub read_queue: Vec<Vec<u8>>,
    /// Whether this side holds the channel lock.
    pub chan_locked: bool,
    /// Everything done to the device so far.
    pub log: Vec<EventRec>,
}

impl SimDevice {
    /// A fresh device: out of reset, no fault signaled, design held in
    /// reset, DONE low until `done_after` reads have passed, nothing
    /// scripted and nothing logged.
    pub fn new(done_after: u32) -> (r: SimDevice)
        ensures
            r.events() == Seq::<Event>::empty(),
            !r.locked(),
    {
        let r = SimDevice {
            pin_program_n: true,
            pin_init_n: true,
            pin_design_reset_n: false,
            done_after,
            read_queue: Vec::new(),
            chan_locked: false,
            log: Vec::new(),
        };
        proof {
            assert(spec_log_events(r.log@) =~= Seq::<Event>::empty());
        }
        r
    }

    fn record(&mut self, e: EventRec)
        ensures
            final(self).log@ == old(self).log@.push(e),
            final(self).events() == old(self).events().push(e.spec_event()),
            final(self).chan_locked == old(self).chan_locked,
            final(self).pin_program_n == old(self).pin_program_n,
            final(self).pin_init_n == old(self).pin_init_n,
            final(self).pin_design_reset_n == old(self).pin_design_reset_n,
            final(self).done_after == old(self).done_after,
            final(self).read_queue == old(self).read_queue,
    {
        proof {
            lemma_log_events_push(self.log@, e);
        }
        self.log.push(e);
    }
}

impl Ecp5Impl for SimDevice {
    open spec fn events(&self) -> Seq<Event> {
        spec_log_events(self.log@)
    }

    open spec fn locked(&self) -> bool {
        self.chan_locked
    }

    fn program_n(&mut self) -> (r: Result<bool, u8>) {
        let v = self.pin_program_n;
        self.record(EventRec::PinRead(Pin::ProgramN, v));
        Ok(v)
    }

    fn set_program_n(&mut self, asserted: bool) -> (r: Result<(), u8>) {
        self.pin_program_n = asserted;
        self.record(EventRec::PinSet(Pin::ProgramN, asserted));
        Ok(())
    }

    fn init_n(&mut self) -> (r: Result<bool, u8>) {
        let v = self.pin_init_n;
        self.record(EventRec::PinRead(Pin::InitN, v));
        Ok(v)
    }

    fn set_init_n(&mut self, asserted: bool) -> (r: Result<(), u8>) {
        self.pin_init_n = asserted;
        self.record(EventRec::PinSet(Pin::InitN, asserted));
        Ok(())
    }

    fn done(&mut self) -> (r: Result<bool, u8>) {
        let v = self.done_after == 0;
        if !v {
            self.done_after = self.done_after - 1;
        }
        self.record(EventRec::PinRead(Pin::Done, v));
        Ok(v)
    }

    fn set_done(&mut self, asserted: bool) -> (r: Result<(), u8>) {
        self.record(EventRec::PinSet(Pin::Done, asserted));
        Ok(())
    }

    fn design_reset_n(&mut self) -> (r: Result<bool, u8>) {
        let v = self.pin_design_reset_n;
        self.record(EventRec::PinRead(Pin::DesignResetN, v));
        Ok(v)
    }

    fn set_design_reset_n(&mut self, asserted: bool) -> (r: Result<(), u8>) {
        self.pin_design_reset_n = asserted;
        self.record(EventRec::PinSet(Pin::DesignResetN, asserted));
        Ok(())
    }

    fn write_command(&mut self, c: Command) -> (r: Result<(), u8>) {
        self.record(EventRec::CommandWrite(c));
        Ok(())
    }

    fn read(&mut self, n: usize) -> (r: Result<Vec<u8>, u8>) {
        let mut data: Vec<u8> = Vec::new();
        let mut take_scripted = false;
        if self.read_queue.len() > 0 {
            if self.read_queue[0].len() == n {
                take_scripted = true;
            }
        }
        if take_scripted {
            data = self.read_queue.remove(0);
        } else {
            let mut i: usize = 0;
            while i < n
                invariant
                    data@.len() == i,
                    i <= n,
                decreases n - i,
            {
                data.push(0);
                i = i + 1;
            }
        }
        let copy = clone_bytes(&data);
        self.record(EventRec::DataRead(copy));
        Ok(data)
    }

    fn write(&mut self, data: &[u8]) -> (r: Result<(), u8>) {
        let copy = slice_to_vec(data);
        self.record(EventRec::DataWrite(copy));
        Ok(())
    }

    fn lock(&mut self) -> (r: Result<(), u8>) {
        self.chan_locked = true;
        self.record(EventRec::Lock);
        Ok(())
    }

    fn release(&mut self) {
        self.chan_locked = false;
        self.record(EventRec::Release);
    }

    fn sleep_for(&mut self, ticks: u64) {
        self.record(EventRec::Sleep(ticks));
    }
}

/// A fresh vector holding the same bytes.
fn clone_bytes(data: &Vec<u8>) -> (r: Vec<u8>)
    ensures
        r@ == data@,
{
    slice_to_vec(data.as_slice())
}

/// A fresh vector holding the bytes of a slice.
fn slice_to_vec(data: &[u8]) -> (r: Vec<u8>)
    ensures
        r@ == data@,
{
    let mut r: Vec<u8> = Vec::new();
    let mut i: usize = 0;
    while i < data.len()
        invariant
            i <= data@.len(),
            r@ == data@.take(i as int),
        decreases data@.len() - i,
    {
        r.push(data[i]);
        proof {
            assert(data@.take(i + 1) =~= data@.take(i as int).push(data@[i as int]));
        }
        i = i + 1;
    }
    proof {
        assert(data@.take(i as int) =~= data@);
    }
    r
}

} // verus!
