//! The device engine: atomic command protocol and pin-level lifecycle
//! operations, generic over the board's [`Ecp5Impl`] capability.

use crate::command::Command;
use crate::command::Id;
use crate::driver::Ecp5Impl;
use crate::driver::Event;
use crate::driver::Pin;
use crate::driver::lock_cycle_event;
use crate::driver::read_cycle_event;
use crate::driver::status_poll_event;
use crate::driver::done_poll_event;
use crate::driver::delta_within;
use crate::driver::lemma_delta_within_concat;
use crate::driver::lemma_prefix_index;
use crate::driver::lemma_delta_within_trans;
use crate::driver::lemma_delta_within_weaken;
use crate::errors::FpgaError;
use crate::status::Status;
use crate::DeviceState;
use vstd::prelude::*;

verus! {

/// A 16-bit value read back from the device, which answers in big-endian
/// byte order.
pub open spec fn spec_be16(b: Seq<u8>) -> u16 {
    (b[0] as u16) << 8 | (b[1] as u16)
}

/// A 32-bit value read back from the device, which answers in big-endian
/// byte order.
pub open spec fn spec_be32(b: Seq<u8>) -> u32 {
    (b[0] as u32) << 24 | (b[1] as u32) << 16 | (b[2] as u32) << 8 | (b[3] as u32)
}

/// How the device's lifecycle state is derived from its three control pins,
/// first match wins: held in reset; design live (DONE dominates INIT_N);
/// awaiting configuration; otherwise a fault.
pub open spec fn spec_state_from_pins(program_n: bool, done: bool, init_n: bool) -> DeviceState {
    if !program_n {
        DeviceState::Disabled
    } else if done {
        DeviceState::RunningApplication
    } else if init_n {
        DeviceState::AwaitingBitstream
    } else {
        DeviceState::Error
    }
}

/// Derive the lifecycle state from pin levels.
pub fn state_from_pins(program_n: bool, done: bool, init_n: bool) -> (s: DeviceState)
    ensures
        s == spec_state_from_pins(program_n, done, init_n),
{
    if !program_n {
        DeviceState::Disabled
    } else if done {
        DeviceState::RunningApplication
    } else if init_n {
        DeviceState::AwaitingBitstream
    } else {
        DeviceState::Error
    }
}

/// Law: the pin decision table is total and respects its priority order —
/// for every combination of the three pins exactly one state results, reset
/// dominates everything, and DONE dominates INIT_N.
pub proof fn lemma_state_priority_table()
    ensures
        forall|d: bool, i: bool| spec_state_from_pins(false, d, i) == DeviceState::Disabled,
        forall|i: bool| spec_state_from_pins(true, true, i) == DeviceState::RunningApplication,
        spec_state_from_pins(true, false, true) == DeviceState::AwaitingBitstream,
        spec_state_from_pins(true, false, false) == DeviceState::Error,
{
}

/// What `read32` returns once the transport delivered a value: an all-ones
/// answer to an identity or status read means the configuration port is
/// de-energized, every other value is returned verbatim.
pub open spec fn spec_read32_outcome(c: Command, v: u32) -> Result<u32, FpgaError> {
    if (c == Command::ReadStatus || c == Command::ReadId) && v == 0xffffffff {
        Err(FpgaError::PortDisabled)
    } else {
        Ok(v)
    }
}

/// Law: the port-disabled sentinel applies exactly to identity and status
/// reads; any other opcode returns the all-ones value verbatim.
pub proof fn lemma_port_disabled_sentinel(c: Command, v: u32)
    ensures
        c == Command::ReadStatus || c == Command::ReadId ==> spec_read32_outcome(c, 0xffffffff)
            == Err::<u32, FpgaError>(FpgaError::PortDisabled),
        c != Command::ReadStatus && c != Command::ReadId ==> spec_read32_outcome(c, v) == Ok::<
            u32,
            FpgaError,
        >(v),
        v != 0xffffffff ==> spec_read32_outcome(c, v) == Ok::<u32, FpgaError>(v),
{
}

/// The device handle: the engine that speaks the configuration protocol
/// over a board-provided capability.
pub struct Ecp5<D: Ecp5Impl> {
    pub driver: D,
}

impl<D: Ecp5Impl> Ecp5<D> {
    /// The log of operations performed so far against the device.
    pub open spec fn events(&self) -> Seq<Event> {
        self.driver.events()
    }

    /// Whether the engine currently holds the shared-channel lock.
    pub open spec fn locked(&self) -> bool {
        self.driver.locked()
    }

    /// Wrap a board capability into a device handle.
    pub fn new(driver: D) -> (r: Ecp5<D>)
        ensures
            r.events() == driver.events(),
            r.locked() == driver.locked(),
    {
        Ecp5 { driver }
    }

    /// Send a command which neither returns nor requires additional data.
    /// The opcode write is atomic with respect to other channel users: the
    /// channel is locked around it and released again on every exit path.
    pub fn send_command(&mut self, c: Command) -> (r: Result<(), FpgaError>)
        requires
            !old(self).locked(),
        ensures
            !final(self).locked(),
            r is Ok ==> final(self).events() == old(self).events() + seq![
                Event::Lock,
                Event::CommandWrite(c),
                Event::Release,
            ],
            r is Err ==> (r matches Err(FpgaError::ImplError(_))) && delta_within(
                old(self).events(),
                final(self).events(),
                |e: Event| e == Event::Lock || e == Event::Release,
            ),
    {
        let ghost pre = self.events();
        if let Err(code) = self.driver.lock() {
            return Err(FpgaError::ImplError(code));
        }
        if let Err(code) = self.driver.write_command(c) {
            self.driver.release();
            proof {
                assert(self.events() =~= pre + seq![Event::Lock, Event::Release]);
                assert(pre.is_prefix_of(self.events()));
            }
            return Err(FpgaError::ImplError(code));
        }
        self.driver.release();
        proof {
            assert(self.events() =~= pre + seq![
                Event::Lock,
                Event::CommandWrite(c),
                Event::Release,
            ]);
        }
        Ok(())
    }

    /// Send a command and read back `n` bytes, atomically under the channel
    /// lock. Data arrives in the device's big-endian order.
    pub fn read(&mut self, c: Command, n: usize) -> (r: Result<Vec<u8>, FpgaError>)
        requires
            !old(self).locked(),
        ensures
            !final(self).locked(),
            r matches Ok(v) ==> v@.len() == n && final(self).events() == old(self).events()
                + seq![
                Event::Lock,
                Event::CommandWrite(c),
                Event::DataRead(v@),
                Event::Release,
            ],
            r is Err ==> (r matches Err(FpgaError::ImplError(_))) && delta_within(
                old(self).events(),
                final(self).events(),
                |e: Event| lock_cycle_event(e, c),
            ),
    {
        let ghost pre = self.events();
        if let Err(code) = self.driver.lock() {
            return Err(FpgaError::ImplError(code));
        }
        if let Err(code) = self.driver.write_command(c) {
            self.driver.release();
            proof {
                assert(self.events() =~= pre + seq![Event::Lock, Event::Release]);
                assert(pre.is_prefix_of(self.events()));
            }
            return Err(FpgaError::ImplError(code));
        }
        let data = match self.driver.read(n) {
            Ok(data) => data,
            Err(code) => {
                self.driver.release();
                proof {
                    assert(self.events() =~= pre + seq![
                        Event::Lock,
                        Event::CommandWrite(c),
                        Event::Release,
                    ]);
                    assert(pre.is_prefix_of(self.events()));
                }
                return Err(FpgaError::ImplError(code));
            },
        };
        self.driver.release();
        proof {
            assert(self.events() =~= pre + seq![
                Event::Lock,
                Event::CommandWrite(c),
                Event::DataRead(data@),
                Event::Release,
            ]);
        }
        Ok(data)
    }

    /// Send a command and read back a 16-bit big-endian value.
    pub fn read16(&mut self, c: Command) -> (r: Result<u16, FpgaError>)
        requires
            !old(self).locked(),
        ensures
            !final(self).locked(),
            r matches Ok(v) ==> exists|b: Seq<u8>|
                b.len() == 2 && v == #[trigger] spec_be16(b) && final(self).events() == old(self).events()
                    + seq![
                    Event::Lock,
                    Event::CommandWrite(c),
                    Event::DataRead(b),
                    Event::Release,
                ],
            r is Err ==> (r matches Err(FpgaError::ImplError(_))) && delta_within(
                old(self).events(),
                final(self).events(),
                |e: Event| lock_cycle_event(e, c),
            ),
    {
        let data = self.read(c, 2)?;
        let v: u16 = (data[0] as u16) << 8 | (data[1] as u16);
        proof {
            assert(v == spec_be16(data@));
        }
        Ok(v)
    }

    /// Send a command and read back a 32-bit big-endian value. An all-ones
    /// answer to an identity or status read is reported as `PortDisabled`
    /// rather than as a register value, because a de-energized configuration
    /// port is otherwise indistinguishable from noise; the check applies to
    /// no other opcode.
    pub fn read32(&mut self, c: Command) -> (r: Result<u32, FpgaError>)
        requires
            !old(self).locked(),
        ensures
            !final(self).locked(),
            r is Ok || r == Err::<u32, FpgaError>(FpgaError::PortDisabled) ==> exists|b: Seq<u8>|
                b.len() == 4 && r == spec_read32_outcome(c, #[trigger] spec_be32(b)) && final(self).events()
                    == old(self).events() + seq![
                    Event::Lock,
                    Event::CommandWrite(c),
                    Event::DataRead(b),
                    Event::Release,
                ],
            r matches Err(e) ==> e == FpgaError::PortDisabled || e matches FpgaError::ImplError(_),
            r matches Err(FpgaError::ImplError(_)) ==> delta_within(
                old(self).events(),
                final(self).events(),
                |e: Event| lock_cycle_event(e, c),
            ),
    {
        let data = self.read(c, 4)?;
        let v: u32 = (data[0] as u32) << 24 | (data[1] as u32) << 16 | (data[2] as u32) << 8 | (
        data[3] as u32);
        proof {
            assert(v == spec_be32(data@));
        }
        if (c == Command::ReadStatus || c == Command::ReadId) && v == 0xffffffff {
            return Err(FpgaError::PortDisabled);
        }
        Ok(v)
    }

    /// Fetch the status register. The word is a live snapshot: it is read
    /// fresh on every call and never cached.
    pub fn status(&mut self) -> (r: Result<Status, FpgaError>)
        requires
            !old(self).locked(),
        ensures
            !final(self).locked(),
            r matches Ok(st) ==> exists|b: Seq<u8>|
                b.len() == 4 && st.0 == #[trigger] spec_be32(b) && st.0 != 0xffffffff && final(self).events()
                    == old(self).events() + seq![
                    Event::Lock,
                    Event::CommandWrite(Command::ReadStatus),
                    Event::DataRead(b),
                    Event::Release,
                ],
            r matches Err(e) ==> e == FpgaError::PortDisabled || e matches FpgaError::ImplError(_),
            delta_within(
                old(self).events(),
                final(self).events(),
                |e: Event| read_cycle_event(e, Command::ReadStatus),
            ),
    {
        let ghost pre = self.events();
        match self.read32(Command::ReadStatus) {
            Ok(v) => {
                proof {
                    let b = choose|b: Seq<u8>|
                        b.len() == 4 && Ok::<u32, FpgaError>(v) == spec_read32_outcome(
                            Command::ReadStatus,
                            #[trigger] spec_be32(b),
                        ) && self.events() == pre + seq![
                            Event::Lock,
                            Event::CommandWrite(Command::ReadStatus),
                            Event::DataRead(b),
                            Event::Release,
                        ];
                    assert(pre.is_prefix_of(self.events())) by {
                        assert(pre =~= self.events().subrange(0, pre.len() as int));
                    }
                    assert forall|i: int| pre.len() <= i < self.events().len() implies
                        read_cycle_event(#[trigger] self.events()[i], Command::ReadStatus) by {
                        let delta = seq![
                            Event::Lock,
                            Event::CommandWrite(Command::ReadStatus),
                            Event::DataRead(b),
                            Event::Release,
                        ];
                        assert(self.events()[i] == delta[i - pre.len()]);
                    }
                }
                Ok(Status(v))
            },
            Err(e) => {
                proof {
                    if e == FpgaError::PortDisabled {
                        let b = choose|b: Seq<u8>|
                            b.len() == 4 && Err::<u32, FpgaError>(e) == spec_read32_outcome(
                                Command::ReadStatus,
                                #[trigger] spec_be32(b),
                            ) && self.events() == pre + seq![
                                Event::Lock,
                                Event::CommandWrite(Command::ReadStatus),
                                Event::DataRead(b),
                                Event::Release,
                            ];
                        assert(self.events() == pre + seq![
                            Event::Lock,
                            Event::CommandWrite(Command::ReadStatus),
                            Event::DataRead(b),
                            Event::Release,
                        ]);
                        assert(pre.is_prefix_of(self.events())) by {
                            assert(pre =~= self.events().subrange(0, pre.len() as int));
                        }
                        assert forall|i: int| pre.len() <= i < self.events().len() implies
                            read_cycle_event(#[trigger] self.events()[i], Command::ReadStatus) by {
                            let delta = seq![
                                Event::Lock,
                                Event::CommandWrite(Command::ReadStatus),
                                Event::DataRead(b),
                                Event::Release,
                            ];
                            assert(self.events()[i] == delta[i - pre.len()]);
                        }
                    } else {
                        lemma_delta_within_weaken(
                            pre,
                            self.events(),
                            (|e2: Event| lock_cycle_event(e2, Command::ReadStatus)),
                            (|e2: Event| read_cycle_event(e2, Command::ReadStatus)),
                        );
                    }
                }
                Err(e)
            },
        }
    }
}

/// How long the device is held in reset during `reset_device`, in ticks.
pub const DEVICE_RESET_DURATION: u64 = 25;

/// How long the application design is held in reset during
/// `reset_application`, in ticks.
pub const APPLICATION_RESET_DURATION: u64 = 25;

/// The interval between busy-bit polls, in ticks.
pub const BUSY_DURATION: u64 = 10;

/// The interval between DONE-pin polls, in ticks.
pub const DONE_DURATION: u64 = 10;

impl<D: Ecp5Impl> Ecp5<D> {
    /// Whether the device is released from reset (PROGRAM_N high).
    pub fn device_enabled(&mut self) -> (r: Result<bool, FpgaError>)
        ensures
            final(self).locked() == old(self).locked(),
            r matches Ok(v) ==> final(self).events() == old(self).events().push(
                Event::PinRead(Pin::ProgramN, v),
            ),
            r is Err ==> (r matches Err(FpgaError::ImplError(_))) && final(self).events() == old(self).events(),
    {
        match self.driver.program_n() {
            Ok(v) => Ok(v),
            Err(code) => Err(FpgaError::ImplError(code)),
        }
    }

    /// Release the device from reset, or hold it there.
    pub fn set_device_enabled(&mut self, enabled: bool) -> (r: Result<(), FpgaError>)
        ensures
            final(self).locked() == old(self).locked(),
            r is Ok ==> final(self).events() == old(self).events().push(
                Event::PinSet(Pin::ProgramN, enabled),
            ),
            r is Err ==> (r matches Err(FpgaError::ImplError(_))) && final(self).events() == old(self).events(),
    {
        match self.driver.set_program_n(enabled) {
            Ok(()) => Ok(()),
            Err(code) => Err(FpgaError::ImplError(code)),
        }
    }

    /// Pulse the device reset: hold it in reset for `ticks`, then release.
    pub fn reset_device(&mut self, ticks: u64) -> (r: Result<(), FpgaError>)
        ensures
            final(self).locked() == old(self).locked(),
            r is Ok ==> final(self).events() == old(self).events() + seq![
                Event::PinSet(Pin::ProgramN, false),
                Event::Sleep(ticks),
                Event::PinSet(Pin::ProgramN, true),
            ],
            r is Err ==> (r matches Err(FpgaError::ImplError(_))) && (final(self).events() == old(self).events() || final(self).events() == old(self).events() + seq![
                Event::PinSet(Pin::ProgramN, false),
                Event::Sleep(ticks),
            ]),
    {
        let ghost pre = self.events();
        self.set_device_enabled(false)?;
        self.driver.sleep_for(ticks);
        proof {
            assert(self.events() =~= pre + seq![
                Event::PinSet(Pin::ProgramN, false),
                Event::Sleep(ticks),
            ]);
        }
        self.set_device_enabled(true)?;
        proof {
            assert(self.events() =~= pre + seq![
                Event::PinSet(Pin::ProgramN, false),
                Event::Sleep(ticks),
                Event::PinSet(Pin::ProgramN, true),
            ]);
        }
        Ok(())
    }

    /// Whether the downstream application design is released from reset.
    pub fn application_enabled(&mut self) -> (r: Result<bool, FpgaError>)
        ensures
            final(self).locked() == old(self).locked(),
            r matches Ok(v) ==> final(self).events() == old(self).events().push(
                Event::PinRead(Pin::DesignResetN, v),
            ),
            r is Err ==> (r matches Err(FpgaError::ImplError(_))) && final(self).events() == old(self).events(),
    {
        match self.driver.design_reset_n() {
            Ok(v) => Ok(v),
            Err(code) => Err(FpgaError::ImplError(code)),
        }
    }

    /// Release the downstream application design from reset, or hold it
    /// there so it cannot run against a half-loaded image.
    pub fn set_application_enabled(&mut self, enabled: bool) -> (r: Result<(), FpgaError>)
        ensures
            final(self).locked() == old(self).locked(),
            r is Ok ==> final(self).events() == old(self).events().push(
                Event::PinSet(Pin::DesignResetN, enabled),
            ),
            r is Err ==> (r matches Err(FpgaError::ImplError(_))) && final(self).events() == old(self).events(),
    {
        match self.driver.set_design_reset_n(enabled) {
            Ok(()) => Ok(()),
            Err(code) => Err(FpgaError::ImplError(code)),
        }
    }

    /// Pulse the application design reset.
    pub fn reset_application(&mut self, ticks: u64) -> (r: Result<(), FpgaError>)
        ensures
            final(self).locked() == old(self).locked(),
            r is Ok ==> final(self).events() == old(self).events() + seq![
                Event::PinSet(Pin::DesignResetN, false),
                Event::Sleep(ticks),
                Event::PinSet(Pin::DesignResetN, true),
            ],
            r is Err ==> (r matches Err(FpgaError::ImplError(_))) && (final(self).events() == old(self).events() || final(self).events() == old(self).events() + seq![
                Event::PinSet(Pin::DesignResetN, false),
                Event::Sleep(ticks),
            ]),
    {
        let ghost pre = self.events();
        self.set_application_enabled(false)?;
        self.driver.sleep_for(ticks);
        proof {
            assert(self.events() =~= pre + seq![
                Event::PinSet(Pin::DesignResetN, false),
                Event::Sleep(ticks),
            ]);
        }
        self.set_application_enabled(true)?;
        proof {
            assert(self.events() =~= pre + seq![
                Event::PinSet(Pin::DesignResetN, false),
                Event::Sleep(ticks),
                Event::PinSet(Pin::DesignResetN, true),
            ]);
        }
        Ok(())
    }

    /// Derive the device's lifecycle state from its control pins. Nothing
    /// is stored: the state is recomputed from fresh pin reads on every
    /// call, by the priority table of `spec_state_from_pins`.
    pub fn device_state(&mut self) -> (r: Result<DeviceState, FpgaError>)
        ensures
            final(self).locked() == old(self).locked(),
            r matches Ok(s) ==> match s {
                DeviceState::Disabled => final(self).events() == old(self).events().push(
                    Event::PinRead(Pin::ProgramN, false),
                ),
                DeviceState::RunningApplication => final(self).events() == old(self).events()
                    + seq![Event::PinRead(Pin::ProgramN, true), Event::PinRead(Pin::Done, true)],
                DeviceState::AwaitingBitstream => final(self).events() == old(self).events()
                    + seq![
                    Event::PinRead(Pin::ProgramN, true),
                    Event::PinRead(Pin::Done, false),
                    Event::PinRead(Pin::InitN, true),
                ],
                DeviceState::Error => final(self).events() == old(self).events() + seq![
                    Event::PinRead(Pin::ProgramN, true),
                    Event::PinRead(Pin::Done, false),
                    Event::PinRead(Pin::InitN, false),
                ],
            },
            r is Err ==> (r matches Err(FpgaError::ImplError(_))) && delta_within(
                old(self).events(),
                final(self).events(),
                (|e: Event| e matches Event::PinRead(pin, v)),
            ),
    {
        let ghost pre = self.events();
        let program_n = match self.driver.program_n() {
            Ok(v) => v,
            Err(code) => {
                proof {
                    lemma_delta_within_concat(
                        pre,
                        Seq::<Event>::empty(),
                        (|e: Event| e matches Event::PinRead(pin, v)),
                    );
                    assert(pre + Seq::<Event>::empty() =~= pre);
                }
                return Err(FpgaError::ImplError(code));
            },
        };
        if !program_n {
            proof {
                assert(spec_state_from_pins(false, false, false) == DeviceState::Disabled);
            }
            return Ok(DeviceState::Disabled);
        }
        let done = match self.driver.done() {
            Ok(v) => v,
            Err(code) => {
                proof {
                    lemma_delta_within_concat(
                        pre,
                        seq![Event::PinRead(Pin::ProgramN, true)],
                        (|e: Event| e matches Event::PinRead(pin, v)),
                    );
                    assert(self.events() =~= pre + seq![Event::PinRead(Pin::ProgramN, true)]);
                }
                return Err(FpgaError::ImplError(code));
            },
        };
        if done {
            proof {
                assert(self.events() =~= pre + seq![
                    Event::PinRead(Pin::ProgramN, true),
                    Event::PinRead(Pin::Done, true),
                ]);
                assert(spec_state_from_pins(true, true, false)
                    == DeviceState::RunningApplication);
            }
            return Ok(DeviceState::RunningApplication);
        }
        let init_n = match self.driver.init_n() {
            Ok(v) => v,
            Err(code) => {
                proof {
                    lemma_delta_within_concat(
                        pre,
                        seq![
                            Event::PinRead(Pin::ProgramN, true),
                            Event::PinRead(Pin::Done, false),
                        ],
                        (|e: Event| e matches Event::PinRead(pin, v)),
                    );
                    assert(self.events() =~= pre + seq![
                        Event::PinRead(Pin::ProgramN, true),
                        Event::PinRead(Pin::Done, false),
                    ]);
                }
                return Err(FpgaError::ImplError(code));
            },
        };
        proof {
            assert(self.events() =~= pre + seq![
                Event::PinRead(Pin::ProgramN, true),
                Event::PinRead(Pin::Done, false),
                Event::PinRead(Pin::InitN, init_n),
            ]);
            assert(spec_state_from_pins(true, false, init_n) == if init_n {
                DeviceState::AwaitingBitstream
            } else {
                DeviceState::Error
            });
        }
        if init_n {
            Ok(DeviceState::AwaitingBitstream)
        } else {
            Ok(DeviceState::Error)
        }
    }
}


impl<D: Ecp5Impl> Ecp5<D> {
    /// Read the device's user code register.
    pub fn user_code(&mut self) -> (r: Result<u32, FpgaError>)
        requires
            !old(self).locked(),
        ensures
            !final(self).locked(),
            r matches Ok(v) ==> exists|b: Seq<u8>|
                b.len() == 4 && v == #[trigger] spec_be32(b) && final(self).events() == old(self).events() + seq![
                    Event::Lock,
                    Event::CommandWrite(Command::ReadUserCode),
                    Event::DataRead(b),
                    Event::Release,
                ],
            r is Err ==> (r matches Err(FpgaError::ImplError(_))) && delta_within(
                old(self).events(),
                final(self).events(),
                |e: Event| lock_cycle_event(e, Command::ReadUserCode),
            ),
    {
        let ghost pre = self.events();
        match self.read32(Command::ReadUserCode) {
            Ok(v) => {
                proof {
                    let b = choose|b: Seq<u8>|
                        b.len() == 4 && Ok::<u32, FpgaError>(v) == spec_read32_outcome(
                            Command::ReadUserCode,
                            #[trigger] spec_be32(b),
                        ) && self.events() == pre + seq![
                            Event::Lock,
                            Event::CommandWrite(Command::ReadUserCode),
                            Event::DataRead(b),
                            Event::Release,
                        ];
                    assert(v == spec_be32(b));
                }
                Ok(v)
            },
            Err(e) => {
                proof {
                    if e == FpgaError::PortDisabled {
                        let b = choose|b: Seq<u8>|
                            b.len() == 4 && Err::<u32, FpgaError>(e) == spec_read32_outcome(
                                Command::ReadUserCode,
                                #[trigger] spec_be32(b),
                            ) && self.events() == pre + seq![
                                Event::Lock,
                                Event::CommandWrite(Command::ReadUserCode),
                                Event::DataRead(b),
                                Event::Release,
                            ];
                        // The sentinel never applies to a user-code read,
                        // so this branch contradicts read32's contract.
                        assert(false);
                    }
                }
                Err(e)
            },
        }
    }

    /// Read and validate the device identity register; a code that does not
    /// name a known device of the family is rejected as `InvalidValue`.
    pub fn device_id(&mut self) -> (r: Result<u32, FpgaError>)
        requires
            !old(self).locked(),
        ensures
            !final(self).locked(),
            r matches Ok(v) ==> (Id::spec_from_code(v) is Some) && exists|b: Seq<u8>|
                b.len() == 4 && v == #[trigger] spec_be32(b) && final(self).events() == old(self).events() + seq![
                    Event::Lock,
                    Event::CommandWrite(Command::ReadId),
                    Event::DataRead(b),
                    Event::Release,
                ],
            r == Err::<u32, FpgaError>(FpgaError::InvalidValue) ==> exists|b: Seq<u8>|
                b.len() == 4 && (Id::spec_from_code(#[trigger] spec_be32(b)) is None) && final(self).events() == old(self).events() + seq![
                    Event::Lock,
                    Event::CommandWrite(Command::ReadId),
                    Event::DataRead(b),
                    Event::Release,
                ],
            r matches Err(e) ==> e == FpgaError::PortDisabled || e == FpgaError::InvalidValue || (
            e matches FpgaError::ImplError(_)),
            r matches Err(FpgaError::ImplError(_)) ==> delta_within(
                old(self).events(),
                final(self).events(),
                |e: Event| lock_cycle_event(e, Command::ReadId),
            ),
    {
        let ghost pre = self.events();
        let v = match self.read32(Command::ReadId) {
            Ok(v) => v,
            Err(e) => {
                return Err(e);
            },
        };
        proof {
            let b = choose|b: Seq<u8>|
                b.len() == 4 && Ok::<u32, FpgaError>(v) == spec_read32_outcome(
                    Command::ReadId,
                    #[trigger] spec_be32(b),
                ) && self.events() == pre + seq![
                    Event::Lock,
                    Event::CommandWrite(Command::ReadId),
                    Event::DataRead(b),
                    Event::Release,
                ];
            assert(v == spec_be32(b));
        }
        match Id::from_code(v) {
            Some(_) => Ok(v),
            None => Err(FpgaError::InvalidValue),
        }
    }

    /// Enter configuration mode, making the configuration commands and the
    /// bitstream loading process available.
    pub fn enable_configuration_mode(&mut self) -> (r: Result<(), FpgaError>)
        requires
            !old(self).locked(),
        ensures
            !final(self).locked(),
            r is Ok ==> final(self).events() == old(self).events() + seq![
                Event::Lock,
                Event::CommandWrite(Command::EnableConfigurationMode),
                Event::Release,
            ],
            r is Err ==> (r matches Err(FpgaError::ImplError(_))) && delta_within(
                old(self).events(),
                final(self).events(),
                |e: Event| e == Event::Lock || e == Event::Release,
            ),
    {
        self.send_command(Command::EnableConfigurationMode)
    }

    /// Leave configuration mode. If a bitstream was accepted this also
    /// starts the device's own wake-up sequence into user mode.
    pub fn disable_configuration_mode(&mut self) -> (r: Result<(), FpgaError>)
        requires
            !old(self).locked(),
        ensures
            !final(self).locked(),
            r is Ok ==> final(self).events() == old(self).events() + seq![
                Event::Lock,
                Event::CommandWrite(Command::DisableConfigurationMode),
                Event::Release,
            ],
            r is Err ==> (r matches Err(FpgaError::ImplError(_))) && delta_within(
                old(self).events(),
                final(self).events(),
                |e: Event| e == Event::Lock || e == Event::Release,
            ),
    {
        self.send_command(Command::DisableConfigurationMode)
    }

    /// Poll the status register at a fixed interval until the busy bit
    /// clears. The wait is bounded only by `max_polls`; callers wanting the
    /// datasheet behavior of waiting out the device's documented maximum
    /// configuration time pass a budget far beyond it, and exhaustion is
    /// reported as `InvalidState`.
    #[verifier::loop_isolation(false)]
    pub fn await_not_busy(&mut self, sleep_ticks: u64, max_polls: u64) -> (r: Result<
        (),
        FpgaError,
    >)
        requires
            !old(self).locked(),
            max_polls >= 1,
        ensures
            !final(self).locked(),
            delta_within(
                old(self).events(),
                final(self).events(),
                |e: Event| status_poll_event(e, sleep_ticks),
            ),
            r is Ok ==> final(self).events().len() >= 2 && final(self).events().last()
                == Event::Release && (final(self).events()[final(self).events().len() - 2] matches
            Event::DataRead(b) && b.len() == 4 && !Status::spec_bit(spec_be32(b), 12)),
            r matches Err(e) ==> e == FpgaError::PortDisabled || e == FpgaError::InvalidState || (
            e matches FpgaError::ImplError(_)),
    {
        let ghost pre = self.events();
        let ghost allowed = |e: Event| status_poll_event(e, sleep_ticks);
        proof {
            lemma_delta_within_concat(pre, Seq::<Event>::empty(), allowed);
            assert(pre + Seq::<Event>::empty() =~= pre);
        }
        let mut polls: u64 = 0;
        while polls < max_polls
            invariant
                !self.locked(),
                delta_within(pre, self.events(), allowed),
                polls <= max_polls,
            decreases max_polls - polls,
        {
            let ghost mid = self.events();
            let st = match self.status() {
                Ok(st) => st,
                Err(e) => {
                    proof {
                        lemma_delta_within_weaken(
                            mid,
                            self.events(),
                            (|e2: Event| read_cycle_event(e2, Command::ReadStatus)),
                            allowed,
                        );
                        lemma_delta_within_trans(pre, mid, self.events(), allowed);
                    }
                    return Err(e);
                },
            };
            proof {
                let b = choose|b: Seq<u8>|
                    b.len() == 4 && st.0 == #[trigger] spec_be32(b) && st.0 != 0xffffffff
                        && self.events() == mid + seq![
                        Event::Lock,
                        Event::CommandWrite(Command::ReadStatus),
                        Event::DataRead(b),
                        Event::Release,
                    ];
                lemma_delta_within_concat(
                    mid,
                    seq![
                        Event::Lock,
                        Event::CommandWrite(Command::ReadStatus),
                        Event::DataRead(b),
                        Event::Release,
                    ],
                    allowed,
                );
                lemma_delta_within_trans(pre, mid, self.events(), allowed);
            }
            if !st.busy() {
                return Ok(());
            }
            let ghost mid2 = self.events();
            self.driver.sleep_for(sleep_ticks);
            proof {
                assert(self.events() =~= mid2 + seq![Event::Sleep(sleep_ticks)]);
                lemma_delta_within_concat(mid2, seq![Event::Sleep(sleep_ticks)], allowed);
                lemma_delta_within_trans(pre, mid2, self.events(), allowed);
            }
            polls = polls + 1;
        }
        Err(FpgaError::InvalidState)
    }

    /// Poll the DONE pin at a fixed interval until it asserts, signaling
    /// that the configured design has entered user mode. Bounded only by
    /// `max_polls`, as for `await_not_busy`.
    #[verifier::loop_isolation(false)]
    pub fn await_done(&mut self, sleep_ticks: u64, max_polls: u64) -> (r: Result<(), FpgaError>)
        requires
            max_polls >= 1,
        ensures
            final(self).locked() == old(self).locked(),
            delta_within(
                old(self).events(),
                final(self).events(),
                |e: Event| done_poll_event(e, sleep_ticks),
            ),
            r is Ok ==> final(self).events().len() >= 1 && final(self).events().last()
                == Event::PinRead(Pin::Done, true),
            r matches Err(e) ==> e == FpgaError::InvalidState || (e matches FpgaError::ImplError(
                _,
            )),
    {
        let ghost pre = self.events();
        let ghost allowed = |e: Event| done_poll_event(e, sleep_ticks);
        proof {
            lemma_delta_within_concat(pre, Seq::<Event>::empty(), allowed);
            assert(pre + Seq::<Event>::empty() =~= pre);
        }
        let mut polls: u64 = 0;
        while polls < max_polls
            invariant
                self.locked() == old(self).locked(),
                delta_within(pre, self.events(), allowed),
                polls <= max_polls,
            decreases max_polls - polls,
        {
            let ghost mid = self.events();
            let done = match self.driver.done() {
                Ok(v) => v,
                Err(code) => {
                    return Err(FpgaError::ImplError(code));
                },
            };
            proof {
                assert(self.events() =~= mid + seq![Event::PinRead(Pin::Done, done)]);
                lemma_delta_within_concat(mid, seq![Event::PinRead(Pin::Done, done)], allowed);
                lemma_delta_within_trans(pre, mid, self.events(), allowed);
            }
            if done {
                return Ok(());
            }
            let ghost mid2 = self.events();
            self.driver.sleep_for(sleep_ticks);
            proof {
                assert(self.events() =~= mid2 + seq![Event::Sleep(sleep_ticks)]);
                lemma_delta_within_concat(mid2, seq![Event::Sleep(sleep_ticks)], allowed);
                lemma_delta_within_trans(pre, mid2, self.events(), allowed);
            }
            polls = polls + 1;
        }
        Err(FpgaError::InvalidState)
    }
}


/// Everything `start_bitstream_load` may do: status checks, entering
/// configuration mode, asserting the design reset, and opening the burst.
pub open spec fn start_load_event(e: Event) -> bool {
    ||| read_cycle_event(e, Command::ReadStatus)
    ||| lock_cycle_event(e, Command::EnableConfigurationMode)
    ||| e == Event::PinSet(Pin::DesignResetN, false)
    ||| e == Event::CommandWrite(Command::BitstreamBurst)
}

/// The events of one status read answering the four bytes `b`.
pub open spec fn status_read_cycle(b: Seq<u8>) -> Seq<Event> {
    seq![
        Event::Lock,
        Event::CommandWrite(Command::ReadStatus),
        Event::DataRead(b),
        Event::Release,
    ]
}

/// The events of entering configuration mode.
pub open spec fn enable_mode_cycle() -> Seq<Event> {
    seq![
        Event::Lock,
        Event::CommandWrite(Command::EnableConfigurationMode),
        Event::Release,
    ]
}

/// The events that open the burst: the design reset asserted, the channel
/// locked, and the burst opcode written under the still-held lock.
pub open spec fn open_burst_events() -> Seq<Event> {
    seq![
        Event::PinSet(Pin::DesignResetN, false),
        Event::Lock,
        Event::CommandWrite(Command::BitstreamBurst),
    ]
}

/// Everything `finish_bitstream_load` may do: releasing the burst lock,
/// polling, the exit from configuration mode, and the final design release.
pub open spec fn finish_load_event(e: Event, settle_ticks: u64) -> bool {
    ||| e == Event::Release
    ||| status_poll_event(e, BUSY_DURATION)
    ||| done_poll_event(e, DONE_DURATION)
    ||| lock_cycle_event(e, Command::DisableConfigurationMode)
    ||| e == Event::Sleep(settle_ticks)
    ||| e == Event::PinSet(Pin::DesignResetN, true)
}

/// Events of the quiet first phase of `finish_bitstream_load`, before the
/// accept/reject decision: the release and status polling only. None of
/// them leaves configuration mode or touches a pin.
pub open spec fn finish_poll_event(e: Event) -> bool {
    e == Event::Release || status_poll_event(e, BUSY_DURATION)
}

impl<D: Ecp5Impl> Ecp5<D> {
    /// Open the three-phase bitstream load. Puts the device in
    /// configuration mode if needed, re-checks that writes are accepted
    /// (failing with `InvalidState` if the device refused), holds the
    /// downstream design in reset so it cannot run against a half-loaded
    /// image, and opens the burst: the channel lock is taken and the burst
    /// opcode written, and the lock is then held open for the chunks to
    /// follow — the whole load is one atomic bus transaction.
    ///
    /// The two success shapes and the refusal shape below are exact:
    /// `EnableConfigurationMode` is issued exactly once if the first status
    /// word shows the write-enabled bit clear and not at all otherwise, and
    /// a refusal happens before the design reset or the channel lock is
    /// touched.
    #[verifier::rlimit(50)]
    pub fn start_bitstream_load(&mut self) -> (r: Result<(), FpgaError>)
        requires
            !old(self).locked(),
        ensures
            final(self).locked() == r is Ok,
            delta_within(old(self).events(), final(self).events(), |e: Event| start_load_event(e)),
            r is Ok ==> ({
                let post = final(self).events();
                &&& post.len() >= old(self).events().len() + 3
                &&& post.last() == Event::CommandWrite(Command::BitstreamBurst)
                &&& post[post.len() - 2] == Event::Lock
                &&& post[post.len() - 3] == Event::PinSet(Pin::DesignResetN, false)
            }),
            r is Ok ==> (exists|b1: Seq<u8>|
                b1.len() == 4 && Status::spec_bit(#[trigger] spec_be32(b1), 10) && final(self).events() == old(self).events() + status_read_cycle(b1) + open_burst_events()) || (
            exists|b1: Seq<u8>, b2: Seq<u8>|
                b1.len() == 4 && b2.len() == 4 && !Status::spec_bit(#[trigger] spec_be32(b1), 10)
                    && Status::spec_bit(#[trigger] spec_be32(b2), 10) && final(self).events()
                    == old(self).events() + status_read_cycle(b1) + enable_mode_cycle()
                    + status_read_cycle(b2) + open_burst_events()),
            r == Err::<(), FpgaError>(FpgaError::InvalidState) ==> exists|
                b1: Seq<u8>,
                b2: Seq<u8>,
            |
                b1.len() == 4 && b2.len() == 4 && !Status::spec_bit(#[trigger] spec_be32(b1), 10)
                    && !Status::spec_bit(#[trigger] spec_be32(b2), 10) && final(self).events()
                    == old(self).events() + status_read_cycle(b1) + enable_mode_cycle()
                    + status_read_cycle(b2),
            r is Err ==> forall|i: int|
                old(self).events().len() <= i < final(self).events().len() ==> #[trigger] final(self).events()[i] != Event::CommandWrite(Command::BitstreamBurst),
            r matches Err(e) ==> e == FpgaError::PortDisabled || e == FpgaError::InvalidState || (
            e matches FpgaError::ImplError(_)),
    {
        let ghost pre = self.events();
        let ghost allowed = |e: Event| start_load_event(e);
        let ghost quiet = |e: Event|
            read_cycle_event(e, Command::ReadStatus) || lock_cycle_event(
                e,
                Command::EnableConfigurationMode,
            ) || e == Event::PinSet(Pin::DesignResetN, false) || e == Event::Lock;
        let ghost mut first_bytes: Seq<u8> = Seq::<u8>::empty();
        let ghost mut second_bytes: Seq<u8> = Seq::<u8>::empty();
        let st = match self.status() {
            Ok(st) => st,
            Err(e) => {
                proof {
                    lemma_delta_within_weaken(
                        pre,
                        self.events(),
                        (|e2: Event| read_cycle_event(e2, Command::ReadStatus)),
                        quiet,
                    );
                    lemma_delta_within_weaken(pre, self.events(), quiet, allowed);
                }
                return Err(e);
            },
        };
        proof {
            lemma_delta_within_weaken(
                pre,
                self.events(),
                (|e2: Event| read_cycle_event(e2, Command::ReadStatus)),
                quiet,
            );
            first_bytes = choose|b: Seq<u8>|
                b.len() == 4 && st.0 == #[trigger] spec_be32(b) && st.0 != 0xffffffff
                    && self.events() == pre + seq![
                    Event::Lock,
                    Event::CommandWrite(Command::ReadStatus),
                    Event::DataRead(b),
                    Event::Release,
                ];
            assert(self.events() =~= pre + status_read_cycle(first_bytes));
        }
        let ghost entered_mode: bool = !Status::spec_bit(spec_be32(first_bytes), 10);
        if !st.write_enabled() {
            let ghost mid = self.events();
            match self.enable_configuration_mode() {
                Ok(()) => {},
                Err(e) => {
                    proof {
                        lemma_delta_within_weaken(
                            mid,
                            self.events(),
                            (|e2: Event| e2 == Event::Lock || e2 == Event::Release),
                            quiet,
                        );
                        lemma_delta_within_trans(pre, mid, self.events(), quiet);
                        lemma_delta_within_weaken(pre, self.events(), quiet, allowed);
                    }
                    return Err(e);
                },
            }
            proof {
                lemma_delta_within_weaken(
                    mid,
                    self.events(),
                    (|e2: Event| lock_cycle_event(e2, Command::EnableConfigurationMode)),
                    quiet,
                );
                lemma_delta_within_trans(pre, mid, self.events(), quiet);
                assert(self.events() =~= pre + status_read_cycle(first_bytes)
                    + enable_mode_cycle());
            }
            let ghost mid2 = self.events();
            let st2 = match self.status() {
                Ok(st2) => st2,
                Err(e) => {
                    proof {
                        lemma_delta_within_weaken(
                            mid2,
                            self.events(),
                            (|e2: Event| read_cycle_event(e2, Command::ReadStatus)),
                            quiet,
                        );
                        lemma_delta_within_trans(pre, mid2, self.events(), quiet);
                        lemma_delta_within_weaken(pre, self.events(), quiet, allowed);
                    }
                    return Err(e);
                },
            };
            proof {
                lemma_delta_within_weaken(
                    mid2,
                    self.events(),
                    (|e2: Event| read_cycle_event(e2, Command::ReadStatus)),
                    quiet,
                );
                lemma_delta_within_trans(pre, mid2, self.events(), quiet);
                second_bytes = choose|b: Seq<u8>|
                    b.len() == 4 && st2.0 == #[trigger] spec_be32(b) && st2.0 != 0xffffffff
                        && self.events() == mid2 + seq![
                        Event::Lock,
                        Event::CommandWrite(Command::ReadStatus),
                        Event::DataRead(b),
                        Event::Release,
                    ];
                assert(self.events() =~= pre + status_read_cycle(first_bytes)
                    + enable_mode_cycle() + status_read_cycle(second_bytes));
            }
            if !st2.write_enabled() {
                proof {
                    lemma_delta_within_weaken(pre, self.events(), quiet, allowed);
                }
                return Err(FpgaError::InvalidState);
            }
        }
        let ghost base = self.events();
        proof {
            if entered_mode {
                assert(base == pre + status_read_cycle(first_bytes) + enable_mode_cycle()
                    + status_read_cycle(second_bytes));
                assert(Status::spec_bit(spec_be32(second_bytes), 10));
            } else {
                assert(base == pre + status_read_cycle(first_bytes));
            }
        }
        match self.set_application_enabled(false) {
            Ok(()) => {},
            Err(e) => {
                proof {
                    lemma_delta_within_weaken(pre, base, quiet, allowed);
                    lemma_delta_within_weaken(pre, self.events(), quiet, allowed);
                }
                return Err(e);
            },
        }
        proof {
            assert(self.events() =~= base + seq![Event::PinSet(Pin::DesignResetN, false)]);
            lemma_delta_within_concat(
                base,
                seq![Event::PinSet(Pin::DesignResetN, false)],
                quiet,
            );
            lemma_delta_within_trans(pre, base, self.events(), quiet);
        }
        let ghost mid4 = self.events();
        if let Err(code) = self.driver.lock() {
            proof {
                lemma_delta_within_weaken(pre, self.events(), quiet, allowed);
            }
            return Err(FpgaError::ImplError(code));
        }
        proof {
            assert(self.events() =~= mid4 + seq![Event::Lock]);
            lemma_delta_within_concat(mid4, seq![Event::Lock], quiet);
            lemma_delta_within_trans(pre, mid4, self.events(), quiet);
        }
        let ghost mid5 = self.events();
        if let Err(code) = self.driver.write_command(Command::BitstreamBurst) {
            self.driver.release();
            proof {
                assert(self.events() =~= mid5 + seq![Event::Release]);
                lemma_delta_within_concat(mid5, seq![Event::Release], quiet);
                lemma_delta_within_trans(pre, mid5, self.events(), quiet);
                lemma_delta_within_weaken(pre, self.events(), quiet, allowed);
            }
            return Err(FpgaError::ImplError(code));
        }
        proof {
            assert(self.events() =~= mid5 + seq![Event::CommandWrite(Command::BitstreamBurst)]);
            lemma_delta_within_weaken(pre, mid5, quiet, allowed);
            lemma_delta_within_concat(
                mid5,
                seq![Event::CommandWrite(Command::BitstreamBurst)],
                allowed,
            );
            lemma_delta_within_trans(pre, mid5, self.events(), allowed);
            assert(self.events() =~= base + open_burst_events());
            if entered_mode {
                assert(self.events() =~= pre + status_read_cycle(first_bytes)
                    + enable_mode_cycle() + status_read_cycle(second_bytes)
                    + open_burst_events());
            } else {
                assert(self.events() =~= pre + status_read_cycle(first_bytes)
                    + open_burst_events());
            }
        }
        Ok(())
    }

    /// Stream one chunk of (already decompressed) bitstream bytes into the
    /// open burst. The channel lock taken by `start_bitstream_load` must
    /// still be held: no other command can interleave with the stream.
    pub fn continue_bitstream_load(&mut self, data: &[u8]) -> (r: Result<(), FpgaError>)
        requires
            old(self).locked(),
        ensures
            final(self).locked(),
            r is Ok ==> final(self).events() == old(self).events().push(Event::DataWrite(data@)),
            r is Err ==> (r matches Err(FpgaError::ImplError(_))) && final(self).events() == old(self).events(),
    {
        match self.driver.write(data) {
            Ok(()) => Ok(()),
            Err(code) => Err(FpgaError::ImplError(code)),
        }
    }

    /// Close the three-phase load: give the channel back, wait out the
    /// device's post-load busy phase, and decide acceptance. A nonzero
    /// bitstream-error subfield is surfaced as `BitstreamError(code)` and
    /// the device is deliberately left in configuration mode — no
    /// `DisableConfigurationMode` is issued and the design stays in reset —
    /// so the caller may retry via `Refresh` without losing the port. On
    /// acceptance the device is taken out of configuration mode, the DONE
    /// pin is awaited, and after `application_reset_ticks` of settling the
    /// design is released from reset.
    #[verifier::rlimit(30)]
    pub fn finish_bitstream_load(&mut self, application_reset_ticks: u64, max_polls: u64) -> (r:
        Result<(), FpgaError>)
        requires
            old(self).locked(),
            max_polls >= 1,
        ensures
            !final(self).locked(),
            delta_within(
                old(self).events(),
                final(self).events(),
                |e: Event| finish_load_event(e, application_reset_ticks),
            ),
            final(self).events().len() > old(self).events().len() && final(self).events()[old(self).events().len() as int] == Event::Release,
            r matches Err(FpgaError::BitstreamError(code)) ==> 1 <= code < 8,
            r matches Err(FpgaError::BitstreamError(code)) ==> (forall|i: int|
                old(self).events().len() <= i < final(self).events().len()
                    ==> #[trigger] final(self).events()[i] != Event::CommandWrite(
                    Command::DisableConfigurationMode,
                ) && final(self).events()[i] != Event::PinSet(Pin::DesignResetN, true)),
            r matches Err(FpgaError::BitstreamError(code)) ==> exists|j: int|
                old(self).events().len() <= j < final(self).events().len() && (#[trigger] final(self).events()[j] matches Event::DataRead(b) && b.len() == 4
                    && Status::spec_bse_error_code(spec_be32(b)) == code) && (forall|k: int|
                    j < k < final(self).events().len() ==> !(#[trigger] final(self).events()[k] is DataRead)),
            r is Ok ==> ({
                let post = final(self).events();
                &&& post.len() >= old(self).events().len() + 2
                &&& post.last() == Event::PinSet(Pin::DesignResetN, true)
                &&& post[post.len() - 2] == Event::Sleep(application_reset_ticks)
            }),
            r is Ok ==> exists|i1: int, i2: int|
                old(self).events().len() <= i1 < i2 < final(self).events().len() - 2 && #[trigger]
                final(self).events()[i1] == Event::CommandWrite(Command::DisableConfigurationMode)
                    && #[trigger] final(self).events()[i2] == Event::PinRead(Pin::Done, true),
            r is Ok ==> exists|j: int|
                old(self).events().len() <= j < final(self).events().len() && (#[trigger] final(self).events()[j] matches Event::DataRead(b) && b.len() == 4
                    && Status::spec_bse_error_code(spec_be32(b)) == 0) && (forall|k: int|
                    j < k < final(self).events().len() ==> !(#[trigger] final(self).events()[k] is DataRead)),
            r matches Err(e) ==> e == FpgaError::PortDisabled || e == FpgaError::InvalidState || (
            e matches FpgaError::ImplError(_)) || (e matches FpgaError::BitstreamError(_)),
    {
        let ghost pre = self.events();
        let ghost allowed = |e: Event| finish_load_event(e, application_reset_ticks);
        let ghost quiet = |e: Event| finish_poll_event(e);
        self.driver.release();
        proof {
            assert(self.events() =~= pre + seq![Event::Release]);
            lemma_delta_within_concat(pre, seq![Event::Release], quiet);
        }
        let ghost mid = self.events();
        match self.await_not_busy(BUSY_DURATION, max_polls) {
            Ok(()) => {},
            Err(e) => {
                proof {
                    lemma_delta_within_weaken(
                        mid,
                        self.events(),
                        (|e2: Event| status_poll_event(e2, BUSY_DURATION)),
                        quiet,
                    );
                    lemma_delta_within_trans(pre, mid, self.events(), quiet);
                    lemma_delta_within_weaken(pre, self.events(), quiet, allowed);
                    assert(mid.is_prefix_of(self.events()));
                    assert(self.events()[pre.len() as int] == mid[pre.len() as int]);
                }
                return Err(e);
            },
        }
        proof {
            lemma_delta_within_weaken(
                mid,
                self.events(),
                (|e2: Event| status_poll_event(e2, BUSY_DURATION)),
                quiet,
            );
            lemma_delta_within_trans(pre, mid, self.events(), quiet);
        }
        let ghost mid2 = self.events();
        let st = match self.status() {
            Ok(st) => st,
            Err(e) => {
                proof {
                    lemma_delta_within_weaken(
                        mid2,
                        self.events(),
                        (|e2: Event| read_cycle_event(e2, Command::ReadStatus)),
                        quiet,
                    );
                    lemma_delta_within_trans(pre, mid2, self.events(), quiet);
                    lemma_delta_within_weaken(pre, self.events(), quiet, allowed);
                    assert(pre.is_prefix_of(self.events()));
                    assert(self.events()[pre.len() as int] == Event::Release) by {
                        assert(mid.is_prefix_of(mid2));
                        assert(mid2.is_prefix_of(self.events()));
                        assert(mid2[pre.len() as int] == mid[pre.len() as int]);
                        assert(self.events()[pre.len() as int] == mid2[pre.len() as int]);
                    }
                }
                return Err(e);
            },
        };
        proof {
            lemma_delta_within_weaken(
                mid2,
                self.events(),
                (|e2: Event| read_cycle_event(e2, Command::ReadStatus)),
                quiet,
            );
            lemma_delta_within_trans(pre, mid2, self.events(), quiet);
        }
        let ghost decisive_index: int = mid2.len() + 2int;
        let ghost mut decisive_bytes: Seq<u8> = Seq::<u8>::empty();
        proof {
            decisive_bytes = choose|b: Seq<u8>|
                b.len() == 4 && st.0 == #[trigger] spec_be32(b) && st.0 != 0xffffffff
                    && self.events() == mid2 + seq![
                    Event::Lock,
                    Event::CommandWrite(Command::ReadStatus),
                    Event::DataRead(b),
                    Event::Release,
                ];
            assert(self.events()[decisive_index] == Event::DataRead(decisive_bytes));
        }
        let w: u32 = st.0;
        let code32 = st.bse_error_code();
        assert(code32 < 8) by (bit_vector)
            requires
                code32 == w >> 23 & 7,
        ;
        if code32 != 0 {
            proof {
                lemma_delta_within_weaken(pre, self.events(), quiet, allowed);
                assert(mid[pre.len() as int] == Event::Release);
                lemma_prefix_index(mid, mid2, pre.len() as int);
                assert(self.events()[pre.len() as int] == mid2[pre.len() as int]);
                assert forall|k: int|
                    decisive_index < k < self.events().len() implies !(#[trigger] self.events()[k] is DataRead) by {
                    assert(self.events()[k] == Event::Release);
                }
            }
            return Err(FpgaError::BitstreamError(code32 as u8));
        }
        let ghost mid3 = self.events();
        match self.disable_configuration_mode() {
            Ok(()) => {},
            Err(e) => {
                proof {
                    lemma_delta_within_weaken(pre, mid3, quiet, allowed);
                    lemma_delta_within_weaken(
                        mid3,
                        self.events(),
                        (|e2: Event| e2 == Event::Lock || e2 == Event::Release),
                        allowed,
                    );
                    lemma_delta_within_trans(pre, mid3, self.events(), allowed);
                    assert(mid[pre.len() as int] == Event::Release);
                    lemma_prefix_index(mid, mid2, pre.len() as int);
                    assert(mid3[pre.len() as int] == mid2[pre.len() as int]);
                    lemma_prefix_index(mid3, self.events(), pre.len() as int);
                }
                return Err(e);
            },
        }
        proof {
            lemma_delta_within_weaken(pre, mid3, quiet, allowed);
            lemma_delta_within_weaken(
                mid3,
                self.events(),
                (|e2: Event| lock_cycle_event(e2, Command::DisableConfigurationMode)),
                allowed,
            );
            lemma_delta_within_trans(pre, mid3, self.events(), allowed);
        }
        let ghost disable_index: int = mid3.len() + 1int;
        proof {
            assert(self.events()[disable_index] == Event::CommandWrite(
                Command::DisableConfigurationMode,
            ));
        }
        let ghost mid4 = self.events();
        match self.await_done(DONE_DURATION, max_polls) {
            Ok(()) => {},
            Err(e) => {
                proof {
                    lemma_delta_within_weaken(
                        mid4,
                        self.events(),
                        (|e2: Event| done_poll_event(e2, DONE_DURATION)),
                        allowed,
                    );
                    lemma_delta_within_trans(pre, mid4, self.events(), allowed);
                }
                return Err(e);
            },
        }
        proof {
            lemma_delta_within_weaken(
                mid4,
                self.events(),
                (|e2: Event| done_poll_event(e2, DONE_DURATION)),
                allowed,
            );
            lemma_delta_within_trans(pre, mid4, self.events(), allowed);
        }
        let ghost done_index: int = self.events().len() - 1int;
        proof {
            assert(self.events()[done_index] == Event::PinRead(Pin::Done, true));
        }
        let ghost mid5 = self.events();
        self.driver.sleep_for(application_reset_ticks);
        proof {
            assert(self.events() =~= mid5 + seq![Event::Sleep(application_reset_ticks)]);
            lemma_delta_within_concat(
                mid5,
                seq![Event::Sleep(application_reset_ticks)],
                allowed,
            );
            lemma_delta_within_trans(pre, mid5, self.events(), allowed);
        }
        let ghost mid6 = self.events();
        match self.set_application_enabled(true) {
            Ok(()) => {},
            Err(e) => {
                proof {
                    lemma_delta_within_trans(pre, mid6, self.events(), allowed);
                }
                return Err(e);
            },
        }
        proof {
            assert(self.events() =~= mid6 + seq![Event::PinSet(Pin::DesignResetN, true)]);
            lemma_delta_within_concat(
                mid6,
                seq![Event::PinSet(Pin::DesignResetN, true)],
                allowed,
            );
            lemma_delta_within_trans(pre, mid6, self.events(), allowed);
            assert(self.events()[disable_index] == Event::CommandWrite(
                Command::DisableConfigurationMode,
            ));
            assert(self.events()[done_index] == Event::PinRead(Pin::Done, true));
            assert(mid3[decisive_index] == Event::DataRead(decisive_bytes));
            assert(self.events()[decisive_index] == mid3[decisive_index]);
            assert forall|k: int|
                decisive_index < k < self.events().len() implies !(#[trigger] self.events()[k] is DataRead) by {
                let post = self.events();
                if k < mid3.len() {
                    assert(post[k] == mid6[k] && mid6[k] == mid5[k]);
                    lemma_prefix_index(mid4, mid5, k);
                    assert(mid4[k] == mid3[k]);
                    assert(mid3[k] == Event::Release);
                } else if k < mid4.len() {
                    assert(post[k] == mid6[k] && mid6[k] == mid5[k]);
                    lemma_prefix_index(mid4, mid5, k);
                    assert(!(mid4[k] is DataRead));
                } else if k < mid5.len() {
                    assert(post[k] == mid6[k] && mid6[k] == mid5[k]);
                    assert(done_poll_event(mid5[k], DONE_DURATION));
                } else if k < mid6.len() {
                    assert(post[k] == mid6[k]);
                    assert(mid6[k] == Event::Sleep(application_reset_ticks));
                } else {
                    assert(post[k] == Event::PinSet(Pin::DesignResetN, true));
                }
            }
        }
        Ok(())
    }
}

} // verus!
