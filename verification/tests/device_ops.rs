use ecp5::command::Command;
use ecp5::device::state_from_pins;
use ecp5::device::Ecp5;
use ecp5::driver::Pin;
use ecp5::errors::FpgaError;
use ecp5::sim::EventRec;
use ecp5::sim::SimDevice;
use ecp5::DeviceState;

fn word(bytes: [u8; 4]) -> Vec<u8> {
    bytes.to_vec()
}

fn device_with_reads(reads: &[[u8; 4]]) -> Ecp5<SimDevice> {
    let mut sim = SimDevice::new(0);
    for r in reads {
        sim.read_queue.push(word(*r));
    }
    Ecp5::new(sim)
}

#[test]
fn pin_decision_table_covers_all_eight_combinations() {
    for program_n in [false, true] {
        for done in [false, true] {
            for init_n in [false, true] {
                let expected = if !program_n {
                    DeviceState::Disabled
                } else if done {
                    DeviceState::RunningApplication
                } else if init_n {
                    DeviceState::AwaitingBitstream
                } else {
                    DeviceState::Error
                };
                assert_eq!(state_from_pins(program_n, done, init_n), expected);
            }
        }
    }
    // DONE dominates INIT_N in both of its states.
    assert_eq!(state_from_pins(true, true, true), DeviceState::RunningApplication);
    assert_eq!(state_from_pins(true, true, false), DeviceState::RunningApplication);
}

#[test]
fn device_state_reads_pins_in_priority_order() {
    let mut sim = SimDevice::new(0);
    sim.pin_program_n = false;
    let mut dev = Ecp5::new(sim);
    assert_eq!(dev.device_state(), Ok(DeviceState::Disabled));

    // Released from reset, DONE asserted (countdown zero): running.
    let mut dev = Ecp5::new(SimDevice::new(0));
    assert_eq!(dev.device_state(), Ok(DeviceState::RunningApplication));

    // DONE low, INIT_N high: awaiting a bitstream.
    let mut dev = Ecp5::new(SimDevice::new(1));
    assert_eq!(dev.device_state(), Ok(DeviceState::AwaitingBitstream));

    // DONE low, INIT_N low: fault.
    let mut sim = SimDevice::new(1);
    sim.pin_init_n = false;
    let mut dev = Ecp5::new(sim);
    assert_eq!(dev.device_state(), Ok(DeviceState::Error));
}

#[test]
fn read32_returns_big_endian_value_verbatim() {
    let mut dev = device_with_reads(&[[0x12, 0x34, 0x56, 0x78]]);
    assert_eq!(dev.read32(Command::ReadUserCode), Ok(0x12345678));
}

#[test]
fn all_ones_status_or_id_read_is_port_disabled() {
    let mut dev = device_with_reads(&[[0xff; 4]]);
    assert_eq!(dev.read32(Command::ReadStatus), Err(FpgaError::PortDisabled));
    let mut dev = device_with_reads(&[[0xff; 4]]);
    assert_eq!(dev.read32(Command::ReadId), Err(FpgaError::PortDisabled));
    let mut dev = device_with_reads(&[[0xff; 4]]);
    assert_eq!(dev.status(), Err(FpgaError::PortDisabled));
}

#[test]
fn all_ones_from_any_other_opcode_is_returned_verbatim() {
    let mut dev = device_with_reads(&[[0xff; 4]]);
    assert_eq!(dev.read32(Command::ReadUserCode), Ok(0xffffffff));
    let mut dev = device_with_reads(&[[0xff; 4]]);
    assert_eq!(dev.user_code(), Ok(0xffffffff));
    let mut dev = device_with_reads(&[[0xff; 4]]);
    assert_eq!(dev.read32(Command::CheckBusy), Ok(0xffffffff));
}

#[test]
fn read16_swaps_to_native_order() {
    let mut sim = SimDevice::new(0);
    sim.read_queue.push(vec![0xbe, 0xef]);
    let mut dev = Ecp5::new(sim);
    assert_eq!(dev.read16(Command::CheckBusy), Ok(0xbeef));
}

#[test]
fn send_command_is_one_atomic_lock_cycle() {
    let mut dev = Ecp5::new(SimDevice::new(0));
    assert_eq!(dev.send_command(Command::Refresh), Ok(()));
    assert_eq!(
        dev.driver.log,
        vec![
            EventRec::Lock,
            EventRec::CommandWrite(Command::Refresh),
            EventRec::Release,
        ]
    );
}

#[test]
fn device_id_validates_the_identity_code() {
    let mut dev = device_with_reads(&[[0x41, 0x11, 0x20, 0x43]]);
    assert_eq!(dev.device_id(), Ok(0x41112043));
    let mut dev = device_with_reads(&[[0x12, 0x34, 0x56, 0x78]]);
    assert_eq!(dev.device_id(), Err(FpgaError::InvalidValue));
    let mut dev = device_with_reads(&[[0xff; 4]]);
    assert_eq!(dev.device_id(), Err(FpgaError::PortDisabled));
}

#[test]
fn reset_device_pulses_the_reset_line() {
    let mut dev = Ecp5::new(SimDevice::new(0));
    assert_eq!(dev.reset_device(25), Ok(()));
    assert_eq!(
        dev.driver.log,
        vec![
            EventRec::PinSet(Pin::ProgramN, false),
            EventRec::Sleep(25),
            EventRec::PinSet(Pin::ProgramN, true),
        ]
    );
    assert!(dev.driver.pin_program_n);
}

#[test]
fn reset_application_pulses_the_design_reset() {
    let mut dev = Ecp5::new(SimDevice::new(0));
    assert_eq!(dev.reset_application(25), Ok(()));
    assert_eq!(
        dev.driver.log,
        vec![
            EventRec::PinSet(Pin::DesignResetN, false),
            EventRec::Sleep(25),
            EventRec::PinSet(Pin::DesignResetN, true),
        ]
    );
}

#[test]
fn enable_queries_mirror_the_pins() {
    let mut dev = Ecp5::new(SimDevice::new(0));
    assert_eq!(dev.device_enabled(), Ok(true));
    assert_eq!(dev.set_device_enabled(false), Ok(()));
    assert_eq!(dev.device_enabled(), Ok(false));
    assert_eq!(dev.application_enabled(), Ok(false));
    assert_eq!(dev.set_application_enabled(true), Ok(()));
    assert_eq!(dev.application_enabled(), Ok(true));
}

#[test]
fn await_not_busy_polls_until_the_bit_clears() {
    let mut sim = SimDevice::new(0);
    // Two busy words, then a clear one.
    sim.read_queue.push(word([0x00, 0x00, 0x10, 0x00]));
    sim.read_queue.push(word([0x00, 0x00, 0x10, 0x00]));
    sim.read_queue.push(word([0x00, 0x00, 0x00, 0x00]));
    let mut dev = Ecp5::new(sim);
    assert_eq!(dev.await_not_busy(10, 1000), Ok(()));
    let sleeps = dev
        .driver
        .log
        .iter()
        .filter(|e| matches!(e, EventRec::Sleep(10)))
        .count();
    assert_eq!(sleeps, 2);
}

#[test]
fn await_not_busy_reports_exhaustion() {
    let mut sim = SimDevice::new(0);
    sim.read_queue.push(word([0x00, 0x00, 0x10, 0x00]));
    sim.read_queue.push(word([0x00, 0x00, 0x10, 0x00]));
    let mut dev = Ecp5::new(sim);
    assert_eq!(dev.await_not_busy(10, 2), Err(FpgaError::InvalidState));
}

#[test]
fn await_done_polls_the_pin() {
    let mut dev = Ecp5::new(SimDevice::new(3));
    assert_eq!(dev.await_done(10, 1000), Ok(()));
    assert_eq!(
        dev.driver.log.last(),
        Some(&EventRec::PinRead(Pin::Done, true))
    );
    let false_reads = dev
        .driver
        .log
        .iter()
        .filter(|e| matches!(e, EventRec::PinRead(Pin::Done, false)))
        .count();
    assert_eq!(false_reads, 3);
}
