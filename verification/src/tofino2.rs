//! Decisions and register decodings for the downstream power sequencer
//! that the configured fabric hosts.
//!
//! Reading and writing the sequencer's registers goes over the application
//! channel and stays outside this library; these are the pure decodings of
//! the register bytes and the transition decisions taken on them.

use crate::errors::FpgaError;
use crate::DeviceState;
use vstd::prelude::*;

verus! {

/// The sequencer's power state machine.
#[derive(Copy, Clone, Debug, PartialEq, Eq, Structural)]
pub enum State {
    Initial,
    A2,
    A0,
    InPowerUp,
    InPowerDown,
}

/// Faults the sequencer can report.
#[derive(Copy, Clone, Debug, PartialEq, Eq, Structural)]
pub enum Error {
    NoError,
    PowerGoodTimeout,
    PowerFault,
    PowerVrHot,
    PowerInvalidState,
    UserAbort,
    VidAckTimeout,
    ThermalAlert,
}

/// The voltage identifiers the powered ASIC can request.
#[derive(Copy, Clone, Debug, PartialEq, Eq, Structural)]
pub enum Vid {
    V0P922,
    V0P893,
    V0P867,
    V0P847,
    V0P831,
    V0P815,
    V0P790,
    V0P759,
}

/// Errors of the sequencing service itself.
#[derive(Copy, Clone, Debug, PartialEq, Eq, Structural)]
pub enum SeqError {
    FpgaError,
    IllegalTransition,
    ClockConfigFailed,
    SequencerError,
    SequencerTimeout,
    InvalidTofinoVid,
    SetVddCoreVoutFailed,
}

/// The externally requestable power states.
#[derive(Copy, Clone, Debug, PartialEq, Eq, Structural)]
pub enum PowerState {
    A2,
    A0,
}

/// The state field of the sequencer's state register (its low three bits).
pub const SEQ_STATE_MASK: u8 = 0x07;

/// The error field of the sequencer's error register (its low three bits).
pub const SEQ_ERROR_MASK: u8 = 0x07;

/// The valid bit of the voltage-identifier register.
pub const VID_VALID_MASK: u8 = 0x10;

/// The identifier field of the voltage-identifier register.
pub const VID_MASK: u8 = 0x0f;

/// The state named by a state-register byte; field values beyond the
/// defined states are rejected.
pub open spec fn spec_decode_state(raw: u8) -> Result<State, FpgaError> {
    let v = raw & SEQ_STATE_MASK;
    if v == 0 {
        Ok(State::Initial)
    } else if v == 1 {
        Ok(State::A2)
    } else if v == 2 {
        Ok(State::A0)
    } else if v == 3 {
        Ok(State::InPowerUp)
    } else if v == 4 {
        Ok(State::InPowerDown)
    } else {
        Err(FpgaError::InvalidValue)
    }
}

/// Decode the sequencer's state register.
pub fn decode_state(raw: u8) -> (r: Result<State, FpgaError>)
    ensures
        r == spec_decode_state(raw),
{
    let v = raw & SEQ_STATE_MASK;
    if v == 0 {
        Ok(State::Initial)
    } else if v == 1 {
        Ok(State::A2)
    } else if v == 2 {
        Ok(State::A0)
    } else if v == 3 {
        Ok(State::InPowerUp)
    } else if v == 4 {
        Ok(State::InPowerDown)
    } else {
        Err(FpgaError::InvalidValue)
    }
}

/// The fault named by an error-register byte. The field is three bits wide
/// and every value names a fault, so the decoding is total.
pub open spec fn spec_decode_error(raw: u8) -> Error {
    let v = raw & SEQ_ERROR_MASK;
    if v == 0 {
        Error::NoError
    } else if v == 1 {
        Error::PowerGoodTimeout
    } else if v == 2 {
        Error::PowerFault
    } else if v == 3 {
        Error::PowerVrHot
    } else if v == 4 {
        Error::PowerInvalidState
    } else if v == 5 {
        Error::UserAbort
    } else if v == 6 {
        Error::VidAckTimeout
    } else {
        Error::ThermalAlert
    }
}

/// Decode the sequencer's error register.
pub fn decode_error(raw: u8) -> (r: Error)
    ensures
        r == spec_decode_error(raw),
{
    let v = raw & SEQ_ERROR_MASK;
    if v == 0 {
        Error::NoError
    } else if v == 1 {
        Error::PowerGoodTimeout
    } else if v == 2 {
        Error::PowerFault
    } else if v == 3 {
        Error::PowerVrHot
    } else if v == 4 {
        Error::PowerInvalidState
    } else if v == 5 {
        Error::UserAbort
    } else if v == 6 {
        Error::VidAckTimeout
    } else {
        Error::ThermalAlert
    }
}

/// The request in a voltage-identifier register byte: nothing while the
/// valid bit is clear; with it set, identifiers below the defined range
/// are rejected.
pub open spec fn spec_decode_vid(raw: u8) -> Result<Option<Vid>, FpgaError> {
    if raw & VID_VALID_MASK == 0 {
        Ok(None)
    } else {
        let v = raw & VID_MASK;
        if v == 0x0f {
            Ok(Some(Vid::V0P922))
        } else if v == 0x0e {
            Ok(Some(Vid::V0P893))
        } else if v == 0x0d {
            Ok(Some(Vid::V0P867))
        } else if v == 0x0c {
            Ok(Some(Vid::V0P847))
        } else if v == 0x0b {
            Ok(Some(Vid::V0P831))
        } else if v == 0x0a {
            Ok(Some(Vid::V0P815))
        } else if v == 0x09 {
            Ok(Some(Vid::V0P790))
        } else if v == 0x08 {
            Ok(Some(Vid::V0P759))
        } else {
            Err(FpgaError::InvalidValue)
        }
    }
}

/// Decode the sequencer's voltage-identifier register.
pub fn decode_vid(raw: u8) -> (r: Result<Option<Vid>, FpgaError>)
    ensures
        r == spec_decode_vid(raw),
{
    if raw & VID_VALID_MASK == 0 {
        Ok(None)
    } else {
        let v = raw & VID_MASK;
        if v == 0x0f {
            Ok(Some(Vid::V0P922))
        } else if v == 0x0e {
            Ok(Some(Vid::V0P893))
        } else if v == 0x0d {
            Ok(Some(Vid::V0P867))
        } else if v == 0x0c {
            Ok(Some(Vid::V0P847))
        } else if v == 0x0b {
            Ok(Some(Vid::V0P831))
        } else if v == 0x0a {
            Ok(Some(Vid::V0P815))
        } else if v == 0x09 {
            Ok(Some(Vid::V0P790))
        } else if v == 0x08 {
            Ok(Some(Vid::V0P759))
        } else {
            Err(FpgaError::InvalidValue)
        }
    }
}

/// The core supply voltage a request stands for, in millivolts.
pub open spec fn spec_vid_millivolts(v: Vid) -> u16 {
    match v {
        Vid::V0P922 => 922,
        Vid::V0P893 => 893,
        Vid::V0P867 => 867,
        Vid::V0P847 => 847,
        Vid::V0P831 => 831,
        Vid::V0P815 => 815,
        Vid::V0P790 => 790,
        Vid::V0P759 => 759,
    }
}

/// The core supply voltage a request stands for, in millivolts.
pub fn vid_millivolts(v: Vid) -> (r: u16)
    ensures
        r == spec_vid_millivolts(v),
{
    match v {
        Vid::V0P922 => 922,
        Vid::V0P893 => 893,
        Vid::V0P867 => 867,
        Vid::V0P847 => 847,
        Vid::V0P831 => 831,
        Vid::V0P815 => 815,
        Vid::V0P790 => 790,
        Vid::V0P759 => 759,
    }
}

/// What a power-state request resolves to.
#[derive(Copy, Clone, Debug, PartialEq, Eq, Structural)]
pub enum PowerCommand {
    PowerUp,
    PowerDown,
}

/// The transition a request demands, given the sequencer's current state
/// and fault: any standing fault refuses work; powering up is legal only
/// out of A2; powering down is always legal.
pub open spec fn spec_power_transition(
    state: State,
    error: Error,
    desired: PowerState,
) -> Result<PowerCommand, SeqError> {
    if error != Error::NoError {
        Err(SeqError::SequencerError)
    } else if state == State::A2 && desired == PowerState::A0 {
        Ok(PowerCommand::PowerUp)
    } else if desired == PowerState::A2 {
        Ok(PowerCommand::PowerDown)
    } else {
        Err(SeqError::IllegalTransition)
    }
}

/// Decide the transition for a power-state request.
pub fn power_transition(state: State, error: Error, desired: PowerState) -> (r: Result<
    PowerCommand,
    SeqError,
>)
    ensures
        r == spec_power_transition(state, error, desired),
{
    if !matches!(error, Error::NoError) {
        Err(SeqError::SequencerError)
    } else if matches!(state, State::A2) && matches!(desired, PowerState::A0) {
        Ok(PowerCommand::PowerUp)
    } else if matches!(desired, PowerState::A2) {
        Ok(PowerCommand::PowerDown)
    } else {
        Err(SeqError::IllegalTransition)
    }
}

/// What one iteration of the power-up sequence does next.
#[derive(Copy, Clone, Debug, PartialEq, Eq, Structural)]
pub enum PowerUpStep {
    /// The request is valid: set the core rail to the requested voltage
    /// and acknowledge the identifier to the sequencer.
    SetVoltageAndAck(Vid),
    /// No identifier yet: sleep and read again.
    Retry,
    /// Give up with this error.
    Fail(SeqError),
}

/// The number of voltage-identifier reads the power-up sequence attempts
/// before it reports a timeout.
pub const POWER_UP_ATTEMPTS: u8 = 3;

/// What the power-up sequence does after its `attempt`th identifier read
/// (counted from 1): an unreadable identifier and a transport failure are
/// fatal, a valid one is applied and acknowledged, and a still-absent one
/// is retried until the attempts are spent.
pub open spec fn spec_power_up_step(attempt: u8, vid_read: Result<Option<Vid>, FpgaError>) -> PowerUpStep {
    match vid_read {
        Err(e) => if e == FpgaError::InvalidValue {
            PowerUpStep::Fail(SeqError::InvalidTofinoVid)
        } else {
            PowerUpStep::Fail(SeqError::FpgaError)
        },
        Ok(Some(v)) => PowerUpStep::SetVoltageAndAck(v),
        Ok(None) => if attempt >= POWER_UP_ATTEMPTS {
            PowerUpStep::Fail(SeqError::SequencerTimeout)
        } else {
            PowerUpStep::Retry
        },
    }
}

/// Decide the next step of the power-up sequence; see
/// `spec_power_up_step`. The caller sleeps `attempt * 25` ticks before
/// each read, since the identifier becomes valid only a moment after the
/// sequencer is enabled.
pub fn power_up_step(attempt: u8, vid_read: Result<Option<Vid>, FpgaError>) -> (r: PowerUpStep)
    ensures
        r == spec_power_up_step(attempt, vid_read),
{
    match vid_read {
        Err(e) => if matches!(e, FpgaError::InvalidValue) {
            PowerUpStep::Fail(SeqError::InvalidTofinoVid)
        } else {
            PowerUpStep::Fail(SeqError::FpgaError)
        },
        Ok(Some(v)) => PowerUpStep::SetVoltageAndAck(v),
        Ok(None) => if attempt >= POWER_UP_ATTEMPTS {
            PowerUpStep::Fail(SeqError::SequencerTimeout)
        } else {
            PowerUpStep::Retry
        },
    }
}

/// The identity the board controller design reports once loaded.
pub const EXPECTED_IDENT: u32 = 0x01de_aa55;

/// Whether an identity read from the loaded design is the expected one.
pub fn ident_valid(ident: u32) -> (r: bool)
    ensures
        r == (ident == EXPECTED_IDENT),
{
    ident == EXPECTED_IDENT
}

/// What the boot sequence does with the device's lifecycle state while
/// waiting for it to accept a bitstream.
#[derive(Copy, Clone, Debug, PartialEq, Eq, Structural)]
pub enum ReadyAction {
    /// The device awaits a bitstream: proceed to load.
    Proceed,
    /// A stale design is running: reset the device, then keep waiting.
    ResetAndWait,
    /// Not ready yet: sleep and look again.
    Wait,
}

/// The boot sequence's reaction to a lifecycle state; see `ReadyAction`.
pub open spec fn spec_ready_action(state: DeviceState) -> ReadyAction {
    match state {
        DeviceState::AwaitingBitstream => ReadyAction::Proceed,
        DeviceState::RunningApplication => ReadyAction::ResetAndWait,
        _ => ReadyAction::Wait,
    }
}

/// Decide the boot sequence's reaction to a lifecycle state.
pub fn ready_action(state: DeviceState) -> (r: ReadyAction)
    ensures
        r == spec_ready_action(state),
{
    match state {
        DeviceState::AwaitingBitstream => ReadyAction::Proceed,
        DeviceState::RunningApplication => ReadyAction::ResetAndWait,
        _ => ReadyAction::Wait,
    }
}

} // verus!
