use ecp5::display::DisplayError;
use ecp5::display::Orientation;
use ecp5::display::TearingEffect;
use ecp5::errors::FpgaError;
use ecp5::server::application_request_header;
use ecp5::server::refresh_stale_peer;
use ecp5::server::NotificationSubscriptions;
use ecp5::server::TaskId;
use ecp5::server::WriteOp;
use ecp5::server::APPLICATION_READ_OP;
use ecp5::tofino2::decode_error;
use ecp5::tofino2::decode_state;
use ecp5::tofino2::decode_vid;
use ecp5::tofino2::ident_valid;
use ecp5::tofino2::power_transition;
use ecp5::tofino2::power_up_step;
use ecp5::tofino2::ready_action;
use ecp5::tofino2::vid_millivolts;
use ecp5::tofino2::Error;
use ecp5::tofino2::PowerCommand;
use ecp5::tofino2::PowerState;
use ecp5::tofino2::PowerUpStep;
use ecp5::tofino2::ReadyAction;
use ecp5::tofino2::SeqError;
use ecp5::tofino2::State;
use ecp5::tofino2::Vid;
use ecp5::tofino2::EXPECTED_IDENT;
use ecp5::DeviceState;

#[test]
fn state_register_decodes_its_five_states() {
    assert_eq!(decode_state(0), Ok(State::Initial));
    assert_eq!(decode_state(1), Ok(State::A2));
    assert_eq!(decode_state(2), Ok(State::A0));
    assert_eq!(decode_state(3), Ok(State::InPowerUp));
    assert_eq!(decode_state(4), Ok(State::InPowerDown));
    assert_eq!(decode_state(5), Err(FpgaError::InvalidValue));
    assert_eq!(decode_state(7), Err(FpgaError::InvalidValue));
    // Only the field's bits are read.
    assert_eq!(decode_state(0xf8 | 2), Ok(State::A0));
}

#[test]
fn error_register_decodes_every_fault() {
    let expected = [
        Error::NoError,
        Error::PowerGoodTimeout,
        Error::PowerFault,
        Error::PowerVrHot,
        Error::PowerInvalidState,
        Error::UserAbort,
        Error::VidAckTimeout,
        Error::ThermalAlert,
    ];
    for v in 0..8u8 {
        assert_eq!(decode_error(v), expected[v as usize]);
    }
}

#[test]
fn vid_register_decodes_only_valid_identifiers() {
    assert_eq!(decode_vid(0x00), Ok(None));
    assert_eq!(decode_vid(0x0f), Ok(None));
    assert_eq!(decode_vid(0x1f), Ok(Some(Vid::V0P922)));
    assert_eq!(decode_vid(0x1e), Ok(Some(Vid::V0P893)));
    assert_eq!(decode_vid(0x1d), Ok(Some(Vid::V0P867)));
    assert_eq!(decode_vid(0x1c), Ok(Some(Vid::V0P847)));
    assert_eq!(decode_vid(0x1b), Ok(Some(Vid::V0P831)));
    assert_eq!(decode_vid(0x1a), Ok(Some(Vid::V0P815)));
    assert_eq!(decode_vid(0x19), Ok(Some(Vid::V0P790)));
    assert_eq!(decode_vid(0x18), Ok(Some(Vid::V0P759)));
    assert_eq!(decode_vid(0x17), Err(FpgaError::InvalidValue));
    assert_eq!(decode_vid(0x10), Err(FpgaError::InvalidValue));
}

#[test]
fn vid_voltages_are_exact() {
    assert_eq!(vid_millivolts(Vid::V0P922), 922);
    assert_eq!(vid_millivolts(Vid::V0P893), 893);
    assert_eq!(vid_millivolts(Vid::V0P867), 867);
    assert_eq!(vid_millivolts(Vid::V0P847), 847);
    assert_eq!(vid_millivolts(Vid::V0P831), 831);
    assert_eq!(vid_millivolts(Vid::V0P815), 815);
    assert_eq!(vid_millivolts(Vid::V0P790), 790);
    assert_eq!(vid_millivolts(Vid::V0P759), 759);
}

#[test]
fn power_transitions_follow_the_table() {
    assert_eq!(
        power_transition(State::A2, Error::NoError, PowerState::A0),
        Ok(PowerCommand::PowerUp)
    );
    assert_eq!(
        power_transition(State::A0, Error::NoError, PowerState::A2),
        Ok(PowerCommand::PowerDown)
    );
    assert_eq!(
        power_transition(State::Initial, Error::NoError, PowerState::A2),
        Ok(PowerCommand::PowerDown)
    );
    assert_eq!(
        power_transition(State::A0, Error::NoError, PowerState::A0),
        Err(SeqError::IllegalTransition)
    );
    assert_eq!(
        power_transition(State::Initial, Error::NoError, PowerState::A0),
        Err(SeqError::IllegalTransition)
    );
    assert_eq!(
        power_transition(State::A2, Error::PowerFault, PowerState::A0),
        Err(SeqError::SequencerError)
    );
}

#[test]
fn power_up_steps_cover_all_outcomes() {
    assert_eq!(
        power_up_step(1, Ok(Some(Vid::V0P847))),
        PowerUpStep::SetVoltageAndAck(Vid::V0P847)
    );
    assert_eq!(power_up_step(1, Ok(None)), PowerUpStep::Retry);
    assert_eq!(power_up_step(2, Ok(None)), PowerUpStep::Retry);
    assert_eq!(
        power_up_step(3, Ok(None)),
        PowerUpStep::Fail(SeqError::SequencerTimeout)
    );
    assert_eq!(
        power_up_step(1, Err(FpgaError::InvalidValue)),
        PowerUpStep::Fail(SeqError::InvalidTofinoVid)
    );
    assert_eq!(
        power_up_step(1, Err(FpgaError::PortDisabled)),
        PowerUpStep::Fail(SeqError::FpgaError)
    );
}

#[test]
fn controller_identity_is_checked_exactly() {
    assert!(ident_valid(EXPECTED_IDENT));
    assert!(ident_valid(0x01de_aa55));
    assert!(!ident_valid(0));
    assert!(!ident_valid(0xffff_ffff));
    assert!(!ident_valid(0x01de_aa54));
}

#[test]
fn boot_sequence_reacts_to_each_lifecycle_state() {
    assert_eq!(ready_action(DeviceState::AwaitingBitstream), ReadyAction::Proceed);
    assert_eq!(ready_action(DeviceState::RunningApplication), ReadyAction::ResetAndWait);
    assert_eq!(ready_action(DeviceState::Disabled), ReadyAction::Wait);
    assert_eq!(ready_action(DeviceState::Error), ReadyAction::Wait);
}

#[test]
fn stale_peer_detection_reads_the_dead_band() {
    let client = TaskId { index: 7, generation: 3 };
    assert_eq!(
        refresh_stale_peer(client, 0xffffff05),
        Some(TaskId { index: 7, generation: 5 })
    );
    assert_eq!(refresh_stale_peer(client, 0xffffff00), Some(TaskId { index: 7, generation: 0 }));
    assert_eq!(refresh_stale_peer(client, 0), None);
    assert_eq!(refresh_stale_peer(client, 0xfffffe00), None);
}

#[test]
fn subscriptions_update_once_on_a_dead_peer() {
    let client = TaskId { index: 7, generation: 3 };
    let mut subs = NotificationSubscriptions::new(vec![(client, 0x2)]);
    assert_eq!(subs.len(), 1);
    assert!(subs.handle_response(0, 0xffffff04));
    assert_eq!(subs.get(0), (TaskId { index: 7, generation: 4 }, 0x2));
    assert!(!subs.handle_response(0, 0));
    assert_eq!(subs.get(0), (TaskId { index: 7, generation: 4 }, 0x2));
}

#[test]
fn application_channel_headers_are_big_endian() {
    assert_eq!(application_request_header(APPLICATION_READ_OP, 0x1234), vec![0x01, 0x12, 0x34]);
    assert_eq!(application_request_header(WriteOp::Write.code(), 0x0001), vec![0x00, 0x00, 0x01]);
    assert_eq!(WriteOp::Write.code(), 0);
    assert_eq!(WriteOp::BitSet.code(), 2);
    assert_eq!(WriteOp::BitClear.code(), 3);
}

#[test]
fn display_codes_round_trip() {
    for t in [TearingEffect::Off, TearingEffect::Vertical, TearingEffect::HorizontalAndVertical] {
        assert_eq!(TearingEffect::from_code(t.code()), Some(t));
    }
    assert_eq!(TearingEffect::from_code(3), None);
    for o in [
        Orientation::Portrait,
        Orientation::Landscape,
        Orientation::PortraitSwapped,
        Orientation::LandscapeSwapped,
    ] {
        assert_eq!(Orientation::from_code(o.code()), Some(o));
    }
    assert_eq!(Orientation::from_code(4), None);
    assert_ne!(DisplayError::DisplayError, DisplayError::PinError);
}
