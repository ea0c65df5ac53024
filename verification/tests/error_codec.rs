use ecp5::errors::FpgaError;

fn round_trip(e: FpgaError) {
    let v = e.encode();
    assert_eq!(FpgaError::decode(v), Ok(e));
}

#[test]
fn every_taxonomy_member_round_trips() {
    round_trip(FpgaError::InvalidState);
    round_trip(FpgaError::InvalidValue);
    round_trip(FpgaError::PortDisabled);
    round_trip(FpgaError::NotLocked);
    for code in 0..=255u8 {
        round_trip(FpgaError::ImplError(code));
        round_trip(FpgaError::BitstreamError(code));
    }
}

#[test]
fn bands_are_exact() {
    assert_eq!(FpgaError::ImplError(0).encode(), 0x0100);
    assert_eq!(FpgaError::ImplError(0xab).encode(), 0x01ab);
    assert_eq!(FpgaError::BitstreamError(0).encode(), 0x0200);
    assert_eq!(FpgaError::BitstreamError(7).encode(), 0x0207);
    assert_eq!(FpgaError::InvalidState.encode(), 0x0300);
    assert_eq!(FpgaError::InvalidValue.encode(), 0x0301);
    assert_eq!(FpgaError::PortDisabled.encode(), 0x0400);
    assert_eq!(FpgaError::NotLocked.encode(), 0x0500);
}

#[test]
fn out_of_band_values_are_rejected() {
    for v in [
        0x0000u16, 0x0001, 0x00ff, 0x0302, 0x03ff, 0x0401, 0x04ff, 0x0501, 0x05ff, 0x0600,
        0x1000, 0xffff,
    ] {
        assert_eq!(FpgaError::decode(v), Err(()));
    }
}

#[test]
fn decode_is_injective_on_the_bands() {
    for v in 0..=0xffffu16 {
        if let Ok(e) = FpgaError::decode(v) {
            assert_eq!(e.encode(), v);
        }
    }
}
