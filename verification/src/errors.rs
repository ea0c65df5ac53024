//! The error taxonomy and its stable numeric wire encoding.
//!
//! Errors cross a process boundary as 16-bit values in disjoint bands, so the
//! mapping must be a lossless round trip and must reject values outside the
//! defined bands.

use vstd::prelude::*;

verus! {

/// Everything that can go wrong while operating the device.
#[derive(Copy, Clone, Debug, PartialEq, Eq, Structural)]
pub enum FpgaError {
    /// Transport/bus-level failure; the payload is the transport's own code.
    ImplError(u8),
    /// The device rejected a bitstream; the payload is the fault code.
    BitstreamError(u8),
    /// The device is not in a state that allows the requested operation.
    InvalidState,
    /// A value read from or destined for the device is out of range.
    InvalidValue,
    /// The configuration port is de-energized and does not respond.
    PortDisabled,
    /// A release was requested while no session lock was held.
    NotLocked,
}

impl FpgaError {
    /// The 16-bit wire encoding: disjoint bands per variant.
    pub open spec fn spec_encode(self) -> u16 {
        match self {
            FpgaError::ImplError(code) => (0x0100 + code) as u16,
            FpgaError::BitstreamError(code) => (0x0200 + code) as u16,
            FpgaError::InvalidState => 0x0300,
            FpgaError::InvalidValue => 0x0301,
            FpgaError::PortDisabled => 0x0400,
            FpgaError::NotLocked => 0x0500,
        }
    }

    /// Decoding of a 16-bit wire value; values outside the defined bands are
    /// rejected rather than aliased to a valid variant.
    pub open spec fn spec_decode(v: u16) -> Result<FpgaError, ()> {
        if v & 0xff00 == 0x0100 {
            Ok(FpgaError::ImplError((v & 0x00ff) as u8))
        } else if v & 0xff00 == 0x0200 {
            Ok(FpgaError::BitstreamError((v & 0x00ff) as u8))
        } else if v == 0x0300 {
            Ok(FpgaError::InvalidState)
        } else if v == 0x0301 {
            Ok(FpgaError::InvalidValue)
        } else if v == 0x0400 {
            Ok(FpgaError::PortDisabled)
        } else if v == 0x0500 {
            Ok(FpgaError::NotLocked)
        } else {
            Err(())
        }
    }

    /// Encode this error as its 16-bit wire value.
    pub fn encode(self) -> (r: u16)
        ensures
            r == self.spec_encode(),
    {
        match self {
            FpgaError::ImplError(code) => 0x0100 + (code as u16),
            FpgaError::BitstreamError(code) => 0x0200 + (code as u16),
            FpgaError::InvalidState => 0x0300,
            FpgaError::InvalidValue => 0x0301,
            FpgaError::PortDisabled => 0x0400,
            FpgaError::NotLocked => 0x0500,
        }
    }

    /// Decode a 16-bit wire value back into an error.
    pub fn decode(v: u16) -> (r: Result<FpgaError, ()>)
        ensures
            r == Self::spec_decode(v),
    {
        let band = v & 0xff00;
        if band == 0x0100 {
            Ok(FpgaError::ImplError((v & 0x00ff) as u8))
        } else if band == 0x0200 {
            Ok(FpgaError::BitstreamError((v & 0x00ff) as u8))
        } else if v == 0x0300 {
            Ok(FpgaError::InvalidState)
        } else if v == 0x0301 {
            Ok(FpgaError::InvalidValue)
        } else if v == 0x0400 {
            Ok(FpgaError::PortDisabled)
        } else if v == 0x0500 {
            Ok(FpgaError::NotLocked)
        } else {
            Err(())
        }
    }
}

/// Law: encoding any taxonomy member and decoding the result returns the
/// original member; the wire encoding loses nothing.
pub proof fn lemma_error_round_trip(e: FpgaError)
    ensures
        FpgaError::spec_decode(e.spec_encode()) == Ok::<FpgaError, ()>(e),
{
    match e {
        FpgaError::ImplError(code) => {
            assert((0x0100 + code) as u16 & 0xff00 == 0x0100 && ((0x0100 + code) as u16 & 0x00ff)
                as u8 == code) by (bit_vector);
        },
        FpgaError::BitstreamError(code) => {
            assert((0x0200 + code) as u16 & 0xff00 == 0x0200 && (0x0200 + code) as u16 & 0xff00
                != 0x0100 && ((0x0200 + code) as u16 & 0x00ff) as u8 == code) by (bit_vector);
        },
        _ => {
            assert(0x0300u16 & 0xff00 != 0x0100 && 0x0300u16 & 0xff00 != 0x0200) by (bit_vector);
            assert(0x0301u16 & 0xff00 != 0x0100 && 0x0301u16 & 0xff00 != 0x0200) by (bit_vector);
            assert(0x0400u16 & 0xff00 != 0x0100 && 0x0400u16 & 0xff00 != 0x0200) by (bit_vector);
            assert(0x0500u16 & 0xff00 != 0x0100 && 0x0500u16 & 0xff00 != 0x0200) by (bit_vector);
        },
    }
}

/// Law: the decoding is the exact inverse of the encoding on the defined
/// bands, so no two wire values decode to the same member.
pub proof fn lemma_error_decode_inverse(v: u16, e: FpgaError)
    requires
        FpgaError::spec_decode(v) == Ok::<FpgaError, ()>(e),
    ensures
        e.spec_encode() == v,
{
    assert(v & 0xff00 == 0x0100 ==> (0x0100 + ((v & 0x00ff) as u8)) as u16 == v) by (bit_vector);
    assert(v & 0xff00 == 0x0200 ==> (0x0200 + ((v & 0x00ff) as u8)) as u16 == v) by (bit_vector);
}

} // verus!
