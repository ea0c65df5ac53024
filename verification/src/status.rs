//! Bit-level view over the 32-bit device status word.
//!
//! The status word is a live snapshot fetched fresh on each read; this type
//! stores nothing of its own and only names the bit and field positions of
//! the hardware register.

use vstd::prelude::*;

verus! {

/// Fault codes the device reports in the 3-bit bitstream-error subfield of
/// the status word.
#[derive(Copy, Clone, Debug, PartialEq, Eq, Structural)]
pub enum BitstreamError {
    NoError,
    InvalidId,
    IllegalCommand,
    CrcMismatch,
    InvalidPreamble,
    UserAbort,
    DataOverflow,
    SramDataOverflow,
}

impl BitstreamError {
    /// The numeric code of this fault, as the hardware reports it.
    pub open spec fn spec_code(self) -> u8 {
        match self {
            BitstreamError::NoError => 0,
            BitstreamError::InvalidId => 1,
            BitstreamError::IllegalCommand => 2,
            BitstreamError::CrcMismatch => 3,
            BitstreamError::InvalidPreamble => 4,
            BitstreamError::UserAbort => 5,
            BitstreamError::DataOverflow => 6,
            BitstreamError::SramDataOverflow => 7,
        }
    }

    /// Decoding of a numeric fault code. The subfield is three bits wide so
    /// the set is closed by the hardware contract, but decoding must not fail
    /// on a silicon anomaly: anything undecodable normalizes to `None`.
    pub open spec fn spec_from_code(code: u8) -> BitstreamError {
        if code == 1 {
            BitstreamError::InvalidId
        } else if code == 2 {
            BitstreamError::IllegalCommand
        } else if code == 3 {
            BitstreamError::CrcMismatch
        } else if code == 4 {
            BitstreamError::InvalidPreamble
        } else if code == 5 {
            BitstreamError::UserAbort
        } else if code == 6 {
            BitstreamError::DataOverflow
        } else if code == 7 {
            BitstreamError::SramDataOverflow
        } else {
            BitstreamError::NoError
        }
    }

    /// The numeric code of this fault.
    pub fn code(self) -> (r: u8)
        ensures
            r == self.spec_code(),
    {
        match self {
            BitstreamError::NoError => 0,
            BitstreamError::InvalidId => 1,
            BitstreamError::IllegalCommand => 2,
            BitstreamError::CrcMismatch => 3,
            BitstreamError::InvalidPreamble => 4,
            BitstreamError::UserAbort => 5,
            BitstreamError::DataOverflow => 6,
            BitstreamError::SramDataOverflow => 7,
        }
    }

    /// Decode a numeric fault code.
    pub fn from_code(code: u8) -> (r: BitstreamError)
        ensures
            r == Self::spec_from_code(code),
    {
        if code == 1 {
            BitstreamError::InvalidId
        } else if code == 2 {
            BitstreamError::IllegalCommand
        } else if code == 3 {
            BitstreamError::CrcMismatch
        } else if code == 4 {
            BitstreamError::InvalidPreamble
        } else if code == 5 {
            BitstreamError::UserAbort
        } else if code == 6 {
            BitstreamError::DataOverflow
        } else if code == 7 {
            BitstreamError::SramDataOverflow
        } else {
            BitstreamError::NoError
        }
    }
}

/// Law: fault codes and fault variants correspond one to one on the 3-bit
/// range the hardware can produce.
pub proof fn lemma_bitstream_error_round_trip(e: BitstreamError, code: u8)
    ensures
        BitstreamError::spec_from_code(e.spec_code()) == e,
        code < 8 ==> BitstreamError::spec_from_code(code).spec_code() == code,
{
}

/// The device status register as an accessor view over the fetched 32-bit
/// word. Field positions follow the hardware contract bit for bit.
#[derive(Copy, Clone, Debug, PartialEq, Eq, Structural)]
pub struct Status(pub u32);

impl Status {
    /// True when the named bit of `w` is set.
    pub open spec fn spec_bit(w: u32, i: u32) -> bool {
        w >> i & 1 == 1
    }

    /// The 3-bit bitstream-error subfield of `w` (bits 23 to 25).
    pub open spec fn spec_bse_error_code(w: u32) -> u32 {
        w >> 23 & 7
    }

    fn bit(self, i: u32) -> (r: bool)
        requires
            i < 32,
        ensures
            r == Self::spec_bit(self.0, i),
    {
        self.0 >> i & 1 == 1
    }

    /// Bit 0: the device is in transparent mode.
    pub fn transparent_mode(self) -> (r: bool)
        ensures
            r == Self::spec_bit(self.0, 0),
    {
        self.bit(0)
    }

    /// Bits 1 to 3: configuration target selection.
    pub fn config_target_selection(self) -> (r: u32)
        ensures
            r == self.0 >> 1 & 7,
    {
        self.0 >> 1 & 7
    }

    /// Bit 4: JTAG is active.
    pub fn jtag_active(self) -> (r: bool)
        ensures
            r == Self::spec_bit(self.0, 4),
    {
        self.bit(4)
    }

    /// Bit 5: password protection is enabled.
    pub fn pwd_protection(self) -> (r: bool)
        ensures
            r == Self::spec_bit(self.0, 5),
    {
        self.bit(5)
    }

    /// Bit 7: decryption is enabled.
    pub fn decrypt_enable(self) -> (r: bool)
        ensures
            r == Self::spec_bit(self.0, 7),
    {
        self.bit(7)
    }

    /// Bit 8: the device has entered user mode.
    pub fn done(self) -> (r: bool)
        ensures
            r == Self::spec_bit(self.0, 8),
    {
        self.bit(8)
    }

    /// Bit 9: in-system configuration is enabled.
    pub fn isc_enabled(self) -> (r: bool)
        ensures
            r == Self::spec_bit(self.0, 9),
    {
        self.bit(9)
    }

    /// Bit 10: the configuration port accepts writes.
    pub fn write_enabled(self) -> (r: bool)
        ensures
            r == Self::spec_bit(self.0, 10),
    {
        self.bit(10)
    }

    /// Bit 11: the configuration port accepts reads.
    pub fn read_enabled(self) -> (r: bool)
        ensures
            r == Self::spec_bit(self.0, 11),
    {
        self.bit(11)
    }

    /// Bit 12: the device is busy with an operation.
    pub fn busy(self) -> (r: bool)
        ensures
            r == Self::spec_bit(self.0, 12),
    {
        self.bit(12)
    }

    /// Bit 13: the last operation failed.
    pub fn fail(self) -> (r: bool)
        ensures
            r == Self::spec_bit(self.0, 13),
    {
        self.bit(13)
    }

    /// Bit 14: the feature row OTP is programmed.
    pub fn fea_otp(self) -> (r: bool)
        ensures
            r == Self::spec_bit(self.0, 14),
    {
        self.bit(14)
    }

    /// Bit 15: only encrypted bitstreams are accepted.
    pub fn decrypt_only(self) -> (r: bool)
        ensures
            r == Self::spec_bit(self.0, 15),
    {
        self.bit(15)
    }

    /// Bit 16: a password is enabled.
    pub fn pwd_enabled(self) -> (r: bool)
        ensures
            r == Self::spec_bit(self.0, 16),
    {
        self.bit(16)
    }

    /// Bit 20: an encrypted bitstream preamble was detected.
    pub fn encrypt_preamble_detected(self) -> (r: bool)
        ensures
            r == Self::spec_bit(self.0, 20),
    {
        self.bit(20)
    }

    /// Bit 21: a standard bitstream preamble was detected.
    pub fn standard_preamble_detected(self) -> (r: bool)
        ensures
            r == Self::spec_bit(self.0, 21),
    {
        self.bit(21)
    }

    /// Bit 22: serial peripheral master mode failed.
    pub fn spim_fail1(self) -> (r: bool)
        ensures
            r == Self::spec_bit(self.0, 22),
    {
        self.bit(22)
    }

    /// Bits 23 to 25: the bitstream-error subfield.
    pub fn bse_error_code(self) -> (r: u32)
        ensures
            r == Self::spec_bse_error_code(self.0),
    {
        self.0 >> 23 & 7
    }

    /// Bit 26: an execution error occurred.
    pub fn execution_error(self) -> (r: bool)
        ensures
            r == Self::spec_bit(self.0, 26),
    {
        self.bit(26)
    }

    /// Bit 27: the bitstream carried a wrong device id.
    pub fn id_error(self) -> (r: bool)
        ensures
            r == Self::spec_bit(self.0, 27),
    {
        self.bit(27)
    }

    /// Bit 28: an invalid command was received.
    pub fn invalid_command(self) -> (r: bool)
        ensures
            r == Self::spec_bit(self.0, 28),
    {
        self.bit(28)
    }

    /// Bit 29: a soft error was detected.
    pub fn sed_error(self) -> (r: bool)
        ensures
            r == Self::spec_bit(self.0, 29),
    {
        self.bit(29)
    }

    /// Bit 30: the device is in bypass mode.
    pub fn bypass_mode(self) -> (r: bool)
        ensures
            r == Self::spec_bit(self.0, 30),
    {
        self.bit(30)
    }

    /// Bit 31: the device is in flow-through mode.
    pub fn flow_through_mode(self) -> (r: bool)
        ensures
            r == Self::spec_bit(self.0, 31),
    {
        self.bit(31)
    }

    /// The bitstream-error subfield decoded as a typed fault.
    pub open spec fn spec_bitstream_error(self) -> BitstreamError {
        BitstreamError::spec_from_code(Self::spec_bse_error_code(self.0) as u8)
    }

    /// Decode the bitstream-error subfield.
    pub fn bitstream_error(self) -> (r: BitstreamError)
        ensures
            r == self.spec_bitstream_error(),
    {
        let w: u32 = self.0;
        let code = self.bse_error_code();
        assert(code < 8) by (bit_vector)
            requires
                code == w >> 23 & 7,
        ;
        BitstreamError::from_code(code as u8)
    }
}

} // verus!
