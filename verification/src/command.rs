//! Configuration-port command opcodes and device identity codes.
//!
//! Opcode values are wire-stable byte constants from the hardware contract
//! and are never renumbered.

use vstd::prelude::*;

verus! {

/// Command opcodes accepted by the device's configuration port.
#[derive(Copy, Clone, Debug, PartialEq, Eq, Structural)]
pub enum Command {
    Noop,
    ReadId,
    ReadUserCode,
    ReadStatus,
    CheckBusy,
    Refresh,
    EnableConfigurationMode,
    EnableTransparentConfigurationMode,
    DisableConfigurationMode,
    Erase,
    BitstreamBurst,
}

impl Command {
    /// The wire opcode byte of this command.
    pub open spec fn spec_opcode(self) -> u8 {
        match self {
            Command::Noop => 0xff,
            Command::ReadId => 0xe0,
            Command::ReadUserCode => 0xc0,
            Command::ReadStatus => 0x3c,
            Command::CheckBusy => 0xf0,
            Command::Refresh => 0x79,
            Command::EnableConfigurationMode => 0xc6,
            Command::EnableTransparentConfigurationMode => 0x74,
            Command::DisableConfigurationMode => 0x26,
            Command::Erase => 0x0e,
            Command::BitstreamBurst => 0x7a,
        }
    }

    /// The wire opcode byte of this command.
    pub fn opcode(self) -> (r: u8)
        ensures
            r == self.spec_opcode(),
    {
        match self {
            Command::Noop => 0xff,
            Command::ReadId => 0xe0,
            Command::ReadUserCode => 0xc0,
            Command::ReadStatus => 0x3c,
            Command::CheckBusy => 0xf0,
            Command::Refresh => 0x79,
            Command::EnableConfigurationMode => 0xc6,
            Command::EnableTransparentConfigurationMode => 0x74,
            Command::DisableConfigurationMode => 0x26,
            Command::Erase => 0x0e,
            Command::BitstreamBurst => 0x7a,
        }
    }
}

/// Identity codes of the device family, as read back by `Command::ReadId`.
#[derive(Copy, Clone, Debug, PartialEq, Eq, Structural)]
pub enum Id {
    Invalid,
    Lfe5u12,
    Lfe5u25,
    Lfe5u45,
    Lfe5u85,
    Lfe5um25,
    Lfe5um45,
    Lfe5um85,
    Lfe5um5g25,
    Lfe5um5g45,
    Lfe5um5g85,
}

impl Id {
    /// The 32-bit identity code of this device.
    pub open spec fn spec_code(self) -> u32 {
        match self {
            Id::Invalid => 0,
            Id::Lfe5u12 => 0x21111043,
            Id::Lfe5u25 => 0x41111043,
            Id::Lfe5u45 => 0x41112043,
            Id::Lfe5u85 => 0x41113043,
            Id::Lfe5um25 => 0x01111043,
            Id::Lfe5um45 => 0x01112043,
            Id::Lfe5um85 => 0x01113043,
            Id::Lfe5um5g25 => 0x81111043,
            Id::Lfe5um5g45 => 0x81112043,
            Id::Lfe5um5g85 => 0x81113043,
        }
    }

    /// Decoding of a 32-bit identity code; unknown codes are rejected.
    pub open spec fn spec_from_code(v: u32) -> Option<Id> {
        if v == 0 {
            Some(Id::Invalid)
        } else if v == 0x21111043 {
            Some(Id::Lfe5u12)
        } else if v == 0x41111043 {
            Some(Id::Lfe5u25)
        } else if v == 0x41112043 {
            Some(Id::Lfe5u45)
        } else if v == 0x41113043 {
            Some(Id::Lfe5u85)
        } else if v == 0x01111043 {
            Some(Id::Lfe5um25)
        } else if v == 0x01112043 {
            Some(Id::Lfe5um45)
        } else if v == 0x01113043 {
            Some(Id::Lfe5um85)
        } else if v == 0x81111043 {
            Some(Id::Lfe5um5g25)
        } else if v == 0x81112043 {
            Some(Id::Lfe5um5g45)
        } else if v == 0x81113043 {
            Some(Id::Lfe5um5g85)
        } else {
            None
        }
    }

    /// The 32-bit identity code of this device.
    pub fn code(self) -> (r: u32)
        ensures
            r == self.spec_code(),
    {
        match self {
            Id::Invalid => 0,
            Id::Lfe5u12 => 0x21111043,
            Id::Lfe5u25 => 0x41111043,
            Id::Lfe5u45 => 0x41112043,
            Id::Lfe5u85 => 0x41113043,
            Id::Lfe5um25 => 0x01111043,
            Id::Lfe5um45 => 0x01112043,
            Id::Lfe5um85 => 0x01113043,
            Id::Lfe5um5g25 => 0x81111043,
            Id::Lfe5um5g45 => 0x81112043,
            Id::Lfe5um5g85 => 0x81113043,
        }
    }

    /// Decode a 32-bit identity code.
    pub fn from_code(v: u32) -> (r: Option<Id>)
        ensures
            r == Self::spec_from_code(v),
    {
        if v == 0 {
            Some(Id::Invalid)
        } else if v == 0x21111043 {
            Some(Id::Lfe5u12)
        } else if v == 0x41111043 {
            Some(Id::Lfe5u25)
        } else if v == 0x41112043 {
            Some(Id::Lfe5u45)
        } else if v == 0x41113043 {
            Some(Id::Lfe5u85)
        } else if v == 0x01111043 {
            Some(Id::Lfe5um25)
        } else if v == 0x01112043 {
            Some(Id::Lfe5um45)
        } else if v == 0x01113043 {
            Some(Id::Lfe5um85)
        } else if v == 0x81111043 {
            Some(Id::Lfe5um5g25)
        } else if v == 0x81112043 {
            Some(Id::Lfe5um5g45)
        } else if v == 0x81113043 {
            Some(Id::Lfe5um5g85)
        } else {
            None
        }
    }
}

/// Law: identity codes and identity variants correspond one to one.
pub proof fn lemma_id_round_trip(id: Id, v: u32)
    ensures
        Id::spec_from_code(id.spec_code()) == Some(id),
        Id::spec_from_code(v) matches Some(decoded) ==> decoded.spec_code() == v,
{
}

} // verus!
