use vstd::prelude::*;

verus! {

/// The privilege level a hart runs at.
#[derive(Debug, Clone, Copy, PartialEq, Eq, Structural)]
pub enum PrivilegeMode {
    User,
    Supervisor,
    Machine,
}

/// The mode that the two-bit encoding `bits % 4` names; the reserved encoding 2 is read as
/// machine mode.
pub open spec fn mode_of_bits(bits: u32) -> PrivilegeMode {
    let b = bits % 4;
    if b == 0 {
        PrivilegeMode::User
    } else if b == 1 {
        PrivilegeMode::Supervisor
    } else {
        PrivilegeMode::Machine
    }
}

/// The two-bit encoding of a mode: user 0, supervisor 1, machine 3.
pub open spec fn bits_of_mode(mode: PrivilegeMode) -> u32 {
    match mode {
        PrivilegeMode::User => 0,
        PrivilegeMode::Supervisor => 1,
        PrivilegeMode::Machine => 3,
    }
}

impl PrivilegeMode {
    /// Reads a mode from the low two bits of `bits`.
    pub fn from_bits(bits: u32) -> (r: Self)
        ensures
            r == mode_of_bits(bits),
    {
        let b: u32 = bits & 0x3;
        assert(b == bits % 4) by (bit_vector)
            requires
                b == bits & 0x3,
        ;
        match b {
            0 => PrivilegeMode::User,
            1 => PrivilegeMode::Supervisor,
            3 => PrivilegeMode::Machine,
            _ => PrivilegeMode::Machine,
        }
    }

    /// The two-bit encoding of this mode.
    pub fn to_bits(self) -> (r: u32)
        ensures
            r == bits_of_mode(self),
    {
        match self {
            PrivilegeMode::User => 0,
            PrivilegeMode::Supervisor => 1,
            PrivilegeMode::Machine => 3,
        }
    }
}

/// Reading back the encoding of a mode gives that mode.
pub proof fn lemma_mode_bits_roundtrip(mode: PrivilegeMode)
    ensures
        mode_of_bits(bits_of_mode(mode)) == mode,
        bits_of_mode(mode) < 4,
{
}

/// The encoding orders the modes by privilege, machine mode taking the highest two-bit value,
/// reading depends only on the low two bits, and the reserved encoding 2 reads as machine mode.
pub proof fn lemma_mode_encoding_order(bits: u32)
    ensures
        bits_of_mode(PrivilegeMode::User) < bits_of_mode(PrivilegeMode::Supervisor),
        bits_of_mode(PrivilegeMode::Supervisor) < bits_of_mode(PrivilegeMode::Machine),
        bits_of_mode(PrivilegeMode::Machine) == 3,
        mode_of_bits(bits) == mode_of_bits(bits % 4),
        (mode_of_bits(bits) == PrivilegeMode::Machine) == (bits % 4 >= 2),
{
}

} // verus!
