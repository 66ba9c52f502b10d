use vstd::prelude::*;

verus! {

/// Memory and devices as a hart sees them: little-endian reads and writes of 8, 16 and 32 bits
/// at a byte address. Users implement it for their memory map.
///
/// The spec functions name what a bus does: a read returns a value that depends only on the
/// bus's state and the address, and a write leaves a state that depends only on the state
/// before, the address and the value. What those values and states are is the implementation's
/// own affair; the hart's contracts speak of them through these names. An implementation
/// written outside Verus gives them as ordinary functions that compute the same values (the
/// hart never calls them).
pub trait Bus: Sized {
    /// The byte a read at `addr` returns from this state.
    spec fn spec_read8(&self, addr: u32) -> u8;

    /// The halfword a read at `addr` returns from this state.
    spec fn spec_read16(&self, addr: u32) -> u16;

    /// The word a read at `addr` returns from this state.
    spec fn spec_read32(&self, addr: u32) -> u32;

    /// The state after writing the byte `val` at `addr`.
    spec fn spec_write8(&self, addr: u32, val: u8) -> Self;

    /// The state after writing the halfword `val` at `addr`.
    spec fn spec_write16(&self, addr: u32, val: u16) -> Self;

    /// The state after writing the word `val` at `addr`.
    spec fn spec_write32(&self, addr: u32, val: u32) -> Self;

    fn read8(&self, addr: u32) -> (r: u8)
        ensures
            r == self.spec_read8(addr),
    ;

    fn read16(&self, addr: u32) -> (r: u16)
        ensures
            r == self.spec_read16(addr),
    ;

    fn read32(&self, addr: u32) -> (r: u32)
        ensures
            r == self.spec_read32(addr),
    ;

    fn write8(&mut self, addr: u32, val: u8)
        ensures
            *final(self) == old(self).spec_write8(addr, val),
    ;

    fn write16(&mut self, addr: u32, val: u16)
        ensures
            *final(self) == old(self).spec_write16(addr, val),
    ;

    fn write32(&mut self, addr: u32, val: u32)
        ensures
            *final(self) == old(self).spec_write32(addr, val),
    ;
}

} // verus!
