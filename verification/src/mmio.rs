//! Values of the memory-mapped control registers that the drivers configure.

use vstd::prelude::*;

verus! {

/// The number of wait cycles inserted on an access to the cartridge.
#[derive(Clone, Copy, Debug, PartialEq, Eq)]
pub enum Cycles {
    _4,
    _3,
    _2,
    _8,
}

impl Cycles {
    /// The two-bit code by which the waitstate register names this setting.
    pub open spec fn code(self) -> u16 {
        match self {
            Cycles::_4 => 0,
            Cycles::_3 => 1,
            Cycles::_2 => 2,
            Cycles::_8 => 3,
        }
    }

    /// Returns the two-bit code by which the waitstate register names this setting.
    pub fn bits(self) -> (code: u16)
        ensures
            code == self.code(),
            code <= 3,
    {
        match self {
            Cycles::_4 => 0,
            Cycles::_3 => 1,
            Cycles::_2 => 2,
            Cycles::_8 => 3,
        }
    }
}

/// A value of the waitstate control register.
#[derive(Clone, Copy, Debug)]
pub struct WaitstateControl(pub u16);

impl WaitstateControl {
    /// Sets the wait cycles of the backup memory window, which are held in bits 0 and 1.
    ///
    /// All other bits keep their value.
    pub fn set_backup_waitstate(&mut self, cycles: Cycles)
        ensures
            final(self).0 == (old(self).0 & 0xfffc) | cycles.code(),
            final(self).0 & 0x0003 == cycles.code(),
            final(self).0 & 0xfffc == old(self).0 & 0xfffc,
    {
        let code = cycles.bits();
        let previous = self.0;
        self.0 = (previous & 0b1111_1111_1111_1100) | code;
        assert(((previous & 0xfffc) | code) & 0x0003 == code && ((previous & 0xfffc) | code)
            & 0xfffc == previous & 0xfffc) by (bit_vector)
            requires
                code <= 3,
        ;
    }

    /// Sets the wait cycles of the EEPROM window, which are held in bits 8 and 9.
    ///
    /// All other bits keep their value.
    pub fn set_eeprom_waitstate(&mut self, cycles: Cycles)
        ensures
            final(self).0 == (old(self).0 & 0xfcff) | (cycles.code() << 8),
            (final(self).0 >> 8) & 0x0003 == cycles.code(),
            final(self).0 & 0xfcff == old(self).0 & 0xfcff,
    {
        let code = cycles.bits();
        let previous = self.0;
        self.0 = (previous & 0b1111_1100_1111_1111) | (code << 8);
        assert((((previous & 0xfcff) | (code << 8)) >> 8) & 0x0003 == code && ((previous & 0xfcff)
            | (code << 8)) & 0xfcff == previous & 0xfcff) by (bit_vector)
            requires
                code <= 3,
        ;
    }
}

/// A value of the control register of a direct memory access channel.
#[derive(Clone, Copy, Debug)]
pub struct DmaControl(pub u16);

impl DmaControl {
    /// A control value with every bit clear: the channel is idle.
    pub fn new() -> (control: Self)
        ensures
            control.0 == 0,
    {
        Self(0)
    }

    /// Sets bit 15, which starts a transfer when the value is written to the register.
    pub fn enable(self) -> (control: Self)
        ensures
            control.0 == self.0 | 0x8000,
            control.is_enabled(),
    {
        let bits = self.0;
        assert((bits | 0x8000) & 0x8000 != 0) by (bit_vector);
        Self(bits | 0b1000_0000_0000_0000)
    }

    /// Whether bit 15 is set: a transfer has been started and has not ended.
    pub open spec fn is_enabled(self) -> bool {
        self.0 & 0x8000 != 0
    }

    /// Reports whether bit 15 is set: a transfer has been started and has not ended.
    pub fn enabled(self) -> (busy: bool)
        ensures
            busy == self.is_enabled(),
    {
        self.0 & 0b1000_0000_0000_0000 != 0
    }
}

} // verus!
