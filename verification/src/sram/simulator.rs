//! An SRAM chip held in ordinary memory.

use crate::mmio::WaitstateControl;
use crate::sram::hardware::SramHardware;
use crate::sram::hardware::SramState;
use crate::sram::hardware::SRAM_SIZE;
use vstd::prelude::*;

verus! {

/// An SRAM chip held in ordinary memory, for use where there is no cartridge.
pub struct SimulatedSram {
    /// Whether a chip is attached. Without one, every write is lost.
    pub present: bool,
    /// The value of the waitstate control register.
    pub waitstate_control: u16,
    /// The cells of the chip.
    pub cells: Vec<u8>,
}

impl SimulatedSram {
    fn filled(present: bool) -> (chip: Self)
        ensures
            chip@.wf(),
            chip@.present == present,
            chip@.waitstate_control == 0,
            forall|i: int| 0 <= i < SRAM_SIZE ==> chip@.cells[i] == 0xff,
    {
        let mut cells: Vec<u8> = Vec::new();
        while cells.len() < SRAM_SIZE
            invariant
                cells@.len() <= SRAM_SIZE,
                forall|i: int| 0 <= i < cells@.len() ==> cells@[i] == 0xff,
            decreases SRAM_SIZE - cells@.len(),
        {
            cells.push(0xff);
        }
        Self { present, waitstate_control: 0, cells }
    }

    /// A chip of which every cell holds `0xff`.
    pub fn new() -> (chip: Self)
        ensures
            chip@.wf(),
            chip@.present,
            chip@.waitstate_control == 0,
            forall|i: int| 0 <= i < SRAM_SIZE ==> chip@.cells[i] == 0xff,
    {
        Self::filled(true)
    }

    /// A cartridge without a chip: every cell reads as `0xff`, whatever is written to it.
    pub fn absent() -> (chip: Self)
        ensures
            chip@.wf(),
            !chip@.present,
            chip@.waitstate_control == 0,
            forall|i: int| 0 <= i < SRAM_SIZE ==> chip@.cells[i] == 0xff,
    {
        Self::filled(false)
    }
}

impl SramHardware for SimulatedSram {
    open spec fn view(&self) -> SramState {
        SramState {
            present: self.present,
            waitstate_control: self.waitstate_control,
            cells: self.cells@,
        }
    }

    fn waitstate_control(&mut self) -> (value: WaitstateControl) {
        WaitstateControl(self.waitstate_control)
    }

    fn set_waitstate_control(&mut self, value: WaitstateControl) {
        self.waitstate_control = value.0;
    }

    fn read_byte(&mut self, offset: usize) -> (value: u8) {
        self.cells[offset]
    }

    fn write_byte(&mut self, offset: usize, value: u8) {
        if self.present {
            self.cells[offset] = value;
        }
        assert(self@.cells =~= old(self)@.cells.update(offset as int, self@.cells[offset as int]));
    }
}

} // verus!
