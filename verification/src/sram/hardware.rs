//! The SRAM chip as the driver sees it.

use crate::mmio::WaitstateControl;
use vstd::prelude::*;

verus! {

/// The number of bytes that the SRAM chip holds.
pub const SRAM_SIZE: usize = 32768;

/// The state of the machine as far as the SRAM driver depends on it.
pub struct SramState {
    /// Whether a working chip is attached. Without one, a write need not be kept.
    pub present: bool,
    /// The value of the waitstate control register.
    pub waitstate_control: u16,
    /// The byte that a read of each cell returns.
    pub cells: Seq<u8>,
}

impl SramState {
    /// The chip has as many cells as an SRAM holds.
    pub open spec fn wf(self) -> bool {
        self.cells.len() == SRAM_SIZE
    }

    /// The state after `value` was stored to the waitstate control register.
    pub open spec fn with_waitstate_control(self, value: u16) -> SramState {
        SramState { waitstate_control: value, ..self }
    }

    /// The state with `cells` for the cells.
    pub open spec fn with_cells(self, cells: Seq<u8>) -> SramState {
        SramState { cells, ..self }
    }

    /// Whether `next` can be the state after `value` was stored to the cell at `offset`: no
    /// other cell and no register has changed, and a chip that is present holds the value.
    pub open spec fn stores(self, offset: int, value: u8, next: SramState) -> bool {
        &&& next.present == self.present
        &&& next.waitstate_control == self.waitstate_control
        &&& next.cells == self.cells.update(offset, next.cells[offset])
        &&& self.present ==> next.cells[offset] == value
    }

    /// The bytes of the `count` cells that start at `offset`.
    pub open spec fn bytes(self, offset: int, count: int) -> Seq<u8> {
        self.cells.subrange(offset, offset + count)
    }

    /// Whether the cells from `offset` on hold `data`.
    pub open spec fn holds(self, offset: int, data: Seq<u8>) -> bool {
        self.bytes(offset, data.len() as int) == data
    }

    /// Whether `self` and `other` differ at most in the `count` cells that start at `offset`.
    pub open spec fn same_outside(self, other: SramState, offset: int, count: int) -> bool {
        &&& other.present == self.present
        &&& other.waitstate_control == self.waitstate_control
        &&& other.cells.len() == self.cells.len()
        &&& forall|i: int|
            0 <= i < self.cells.len() && !(offset <= i < offset + count) ==> other.cells[i]
                == self.cells[i]
    }
}

/// Access to the SRAM chip and to the register that sets its wait cycles.
///
/// A value of this type stands for the chip and for the backup wait cycles of the waitstate
/// register, and for them alone: nothing else reads or writes them while the value exists.
pub trait SramHardware: Sized {
    /// The state of the hardware.
    spec fn view(&self) -> SramState;

    /// Reads the waitstate control register.
    fn waitstate_control(&mut self) -> (value: WaitstateControl)
        ensures
            value.0 == old(self)@.waitstate_control,
            final(self)@ == old(self)@,
    ;

    /// Stores `value` to the waitstate control register.
    fn set_waitstate_control(&mut self, value: WaitstateControl)
        ensures
            final(self)@ == old(self)@.with_waitstate_control(value.0),
    ;

    /// Reads the cell at `offset`.
    fn read_byte(&mut self, offset: usize) -> (value: u8)
        requires
            old(self)@.wf(),
            offset < SRAM_SIZE,
        ensures
            value == old(self)@.cells[offset as int],
            final(self)@ == old(self)@,
    ;

    /// Stores `value` to the cell at `offset`.
    fn write_byte(&mut self, offset: usize, value: u8)
        requires
            old(self)@.wf(),
            offset < SRAM_SIZE,
        ensures
            old(self)@.stores(offset as int, value, final(self)@),
    ;
}

} // verus!
