//! A flash chip held in ordinary memory.

use crate::flash::device::Device;
use crate::flash::hardware::FlashChip;
use crate::flash::hardware::FlashHardware;
use crate::flash::hardware::FlashState;
use crate::flash::hardware::Stage;
use crate::flash::hardware::BANK_SIZE;
use crate::flash::hardware::COMMAND;
use crate::flash::hardware::COMMAND_ENABLE;
use crate::flash::hardware::ENABLE;
use crate::flash::hardware::ERASED;
use crate::flash::hardware::PAGE_SIZE;
use crate::flash::hardware::SECTOR_SIZE;
use crate::flash::hardware::UNLOCK;
use crate::mmio::WaitstateControl;
use vstd::prelude::*;

verus! {

/// How far a simulated chip has got in taking a command.
#[derive(Clone, Copy, Debug, PartialEq, Eq)]
pub enum SimulatedStage {
    /// No command has begun.
    Idle,
    /// The first write of the unlock sequence was taken.
    Enabled,
    /// The unlock sequence is complete: the next write is a command.
    Unlocked,
    /// The next write programs a byte.
    Program,
    /// This many bytes of a page are still to be loaded.
    Page(usize),
    /// The next write selects a bank.
    Bank,
}

impl SimulatedStage {
    /// The stage of the model that this stage stands for.
    pub open spec fn view(&self) -> Stage {
        match self {
            SimulatedStage::Idle => Stage::Idle,
            SimulatedStage::Enabled => Stage::Enabled,
            SimulatedStage::Unlocked => Stage::Unlocked,
            SimulatedStage::Program => Stage::Program,
            SimulatedStage::Page(remaining) => Stage::Page(*remaining as nat),
            SimulatedStage::Bank => Stage::Bank,
        }
    }
}

/// A flash chip held in ordinary memory, for use where there is no cartridge.
pub struct SimulatedFlash {
    /// Whether a chip is attached.
    pub present: bool,
    /// The id by which the chip names itself.
    pub id: u16,
    /// The cells, those of the first bank before those of the second.
    pub cells: Vec<u8>,
    /// The bank that is addressed.
    pub bank: usize,
    /// How many times a bank has been selected.
    pub bank_switches: Ghost<nat>,
    /// How many times a bank has been selected, as far as can be counted.
    pub bank_selections: u64,
    /// How far the chip has got in taking a command.
    pub stage: SimulatedStage,
    /// Whether the command before was the one that has to come before an erase.
    pub erase_armed: bool,
    /// Whether the chip answers a read of its first two bytes with its id.
    pub identifying: bool,
    /// Whether the chip was told once to end naming itself, and has to be told once more.
    pub leaving: bool,
    /// How many more reads the chip answers with its status.
    pub busy: usize,
    /// The byte that the chip is storing, or has stored last.
    pub pending: u8,
    /// How many reads the chip answers with its status after a byte or a page was programmed.
    pub program_latency: usize,
    /// How many reads the chip answers with its status after cells were erased.
    pub erase_latency: usize,
    /// The bits that a cell of the chip can hold.
    pub mask: u8,
    /// The value of the waitstate control register.
    pub waitstate_control: u16,
    /// Whether interrupts may occur.
    pub interrupts_enabled: bool,
}

/// The byte that an erased cell holds, as many times as `count` says.
fn erased_cells(count: usize) -> (cells: Vec<u8>)
    ensures
        cells@.len() == count,
        forall|i: int| 0 <= i < count ==> cells@[i] == ERASED,
{
    let mut cells: Vec<u8> = Vec::new();
    while cells.len() < count
        invariant
            cells@.len() <= count,
            forall|i: int| 0 <= i < cells@.len() ==> cells@[i] == ERASED,
        decreases count - cells@.len(),
    {
        cells.push(ERASED);
    }
    cells
}

impl SimulatedFlash {
    /// An erased chip that names itself by `id`, at rest, with interrupts allowed. It has
    /// 128KiB if a known device of that size has this id, and 64KiB else. It is busy for one
    /// read after it has programmed or erased.
    pub fn with_id(id: u16) -> (chip: Self)
        ensures
            chip@.chip.idle(),
            chip@.chip.id == id,
            chip@.chip.program_latency == 1,
            chip@.chip.erase_latency == 1,
            chip@.chip.sound(),
            chip@.chip.bank == 0,
            chip@.chip.bank_switches == 0,
            chip@.waitstate_control == 0,
            chip@.interrupts_enabled,
            forall|i: int| 0 <= i < chip@.chip.cells.len() ==> chip@.chip.cells[i] == ERASED,
    {
        let banks: usize = if id == 0x09c2 || id == 0x1362 {
            2
        } else {
            1
        };
        Self {
            present: true,
            id,
            cells: erased_cells(banks * BANK_SIZE),
            bank: 0,
            bank_switches: Ghost(0),
            bank_selections: 0,
            stage: SimulatedStage::Idle,
            erase_armed: false,
            identifying: false,
            leaving: false,
            busy: 0,
            pending: ERASED,
            program_latency: 1,
            erase_latency: 1,
            mask: 0xff,
            waitstate_control: 0,
            interrupts_enabled: true,
        }
    }

    /// An erased chip of the make `device`, at rest, with interrupts allowed. It is busy for
    /// one read after it has programmed or erased.
    pub fn new(device: Device) -> (chip: Self)
        ensures
            chip@.chip.idle(),
            chip@.chip.id == device.spec_id(),
            chip@.chip.program_latency == 1,
            chip@.chip.erase_latency == 1,
            chip@.chip.sound(),
            chip@.chip.class() == device.spec_class(),
            chip@.chip.bank == 0,
            chip@.chip.bank_switches == 0,
            chip@.waitstate_control == 0,
            chip@.interrupts_enabled,
            forall|i: int| 0 <= i < chip@.chip.cells.len() ==> chip@.chip.cells[i] == ERASED,
    {
        Self::with_id(device.id())
    }

    /// A cartridge without a flash chip: every read returns `0xff`, and every write is lost.
    pub fn absent() -> (chip: Self)
        ensures
            chip@.chip.wf(),
            !chip@.chip.present,
            chip@.chip.observed_id() == 0xffff,
            chip@.waitstate_control == 0,
            chip@.interrupts_enabled,
    {
        let mut chip = Self::with_id(0xffff);
        chip.present = false;
        chip
    }

    /// Returns what a cell of the chip keeps of `byte`.
    fn kept_of(&self, byte: u8) -> (kept: u8)
        ensures
            kept == self@.chip.keep(byte),
    {
        if self.mask == 0xff {
            byte
        } else {
            byte & self.mask
        }
    }

    /// Wears the chip: from now on its cells hold only those of their bits that `mask` has
    /// set. What the chip holds loses the other bits.
    pub fn wear(&mut self, mask: u8)
        requires
            old(self)@.chip.wf(),
        ensures
            final(self)@.chip.wf(),
            final(self)@.chip.mask == old(self)@.chip.mask & mask,
            final(self)@.chip.cells.len() == old(self)@.chip.cells.len(),
            forall|i: int|
                0 <= i < old(self)@.chip.cells.len() ==> final(self)@.chip.cells[i] == old(
                    self,
                )@.chip.cells[i] & mask,
            final(self)@.with_chip(old(self)@.chip) == old(self)@,
            (FlashChip {
                mask: old(self)@.chip.mask,
                cells: old(self)@.chip.cells,
                ..final(self)@.chip
            }) == old(self)@.chip,
    {
        let size = self.cells.len();
        let mut i: usize = 0;
        while i < size
            invariant
                i <= size,
                size == self.cells@.len(),
                size == old(self).cells@.len(),
                self@.with_chip(old(self)@.chip) == old(self)@,
                (FlashChip { cells: old(self)@.chip.cells, ..self@.chip }) == old(self)@.chip,
                forall|j: int| 0 <= j < i ==> self.cells@[j] == old(self).cells@[j] & mask,
                forall|j: int| i <= j < size ==> self.cells@[j] == old(self).cells@[j],
            decreases size - i,
        {
            let byte = self.cells[i];
            self.cells[i] = byte & mask;
            i += 1;
        }
        let previous = self.mask;
        self.mask = previous & mask;
        proof {
            assert forall|j: int| 0 <= j < size implies self@.chip.keep(
                #[trigger] self@.chip.cells[j],
            ) == self@.chip.cells[j] by {
                let byte = old(self).cells@[j];
                assert(old(self)@.chip.keep(old(self)@.chip.cells[j]) == byte);
                assert(byte & previous == byte ==> (byte & mask) & (previous & mask) == byte & mask)
                    by (bit_vector);
                assert(byte & 0xff == byte) by (bit_vector);
            }
        }
    }

    /// Fills the `count` cells from `index` on with what an erased cell holds, which keeps the
    /// chip busy.
    fn erase(&mut self, index: usize, count: usize)
        requires
            index + count <= old(self).cells@.len(),
        ensures
            final(self)@ == old(self)@.with_chip(
                old(self)@.chip.with_erased(index as int, count as int).storing(
                    ERASED,
                    old(self)@.chip.erase_latency,
                ),
            ),
    {
        let size = self.cells.len();
        let mut i: usize = 0;
        assert(self@.chip.cells =~= old(self)@.chip.with_erased(index as int, 0).cells);
        while i < count
            invariant
                i <= count,
                index + count <= self.cells@.len(),
                self.cells@.len() == size,
                self@ == old(self)@.with_chip(old(self)@.chip.with_erased(index as int, i as int)),
            decreases count - i,
        {
            self.cells[index + i] = self.kept_of(ERASED);
            assert(self@.chip.cells =~= old(self)@.chip.with_erased(index as int, i + 1).cells);
            i += 1;
        }
        assert(self@.chip.cells =~= old(self)@.chip.with_erased(index as int, i as int).cells);
        self.pending = ERASED;
        self.busy = self.erase_latency;
    }

    /// Takes the command `value`, written to `offset`.
    fn command(&mut self, offset: usize, value: u8)
        requires
            old(self)@.chip.wf(),
            old(self).present,
            old(self).busy == 0,
            offset < BANK_SIZE,
        ensures
            final(self)@ == old(self)@.with_chip(
                old(self)@.chip.after_command(offset as int, value),
            ),
    {
        let armed = self.erase_armed;
        self.stage = SimulatedStage::Idle;
        self.erase_armed = false;
        if armed {
            if offset == COMMAND && value == 0x10 {
                self.erase(0, self.cells.len());
            } else if value == 0x30 && offset % SECTOR_SIZE == 0 {
                self.erase(self.bank * BANK_SIZE + offset, SECTOR_SIZE);
            }
        } else if offset != COMMAND {
        } else if value == 0x80 {
            self.erase_armed = true;
        } else if value == 0x90 {
            self.identifying = true;
            self.leaving = false;
        } else if value == 0xf0 {
            if self.identifying && self.id == 0x1362 && !self.leaving {
                self.leaving = true;
            } else {
                self.identifying = false;
                self.leaving = false;
            }
        } else if value == 0xa0 {
            if self.id == 0x3d1f {
                self.stage = SimulatedStage::Page(PAGE_SIZE);
            } else {
                self.stage = SimulatedStage::Program;
            }
        } else if value == 0xb0 {
            self.stage = SimulatedStage::Bank;
        }
    }
}

impl FlashHardware for SimulatedFlash {
    open spec fn view(&self) -> FlashState {
        FlashState {
            chip: FlashChip {
                present: self.present,
                id: self.id,
                cells: self.cells@,
                bank: self.bank as int,
                bank_switches: self.bank_switches@,
                stage: self.stage@,
                erase_armed: self.erase_armed,
                identifying: self.identifying,
                leaving: self.leaving,
                busy: self.busy as nat,
                pending: self.pending,
                program_latency: self.program_latency as nat,
                erase_latency: self.erase_latency as nat,
                mask: self.mask,
            },
            waitstate_control: self.waitstate_control,
            interrupts_enabled: self.interrupts_enabled,
        }
    }

    fn waitstate_control(&mut self) -> (value: WaitstateControl) {
        WaitstateControl(self.waitstate_control)
    }

    fn set_waitstate_control(&mut self, value: WaitstateControl) {
        self.waitstate_control = value.0;
    }

    fn interrupts_enabled(&mut self) -> (enabled: bool) {
        self.interrupts_enabled
    }

    fn set_interrupts_enabled(&mut self, enabled: bool) {
        self.interrupts_enabled = enabled;
    }

    fn read_byte(&mut self, offset: usize) -> (value: u8) {
        if self.busy > 0 {
            self.busy = self.busy - 1;
            if self.present {
                return self.pending ^ 0x80;
            }
        }
        if !self.present {
            ERASED
        } else if self.identifying && offset == 0 {
            (self.id & 0xff) as u8
        } else if self.identifying && offset == 1 {
            (self.id >> 8) as u8
        } else {
            self.cells[self.bank * BANK_SIZE + offset]
        }
    }

    fn write_byte(&mut self, offset: usize, value: u8) {
        if !self.present || self.busy > 0 {
            return ;
        }
        let index = self.bank * BANK_SIZE + offset;
        match self.stage {
            SimulatedStage::Idle => {
                if offset == COMMAND && value == UNLOCK {
                    self.stage = SimulatedStage::Enabled;
                }
            },
            SimulatedStage::Enabled => {
                if offset == COMMAND_ENABLE && value == ENABLE {
                    self.stage = SimulatedStage::Unlocked;
                } else {
                    self.stage = SimulatedStage::Idle;
                    self.erase_armed = false;
                }
            },
            SimulatedStage::Unlocked => {
                self.command(offset, value);
            },
            SimulatedStage::Program => {
                self.stage = SimulatedStage::Idle;
                let cell = self.cells[index];
                self.cells[index] = cell & value;
                self.pending = value;
                self.busy = self.program_latency;
            },
            SimulatedStage::Page(remaining) => {
                if self.interrupts_enabled {
                    self.stage = SimulatedStage::Idle;
                } else if remaining <= 1 {
                    self.stage = SimulatedStage::Idle;
                    self.cells[index] = self.kept_of(value);
                    self.pending = value;
                    self.busy = self.program_latency;
                } else {
                    self.stage = SimulatedStage::Page(remaining - 1);
                    self.cells[index] = self.kept_of(value);
                }
            },
            SimulatedStage::Bank => {
                self.stage = SimulatedStage::Idle;
                let banks = self.cells.len() / BANK_SIZE;
                if offset == 0 && (value as usize) < banks {
                    self.bank = value as usize;
                    self.bank_switches = Ghost((self.bank_switches@ + 1) as nat);
                    if self.bank_selections < u64::MAX {
                        self.bank_selections = self.bank_selections + 1;
                    }
                }
            },
        }
    }
}

} // verus!
