//! The flash chip as the driver sees it.
//!
//! A flash chip answers reads with the bytes of its cells, and takes every write for a step of
//! a command. The model below says which writes make up a command and what each command does.
//!
//! To program or to erase takes the chip some time. Time is counted in reads: while the chip is
//! busy, it takes no write, and it answers every read with a status byte, which differs in its
//! highest bit from the byte that is being stored. What a command does to the cells is done
//! when its last write returns; what is read from them is seen once the chip is no longer busy.
//!
//! A chip may be worn: some bit of each of its cells may be stuck at zero. Such a chip erases
//! its cells to what they can hold, and stores of a byte of a page only the bits that the cell
//! can hold.

use crate::contents::overwritten;
use crate::flash::device::Class;
use crate::flash::device::Device;
use crate::mmio::WaitstateControl;
use vstd::prelude::*;

verus! {

/// The number of bytes of a flash chip that can be addressed at any one time.
pub const BANK_SIZE: usize = 0x10000;

/// The number of bytes that are erased together.
pub const SECTOR_SIZE: usize = 0x1000;

/// The number of bytes that a chip made by Atmel programs together.
pub const PAGE_SIZE: usize = 128;

/// Where the first write of the unlock sequence goes, and every command.
pub const COMMAND: usize = 0x5555;

/// Where the second write of the unlock sequence goes.
pub const COMMAND_ENABLE: usize = 0x2aaa;

/// The byte that opens the unlock sequence.
pub const UNLOCK: u8 = 0xaa;

/// The byte that closes the unlock sequence.
pub const ENABLE: u8 = 0x55;

/// The byte that an erased cell holds.
pub const ERASED: u8 = 0xff;

/// How far a chip has got in taking a command.
pub enum Stage {
    /// No command has begun.
    Idle,
    /// The first write of the unlock sequence was taken.
    Enabled,
    /// The unlock sequence is complete: the next write is a command.
    Unlocked,
    /// The next write programs a byte.
    Program,
    /// This many bytes of a page are still to be loaded.
    Page(nat),
    /// The next write selects a bank.
    Bank,
}

/// The state of a flash chip.
pub struct FlashChip {
    /// Whether a chip is attached. Without one every read returns `0xff` and every write is
    /// lost.
    pub present: bool,
    /// The id by which the chip names itself.
    pub id: u16,
    /// The cells, those of the first bank before those of the second.
    pub cells: Seq<u8>,
    /// The bank that is addressed.
    pub bank: int,
    /// How many times a bank has been selected.
    pub bank_switches: nat,
    /// How far the chip has got in taking a command.
    pub stage: Stage,
    /// Whether the command before was the one that has to come before an erase.
    pub erase_armed: bool,
    /// Whether the chip answers a read of its first two bytes with its id.
    pub identifying: bool,
    /// Whether the chip was told once to end naming itself, and has to be told once more.
    pub leaving: bool,
    /// How many more reads the chip answers with its status.
    pub busy: nat,
    /// The byte that the chip is storing, or has stored last.
    pub pending: u8,
    /// How many reads the chip answers with its status after a byte or a page was programmed.
    pub program_latency: nat,
    /// How many reads the chip answers with its status after cells were erased.
    pub erase_latency: nat,
    /// The bits that a cell of the chip can hold. A chip that is sound can hold all eight.
    pub mask: u8,
}

impl FlashChip {
    /// How the chip is driven. A chip of unknown make is taken for one of 64KiB.
    pub open spec fn class(self) -> Class {
        match Device::lookup(self.id) {
            Some(device) => device.spec_class(),
            None => Class::Flash64K,
        }
    }

    /// Whether the chip has to be told twice to end naming itself, as the chip of 128KiB made
    /// by Sanyo has.
    pub open spec fn ends_twice(self) -> bool {
        self.id == 0x1362
    }

    /// The number of banks.
    pub open spec fn banks(self) -> int {
        if self.class() == Class::Flash128K {
            2
        } else {
            1
        }
    }

    /// Whether the chip is sound: its cells can hold every bit.
    pub open spec fn sound(self) -> bool {
        self.mask == 0xff
    }

    /// What a cell of the chip keeps of `byte`: the bits that it can hold.
    pub open spec fn keep(self, byte: u8) -> u8 {
        if self.sound() {
            byte
        } else {
            byte & self.mask
        }
    }

    /// What the chip keeps of `data`, byte by byte.
    pub open spec fn keeps(self, data: Seq<u8>) -> Seq<u8> {
        Seq::new(data.len(), |i: int| self.keep(data[i]))
    }

    /// Whether the chip keeps `data` as it is, as a sound chip keeps everything.
    pub open spec fn kept(self, data: Seq<u8>) -> bool {
        forall|i: int| 0 <= i < data.len() ==> self.keep(#[trigger] data[i]) == data[i]
    }

    /// The chip has the cells of its banks, and addresses one of them. Only a chip that is
    /// attached is ever busy. No cell holds what it cannot hold.
    pub open spec fn wf(self) -> bool {
        &&& self.cells.len() == self.banks() * BANK_SIZE
        &&& 0 <= self.bank < self.banks()
        &&& self.kept(self.cells)
        &&& !self.present ==> self.busy == 0
        &&& self.leaving ==> self.identifying
        &&& match self.stage {
            Stage::Page(remaining) => 0 < remaining <= PAGE_SIZE,
            _ => true,
        }
    }

    /// The chip is attached, no command is under way, and the chip is not busy.
    pub open spec fn idle(self) -> bool {
        &&& self.wf()
        &&& self.present
        &&& self.stage is Idle
        &&& !self.erase_armed
        &&& !self.identifying
        &&& self.busy == 0
    }

    /// The byte with which the chip answers a read while it is busy.
    pub open spec fn status(self) -> u8 {
        self.pending ^ 0x80
    }

    /// The byte that a read at `offset` returns once the chip is no longer busy.
    pub open spec fn settled_read(self, offset: int) -> u8 {
        if !self.present {
            ERASED
        } else if self.identifying && offset == 0 {
            (self.id & 0xff) as u8
        } else if self.identifying && offset == 1 {
            (self.id >> 8) as u8
        } else {
            self.cells[self.index(offset)]
        }
    }

    /// The chip after `reads` reads.
    pub open spec fn after_reads(self, reads: nat) -> FlashChip {
        FlashChip {
            busy: if self.busy > reads {
                (self.busy - reads) as nat
            } else {
                0
            },
            ..self
        }
    }

    /// Whether the byte at `offset` reads as `byte` when it is read until it does, `limit + 1`
    /// times at most: either the chip is done with what it is busy with in time and the byte is
    /// there, or the status of the chip happens to be `byte`.
    pub open spec fn verifies(self, offset: int, byte: u8, limit: nat) -> bool {
        if self.busy > 0 && self.status() == byte {
            true
        } else {
            self.busy <= limit && self.settled_read(offset) == byte
        }
    }

    /// The number of reads that are made when the byte at `offset` is read until it is `byte`,
    /// `limit + 1` times at most.
    pub open spec fn verify_reads(self, offset: int, byte: u8, limit: nat) -> nat {
        if self.busy > 0 && self.status() == byte {
            1
        } else if self.busy <= limit && self.settled_read(offset) == byte {
            self.busy + 1
        } else {
            limit + 1
        }
    }

    /// The chip after the byte at `offset` was read until it was `byte`, `limit + 1` times at
    /// most.
    pub open spec fn after_verify(self, offset: int, byte: u8, limit: nat) -> FlashChip {
        self.after_reads(self.verify_reads(offset, byte, limit))
    }

    /// The chip with `byte` being stored, busy for `latency` reads.
    pub open spec fn storing(self, byte: u8, latency: nat) -> FlashChip {
        FlashChip { pending: byte, busy: latency, ..self }
    }

    /// The id that is read from the chip while it identifies itself.
    pub open spec fn observed_id(self) -> u16 {
        if self.present {
            self.id
        } else {
            0xffff
        }
    }

    /// The cell that is addressed by `offset`.
    pub open spec fn index(self, offset: int) -> int {
        self.bank * BANK_SIZE + offset
    }

    /// The byte that a read at `offset` returns.
    pub open spec fn read(self, offset: int) -> u8 {
        if self.present && self.busy > 0 {
            self.status()
        } else {
            self.settled_read(offset)
        }
    }

    /// The bytes that reads of the `count` offsets from `offset` on return, one after the
    /// other.
    pub open spec fn bytes(self, offset: int, count: int) -> Seq<u8> {
        Seq::new(count as nat, |i: int| self.after_reads(i as nat).read(offset + i))
    }

    /// The chip with `bank` addressed, after `switches` more selections of a bank.
    pub open spec fn with_bank(self, bank: int, switches: nat) -> FlashChip {
        FlashChip { bank, bank_switches: self.bank_switches + switches, ..self }
    }

    /// The chip with `cells` for its cells.
    pub open spec fn with_cells(self, cells: Seq<u8>) -> FlashChip {
        FlashChip { cells, ..self }
    }

    /// The chip with `value` in the cell at `index`.
    pub open spec fn with_cell(self, index: int, value: u8) -> FlashChip {
        FlashChip { cells: self.cells.update(index, value), ..self }
    }

    /// The chip with the `count` cells from `index` on erased: each holds what it keeps of
    /// `0xff`.
    pub open spec fn with_erased(self, index: int, count: int) -> FlashChip {
        FlashChip {
            cells: Seq::new(
                self.cells.len(),
                |i: int|
                    if index <= i < index + count {
                        self.keep(ERASED)
                    } else {
                        self.cells[i]
                    },
            ),
            ..self
        }
    }

    /// The chip after the command `value`, written to `offset`, was taken.
    pub open spec fn after_command(self, offset: int, value: u8) -> FlashChip {
        let rested = FlashChip { stage: Stage::Idle, erase_armed: false, ..self };
        if self.erase_armed {
            if offset == COMMAND && value == 0x10 {
                rested.with_erased(0, self.cells.len() as int).storing(ERASED, self.erase_latency)
            } else if value == 0x30 && offset % (SECTOR_SIZE as int) == 0 {
                rested.with_erased(self.index(offset), SECTOR_SIZE as int).storing(
                    ERASED,
                    self.erase_latency,
                )
            } else {
                rested
            }
        } else if offset != COMMAND {
            rested
        } else if value == 0x80 {
            FlashChip { erase_armed: true, ..rested }
        } else if value == 0x90 {
            FlashChip { identifying: true, leaving: false, ..rested }
        } else if value == 0xf0 {
            if self.identifying && self.ends_twice() && !self.leaving {
                FlashChip { leaving: true, ..rested }
            } else {
                FlashChip { identifying: false, leaving: false, ..rested }
            }
        } else if value == 0xa0 {
            if self.class() == Class::Flash64KAtmel {
                FlashChip { stage: Stage::Page(PAGE_SIZE as nat), ..rested }
            } else {
                FlashChip { stage: Stage::Program, ..rested }
            }
        } else if value == 0xb0 {
            FlashChip { stage: Stage::Bank, ..rested }
        } else {
            rested
        }
    }

    /// The chip after `value` was written to `offset`. A chip that is busy takes no write. A
    /// page is loaded in one burst: a write to it while interrupts may occur ends the load.
    pub open spec fn after_write(self, offset: int, value: u8, interruptible: bool) -> FlashChip {
        if !self.present || self.busy > 0 {
            self
        } else {
            match self.stage {
                Stage::Idle => if offset == COMMAND && value == UNLOCK {
                    FlashChip { stage: Stage::Enabled, ..self }
                } else {
                    self
                },
                Stage::Enabled => if offset == COMMAND_ENABLE && value == ENABLE {
                    FlashChip { stage: Stage::Unlocked, ..self }
                } else {
                    FlashChip { stage: Stage::Idle, erase_armed: false, ..self }
                },
                Stage::Unlocked => self.after_command(offset, value),
                Stage::Program => FlashChip { stage: Stage::Idle, ..self }.with_cell(
                    self.index(offset),
                    self.cells[self.index(offset)] & value,
                ).storing(value, self.program_latency),
                Stage::Page(remaining) => if interruptible {
                    FlashChip { stage: Stage::Idle, ..self }
                } else if remaining <= 1 {
                    FlashChip { stage: Stage::Idle, ..self }.with_cell(
                        self.index(offset),
                        self.keep(value),
                    ).storing(value, self.program_latency)
                } else {
                    FlashChip { stage: Stage::Page((remaining - 1) as nat), ..self }.with_cell(
                        self.index(offset),
                        self.keep(value),
                    )
                },
                Stage::Bank => if offset == 0 && value < self.banks() {
                    FlashChip {
                        stage: Stage::Idle,
                        bank: value as int,
                        bank_switches: self.bank_switches + 1,
                        ..self
                    }
                } else {
                    FlashChip { stage: Stage::Idle, ..self }
                },
            }
        }
    }
}

/// The cells after the bytes of `data` were programmed from `index` on: programming clears
/// bits and sets none, so each cell holds what it held and the byte have in common.
pub open spec fn programmed(cells: Seq<u8>, index: int, data: Seq<u8>) -> Seq<u8> {
    Seq::new(
        cells.len(),
        |i: int|
            if index <= i < index + data.len() {
                cells[i] & data[i - index]
            } else {
                cells[i]
            },
    )
}

/// Whether each byte of `data` can be programmed into its cell from `index` on: the cell has
/// every bit set that the byte has set, as an erased cell has.
pub open spec fn programmable(cells: Seq<u8>, index: int, data: Seq<u8>) -> bool {
    forall|i: int| 0 <= i < data.len() ==> cells[index + i] & #[trigger] data[i] == data[i]
}

/// The state of the machine as far as the flash driver depends on it.
pub struct FlashState {
    /// The chip.
    pub chip: FlashChip,
    /// The value of the waitstate control register.
    pub waitstate_control: u16,
    /// Whether interrupts may occur.
    pub interrupts_enabled: bool,
}

impl FlashState {
    /// The state with `chip` for the chip.
    pub open spec fn with_chip(self, chip: FlashChip) -> FlashState {
        FlashState { chip, ..self }
    }

    /// The state after `value` was stored to the waitstate control register.
    pub open spec fn with_waitstate_control(self, value: u16) -> FlashState {
        FlashState { waitstate_control: value, ..self }
    }

    /// The state after interrupts were allowed or forbidden.
    pub open spec fn with_interrupts_enabled(self, enabled: bool) -> FlashState {
        FlashState { interrupts_enabled: enabled, ..self }
    }

    /// The state after `reads` reads.
    pub open spec fn after_reads(self, reads: nat) -> FlashState {
        self.with_chip(self.chip.after_reads(reads))
    }

    /// The state after `value` was written to `offset`.
    pub open spec fn after_write(self, offset: int, value: u8) -> FlashState {
        self.with_chip(self.chip.after_write(offset, value, self.interrupts_enabled))
    }

    /// The state after the unlock sequence.
    pub open spec fn unlocked(self) -> FlashState {
        self.after_write(COMMAND as int, UNLOCK).after_write(COMMAND_ENABLE as int, ENABLE)
    }

    /// The state after the unlock sequence and the command `value`.
    pub open spec fn commanded(self, value: u8) -> FlashState {
        self.unlocked().after_write(COMMAND as int, value)
    }
}

/// What a cell keeps of a byte, it keeps as it is. And a cell that has lost bits to
/// programming keeps what it holds.
pub proof fn lemma_keep(chip: FlashChip, byte: u8, other: u8)
    ensures
        chip.keep(chip.keep(byte)) == chip.keep(byte),
        chip.keep(byte) == byte ==> chip.keep(byte & other) == byte & other,
{
    let mask = chip.mask;
    assert((byte & mask) & mask == byte & mask) by (bit_vector);
    assert(byte & mask == byte ==> (byte & other) & mask == byte & other) by (bit_vector);
}

/// What a chip keeps of cells of which a part was overwritten: what they held before, which
/// they kept, and what the chip keeps of the part. And what a chip keeps as it is, it stores as
/// it is.
pub proof fn lemma_keeps_overwritten(chip: FlashChip, cells: Seq<u8>, index: int, data: Seq<u8>)
    requires
        chip.kept(cells),
        0 <= index,
        index + data.len() <= cells.len(),
    ensures
        chip.keeps(overwritten(cells, index, data)) == overwritten(cells, index, chip.keeps(data)),
        chip.kept(overwritten(cells, index, chip.keeps(data))),
        chip.kept(data) <==> chip.keeps(data) == data,
{
    assert forall|i: int| 0 <= i < cells.len() implies #[trigger] chip.keeps(
        overwritten(cells, index, data),
    )[i] == overwritten(cells, index, chip.keeps(data))[i] by {
        if !(index <= i < index + data.len()) {
            assert(chip.keep(cells[i]) == cells[i]);
        }
    }
    assert(chip.keeps(overwritten(cells, index, data)) =~= overwritten(
        cells,
        index,
        chip.keeps(data),
    ));
    assert forall|i: int| 0 <= i < cells.len() implies chip.keep(
        #[trigger] overwritten(cells, index, chip.keeps(data))[i],
    ) == overwritten(cells, index, chip.keeps(data))[i] by {
        if index <= i < index + data.len() {
            lemma_keep(chip, data[i - index], 0);
        } else {
            assert(chip.keep(cells[i]) == cells[i]);
        }
    }
    if chip.kept(data) {
        assert(chip.keeps(data) =~= data);
    }
    if chip.keeps(data) == data {
        assert forall|i: int| 0 <= i < data.len() implies chip.keep(#[trigger] data[i])
            == data[i] by {
            assert(chip.keeps(data)[i] == data[i]);
        }
    }
}

/// A write leaves a chip well formed.
pub proof fn lemma_write_keeps_wf(chip: FlashChip, offset: int, value: u8, interruptible: bool)
    requires
        chip.wf(),
        0 <= offset < BANK_SIZE,
    ensures
        chip.after_write(offset, value, interruptible).wf(),
        chip.after_write(offset, value, interruptible).id == chip.id,
        chip.after_write(offset, value, interruptible).present == chip.present,
        chip.after_write(offset, value, interruptible).mask == chip.mask,
{
    let next = chip.after_write(offset, value, interruptible);
    assert forall|i: int| 0 <= i < next.cells.len() implies next.keep(#[trigger] next.cells[i])
        == next.cells[i] by {
        lemma_keep(chip, ERASED, value);
        lemma_keep(chip, value, value);
        lemma_keep(chip, chip.cells[i], value);
    }
}

/// Access to the flash chip and to the registers that the flash driver sets.
///
/// A value of this type stands for the chip, for the backup wait cycles of the waitstate
/// register and for the interrupt master enable flag, and for them alone: nothing else reads or
/// writes them while the value exists.
pub trait FlashHardware: Sized {
    /// The state of the hardware.
    spec fn view(&self) -> FlashState;

    /// Reads the waitstate control register.
    fn waitstate_control(&mut self) -> (value: WaitstateControl)
        ensures
            value.0 == old(self)@.waitstate_control,
            final(self)@ == old(self)@,
    ;

    /// Stores `value` to the waitstate control register.
    fn set_waitstate_control(&mut self, value: WaitstateControl)
        ensures
            final(self)@ == old(self)@.with_waitstate_control(value.0),
    ;

    /// Reads the interrupt master enable flag.
    fn interrupts_enabled(&mut self) -> (enabled: bool)
        ensures
            enabled == old(self)@.interrupts_enabled,
            final(self)@ == old(self)@,
    ;

    /// Stores `enabled` to the interrupt master enable flag.
    fn set_interrupts_enabled(&mut self, enabled: bool)
        ensures
            final(self)@ == old(self)@.with_interrupts_enabled(enabled),
    ;

    /// Reads the byte at `offset` of the flash window.
    fn read_byte(&mut self, offset: usize) -> (value: u8)
        requires
            old(self)@.chip.wf(),
            offset < BANK_SIZE,
        ensures
            value == old(self)@.chip.read(offset as int),
            final(self)@ == old(self)@.after_reads(1),
    ;

    /// Writes `value` to `offset` of the flash window.
    fn write_byte(&mut self, offset: usize, value: u8)
        requires
            old(self)@.chip.wf(),
            offset < BANK_SIZE,
        ensures
            final(self)@ == old(self)@.after_write(offset as int, value),
    ;
}

} // verus!
