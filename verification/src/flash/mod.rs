//! Flash backup memory.
//!
//! The GBA has three different variants of flash backup:
//! - 64KiB
//! - 64KiB Atmel
//! - 128KiB
//!
//! Each of these backup types are interacted with in slightly different ways. Therefore, they are
//! treated separately by this library.
//!
//! To interact with flash backup memory, initialize using [`Flash::new()`]. This will provide the
//! variant of the found flash type for you to interact with.

pub mod atmel;
pub mod command;
pub mod device;
pub mod error;
pub mod hardware;
pub mod laws;
pub mod reader;
pub mod simulator;
pub mod writer;

pub use atmel::Writer64KAtmel;
pub use device::Class;
pub use device::Device;
pub use device::UnknownDeviceId;
pub use error::Error;
pub use hardware::FlashChip;
pub use hardware::FlashHardware;
pub use hardware::FlashState;
pub use reader::Reader128K;
pub use reader::Reader64K;
pub use simulator::SimulatedFlash;
pub use writer::Writer128K;
pub use writer::Writer64K;

use crate::mmio::Cycles;
use crate::range::translate_range_to_buffer;
use crate::range::Bound;
use command::erase_chip;
use command::erase_sector;
use command::erases;
use command::send_command;
use command::switch_bank;
use command::remaining;
use command::wait;
use command::Bank;
use command::Command;
use command::TIMEOUT;
use hardware::BANK_SIZE;
use hardware::ERASED;
use hardware::SECTOR_SIZE;
use reader::bank_of;
use vstd::prelude::*;

verus! {

/// Translates the range of sectors from `start` to `end` into its first sector and the one
/// after its last.
pub fn translate_range_to_sectors<const MAX: usize>(start: Bound<MAX>, end: Bound<MAX>) -> (sectors:
    core::ops::Range<u8>)
    requires
        MAX < 255,
        start.first() <= end.limit(),
    ensures
        sectors.start == start.first(),
        sectors.end == end.limit(),
        sectors.end <= MAX + 1,
{
    let (first, count) = translate_range_to_buffer(start, end, 0);
    (first as u8)..((first + count) as u8)
}

/// The size of a flash device.
#[derive(Clone, Copy, Debug, PartialEq, Eq, Structural)]
pub enum Size {
    /// 64KiB.
    _64KB,
    /// 128KiB.
    _128KB,
}

/// A range that does not lie within a device of the given size.
#[derive(Clone, Copy, Debug, PartialEq, Eq, Structural)]
pub struct OutOfBounds(pub Size);

impl Size {
    /// Checks that the `len` bytes from `position` on lie within a device of this size. If
    /// they do not, the size comes back in the error.
    pub fn check_bounds(self, position: usize, len: usize) -> (result: Result<(), OutOfBounds>)
        ensures
            result is Ok <==> position + len <= self.spec_bytes(),
            result is Err ==> result == Err::<(), OutOfBounds>(OutOfBounds(self)),
    {
        let bytes = self.bytes();
        if position <= bytes && len <= bytes - position {
            Ok(())
        } else {
            Err(OutOfBounds(self))
        }
    }

    /// The number of bytes of a device of this size.
    pub open spec fn spec_bytes(self) -> usize {
        match self {
            Size::_64KB => BANK_SIZE,
            Size::_128KB => (2 * BANK_SIZE) as usize,
        }
    }

    /// Returns the number of bytes of a device of this size.
    #[verifier::when_used_as_spec(spec_bytes)]
    pub fn bytes(self) -> (bytes: usize)
        ensures
            bytes == self.spec_bytes(),
    {
        match self {
            Size::_64KB => BANK_SIZE,
            Size::_128KB => 2 * BANK_SIZE,
        }
    }
}

/// The number of sectors that are erased where `count` are to be: all of them on a chip that
/// erases each in time, and the first alone on a chip that does not.
pub open spec fn sectors_erased(chip: FlashChip, count: int) -> int {
    if erases(chip) || count <= 0 {
        count
    } else {
        1
    }
}

/// The chip after `count` sectors were erased from the sector `first` on, of which each but
/// the last was waited for until it was done.
pub open spec fn erasing(chip: FlashChip, first: int, count: int) -> FlashChip {
    if count <= 0 {
        chip
    } else {
        chip.with_erased(first * SECTOR_SIZE, count * SECTOR_SIZE).storing(
            ERASED,
            remaining(chip.erase_latency),
        )
    }
}

/// A flash device with 64KiB of storage.
///
/// This storage type is divided into 16 4KiB sectors. Each sector must be erased before it can be
/// written to. Failing to erase a sector will result in invalid data.
pub struct Flash64K<H: FlashHardware> {
    /// The hardware that this device is driven through.
    pub hardware: H,
}

impl<H: FlashHardware> Flash64K<H> {
    /// The chip is one of 64KiB that is programmed byte by byte, and is at rest.
    pub open spec fn wf(&self) -> bool {
        &&& self.hardware@.chip.idle()
        &&& self.hardware@.chip.class() == Class::Flash64K
    }

    /// Returns a reader over the range from `start` to `end`.
    pub fn reader<'a>(&'a mut self, start: Bound<65535>, end: Bound<65535>) -> (reader: Reader64K<
        'a,
        H,
    >)
        requires
            start.first() <= end.limit(),
        ensures
            reader.address == start.first(),
            reader.len == end.limit() - start.first(),
            reader.address + reader.len <= BANK_SIZE,
            old(self).hardware@.chip.wf() ==> reader.wf(),
            *reader.hardware == old(self).hardware,
            *final(reader.hardware) == final(self).hardware,
    {
        let (address, len) = translate_range_to_buffer(start, end, 0);
        Reader64K::new_unchecked(&mut self.hardware, address, len)
    }

    /// Erases the sectors from `start` to `end`, one after the other, and waits after each
    /// until its first byte reads as erased.
    ///
    /// This should be called before attempting to write to these sectors. Memory that has already
    /// been written to cannot be written to again without first being erased.
    ///
    /// When the first byte of a sector does not read as erased in time, the error is
    /// `OperationTimedOut`: the sectors behind that one, which is the first, are not erased.
    pub fn erase_sectors(&mut self, start: Bound<15>, end: Bound<15>) -> (result: Result<(), Error>)
        requires
            old(self).wf(),
            start.first() <= end.limit(),
        ensures
            result is Ok <==> start.first() == end.limit() || erases(old(self).hardware@.chip),
            result is Err ==> result == Err::<(), Error>(Error::OperationTimedOut),
            result is Ok ==> final(self).wf(),
            final(self).hardware@ == old(self).hardware@.with_chip(
                erasing(
                    old(self).hardware@.chip,
                    start.first(),
                    sectors_erased(
                        old(self).hardware@.chip,
                        end.limit() - start.first(),
                    ),
                ),
            ),
    {
        let sectors = translate_range_to_sectors(start, end);
        let ghost before = self.hardware@;
        let mut sector = sectors.start;
        while sector < sectors.end
            invariant
                sectors.start <= sector <= sectors.end <= 16,
                sectors.start == start.first(),
                sectors.end == end.limit(),
                before == old(self).hardware@,
                before.chip.idle(),
                before.chip.class() == Class::Flash64K,
                sector > sectors.start ==> erases(before.chip),
                self.hardware@ == before.with_chip(
                    erasing(before.chip, sectors.start as int, sector - sectors.start),
                ),
            decreases sectors.end - sector,
        {
            assert(self.hardware@.chip.idle());
            let erased = erase_sector(&mut self.hardware, sector);
            assert(self.hardware@.chip.cells =~= before.chip.with_erased(
                sectors.start * SECTOR_SIZE,
                (sector + 1 - sectors.start) * SECTOR_SIZE,
            ).cells);
            assert(self.hardware@.chip == erasing(
                before.chip,
                sectors.start as int,
                sector + 1 - sectors.start,
            ));
            match erased {
                Ok(()) => {},
                Err(error) => {
                    return Err(error);
                },
            }
            sector += 1;
        }
        Ok(())
    }

    /// Returns a writer over the range from `start` to `end`.
    pub fn writer<'a>(&'a mut self, start: Bound<65535>, end: Bound<65535>) -> (writer: Writer64K<
        'a,
        H,
    >)
        requires
            start.first() <= end.limit(),
        ensures
            writer.address == start.first(),
            writer.len == end.limit() - start.first(),
            writer.address + writer.len <= BANK_SIZE,
            old(self).wf() ==> writer.wf(),
            *writer.hardware == old(self).hardware,
            *final(writer.hardware) == final(self).hardware,
    {
        let (address, len) = translate_range_to_buffer(start, end, 0);
        Writer64K::new_unchecked(&mut self.hardware, address, len)
    }
}

/// A flash device with 64KiB of storage manufactured by Atmel.
///
/// These devices are handled separately, as they do not require users to manage erasing of
/// sectors. Instead, they can be written to directly, as the sector size is small enough to fit
/// into an internal buffer.
pub struct Flash64KAtmel<H: FlashHardware> {
    /// The hardware that this device is driven through.
    pub hardware: H,
}

impl<H: FlashHardware> Flash64KAtmel<H> {
    /// The chip is one of 64KiB that is programmed in pages, and is at rest.
    pub open spec fn wf(&self) -> bool {
        &&& self.hardware@.chip.idle()
        &&& self.hardware@.chip.class() == Class::Flash64KAtmel
    }

    /// Returns a reader over the range from `start` to `end`.
    pub fn reader<'a>(&'a mut self, start: Bound<65535>, end: Bound<65535>) -> (reader: Reader64K<
        'a,
        H,
    >)
        requires
            start.first() <= end.limit(),
        ensures
            reader.address == start.first(),
            reader.len == end.limit() - start.first(),
            reader.address + reader.len <= BANK_SIZE,
            old(self).hardware@.chip.wf() ==> reader.wf(),
            *reader.hardware == old(self).hardware,
            *final(reader.hardware) == final(self).hardware,
    {
        let (address, len) = translate_range_to_buffer(start, end, 0);
        Reader64K::new_unchecked(&mut self.hardware, address, len)
    }

    /// Returns a writer over the range from `start` to `end`.
    pub fn writer<'a>(&'a mut self, start: Bound<65535>, end: Bound<65535>) -> (writer:
        Writer64KAtmel<'a, H>)
        requires
            old(self).wf(),
            start.first() <= end.limit(),
        ensures
            writer.wf(),
            writer.address == start.first(),
            writer.len == end.limit() - start.first(),
            writer.flushed == (start.first() % 128 == 0),
            writer.hardware@ == old(self).hardware@,
            writer.target() == old(self).hardware@.chip.cells,
            *final(writer.hardware) == final(self).hardware,
    {
        let (address, len) = translate_range_to_buffer(start, end, 0);
        Writer64KAtmel::new_unchecked(&mut self.hardware, address, len)
    }
}

/// The number of times that a bank is selected while the sectors from `first` up to `limit`
/// are erased: once at the start, and once more if they reach from the first bank into the
/// second.
pub open spec fn switches_erasing(first: int, limit: int) -> nat {
    if first < 16 && limit > 16 {
        2
    } else {
        1
    }
}

/// The bank that is addressed after the sectors from `first` up to `limit` were erased.
pub open spec fn bank_erasing(first: int, limit: int) -> Bank {
    if first < 16 && limit <= 16 {
        Bank::_0
    } else {
        Bank::_1
    }
}

/// A flash device with 128KiB of storage.
///
/// This storage type is divided into 32 4KiB sectors. Each sector must be erased before it can be
/// written to. Failing to erase a sector will result in invalid data.
pub struct Flash128K<H: FlashHardware> {
    /// The hardware that this device is driven through.
    pub hardware: H,
}

impl<H: FlashHardware> Flash128K<H> {
    /// The chip is one of 128KiB, and is at rest.
    pub open spec fn wf(&self) -> bool {
        &&& self.hardware@.chip.idle()
        &&& self.hardware@.chip.class() == Class::Flash128K
    }

    /// Returns a reader over the range from `start` to `end`, and selects the bank that holds
    /// the first byte of it.
    pub fn reader<'a>(&'a mut self, start: Bound<131071>, end: Bound<131071>) -> (reader:
        Reader128K<'a, H>)
        requires
            old(self).wf(),
            start.first() <= end.limit(),
        ensures
            reader.wf(),
            reader.address == start.first(),
            reader.len == end.limit() - start.first(),
            reader.bank == bank_of(start.first()),
            reader.hardware@ == old(self).hardware@.with_chip(
                old(self).hardware@.chip.with_bank(bank_of(start.first()).spec_number() as int, 1),
            ),
            *final(reader.hardware) == final(self).hardware,
    {
        let (address, len) = translate_range_to_buffer(start, end, 0);
        Reader128K::new_unchecked(&mut self.hardware, address, len)
    }

    /// Erases the sectors from `start` to `end`, one after the other, and waits after each
    /// until its first byte reads as erased. The bank of the first sector is selected before
    /// anything is erased, and the second bank before its first sector is.
    ///
    /// This should be called before attempting to write to these sectors. Memory that has already
    /// been written to cannot be written to again without first being erased.
    ///
    /// When the first byte of a sector does not read as erased in time, the error is
    /// `OperationTimedOut`: the sectors behind that one, which is the first, are not erased.
    pub fn erase_sectors(&mut self, start: Bound<31>, end: Bound<31>) -> (result: Result<(), Error>)
        requires
            old(self).wf(),
            start.first() <= end.limit(),
        ensures
            result is Ok <==> start.first() == end.limit() || erases(old(self).hardware@.chip),
            result is Err ==> result == Err::<(), Error>(Error::OperationTimedOut),
            result is Ok ==> final(self).wf(),
            ({
                let chip = old(self).hardware@.chip;
                let done = sectors_erased(chip, end.limit() - start.first());
                final(self).hardware@ == old(self).hardware@.with_chip(
                    erasing(chip, start.first(), done).with_bank(
                        bank_erasing(start.first(), start.first() + done).spec_number() as int,
                        switches_erasing(start.first(), start.first() + done),
                    ),
                )
            }),
    {
        let sectors_range = translate_range_to_sectors(start, end);
        let ghost before = self.hardware@;
        let ghost first = sectors_range.start as int;
        let mut bank = if sectors_range.start < 16 {
            Bank::_0
        } else {
            Bank::_1
        };
        switch_bank(&mut self.hardware, bank);
        let mut next = sectors_range.start;
        while next < sectors_range.end
            invariant
                first == sectors_range.start,
                first <= next <= sectors_range.end <= 32,
                sectors_range.start == start.first(),
                sectors_range.end == end.limit(),
                before == old(self).hardware@,
                before.chip.idle(),
                before.chip.class() == Class::Flash128K,
                bank == bank_erasing(first, next as int),
                next > first ==> erases(before.chip),
                self.hardware@ == before.with_chip(
                    erasing(before.chip, first, next - first).with_bank(
                        bank.spec_number() as int,
                        switches_erasing(first, next as int),
                    ),
                ),
            decreases sectors_range.end - next,
        {
            let mut sector = next;
            match bank {
                Bank::_0 => {
                    if sector >= 16 {
                        bank = Bank::_1;
                        switch_bank(&mut self.hardware, bank);
                    }
                },
                Bank::_1 => {},
            }
            match bank {
                Bank::_0 => {},
                Bank::_1 => {
                    sector = sector % 16;
                },
            }
            assert(self.hardware@.chip.idle());
            let erased = erase_sector(&mut self.hardware, sector);
            assert(self.hardware@.chip.cells =~= before.chip.with_erased(
                first * SECTOR_SIZE,
                (next + 1 - first) * SECTOR_SIZE,
            ).cells);
            assert(self.hardware@.chip == erasing(before.chip, first, next + 1 - first).with_bank(
                bank.spec_number() as int,
                switches_erasing(first, next + 1),
            ));
            match erased {
                Ok(()) => {},
                Err(error) => {
                    return Err(error);
                },
            }
            next += 1;
        }
        Ok(())
    }

    /// Returns a writer over the range from `start` to `end`, and selects the bank that holds
    /// the first byte of it.
    pub fn writer<'a>(&'a mut self, start: Bound<131071>, end: Bound<131071>) -> (writer:
        Writer128K<'a, H>)
        requires
            old(self).wf(),
            start.first() <= end.limit(),
        ensures
            writer.wf(),
            writer.address == start.first(),
            writer.len == end.limit() - start.first(),
            writer.bank == bank_of(start.first()),
            writer.hardware@ == old(self).hardware@.with_chip(
                old(self).hardware@.chip.with_bank(bank_of(start.first()).spec_number() as int, 1),
            ),
            *final(writer.hardware) == final(self).hardware,
    {
        let (address, len) = translate_range_to_buffer(start, end, 0);
        Writer128K::new_unchecked(&mut self.hardware, address, len)
    }
}

impl Device {
    /// The size of this device.
    pub open spec fn spec_size(self) -> Size {
        match self.spec_class() {
            Class::Flash128K => Size::_128KB,
            _ => Size::_64KB,
        }
    }

    /// Returns the size of this device.
    #[verifier::when_used_as_spec(spec_size)]
    pub fn size(self) -> (size: Size)
        ensures
            size == self.spec_size(),
    {
        match self {
            Device::MX29L010 | Device::LE26FV10N1TS => Size::_128KB,
            _ => Size::_64KB,
        }
    }
}

/// The currently available flash backup device.
///
/// The GBA has three different variants of flash backup:
/// - 64KiB
/// - 64KiB Atmel
/// - 128KiB
///
/// Each of these backup types are interacted with in slightly different ways. Therefore, they are
/// treated separately by this library. This type contains the variant of the currently available
/// flash device. Users should match on the variants of this type and provide specific behavior for
/// each supported variant.
pub enum Flash<H: FlashHardware> {
    /// 64KiB flash memory.
    Flash64K(Flash64K<H>),
    /// 64KiB flash memory manufactured by Atmel.
    ///
    /// This case is handled separately, as Atmel chips have different sector sizes than other
    /// devices.
    Flash64KAtmel(Flash64KAtmel<H>),
    /// 128KiB flash memory.
    Flash128K(Flash128K<H>),
}

impl<H: FlashHardware> Flash<H> {
    /// The state of the hardware that the device is driven through.
    pub open spec fn view(&self) -> FlashState {
        match self {
            Flash::Flash64K(flash) => flash.hardware@,
            Flash::Flash64KAtmel(flash) => flash.hardware@,
            Flash::Flash128K(flash) => flash.hardware@,
        }
    }

    /// How the device is driven.
    pub open spec fn class(&self) -> Class {
        match self {
            Flash::Flash64K(_) => Class::Flash64K,
            Flash::Flash64KAtmel(_) => Class::Flash64KAtmel,
            Flash::Flash128K(_) => Class::Flash128K,
        }
    }

    /// The chip is at rest, and is driven as a chip of its make has to be.
    pub open spec fn wf(&self) -> bool {
        &&& self@.chip.idle()
        &&& self@.chip.class() == self.class()
    }

    /// The size of a device that is driven in this way.
    pub open spec fn spec_size(&self) -> Size {
        match self {
            Flash::Flash128K(_) => Size::_128KB,
            _ => Size::_64KB,
        }
    }

    /// Returns the variant of the currently available flash device.
    ///
    /// This is the starting point for interacting with the flash backup. The wait cycles of the
    /// backup memory window are set to eight, and the chip is asked for its id. An id that no
    /// known device has comes back in the error; the chip is then left as it is, still naming
    /// itself.
    ///
    /// The chip has to be at rest when this is called: nothing has begun a command that it has
    /// not ended, and the chip is not busy.
    pub fn new(hardware: H) -> (result: Result<Self, UnknownDeviceId>)
        requires
            hardware@.chip.wf(),
            hardware@.chip.present ==> hardware@.chip.idle(),
        ensures
            match result {
                Ok(flash) => {
                    &&& Device::lookup(hardware@.chip.observed_id()) is Some
                    &&& flash.class() == Device::lookup(
                        hardware@.chip.observed_id(),
                    )->0.spec_class()
                    &&& flash.wf()
                    &&& flash@ == hardware@.with_waitstate_control(
                        (hardware@.waitstate_control & 0xfffc) | 3,
                    )
                },
                Err(unknown) => {
                    &&& Device::lookup(hardware@.chip.observed_id()) is None
                    &&& unknown == UnknownDeviceId(hardware@.chip.observed_id())
                },
            },
    {
        let mut hardware = hardware;
        let mut waitstate_control = hardware.waitstate_control();
        waitstate_control.set_backup_waitstate(Cycles::_8);
        hardware.set_waitstate_control(waitstate_control);

        send_command(&mut hardware, Command::EnterIDMode);
        wait(TIMEOUT);

        // Read u16 from memory.
        let low = hardware.read_byte(0);
        let high = hardware.read_byte(1);
        let id = (low as u16) | ((high as u16) << 8);
        proof {
            let observed = hardware@.chip.observed_id();
            assert(((observed & 0xff) as u8 as u16) | (((observed >> 8) as u8 as u16) << 8)
                == observed) by (bit_vector);
            assert((0xffu8 as u16) | ((0xffu8 as u16) << 8) == 0xffffu16) by (bit_vector);
        }
        let device = match Device::try_from(id) {
            Ok(device) => device,
            Err(unknown) => {
                return Err(unknown);
            },
        };

        send_command(&mut hardware, Command::TerminateMode);
        wait(TIMEOUT);
        // Sanyo 128K device needs to have `TerminateMode` command sent twice.
        match device {
            Device::LE26FV10N1TS => {
                send_command(&mut hardware, Command::TerminateMode);
                wait(TIMEOUT);
            },
            _ => {},
        }

        match device.class() {
            Class::Flash64KAtmel => Ok(Flash::Flash64KAtmel(Flash64KAtmel { hardware })),
            Class::Flash128K => Ok(Flash::Flash128K(Flash128K { hardware })),
            Class::Flash64K => Ok(Flash::Flash64K(Flash64K { hardware })),
        }
    }

    /// Returns the size of the device.
    #[verifier::when_used_as_spec(spec_size)]
    pub fn size(&self) -> (size: Size)
        ensures
            size == self.spec_size(),
    {
        match self {
            Flash::Flash128K(_) => Size::_128KB,
            _ => Size::_64KB,
        }
    }

    /// Erase the entirety of the flash backup memory, and wait until its first byte reads as
    /// erased.
    ///
    /// When the byte does not read as erased in time, the error is `OperationTimedOut`.
    pub fn reset(&mut self) -> (result: Result<(), Error>)
        requires
            old(self).wf(),
        ensures
            result is Ok <==> erases(old(self)@.chip),
            result is Err ==> result == Err::<(), Error>(Error::OperationTimedOut),
            result is Ok ==> final(self).wf(),
            final(self).class() == old(self).class(),
            final(self)@ == old(self)@.with_chip(
                old(self)@.chip.with_erased(0, old(self)@.chip.cells.len() as int).storing(
                    ERASED,
                    remaining(old(self)@.chip.erase_latency),
                ),
            ),
    {
        match self {
            Flash::Flash64K(flash) => erase_chip(&mut flash.hardware),
            Flash::Flash64KAtmel(flash) => erase_chip(&mut flash.hardware),
            Flash::Flash128K(flash) => erase_chip(&mut flash.hardware),
        }
    }
}

} // verus!
