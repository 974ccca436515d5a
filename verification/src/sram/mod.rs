//! SRAM backup memory.
//!
//! Unlike other backup memory types, SRAM only comes in a single size: 32KiB. This makes it
//! simpler to work with than flash or EEPROM, as you don't have to determine what size you are
//! supporting.
//!
//! To interact with SRAM, use the [`Sram`] type to create readers and writers over ranges of SRAM
//! memory.

pub mod error;
pub mod hardware;
pub mod laws;
pub mod reader;
pub mod simulator;
pub mod writer;

pub use error::Error;
pub use hardware::SramHardware;
pub use hardware::SramState;
pub use reader::Reader;
pub use simulator::SimulatedSram;
pub use writer::Writer;

use crate::mmio::Cycles;
use crate::range::translate_range_to_buffer;
use crate::range::Bound;
use vstd::prelude::*;

verus! {

/// Access to SRAM backup.
pub struct Sram<H: SramHardware> {
    /// The hardware that this accessor drives.
    pub hardware: H,
}

impl<H: SramHardware> Sram<H> {
    /// Creates an accessor to the SRAM backup, and sets the wait cycles of the backup memory
    /// window to eight.
    pub fn new(hardware: H) -> (sram: Self)
        ensures
            sram.hardware@ == hardware@.with_waitstate_control(
                (hardware@.waitstate_control & 0xfffc) | 3,
            ),
    {
        let mut hardware = hardware;
        let mut waitstate_control = hardware.waitstate_control();
        waitstate_control.set_backup_waitstate(Cycles::_8);
        hardware.set_waitstate_control(waitstate_control);
        Self { hardware }
    }

    /// Returns a reader over the range from `start` to `end`.
    pub fn reader<'a>(&'a mut self, start: Bound<32767>, end: Bound<32767>) -> (reader: Reader<
        'a,
        H,
    >)
        requires
            start.first() <= end.limit(),
        ensures
            reader.address == start.first(),
            reader.len == end.limit() - start.first(),
            reader.address + reader.len <= hardware::SRAM_SIZE,
            old(self).hardware@.wf() ==> reader.wf(),
            *reader.hardware == old(self).hardware,
            *final(reader.hardware) == final(self).hardware,
    {
        let (address, len) = translate_range_to_buffer(start, end, 0);
        Reader::new_unchecked(&mut self.hardware, address, len)
    }

    /// Returns a writer over the range from `start` to `end`.
    pub fn writer<'a>(&'a mut self, start: Bound<32767>, end: Bound<32767>) -> (writer: Writer<
        'a,
        H,
    >)
        requires
            start.first() <= end.limit(),
        ensures
            writer.address == start.first(),
            writer.len == end.limit() - start.first(),
            writer.address + writer.len <= hardware::SRAM_SIZE,
            old(self).hardware@.wf() ==> writer.wf(),
            *writer.hardware == old(self).hardware,
            *final(writer.hardware) == final(self).hardware,
    {
        let (address, len) = translate_range_to_buffer(start, end, 0);
        Writer::new_unchecked(&mut self.hardware, address, len)
    }
}

} // verus!
