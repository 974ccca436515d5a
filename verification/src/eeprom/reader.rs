use crate::eeprom::hardware::lemma_slowed_twice;
use crate::eeprom::hardware::spec_capacity;
use crate::eeprom::hardware::EepromHardware;
use crate::eeprom::hardware::EepromState;
use crate::eeprom::hardware::ADDRESS_LEN_512B;
use crate::eeprom::hardware::ADDRESS_LEN_8KB;
use crate::eeprom::hardware::SECTOR_SIZE;
use crate::eeprom::read;
use crate::eeprom::request_read;
use vstd::prelude::*;

verus! {

/// The state of the hardware after `count` bytes were read from `address` on: unless no byte
/// was read, the wait cycles of the EEPROM window are set to eight, and the sector of the last
/// byte is selected.
pub open spec fn after_reading(before: EepromState, address: int, count: int) -> EepromState {
    if count <= 0 {
        before
    } else {
        before.slowed().with_chip(before.chip.with_selected((address + count - 1) / 8))
    }
}

/// A reader on an EEPROM device whose requests have a given number of address bits.
pub struct Reader<'a, H: EepromHardware> {
    /// The hardware, borrowed from the device for as long as this reader lives.
    pub hardware: &'a mut H,
    /// The address of the next byte to read.
    pub address: usize,
    /// The number of bytes that are left of the range.
    pub len: usize,
}

impl<'a, H: EepromHardware> Reader<'a, H> {
    /// The chip is one whose requests have `address_len` address bits, and the range lies
    /// within it.
    pub open spec fn wf(&self, address_len: usize) -> bool {
        &&& self.hardware@.chip.wf()
        &&& self.hardware@.chip.address_bits == address_len
        &&& self.address + self.len <= spec_capacity(address_len)
    }

    /// Creates a reader over the `len` bytes that start at `address`.
    pub fn new_unchecked(hardware: &'a mut H, address: usize, len: usize) -> (reader: Self)
        ensures
            reader.address == address,
            reader.len == len,
            *reader.hardware == *old(hardware),
            *final(reader.hardware) == *final(hardware),
    {
        Self { hardware, address, len }
    }

    /// Reads bytes into `buf` until `buf` is full or the range is at its end, sector by sector,
    /// and returns how many were read. The bytes that were read are no longer part of the range.
    pub fn read(&mut self, buf: &mut [u8], address_len: usize) -> (count: usize)
        requires
            old(self).wf(address_len),
        ensures
            final(self).wf(address_len),
            *final(final(self).hardware) == *final(old(self).hardware),
            count == if old(buf)@.len() <= old(self).len {
                old(buf)@.len()
            } else {
                old(self).len as nat
            },
            final(self).address == old(self).address + count,
            final(self).len == old(self).len - count,
            final(self).hardware@ == after_reading(
                old(self).hardware@,
                old(self).address as int,
                count as int,
            ),
            final(buf)@ == old(self).hardware@.chip.contents.subrange(
                old(self).address as int,
                old(self).address + count,
            ) + old(buf)@.skip(count as int),
    {
        let mut bits = [0u16;68];

        // Read in chunks of 8 bytes.
        let mut read_count: usize = 0;
        let read_limit = if buf.len() <= self.len {
            buf.len()
        } else {
            self.len
        };
        let ghost before = self.hardware@;
        let ghost start = self.address as int;
        while read_count < read_limit
            invariant
                read_count <= read_limit,
                read_limit <= buf@.len(),
                read_limit <= old(self).len,
                buf@.len() == old(buf)@.len(),
                before == old(self).hardware@,
                start == old(self).address,
                old(self).wf(address_len),
                self.address == start + read_count,
                self.len == old(self).len - read_count,
                *final(self.hardware) == *final(old(self).hardware),
                self.hardware@ == after_reading(before, start, read_count as int),
                buf@ =~= before.chip.contents.subrange(start, start + read_count) + old(buf)@.skip(
                    read_count as int,
                ),
            decreases read_limit - read_count,
        {
            // Request a read of EEPROM data.
            request_read(self.hardware, &mut bits, self.address, address_len);
            // Receive from EEPROM.
            let offset = self.address % SECTOR_SIZE;
            let amount_read = read(self.hardware, buf, read_count, read_limit, offset);
            proof {
                let sector = self.address as int / 8;
                assert(before.chip.sector(sector).subrange(offset as int, offset + amount_read)
                    =~= before.chip.contents.subrange(
                    start + read_count,
                    start + read_count + amount_read,
                ));
                assert((start + read_count + amount_read - 1) / 8 == sector);
                lemma_slowed_twice(before);
            }
            read_count += amount_read;
            self.address = self.address + amount_read;
            self.len = self.len - amount_read;
        }
        read_count
    }
}

/// A reader on a 512B EEPROM device.
///
/// This type allows reading data over the range specified upon creation.
pub struct Reader512B<'a, H: EepromHardware> {
    /// The reader that does the work.
    pub reader: Reader<'a, H>,
}

impl<'a, H: EepromHardware> Reader512B<'a, H> {
    /// Creates a reader over the `len` bytes that start at `address`.
    pub fn new_unchecked(hardware: &'a mut H, address: usize, len: usize) -> (reader: Self)
        ensures
            reader.reader.address == address,
            reader.reader.len == len,
            *reader.reader.hardware == *old(hardware),
            *final(reader.reader.hardware) == *final(hardware),
    {
        Self { reader: Reader::new_unchecked(hardware, address, len) }
    }

    /// Reads bytes into `buf` until `buf` is full or the range is at its end, and returns how
    /// many were read. The bytes that were read are no longer part of the range.
    pub fn read(&mut self, buf: &mut [u8]) -> (count: usize)
        requires
            old(self).reader.wf(ADDRESS_LEN_512B),
        ensures
            final(self).reader.wf(ADDRESS_LEN_512B),
            *final(final(self).reader.hardware) == *final(old(self).reader.hardware),
            count == if old(buf)@.len() <= old(self).reader.len {
                old(buf)@.len()
            } else {
                old(self).reader.len as nat
            },
            final(self).reader.address == old(self).reader.address + count,
            final(self).reader.len == old(self).reader.len - count,
            final(self).reader.hardware@ == after_reading(
                old(self).reader.hardware@,
                old(self).reader.address as int,
                count as int,
            ),
            final(buf)@ == old(self).reader.hardware@.chip.contents.subrange(
                old(self).reader.address as int,
                old(self).reader.address + count,
            ) + old(buf)@.skip(count as int),
    {
        self.reader.read(buf, ADDRESS_LEN_512B)
    }
}

/// A reader on an 8KiB EEPROM device.
///
/// This type allows reading data over the range specified upon creation.
pub struct Reader8K<'a, H: EepromHardware> {
    /// The reader that does the work.
    pub reader: Reader<'a, H>,
}

impl<'a, H: EepromHardware> Reader8K<'a, H> {
    /// Creates a reader over the `len` bytes that start at `address`.
    pub fn new_unchecked(hardware: &'a mut H, address: usize, len: usize) -> (reader: Self)
        ensures
            reader.reader.address == address,
            reader.reader.len == len,
            *reader.reader.hardware == *old(hardware),
            *final(reader.reader.hardware) == *final(hardware),
    {
        Self { reader: Reader::new_unchecked(hardware, address, len) }
    }

    /// Reads bytes into `buf` until `buf` is full or the range is at its end, and returns how
    /// many were read. The bytes that were read are no longer part of the range.
    pub fn read(&mut self, buf: &mut [u8]) -> (count: usize)
        requires
            old(self).reader.wf(ADDRESS_LEN_8KB),
        ensures
            final(self).reader.wf(ADDRESS_LEN_8KB),
            *final(final(self).reader.hardware) == *final(old(self).reader.hardware),
            count == if old(buf)@.len() <= old(self).reader.len {
                old(buf)@.len()
            } else {
                old(self).reader.len as nat
            },
            final(self).reader.address == old(self).reader.address + count,
            final(self).reader.len == old(self).reader.len - count,
            final(self).reader.hardware@ == after_reading(
                old(self).reader.hardware@,
                old(self).reader.address as int,
                count as int,
            ),
            final(buf)@ == old(self).reader.hardware@.chip.contents.subrange(
                old(self).reader.address as int,
                old(self).reader.address + count,
            ) + old(buf)@.skip(count as int),
    {
        self.reader.read(buf, ADDRESS_LEN_8KB)
    }
}

} // verus!
