use crate::flash::command::switch_bank;
use crate::flash::command::Bank;
use crate::flash::hardware::FlashHardware;
use crate::flash::hardware::BANK_SIZE;
use vstd::prelude::*;

verus! {

/// A reader on a 64KiB flash device.
///
/// This type allows reading data over the range specified upon creation.
pub struct Reader64K<'a, H: FlashHardware> {
    /// The hardware, borrowed from the device for as long as this reader lives.
    pub hardware: &'a mut H,
    /// The offset of the next byte to read.
    pub address: usize,
    /// The number of bytes that are left of the range.
    pub len: usize,
}

impl<'a, H: FlashHardware> Reader64K<'a, H> {
    /// The range lies within the chip.
    pub open spec fn wf(&self) -> bool {
        &&& self.hardware@.chip.wf()
        &&& self.address + self.len <= BANK_SIZE
    }

    /// Creates a reader over the `len` bytes that start at `address`.
    pub fn new_unchecked(hardware: &'a mut H, address: usize, len: usize) -> (reader: Self)
        ensures
            reader.address == address,
            reader.len == len,
            *reader.hardware == *old(hardware),
            *final(reader.hardware) == *final(hardware),
    {
        Self { hardware, address, len }
    }

    /// Reads bytes into `buf` until `buf` is full or the range is at its end, and returns how
    /// many were read. The bytes that were read are no longer part of the range.
    ///
    /// From a chip that is not busy, the bytes are those of the cells. From one that is, they
    /// are its status for as long as it is busy.
    pub fn read(&mut self, buf: &mut [u8]) -> (count: usize)
        requires
            old(self).wf(),
        ensures
            final(self).wf(),
            final(self).hardware@ == old(self).hardware@.after_reads(count as nat),
            *final(final(self).hardware) == *final(old(self).hardware),
            count == if old(buf)@.len() <= old(self).len {
                old(buf)@.len()
            } else {
                old(self).len as nat
            },
            final(self).address == old(self).address + count,
            final(self).len == old(self).len - count,
            final(buf)@ == old(self).hardware@.chip.bytes(old(self).address as int, count as int)
                + old(buf)@.skip(count as int),
    {
        let limit = if buf.len() <= self.len {
            buf.len()
        } else {
            self.len
        };
        let mut read_count: usize = 0;
        while read_count < limit
            invariant
                read_count <= limit,
                limit <= buf@.len(),
                limit <= self.len,
                buf@.len() == old(buf)@.len(),
                self.address == old(self).address,
                self.len == old(self).len,
                self.hardware@ == old(self).hardware@.after_reads(read_count as nat),
                *final(self.hardware) == *final(old(self).hardware),
                self.wf(),
                buf@ =~= old(self).hardware@.chip.bytes(
                    old(self).address as int,
                    read_count as int,
                ) + old(buf)@.skip(read_count as int),
            decreases limit - read_count,
        {
            let value = self.hardware.read_byte(self.address + read_count);
            buf[read_count] = value;
            read_count += 1;
        }
        self.address = self.address + read_count;
        self.len = self.len - read_count;
        read_count
    }
}

/// The bank that holds the byte at `address` of a chip of 128KiB.
pub open spec fn bank_of(address: int) -> Bank {
    if address < BANK_SIZE {
        Bank::_0
    } else {
        Bank::_1
    }
}

/// Whether a cursor at `address` over a chip of 128KiB agrees with `bank` being addressed: the
/// second bank is addressed once the cursor has gone beyond the first byte of it, and not
/// before it has reached that byte.
pub open spec fn bank_in_step(bank: Bank, address: int) -> bool {
    match bank {
        Bank::_0 => address <= BANK_SIZE,
        Bank::_1 => address >= BANK_SIZE,
    }
}

/// The bank that is addressed after a cursor that was in step with `bank` at `address` has
/// gone over `count` bytes.
pub open spec fn bank_after(bank: Bank, address: int, count: int) -> Bank {
    if address + count > BANK_SIZE {
        Bank::_1
    } else {
        bank
    }
}

/// The number of times that a cursor which was in step with `bank` at `address` selects a bank
/// while it goes over `count` bytes: once if it enters the second bank, else never.
pub open spec fn switches_over(bank: Bank, address: int, count: int) -> nat {
    if bank == Bank::_0 && address + count > BANK_SIZE {
        1
    } else {
        0
    }
}

/// A reader on a 128KiB flash device.
///
/// This type allows reading data over the range specified upon creation.
pub struct Reader128K<'a, H: FlashHardware> {
    /// The hardware, borrowed from the device for as long as this reader lives.
    pub hardware: &'a mut H,
    /// The number, among the bytes of both banks, of the next byte to read.
    pub address: usize,
    /// The number of bytes that are left of the range.
    pub len: usize,
    /// The bank that is addressed.
    pub bank: Bank,
}

impl<'a, H: FlashHardware> Reader128K<'a, H> {
    /// The range lies within the chip, the chip has two banks and is at rest, and it addresses
    /// the bank that this reader takes to be addressed.
    pub open spec fn wf(&self) -> bool {
        &&& self.hardware@.chip.idle()
        &&& self.hardware@.chip.banks() == 2
        &&& self.hardware@.chip.bank == self.bank.spec_number()
        &&& bank_in_step(self.bank, self.address as int)
        &&& self.address + self.len <= 2 * BANK_SIZE
    }

    /// Creates a reader over the `len` bytes that start at `address`, and selects the bank that
    /// holds the first of them.
    pub fn new_unchecked(hardware: &'a mut H, address: usize, len: usize) -> (reader: Self)
        requires
            old(hardware)@.chip.idle(),
            old(hardware)@.chip.banks() == 2,
            address + len <= 2 * BANK_SIZE,
        ensures
            reader.wf(),
            reader.address == address,
            reader.len == len,
            reader.bank == bank_of(address as int),
            reader.hardware@ == old(hardware)@.with_chip(
                old(hardware)@.chip.with_bank(bank_of(address as int).spec_number() as int, 1),
            ),
            *final(reader.hardware) == *final(hardware),
    {
        let bank = if address < BANK_SIZE {
            Bank::_0
        } else {
            Bank::_1
        };
        switch_bank(hardware, bank);
        Self { hardware, address, len, bank }
    }

    /// Reads bytes into `buf` until `buf` is full or the range is at its end, and returns how
    /// many were read. The bytes that were read are no longer part of the range. The second bank
    /// is selected before its first byte is read.
    pub fn read(&mut self, buf: &mut [u8]) -> (count: usize)
        requires
            old(self).wf(),
        ensures
            final(self).wf(),
            *final(final(self).hardware) == *final(old(self).hardware),
            count == if old(buf)@.len() <= old(self).len {
                old(buf)@.len()
            } else {
                old(self).len as nat
            },
            final(self).address == old(self).address + count,
            final(self).len == old(self).len - count,
            final(self).bank == bank_after(old(self).bank, old(self).address as int, count as int),
            final(self).hardware@ == old(self).hardware@.with_chip(
                old(self).hardware@.chip.with_bank(
                    final(self).bank.spec_number() as int,
                    switches_over(old(self).bank, old(self).address as int, count as int),
                ),
            ),
            final(buf)@ == old(self).hardware@.chip.cells.subrange(
                old(self).address as int,
                old(self).address + count,
            ) + old(buf)@.skip(count as int),
    {
        let limit = if buf.len() <= self.len {
            buf.len()
        } else {
            self.len
        };
        let ghost before = self.hardware@;
        let ghost start = self.address as int;
        let ghost first = self.bank;
        let mut read_count: usize = 0;
        while read_count < limit
            invariant
                read_count <= limit,
                limit <= buf@.len(),
                limit <= self.len,
                buf@.len() == old(buf)@.len(),
                self.address == old(self).address,
                self.len == old(self).len,
                before == old(self).hardware@,
                start == old(self).address,
                first == old(self).bank,
                old(self).wf(),
                *final(self.hardware) == *final(old(self).hardware),
                self.hardware@.chip.idle(),
                self.hardware@.chip.bank == self.bank.spec_number(),
                bank_in_step(self.bank, start + read_count),
                self.bank == bank_after(first, start, read_count as int),
                self.hardware@ == before.with_chip(
                    before.chip.with_bank(
                        self.bank.spec_number() as int,
                        switches_over(first, start, read_count as int),
                    ),
                ),
                buf@ =~= before.chip.cells.subrange(start, start + read_count) + old(buf)@.skip(
                    read_count as int,
                ),
            decreases limit - read_count,
        {
            let mut address = self.address + read_count;
            match self.bank {
                Bank::_0 => {
                    if address == BANK_SIZE {
                        self.bank = Bank::_1;
                        switch_bank(self.hardware, self.bank);
                    }
                },
                Bank::_1 => {},
            }
            match self.bank {
                Bank::_0 => {},
                Bank::_1 => {
                    address = address - BANK_SIZE;
                },
            }
            let value = self.hardware.read_byte(address);
            buf[read_count] = value;
            read_count += 1;
        }
        self.address = self.address + read_count;
        self.len = self.len - read_count;
        read_count
    }
}

} // verus!
