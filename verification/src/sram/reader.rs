use crate::sram::hardware::SramHardware;
use crate::sram::hardware::SRAM_SIZE;
use vstd::prelude::*;

verus! {

/// A reader on SRAM.
///
/// This type allows reading data over the range specified upon creation.
pub struct Reader<'a, H: SramHardware> {
    /// The hardware, borrowed from the device for as long as this reader lives.
    pub hardware: &'a mut H,
    /// The offset of the next cell to read.
    pub address: usize,
    /// The number of cells that are left of the range.
    pub len: usize,
}

impl<'a, H: SramHardware> Reader<'a, H> {
    /// The range lies within the chip.
    pub open spec fn wf(&self) -> bool {
        &&& self.hardware@.wf()
        &&& self.address + self.len <= SRAM_SIZE
    }

    /// Creates a reader over the `len` cells that start at `address`.
    pub fn new_unchecked(hardware: &'a mut H, address: usize, len: usize) -> (reader: Self)
        ensures
            reader.address == address,
            reader.len == len,
            *reader.hardware == *old(hardware),
            *final(reader.hardware) == *final(hardware),
    {
        Self { hardware, address, len }
    }

    /// Reads cells into `buf` until `buf` is full or the range is at its end, and returns how
    /// many were read. The cells that were read are no longer part of the range.
    pub fn read(&mut self, buf: &mut [u8]) -> (count: usize)
        requires
            old(self).wf(),
        ensures
            final(self).wf(),
            final(self).hardware@ == old(self).hardware@,
            *final(final(self).hardware) == *final(old(self).hardware),
            count == if old(buf)@.len() <= old(self).len {
                old(buf)@.len()
            } else {
                old(self).len as nat
            },
            final(self).address == old(self).address + count,
            final(self).len == old(self).len - count,
            final(buf)@ == old(self).hardware@.bytes(old(self).address as int, count as int)
                + old(buf)@.skip(count as int),
    {
        let limit = if buf.len() <= self.len {
            buf.len()
        } else {
            self.len
        };
        let mut read_count: usize = 0;
        while read_count < limit
            invariant
                read_count <= limit,
                limit <= buf@.len(),
                limit <= self.len,
                buf@.len() == old(buf)@.len(),
                self.address == old(self).address,
                self.len == old(self).len,
                self.hardware@ == old(self).hardware@,
                *final(self.hardware) == *final(old(self).hardware),
                self.wf(),
                buf@ =~= old(self).hardware@.bytes(old(self).address as int, read_count as int)
                    + old(buf)@.skip(read_count as int),
            decreases limit - read_count,
        {
            let value = self.hardware.read_byte(self.address + read_count);
            buf[read_count] = value;
            read_count += 1;
        }
        self.address = self.address + read_count;
        self.len = self.len - read_count;
        read_count
    }
}

} // verus!
