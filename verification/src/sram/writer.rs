use crate::contents::overwritten;
use crate::sram::hardware::SramHardware;
use crate::sram::hardware::SramState;
use crate::sram::hardware::SRAM_SIZE;
use crate::sram::Error;
use vstd::prelude::*;

verus! {

/// Reads the cell at `offset` back and compares it with `byte`.
fn verify_byte<H: SramHardware>(hardware: &mut H, offset: usize, byte: u8) -> (result: Result<
    (),
    Error,
>)
    requires
        old(hardware)@.wf(),
        offset < SRAM_SIZE,
    ensures
        final(hardware)@ == old(hardware)@,
        result is Ok <==> old(hardware)@.cells[offset as int] == byte,
        result is Err ==> result == Err::<(), Error>(Error::WriteFailure),
{
    if hardware.read_byte(offset) == byte {
        Ok(())
    } else {
        Err(Error::WriteFailure)
    }
}

/// Whether `after` can be the state in which a write of `data` at `offset` has failed, where
/// `before` was the state when it began: some byte of `data` did not read back as it was
/// written. The bytes before it are in place, and no cell behind it was touched.
pub open spec fn failed_write(before: SramState, after: SramState, offset: int, data: Seq<u8>) -> bool {
    exists|k: int|
        {
            &&& 0 <= k < data.len()
            &&& after.holds(offset, data.take(k))
            &&& #[trigger] after.cells[offset + k] != data[k]
            &&& before.same_outside(after, offset, k + 1)
        }
}

/// A writer on SRAM.
///
/// This type allows writing data on the range specified upon creation.
pub struct Writer<'a, H: SramHardware> {
    /// The hardware, borrowed from the device for as long as this writer lives.
    pub hardware: &'a mut H,
    /// The offset of the next cell to write.
    pub address: usize,
    /// The number of cells that are left of the range.
    pub len: usize,
}

impl<'a, H: SramHardware> Writer<'a, H> {
    /// The range lies within the chip.
    pub open spec fn wf(&self) -> bool {
        &&& self.hardware@.wf()
        &&& self.address + self.len <= SRAM_SIZE
    }

    /// The number of bytes of `buf` that a call of `write` takes on.
    pub open spec fn accepts(&self, buf: Seq<u8>) -> nat {
        if buf.len() <= self.len {
            buf.len()
        } else {
            self.len as nat
        }
    }

    /// Creates a writer over the `len` cells that start at `address`.
    pub fn new_unchecked(hardware: &'a mut H, address: usize, len: usize) -> (writer: Self)
        ensures
            writer.address == address,
            writer.len == len,
            *writer.hardware == *old(hardware),
            *final(writer.hardware) == *final(hardware),
    {
        Self { hardware, address, len }
    }

    /// Writes the bytes of `buf` to the cells of the range, as many as the range still has room
    /// for, and returns how many were written. Each byte is read back as soon as it is written.
    ///
    /// When the range is exhausted, nothing is written and the error is `EndOfWriter`. When a
    /// byte does not read back as written, the error is `WriteFailure`: the writer stays where
    /// it was and the bytes behind the failed one are not written.
    pub fn write(&mut self, buf: &[u8]) -> (result: Result<usize, Error>)
        requires
            old(self).wf(),
        ensures
            final(self).wf(),
            *final(final(self).hardware) == *final(old(self).hardware),
            match result {
                Ok(count) => {
                    &&& old(self).len > 0
                    &&& count == old(self).accepts(buf@)
                    &&& final(self).address == old(self).address + count
                    &&& final(self).len == old(self).len - count
                    &&& final(self).hardware@ == old(self).hardware@.with_cells(
                        overwritten(
                            old(self).hardware@.cells,
                            old(self).address as int,
                            buf@.take(count as int),
                        ),
                    )
                },
                Err(Error::EndOfWriter) => {
                    &&& old(self).len == 0
                    &&& final(self).address == old(self).address
                    &&& final(self).len == old(self).len
                    &&& final(self).hardware@ == old(self).hardware@
                },
                Err(Error::WriteFailure) => {
                    &&& old(self).len > 0
                    &&& final(self).address == old(self).address
                    &&& final(self).len == old(self).len
                    &&& failed_write(
                        old(self).hardware@,
                        final(self).hardware@,
                        old(self).address as int,
                        buf@.take(old(self).accepts(buf@) as int),
                    )
                },
            },
            old(self).hardware@.present && old(self).len > 0 ==> result is Ok,
    {
        if self.len == 0 {
            return Err(Error::EndOfWriter);
        }
        let limit = if buf.len() <= self.len {
            buf.len()
        } else {
            self.len
        };
        let ghost before = self.hardware@;
        let ghost start = self.address as int;
        let mut write_count: usize = 0;
        while write_count < limit
            invariant
                write_count <= limit,
                limit == old(self).accepts(buf@),
                self.address == old(self).address,
                self.len == old(self).len,
                start == self.address,
                before == old(self).hardware@,
                *final(self.hardware) == *final(old(self).hardware),
                self.wf(),
                forall|i: int|
                    0 <= i < write_count ==> self.hardware@.cells[start + i] == #[trigger] buf@[i],
                before.same_outside(self.hardware@, start, write_count as int),
            decreases limit - write_count,
        {
            let address = self.address + write_count;
            let byte = buf[write_count];
            self.hardware.write_byte(address, byte);
            let verified = verify_byte(self.hardware, address, byte);
            assert(before.same_outside(self.hardware@, start, write_count + 1));
            match verified {
                Ok(()) => {},
                Err(error) => {
                    proof {
                        let data = buf@.take(limit as int);
                        let k = write_count as int;
                        assert(self.hardware@.bytes(start, k) =~= data.take(k));
                        assert(self.hardware@.cells[start + k] != data[k]);
                    }
                    return Err(error);
                },
            }
            write_count += 1;
        }
        assert(self.hardware@.cells =~= overwritten(
            before.cells,
            start,
            buf@.take(write_count as int),
        ));
        self.address = self.address + write_count;
        self.len = self.len - write_count;
        Ok(write_count)
    }

    /// Does nothing: every byte is in its cell when `write` returns.
    pub fn flush(&mut self) -> (result: Result<(), Error>)
        ensures
            result is Ok,
            *final(self) == *old(self),
    {
        Ok(())
    }
}

} // verus!
