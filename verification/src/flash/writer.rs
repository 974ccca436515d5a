use crate::contents::overwritten;
use crate::flash::command::lemma_status_differs;
use crate::flash::command::remaining;
use crate::flash::command::send_command;
use crate::flash::command::spec_limit;
use crate::flash::command::switch_bank;
use crate::flash::command::verify_byte;
use crate::flash::command::Bank;
use crate::flash::command::Command;
use crate::flash::command::TIMEOUT;
use crate::flash::device::Class;
use crate::flash::hardware::lemma_write_keeps_wf;
use crate::flash::hardware::programmable;
use crate::flash::hardware::programmed;
use crate::flash::hardware::FlashChip;
use crate::flash::hardware::FlashHardware;
use crate::flash::hardware::BANK_SIZE;
use crate::flash::reader::bank_of;
use crate::flash::Error;
use vstd::prelude::*;

verus! {

/// The number of bytes of `buf` that a writer with `len` bytes left takes on in one call.
pub open spec fn accepted(len: usize, buf: Seq<u8>) -> nat {
    if buf.len() <= len {
        buf.len()
    } else {
        len as nat
    }
}

/// Whether the chip is done with programming a byte before the writer gives up waiting.
pub open spec fn in_time(chip: FlashChip) -> bool {
    chip.program_latency <= spec_limit(TIMEOUT)
}

/// Whether the byte `k` of `data` is the first that does not read back when `data` is
/// programmed into the cells of `chip` from `index` on: either the chip is too slow, and then it
/// is the first byte of all, or the chip is not, and it is the first byte that cannot be
/// programmed into its cell.
pub open spec fn refused_at(chip: FlashChip, index: int, data: Seq<u8>, k: int) -> bool {
    &&& 0 <= k < data.len()
    &&& if in_time(chip) {
        &&& programmable(chip.cells, index, data.take(k))
        &&& chip.cells[index + k] & data[k] != data[k]
    } else {
        k == 0
    }
}

/// The chip after the bytes of `data` were programmed into its cells from `index` on, of which
/// each but the last has read back.
pub open spec fn programming(chip: FlashChip, index: int, data: Seq<u8>) -> FlashChip {
    if data.len() == 0 {
        chip
    } else {
        chip.with_cells(programmed(chip.cells, index, data)).storing(
            data.last(),
            remaining(chip.program_latency),
        )
    }
}

/// Programming a byte into a cell that can take it leaves the byte in the cell.
pub proof fn lemma_programmed_is_overwritten(cells: Seq<u8>, index: int, data: Seq<u8>)
    requires
        0 <= index,
        index + data.len() <= cells.len(),
        programmable(cells, index, data),
    ensures
        programmed(cells, index, data) == overwritten(cells, index, data),
{
    assert forall|i: int| 0 <= i < cells.len() implies #[trigger] programmed(cells, index, data)[i]
        == overwritten(cells, index, data)[i] by {
        if index <= i < index + data.len() {
            assert(cells[index + (i - index)] & data[i - index] == data[i - index]);
        }
    }
    assert(programmed(cells, index, data) =~= overwritten(cells, index, data));
}

/// Programs `byte` into the cell at `offset` of the bank that is addressed, and waits until it
/// reads back.
fn program_byte<H: FlashHardware>(hardware: &mut H, offset: usize, byte: u8) -> (result: Result<
    (),
    Error,
>)
    requires
        old(hardware)@.chip.idle(),
        old(hardware)@.chip.class() != Class::Flash64KAtmel,
        offset < BANK_SIZE,
    ensures
        final(hardware)@ == old(hardware)@.with_chip(
            old(hardware)@.chip.with_cell(
                old(hardware)@.chip.index(offset as int),
                old(hardware)@.chip.cells[old(hardware)@.chip.index(offset as int)] & byte,
            ).storing(byte, remaining(old(hardware)@.chip.program_latency)),
        ),
        result is Ok <==> in_time(old(hardware)@.chip) && old(hardware)@.chip.cells[old(
            hardware,
        )@.chip.index(offset as int)] & byte == byte,
        result is Err ==> result == Err::<(), Error>(Error::OperationTimedOut),
        final(hardware)@.chip.wf(),
{
    send_command(hardware, Command::Write);
    proof {
        let state = hardware@;
        lemma_write_keeps_wf(state.chip, offset as int, byte, state.interrupts_enabled);
    }
    hardware.write_byte(offset, byte);
    proof {
        lemma_status_differs(hardware@.chip);
    }
    verify_byte(hardware, offset, byte, TIMEOUT)
}

/// A writer on a 64KiB flash device.
///
/// This type allows writing data on the range specified upon creation.
///
/// If the memory being written to has been written to previously without being erased, the writes
/// will not succeed.
pub struct Writer64K<'a, H: FlashHardware> {
    /// The hardware, borrowed from the device for as long as this writer lives.
    pub hardware: &'a mut H,
    /// The offset of the next byte to write.
    pub address: usize,
    /// The number of bytes that are left of the range.
    pub len: usize,
}

impl<'a, H: FlashHardware> Writer64K<'a, H> {
    /// The range lies within the chip, and the chip is one of 64KiB that is programmed byte by
    /// byte and is at rest.
    pub open spec fn wf(&self) -> bool {
        &&& self.hardware@.chip.idle()
        &&& self.hardware@.chip.class() == Class::Flash64K
        &&& self.address + self.len <= BANK_SIZE
    }

    /// Creates a writer over the `len` bytes that start at `address`.
    pub fn new_unchecked(hardware: &'a mut H, address: usize, len: usize) -> (writer: Self)
        ensures
            writer.address == address,
            writer.len == len,
            *writer.hardware == *old(hardware),
            *final(writer.hardware) == *final(hardware),
    {
        Self { hardware, address, len }
    }

    /// Programs the bytes of `buf` into the cells of the range, as many as the range still has
    /// room for, and returns how many were written. Each byte is read back until it is there.
    ///
    /// When the range is exhausted, nothing is written and the error is `EndOfWriter`. When a
    /// byte does not read back in time, because its cell was not erased or because the chip is
    /// too slow, the error is `OperationTimedOut`: the writer stays where it was and the bytes
    /// behind the failed one are not written.
    pub fn write(&mut self, buf: &[u8]) -> (result: Result<usize, Error>)
        requires
            old(self).wf(),
        ensures
            *final(final(self).hardware) == *final(old(self).hardware),
            final(self).hardware@.with_chip(old(self).hardware@.chip) == old(self).hardware@,
            final(self).hardware@.chip.busy == 0 ==> final(self).wf(),
            match result {
                Ok(count) => {
                    &&& old(self).len > 0
                    &&& count == accepted(old(self).len, buf@)
                    &&& final(self).address == old(self).address + count
                    &&& final(self).len == old(self).len - count
                    &&& count > 0 ==> in_time(old(self).hardware@.chip)
                    &&& programmable(
                        old(self).hardware@.chip.cells,
                        old(self).address as int,
                        buf@.take(count as int),
                    )
                    &&& final(self).hardware@.chip == programming(
                        old(self).hardware@.chip,
                        old(self).address as int,
                        buf@.take(count as int),
                    )
                    &&& final(self).hardware@.chip.cells == overwritten(
                        old(self).hardware@.chip.cells,
                        old(self).address as int,
                        buf@.take(count as int),
                    )
                    &&& final(self).wf()
                },
                Err(Error::EndOfWriter) => {
                    &&& old(self).len == 0
                    &&& final(self).address == old(self).address
                    &&& final(self).len == old(self).len
                    &&& final(self).hardware@ == old(self).hardware@
                },
                Err(Error::OperationTimedOut) => {
                    &&& old(self).len > 0
                    &&& final(self).address == old(self).address
                    &&& final(self).len == old(self).len
                    &&& exists|k: int| #[trigger]
                        refused_at(
                            old(self).hardware@.chip,
                            old(self).address as int,
                            buf@.take(accepted(old(self).len, buf@) as int),
                            k,
                        ) && final(self).hardware@.chip == programming(
                            old(self).hardware@.chip,
                            old(self).address as int,
                            buf@.take(k + 1),
                        )
                },
                Err(Error::WriteFailure) => false,
            },
    {
        if self.len == 0 {
            return Err(Error::EndOfWriter);
        }
        let limit = if buf.len() <= self.len {
            buf.len()
        } else {
            self.len
        };
        let ghost before = self.hardware@;
        let ghost start = self.address as int;
        let mut write_count: usize = 0;
        while write_count < limit
            invariant
                write_count <= limit,
                limit == accepted(old(self).len, buf@),
                self.address == old(self).address,
                self.len == old(self).len,
                start == self.address,
                before == old(self).hardware@,
                old(self).wf(),
                *final(self.hardware) == *final(old(self).hardware),
                self.wf(),
                write_count > 0 ==> in_time(before.chip),
                programmable(before.chip.cells, start, buf@.take(write_count as int)),
                self.hardware@ == before.with_chip(
                    programming(before.chip, start, buf@.take(write_count as int)),
                ),
            decreases limit - write_count,
        {
            let address = self.address + write_count;
            let byte = buf[write_count];
            let programmed_byte = program_byte(self.hardware, address, byte);
            proof {
                let k = write_count as int;
                assert(buf@.take(k + 1).last() == byte);
                assert(self.hardware@.chip.cells =~= programmed(
                    before.chip.cells,
                    start,
                    buf@.take(k + 1),
                ));
            }
            match programmed_byte {
                Ok(()) => {},
                Err(error) => {
                    proof {
                        let data = buf@.take(limit as int);
                        let k = write_count as int;
                        assert(data.take(k) =~= buf@.take(k));
                        assert(data.take(k + 1) =~= buf@.take(k + 1));
                        assert(refused_at(before.chip, start, data, k));
                    }
                    return Err(error);
                },
            }
            assert(programmable(before.chip.cells, start, buf@.take(write_count + 1)));
            write_count += 1;
        }
        proof {
            lemma_programmed_is_overwritten(
                before.chip.cells,
                start,
                buf@.take(write_count as int),
            );
        }
        self.address = self.address + write_count;
        self.len = self.len - write_count;
        Ok(write_count)
    }

    /// Does nothing: every byte is in its cell when `write` returns.
    pub fn flush(&mut self) -> (result: Result<(), Error>)
        ensures
            result is Ok,
            *final(self) == *old(self),
    {
        Ok(())
    }
}

/// The bank that is addressed after a writer that had `bank` addressed has gone over the
/// `count` bytes from `address` on: the bank of the last of them.
pub open spec fn bank_written(bank: Bank, address: int, count: int) -> Bank {
    if count <= 0 {
        bank
    } else {
        bank_of(address + count - 1)
    }
}

/// The number of times that a writer which had `bank` addressed selects a bank while it goes
/// over the `count` bytes from `address` on: once if the first of them lies in the other bank,
/// and once if the bytes reach from the first bank into the second.
pub open spec fn switches_written(bank: Bank, address: int, count: int) -> nat {
    if count <= 0 {
        0
    } else {
        let to_first: nat = if bank != bank_of(address) {
            1
        } else {
            0
        };
        let across: nat = if address < BANK_SIZE && address + count > BANK_SIZE {
            1
        } else {
            0
        };
        to_first + across
    }
}

/// A writer on a 128KiB flash device.
///
/// This type allows writing data on the range specified upon creation.
///
/// If the memory being written to has been written to previously without being erased, the writes
/// will not succeed.
pub struct Writer128K<'a, H: FlashHardware> {
    /// The hardware, borrowed from the device for as long as this writer lives.
    pub hardware: &'a mut H,
    /// The number, among the bytes of both banks, of the next byte to write.
    pub address: usize,
    /// The number of bytes that are left of the range.
    pub len: usize,
    /// The bank that is addressed.
    pub bank: Bank,
}

impl<'a, H: FlashHardware> Writer128K<'a, H> {
    /// The range lies within the chip, the chip has two banks, and it addresses the bank that
    /// this writer takes to be addressed.
    pub open spec fn fits(&self) -> bool {
        &&& self.hardware@.chip.wf()
        &&& self.hardware@.chip.class() == Class::Flash128K
        &&& self.hardware@.chip.bank == self.bank.spec_number()
        &&& self.address + self.len <= 2 * BANK_SIZE
    }

    /// The range lies within the chip, the chip has two banks and is at rest, and it addresses
    /// the bank that this writer takes to be addressed.
    pub open spec fn wf(&self) -> bool {
        &&& self.fits()
        &&& self.hardware@.chip.idle()
    }

    /// Creates a writer over the `len` bytes that start at `address`, and selects the bank that
    /// holds the first of them.
    pub fn new_unchecked(hardware: &'a mut H, address: usize, len: usize) -> (writer: Self)
        requires
            old(hardware)@.chip.idle(),
            old(hardware)@.chip.class() == Class::Flash128K,
            address + len <= 2 * BANK_SIZE,
        ensures
            writer.wf(),
            writer.address == address,
            writer.len == len,
            writer.bank == bank_of(address as int),
            writer.hardware@ == old(hardware)@.with_chip(
                old(hardware)@.chip.with_bank(bank_of(address as int).spec_number() as int, 1),
            ),
            *final(writer.hardware) == *final(hardware),
    {
        let bank = if address < BANK_SIZE {
            Bank::_0
        } else {
            Bank::_1
        };
        switch_bank(hardware, bank);
        Self { hardware, address, len, bank }
    }

    /// Programs the bytes of `buf` into the cells of the range, as many as the range still has
    /// room for, and returns how many were written. Each byte is read back until it is there.
    /// The bank of a byte is selected before the byte is written, unless it is addressed already.
    ///
    /// When the range is exhausted, nothing is written and the error is `EndOfWriter`. When a
    /// byte does not read back in time, because its cell was not erased or because the chip is
    /// too slow, the error is `OperationTimedOut`: the writer stays where it was and the bytes
    /// behind the failed one are not written.
    pub fn write(&mut self, buf: &[u8]) -> (result: Result<usize, Error>)
        requires
            old(self).wf(),
        ensures
            *final(final(self).hardware) == *final(old(self).hardware),
            final(self).hardware@.with_chip(old(self).hardware@.chip) == old(self).hardware@,
            final(self).fits(),
            final(self).hardware@.chip.busy == 0 ==> final(self).wf(),
            match result {
                Ok(count) => {
                    &&& old(self).len > 0
                    &&& count == accepted(old(self).len, buf@)
                    &&& final(self).address == old(self).address + count
                    &&& final(self).len == old(self).len - count
                    &&& final(self).bank == bank_written(
                        old(self).bank,
                        old(self).address as int,
                        count as int,
                    )
                    &&& count > 0 ==> in_time(old(self).hardware@.chip)
                    &&& programmable(
                        old(self).hardware@.chip.cells,
                        old(self).address as int,
                        buf@.take(count as int),
                    )
                    &&& final(self).hardware@.chip == programming(
                        old(self).hardware@.chip,
                        old(self).address as int,
                        buf@.take(count as int),
                    ).with_bank(
                        final(self).bank.spec_number() as int,
                        switches_written(old(self).bank, old(self).address as int, count as int),
                    )
                    &&& final(self).hardware@.chip.cells == overwritten(
                        old(self).hardware@.chip.cells,
                        old(self).address as int,
                        buf@.take(count as int),
                    )
                    &&& final(self).wf()
                },
                Err(Error::EndOfWriter) => {
                    &&& old(self).len == 0
                    &&& final(self).address == old(self).address
                    &&& final(self).len == old(self).len
                    &&& final(self).bank == old(self).bank
                    &&& final(self).hardware@ == old(self).hardware@
                },
                Err(Error::OperationTimedOut) => {
                    &&& old(self).len > 0
                    &&& final(self).address == old(self).address
                    &&& final(self).len == old(self).len
                    &&& exists|k: int| #[trigger]
                        refused_at(
                            old(self).hardware@.chip,
                            old(self).address as int,
                            buf@.take(accepted(old(self).len, buf@) as int),
                            k,
                        ) && final(self).bank == bank_written(
                            old(self).bank,
                            old(self).address as int,
                            k + 1,
                        ) && final(self).hardware@.chip == programming(
                            old(self).hardware@.chip,
                            old(self).address as int,
                            buf@.take(k + 1),
                        ).with_bank(
                            final(self).bank.spec_number() as int,
                            switches_written(old(self).bank, old(self).address as int, k + 1),
                        )
                },
                Err(Error::WriteFailure) => false,
            },
    {
        if self.len == 0 {
            return Err(Error::EndOfWriter);
        }
        let limit = if buf.len() <= self.len {
            buf.len()
        } else {
            self.len
        };
        let ghost before = self.hardware@;
        let ghost start = self.address as int;
        let ghost first = self.bank;
        let mut write_count: usize = 0;
        assert(before.chip.with_bank(first.spec_number() as int, 0) == before.chip);
        while write_count < limit
            invariant
                write_count <= limit,
                limit == accepted(old(self).len, buf@),
                self.address == old(self).address,
                self.len == old(self).len,
                start == self.address,
                first == old(self).bank,
                before == old(self).hardware@,
                old(self).wf(),
                *final(self.hardware) == *final(old(self).hardware),
                self.wf(),
                self.bank == bank_written(first, start, write_count as int),
                write_count > 0 ==> in_time(before.chip),
                programmable(before.chip.cells, start, buf@.take(write_count as int)),
                self.hardware@ == before.with_chip(
                    programming(before.chip, start, buf@.take(write_count as int)).with_bank(
                        self.bank.spec_number() as int,
                        switches_written(first, start, write_count as int),
                    ),
                ),
            decreases limit - write_count,
        {
            let mut address = self.address + write_count;
            let bank = if address < BANK_SIZE {
                Bank::_0
            } else {
                Bank::_1
            };
            if bank != self.bank {
                self.bank = bank;
                switch_bank(self.hardware, bank);
            }
            match bank {
                Bank::_0 => {},
                Bank::_1 => {
                    address = address - BANK_SIZE;
                },
            }
            let byte = buf[write_count];
            let programmed_byte = program_byte(self.hardware, address, byte);
            proof {
                let k = write_count as int;
                assert(buf@.take(k + 1).last() == byte);
                assert(self.hardware@.chip.cells =~= programmed(
                    before.chip.cells,
                    start,
                    buf@.take(k + 1),
                ));
            }
            match programmed_byte {
                Ok(()) => {},
                Err(error) => {
                    proof {
                        let data = buf@.take(limit as int);
                        let k = write_count as int;
                        assert(data.take(k) =~= buf@.take(k));
                        assert(data.take(k + 1) =~= buf@.take(k + 1));
                        assert(refused_at(before.chip, start, data, k));
                    }
                    return Err(error);
                },
            }
            assert(programmable(before.chip.cells, start, buf@.take(write_count + 1)));
            write_count += 1;
        }
        proof {
            lemma_programmed_is_overwritten(
                before.chip.cells,
                start,
                buf@.take(write_count as int),
            );
        }
        self.address = self.address + write_count;
        self.len = self.len - write_count;
        Ok(write_count)
    }

    /// Does nothing: every byte is in its cell when `write` returns.
    pub fn flush(&mut self) -> (result: Result<(), Error>)
        ensures
            result is Ok,
            *final(self) == *old(self),
    {
        Ok(())
    }
}

} // verus!
