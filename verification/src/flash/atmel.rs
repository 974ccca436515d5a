use crate::contents::overwritten;
use crate::flash::command::lemma_status_differs;
use crate::flash::command::remaining;
use crate::flash::command::send_command;
use crate::flash::command::verify_bytes;
use crate::flash::command::Command;
use crate::flash::command::TIMEOUT;
use crate::flash::device::Class;
use crate::flash::hardware::lemma_keeps_overwritten;
use crate::flash::hardware::lemma_write_keeps_wf;
use crate::flash::hardware::FlashChip;
use crate::flash::hardware::FlashHardware;
use crate::flash::hardware::Stage;
use crate::flash::hardware::BANK_SIZE;
use crate::flash::hardware::PAGE_SIZE;
use crate::flash::writer::accepted;
use crate::flash::writer::in_time;
use crate::flash::Error;
use vstd::prelude::*;

verus! {

/// Reads the bytes of a page from `from` up to `to` into their places in `page`, where the
/// page starts at `base`.
fn load<H: FlashHardware>(
    hardware: &mut H,
    page: &mut [u8; 128],
    base: usize,
    from: usize,
    to: usize,
)
    requires
        old(hardware)@.chip.idle(),
        from <= to <= PAGE_SIZE,
        base + PAGE_SIZE <= BANK_SIZE,
    ensures
        final(hardware)@ == old(hardware)@,
        forall|i: int| from <= i < to ==> final(page)@[i] == old(hardware)@.chip.read(base + i),
        forall|i: int| 0 <= i < from || to <= i < PAGE_SIZE ==> final(page)@[i] == old(page)@[i],
{
    let mut i = from;
    while i < to
        invariant
            from <= i <= to,
            to <= PAGE_SIZE,
            base + PAGE_SIZE <= BANK_SIZE,
            hardware@ == old(hardware)@,
            hardware@.chip.idle(),
            forall|j: int| from <= j < i ==> page@[j] == old(hardware)@.chip.read(base + j),
            forall|j: int| 0 <= j < from || i <= j < PAGE_SIZE ==> page@[j] == old(page)@[j],
        decreases to - i,
    {
        let value = hardware.read_byte(base + i);
        page[i] = value;
        i += 1;
    }
}

/// The last address up to `address` at which a page starts.
pub open spec fn page_of(address: int) -> int {
    address - address % (PAGE_SIZE as int)
}

/// The chip after a writer has taken on `data` from `address` on, where `target` is what the
/// chip was to hold before, and every page that was completed was programmed in time: the chip
/// holds the bytes of `data` that lie before the last page that was begun and not completed.
/// Where no page was completed, nothing has happened.
pub open spec fn after_writing(
    before: FlashChip,
    target: Seq<u8>,
    address: int,
    data: Seq<u8>,
) -> FlashChip {
    let end = page_of(address + data.len());
    if end <= address {
        before
    } else {
        before.with_cells(overwritten(target, address, data.take(end - address))).storing(
            data[end - address - 1],
            0,
        )
    }
}

/// The page of `cells` in which `address` lies.
pub open spec fn page_at(cells: Seq<u8>, address: int) -> Seq<u8> {
    cells.subrange(page_of(address), page_of(address) + PAGE_SIZE)
}

/// What it comes to when the page `image` is handed to `chip` to be programmed: the operation
/// times out if the chip is not done in time or does not keep the last byte of the page, and
/// fails if it does both, but does not keep the page as it is.
pub open spec fn page_result(chip: FlashChip, image: Seq<u8>) -> Result<(), Error> {
    if !in_time(chip) || chip.keep(image.last()) != image.last() {
        Err(Error::OperationTimedOut)
    } else if chip.kept(image) {
        Ok(())
    } else {
        Err(Error::WriteFailure)
    }
}

/// Where a page is to hold the bytes `image` up to the byte `offset`, and then `byte`, it is
/// to hold after that what it was to hold before, with `byte` behind it.
proof fn lemma_byte_target(cells: Seq<u8>, base: int, image: Seq<u8>, offset: int, byte: u8)
    requires
        image.len() == PAGE_SIZE,
        0 <= offset < PAGE_SIZE,
        0 <= base,
        base + PAGE_SIZE <= cells.len(),
    ensures
        overwritten(cells, base, image.update(offset, byte).take(offset + 1)) == overwritten(
            overwritten(cells, base, image.take(offset)),
            base + offset,
            seq![byte],
        ),
{
    assert(overwritten(cells, base, image.update(offset, byte).take(offset + 1)) =~= overwritten(
        overwritten(cells, base, image.take(offset)),
        base + offset,
        seq![byte],
    ));
}

/// A writer on a 64KiB Atmel flash device.
///
/// This type allows writing data on the range specified upon creation.
pub struct Writer64KAtmel<'a, H: FlashHardware> {
    /// The hardware, borrowed from the device for as long as this writer lives.
    pub hardware: &'a mut H,
    /// The offset of the next byte to write.
    pub address: usize,
    /// The number of bytes that are left of the range.
    pub len: usize,
    /// The bytes of the page that is being filled.
    pub buf: [u8; 128],
    /// Whether the chip holds every byte that was written.
    pub flushed: bool,
}

impl<'a, H: FlashHardware> Writer64KAtmel<'a, H> {
    /// The state of the hardware that this writer writes to.
    pub open spec fn state(&self) -> crate::flash::hardware::FlashState {
        self.hardware@
    }

    /// How far into its page the next byte lies.
    pub open spec fn offset(&self) -> int {
        self.address as int % PAGE_SIZE as int
    }

    /// The offset at which the bytes begin that are held back.
    pub open spec fn staged_at(&self) -> int {
        if self.flushed {
            self.address as int
        } else if self.offset() == 0 {
            self.address - PAGE_SIZE
        } else {
            self.address - self.offset()
        }
    }

    /// The bytes that are held back: those of the page that is being filled, up to the next
    /// byte to write.
    pub open spec fn staged(&self) -> Seq<u8> {
        if self.flushed {
            Seq::empty()
        } else if self.offset() == 0 {
            self.buf@
        } else {
            self.buf@.take(self.offset())
        }
    }

    /// The cells as they are once the bytes that are held back are written.
    pub open spec fn target(&self) -> Seq<u8> {
        overwritten(self.hardware@.chip.cells, self.staged_at(), self.staged())
    }

    /// The range lies within the chip, and the chip is one that is programmed in pages.
    pub open spec fn fits(&self) -> bool {
        &&& self.hardware@.chip.wf()
        &&& self.hardware@.chip.class() == Class::Flash64KAtmel
        &&& self.address + self.len <= BANK_SIZE
    }

    /// The range lies within the chip, and the chip is one that is programmed in pages and is
    /// at rest. Where nothing is held back, the page that is being filled holds what the chip
    /// holds. Where a whole page is held back, it lies within the chip.
    pub open spec fn flushable(&self) -> bool {
        &&& self.fits()
        &&& self.hardware@.chip.idle()
        &&& self.flushed ==> self.buf@.take(self.offset())
            == self.hardware@.chip.cells.subrange(
            self.address - self.offset(),
            self.address as int,
        )
        &&& !self.flushed && self.offset() == 0 ==> self.address >= PAGE_SIZE
    }

    /// The writer can be flushed and can take a byte: no whole page is held back.
    pub open spec fn wf(&self) -> bool {
        &&& self.flushable()
        &&& !self.flushed ==> self.offset() != 0
    }

    /// Whether this writer can be what a call of `flush` that returned `result` has made of the
    /// writer `before`.
    ///
    /// Where bytes were held back, the page was handed to the chip, which holds what it keeps
    /// of what it was to hold; the result is `OperationTimedOut` if the chip was not done in
    /// time or the last byte of the page does not read back, `WriteFailure` if another byte
    /// does not, and `Ok` else. Where none were, nothing has changed and the result is `Ok`.
    pub open spec fn was_flushed(&self, before: Self, result: Result<(), Error>) -> bool {
        let chip = before.hardware@.chip;
        let image = page_at(before.target(), before.staged_at());
        &&& self.fits()
        &&& self.address == before.address
        &&& self.len == before.len
        &&& self.flushed
        &&& result is Ok ==> self.wf()
        &&& result is Ok ==> self.target() == before.target()
        &&& if before.flushed {
            &&& result is Ok
            &&& self.hardware@ == before.hardware@
        } else {
            &&& result == page_result(chip, image)
            &&& self.hardware@ == before.hardware@.with_chip(
                chip.with_cells(chip.keeps(before.target())).storing(
                    image.last(),
                    remaining(chip.program_latency),
                ),
            )
        }
    }

    /// Whether this writer can be what a call of `write` with `buf` that returned `result` has
    /// made of the writer `before`.
    ///
    /// With `Ok`, the bytes are taken on: what the chip is to hold is what it was to hold with
    /// those bytes from the address of `before` on, and the chip holds as much of it as lies in
    /// the pages that were completed, each of which was programmed in time and read back as it
    /// was handed over. With `EndOfWriter`, the range was exhausted and nothing has changed.
    /// With another error, a page was completed and did not read back in time as it was handed
    /// over: the writer is at the end of the first such page, of which the chip holds what it
    /// keeps, and the pages before it are as they were to be.
    pub open spec fn wrote(&self, before: Self, buf: Seq<u8>, result: Result<usize, Error>) -> bool {
        let chip = before.hardware@.chip;
        let intended = overwritten(
            before.target(),
            before.address as int,
            buf.take(self.address - before.address),
        );
        &&& self.fits()
        &&& self.hardware@.with_chip(chip) == before.hardware@
        &&& match result {
            Ok(count) => {
                &&& before.len > 0
                &&& count == accepted(before.len, buf)
                &&& self.wf()
                &&& self.address == before.address + count
                &&& self.len == before.len - count
                &&& self.flushed == if count == 0 {
                    before.flushed
                } else {
                    self.offset() == 0
                }
                &&& self.target() == intended
                &&& self.hardware@.chip == after_writing(
                    chip,
                    before.target(),
                    before.address as int,
                    buf.take(count as int),
                )
                &&& before.offset() + count >= PAGE_SIZE ==> in_time(chip)
            },
            Err(Error::EndOfWriter) => {
                &&& before.len == 0
                &&& *self == before
            },
            Err(error) => {
                &&& before.len > 0
                &&& before.address < self.address <= before.address + accepted(before.len, buf)
                &&& self.offset() == 0
                &&& self.len == before.len - (self.address - before.address)
                &&& self.flushed
                &&& page_result(chip, page_at(intended, self.address - 1)) == Err::<(), Error>(
                    error,
                )
                &&& intended.take(self.address - PAGE_SIZE) == chip.keeps(intended).take(
                    self.address - PAGE_SIZE,
                )
                &&& self.hardware@.chip == chip.with_cells(chip.keeps(intended)).storing(
                    intended[self.address - 1],
                    remaining(chip.program_latency),
                )
            },
        }
    }

    /// Creates a writer over the `len` bytes that start at `address`. Where `address` lies
    /// within a page, the bytes of the page before it are read, so that they are kept when the
    /// page is written, and the writer counts as not flushed.
    pub fn new_unchecked(hardware: &'a mut H, address: usize, len: usize) -> (writer: Self)
        requires
            old(hardware)@.chip.idle(),
            old(hardware)@.chip.class() == Class::Flash64KAtmel,
            address + len <= BANK_SIZE,
        ensures
            writer.wf(),
            writer.address == address,
            writer.len == len,
            writer.flushed == (address % PAGE_SIZE == 0),
            writer.hardware@ == old(hardware)@,
            writer.target() == old(hardware)@.chip.cells,
            *final(writer.hardware) == *final(hardware),
    {
        let mut buf = [0xff;128];
        let mut flushed = true;

        // Read data in case of unalignment.
        let offset = address % PAGE_SIZE;
        if offset != 0 {
            load(hardware, &mut buf, address - offset, 0, offset);
            flushed = false;
        }
        let writer = Self { hardware, address, len, buf, flushed };
        proof {
            assert(writer.target() =~= writer.hardware@.chip.cells);
            assert(writer.buf@.take(writer.offset()) =~= writer.hardware@.chip.cells.subrange(
                writer.address - writer.offset(),
                writer.address as int,
            ));
        }
        writer
    }

    /// Takes on the bytes of `buf`, as many as the range still has room for, and returns how
    /// many. Whenever a page is full, it is written to the chip; the bytes of a page that is
    /// not full are held back until `flush` is called.
    ///
    /// When the range is exhausted, nothing is taken and the error is `EndOfWriter`. When a
    /// page that was handed to the chip does not read back in time as it was handed over, the
    /// error is `OperationTimedOut` or `WriteFailure`, as with `flush`: the writer is then at the
    /// end of that page, and the bytes behind it are not taken.
    #[verifier::rlimit(50)]
    pub fn write(&mut self, buf: &[u8]) -> (result: Result<usize, Error>)
        requires
            old(self).wf(),
        ensures
            *final(final(self).hardware) == *final(old(self).hardware),
            final(self).wrote(*old(self), buf@, result),
    {
        if self.len == 0 {
            return Err(Error::EndOfWriter);
        }
        let limit = if buf.len() <= self.len {
            buf.len()
        } else {
            self.len
        };
        let ghost before = self.hardware@;
        let ghost start = self.address as int;
        let ghost goal = self.target();
        let mut write_count: usize = 0;
        assert(overwritten(goal, start, buf@.take(0)) =~= goal);
        while write_count < limit
            invariant
                write_count <= limit,
                limit == accepted(old(self).len, buf@),
                old(self).len > 0,
                old(self).wf(),
                self.address == old(self).address + write_count,
                self.len == old(self).len - write_count,
                start == old(self).address,
                before == old(self).hardware@,
                goal == old(self).target(),
                goal.len() == before.chip.cells.len(),
                *final(self.hardware) == *final(old(self).hardware),
                self.wf(),
                self.hardware@.with_chip(before.chip) == before,
                self.target() == overwritten(goal, start, buf@.take(write_count as int)),
                self.hardware@.chip == after_writing(
                    before.chip,
                    goal,
                    start,
                    buf@.take(write_count as int),
                ),
                self.flushed == if write_count == 0 {
                    old(self).flushed
                } else {
                    self.offset() == 0
                },
                old(self).offset() + write_count >= PAGE_SIZE ==> in_time(before.chip),
                self.hardware@.chip == before.chip.with_cells(self.hardware@.chip.cells).storing(
                    self.hardware@.chip.pending,
                    0,
                ),
            decreases limit - write_count,
        {
            let ghost k = write_count as int;
            let ghost at = self.address as int;
            let ghost was = self.target();
            let ghost held = self.hardware@.chip;
            let pushed = self.push(buf[write_count]);
            write_count += 1;
            proof {
                let next = overwritten(goal, start, buf@.take(k + 1));
                assert(overwritten(was, at, seq![buf@[k]]) =~= next);
                if at % 128 == 127 {
                    assert(page_of(start + k + 1) == at + 1);
                    assert(buf@.take(k + 1).take(at + 1 - start) =~= buf@.take(k + 1));
                    if pushed is Ok {
                        assert(self.target() =~= self.hardware@.chip.cells);
                    }
                    if old(self).offset() + k >= PAGE_SIZE {
                    } else {
                        assert(k + 1 == PAGE_SIZE - old(self).offset());
                        assert(page_of(start + k) <= start);
                    }
                } else {
                    assert(page_of(start + k + 1) == page_of(start + k));
                    let end = page_of(start + k);
                    if end > start {
                        assert(buf@.take(k + 1).take(end - start) =~= buf@.take(k).take(end - start));
                    }
                }
            }
            match pushed {
                Ok(()) => {},
                Err(error) => {
                    proof {
                        let intended = overwritten(goal, start, buf@.take(k + 1));
                        assert forall|j: int| 0 <= j < at + 1 - PAGE_SIZE implies intended.take(
                            at + 1 - PAGE_SIZE,
                        )[j] == #[trigger] before.chip.keeps(intended).take(at + 1 - PAGE_SIZE)[j] by {
                            assert(intended[j] == was[j]);
                            assert(was[j] == held.cells[j]);
                            assert(held.keep(held.cells[j]) == held.cells[j]);
                        }
                        assert(intended.take(at + 1 - PAGE_SIZE) =~= before.chip.keeps(intended).take(
                            at + 1 - PAGE_SIZE,
                        ));
                        assert(page_result(before.chip, page_at(intended, at)) == Err::<(), Error>(
                            error,
                        ));
                        assert(held.keeps(intended) == before.chip.keeps(intended));
                        assert(self.hardware@.chip == held.with_cells(held.keeps(intended)).storing(
                            buf@[k],
                            remaining(held.program_latency),
                        ));
                    }
                    return Err(error);
                },
            }
        }
        Ok(write_count)
    }

    /// Takes on `byte`, and writes the page that is being filled to the chip if this is the
    /// last byte of it.
    fn push(&mut self, byte: u8) -> (result: Result<(), Error>)
        requires
            old(self).wf(),
            old(self).len > 0,
        ensures
            *final(final(self).hardware) == *final(old(self).hardware),
            final(self).fits(),
            final(self).address == old(self).address + 1,
            final(self).len == old(self).len - 1,
            final(self).flushed == (final(self).offset() == 0),
            ({
                let chip = old(self).hardware@.chip;
                let next = overwritten(old(self).target(), old(self).address as int, seq![byte]);
                &&& result is Ok ==> final(self).wf()
                &&& result is Ok ==> final(self).target() == next
                &&& if old(self).offset() == PAGE_SIZE - 1 {
                    &&& result == page_result(chip, page_at(next, old(self).address as int))
                    &&& final(self).hardware@ == old(self).hardware@.with_chip(
                        chip.with_cells(chip.keeps(next)).storing(
                            byte,
                            remaining(chip.program_latency),
                        ),
                    )
                } else {
                    &&& result is Ok
                    &&& final(self).hardware@ == old(self).hardware@
                }
            }),
    {
        self.stage(byte);
        if self.address % PAGE_SIZE == 0 {
            self.flush()
        } else {
            Ok(())
        }
    }

    /// Puts `byte` into its place in the page that is being filled, and goes on to the next
    /// byte.
    fn stage(&mut self, byte: u8)
        requires
            old(self).wf(),
            old(self).len > 0,
        ensures
            *final(final(self).hardware) == *final(old(self).hardware),
            final(self).hardware@ == old(self).hardware@,
            final(self).flushable(),
            final(self).address == old(self).address + 1,
            final(self).len == old(self).len - 1,
            !final(self).flushed,
            final(self).staged_at() == page_of(old(self).address as int),
            final(self).target() == overwritten(
                old(self).target(),
                old(self).address as int,
                seq![byte],
            ),
    {
        let ghost goal = self.target();
        let ghost cells = self.hardware@.chip.cells;
        let ghost old_image = self.buf@;
        let offset = self.address % PAGE_SIZE;
        let ghost base = self.address - offset;
        proof {
            assert(goal =~= overwritten(cells, base, old_image.take(offset as int)));
        }
        self.buf[offset] = byte;
        self.flushed = false;
        self.address = self.address + 1;
        self.len = self.len - 1;
        proof {
            lemma_byte_target(cells, base, old_image, offset as int, byte);
            assert(self.buf@ =~= old_image.update(offset as int, byte));
            assert(self.buf@.take(PAGE_SIZE as int) =~= self.buf@);
        }
    }

    /// Returns the number of bytes that are held back.
    pub fn unflushed(&self) -> (count: usize)
        ensures
            count == if self.flushed {
                0
            } else {
                self.offset()
            },
    {
        if self.flushed {
            0
        } else {
            self.address % PAGE_SIZE
        }
    }

    /// Writes what is held back to the chip, as `flush` does, and gives the hardware back to
    /// the device.
    ///
    /// When the last byte of the page does not read back in time, the error is
    /// `OperationTimedOut`. When it does, and the page is not what was handed to the chip, the
    /// error is `WriteFailure`.
    pub fn close(self) -> (result: Result<(), Error>)
        requires
            self.flushable(),
        ensures
            self.flushed ==> result is Ok,
            !self.flushed ==> result == page_result(
                old(self.hardware)@.chip,
                page_at(self.target(), self.staged_at()),
            ),
            final(self.hardware)@ == if self.flushed {
                old(self.hardware)@
            } else {
                old(self.hardware)@.with_chip(
                    old(self.hardware)@.chip.with_cells(
                        old(self.hardware)@.chip.keeps(self.target()),
                    ).storing(
                        self.target()[self.staged_at() + PAGE_SIZE - 1],
                        remaining(old(self.hardware)@.chip.program_latency),
                    ),
                )
            },
    {
        let mut writer = self;
        writer.flush()
    }

    /// Writes the page that is being filled to the chip, unless nothing is held back. The
    /// bytes of the page that were never written are read from the chip first, so that they
    /// are kept. Interrupts are off while the page is handed to the chip, and are as they were
    /// afterwards. Then the last byte of the page is read back until it is there, and the page
    /// is compared with what was handed to the chip.
    ///
    /// When the last byte of the page does not read back in time, the error is
    /// `OperationTimedOut`. When it does, and the page is not what was handed to the chip, the
    /// error is `WriteFailure`.
    pub fn flush(&mut self) -> (result: Result<(), Error>)
        requires
            old(self).flushable(),
        ensures
            *final(final(self).hardware) == *final(old(self).hardware),
            final(self).was_flushed(*old(self), result),
    {
        if self.flushed {
            assert(self.target() =~= self.hardware@.chip.cells);
            return Ok(());
        }
        let ghost before = self.hardware@;
        let ghost goal = self.target();

        self.flushed = true;

        // Read any remaining bytes at the back of the buffer.
        let offset = self.address % PAGE_SIZE;
        let offset_address = self.address - if offset == 0 {
            PAGE_SIZE
        } else {
            offset
        };
        if offset != 0 {
            load(self.hardware, &mut self.buf, offset_address, offset, PAGE_SIZE);
        }
        assert(goal =~= overwritten(before.chip.cells, offset_address as int, self.buf@));

        // Disable interrupts, storing the previous value.
        //
        // This prevents anything from interrupting during writes to memory.
        let previous_ime = self.hardware.interrupts_enabled();
        self.hardware.set_interrupts_enabled(false);

        send_command(self.hardware, Command::Write);
        let mut i: usize = 0;
        let ghost image = self.buf@;
        let ghost stored = before.chip.keeps(image);
        assert(overwritten(before.chip.cells, offset_address as int, stored.take(0))
            =~= before.chip.cells);
        while i < PAGE_SIZE - 1
            invariant
                i <= PAGE_SIZE - 1,
                offset_address + PAGE_SIZE <= BANK_SIZE,
                before.chip.idle(),
                before.chip.class() == Class::Flash64KAtmel,
                self.buf@ == image,
                stored == before.chip.keeps(image),
                self.address == old(self).address,
                self.len == old(self).len,
                self.flushed,
                *final(self.hardware) == *final(old(self).hardware),
                self.hardware@.chip.wf(),
                self.hardware@ == before.with_interrupts_enabled(false).with_chip(
                    FlashChip {
                        stage: Stage::Page((PAGE_SIZE - i) as nat),
                        ..before.chip.with_cells(
                            overwritten(before.chip.cells, offset_address as int, stored.take(i as int)),
                        )
                    },
                ),
            decreases PAGE_SIZE - i,
        {
            let byte = self.buf[i];
            proof {
                let state = self.hardware@;
                lemma_write_keeps_wf(state.chip, offset_address + i, byte, state.interrupts_enabled);
            }
            self.hardware.write_byte(offset_address + i, byte);
            assert(overwritten(before.chip.cells, offset_address as int, stored.take(i + 1))
                =~= overwritten(
                before.chip.cells,
                offset_address as int,
                stored.take(i as int),
            ).update(offset_address + i, before.chip.keep(byte)));
            i += 1;
        }
        let last = self.buf[PAGE_SIZE - 1];
        proof {
            let state = self.hardware@;
            lemma_write_keeps_wf(
                state.chip,
                offset_address + PAGE_SIZE - 1,
                last,
                state.interrupts_enabled,
            );
        }
        self.hardware.write_byte(offset_address + (PAGE_SIZE - 1), last);
        proof {
            assert(stored.take(PAGE_SIZE as int) =~= stored);
            assert(overwritten(before.chip.cells, offset_address as int, stored) =~= overwritten(
                before.chip.cells,
                offset_address as int,
                stored.take(PAGE_SIZE - 1),
            ).update(offset_address + PAGE_SIZE - 1, before.chip.keep(last)));
            lemma_keeps_overwritten(before.chip, before.chip.cells, offset_address as int, image);
        }

        // Restore previous interrupt enable value.
        self.hardware.set_interrupts_enabled(previous_ime);
        let ghost programmed = self.hardware@;
        assert(programmed == before.with_chip(
            before.chip.with_cells(before.chip.keeps(goal)).storing(
                last,
                before.chip.program_latency,
            ),
        ));

        let verified = verify_bytes(self.hardware, offset_address, self.buf.as_slice(), TIMEOUT);
        proof {
            lemma_status_differs(programmed.chip);
            let limit = crate::flash::command::spec_limit(TIMEOUT);
            let waited = programmed.chip.after_verify(offset_address + PAGE_SIZE - 1, last, limit);
            assert(page_at(goal, old(self).staged_at()) =~= image);
            assert(programmed.chip.settled_read(offset_address + PAGE_SIZE - 1)
                == before.chip.keep(last));
            if programmed.chip.verifies(offset_address + PAGE_SIZE - 1, last, limit) {
                assert(waited.busy == 0);
                assert(waited.bytes(offset_address as int, PAGE_SIZE as int) =~= stored);
                assert(waited.after_reads(PAGE_SIZE as nat) == waited);
            }
            if verified is Ok {
                assert(self.target() =~= goal);
                assert(self.buf@.take(self.offset()) =~= self.hardware@.chip.cells.subrange(
                    self.address - self.offset(),
                    self.address as int,
                ));
            }
        }
        verified
    }
}

} // verus!
