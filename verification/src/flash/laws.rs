//! What holds of a write to flash and the reads that follow it.

use crate::contents::lemma_written_cells;
use crate::contents::overwritten;
use crate::flash::atmel::Writer64KAtmel;
use crate::flash::hardware::programmable;
use crate::flash::hardware::FlashChip;
use crate::flash::hardware::FlashHardware;
use crate::flash::hardware::BANK_SIZE;
use crate::flash::hardware::ERASED;
use crate::flash::atmel::page_result;
use crate::flash::writer::in_time;
use crate::flash::Error;
use crate::flash::writer::refused_at;
use vstd::prelude::*;

verus! {

/// What a reader returns from a chip that is at rest: the cells of the bank that is addressed.
/// On a chip of 64KiB, which has one bank, these are the cells at the offsets read.
pub proof fn lemma_read_at_rest(chip: FlashChip, offset: int, count: int)
    requires
        chip.idle(),
        0 <= offset,
        0 <= count,
        offset + count <= BANK_SIZE,
    ensures
        chip.bytes(offset, count) == chip.cells.subrange(
            chip.index(offset),
            chip.index(offset) + count,
        ),
        chip.banks() == 1 ==> chip.index(offset) == offset,
{
    assert(chip.bytes(offset, count) =~= chip.cells.subrange(
        chip.index(offset),
        chip.index(offset) + count,
    ));
}

/// A write that succeeded is read back as it was written: where a chip of 64KiB at rest holds
/// what it held before with `data` in place from `address` on, a read of the `count` bytes that
/// start `from` bytes behind `address` returns the `count` bytes of `data` that start at `from`.
pub proof fn lemma_write_then_read(
    before: FlashChip,
    after: FlashChip,
    address: int,
    data: Seq<u8>,
    from: int,
    count: int,
)
    requires
        after.idle(),
        after.banks() == 1,
        after.cells == overwritten(before.cells, address, data),
        0 <= address,
        address + data.len() <= BANK_SIZE,
        0 <= from,
        0 <= count,
        from + count <= data.len(),
    ensures
        after.bytes(address + from, count) == data.subrange(from, from + count),
{
    lemma_read_at_rest(after, address + from, count);
    lemma_written_cells(before.cells, address, data, from, count);
}

/// Erased cells read as erased: after the `erased` cells from `index` on of a sound chip were
/// erased, each of them holds `0xff`, and every other cell holds what it held.
pub proof fn lemma_erased_cells(chip: FlashChip, index: int, erased: int)
    requires
        chip.sound(),
        0 <= index,
        0 <= erased,
        index + erased <= chip.cells.len(),
    ensures
        chip.with_erased(index, erased).cells.len() == chip.cells.len(),
        forall|i: int| index <= i < index + erased ==> chip.with_erased(index, erased).cells[i] == ERASED,
        forall|i: int|
            0 <= i < chip.cells.len() && !(index <= i < index + erased) ==> chip.with_erased(
                index,
                erased,
            ).cells[i] == chip.cells[i],
{
}

/// After the whole of a sound chip was erased, every byte that is read from it is `0xff`.
pub proof fn lemma_reset_reads_erased(chip: FlashChip, offset: int, count: int)
    requires
        chip.idle(),
        chip.sound(),
        0 <= offset,
        0 <= count,
        offset + count <= BANK_SIZE,
    ensures
        forall|i: int|
            0 <= i < count ==> chip.with_erased(0, chip.cells.len() as int).storing(
                ERASED,
                0,
            ).bytes(offset, count)[i] == ERASED,
{
}

/// A write to a chip of 128KiB that succeeded is read back as it was written, whatever banks
/// it lies in: once `data` has taken the place of the cells from `address` on, a reader returns
/// for the `count` bytes that start `from` bytes behind `address` the `count` bytes of `data`
/// that start at `from`.
pub proof fn lemma_write_then_read_banked(
    chip: FlashChip,
    address: int,
    data: Seq<u8>,
    from: int,
    count: int,
)
    requires
        chip.wf(),
        chip.banks() == 2,
        0 <= address,
        address + data.len() <= 2 * BANK_SIZE,
        0 <= from,
        0 <= count,
        from + count <= data.len(),
    ensures
        overwritten(chip.cells, address, data).subrange(
            address + from,
            address + from + count,
        ) == data.subrange(from, from + count),
{
    lemma_written_cells(chip.cells, address, data, from, count);
}

/// A write to a chip that is programmed in pages is read back as it was written once it is
/// flushed, and nothing else is changed.
///
/// Where a writer that held nothing back but what the chip held has taken on bytes, `count` of
/// them, and was flushed then, the chip holds what it held when the writer began, with those
/// bytes in place from the address of the writer on: every byte of the chip before or behind
/// them is what it was, the other bytes of the first and of the last page among them.
pub proof fn lemma_write_flush_then_read<H: FlashHardware>(
    began: Writer64KAtmel<'_, H>,
    wrote: Writer64KAtmel<'_, H>,
    flushed: Writer64KAtmel<'_, H>,
    buf: Seq<u8>,
    count: usize,
    from: int,
    length: int,
)
    requires
        began.wf(),
        began.target() == began.state().chip.cells,
        wrote.wrote(began, buf, Ok(count)),
        flushed.was_flushed(wrote, Ok(())),
        0 <= from,
        0 <= length,
        from + length <= count,
    ensures
        flushed.state().chip.cells == overwritten(
            began.state().chip.cells,
            began.address as int,
            buf.take(count as int),
        ),
        flushed.state().chip.bytes(began.address + from, length) == buf.subrange(
            from,
            from + length,
        ),
        forall|i: int|
            0 <= i < began.state().chip.cells.len() && !(began.address <= i < began.address
                + count) ==> flushed.state().chip.cells[i] == began.state().chip.cells[i],
{
    lemma_written_cells(
        began.state().chip.cells,
        began.address as int,
        buf.take(count as int),
        from,
        length,
    );
    assert(buf.take(count as int).subrange(from, from + length) =~= buf.subrange(
        from,
        from + length,
    ));
    lemma_read_at_rest(flushed.state().chip, began.address + from, length);
}

/// At most one byte is the first that does not read back, and there is one exactly if not all
/// do.
pub proof fn lemma_refused_once(chip: FlashChip, index: int, data: Seq<u8>, k: int, l: int)
    requires
        refused_at(chip, index, data, k),
    ensures
        refused_at(chip, index, data, l) ==> k == l,
        !(in_time(chip) && programmable(chip.cells, index, data)),
{
    if refused_at(chip, index, data, l) && in_time(chip) {
        if k < l {
            assert(data.take(l)[k] == data[k]);
        } else if l < k {
            assert(data.take(k)[l] == data[l]);
        }
    }
}

/// An erased cell takes any byte.
pub proof fn lemma_erased_is_programmable(cells: Seq<u8>, index: int, data: Seq<u8>)
    requires
        0 <= index,
        index + data.len() <= cells.len(),
        forall|i: int| index <= i < index + data.len() ==> cells[i] == 0xff,
    ensures
        programmable(cells, index, data),
{
    assert forall|i: int| 0 <= i < data.len() implies cells[index + i] & #[trigger] data[i]
        == data[i] by {
        let byte = data[i];
        assert(0xffu8 & byte == byte) by (bit_vector);
    }
}

/// A page that is handed to a sound chip which is done with it in time reads back as it was
/// handed over. `WriteFailure` comes from a worn chip alone.
pub proof fn lemma_sound_page(chip: FlashChip, image: Seq<u8>)
    ensures
        chip.sound() && in_time(chip) ==> page_result(chip, image) is Ok,
        page_result(chip, image) == Err::<(), Error>(Error::WriteFailure) ==> !chip.sound()
            && in_time(chip),
{
}

} // verus!
