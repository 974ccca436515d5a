//! What holds of a write to EEPROM and the reads that follow it.

use crate::contents::lemma_written_cells;
use crate::contents::overwritten;
use crate::eeprom::hardware::lemma_keeps_kept;
use crate::eeprom::hardware::EepromHardware;
use crate::eeprom::writer::accepted;
use crate::eeprom::writer::sector_of;
use crate::eeprom::writer::READY_POLLS;
use crate::eeprom::writer::Writer;
use crate::eeprom::Error;
use vstd::prelude::*;

verus! {

/// A write that is flushed is read back as it was written, and nothing else is changed.
///
/// Where a writer that held nothing back has taken on bytes, `count` of them, and was flushed
/// then, the chip holds what it held when the writer began, with those bytes in place from the
/// address of the writer on. So a read of the `length` bytes that start `from` bytes behind that
/// address returns the `length` bytes of `buf` that start at `from`, and every byte of the chip
/// before or behind those that were taken on is what it was, the other bytes of the first and of
/// the last sector among them.
pub proof fn lemma_write_flush_then_read<H: EepromHardware>(
    began: Writer<'_, H>,
    began_bits: Seq<u16>,
    wrote: Writer<'_, H>,
    wrote_bits: Seq<u16>,
    flushed: Writer<'_, H>,
    flushed_bits: Seq<u16>,
    buf: Seq<u8>,
    address_len: usize,
    count: usize,
    from: int,
    length: int,
)
    requires
        began.wf(began_bits, address_len),
        !began.dirty,
        wrote.wrote(wrote_bits, began, began_bits, buf, address_len, Ok(count)),
        flushed.flushed(flushed_bits, wrote, wrote_bits, address_len, Ok(())),
        0 <= from,
        0 <= length,
        from + length <= count,
    ensures
        flushed.state().chip.contents == overwritten(
            began.state().chip.contents,
            began.address as int,
            buf.take(count as int),
        ),
        flushed.state().chip.contents.subrange(
            began.address + from,
            began.address + from + length,
        ) == buf.subrange(from, from + length),
        forall|i: int|
            0 <= i < began.state().chip.contents.len() && !(began.address <= i < began.address
                + count) ==> flushed.state().chip.contents[i] == began.state().chip.contents[i],
{
    lemma_written_cells(
        began.state().chip.contents,
        began.address as int,
        buf.take(count as int),
        from,
        length,
    );
    assert(buf.take(count as int).subrange(from, from + length) =~= buf.subrange(
        from,
        from + length,
    ));
}

/// When a write fails, and when it does not.
///
/// The range being exhausted is the one reason for `EndOfWriter`. A write times out if a sector
/// is completed and the chip stays busy for as many polls as the writer is ready to make, and
/// else it does not. `WriteFailure` comes from a worn chip alone. So a write to a sound chip
/// that is ready in time succeeds unless the range is exhausted.
pub proof fn lemma_write_errors<H: EepromHardware>(
    began: Writer<'_, H>,
    began_bits: Seq<u16>,
    wrote: Writer<'_, H>,
    wrote_bits: Seq<u16>,
    buf: Seq<u8>,
    address_len: usize,
    result: Result<usize, Error>,
)
    requires
        began.wf(began_bits, address_len),
        wrote.wrote(wrote_bits, began, began_bits, buf, address_len, result),
    ensures
        result is Err && result->Err_0 == Error::EndOfWriter <==> began.len == 0,
        result is Err && result->Err_0 == Error::OperationTimedOut <==> began.len > 0
            && began.offset() + accepted(began.len, buf) >= 8 && began.state().chip.write_latency
            >= READY_POLLS,
        result is Err && result->Err_0 == Error::WriteFailure ==> began.state().chip.mask != 0xff
            && began.state().chip.write_latency < READY_POLLS,
        began.len > 0 && began.state().chip.mask == 0xff && began.state().chip.write_latency
            < READY_POLLS ==> result is Ok,
{
    let chip = began.state().chip;
    let intended = overwritten(
        began.target(began_bits, address_len),
        began.address as int,
        buf.take(wrote.address - began.address),
    );
    lemma_keeps_kept(chip, sector_of(intended, wrote.address - 1));
}

} // verus!
