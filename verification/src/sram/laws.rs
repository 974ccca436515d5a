//! What holds of a write to SRAM and the reads that follow it.

use crate::contents::overwritten;
use crate::sram::hardware::SramState;
use vstd::prelude::*;

verus! {

/// A write that succeeded is read back as it was written: once `data` has taken the place of the
/// cells from `address` on, a read of the `count` cells that start `from` bytes behind `address`
/// returns the `count` bytes of `data` that start at `from`.
pub proof fn lemma_write_then_read(
    state: SramState,
    address: int,
    data: Seq<u8>,
    from: int,
    count: int,
)
    requires
        0 <= address,
        address + data.len() <= state.cells.len(),
        0 <= from,
        0 <= count,
        from + count <= data.len(),
    ensures
        state.with_cells(overwritten(state.cells, address, data)).bytes(address + from, count)
            == data.subrange(from, from + count),
{
    assert(state.with_cells(overwritten(state.cells, address, data)).bytes(address + from, count)
        =~= data.subrange(from, from + count));
}

/// What a state holds is what is read from it: once the cells from `address` on hold `data`, the
/// `count` cells that start `from` bytes into them hold the `count` bytes of `data` that start at
/// `from`.
pub proof fn lemma_written_bytes_read_back(
    state: SramState,
    address: int,
    data: Seq<u8>,
    from: int,
    count: int,
)
    requires
        0 <= address,
        address + data.len() <= state.cells.len(),
        state.holds(address, data),
        0 <= from,
        0 <= count,
        from + count <= data.len(),
    ensures
        state.bytes(address + from, count) == data.subrange(from, from + count),
{
    assert(state.bytes(address + from, count) =~= state.bytes(
        address,
        data.len() as int,
    ).subrange(from, from + count));
}

/// What was not written is kept: where two states differ at most in the `written` cells that
/// start at `address`, cells that lie wholly before or wholly behind those hold the same bytes
/// in both.
pub proof fn lemma_other_bytes_kept(
    before: SramState,
    after: SramState,
    address: int,
    written: int,
    offset: int,
    count: int,
)
    requires
        before.same_outside(after, address, written),
        0 <= offset,
        0 <= count,
        offset + count <= before.cells.len(),
        offset + count <= address || address + written <= offset,
    ensures
        after.bytes(offset, count) == before.bytes(offset, count),
{
    assert(after.bytes(offset, count) =~= before.bytes(offset, count));
}

} // verus!
