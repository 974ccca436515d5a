//! What a memory holds, as a sequence of bytes.

use vstd::prelude::*;

verus! {

/// The cells with `data` in place of what they held from `index` on.
pub open spec fn overwritten(cells: Seq<u8>, index: int, data: Seq<u8>) -> Seq<u8> {
    Seq::new(
        cells.len(),
        |i: int|
            if index <= i < index + data.len() {
                data[i - index]
            } else {
                cells[i]
            },
    )
}

/// What was written is there: once `data` has taken the place of the cells from `index` on, the
/// `count` cells that start `from` bytes into them hold the `count` bytes of `data` that start
/// at `from`, and every cell before or behind them holds what it held.
pub proof fn lemma_written_cells(
    cells: Seq<u8>,
    index: int,
    data: Seq<u8>,
    from: int,
    count: int,
)
    requires
        0 <= index,
        index + data.len() <= cells.len(),
        0 <= from,
        0 <= count,
        from + count <= data.len(),
    ensures
        overwritten(cells, index, data).subrange(index + from, index + from + count)
            == data.subrange(from, from + count),
        overwritten(cells, index, data).len() == cells.len(),
        forall|i: int|
            0 <= i < cells.len() && !(index <= i < index + data.len()) ==> overwritten(
                cells,
                index,
                data,
            )[i] == cells[i],
{
    assert(overwritten(cells, index, data).subrange(index + from, index + from + count)
        =~= data.subrange(from, from + count));
}

} // verus!
