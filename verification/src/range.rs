//! Bounded indices, and ranges of them as a start and a length.

use vstd::prelude::*;

verus! {

/// An index that is known to lie in `0..=MAX`.
#[derive(Clone, Copy, Debug)]
pub struct Index<const MAX: usize> {
    value: usize,
}

impl<const MAX: usize> Index<MAX> {
    #[verifier::type_invariant]
    spec fn in_range(self) -> bool {
        self.value <= MAX
    }

    /// The number that this index holds.
    pub closed spec fn view(self) -> usize {
        self.value
    }

    /// Creates the index `value`, or nothing if `value` is above `MAX`.
    pub fn new(value: usize) -> (index: Option<Self>)
        ensures
            index is Some <==> value <= MAX,
            index is Some ==> index->0@ == value,
    {
        if value <= MAX {
            Some(Self { value })
        } else {
            None
        }
    }

    /// Returns the number that this index holds.
    pub fn get(self) -> (value: usize)
        ensures
            value == self@,
            value <= MAX,
    {
        proof {
            use_type_invariant(self);
        }
        self.value
    }
}

/// One end of a range of indices.
#[derive(Clone, Copy, Debug)]
pub enum Bound<const MAX: usize> {
    /// The range reaches this index and holds it.
    Included(Index<MAX>),
    /// The range reaches this index and does not hold it.
    Excluded(Index<MAX>),
    /// The range has no end on this side.
    Unbounded,
}

impl<const MAX: usize> Bound<MAX> {
    /// The first index of a range that starts with this bound.
    pub open spec fn first(self) -> int {
        match self {
            Bound::Included(start) => start@ as int,
            Bound::Excluded(start) => start@ + 1,
            Bound::Unbounded => 0,
        }
    }

    /// The index after the last one of a range that ends with this bound.
    pub open spec fn limit(self) -> int {
        match self {
            Bound::Included(end) => end@ + 1,
            Bound::Excluded(end) => end@ as int,
            Bound::Unbounded => MAX + 1,
        }
    }
}

/// Whether the range from `start` to `end` is in order: it does not end before it starts.
pub open spec fn spec_ordered<const MAX: usize>(start: Bound<MAX>, end: Bound<MAX>) -> bool {
    start.first() <= end.limit()
}

/// Tells whether the range from `start` to `end` is in order: it does not end before it starts.
#[verifier::when_used_as_spec(spec_ordered)]
pub fn ordered<const MAX: usize>(start: Bound<MAX>, end: Bound<MAX>) -> (ordered: bool)
    requires
        MAX < usize::MAX,
    ensures
        ordered == spec_ordered(start, end),
{
    let first = match start {
        Bound::Included(start) => start.get(),
        Bound::Excluded(start) => start.get() + 1,
        Bound::Unbounded => 0,
    };
    let limit = match end {
        Bound::Included(end) => end.get() + 1,
        Bound::Excluded(end) => end.get(),
        Bound::Unbounded => MAX + 1,
    };
    first <= limit
}

/// Whether the range from `start` to `end` can be translated: it is not inverted, and no address
/// of an index leaves `usize`.
pub open spec fn translatable<const MAX: usize>(
    start: Bound<MAX>,
    end: Bound<MAX>,
    address_offset: usize,
) -> bool {
    &&& start.first() <= end.limit()
    &&& address_offset + MAX + 1 <= usize::MAX
}

/// Translates the range from `start` to `end` into the address of its first index and its
/// length, where index 0 lies at `address_offset`.
pub fn translate_range_to_buffer<const MAX: usize>(
    start: Bound<MAX>,
    end: Bound<MAX>,
    address_offset: usize,
) -> (buffer: (usize, usize))
    requires
        translatable(start, end, address_offset),
    ensures
        buffer.0 == address_offset + start.first(),
        buffer.1 == end.limit() - start.first(),
        start.first() + buffer.1 <= MAX + 1,
{
    let offset = match start {
        Bound::Included(start) => start.get(),
        Bound::Excluded(start) => start.get() + 1,
        Bound::Unbounded => 0,
    };
    let limit = match end {
        Bound::Included(end) => end.get() + 1,
        Bound::Excluded(end) => end.get(),
        Bound::Unbounded => MAX + 1,
    };
    (address_offset + offset, limit - offset)
}

} // verus!
