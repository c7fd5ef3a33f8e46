use vstd::prelude::*;

verus! {

/// A half-open range `[start, end)` of byte offsets into the input line.
#[derive(Debug, Clone, Copy, PartialEq, Eq, Hash, Structural)]
pub struct Loc(pub usize, pub usize);

impl Loc {
    /// The range is not reversed.
    pub open spec fn wf(self) -> bool {
        self.0 <= self.1
    }

    /// The smallest range that covers both ranges.
    pub open spec fn spec_merge(&self, other: &Loc) -> Loc {
        Loc(
            if self.0 <= other.0 { self.0 } else { other.0 },
            if self.1 >= other.1 { self.1 } else { other.1 },
        )
    }

    pub fn merge(&self, other: &Loc) -> (r: Loc)
        ensures
            r == self.spec_merge(other),
    {
        let start = if self.0 <= other.0 { self.0 } else { other.0 };
        let end = if self.1 >= other.1 { self.1 } else { other.1 };
        Loc(start, end)
    }
}

/// A value together with the range of the input it was read from.
#[derive(Debug, Clone, Copy, PartialEq, Eq, Hash, Structural)]
pub struct Annot<T> {
    pub value: T,
    pub loc: Loc,
}

impl<T> Annot<T> {
    pub fn new(value: T, loc: Loc) -> (r: Self)
        ensures
            r.value == value,
            r.loc == loc,
    {
        Annot { value, loc }
    }
}

} // verus!
