//! A small database mapping byte offsets of the source text to line numbers.

use vstd::prelude::*;

use crate::span::CheapRange;

verus! {

/// A single line of source text: its line number and the half-open byte range
/// that it covers.
#[derive(Debug, Clone, Copy, PartialEq, Eq, Structural)]
pub struct SyntaxLocation {
    pub line: usize,
    pub range: CheapRange,
}

impl SyntaxLocation {
    pub fn new(line: usize, range: CheapRange) -> (r: Self)
        ensures
            r == (SyntaxLocation { line, range }),
    {
        SyntaxLocation { line, range }
    }

    pub fn get_range_as_ref(&self) -> (r: &CheapRange)
        ensures
            r == self.range,
    {
        &self.range
    }
}

/// Whether `offset` lies within the half-open byte range of `loc`.
pub open spec fn location_contains(loc: SyntaxLocation, offset: usize) -> bool {
    loc.range.start <= offset < loc.range.end
}

pub struct LocationsDatabase {
    pub locations: Vec<SyntaxLocation>,
}

impl LocationsDatabase {
    pub fn new() -> (r: Self)
        ensures
            r.locations@ == Seq::<SyntaxLocation>::empty(),
    {
        LocationsDatabase { locations: Vec::new() }
    }

    pub fn push(&mut self, location: SyntaxLocation)
        ensures
            final(self).locations@ == old(self).locations@.push(location),
    {
        self.locations.push(location)
    }

    pub fn push_raw(&mut self, line: usize, range: CheapRange)
        ensures
            final(self).locations@ == old(self).locations@.push(
                SyntaxLocation { line, range },
            ),
    {
        self.locations.push(SyntaxLocation { line, range })
    }

    /// The line number of the first recorded location whose byte range
    /// contains `offset`, or `None` when no recorded location does.
    pub fn get_line_from_absolute_offset(&self, offset: &usize) -> (r: Option<usize>)
        ensures
            match r {
                Some(line) => exists|i: int|
                    0 <= i < self.locations@.len() && #[trigger] location_contains(
                        self.locations@[i],
                        *offset,
                    ) && line == self.locations@[i].line && forall|j: int|
                        0 <= j < i ==> !location_contains(self.locations@[j], *offset),
                None => forall|i: int|
                    0 <= i < self.locations@.len() ==> !location_contains(
                        self.locations@[i],
                        *offset,
                    ),
            },
    {
        let mut i: usize = 0;
        while i < self.locations.len()
            invariant
                i <= self.locations@.len(),
                forall|j: int|
                    0 <= j < i ==> !location_contains(self.locations@[j], *offset),
            decreases self.locations@.len() - i,
        {
            let loc = &self.locations[i];
            if loc.range.start() <= *offset && *offset < loc.range.end() {
                proof {
                    assert(location_contains(self.locations@[i as int], *offset));
                }
                return Some(loc.line);
            }
            i = i + 1;
        }
        None
    }
}

} // verus!
