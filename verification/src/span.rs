//! Spans: inclusive ranges of token positions.

use std::ops::RangeInclusive;
use vstd::prelude::*;

verus! {

/// `RangeInclusive::start` hands back the lower bound of the range: the one
/// that `RangeInclusive::new` was given.
pub assume_specification<Idx>[ RangeInclusive::<Idx>::start ](range: &RangeInclusive<Idx>) -> (bound: &Idx)
    ensures
        *bound == range@.start,
;

/// `RangeInclusive::end` hands back the upper bound of the range: the one
/// that `RangeInclusive::new` was given.
pub assume_specification<Idx>[ RangeInclusive::<Idx>::end ](range: &RangeInclusive<Idx>) -> (bound: &Idx)
    ensures
        *bound == range@.end,
;

/// The first and the last position of `span`.
pub open spec fn bounds(span: RangeInclusive<usize>) -> (int, int) {
    (span@.start as int, span@.end as int)
}

/// The first and the last position of `span`, if there is one.
pub open spec fn some_bounds(span: Option<RangeInclusive<usize>>) -> Option<(int, int)> {
    match span {
        Some(span) => Some(bounds(span)),
        None => None,
    }
}

/// Whether `span`, if there is one, is as it was made: nothing has walked it.
pub open spec fn untouched(span: Option<RangeInclusive<usize>>) -> bool {
    span matches Some(span) ==> !span@.exhausted
}

} // verus!
