//! How many samples a source still has, when it holds some of its own on top
//! of what its upstream reports.

use vstd::prelude::*;

verus! {

/// A lower bound that grows by `extra`, as far as `usize` reaches.
pub open spec fn lower_with(lower: usize, extra: usize) -> usize {
    if lower + extra > usize::MAX {
        usize::MAX
    } else {
        (lower + extra) as usize
    }
}

/// An upper bound that grows by `extra`; none where upstream knows none, or
/// where the sum is beyond `usize`.
pub open spec fn upper_with(upper: Option<usize>, extra: usize) -> Option<usize> {
    match upper {
        Some(u) => if u + extra > usize::MAX {
            None
        } else {
            Some((u + extra) as usize)
        },
        None => None,
    }
}

/// An upper bound that grows by `extra`.
pub fn extend_upper(upper: Option<usize>, extra: usize) -> (r: Option<usize>)
    ensures
        r == upper_with(upper, extra),
{
    match upper {
        Some(u) => if u > usize::MAX - extra {
            None
        } else {
            Some(u + extra)
        },
        None => None,
    }
}

/// The bounds of an iterator that yields `extra` items on top of what an
/// inner iterator with the bounds `inner` yields.
pub fn extend_hint(inner: (usize, Option<usize>), extra: usize) -> (r: (usize, Option<usize>))
    ensures
        r.0 == lower_with(inner.0, extra),
        r.1 == upper_with(inner.1, extra),
{
    let lower = if inner.0 > usize::MAX - extra {
        usize::MAX
    } else {
        inner.0 + extra
    };
    (lower, extend_upper(inner.1, extra))
}

} // verus!
