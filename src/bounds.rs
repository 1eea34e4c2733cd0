use vstd::prelude::*;

use crate::error::UnboundedError;

verus! {

/// One end of a range: a value that belongs to the range, a value that
/// does not, or no limit at all.
#[derive(Clone, Copy, Debug, PartialEq, Eq)]
pub enum EndBound<T> {
    Included(T),
    Excluded(T),
    Unbounded,
}

impl<T> EndBound<T> {
    /// Whether this end carries a concrete value.
    pub open spec fn is_finite(self) -> bool {
        !(self is Unbounded)
    }

    /// The value at this end, where there is one.
    pub open spec fn value(self) -> T
        recommends
            self.is_finite(),
    {
        match self {
            EndBound::Included(v) => v,
            EndBound::Excluded(v) => v,
            EndBound::Unbounded => arbitrary(),
        }
    }
}

/// The endpoints `(a, b)` over which to integrate, in the order given.
///
/// Whether an end is included or excluded does not change the numbers: the
/// rule samples both endpoints either way. A missing end on either side is
/// the one failure, and nothing is computed then.
pub fn finite_endpoints<T>(start: EndBound<T>, end: EndBound<T>) -> (r: Result<(T, T), UnboundedError>)
    ensures
        r is Ok <==> (start.is_finite() && end.is_finite()),
        r matches Ok((a, b)) ==> a == start.value() && b == end.value(),
{
    let a = match start {
        EndBound::Included(v) => v,
        EndBound::Excluded(v) => v,
        EndBound::Unbounded => {
            return Err(UnboundedError {});
        },
    };
    let b = match end {
        EndBound::Included(v) => v,
        EndBound::Excluded(v) => v,
        EndBound::Unbounded => {
            return Err(UnboundedError {});
        },
    };
    Ok((a, b))
}

} // verus!
