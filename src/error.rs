use vstd::prelude::*;

verus! {

/// The text that describes an [`UnboundedError`].
pub open spec fn unbounded_message() -> Seq<char> {
    "Unbounded ranges are not supported"@
}

/// The one failure of integration: a range that lacks a finite value at
/// its lower or its upper end.
#[derive(Clone, Debug, PartialEq, Eq, Structural)]
pub struct UnboundedError {}

impl UnboundedError {
    /// The human-readable description of the error.
    pub fn to_string(&self) -> (r: String)
        ensures
            r@ == unbounded_message(),
    {
        let r = "Unbounded ranges are not supported".to_owned();
        proof {
            reveal_strlit("Unbounded ranges are not supported");
        }
        r
    }
}

} // verus!
