use vstd::prelude::*;

verus! {

/// A callable that the library owns and evaluates on demand.
pub struct Function<F> {
    action: F,
}

impl<F> Function<F> {
    /// The wrapped callable.
    pub closed spec fn callable(&self) -> F {
        self.action
    }

    /// Wraps `f`, taking ownership of it. Nothing about `f` is checked.
    pub fn new(f: F) -> (r: Self)
        ensures
            r.callable() == f,
    {
        Function { action: f }
    }

    /// Calls the wrapped callable at `x` and hands back what it returned.
    pub fn evaluate<X, Y>(&self, x: X) -> (y: Y)
        where
            F: Fn(X) -> Y,
        requires
            call_requires(self.callable(), (x,)),
        ensures
            call_ensures(self.callable(), (x,), y),
    {
        (self.action)(x)
    }
}

/// Evaluating a pure callable twice at the same point gives the same value:
/// where the callable has one possible result at `x`, any two results of
/// `evaluate` at `x` are equal.
pub proof fn lemma_evaluate_deterministic<F, X, Y>(func: &Function<F>, x: X, y1: Y, y2: Y)
    where
        F: Fn(X) -> Y,
    requires
        forall|u: Y, v: Y|
            call_ensures(func.callable(), (x,), u) && call_ensures(func.callable(), (x,), v) ==> u
                == v,
        call_ensures(func.callable(), (x,), y1),
        call_ensures(func.callable(), (x,), y2),
    ensures
        y1 == y2,
{
}

} // verus!
