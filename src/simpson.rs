use vstd::prelude::*;

verus! {

// The composite rule over `n` equal steps of width `h = (b - a) / n` samples
// the points `x_k = a + k * h / 2` for `k` in `0 ..= 2n` (the partition
// points at even `k`, the midpoints of the steps at odd `k`) and estimates
// the integral as `(h / 6) * sum of w_k * f(x_k)`, with the weights
// 1, 4, 2, 4, 2, ..., 2, 4, 1.

/// Where a sample is taken.
#[derive(Clone, Copy, Debug, PartialEq, Eq, Structural)]
pub enum SamplePoint {
    /// The lower endpoint `a` itself.
    Lower,
    /// The upper endpoint `b` itself.
    Upper,
    /// The point `a + k * h / 2`, `k` half steps above `a`.
    HalfSteps(u64),
}

/// One sample of the rule: where the integrand is evaluated, and the
/// weight its value carries in the sum.
#[derive(Clone, Copy, Debug, PartialEq, Eq, Structural)]
pub struct Sample {
    pub point: SamplePoint,
    pub weight: u32,
}

/// The number of samples taken over `n` steps.
pub open spec fn count_of(n: nat) -> nat {
    2 * n + 1
}

/// The weight of sample `k` over `n` steps: 1 at both endpoints, 4 at the
/// midpoint of each step, 2 at each interior partition point.
pub open spec fn weight_of(n: nat, k: nat) -> nat {
    if k == 0 || k == 2 * n {
        1
    } else if k % 2 == 1 {
        4
    } else {
        2
    }
}

/// The place of sample `k` over `n` steps.
pub open spec fn point_of(n: nat, k: nat) -> SamplePoint {
    if k == 0 {
        SamplePoint::Lower
    } else if k == 2 * n {
        SamplePoint::Upper
    } else {
        SamplePoint::HalfSteps(k as u64)
    }
}

/// The number of samples taken over `n` steps: `2n + 1`.
pub fn sample_count(n: u32) -> (r: u64)
    ensures
        r == count_of(n as nat),
{
    2 * (n as u64) + 1
}

/// Sample `k` of the rule over `n` steps.
pub fn sample(n: u32, k: u64) -> (s: Sample)
    requires
        k < count_of(n as nat),
    ensures
        s.point == point_of(n as nat, k as nat),
        s.weight == weight_of(n as nat, k as nat),
{
    let last: u64 = 2 * (n as u64);
    if k == 0 {
        Sample { point: SamplePoint::Lower, weight: 1 }
    } else if k == last {
        Sample { point: SamplePoint::Upper, weight: 1 }
    } else if k % 2 == 1 {
        Sample { point: SamplePoint::HalfSteps(k), weight: 4 }
    } else {
        Sample { point: SamplePoint::HalfSteps(k), weight: 2 }
    }
}

/// The weighted sum `w_0 * p(0) + ... + w_(m-1) * p(m - 1)` of the first `m`
/// samples over `n` steps, for values `p(k)` taken at the samples.
pub open spec fn weighted_sum(n: nat, p: spec_fn(int) -> int, m: nat) -> int
    decreases m,
{
    if m == 0 {
        0
    } else {
        weighted_sum(n, p, (m - 1) as nat) + weight_of(n, (m - 1) as nat) * p(m - 1)
    }
}

/// The full weighted sum of the rule over `n` steps. The estimate of the
/// integral is this sum times `h / 6`.
pub open spec fn rule_sum(n: nat, p: spec_fn(int) -> int) -> int {
    weighted_sum(n, p, count_of(n))
}

/// The rule on one step, in half-step units: `p(2j) + 4 p(2j + 1) + p(2j + 2)`.
pub open spec fn step_sum(p: spec_fn(int) -> int, j: int) -> int {
    p(2 * j) + 4 * p(2 * j + 1) + p(2 * j + 2)
}

/// The sum of the one-step rule over the first `m` steps.
pub open spec fn steps_sum(p: spec_fn(int) -> int, m: nat) -> int
    decreases m,
{
    if m == 0 {
        0
    } else {
        steps_sum(p, (m - 1) as nat) + step_sum(p, m - 1)
    }
}

proof fn lemma_prefix_is_steps(n: nat, p: spec_fn(int) -> int, m: nat)
    requires
        1 <= n,
        m <= n,
    ensures
        weighted_sum(n, p, 2 * m + 1) == steps_sum(p, m) + (if m < n { p(2 * m as int) } else { 0 }),
    decreases m,
{
    assert(weighted_sum(n, p, 0) == 0);
    if m > 0 {
        let m1 = (m - 1) as nat;
        let j = m1 as int;
        lemma_prefix_is_steps(n, p, m1);
        assert(weight_of(n, 2 * m1 + 1) == 4);
        assert(weighted_sum(n, p, 2 * m1 + 2) == weighted_sum(n, p, 2 * m1 + 1) + 4 * p(2 * j
            + 1));
        if m < n {
            assert(weight_of(n, 2 * m) == 2);
            assert(weighted_sum(n, p, 2 * m + 1) == weighted_sum(n, p, 2 * m1 + 2) + 2 * p(2 * j
                + 2));
        } else {
            assert(weight_of(n, 2 * m) == 1);
            assert(weighted_sum(n, p, 2 * m + 1) == weighted_sum(n, p, 2 * m1 + 2) + 1 * p(2 * j
                + 2));
        }
    } else {
        assert(weight_of(n, 0) == 1);
        assert(weighted_sum(n, p, 1) == weighted_sum(n, p, 0) + 1 * p(0));
    }
}

/// The composite weighted sum is the sum of the one-step rule over every
/// step: an interior partition point is shared by two steps, which is why
/// it weighs 2.
pub proof fn lemma_rule_is_sum_of_steps(n: nat, p: spec_fn(int) -> int)
    requires
        1 <= n,
    ensures
        rule_sum(n, p) == steps_sum(p, n),
{
    lemma_prefix_is_steps(n, p, n);
}

/// `3 * (integral of c0 + c1 t + c2 t^2 + c3 t^3 for t from 0 to 2m)`, an
/// integer for integer coefficients.
pub open spec fn cubic_antiderivative(c0: int, c1: int, c2: int, c3: int, m: int) -> int {
    c0 * (6 * m) + c1 * (6 * (m * m)) + c2 * (8 * (m * m * m)) + c3 * (12 * (m * m * m * m))
}

/// The value of the cubic `c0 + c1 t + c2 t^2 + c3 t^3` at `t`.
pub open spec fn cubic(c0: int, c1: int, c2: int, c3: int, t: int) -> int {
    c0 + c1 * t + c2 * (t * t) + c3 * (t * t * t)
}

proof fn lemma_linear_step(j: int)
    by (nonlinear_arith)
    ensures
        (2 * j) + 4 * (2 * j + 1) + (2 * j + 2) == 6 * ((j + 1) * (j + 1)) - 6 * (j * j),
{
}

proof fn lemma_square_step(j: int)
    by (nonlinear_arith)
    ensures
        (2 * j) * (2 * j) + 4 * ((2 * j + 1) * (2 * j + 1)) + (2 * j + 2) * (2 * j + 2) == 8 * ((j
            + 1) * (j + 1) * (j + 1)) - 8 * (j * j * j),
{
}

proof fn lemma_cube_step(j: int)
    by (nonlinear_arith)
    ensures
        (2 * j) * (2 * j) * (2 * j) + 4 * ((2 * j + 1) * (2 * j + 1) * (2 * j + 1)) + (2 * j + 2)
            * (2 * j + 2) * (2 * j + 2) == 12 * ((j + 1) * (j + 1) * (j + 1) * (j + 1)) - 12 * (j
            * j * j * j),
{
}

proof fn lemma_scaled_step(c: int, x: int, y: int, z: int, hi: int, lo: int)
    by (nonlinear_arith)
    requires
        x + 4 * y + z == hi - lo,
    ensures
        c * x + 4 * (c * y) + c * z == c * hi - c * lo,
{
}

proof fn lemma_cubic_step(c0: int, c1: int, c2: int, c3: int, j: int)
    ensures
        cubic(c0, c1, c2, c3, 2 * j) + 4 * cubic(c0, c1, c2, c3, 2 * j + 1) + cubic(
            c0,
            c1,
            c2,
            c3,
            2 * j + 2,
        ) == cubic_antiderivative(c0, c1, c2, c3, j + 1) - cubic_antiderivative(c0, c1, c2, c3, j),
{
    let (a, b, d, k) = (2 * j, 2 * j + 1, 2 * j + 2, j + 1);
    lemma_linear_step(j);
    lemma_square_step(j);
    lemma_cube_step(j);
    lemma_scaled_step(c0, 1, 1, 1, 6 * k, 6 * j);
    lemma_scaled_step(c1, a, b, d, 6 * (k * k), 6 * (j * j));
    lemma_scaled_step(c2, a * a, b * b, d * d, 8 * (k * k * k), 8 * (j * j * j));
    lemma_scaled_step(c3, a * a * a, b * b * b, d * d * d, 12 * (k * k * k * k), 12 * (j * j * j * j));
}

proof fn lemma_cubic_steps(p: spec_fn(int) -> int, c0: int, c1: int, c2: int, c3: int, m: nat)
    requires
        forall|t: int| #[trigger] p(t) == cubic(c0, c1, c2, c3, t),
    ensures
        steps_sum(p, m) == cubic_antiderivative(c0, c1, c2, c3, m as int),
    decreases m,
{
    if m > 0 {
        let j = m - 1;
        lemma_cubic_steps(p, c0, c1, c2, c3, (m - 1) as nat);
        lemma_cubic_step(c0, c1, c2, c3, j);
        assert(p(2 * j) == cubic(c0, c1, c2, c3, 2 * j));
        assert(p(2 * j + 1) == cubic(c0, c1, c2, c3, 2 * j + 1));
        assert(p(2 * j + 2) == cubic(c0, c1, c2, c3, 2 * j + 2));
    } else {
        assert(cubic_antiderivative(c0, c1, c2, c3, 0) == 0) by (nonlinear_arith);
    }
}

/// The rule is exact for every cubic: over `n >= 1` steps, with the samples
/// counted in half steps `t = k`, the weighted sum of a cubic's values is
/// three times its integral over `[0, 2n]`, so that `(h / 6)` times it is
/// the integral over `[a, b]` in the same units.
pub proof fn lemma_exact_for_cubics(n: nat, p: spec_fn(int) -> int, c0: int, c1: int, c2: int, c3: int)
    requires
        1 <= n,
        forall|t: int| #[trigger] p(t) == cubic(c0, c1, c2, c3, t),
    ensures
        rule_sum(n, p) == cubic_antiderivative(c0, c1, c2, c3, n as int),
{
    lemma_rule_is_sum_of_steps(n, p);
    lemma_cubic_steps(p, c0, c1, c2, c3, n);
}

/// A constant `c` is integrated exactly: over `n >= 1` steps the weights add
/// up to `6n`, so the estimate `(h / 6) * 6n * c` is `c * n * h`, which is
/// `c * (b - a)`.
pub proof fn lemma_constant_exact(n: nat, c: int)
    requires
        1 <= n,
    ensures
        rule_sum(n, |k: int| c) == 6 * n * c,
{
    lemma_exact_for_cubics(n, |k: int| c, c, 0, 0, 0);
    assert(cubic_antiderivative(c, 0, 0, 0, n as int) == 6 * n * c) by (nonlinear_arith);
}

/// `f(x) = x` over `[0, 1]` is integrated exactly. With `n >= 1` steps,
/// `h = 1 / n` and sample `k` lies at `x = k / (2n)`, so the estimate is
/// `rule_sum(n, k -> k) / (12 n^2)`; that is exactly `1 / 2`.
pub proof fn lemma_identity_exact(n: nat)
    requires
        1 <= n,
    ensures
        2 * rule_sum(n, |k: int| k) == 12 * (n * n),
{
    lemma_exact_for_cubics(n, |k: int| k, 0, 1, 0, 0);
    assert(2 * cubic_antiderivative(0, 1, 0, 0, n as int) == 12 * (n * n)) by (nonlinear_arith);
}

/// `f(x) = x^3` over `[0, 1]` is integrated exactly. With `n >= 1` steps,
/// `h = 1 / n` and sample `k` lies at `x = k / (2n)`, so the estimate is
/// `rule_sum(n, k -> k^3) / (48 n^4)`; that is exactly `1 / 4`.
pub proof fn lemma_cube_exact(n: nat)
    requires
        1 <= n,
    ensures
        4 * rule_sum(n, |k: int| k * k * k) == 48 * (n * n * n * n),
{
    lemma_exact_for_cubics(n, |k: int| k * k * k, 0, 0, 0, 1);
    assert(4 * cubic_antiderivative(0, 0, 0, 1, n as int) == 48 * (n * n * n * n))
        by (nonlinear_arith);
}

} // verus!
