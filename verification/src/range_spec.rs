//! Mathematical model of a stepped range: which values it yields, how
//! many, and the modular-wraparound arithmetic that the iterator's
//! stopping sentinel relies on.

use vstd::prelude::*;
use vstd::arithmetic::div_mod::{
    lemma_fundamental_div_mod, lemma_mod_division_less_than_divisor, lemma_mod_multiples_vanish,
    lemma_small_mod, lemma_add_mod_noop, lemma_div_pos_is_pos,
};
use vstd::arithmetic::mul::{
    lemma_mul_inequality, lemma_mul_is_commutative, lemma_mul_nonnegative,
    lemma_mul_unary_negation, lemma_mul_nonzero, lemma_mul_basics,
};

verus! {

/// True when the sign of `step` points away from `end`; such a range is
/// well defined and yields nothing.
pub open spec fn range_invalid(start: int, end: int, step: int) -> bool {
    (start < end && step < 0) || (start > end && step > 0)
}

/// Absolute value.
pub open spec fn abs_val(s: int) -> int {
    if s < 0 {
        -s
    } else {
        s
    }
}

/// Distance from `start` to `end`, measured along the direction of `step`.
pub open spec fn range_dist(start: int, end: int, step: int) -> int {
    if step > 0 {
        end - start
    } else {
        start - end
    }
}

/// Number of whole steps that fit between `start` and `end`.
pub open spec fn whole_steps(start: int, end: int, step: int) -> int {
    range_dist(start, end, step) / abs_val(step)
}

/// True when `step` evenly divides the distance from `start` to `end`,
/// so that successive stepping lands on `end` exactly.
pub open spec fn on_step(start: int, end: int, step: int) -> bool {
    range_dist(start, end, step) % abs_val(step) == 0
}

/// How many values the range yields.
pub open spec fn range_count(start: int, end: int, step: int, inclusive: bool) -> int {
    if range_invalid(start, end, step) {
        0
    } else if inclusive || !on_step(start, end, step) {
        whole_steps(start, end, step) + 1
    } else {
        whole_steps(start, end, step)
    }
}

/// The exact sequence of values the range yields: the i-th value is
/// `start + i * step`.
pub open spec fn range_seq(start: int, end: int, step: int, inclusive: bool) -> Seq<int> {
    Seq::new(range_count(start, end, step, inclusive) as nat, |i: int| start + i * step)
}

/// Law: a range whose direction is consistent with its step yields
/// `steps + 1` values when it is inclusive or misaligned, and exactly
/// `steps` of them otherwise; the i-th value is `start + i * step`.
pub proof fn lemma_range_count_law(start: int, end: int, step: int, inclusive: bool)
    requires
        step != 0,
        !range_invalid(start, end, step),
    ensures
        range_seq(start, end, step, inclusive).len() == if inclusive || !on_step(
            start,
            end,
            step,
        ) {
            whole_steps(start, end, step) + 1
        } else {
            whole_steps(start, end, step)
        },
        forall|i: int|
            0 <= i < range_seq(start, end, step, inclusive).len() ==> range_seq(
                start,
                end,
                step,
                inclusive,
            )[i] == start + i * step,
{
    lemma_steps_bound(range_dist(start, end, step), abs_val(step));
}

/// Law: inputs whose step points away from the end always yield the
/// empty sequence, for the inclusive and the exclusive form alike.
pub proof fn lemma_inconsistent_direction_empty(start: int, end: int, step: int, inclusive: bool)
    requires
        range_invalid(start, end, step),
    ensures
        range_seq(start, end, step, inclusive) =~= Seq::<int>::empty(),
{
}

/// The unique value congruent to `v` modulo the span of `[lo, hi]` that
/// lies inside `[lo, hi]`.
pub open spec fn wrap_to(v: int, lo: int, hi: int) -> int {
    lo + (v - lo) % (hi - lo + 1)
}

/// The wrapped value always lies inside `[lo, hi]`.
pub proof fn lemma_wrap_in_range(v: int, lo: int, hi: int)
    requires
        lo <= hi,
    ensures
        lo <= wrap_to(v, lo, hi) <= hi,
{
    lemma_mod_division_less_than_divisor(v - lo, hi - lo + 1);
}

/// Wrapping a value already inside `[lo, hi]` leaves it unchanged.
pub proof fn lemma_wrap_identity(v: int, lo: int, hi: int)
    requires
        lo <= v <= hi,
    ensures
        wrap_to(v, lo, hi) == v,
{
    lemma_small_mod((v - lo) as nat, (hi - lo + 1) as nat);
}

/// Wrapping subtracts an exact multiple of the span.
pub proof fn lemma_wrap_is_congruent(v: int, lo: int, hi: int)
    requires
        lo <= hi,
    ensures
        (wrap_to(v, lo, hi) - v) % (hi - lo + 1) == 0,
{
    let span = hi - lo + 1;
    lemma_fundamental_div_mod(v - lo, span);
    // wrap - v == (v - lo) % span - (v - lo) == -(span * ((v - lo) / span))
    let q = (v - lo) / span;
    assert(wrap_to(v, lo, hi) - v == span * (-q)) by {
        lemma_mul_unary_negation(span, q);
    }
    lemma_mod_multiples_vanish(-q, 0, span);
    lemma_small_mod(0nat, span as nat);
}

/// Two values of `[lo, hi]` congruent modulo the span are equal.
pub proof fn lemma_wrap_unique(a: int, b: int, lo: int, hi: int)
    requires
        lo <= a <= hi,
        lo <= b <= hi,
        (a - b) % (hi - lo + 1) == 0,
    ensures
        a == b,
{
    let span = hi - lo + 1;
    lemma_fundamental_div_mod(a - b, span);
    let q = (a - b) / span;
    assert(a - b == span * q);
    assert(a == b) by (nonlinear_arith)
        requires
            a - b == span * q,
            -span < a - b < span,
            span > 0,
    {
    }
}

/// Congruent values wrap to the same representative.
pub proof fn lemma_wrap_congruent(a: int, b: int, lo: int, hi: int)
    requires
        lo <= hi,
        (a - b) % (hi - lo + 1) == 0,
    ensures
        wrap_to(a, lo, hi) == wrap_to(b, lo, hi),
{
    let span = hi - lo + 1;
    let wa = wrap_to(a, lo, hi);
    let wb = wrap_to(b, lo, hi);
    lemma_wrap_in_range(a, lo, hi);
    lemma_wrap_in_range(b, lo, hi);
    lemma_wrap_is_congruent(a, lo, hi);
    lemma_wrap_is_congruent(b, lo, hi);
    // (wa - wb) == (wa - a) + (a - b) + (b - wb), each term a multiple of span
    lemma_add_mod_noop(wa - a, a - b, span);
    lemma_small_mod(0nat, span as nat);
    assert((wa - b) % span == 0);
    lemma_add_mod_noop(wa - b, b - wb, span);
    assert((b - wb) % span == 0) by {
        lemma_wrap_is_congruent(b, lo, hi);
        lemma_neg_mod_zero(wb - b, span);
    }
    assert((wa - wb) % span == 0);
    lemma_wrap_unique(wa, wb, lo, hi);
}

/// If a multiple of the span vanishes, so does its negation.
pub proof fn lemma_neg_mod_zero(x: int, m: int)
    requires
        m > 0,
        x % m == 0,
    ensures
        (-x) % m == 0,
{
    lemma_fundamental_div_mod(x, m);
    let q = x / m;
    assert(-x == m * (-q)) by {
        lemma_mul_unary_negation(m, q);
    }
    lemma_mod_multiples_vanish(-q, 0, m);
    lemma_small_mod(0nat, m as nat);
}

/// Pinning a wrapped value down: any value of `[lo, hi]` congruent to
/// `v` modulo the span is the wrap of `v`.
pub proof fn lemma_wrap_value(v: int, w: int, lo: int, hi: int)
    requires
        lo <= w <= hi,
        (w - v) % (hi - lo + 1) == 0,
    ensures
        wrap_to(v, lo, hi) == w,
{
    lemma_neg_mod_zero(w - v, hi - lo + 1);
    lemma_wrap_congruent(v, w, lo, hi);
    lemma_wrap_identity(w, lo, hi);
}

/// Zero, the span itself and its negation all vanish modulo the span.
pub proof fn lemma_span_multiples(span: int)
    requires
        span > 0,
    ensures
        0int % span == 0,
        span % span == 0,
        (-span) % span == 0,
{
    lemma_small_mod(0nat, span as nat);
    lemma_mul_mod_zero(1, span);
    lemma_mul_mod_zero(-1, span);
    assert(1 * span == span && (-1) * span == -span) by {
        lemma_mul_basics(span);
        lemma_mul_unary_negation(1, span);
    }
}

/// Any whole multiple of the modulus vanishes.
pub proof fn lemma_mul_mod_zero(k: int, m: int)
    requires
        m > 0,
    ensures
        (k * m) % m == 0,
{
    lemma_mod_multiples_vanish(k, 0, m);
    lemma_small_mod(0nat, m as nat);
    lemma_mul_is_commutative(k, m);
}

/// Taking a remainder moves a value by a whole multiple of the modulus
/// and lands inside `[0, m)`.
pub proof fn lemma_mod_congruent(x: int, m: int)
    requires
        m > 0,
    ensures
        (x % m - x) % m == 0,
        0 <= x % m < m,
{
    lemma_fundamental_div_mod(x, m);
    lemma_mod_division_less_than_divisor(x, m);
    let q = x / m;
    assert(x % m - x == m * (-q)) by {
        lemma_mul_unary_negation(m, q);
    }
    lemma_mod_multiples_vanish(-q, 0, m);
    lemma_small_mod(0nat, m as nat);
}

/// The sum of two vanishing values vanishes.
pub proof fn lemma_mod_zero_add(x: int, y: int, m: int)
    requires
        m > 0,
        x % m == 0,
        y % m == 0,
    ensures
        (x + y) % m == 0,
{
    lemma_add_mod_noop(x, y, m);
    lemma_small_mod(0nat, m as nat);
}

/// Basic facts about the whole-step count: it is nonnegative, stepping
/// that many times stays within the distance, and it covers the whole
/// distance exactly when the range is on-step.
pub proof fn lemma_steps_bound(dist: int, a: int)
    requires
        dist >= 0,
        a > 0,
    ensures
        0 <= dist / a,
        (dist / a) * a <= dist,
        dist % a == 0 ==> (dist / a) * a == dist,
        dist - (dist / a) * a < a,
{
    lemma_fundamental_div_mod(dist, a);
    lemma_mod_division_less_than_divisor(dist, a);
    if dist >= a {
        lemma_div_pos_is_pos(dist, a);
    } else {
        lemma_small_mod(dist as nat, a as nat);
        assert(dist == a * (dist / a) + dist);
        assert(a * (dist / a) == 0);
        lemma_mul_nonzero(a, dist / a);
    }
    lemma_mul_is_commutative(a, dist / a);
}

/// A nonzero multiple of `s` whose magnitude stays under the span cannot
/// vanish modulo the span.
pub proof fn lemma_small_multiple_not_congruent(k: int, s: int, span: int)
    requires
        span > 0,
        k * s != 0,
        -span < k * s < span,
    ensures
        (k * s) % span != 0,
{
    if k * s > 0 {
        lemma_small_mod((k * s) as nat, span as nat);
    } else {
        lemma_neg_mod_zero_converse(k * s, span);
    }
}

/// A negative value strictly inside `(-span, 0)` does not vanish modulo
/// the span.
proof fn lemma_neg_mod_zero_converse(x: int, m: int)
    requires
        m > 0,
        -m < x < 0,
    ensures
        x % m != 0,
{
    if x % m == 0 {
        lemma_fundamental_div_mod(x, m);
        let q = x / m;
        assert(x == m * q);
        if q >= 0 {
            lemma_mul_nonnegative(m, q);
            assert(false);
        }
        if q <= -1 {
            lemma_mul_inequality(q, -1, m);
            lemma_mul_is_commutative(m, q);
            assert(false);
        }
    }
}

} // verus!
