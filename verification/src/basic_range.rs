//! Stepped ranges: the per-type numeric capability traits, the range
//! descriptor with its one-time boundary arithmetic, and the iterator
//! that walks the descriptor with a single equality test per step.

use vstd::prelude::*;
use crate::range_spec::{
    range_invalid, range_dist, abs_val, whole_steps, on_step, range_count, range_seq, wrap_to,
    lemma_wrap_identity, lemma_wrap_is_congruent, lemma_steps_bound,
    lemma_small_multiple_not_congruent,
};
use vstd::arithmetic::div_mod::{
    lemma_fundamental_div_mod_converse, lemma_div_of0, lemma_small_mod,
};
use vstd::arithmetic::mul::{
    lemma_mul_inequality, lemma_mul_nonnegative, lemma_mul_nonzero, lemma_mul_basics,
    lemma_mul_unary_negation, lemma_mul_is_distributive_add_other_way,
    lemma_mul_is_distributive_sub_other_way, lemma_mul_cancels_negatives,
    lemma_mul_strictly_positive,
};

verus! {

/// Signed numeric types usable as a step or as the widened domain of the
/// boundary arithmetic. Every operation states its exact effect on the
/// value read as a mathematical integer.
pub trait StepOps: Sized + Copy {
    /// The value as a mathematical integer.
    spec fn sval(self) -> int;

    /// Smallest representable value.
    spec fn s_min() -> int;

    /// Largest representable value.
    spec fn s_max() -> int;

    /// The representable interval contains both signs.
    proof fn s_facts()
        ensures
            Self::s_min() < 0 < Self::s_max(),
    ;

    /// Every value lies inside the representable interval.
    proof fn sval_range(self)
        ensures
            Self::s_min() <= self.sval() <= Self::s_max(),
    ;

    fn zero() -> (r: Self)
        ensures
            r.sval() == 0,
    ;

    fn one() -> (r: Self)
        ensures
            r.sval() == 1,
    ;

    fn negative_one() -> (r: Self)
        ensures
            r.sval() == -1,
    ;

    /// Identity on integer step domains; kept so quotients read the same
    /// as they would in a fractional step domain.
    fn floor(self) -> (r: Self)
        ensures
            r.sval() == self.sval(),
    ;

    fn abs(self) -> (r: Self)
        requires
            -Self::s_max() <= self.sval(),
        ensures
            r.sval() == abs_val(self.sval()),
    ;

    fn to_usize(self) -> (r: usize)
        requires
            0 <= self.sval() <= usize::MAX,
        ensures
            r as int == self.sval(),
    ;

    fn plus(self, rhs: Self) -> (r: Self)
        requires
            Self::s_min() <= self.sval() + rhs.sval() <= Self::s_max(),
        ensures
            r.sval() == self.sval() + rhs.sval(),
    ;

    fn minus(self, rhs: Self) -> (r: Self)
        requires
            Self::s_min() <= self.sval() - rhs.sval() <= Self::s_max(),
        ensures
            r.sval() == self.sval() - rhs.sval(),
    ;

    fn times(self, rhs: Self) -> (r: Self)
        requires
            Self::s_min() <= self.sval() * rhs.sval() <= Self::s_max(),
        ensures
            r.sval() == self.sval() * rhs.sval(),
    ;

    fn quotient(self, rhs: Self) -> (r: Self)
        requires
            0 <= self.sval(),
            0 < rhs.sval(),
        ensures
            r.sval() == self.sval() / rhs.sval(),
    ;

    fn rem(self, rhs: Self) -> (r: Self)
        requires
            0 <= self.sval(),
            0 < rhs.sval(),
        ensures
            r.sval() == self.sval() % rhs.sval(),
    ;

    fn lt(self, rhs: Self) -> (r: bool)
        ensures
            r <==> self.sval() < rhs.sval(),
    ;

    fn eq_value(self, rhs: Self) -> (r: bool)
        ensures
            r <==> self.sval() == rhs.sval(),
    ;
}

/// Numeric types over which a stepped range can be built. `Step` is the
/// same-width signed delta type; `ExtendedStep` is the widened signed
/// domain in which the boundary arithmetic is carried out.
pub trait IteratorOps: Sized + Copy {
    type Step: StepOps;

    type ExtendedStep: StepOps;

    /// The value as a mathematical integer.
    spec fn tval(self) -> int;

    /// Smallest representable value.
    spec fn t_min() -> int;

    /// Largest representable value.
    spec fn t_max() -> int;

    /// The representable interval is not degenerate.
    proof fn t_facts()
        ensures
            Self::t_min() < Self::t_max(),
    ;

    /// Every value lies inside the representable interval.
    proof fn tval_range(self)
        ensures
            Self::t_min() <= self.tval() <= Self::t_max(),
    ;

    fn min() -> (r: Self)
        ensures
            r.tval() == Self::t_min(),
    ;

    fn max() -> (r: Self)
        ensures
            r.tval() == Self::t_max(),
    ;

    /// Reinterpret the value in the same-width signed step domain,
    /// keeping its residue modulo the type's span: the bit pattern, not
    /// the magnitude, is what carries over.
    fn to_step(self) -> (r: Self::Step)
        ensures
            r.sval() == wrap_to(self.tval(), Self::Step::s_min(), Self::Step::s_max()),
    ;

    /// Inverse reinterpretation, again modulo the span.
    fn from_step(step: Self::Step) -> (r: Self)
        ensures
            r.tval() == wrap_to(step.sval(), Self::t_min(), Self::t_max()),
    ;

    /// Carry the value into the widened domain; exact whenever it fits
    /// there, and its residue modulo the widened span in any case.
    fn to_extended_step(self) -> (r: Self::ExtendedStep)
        ensures
            r.sval() == wrap_to(
                self.tval(),
                Self::ExtendedStep::s_min(),
                Self::ExtendedStep::s_max(),
            ),
    ;

    /// Narrow a widened value back, by modular wraparound over the full
    /// representable span of the type.
    fn from_extended_step(extended_step: Self::ExtendedStep) -> (r: Self)
        ensures
            r.tval() == wrap_to(extended_step.sval(), Self::t_min(), Self::t_max()),
    ;

    /// Widen a step; steps always fit the widened domain exactly.
    fn extend_step(step: Self::Step) -> (r: Self::ExtendedStep)
        ensures
            r.sval() == step.sval(),
    ;

    /// Advance by one step, modulo the type's span: the widen-add-narrow
    /// composition, never an addition in the native width alone.
    fn next(&mut self, step: Self::Step)
        ensures
            final(self).tval() == wrap_to(
                old(self).tval() + step.sval(),
                Self::t_min(),
                Self::t_max(),
            ),
    ;

    fn lt(self, rhs: Self) -> (r: bool)
        ensures
            r <==> self.tval() < rhs.tval(),
    ;

    fn eq_value(self, rhs: Self) -> (r: bool)
        ensures
            r <==> self.tval() == rhs.tval(),
    ;
}

/// Marker relating each signed step type to the value types of the same
/// bit width.
pub trait SizeCompatible<T> {
}

impl SizeCompatible<u8> for i8 {
}

impl SizeCompatible<i8> for i8 {
}

impl SizeCompatible<u16> for i16 {
}

impl SizeCompatible<i16> for i16 {
}

impl SizeCompatible<u32> for i32 {
}

impl SizeCompatible<i32> for i32 {
}

impl SizeCompatible<u64> for i64 {
}

impl SizeCompatible<i64> for i64 {
}

impl SizeCompatible<u128> for i128 {
}

impl SizeCompatible<i128> for i128 {
}

/// The boundary arithmetic runs in the widened domain, so the values it
/// touches must be representable there. For every type whose widened
/// domain is strictly wider this holds of all inputs; for the widest
/// types, whose widened domain is themselves, it bounds the usable
/// range.
pub open spec fn fits_extended<T: IteratorOps>(v: int) -> bool {
    T::ExtendedStep::s_min() <= v <= T::ExtendedStep::s_max()
}

/// Well-formed iteration state: `rem` is exactly the list of values still
/// to be yielded, each one step apart starting at `current`, and `end`
/// is the stopping sentinel — one step past the last value, wrapped into
/// the type's range, and colliding with no value the equality test may
/// see before then.
pub open spec fn range_state_wf<T: IteratorOps>(
    current: T,
    end: T,
    step: T::Step,
    inclusive_or_not_on_step: bool,
    invalid_range: bool,
    rem: Seq<int>,
) -> bool {
    let s = step.sval();
    let cur = current.tval();
    let e = end.tval();
    let lo = T::t_min();
    let hi = T::t_max();
    if invalid_range {
        rem.len() == 0
    } else {
        &&& s != 0
        &&& (forall|i: int| 0 <= i < rem.len() ==> #[trigger] rem[i] == cur + i * s)
        &&& (forall|i: int| 0 <= i < rem.len() ==> lo <= #[trigger] rem[i] <= hi)
        &&& (if inclusive_or_not_on_step {
            &&& rem.len() >= 1
            &&& e == wrap_to(cur + rem.len() * s, lo, hi)
            &&& (forall|i: int| 1 <= i < rem.len() ==> #[trigger] rem[i] != e)
        } else if rem.len() > 0 {
            &&& e == wrap_to(cur + rem.len() * s, lo, hi)
            &&& (forall|i: int| 0 <= i < rem.len() ==> #[trigger] rem[i] != e)
        } else {
            cur == e
        })
    }
}

/// Each value a valid range yields lies between `start` and the
/// caller's `end`, on whichever side the step points.
proof fn lemma_step_value_bounds(st: int, en: int, s: int, i: int)
    requires
        s != 0,
        !range_invalid(st, en, s),
        0 <= i <= whole_steps(st, en, s),
    ensures
        s > 0 ==> st <= st + i * s <= en,
        s < 0 ==> en <= st + i * s <= st,
{
    let dist = range_dist(st, en, s);
    let a = abs_val(s);
    lemma_steps_bound(dist, a);
    let steps = dist / a;
    lemma_mul_nonnegative(i, a);
    lemma_mul_inequality(i, steps, a);
    if s < 0 {
        lemma_mul_unary_negation(i, a);
    }
}

/// What the builder computes makes the iteration state well formed: with
/// `end_adj` holding the stopping sentinel — the last reachable value,
/// advanced one more step whenever an extra emission is owed — the state
/// stands for exactly the mathematical value sequence.
proof fn lemma_range_construction<T: IteratorOps>(
    start: T,
    end_adj: T,
    step: T::Step,
    en: int,
    inclusive: bool,
    on: bool,
)
    requires
        step.sval() != 0,
        T::t_min() <= en <= T::t_max(),
        !range_invalid(start.tval(), en, step.sval()),
        on == on_step(start.tval(), en, step.sval()),
        end_adj.tval() == (if inclusive || !on {
            wrap_to(
                start.tval() + (whole_steps(start.tval(), en, step.sval()) + 1) * step.sval(),
                T::t_min(),
                T::t_max(),
            )
        } else {
            start.tval() + whole_steps(start.tval(), en, step.sval()) * step.sval()
        }),
    ensures
        range_state_wf::<T>(
            start,
            end_adj,
            step,
            inclusive || !on,
            false,
            range_seq(start.tval(), en, step.sval(), inclusive),
        ),
{
    let st = start.tval();
    let s = step.sval();
    let lo = T::t_min();
    let hi = T::t_max();
    let span = hi - lo + 1;
    let dist = range_dist(st, en, s);
    let a = abs_val(s);
    let steps = whole_steps(st, en, s);
    let flag = inclusive || !on;
    let n = range_count(st, en, s, inclusive);
    let rem = range_seq(st, en, s, inclusive);
    T::t_facts();
    start.tval_range();
    step.sval_range();
    lemma_steps_bound(dist, a);
    assert(n == if flag {
        steps + 1
    } else {
        steps
    });
    assert(rem.len() == n);
    assert forall|i: int| 0 <= i < rem.len() implies lo <= #[trigger] rem[i] <= hi by {
        assert(rem[i] == st + i * s);
        lemma_step_value_bounds(st, en, s, i);
    }
    if flag {
        // the sentinel is one step past the last value, wrapped; no value
        // the equality test may see can collide with it, because a
        // nonzero multiple of the step smaller than the whole span
        // cannot vanish modulo the span
        assert(end_adj.tval() == wrap_to(st + n * s, lo, hi));
        assert forall|i: int| 1 <= i < rem.len() implies #[trigger] rem[i] != end_adj.tval() by {
            lemma_step_value_bounds(st, en, s, i);
            if rem[i] == end_adj.tval() {
                lemma_wrap_is_congruent(st + n * s, lo, hi);
                assert((st + i * s) - (st + n * s) == (i - n) * s) by {
                    lemma_mul_is_distributive_sub_other_way(s, i, n);
                }
                assert((n - i) * a <= steps * a) by {
                    lemma_mul_inequality(n - i, steps, a);
                }
                assert((i - n) * s == if s > 0 {
                    -((n - i) * a)
                } else {
                    (n - i) * a
                }) by {
                    lemma_mul_unary_negation(n - i, s);
                    lemma_mul_cancels_negatives(n - i, s);
                    if s < 0 {
                        lemma_mul_unary_negation(n - i, a);
                    }
                }
                assert((n - i) * a > 0) by {
                    lemma_mul_strictly_positive(n - i, a);
                }
                lemma_small_multiple_not_congruent(i - n, s, span);
                assert(false);
            }
        }
    } else {
        // an exclusive on-step range: the sentinel is the last reachable
        // value itself, never produced because the equality test fires
        // first
        assert(end_adj.tval() == st + steps * s);
        lemma_step_value_bounds(st, en, s, steps);
        if n > 0 {
            lemma_wrap_identity(st + n * s, lo, hi);
            assert forall|i: int| 0 <= i < rem.len() implies #[trigger] rem[i]
                != end_adj.tval() by {
                if rem[i] == end_adj.tval() {
                    assert((steps - i) * s == 0) by {
                        lemma_mul_is_distributive_sub_other_way(s, steps, i);
                    }
                    lemma_mul_nonzero(steps - i, s);
                    assert(false);
                }
            }
        } else {
            assert(steps == 0);
            assert(steps * s == 0) by {
                lemma_mul_basics(s);
            }
            assert(start.tval() == end_adj.tval());
        }
    }
}

/// Immutable descriptor of a stepped range: built once, then consumed by
/// value to derive an iterator. After construction `end` no longer holds
/// the caller's bound but the iterator's exclusive stopping sentinel.
pub struct BasicRange<T> where T: IteratorOps {
    pub start: T,
    pub end: T,
    pub step: T::Step,
    pub inclusive_or_not_on_step: bool,
    pub invalid_range: bool,
    pub values: Ghost<Seq<int>>,
}

impl<T> View for BasicRange<T> where T: IteratorOps {
    type V = Seq<int>;

    open spec fn view(&self) -> Seq<int> {
        self.values@
    }
}

impl<T> BasicRange<T> where T: IteratorOps {
    /// The descriptor's fields describe exactly the values it stands for.
    pub open spec fn wf(self) -> bool {
        range_state_wf::<T>(
            self.start,
            self.end,
            self.step,
            self.inclusive_or_not_on_step,
            self.invalid_range,
            self.values@,
        )
    }
}

/// Mutable cursor over a descriptor's value space.
/// `inclusive_or_not_on_step` is a one-shot permission for the single
/// emission allowed past the `current == end` boundary.
pub struct BasicRangeIter<T> where T: IteratorOps {
    pub current: T,
    pub end: T,
    pub step: T::Step,
    pub inclusive_or_not_on_step: bool,
    pub invalid_range: bool,
    pub remaining: Ghost<Seq<int>>,
}

impl<T> View for BasicRangeIter<T> where T: IteratorOps {
    type V = Seq<int>;

    open spec fn view(&self) -> Seq<int> {
        self.remaining@
    }
}

impl<T> BasicRangeIter<T> where T: IteratorOps {
    /// The iterator's fields describe exactly the values still to come.
    pub open spec fn wf(self) -> bool {
        range_state_wf::<T>(
            self.current,
            self.end,
            self.step,
            self.inclusive_or_not_on_step,
            self.invalid_range,
            self.remaining@,
        )
    }
}

impl<T> BasicRange<T> where T: IteratorOps {
    /// Build the descriptor for the range from `start` to `end` by
    /// `step`. A zero step is ruled out by the contract: a range making
    /// no progress is meaningless and must be refused at construction.
    /// A step pointing away from `end` is not an error: it yields a
    /// well-defined empty range. The remaining clauses ask only that the
    /// endpoints and the distance between them be representable in the
    /// widened step domain, which holds for every input of the types
    /// whose widened domain is strictly wider than themselves.
    pub fn new(start: T, end: T, step: T::Step, inclusive: bool) -> (r: Self)
        requires
            step.sval() != 0,
            fits_extended::<T>(start.tval()),
            fits_extended::<T>(end.tval()),
            fits_extended::<T>(-step.sval()),
            !range_invalid(start.tval(), end.tval(), step.sval()) ==> fits_extended::<T>(
                range_dist(start.tval(), end.tval(), step.sval()),
            ),
        ensures
            r.wf(),
            r@ == range_seq(start.tval(), end.tval(), step.sval(), inclusive),
            r.start == start,
            r.step == step,
            r.invalid_range == range_invalid(start.tval(), end.tval(), step.sval()),
    {
        let ghost st: int = start.tval();
        let ghost en: int = end.tval();
        let ghost s: int = step.sval();

        let zero_step = T::Step::zero();
        let mut end_adj = end;
        let mut on = true;

        let invalid_range = (start.lt(end) && step.lt(zero_step)) || (end.lt(start) && zero_step.lt(
            step,
        ));

        if !invalid_range {
            proof {
                T::ExtendedStep::s_facts();
                lemma_wrap_identity(st, T::ExtendedStep::s_min(), T::ExtendedStep::s_max());
                lemma_wrap_identity(en, T::ExtendedStep::s_min(), T::ExtendedStep::s_max());
            }
            let range_size: T::ExtendedStep = if zero_step.lt(step) {
                end.to_extended_step().minus(start.to_extended_step())
            } else {
                start.to_extended_step().minus(end.to_extended_step())
            };
            if !start.eq_value(end) {
                if step.lt(T::Step::negative_one()) || T::Step::one().lt(step) {
                    let adjusted = Self::calculate_stop_and_steps(start, end, range_size, step);
                    end_adj = adjusted.0;
                    on = adjusted.1;
                } else {
                    on = true;
                    proof {
                        // the step is one of the units, so every value
                        // up to `end` is reachable exactly
                        let dist: int = range_dist(st, en, s);
                        assert(dist == dist * 1 + 0) by {
                            lemma_mul_basics(dist);
                        }
                        lemma_fundamental_div_mod_converse(dist, 1, dist, 0);
                        assert(en == st + whole_steps(st, en, s) * s) by {
                            lemma_mul_basics(dist);
                            lemma_mul_unary_negation(dist, 1);
                        }
                    }
                }
            } else {
                proof {
                    let a: int = abs_val(s);
                    lemma_div_of0(a);
                    lemma_small_mod(0nat, a as nat);
                    assert(st + whole_steps(st, en, s) * s == st) by {
                        lemma_mul_basics(s);
                    }
                }
            }
            if inclusive || !on {
                end_adj.next(step);
                proof {
                    // one more step past the last reachable value: the
                    // exclusive stopping sentinel, uniform in every case
                    let steps: int = whole_steps(st, en, s);
                    assert((steps + 1) * s == steps * s + s) by {
                        lemma_mul_is_distributive_add_other_way(s, steps, 1);
                        lemma_mul_basics(s);
                    }
                }
            }
        }

        let ghost vals: Seq<int> = range_seq(st, en, s, inclusive);
        proof {
            if invalid_range {
                assert(vals.len() == 0);
            } else {
                start.tval_range();
                end.tval_range();
                lemma_range_construction::<T>(start, end_adj, step, en, inclusive, on);
            }
        }
        BasicRange {
            start,
            end: end_adj,
            step,
            inclusive_or_not_on_step: inclusive || !on,
            invalid_range,
            values: Ghost(vals),
        }
    }

    /// One-time boundary arithmetic for a step of magnitude above one:
    /// the last value actually reachable from `start` by whole steps,
    /// and whether the caller's `end` is itself reached. Carried out
    /// entirely in the widened step domain so that no intermediate
    /// result can leave the representable range.
    fn calculate_stop_and_steps(start: T, end: T, range_size: T::ExtendedStep, step: T::Step) -> (res: (
        T,
        bool,
    ))
        requires
            step.sval() != 0,
            !range_invalid(start.tval(), end.tval(), step.sval()),
            start.tval() != end.tval(),
            range_size.sval() == range_dist(start.tval(), end.tval(), step.sval()),
            fits_extended::<T>(start.tval()),
            fits_extended::<T>(end.tval()),
            fits_extended::<T>(-step.sval()),
        ensures
            res.0.tval() == start.tval() + whole_steps(start.tval(), end.tval(), step.sval())
                * step.sval(),
            res.1 == on_step(start.tval(), end.tval(), step.sval()),
    {
        let ghost st: int = start.tval();
        let ghost en: int = end.tval();
        let ghost s: int = step.sval();
        let ghost dist: int = range_dist(st, en, s);
        let ghost a: int = abs_val(s);

        proof {
            start.tval_range();
            end.tval_range();
            T::ExtendedStep::s_facts();
            range_size.sval_range();
            lemma_steps_bound(dist, a);
        }

        let range_size_as_extended_step = range_size;
        let positive_step: T::ExtendedStep = if step.lt(T::Step::zero()) {
            T::ExtendedStep::zero().minus(T::extend_step(step))
        } else {
            T::extend_step(step)
        };
        let steps = range_size_as_extended_step.quotient(positive_step).floor();
        let on = T::ExtendedStep::zero().eq_value(range_size_as_extended_step.rem(positive_step));
        let new_range_size = steps.times(positive_step);
        proof {
            lemma_wrap_identity(st, T::ExtendedStep::s_min(), T::ExtendedStep::s_max());
            if s < 0 {
                assert((dist / a) * s == -((dist / a) * a)) by {
                    lemma_mul_unary_negation(dist / a, a);
                }
            }
        }
        let new_end: T::ExtendedStep = if start.lt(end) {
            start.to_extended_step().plus(new_range_size)
        } else {
            start.to_extended_step().minus(new_range_size)
        };
        proof {
            lemma_wrap_identity(new_end.sval(), T::t_min(), T::t_max());
        }
        (T::from_extended_step(new_end), on)
    }

    /// Derive the iterator: a field-for-field copy of the descriptor,
    /// with `start` seeding the cursor.
    pub fn into_iter(self) -> (it: BasicRangeIter<T>)
        requires
            self.wf(),
        ensures
            it.wf(),
            it@ == self@,
    {
        BasicRangeIter {
            current: self.start,
            end: self.end,
            step: self.step,
            inclusive_or_not_on_step: self.inclusive_or_not_on_step,
            invalid_range: self.invalid_range,
            remaining: Ghost(self.values@),
        }
    }
}

impl<T> BasicRange<T> where T: IteratorOps {
    /// Pull the range to exhaustion: the produced values are exactly
    /// the mathematical value sequence of the descriptor, in order.
    pub fn into_vec(self) -> (out: Vec<T>)
        requires
            self.wf(),
            self@.len() <= usize::MAX,
        ensures
            out@.len() == self@.len(),
            forall|i: int| 0 <= i < out@.len() ==> #[trigger] out@[i].tval() == self@[i],
    {
        let ghost vals: Seq<int> = self@;
        let mut it = self.into_iter();
        let mut out: Vec<T> = Vec::new();
        loop
            invariant
                it.wf(),
                out@.len() + it@.len() == vals.len(),
                forall|i: int| 0 <= i < out@.len() ==> #[trigger] out@[i].tval() == vals[i],
                forall|j: int| 0 <= j < it@.len() ==> #[trigger] it@[j] == vals[out@.len() + j],
            ensures
                out@.len() == vals.len(),
                forall|i: int| 0 <= i < out@.len() ==> #[trigger] out@[i].tval() == vals[i],
            decreases it@.len(),
        {
            match it.next() {
                Some(value) => {
                    out.push(value);
                },
                None => {
                    break ;
                },
            }
        }
        out
    }
}

impl<T> BasicRangeIter<T> where T: IteratorOps {
    /// Yield the next value, or nothing once the range is exhausted:
    /// one equality test against the sentinel and one modular advance
    /// per value produced. The one-shot flag, while set, admits exactly
    /// one emission regardless of the test, then clears itself.
    pub fn next(&mut self) -> (r: Option<T>)
        requires
            old(self).wf(),
        ensures
            final(self).wf(),
            old(self)@.len() == 0 ==> r is None && final(self)@ == old(self)@,
            old(self)@.len() > 0 ==> (match r {
                Some(v) => v.tval() == old(self)@[0] && final(self)@ == old(self)@.skip(1),
                None => false,
            }),
    {
        if self.invalid_range {
            return None;
        }
        let ghost lo: int = T::t_min();
        let ghost hi: int = T::t_max();
        let ghost s: int = self.step.sval();
        let ghost rem0: Seq<int> = self.remaining@;
        let ghost n: int = rem0.len() as int;
        let ghost cur0: int = self.current.tval();

        let stop = self.current.eq_value(self.end);

        if !self.inclusive_or_not_on_step {
            if stop {
                proof {
                    // nothing is left: a remaining first value would
                    // differ from the sentinel, but the cursor equals it
                    if n > 0 {
                        assert(rem0[0] == cur0 + 0 * s);
                        lemma_mul_basics(s);
                        assert(false);
                    }
                }
                return None;
            }
        } else {
            self.inclusive_or_not_on_step = false;
        }
        proof {
            // an emission is owed: with the flag clear, an empty state
            // would have put the cursor on the sentinel
            if n == 0 {
                lemma_mul_basics(s);
                assert(false);
            }
            assert(rem0[0] == cur0 + 0 * s);
            lemma_mul_basics(s);
        }
        let result = self.current;
        let mut advanced = self.current;
        advanced.next(self.step);
        self.current = advanced;
        self.remaining = Ghost(rem0.skip(1));
        proof {
            let rem1 = rem0.skip(1);
            let cur1 = self.current.tval();
            T::t_facts();
            assert(cur1 == wrap_to(cur0 + s, lo, hi));
            assert forall|i: int| 0 <= i < rem1.len() implies #[trigger] rem1[i] == cur0 + (i + 1)
                * s && lo <= rem1[i] <= hi by {
                assert(rem1[i] == rem0[i + 1]);
            }
            if n > 1 {
                // the next value is genuine, so the wrapped advance is
                // exact and the whole tail keeps its shape
                assert(rem0[1] == cur0 + 1 * s);
                lemma_mul_basics(s);
                lemma_wrap_identity(cur0 + s, lo, hi);
                assert(cur1 == cur0 + s);
                assert forall|i: int| 0 <= i < rem1.len() implies #[trigger] rem1[i] == cur1 + i
                    * s by {
                    assert(rem1[i] == cur0 + (i + 1) * s);
                    assert((i + 1) * s == i * s + s) by {
                        lemma_mul_is_distributive_add_other_way(s, i, 1);
                        lemma_mul_basics(s);
                    }
                }
                assert(self.end.tval() == wrap_to(cur1 + rem1.len() * s, lo, hi)) by {
                    assert(cur0 + n * s == cur1 + (n - 1) * s) by {
                        lemma_mul_is_distributive_sub_other_way(s, n, 1);
                        lemma_mul_basics(s);
                    }
                }
            } else {
                // that was the last value: the advanced cursor lands on
                // the sentinel
                assert(n == 1);
                assert(self.end.tval() == wrap_to(cur0 + 1 * s, lo, hi));
                lemma_mul_basics(s);
                assert(cur1 == self.end.tval());
            }
        }
        Some(result)
    }
}

} // verus!
