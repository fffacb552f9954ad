//! `IteratorOps` for the widest integer types and the pointer-sized
//! ones. No wider machine width exists, so their widened step domain is
//! the same-width signed type: the conversions in and out are pure bit
//! reinterpretations (stated as modular adjustments by one span), and
//! the one-step advance wraps explicitly within the native width.

use vstd::prelude::*;
use crate::basic_range::IteratorOps;
use crate::range_spec::{
    lemma_wrap_identity, lemma_wrap_value, lemma_wrap_is_congruent, lemma_span_multiples,
    lemma_mod_zero_add,
};

verus! {

impl IteratorOps for u128 {
    type Step = i128;

    type ExtendedStep = i128;

    open spec fn tval(self) -> int {
        self as int
    }

    open spec fn t_min() -> int {
        0
    }

    open spec fn t_max() -> int {
        0xffff_ffff_ffff_ffff_ffff_ffff_ffff_ffff
    }

    proof fn t_facts() {
    }

    proof fn tval_range(self) {
    }

    fn min() -> u128 {
        u128::MIN
    }

    fn max() -> u128 {
        u128::MAX
    }

    fn to_step(self) -> i128 {
        let r: i128 = if self <= 0x7fff_ffff_ffff_ffff_ffff_ffff_ffff_ffff {
            self as i128
        } else {
            let t: i128 = (u128::MAX - self) as i128;
            -t - 1
        };
        proof {
            if self <= 0x7fff_ffff_ffff_ffff_ffff_ffff_ffff_ffff {
                lemma_wrap_identity(
                    self as int,
                    -0x8000_0000_0000_0000_0000_0000_0000_0000,
                    0x7fff_ffff_ffff_ffff_ffff_ffff_ffff_ffff,
                );
            } else {
                lemma_span_multiples(0x1_0000_0000_0000_0000_0000_0000_0000_0000int);
                lemma_wrap_value(
                    self as int,
                    self as int - 0x1_0000_0000_0000_0000_0000_0000_0000_0000int,
                    -0x8000_0000_0000_0000_0000_0000_0000_0000,
                    0x7fff_ffff_ffff_ffff_ffff_ffff_ffff_ffff,
                );
            }
        }
        r
    }

    fn from_step(step: i128) -> u128 {
        let r: u128 = if step >= 0 {
            step as u128
        } else {
            u128::MAX - ((-(step + 1)) as u128)
        };
        proof {
            if step >= 0 {
                lemma_wrap_identity(step as int, 0, 0xffff_ffff_ffff_ffff_ffff_ffff_ffff_ffff);
            } else {
                lemma_span_multiples(0x1_0000_0000_0000_0000_0000_0000_0000_0000int);
                lemma_wrap_value(
                    step as int,
                    step as int + 0x1_0000_0000_0000_0000_0000_0000_0000_0000int,
                    0,
                    0xffff_ffff_ffff_ffff_ffff_ffff_ffff_ffff,
                );
            }
        }
        r
    }

    fn to_extended_step(self) -> i128 {
        <u128 as IteratorOps>::to_step(self)
    }

    fn from_extended_step(extended_step: i128) -> u128 {
        <u128 as IteratorOps>::from_step(extended_step)
    }

    fn extend_step(step: i128) -> i128 {
        step
    }

    fn next(&mut self, step: i128) {
        let cur: u128 = *self;
        let r: u128 = if step >= 0 {
            let d: u128 = step as u128;
            if cur <= u128::MAX - d {
                cur + d
            } else {
                cur - (u128::MAX - d) - 1
            }
        } else {
            let d: u128 = ((-(step + 1)) as u128) + 1;
            if cur >= d {
                cur - d
            } else {
                cur + (u128::MAX - d) + 1
            }
        };
        proof {
            let hi: int = 0xffff_ffff_ffff_ffff_ffff_ffff_ffff_ffff;
            if 0 <= cur as int + step as int <= hi {
                lemma_wrap_identity(cur as int + step as int, 0, hi);
            } else {
                lemma_span_multiples(hi + 1);
                lemma_wrap_value(cur as int + step as int, r as int, 0, hi);
            }
        }
        *self = r;
    }

    fn lt(self, rhs: u128) -> bool {
        self < rhs
    }

    fn eq_value(self, rhs: u128) -> bool {
        self == rhs
    }
}

impl IteratorOps for i128 {
    type Step = i128;

    type ExtendedStep = i128;

    open spec fn tval(self) -> int {
        self as int
    }

    open spec fn t_min() -> int {
        -0x8000_0000_0000_0000_0000_0000_0000_0000
    }

    open spec fn t_max() -> int {
        0x7fff_ffff_ffff_ffff_ffff_ffff_ffff_ffff
    }

    proof fn t_facts() {
    }

    proof fn tval_range(self) {
    }

    fn min() -> i128 {
        i128::MIN
    }

    fn max() -> i128 {
        i128::MAX
    }

    fn to_step(self) -> i128 {
        proof {
            lemma_wrap_identity(
                self as int,
                -0x8000_0000_0000_0000_0000_0000_0000_0000,
                0x7fff_ffff_ffff_ffff_ffff_ffff_ffff_ffff,
            );
        }
        self
    }

    fn from_step(step: i128) -> i128 {
        proof {
            lemma_wrap_identity(
                step as int,
                -0x8000_0000_0000_0000_0000_0000_0000_0000,
                0x7fff_ffff_ffff_ffff_ffff_ffff_ffff_ffff,
            );
        }
        step
    }

    fn to_extended_step(self) -> i128 {
        <i128 as IteratorOps>::to_step(self)
    }

    fn from_extended_step(extended_step: i128) -> i128 {
        <i128 as IteratorOps>::from_step(extended_step)
    }

    fn extend_step(step: i128) -> i128 {
        step
    }

    fn next(&mut self, step: i128) {
        let mut carrier: u128 = <u128 as IteratorOps>::from_extended_step(*self);
        let ghost c0: int = carrier as int;
        <u128 as IteratorOps>::next(&mut carrier, step);
        let ghost c1: int = carrier as int;
        let ghost v0: int = self.tval();
        *self = <u128 as IteratorOps>::to_extended_step(carrier);
        proof {
            // the unsigned carrier keeps the residue through every hop,
            // and the signed and unsigned spans coincide
            let span: int = 0x1_0000_0000_0000_0000_0000_0000_0000_0000int;
            let lo: int = -0x8000_0000_0000_0000_0000_0000_0000_0000;
            let hi: int = 0x7fff_ffff_ffff_ffff_ffff_ffff_ffff_ffff;
            lemma_wrap_is_congruent(v0, 0, span - 1);
            lemma_wrap_is_congruent(c0 + step as int, 0, span - 1);
            lemma_wrap_is_congruent(c1, lo, hi);
            lemma_mod_zero_add(c0 - v0, c1 - (c0 + step as int), span);
            lemma_mod_zero_add(c0 - v0 + c1 - (c0 + step as int), self.tval() - c1, span);
            lemma_wrap_value(v0 + step as int, self.tval(), lo, hi);
        }
    }

    fn lt(self, rhs: i128) -> bool {
        self < rhs
    }

    fn eq_value(self, rhs: i128) -> bool {
        self == rhs
    }
}

impl IteratorOps for usize {
    type Step = isize;

    type ExtendedStep = isize;

    open spec fn tval(self) -> int {
        self as int
    }

    open spec fn t_min() -> int {
        0
    }

    open spec fn t_max() -> int {
        usize::MAX as int
    }

    proof fn t_facts() {
    }

    proof fn tval_range(self) {
    }

    fn min() -> usize {
        usize::MIN
    }

    fn max() -> usize {
        usize::MAX
    }

    fn to_step(self) -> isize {
        let r: isize = if self <= (isize::MAX as usize) {
            self as isize
        } else {
            let t: isize = (usize::MAX - self) as isize;
            -t - 1
        };
        proof {
            if self <= (isize::MAX as usize) {
                lemma_wrap_identity(self as int, isize::MIN as int, isize::MAX as int);
            } else {
                lemma_span_multiples(usize::MAX as int + 1);
                lemma_wrap_value(
                    self as int,
                    self as int - (usize::MAX as int + 1),
                    isize::MIN as int,
                    isize::MAX as int,
                );
            }
        }
        r
    }

    fn from_step(step: isize) -> usize {
        let r: usize = if step >= 0 {
            step as usize
        } else {
            usize::MAX - ((-(step + 1)) as usize)
        };
        proof {
            if step >= 0 {
                lemma_wrap_identity(step as int, 0, usize::MAX as int);
            } else {
                lemma_span_multiples(usize::MAX as int + 1);
                lemma_wrap_value(
                    step as int,
                    step as int + (usize::MAX as int + 1),
                    0,
                    usize::MAX as int,
                );
            }
        }
        r
    }

    fn to_extended_step(self) -> isize {
        <usize as IteratorOps>::to_step(self)
    }

    fn from_extended_step(extended_step: isize) -> usize {
        <usize as IteratorOps>::from_step(extended_step)
    }

    fn extend_step(step: isize) -> isize {
        step
    }

    fn next(&mut self, step: isize) {
        let cur: usize = *self;
        let r: usize = if step >= 0 {
            let d: usize = step as usize;
            if cur <= usize::MAX - d {
                cur + d
            } else {
                cur - (usize::MAX - d) - 1
            }
        } else {
            let d: usize = ((-(step + 1)) as usize) + 1;
            if cur >= d {
                cur - d
            } else {
                cur + (usize::MAX - d) + 1
            }
        };
        proof {
            let hi: int = usize::MAX as int;
            if 0 <= cur as int + step as int <= hi {
                lemma_wrap_identity(cur as int + step as int, 0, hi);
            } else {
                lemma_span_multiples(hi + 1);
                lemma_wrap_value(cur as int + step as int, r as int, 0, hi);
            }
        }
        *self = r;
    }

    fn lt(self, rhs: usize) -> bool {
        self < rhs
    }

    fn eq_value(self, rhs: usize) -> bool {
        self == rhs
    }
}

impl IteratorOps for isize {
    type Step = isize;

    type ExtendedStep = isize;

    open spec fn tval(self) -> int {
        self as int
    }

    open spec fn t_min() -> int {
        isize::MIN as int
    }

    open spec fn t_max() -> int {
        isize::MAX as int
    }

    proof fn t_facts() {
    }

    proof fn tval_range(self) {
    }

    fn min() -> isize {
        isize::MIN
    }

    fn max() -> isize {
        isize::MAX
    }

    fn to_step(self) -> isize {
        proof {
            lemma_wrap_identity(self as int, isize::MIN as int, isize::MAX as int);
        }
        self
    }

    fn from_step(step: isize) -> isize {
        proof {
            lemma_wrap_identity(step as int, isize::MIN as int, isize::MAX as int);
        }
        step
    }

    fn to_extended_step(self) -> isize {
        <isize as IteratorOps>::to_step(self)
    }

    fn from_extended_step(extended_step: isize) -> isize {
        <isize as IteratorOps>::from_step(extended_step)
    }

    fn extend_step(step: isize) -> isize {
        step
    }

    fn next(&mut self, step: isize) {
        let mut carrier: usize = <usize as IteratorOps>::from_extended_step(*self);
        let ghost c0: int = carrier as int;
        <usize as IteratorOps>::next(&mut carrier, step);
        let ghost c1: int = carrier as int;
        let ghost v0: int = self.tval();
        *self = <usize as IteratorOps>::to_extended_step(carrier);
        proof {
            // the unsigned carrier keeps the residue through every hop,
            // and the signed and unsigned spans coincide
            let span: int = usize::MAX as int + 1;
            let lo: int = isize::MIN as int;
            let hi: int = isize::MAX as int;
            lemma_wrap_is_congruent(v0, 0, span - 1);
            lemma_wrap_is_congruent(c0 + step as int, 0, span - 1);
            lemma_wrap_is_congruent(c1, lo, hi);
            lemma_mod_zero_add(c0 - v0, c1 - (c0 + step as int), span);
            lemma_mod_zero_add(c0 - v0 + c1 - (c0 + step as int), self.tval() - c1, span);
            lemma_wrap_value(v0 + step as int, self.tval(), lo, hi);
        }
    }

    fn lt(self, rhs: isize) -> bool {
        self < rhs
    }

    fn eq_value(self, rhs: isize) -> bool {
        self == rhs
    }
}

} // verus!
