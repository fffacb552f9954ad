//! `IteratorOps` for the 32- and 64-bit value types. The 32-bit types
//! narrow back from their widened domain through a yet wider
//! intermediate; for the 64-bit types the widened domain is the widest
//! machine width, so the residue is taken by splitting on the sign and
//! reflecting the magnitude instead.

use vstd::prelude::*;
use crate::basic_range::IteratorOps;
use crate::range_spec::{
    lemma_wrap_identity, lemma_wrap_value, lemma_span_multiples, lemma_mul_mod_zero,
    lemma_mod_congruent, lemma_mod_zero_add, lemma_neg_mod_zero,
};

verus! {

/// Residue of a widened value modulo the 64-bit span, computed without
/// any wider intermediate: reduce the magnitude and, for negative
/// values, reflect the nonzero remainder across the span.
fn residue_mod_span_64(v: i128) -> (m: u128)
    ensures
        m < 0x1_0000_0000_0000_0000,
        (m as int - v as int) % 0x1_0000_0000_0000_0000 == 0,
{
    let span: u128 = 0x1_0000_0000_0000_0000;
    if v >= 0 {
        let m: u128 = (v as u128) % span;
        proof {
            lemma_mod_congruent(v as int, span as int);
        }
        m
    } else {
        let mag: u128 = ((-(v + 1)) as u128) + 1;
        let mm: u128 = mag % span;
        proof {
            lemma_mod_congruent(mag as int, span as int);
        }
        if mm == 0 {
            0
        } else {
            proof {
                lemma_span_multiples(span as int);
                lemma_neg_mod_zero(mm as int - mag as int, span as int);
                lemma_mod_zero_add(mag as int - mm as int, span as int, span as int);
            }
            span - mm
        }
    }
}

impl IteratorOps for u32 {
    type Step = i32;

    type ExtendedStep = i64;

    open spec fn tval(self) -> int {
        self as int
    }

    open spec fn t_min() -> int {
        0
    }

    open spec fn t_max() -> int {
        0xffff_ffff
    }

    proof fn t_facts() {
    }

    proof fn tval_range(self) {
    }

    fn min() -> u32 {
        u32::MIN
    }

    fn max() -> u32 {
        u32::MAX
    }

    fn to_step(self) -> i32 {
        let r: i32 = if self <= 0x7fff_ffff {
            self as i32
        } else {
            ((self as i64) - 0x1_0000_0000) as i32
        };
        proof {
            if self <= 0x7fff_ffff {
                lemma_wrap_identity(self as int, -0x8000_0000, 0x7fff_ffff);
            } else {
                lemma_span_multiples(0x1_0000_0000);
                lemma_wrap_value(self as int, self as int - 0x1_0000_0000, -0x8000_0000, 0x7fff_ffff);
            }
        }
        r
    }

    fn from_step(step: i32) -> u32 {
        let r: u32 = if step >= 0 {
            step as u32
        } else {
            ((step as i64) + 0x1_0000_0000) as u32
        };
        proof {
            if step >= 0 {
                lemma_wrap_identity(step as int, 0, 0xffff_ffff);
            } else {
                lemma_span_multiples(0x1_0000_0000);
                lemma_wrap_value(step as int, step as int + 0x1_0000_0000, 0, 0xffff_ffff);
            }
        }
        r
    }

    fn to_extended_step(self) -> i64 {
        proof {
            lemma_wrap_identity(self as int, -0x8000_0000_0000_0000, 0x7fff_ffff_ffff_ffff);
        }
        self as i64
    }

    fn from_extended_step(extended_step: i64) -> u32 {
        let w: i128 = (extended_step as i128) + 0x1_0000_0000_0000_0000;
        let m: u128 = (w as u128) % 0x1_0000_0000;
        proof {
            lemma_mod_congruent(w as int, 0x1_0000_0000);
            lemma_mul_mod_zero(0x1_0000_0000, 0x1_0000_0000);
            lemma_mod_zero_add(m as int - w as int, 0x1_0000_0000_0000_0000, 0x1_0000_0000);
            lemma_wrap_value(extended_step as int, m as int, 0, 0xffff_ffff);
        }
        m as u32
    }

    fn extend_step(step: i32) -> i64 {
        step as i64
    }

    fn next(&mut self, step: i32) {
        let sum: i64 = (*self as i64) + (step as i64);
        *self = <u32 as IteratorOps>::from_extended_step(sum);
    }

    fn lt(self, rhs: u32) -> bool {
        self < rhs
    }

    fn eq_value(self, rhs: u32) -> bool {
        self == rhs
    }
}

impl IteratorOps for i32 {
    type Step = i32;

    type ExtendedStep = i64;

    open spec fn tval(self) -> int {
        self as int
    }

    open spec fn t_min() -> int {
        -0x8000_0000
    }

    open spec fn t_max() -> int {
        0x7fff_ffff
    }

    proof fn t_facts() {
    }

    proof fn tval_range(self) {
    }

    fn min() -> i32 {
        i32::MIN
    }

    fn max() -> i32 {
        i32::MAX
    }

    fn to_step(self) -> i32 {
        proof {
            lemma_wrap_identity(self as int, -0x8000_0000, 0x7fff_ffff);
        }
        self
    }

    fn from_step(step: i32) -> i32 {
        proof {
            lemma_wrap_identity(step as int, -0x8000_0000, 0x7fff_ffff);
        }
        step
    }

    fn to_extended_step(self) -> i64 {
        proof {
            lemma_wrap_identity(self as int, -0x8000_0000_0000_0000, 0x7fff_ffff_ffff_ffff);
        }
        self as i64
    }

    fn from_extended_step(extended_step: i64) -> i32 {
        let w: i128 = (extended_step as i128) + 0x1_0000_0000_0000_0000;
        let m: u128 = (w as u128) % 0x1_0000_0000;
        let r: i32 = if m <= 0x7fff_ffff {
            m as i32
        } else {
            ((m as i64) - 0x1_0000_0000) as i32
        };
        proof {
            lemma_mod_congruent(w as int, 0x1_0000_0000);
            lemma_mul_mod_zero(0x1_0000_0000, 0x1_0000_0000);
            lemma_mod_zero_add(m as int - w as int, 0x1_0000_0000_0000_0000, 0x1_0000_0000);
            if m <= 0x7fff_ffff {
                lemma_wrap_value(extended_step as int, m as int, -0x8000_0000, 0x7fff_ffff);
            } else {
                lemma_span_multiples(0x1_0000_0000);
                lemma_mod_zero_add(m as int - extended_step as int, -0x1_0000_0000, 0x1_0000_0000);
                lemma_wrap_value(
                    extended_step as int,
                    m as int - 0x1_0000_0000,
                    -0x8000_0000,
                    0x7fff_ffff,
                );
            }
        }
        r
    }

    fn extend_step(step: i32) -> i64 {
        step as i64
    }

    fn next(&mut self, step: i32) {
        let sum: i64 = (*self as i64) + (step as i64);
        *self = <i32 as IteratorOps>::from_extended_step(sum);
    }

    fn lt(self, rhs: i32) -> bool {
        self < rhs
    }

    fn eq_value(self, rhs: i32) -> bool {
        self == rhs
    }
}

impl IteratorOps for u64 {
    type Step = i64;

    type ExtendedStep = i128;

    open spec fn tval(self) -> int {
        self as int
    }

    open spec fn t_min() -> int {
        0
    }

    open spec fn t_max() -> int {
        0xffff_ffff_ffff_ffff
    }

    proof fn t_facts() {
    }

    proof fn tval_range(self) {
    }

    fn min() -> u64 {
        u64::MIN
    }

    fn max() -> u64 {
        u64::MAX
    }

    fn to_step(self) -> i64 {
        let r: i64 = if self <= 0x7fff_ffff_ffff_ffff {
            self as i64
        } else {
            let t: i64 = (u64::MAX - self) as i64;
            -t - 1
        };
        proof {
            if self <= 0x7fff_ffff_ffff_ffff {
                lemma_wrap_identity(self as int, -0x8000_0000_0000_0000, 0x7fff_ffff_ffff_ffff);
            } else {
                lemma_span_multiples(0x1_0000_0000_0000_0000);
                lemma_wrap_value(
                    self as int,
                    self as int - 0x1_0000_0000_0000_0000,
                    -0x8000_0000_0000_0000,
                    0x7fff_ffff_ffff_ffff,
                );
            }
        }
        r
    }

    fn from_step(step: i64) -> u64 {
        let r: u64 = if step >= 0 {
            step as u64
        } else {
            u64::MAX - ((-(step + 1)) as u64)
        };
        proof {
            if step >= 0 {
                lemma_wrap_identity(step as int, 0, 0xffff_ffff_ffff_ffff);
            } else {
                lemma_span_multiples(0x1_0000_0000_0000_0000);
                lemma_wrap_value(
                    step as int,
                    step as int + 0x1_0000_0000_0000_0000,
                    0,
                    0xffff_ffff_ffff_ffff,
                );
            }
        }
        r
    }

    fn to_extended_step(self) -> i128 {
        proof {
            lemma_wrap_identity(
                self as int,
                -0x8000_0000_0000_0000_0000_0000_0000_0000,
                0x7fff_ffff_ffff_ffff_ffff_ffff_ffff_ffff,
            );
        }
        self as i128
    }

    fn from_extended_step(extended_step: i128) -> u64 {
        let m: u128 = residue_mod_span_64(extended_step);
        proof {
            lemma_wrap_value(extended_step as int, m as int, 0, 0xffff_ffff_ffff_ffff);
        }
        m as u64
    }

    fn extend_step(step: i64) -> i128 {
        step as i128
    }

    fn next(&mut self, step: i64) {
        let sum: i128 = (*self as i128) + (step as i128);
        *self = <u64 as IteratorOps>::from_extended_step(sum);
    }

    fn lt(self, rhs: u64) -> bool {
        self < rhs
    }

    fn eq_value(self, rhs: u64) -> bool {
        self == rhs
    }
}

impl IteratorOps for i64 {
    type Step = i64;

    type ExtendedStep = i128;

    open spec fn tval(self) -> int {
        self as int
    }

    open spec fn t_min() -> int {
        -0x8000_0000_0000_0000
    }

    open spec fn t_max() -> int {
        0x7fff_ffff_ffff_ffff
    }

    proof fn t_facts() {
    }

    proof fn tval_range(self) {
    }

    fn min() -> i64 {
        i64::MIN
    }

    fn max() -> i64 {
        i64::MAX
    }

    fn to_step(self) -> i64 {
        proof {
            lemma_wrap_identity(self as int, -0x8000_0000_0000_0000, 0x7fff_ffff_ffff_ffff);
        }
        self
    }

    fn from_step(step: i64) -> i64 {
        proof {
            lemma_wrap_identity(step as int, -0x8000_0000_0000_0000, 0x7fff_ffff_ffff_ffff);
        }
        step
    }

    fn to_extended_step(self) -> i128 {
        proof {
            lemma_wrap_identity(
                self as int,
                -0x8000_0000_0000_0000_0000_0000_0000_0000,
                0x7fff_ffff_ffff_ffff_ffff_ffff_ffff_ffff,
            );
        }
        self as i128
    }

    fn from_extended_step(extended_step: i128) -> i64 {
        let m: u128 = residue_mod_span_64(extended_step);
        let r: i64 = if m <= 0x7fff_ffff_ffff_ffff {
            m as i64
        } else {
            let t: u128 = 0x1_0000_0000_0000_0000 - m;
            -((t - 1) as i64) - 1
        };
        proof {
            if m <= 0x7fff_ffff_ffff_ffff {
                lemma_wrap_value(
                    extended_step as int,
                    m as int,
                    -0x8000_0000_0000_0000,
                    0x7fff_ffff_ffff_ffff,
                );
            } else {
                lemma_span_multiples(0x1_0000_0000_0000_0000);
                lemma_mod_zero_add(
                    m as int - extended_step as int,
                    -0x1_0000_0000_0000_0000,
                    0x1_0000_0000_0000_0000,
                );
                lemma_wrap_value(
                    extended_step as int,
                    m as int - 0x1_0000_0000_0000_0000,
                    -0x8000_0000_0000_0000,
                    0x7fff_ffff_ffff_ffff,
                );
            }
        }
        r
    }

    fn extend_step(step: i64) -> i128 {
        step as i128
    }

    fn next(&mut self, step: i64) {
        let sum: i128 = (*self as i128) + (step as i128);
        *self = <i64 as IteratorOps>::from_extended_step(sum);
    }

    fn lt(self, rhs: i64) -> bool {
        self < rhs
    }

    fn eq_value(self, rhs: i64) -> bool {
        self == rhs
    }
}

} // verus!
