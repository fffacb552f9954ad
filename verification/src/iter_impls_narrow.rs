//! `IteratorOps` for the 8- and 16-bit value types. Their widened step
//! domain is the next signed width up, so every quantity the boundary
//! arithmetic touches is representable there. The same-width step
//! reinterpretations and the narrowing back from the widened domain are
//! spelled out as explicit modular adjustments over the type's span.

use vstd::prelude::*;
use crate::basic_range::IteratorOps;
use crate::range_spec::{
    lemma_wrap_identity, lemma_wrap_value, lemma_span_multiples, lemma_mul_mod_zero,
    lemma_mod_congruent, lemma_mod_zero_add,
};

verus! {

impl IteratorOps for u8 {
    type Step = i8;

    type ExtendedStep = i16;

    open spec fn tval(self) -> int {
        self as int
    }

    open spec fn t_min() -> int {
        0
    }

    open spec fn t_max() -> int {
        0xff
    }

    proof fn t_facts() {
    }

    proof fn tval_range(self) {
    }

    fn min() -> u8 {
        u8::MIN
    }

    fn max() -> u8 {
        u8::MAX
    }

    fn to_step(self) -> i8 {
        let r: i8 = if self <= 0x7f {
            self as i8
        } else {
            ((self as i16) - 0x100) as i8
        };
        proof {
            if self <= 0x7f {
                lemma_wrap_identity(self as int, -0x80, 0x7f);
            } else {
                lemma_span_multiples(0x100);
                lemma_wrap_value(self as int, self as int - 0x100, -0x80, 0x7f);
            }
        }
        r
    }

    fn from_step(step: i8) -> u8 {
        let r: u8 = if step >= 0 {
            step as u8
        } else {
            ((step as i16) + 0x100) as u8
        };
        proof {
            if step >= 0 {
                lemma_wrap_identity(step as int, 0, 0xff);
            } else {
                lemma_span_multiples(0x100);
                lemma_wrap_value(step as int, step as int + 0x100, 0, 0xff);
            }
        }
        r
    }

    fn to_extended_step(self) -> i16 {
        proof {
            lemma_wrap_identity(self as int, -0x8000, 0x7fff);
        }
        self as i16
    }

    fn from_extended_step(extended_step: i16) -> u8 {
        let w: i32 = (extended_step as i32) + 0x1_0000;
        let m: u32 = (w as u32) % 0x100;
        proof {
            lemma_mod_congruent(w as int, 0x100);
            lemma_mul_mod_zero(0x100, 0x100);
            lemma_mod_zero_add(m as int - w as int, 0x1_0000, 0x100);
            lemma_wrap_value(extended_step as int, m as int, 0, 0xff);
        }
        m as u8
    }

    fn extend_step(step: i8) -> i16 {
        step as i16
    }

    fn next(&mut self, step: i8) {
        let sum: i16 = (*self as i16) + (step as i16);
        *self = <u8 as IteratorOps>::from_extended_step(sum);
    }

    fn lt(self, rhs: u8) -> bool {
        self < rhs
    }

    fn eq_value(self, rhs: u8) -> bool {
        self == rhs
    }
}

impl IteratorOps for i8 {
    type Step = i8;

    type ExtendedStep = i16;

    open spec fn tval(self) -> int {
        self as int
    }

    open spec fn t_min() -> int {
        -0x80
    }

    open spec fn t_max() -> int {
        0x7f
    }

    proof fn t_facts() {
    }

    proof fn tval_range(self) {
    }

    fn min() -> i8 {
        i8::MIN
    }

    fn max() -> i8 {
        i8::MAX
    }

    fn to_step(self) -> i8 {
        proof {
            lemma_wrap_identity(self as int, -0x80, 0x7f);
        }
        self
    }

    fn from_step(step: i8) -> i8 {
        proof {
            lemma_wrap_identity(step as int, -0x80, 0x7f);
        }
        step
    }

    fn to_extended_step(self) -> i16 {
        proof {
            lemma_wrap_identity(self as int, -0x8000, 0x7fff);
        }
        self as i16
    }

    fn from_extended_step(extended_step: i16) -> i8 {
        let w: i32 = (extended_step as i32) + 0x1_0000;
        let m: u32 = (w as u32) % 0x100;
        let r: i8 = if m <= 0x7f {
            m as i8
        } else {
            ((m as i32) - 0x100) as i8
        };
        proof {
            lemma_mod_congruent(w as int, 0x100);
            lemma_mul_mod_zero(0x100, 0x100);
            lemma_mod_zero_add(m as int - w as int, 0x1_0000, 0x100);
            if m <= 0x7f {
                lemma_wrap_value(extended_step as int, m as int, -0x80, 0x7f);
            } else {
                lemma_span_multiples(0x100);
                lemma_mod_zero_add(m as int - extended_step as int, -0x100, 0x100);
                lemma_wrap_value(extended_step as int, m as int - 0x100, -0x80, 0x7f);
            }
        }
        r
    }

    fn extend_step(step: i8) -> i16 {
        step as i16
    }

    fn next(&mut self, step: i8) {
        let sum: i16 = (*self as i16) + (step as i16);
        *self = <i8 as IteratorOps>::from_extended_step(sum);
    }

    fn lt(self, rhs: i8) -> bool {
        self < rhs
    }

    fn eq_value(self, rhs: i8) -> bool {
        self == rhs
    }
}

impl IteratorOps for u16 {
    type Step = i16;

    type ExtendedStep = i32;

    open spec fn tval(self) -> int {
        self as int
    }

    open spec fn t_min() -> int {
        0
    }

    open spec fn t_max() -> int {
        0xffff
    }

    proof fn t_facts() {
    }

    proof fn tval_range(self) {
    }

    fn min() -> u16 {
        u16::MIN
    }

    fn max() -> u16 {
        u16::MAX
    }

    fn to_step(self) -> i16 {
        let r: i16 = if self <= 0x7fff {
            self as i16
        } else {
            ((self as i32) - 0x1_0000) as i16
        };
        proof {
            if self <= 0x7fff {
                lemma_wrap_identity(self as int, -0x8000, 0x7fff);
            } else {
                lemma_span_multiples(0x1_0000);
                lemma_wrap_value(self as int, self as int - 0x1_0000, -0x8000, 0x7fff);
            }
        }
        r
    }

    fn from_step(step: i16) -> u16 {
        let r: u16 = if step >= 0 {
            step as u16
        } else {
            ((step as i32) + 0x1_0000) as u16
        };
        proof {
            if step >= 0 {
                lemma_wrap_identity(step as int, 0, 0xffff);
            } else {
                lemma_span_multiples(0x1_0000);
                lemma_wrap_value(step as int, step as int + 0x1_0000, 0, 0xffff);
            }
        }
        r
    }

    fn to_extended_step(self) -> i32 {
        proof {
            lemma_wrap_identity(self as int, -0x8000_0000, 0x7fff_ffff);
        }
        self as i32
    }

    fn from_extended_step(extended_step: i32) -> u16 {
        let w: i64 = (extended_step as i64) + 0x1_0000_0000;
        let m: u64 = (w as u64) % 0x1_0000;
        proof {
            lemma_mod_congruent(w as int, 0x1_0000);
            lemma_mul_mod_zero(0x1_0000, 0x1_0000);
            lemma_mod_zero_add(m as int - w as int, 0x1_0000_0000, 0x1_0000);
            lemma_wrap_value(extended_step as int, m as int, 0, 0xffff);
        }
        m as u16
    }

    fn extend_step(step: i16) -> i32 {
        step as i32
    }

    fn next(&mut self, step: i16) {
        let sum: i32 = (*self as i32) + (step as i32);
        *self = <u16 as IteratorOps>::from_extended_step(sum);
    }

    fn lt(self, rhs: u16) -> bool {
        self < rhs
    }

    fn eq_value(self, rhs: u16) -> bool {
        self == rhs
    }
}

impl IteratorOps for i16 {
    type Step = i16;

    type ExtendedStep = i32;

    open spec fn tval(self) -> int {
        self as int
    }

    open spec fn t_min() -> int {
        -0x8000
    }

    open spec fn t_max() -> int {
        0x7fff
    }

    proof fn t_facts() {
    }

    proof fn tval_range(self) {
    }

    fn min() -> i16 {
        i16::MIN
    }

    fn max() -> i16 {
        i16::MAX
    }

    fn to_step(self) -> i16 {
        proof {
            lemma_wrap_identity(self as int, -0x8000, 0x7fff);
        }
        self
    }

    fn from_step(step: i16) -> i16 {
        proof {
            lemma_wrap_identity(step as int, -0x8000, 0x7fff);
        }
        step
    }

    fn to_extended_step(self) -> i32 {
        proof {
            lemma_wrap_identity(self as int, -0x8000_0000, 0x7fff_ffff);
        }
        self as i32
    }

    fn from_extended_step(extended_step: i32) -> i16 {
        let w: i64 = (extended_step as i64) + 0x1_0000_0000;
        let m: u64 = (w as u64) % 0x1_0000;
        let r: i16 = if m <= 0x7fff {
            m as i16
        } else {
            ((m as i64) - 0x1_0000) as i16
        };
        proof {
            lemma_mod_congruent(w as int, 0x1_0000);
            lemma_mul_mod_zero(0x1_0000, 0x1_0000);
            lemma_mod_zero_add(m as int - w as int, 0x1_0000_0000, 0x1_0000);
            if m <= 0x7fff {
                lemma_wrap_value(extended_step as int, m as int, -0x8000, 0x7fff);
            } else {
                lemma_span_multiples(0x1_0000);
                lemma_mod_zero_add(m as int - extended_step as int, -0x1_0000, 0x1_0000);
                lemma_wrap_value(extended_step as int, m as int - 0x1_0000, -0x8000, 0x7fff);
            }
        }
        r
    }

    fn extend_step(step: i16) -> i32 {
        step as i32
    }

    fn next(&mut self, step: i16) {
        let sum: i32 = (*self as i32) + (step as i32);
        *self = <i16 as IteratorOps>::from_extended_step(sum);
    }

    fn lt(self, rhs: i16) -> bool {
        self < rhs
    }

    fn eq_value(self, rhs: i16) -> bool {
        self == rhs
    }
}

} // verus!
