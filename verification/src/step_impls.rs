//! `StepOps` for each signed step width. Quotient and remainder are
//! asked for only on nonnegative operands, where Rust's truncating
//! division agrees with the Euclidean one of the specifications; they
//! are computed in the matching unsigned width to make that plain.

use vstd::prelude::*;
use crate::basic_range::StepOps;

verus! {

impl StepOps for i8 {
    open spec fn sval(self) -> int {
        self as int
    }

    open spec fn s_min() -> int {
        -0x80
    }

    open spec fn s_max() -> int {
        0x7f
    }

    proof fn s_facts() {
    }

    proof fn sval_range(self) {
    }

    fn zero() -> i8 {
        0
    }

    fn one() -> i8 {
        1
    }

    fn negative_one() -> i8 {
        -1
    }

    fn floor(self) -> i8 {
        self
    }

    fn abs(self) -> i8 {
        if self < 0 {
            0 - self
        } else {
            self
        }
    }

    fn to_usize(self) -> usize {
        self as usize
    }

    fn plus(self, rhs: i8) -> i8 {
        self + rhs
    }

    fn minus(self, rhs: i8) -> i8 {
        self - rhs
    }

    fn times(self, rhs: i8) -> i8 {
        self * rhs
    }

    fn quotient(self, rhs: i8) -> i8 {
        ((self as u8) / (rhs as u8)) as i8
    }

    fn rem(self, rhs: i8) -> i8 {
        ((self as u8) % (rhs as u8)) as i8
    }

    fn lt(self, rhs: i8) -> bool {
        self < rhs
    }

    fn eq_value(self, rhs: i8) -> bool {
        self == rhs
    }
}

impl StepOps for i16 {
    open spec fn sval(self) -> int {
        self as int
    }

    open spec fn s_min() -> int {
        -0x8000
    }

    open spec fn s_max() -> int {
        0x7fff
    }

    proof fn s_facts() {
    }

    proof fn sval_range(self) {
    }

    fn zero() -> i16 {
        0
    }

    fn one() -> i16 {
        1
    }

    fn negative_one() -> i16 {
        -1
    }

    fn floor(self) -> i16 {
        self
    }

    fn abs(self) -> i16 {
        if self < 0 {
            0 - self
        } else {
            self
        }
    }

    fn to_usize(self) -> usize {
        self as usize
    }

    fn plus(self, rhs: i16) -> i16 {
        self + rhs
    }

    fn minus(self, rhs: i16) -> i16 {
        self - rhs
    }

    fn times(self, rhs: i16) -> i16 {
        self * rhs
    }

    fn quotient(self, rhs: i16) -> i16 {
        ((self as u16) / (rhs as u16)) as i16
    }

    fn rem(self, rhs: i16) -> i16 {
        ((self as u16) % (rhs as u16)) as i16
    }

    fn lt(self, rhs: i16) -> bool {
        self < rhs
    }

    fn eq_value(self, rhs: i16) -> bool {
        self == rhs
    }
}

impl StepOps for i32 {
    open spec fn sval(self) -> int {
        self as int
    }

    open spec fn s_min() -> int {
        -0x8000_0000
    }

    open spec fn s_max() -> int {
        0x7fff_ffff
    }

    proof fn s_facts() {
    }

    proof fn sval_range(self) {
    }

    fn zero() -> i32 {
        0
    }

    fn one() -> i32 {
        1
    }

    fn negative_one() -> i32 {
        -1
    }

    fn floor(self) -> i32 {
        self
    }

    fn abs(self) -> i32 {
        if self < 0 {
            0 - self
        } else {
            self
        }
    }

    fn to_usize(self) -> usize {
        self as usize
    }

    fn plus(self, rhs: i32) -> i32 {
        self + rhs
    }

    fn minus(self, rhs: i32) -> i32 {
        self - rhs
    }

    fn times(self, rhs: i32) -> i32 {
        self * rhs
    }

    fn quotient(self, rhs: i32) -> i32 {
        ((self as u32) / (rhs as u32)) as i32
    }

    fn rem(self, rhs: i32) -> i32 {
        ((self as u32) % (rhs as u32)) as i32
    }

    fn lt(self, rhs: i32) -> bool {
        self < rhs
    }

    fn eq_value(self, rhs: i32) -> bool {
        self == rhs
    }
}

impl StepOps for i64 {
    open spec fn sval(self) -> int {
        self as int
    }

    open spec fn s_min() -> int {
        -0x8000_0000_0000_0000
    }

    open spec fn s_max() -> int {
        0x7fff_ffff_ffff_ffff
    }

    proof fn s_facts() {
    }

    proof fn sval_range(self) {
    }

    fn zero() -> i64 {
        0
    }

    fn one() -> i64 {
        1
    }

    fn negative_one() -> i64 {
        -1
    }

    fn floor(self) -> i64 {
        self
    }

    fn abs(self) -> i64 {
        if self < 0 {
            0 - self
        } else {
            self
        }
    }

    fn to_usize(self) -> usize {
        self as usize
    }

    fn plus(self, rhs: i64) -> i64 {
        self + rhs
    }

    fn minus(self, rhs: i64) -> i64 {
        self - rhs
    }

    fn times(self, rhs: i64) -> i64 {
        self * rhs
    }

    fn quotient(self, rhs: i64) -> i64 {
        ((self as u64) / (rhs as u64)) as i64
    }

    fn rem(self, rhs: i64) -> i64 {
        ((self as u64) % (rhs as u64)) as i64
    }

    fn lt(self, rhs: i64) -> bool {
        self < rhs
    }

    fn eq_value(self, rhs: i64) -> bool {
        self == rhs
    }
}

impl StepOps for i128 {
    open spec fn sval(self) -> int {
        self as int
    }

    open spec fn s_min() -> int {
        -0x8000_0000_0000_0000_0000_0000_0000_0000
    }

    open spec fn s_max() -> int {
        0x7fff_ffff_ffff_ffff_ffff_ffff_ffff_ffff
    }

    proof fn s_facts() {
    }

    proof fn sval_range(self) {
    }

    fn zero() -> i128 {
        0
    }

    fn one() -> i128 {
        1
    }

    fn negative_one() -> i128 {
        -1
    }

    fn floor(self) -> i128 {
        self
    }

    fn abs(self) -> i128 {
        if self < 0 {
            0 - self
        } else {
            self
        }
    }

    fn to_usize(self) -> usize {
        self as usize
    }

    fn plus(self, rhs: i128) -> i128 {
        self + rhs
    }

    fn minus(self, rhs: i128) -> i128 {
        self - rhs
    }

    fn times(self, rhs: i128) -> i128 {
        self * rhs
    }

    fn quotient(self, rhs: i128) -> i128 {
        ((self as u128) / (rhs as u128)) as i128
    }

    fn rem(self, rhs: i128) -> i128 {
        ((self as u128) % (rhs as u128)) as i128
    }

    fn lt(self, rhs: i128) -> bool {
        self < rhs
    }

    fn eq_value(self, rhs: i128) -> bool {
        self == rhs
    }
}

impl StepOps for isize {
    open spec fn sval(self) -> int {
        self as int
    }

    open spec fn s_min() -> int {
        isize::MIN as int
    }

    open spec fn s_max() -> int {
        isize::MAX as int
    }

    proof fn s_facts() {
    }

    proof fn sval_range(self) {
    }

    fn zero() -> isize {
        0
    }

    fn one() -> isize {
        1
    }

    fn negative_one() -> isize {
        -1
    }

    fn floor(self) -> isize {
        self
    }

    fn abs(self) -> isize {
        if self < 0 {
            0 - self
        } else {
            self
        }
    }

    fn to_usize(self) -> usize {
        self as usize
    }

    fn plus(self, rhs: isize) -> isize {
        self + rhs
    }

    fn minus(self, rhs: isize) -> isize {
        self - rhs
    }

    fn times(self, rhs: isize) -> isize {
        self * rhs
    }

    fn quotient(self, rhs: isize) -> isize {
        ((self as usize) / (rhs as usize)) as isize
    }

    fn rem(self, rhs: isize) -> isize {
        ((self as usize) % (rhs as usize)) as isize
    }

    fn lt(self, rhs: isize) -> bool {
        self < rhs
    }

    fn eq_value(self, rhs: isize) -> bool {
        self == rhs
    }
}

} // verus!
