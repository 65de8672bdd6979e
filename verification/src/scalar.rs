//! Scalar signal types: small primitives (booleans and integers) that blocks
//! pass by value. Each scalar has a mathematical value; comparisons and
//! truthiness are stated over it.
use crate::sealed::Sealed;
use vstd::prelude::*;

verus! {

/// "Scalar" types: booleans and the integer types a block signal can carry.
/// A boolean counts as 0 (`false`) or 1 (`true`).
pub trait Scalar: Sealed + Copy + Sized {
    /// The mathematical value of the scalar.
    spec fn value(self) -> int;

    /// Smallest value of the type.
    spec fn min_value() -> int;

    /// Largest value of the type.
    spec fn max_value() -> int;

    /// Every value lies in the type's range, and the value determines the scalar.
    proof fn lemma_value(self, other: Self)
        ensures
            Self::min_value() <= self.value() <= Self::max_value(),
            self.value() == other.value() ==> self == other,
    ;

    /// Every scalar type fits in 32 bits, signed or unsigned, and holds 0 and 1.
    proof fn lemma_range()
        ensures
            -0x8000_0000 <= Self::min_value() <= 0,
            1 <= Self::max_value() <= 0xffff_ffff,
    ;

    /// The scalar zero (`false` for booleans).
    fn zero() -> (r: Self)
        ensures
            r.value() == 0,
    ;

    /// The scalar with value `1` if `b` holds and `0` otherwise.
    fn from_bool(b: bool) -> (r: Self)
        ensures
            r.value() == (if b { 1int } else { 0int }),
    ;

    /// A scalar is "truthy" when it is non-zero.
    fn is_truthy(self) -> (b: bool)
        ensures
            b == (self.value() != 0),
    ;

    /// `self == other`
    fn eq_to(self, other: Self) -> (b: bool)
        ensures
            b == (self.value() == other.value()),
    ;

    /// `self < other`
    fn lt(self, other: Self) -> (b: bool)
        ensures
            b == (self.value() < other.value()),
    ;

    /// `self + 1`, below the type's largest value.
    fn inc(self) -> (r: Self)
        requires
            self.value() < Self::max_value(),
        ensures
            r.value() == self.value() + 1,
    ;

    /// The scalar with value `n`, which must lie in the type's range.
    fn from_usize(n: usize) -> (r: Self)
        requires
            n <= Self::max_value(),
        ensures
            r.value() == n,
    ;

    /// The scalar with value `x`, which must lie in the type's range.
    fn from_i128(x: i128) -> (r: Self)
        requires
            Self::min_value() <= x <= Self::max_value(),
        ensures
            r.value() == x,
    ;

    /// Whether `x` lies in the type's range.
    fn in_range(x: i128) -> (b: bool)
        ensures
            b == (Self::min_value() <= x <= Self::max_value()),
    ;

    /// The value of the scalar as an `i128`.
    fn to_i128(self) -> (r: i128)
        ensures
            r == self.value(),
    ;
}

impl Scalar for bool {
    open spec fn value(self) -> int {
        if self { 1 } else { 0 }
    }

    open spec fn min_value() -> int {
        0
    }

    open spec fn max_value() -> int {
        1
    }

    proof fn lemma_value(self, other: Self) {
    }

    proof fn lemma_range() {
    }

    fn zero() -> (r: Self) {
        false
    }

    fn from_bool(b: bool) -> (r: Self) {
        b
    }

    fn is_truthy(self) -> (b: bool) {
        self
    }

    fn eq_to(self, other: Self) -> (b: bool) {
        self == other
    }

    fn lt(self, other: Self) -> (b: bool) {
        !self && other
    }

    fn inc(self) -> (r: Self) {
        true
    }

    fn from_usize(n: usize) -> (r: Self) {
        n == 1
    }

    fn from_i128(x: i128) -> (r: Self) {
        x == 1
    }

    fn in_range(x: i128) -> (b: bool) {
        0 <= x && x <= 1
    }

    fn to_i128(self) -> (r: i128) {
        if self { 1 } else { 0 }
    }
}

impl Scalar for u8 {
    open spec fn value(self) -> int {
        self as int
    }

    open spec fn min_value() -> int {
        0
    }

    open spec fn max_value() -> int {
        u8::MAX as int
    }

    proof fn lemma_value(self, other: Self) {
    }

    proof fn lemma_range() {
    }

    fn zero() -> (r: Self) {
        0
    }

    fn from_bool(b: bool) -> (r: Self) {
        if b { 1 } else { 0 }
    }

    fn is_truthy(self) -> (b: bool) {
        self != 0
    }

    fn eq_to(self, other: Self) -> (b: bool) {
        self == other
    }

    fn lt(self, other: Self) -> (b: bool) {
        self < other
    }

    fn inc(self) -> (r: Self) {
        self + 1
    }

    fn from_usize(n: usize) -> (r: Self) {
        n as u8
    }

    fn from_i128(x: i128) -> (r: Self) {
        x as u8
    }

    fn in_range(x: i128) -> (b: bool) {
        u8::MIN as i128 <= x && x <= u8::MAX as i128
    }

    fn to_i128(self) -> (r: i128) {
        self as i128
    }
}

impl Scalar for i8 {
    open spec fn value(self) -> int {
        self as int
    }

    open spec fn min_value() -> int {
        i8::MIN as int
    }

    open spec fn max_value() -> int {
        i8::MAX as int
    }

    proof fn lemma_value(self, other: Self) {
    }

    proof fn lemma_range() {
    }

    fn zero() -> (r: Self) {
        0
    }

    fn from_bool(b: bool) -> (r: Self) {
        if b { 1 } else { 0 }
    }

    fn is_truthy(self) -> (b: bool) {
        self != 0
    }

    fn eq_to(self, other: Self) -> (b: bool) {
        self == other
    }

    fn lt(self, other: Self) -> (b: bool) {
        self < other
    }

    fn inc(self) -> (r: Self) {
        self + 1
    }

    fn from_usize(n: usize) -> (r: Self) {
        n as i8
    }

    fn from_i128(x: i128) -> (r: Self) {
        x as i8
    }

    fn in_range(x: i128) -> (b: bool) {
        i8::MIN as i128 <= x && x <= i8::MAX as i128
    }

    fn to_i128(self) -> (r: i128) {
        self as i128
    }
}

impl Scalar for u16 {
    open spec fn value(self) -> int {
        self as int
    }

    open spec fn min_value() -> int {
        u16::MIN as int
    }

    open spec fn max_value() -> int {
        u16::MAX as int
    }

    proof fn lemma_value(self, other: Self) {
    }

    proof fn lemma_range() {
    }

    fn zero() -> (r: Self) {
        0
    }

    fn from_bool(b: bool) -> (r: Self) {
        if b { 1 } else { 0 }
    }

    fn is_truthy(self) -> (b: bool) {
        self != 0
    }

    fn eq_to(self, other: Self) -> (b: bool) {
        self == other
    }

    fn lt(self, other: Self) -> (b: bool) {
        self < other
    }

    fn inc(self) -> (r: Self) {
        self + 1
    }

    fn from_usize(n: usize) -> (r: Self) {
        n as u16
    }

    fn from_i128(x: i128) -> (r: Self) {
        x as u16
    }

    fn in_range(x: i128) -> (b: bool) {
        u16::MIN as i128 <= x && x <= u16::MAX as i128
    }

    fn to_i128(self) -> (r: i128) {
        self as i128
    }
}

impl Scalar for i16 {
    open spec fn value(self) -> int {
        self as int
    }

    open spec fn min_value() -> int {
        i16::MIN as int
    }

    open spec fn max_value() -> int {
        i16::MAX as int
    }

    proof fn lemma_value(self, other: Self) {
    }

    proof fn lemma_range() {
    }

    fn zero() -> (r: Self) {
        0
    }

    fn from_bool(b: bool) -> (r: Self) {
        if b { 1 } else { 0 }
    }

    fn is_truthy(self) -> (b: bool) {
        self != 0
    }

    fn eq_to(self, other: Self) -> (b: bool) {
        self == other
    }

    fn lt(self, other: Self) -> (b: bool) {
        self < other
    }

    fn inc(self) -> (r: Self) {
        self + 1
    }

    fn from_usize(n: usize) -> (r: Self) {
        n as i16
    }

    fn from_i128(x: i128) -> (r: Self) {
        x as i16
    }

    fn in_range(x: i128) -> (b: bool) {
        i16::MIN as i128 <= x && x <= i16::MAX as i128
    }

    fn to_i128(self) -> (r: i128) {
        self as i128
    }
}

impl Scalar for u32 {
    open spec fn value(self) -> int {
        self as int
    }

    open spec fn min_value() -> int {
        u32::MIN as int
    }

    open spec fn max_value() -> int {
        u32::MAX as int
    }

    proof fn lemma_value(self, other: Self) {
    }

    proof fn lemma_range() {
    }

    fn zero() -> (r: Self) {
        0
    }

    fn from_bool(b: bool) -> (r: Self) {
        if b { 1 } else { 0 }
    }

    fn is_truthy(self) -> (b: bool) {
        self != 0
    }

    fn eq_to(self, other: Self) -> (b: bool) {
        self == other
    }

    fn lt(self, other: Self) -> (b: bool) {
        self < other
    }

    fn inc(self) -> (r: Self) {
        self + 1
    }

    fn from_usize(n: usize) -> (r: Self) {
        n as u32
    }

    fn from_i128(x: i128) -> (r: Self) {
        x as u32
    }

    fn in_range(x: i128) -> (b: bool) {
        u32::MIN as i128 <= x && x <= u32::MAX as i128
    }

    fn to_i128(self) -> (r: i128) {
        self as i128
    }
}

impl Scalar for i32 {
    open spec fn value(self) -> int {
        self as int
    }

    open spec fn min_value() -> int {
        i32::MIN as int
    }

    open spec fn max_value() -> int {
        i32::MAX as int
    }

    proof fn lemma_value(self, other: Self) {
    }

    proof fn lemma_range() {
    }

    fn zero() -> (r: Self) {
        0
    }

    fn from_bool(b: bool) -> (r: Self) {
        if b { 1 } else { 0 }
    }

    fn is_truthy(self) -> (b: bool) {
        self != 0
    }

    fn eq_to(self, other: Self) -> (b: bool) {
        self == other
    }

    fn lt(self, other: Self) -> (b: bool) {
        self < other
    }

    fn inc(self) -> (r: Self) {
        self + 1
    }

    fn from_usize(n: usize) -> (r: Self) {
        n as i32
    }

    fn from_i128(x: i128) -> (r: Self) {
        x as i32
    }

    fn in_range(x: i128) -> (b: bool) {
        i32::MIN as i128 <= x && x <= i32::MAX as i128
    }

    fn to_i128(self) -> (r: i128) {
        self as i128
    }
}

} // verus!
