//! Bitwise AND, OR or XOR of two to eight inputs, applied element by element
//! to matrices (a scalar operand applies to every element).
use crate::context::Context;
use crate::matrix::Matrix;
use crate::scalar::Scalar;
use crate::text::{bytes_equal, ParseEnumError};
use vstd::prelude::*;
use vstd::string::StringSliceAdditionalSpecFns;

verus! {

/// The bitwise operation applied to the inputs.
#[derive(Clone, Copy, Debug, PartialEq, Eq, Structural)]
pub enum Operation {
    And,
    Or,
    Xor,
}

/// The variant named `s` (`"And"`, `"Or"`, `"Xor"`).
pub open spec fn spec_parse_operation(s: Seq<u8>) -> Option<Operation> {
    if s == "And".spec_bytes() {
        Some(Operation::And)
    } else if s == "Or".spec_bytes() {
        Some(Operation::Or)
    } else if s == "Xor".spec_bytes() {
        Some(Operation::Xor)
    } else {
        None
    }
}

impl Operation {
    /// The variant named `s` (`"And"`, `"Or"`, `"Xor"`); `None` for any other text.
    pub fn parse(s: &str) -> (r: Option<Self>)
        ensures
            r == spec_parse_operation(s.spec_bytes()),
    {
        let b = s.as_bytes();
        if bytes_equal(b, "And".as_bytes()) {
            Some(Operation::And)
        } else if bytes_equal(b, "Or".as_bytes()) {
            Some(Operation::Or)
        } else if bytes_equal(b, "Xor".as_bytes()) {
            Some(Operation::Xor)
        } else {
            None
        }
    }

    /// The variant named `method`, which must name one.
    pub fn new(method: &str) -> (r: Self)
        requires
            spec_parse_operation(method.spec_bytes()) is Some,
        ensures
            Some(r) == spec_parse_operation(method.spec_bytes()),
    {
        Self::parse(method).unwrap()
    }
}

impl core::str::FromStr for Operation {
    type Err = ParseEnumError;

    fn from_str(s: &str) -> (r: Result<Self, Self::Err>)
        ensures
            r == match spec_parse_operation(s.spec_bytes()) {
                Some(v) => Ok(v),
                None => Err(ParseEnumError),
            },
    {
        match Self::parse(s) {
            Some(v) => Ok(v),
            None => Err(ParseEnumError),
        }
    }
}

/// The bitwise operations of a scalar type: `operate_assign` applies the
/// operation to `lhs` and `rhs` and stores the result in `lhs`.
pub trait BitOperations: Scalar {
    /// `self` combined with `rhs` by `operation`.
    spec fn spec_operate(self, rhs: Self, operation: Operation) -> Self;

    fn operate_assign(lhs: &mut Self, rhs: Self, operation: Operation)
        ensures
            *final(lhs) == old(lhs).spec_operate(rhs, operation),
    ;

    /// Halving (rounding down) commutes with the operation, and the lowest
    /// bit of the result is the operation applied to the lowest bits of the
    /// operands. Gives back the halved operands.
    proof fn lemma_halves(a: Self, b: Self, operation: Operation) -> (h: (Self, Self))
        ensures
            h.0.value() == a.value() / 2,
            h.1.value() == b.value() / 2,
            h.0.spec_operate(h.1, operation).value() == a.spec_operate(b, operation).value() / 2,
            bit(a.spec_operate(b, operation).value(), 0) == combine_bits(operation, bit(a.value(), 0), bit(b.value(), 0)),
    ;

    /// Xor of a value with itself is zero, and Xor keeps exactly those bits of
    /// Or that And does not have: `(a ^ b) & (a & b) == 0` and
    /// `(a ^ b) | (a & b) == a | b`. And and Or of a value with itself give it back.
    proof fn lemma_xor(a: Self, b: Self)
        ensures
            a.spec_operate(a, Operation::Xor).value() == 0,
            a.spec_operate(b, Operation::Xor).spec_operate(a.spec_operate(b, Operation::And), Operation::And).value() == 0,
            a.spec_operate(b, Operation::Xor).spec_operate(a.spec_operate(b, Operation::And), Operation::Or)
                == a.spec_operate(b, Operation::Or),
            a.spec_operate(a, Operation::And) == a,
            a.spec_operate(a, Operation::Or) == a,
    ;
}

/// Bit `i` (from 0, the lowest) of `v` in two's complement: the parity of `v`
/// halved `i` times, rounding down. A negative value has all its high bits set.
pub open spec fn bit(v: int, i: nat) -> bool
    decreases i,
{
    if i == 0 {
        v % 2 == 1
    } else {
        bit(v / 2, (i - 1) as nat)
    }
}

/// The truth table of `operation` on one bit of each operand.
pub open spec fn combine_bits(operation: Operation, p: bool, q: bool) -> bool {
    match operation {
        Operation::And => p && q,
        Operation::Or => p || q,
        Operation::Xor => p != q,
    }
}

/// For every integer type, each bit of `a` combined with `b` is the
/// operation applied to the bits of `a` and `b` at the same position: And
/// sets a bit where both have it, Or where either has it, Xor where exactly
/// one has it.
pub proof fn lemma_operate_bits<T: BitOperations>(a: T, b: T, operation: Operation, i: nat)
    ensures
        bit(a.spec_operate(b, operation).value(), i) == combine_bits(operation, bit(a.value(), i), bit(b.value(), i)),
    decreases i,
{
    let h = T::lemma_halves(a, b, operation);
    if i > 0 {
        lemma_operate_bits(h.0, h.1, operation, (i - 1) as nat);
    }
}

/// `x` is `2 * h + low` with `low` a bit: then `h` is `x` halved and `low` its lowest bit.
proof fn lemma_split_low_bit(x: int, h: int, low: int)
    requires
        x == 2 * h + low,
        0 <= low <= 1,
    ensures
        h == x / 2,
        bit(x, 0) == (low == 1),
{
    vstd::arithmetic::div_mod::lemma_fundamental_div_mod_converse(x, 2, h, low);
}

impl BitOperations for u8 {
    open spec fn spec_operate(self, rhs: Self, operation: Operation) -> Self {
        match operation {
            Operation::And => self & rhs,
            Operation::Or => self | rhs,
            Operation::Xor => self ^ rhs,
        }
    }

    fn operate_assign(lhs: &mut Self, rhs: Self, operation: Operation) {
        match operation {
            Operation::And => *lhs = *lhs & rhs,
            Operation::Or => *lhs = *lhs | rhs,
            Operation::Xor => *lhs = *lhs ^ rhs,
        }
    }

    proof fn lemma_halves(a: Self, b: Self, operation: Operation) -> (h: (Self, Self)) {
        lemma_u8_bits(a, b);
        let c = a.spec_operate(b, operation);
        lemma_split_low_bit(a as int, (a >> 1) as int, (a & 1) as int);
        lemma_split_low_bit(b as int, (b >> 1) as int, (b & 1) as int);
        lemma_split_low_bit(c as int, (c >> 1) as int, (c & 1) as int);
        (a >> 1, b >> 1)
    }

    proof fn lemma_xor(a: Self, b: Self) {
        lemma_u8_bits(a, b);
    }
}

/// Bit facts of `u8`: halving splits off the lowest bit, halving and the
/// lowest bit commute with each operation, and the Xor identities.
proof fn lemma_u8_bits(a: u8, b: u8)
    by (bit_vector)
    ensures
        (a >> 1) * 2 + (a & 1) == a,
        (b >> 1) * 2 + (b & 1) == b,
        ((a & b) >> 1) * 2 + ((a & b) & 1) == (a & b),
        ((a | b) >> 1) * 2 + ((a | b) & 1) == (a | b),
        ((a ^ b) >> 1) * 2 + ((a ^ b) & 1) == (a ^ b),
        0 <= (a & 1) <= 1,
        0 <= (b & 1) <= 1,
        0 <= ((a & b) & 1) <= 1,
        0 <= ((a | b) & 1) <= 1,
        0 <= ((a ^ b) & 1) <= 1,
        (a & b) >> 1 == (a >> 1) & (b >> 1),
        (a | b) >> 1 == (a >> 1) | (b >> 1),
        (a ^ b) >> 1 == (a >> 1) ^ (b >> 1),
        (((a & b) & 1) == 1) == (((a & 1) == 1) && ((b & 1) == 1)),
        (((a | b) & 1) == 1) == (((a & 1) == 1) || ((b & 1) == 1)),
        (((a ^ b) & 1) == 1) == (((a & 1) == 1) != ((b & 1) == 1)),
        a ^ a == 0,
        (a ^ b) & (a & b) == 0,
        (a ^ b) | (a & b) == a | b,
        a & a == a,
        a | a == a,
{
}

impl BitOperations for i8 {
    open spec fn spec_operate(self, rhs: Self, operation: Operation) -> Self {
        match operation {
            Operation::And => self & rhs,
            Operation::Or => self | rhs,
            Operation::Xor => self ^ rhs,
        }
    }

    fn operate_assign(lhs: &mut Self, rhs: Self, operation: Operation) {
        match operation {
            Operation::And => *lhs = *lhs & rhs,
            Operation::Or => *lhs = *lhs | rhs,
            Operation::Xor => *lhs = *lhs ^ rhs,
        }
    }

    proof fn lemma_halves(a: Self, b: Self, operation: Operation) -> (h: (Self, Self)) {
        lemma_i8_bits(a, b);
        let c = a.spec_operate(b, operation);
        lemma_split_low_bit(a as int, (a >> 1) as int, (a & 1) as int);
        lemma_split_low_bit(b as int, (b >> 1) as int, (b & 1) as int);
        lemma_split_low_bit(c as int, (c >> 1) as int, (c & 1) as int);
        (a >> 1, b >> 1)
    }

    proof fn lemma_xor(a: Self, b: Self) {
        lemma_i8_bits(a, b);
    }
}

/// Bit facts of `i8`: halving splits off the lowest bit, halving and the
/// lowest bit commute with each operation, and the Xor identities.
proof fn lemma_i8_bits(a: i8, b: i8)
    by (bit_vector)
    ensures
        (a >> 1) * 2 + (a & 1) == a,
        (b >> 1) * 2 + (b & 1) == b,
        ((a & b) >> 1) * 2 + ((a & b) & 1) == (a & b),
        ((a | b) >> 1) * 2 + ((a | b) & 1) == (a | b),
        ((a ^ b) >> 1) * 2 + ((a ^ b) & 1) == (a ^ b),
        0 <= (a & 1) <= 1,
        0 <= (b & 1) <= 1,
        0 <= ((a & b) & 1) <= 1,
        0 <= ((a | b) & 1) <= 1,
        0 <= ((a ^ b) & 1) <= 1,
        (a & b) >> 1 == (a >> 1) & (b >> 1),
        (a | b) >> 1 == (a >> 1) | (b >> 1),
        (a ^ b) >> 1 == (a >> 1) ^ (b >> 1),
        (((a & b) & 1) == 1) == (((a & 1) == 1) && ((b & 1) == 1)),
        (((a | b) & 1) == 1) == (((a & 1) == 1) || ((b & 1) == 1)),
        (((a ^ b) & 1) == 1) == (((a & 1) == 1) != ((b & 1) == 1)),
        a ^ a == 0,
        (a ^ b) & (a & b) == 0,
        (a ^ b) | (a & b) == a | b,
        a & a == a,
        a | a == a,
{
}

impl BitOperations for u16 {
    open spec fn spec_operate(self, rhs: Self, operation: Operation) -> Self {
        match operation {
            Operation::And => self & rhs,
            Operation::Or => self | rhs,
            Operation::Xor => self ^ rhs,
        }
    }

    fn operate_assign(lhs: &mut Self, rhs: Self, operation: Operation) {
        match operation {
            Operation::And => *lhs = *lhs & rhs,
            Operation::Or => *lhs = *lhs | rhs,
            Operation::Xor => *lhs = *lhs ^ rhs,
        }
    }

    proof fn lemma_halves(a: Self, b: Self, operation: Operation) -> (h: (Self, Self)) {
        lemma_u16_bits(a, b);
        let c = a.spec_operate(b, operation);
        lemma_split_low_bit(a as int, (a >> 1) as int, (a & 1) as int);
        lemma_split_low_bit(b as int, (b >> 1) as int, (b & 1) as int);
        lemma_split_low_bit(c as int, (c >> 1) as int, (c & 1) as int);
        (a >> 1, b >> 1)
    }

    proof fn lemma_xor(a: Self, b: Self) {
        lemma_u16_bits(a, b);
    }
}

/// Bit facts of `u16`: halving splits off the lowest bit, halving and the
/// lowest bit commute with each operation, and the Xor identities.
proof fn lemma_u16_bits(a: u16, b: u16)
    by (bit_vector)
    ensures
        (a >> 1) * 2 + (a & 1) == a,
        (b >> 1) * 2 + (b & 1) == b,
        ((a & b) >> 1) * 2 + ((a & b) & 1) == (a & b),
        ((a | b) >> 1) * 2 + ((a | b) & 1) == (a | b),
        ((a ^ b) >> 1) * 2 + ((a ^ b) & 1) == (a ^ b),
        0 <= (a & 1) <= 1,
        0 <= (b & 1) <= 1,
        0 <= ((a & b) & 1) <= 1,
        0 <= ((a | b) & 1) <= 1,
        0 <= ((a ^ b) & 1) <= 1,
        (a & b) >> 1 == (a >> 1) & (b >> 1),
        (a | b) >> 1 == (a >> 1) | (b >> 1),
        (a ^ b) >> 1 == (a >> 1) ^ (b >> 1),
        (((a & b) & 1) == 1) == (((a & 1) == 1) && ((b & 1) == 1)),
        (((a | b) & 1) == 1) == (((a & 1) == 1) || ((b & 1) == 1)),
        (((a ^ b) & 1) == 1) == (((a & 1) == 1) != ((b & 1) == 1)),
        a ^ a == 0,
        (a ^ b) & (a & b) == 0,
        (a ^ b) | (a & b) == a | b,
        a & a == a,
        a | a == a,
{
}

impl BitOperations for i16 {
    open spec fn spec_operate(self, rhs: Self, operation: Operation) -> Self {
        match operation {
            Operation::And => self & rhs,
            Operation::Or => self | rhs,
            Operation::Xor => self ^ rhs,
        }
    }

    fn operate_assign(lhs: &mut Self, rhs: Self, operation: Operation) {
        match operation {
            Operation::And => *lhs = *lhs & rhs,
            Operation::Or => *lhs = *lhs | rhs,
            Operation::Xor => *lhs = *lhs ^ rhs,
        }
    }

    proof fn lemma_halves(a: Self, b: Self, operation: Operation) -> (h: (Self, Self)) {
        lemma_i16_bits(a, b);
        let c = a.spec_operate(b, operation);
        lemma_split_low_bit(a as int, (a >> 1) as int, (a & 1) as int);
        lemma_split_low_bit(b as int, (b >> 1) as int, (b & 1) as int);
        lemma_split_low_bit(c as int, (c >> 1) as int, (c & 1) as int);
        (a >> 1, b >> 1)
    }

    proof fn lemma_xor(a: Self, b: Self) {
        lemma_i16_bits(a, b);
    }
}

/// Bit facts of `i16`: halving splits off the lowest bit, halving and the
/// lowest bit commute with each operation, and the Xor identities.
proof fn lemma_i16_bits(a: i16, b: i16)
    by (bit_vector)
    ensures
        (a >> 1) * 2 + (a & 1) == a,
        (b >> 1) * 2 + (b & 1) == b,
        ((a & b) >> 1) * 2 + ((a & b) & 1) == (a & b),
        ((a | b) >> 1) * 2 + ((a | b) & 1) == (a | b),
        ((a ^ b) >> 1) * 2 + ((a ^ b) & 1) == (a ^ b),
        0 <= (a & 1) <= 1,
        0 <= (b & 1) <= 1,
        0 <= ((a & b) & 1) <= 1,
        0 <= ((a | b) & 1) <= 1,
        0 <= ((a ^ b) & 1) <= 1,
        (a & b) >> 1 == (a >> 1) & (b >> 1),
        (a | b) >> 1 == (a >> 1) | (b >> 1),
        (a ^ b) >> 1 == (a >> 1) ^ (b >> 1),
        (((a & b) & 1) == 1) == (((a & 1) == 1) && ((b & 1) == 1)),
        (((a | b) & 1) == 1) == (((a & 1) == 1) || ((b & 1) == 1)),
        (((a ^ b) & 1) == 1) == (((a & 1) == 1) != ((b & 1) == 1)),
        a ^ a == 0,
        (a ^ b) & (a & b) == 0,
        (a ^ b) | (a & b) == a | b,
        a & a == a,
        a | a == a,
{
}

impl BitOperations for u32 {
    open spec fn spec_operate(self, rhs: Self, operation: Operation) -> Self {
        match operation {
            Operation::And => self & rhs,
            Operation::Or => self | rhs,
            Operation::Xor => self ^ rhs,
        }
    }

    fn operate_assign(lhs: &mut Self, rhs: Self, operation: Operation) {
        match operation {
            Operation::And => *lhs = *lhs & rhs,
            Operation::Or => *lhs = *lhs | rhs,
            Operation::Xor => *lhs = *lhs ^ rhs,
        }
    }

    proof fn lemma_halves(a: Self, b: Self, operation: Operation) -> (h: (Self, Self)) {
        lemma_u32_bits(a, b);
        let c = a.spec_operate(b, operation);
        lemma_split_low_bit(a as int, (a >> 1) as int, (a & 1) as int);
        lemma_split_low_bit(b as int, (b >> 1) as int, (b & 1) as int);
        lemma_split_low_bit(c as int, (c >> 1) as int, (c & 1) as int);
        (a >> 1, b >> 1)
    }

    proof fn lemma_xor(a: Self, b: Self) {
        lemma_u32_bits(a, b);
    }
}

/// Bit facts of `u32`: halving splits off the lowest bit, halving and the
/// lowest bit commute with each operation, and the Xor identities.
proof fn lemma_u32_bits(a: u32, b: u32)
    by (bit_vector)
    ensures
        (a >> 1) * 2 + (a & 1) == a,
        (b >> 1) * 2 + (b & 1) == b,
        ((a & b) >> 1) * 2 + ((a & b) & 1) == (a & b),
        ((a | b) >> 1) * 2 + ((a | b) & 1) == (a | b),
        ((a ^ b) >> 1) * 2 + ((a ^ b) & 1) == (a ^ b),
        0 <= (a & 1) <= 1,
        0 <= (b & 1) <= 1,
        0 <= ((a & b) & 1) <= 1,
        0 <= ((a | b) & 1) <= 1,
        0 <= ((a ^ b) & 1) <= 1,
        (a & b) >> 1 == (a >> 1) & (b >> 1),
        (a | b) >> 1 == (a >> 1) | (b >> 1),
        (a ^ b) >> 1 == (a >> 1) ^ (b >> 1),
        (((a & b) & 1) == 1) == (((a & 1) == 1) && ((b & 1) == 1)),
        (((a | b) & 1) == 1) == (((a & 1) == 1) || ((b & 1) == 1)),
        (((a ^ b) & 1) == 1) == (((a & 1) == 1) != ((b & 1) == 1)),
        a ^ a == 0,
        (a ^ b) & (a & b) == 0,
        (a ^ b) | (a & b) == a | b,
        a & a == a,
        a | a == a,
{
}

impl BitOperations for i32 {
    open spec fn spec_operate(self, rhs: Self, operation: Operation) -> Self {
        match operation {
            Operation::And => self & rhs,
            Operation::Or => self | rhs,
            Operation::Xor => self ^ rhs,
        }
    }

    fn operate_assign(lhs: &mut Self, rhs: Self, operation: Operation) {
        match operation {
            Operation::And => *lhs = *lhs & rhs,
            Operation::Or => *lhs = *lhs | rhs,
            Operation::Xor => *lhs = *lhs ^ rhs,
        }
    }

    proof fn lemma_halves(a: Self, b: Self, operation: Operation) -> (h: (Self, Self)) {
        lemma_i32_bits(a, b);
        let c = a.spec_operate(b, operation);
        lemma_split_low_bit(a as int, (a >> 1) as int, (a & 1) as int);
        lemma_split_low_bit(b as int, (b >> 1) as int, (b & 1) as int);
        lemma_split_low_bit(c as int, (c >> 1) as int, (c & 1) as int);
        (a >> 1, b >> 1)
    }

    proof fn lemma_xor(a: Self, b: Self) {
        lemma_i32_bits(a, b);
    }
}

/// Bit facts of `i32`: halving splits off the lowest bit, halving and the
/// lowest bit commute with each operation, and the Xor identities.
proof fn lemma_i32_bits(a: i32, b: i32)
    by (bit_vector)
    ensures
        (a >> 1) * 2 + (a & 1) == a,
        (b >> 1) * 2 + (b & 1) == b,
        ((a & b) >> 1) * 2 + ((a & b) & 1) == (a & b),
        ((a | b) >> 1) * 2 + ((a | b) & 1) == (a | b),
        ((a ^ b) >> 1) * 2 + ((a ^ b) & 1) == (a ^ b),
        0 <= (a & 1) <= 1,
        0 <= (b & 1) <= 1,
        0 <= ((a & b) & 1) <= 1,
        0 <= ((a | b) & 1) <= 1,
        0 <= ((a ^ b) & 1) <= 1,
        (a & b) >> 1 == (a >> 1) & (b >> 1),
        (a | b) >> 1 == (a >> 1) | (b >> 1),
        (a ^ b) >> 1 == (a >> 1) ^ (b >> 1),
        (((a & b) & 1) == 1) == (((a & 1) == 1) && ((b & 1) == 1)),
        (((a | b) & 1) == 1) == (((a & 1) == 1) || ((b & 1) == 1)),
        (((a ^ b) & 1) == 1) == (((a & 1) == 1) != ((b & 1) == 1)),
        a ^ a == 0,
        (a ^ b) & (a & b) == 0,
        (a ^ b) | (a & b) == a | b,
        a & a == a,
        a | a == a,
{
}

/// The operands combined from left to right: `((s[0] op s[1]) op s[2]) ...`.
pub open spec fn fold_operation<T: BitOperations>(s: Seq<T>, operation: Operation) -> T
    decreases s.len(),
{
    if s.len() <= 1 {
        s[0]
    } else {
        fold_operation(s.drop_last(), operation).spec_operate(s.last(), operation)
    }
}

/// Combines `inputs` from left to right.
pub fn fold_scalars<T: BitOperations>(inputs: &[T], operation: Operation) -> (r: T)
    requires
        inputs@.len() >= 1,
    ensures
        r == fold_operation(inputs@, operation),
{
    let mut acc = inputs[0];
    let mut i: usize = 1;
    assert(inputs@.take(1) =~= seq![inputs@[0]]);
    while i < inputs.len()
        invariant
            1 <= i <= inputs@.len(),
            acc == fold_operation(inputs@.take(i as int), operation),
        decreases inputs@.len() - i,
    {
        T::operate_assign(&mut acc, inputs[i], operation);
        assert(inputs@.take(i + 1).drop_last() =~= inputs@.take(i as int));
        i = i + 1;
    }
    assert(inputs@.take(i as int) =~= inputs@);
    acc
}

/// An operand of the matrix form of the block: a matrix, or a scalar that
/// applies to every element.
#[derive(Clone, Copy, Debug, PartialEq)]
pub enum Operand<const NROWS: usize, const NCOLS: usize, T: Scalar> {
    Scalar(T),
    Matrix(Matrix<NROWS, NCOLS, T>),
}

/// The value an operand contributes at row `r`, column `c`.
pub open spec fn operand_at<const NROWS: usize, const NCOLS: usize, T: Scalar>(o: Operand<NROWS, NCOLS, T>, r: int, c: int) -> T {
    match o {
        Operand::Scalar(s) => s,
        Operand::Matrix(m) => m.at(r, c),
    }
}

/// The values combined at row `r`, column `c`, one per operand in order.
pub open spec fn operands_at<const NROWS: usize, const NCOLS: usize, T: Scalar>(
    inputs: Seq<Operand<NROWS, NCOLS, T>>,
    r: int,
    c: int,
) -> Seq<T> {
    inputs.map_values(|o: Operand<NROWS, NCOLS, T>| operand_at(o, r, c))
}

fn fold_at<const NROWS: usize, const NCOLS: usize, T: BitOperations>(
    inputs: &[Operand<NROWS, NCOLS, T>],
    r: usize,
    c: usize,
    operation: Operation,
) -> (v: T)
    requires
        r < NROWS,
        c < NCOLS,
        inputs@.len() >= 1,
    ensures
        v == fold_operation(operands_at(inputs@, r as int, c as int), operation),
{
    let ghost all = operands_at(inputs@, r as int, c as int);
    let mut acc = match inputs[0] {
        Operand::Scalar(s) => s,
        Operand::Matrix(m) => m.get(r, c),
    };
    let mut k: usize = 1;
    assert(all.take(1) =~= seq![all[0]]);
    while k < inputs.len()
        invariant
            1 <= k <= inputs@.len(),
            r < NROWS,
            c < NCOLS,
            all == operands_at(inputs@, r as int, c as int),
            all.len() == inputs@.len(),
            acc == fold_operation(all.take(k as int), operation),
        decreases inputs@.len() - k,
    {
        let v = match inputs[k] {
            Operand::Scalar(s) => s,
            Operand::Matrix(m) => m.get(r, c),
        };
        assert(all[k as int] == operand_at(inputs@[k as int], r as int, c as int));
        T::operate_assign(&mut acc, v, operation);
        assert(all.take(k + 1).drop_last() =~= all.take(k as int));
        k = k + 1;
    }
    assert(all.take(k as int) =~= all);
    acc
}

/// Applies the bitwise operation to its inputs; the inputs must all have
/// the same shape.
pub struct BitwiseOperatorBlock<T: BitOperations> {
    pub buffer: Option<T>,
}

impl<T: BitOperations> Default for BitwiseOperatorBlock<T> {
    fn default() -> (b: Self)
        ensures
            b.buffer is None,
    {
        BitwiseOperatorBlock { buffer: None }
    }
}

impl<T: BitOperations> BitwiseOperatorBlock<T> {
    /// Combines the scalar inputs from left to right.
    pub fn process<C: Context>(&mut self, operation: &Operation, _context: &C, inputs: &[T]) -> (out: T)
        requires
            inputs@.len() >= 1,
        ensures
            out == fold_operation(inputs@, *operation),
            final(self).buffer == Some(out),
    {
        let out = fold_scalars(inputs, *operation);
        self.buffer = Some(out);
        out
    }

    /// Combines the operands element by element, from left to right; a
    /// scalar operand applies to every element.
    pub fn process_matrix<const NROWS: usize, const NCOLS: usize, C: Context>(
        &mut self,
        operation: &Operation,
        _context: &C,
        inputs: &[Operand<NROWS, NCOLS, T>],
    ) -> (out: Matrix<NROWS, NCOLS, T>)
        requires
            inputs@.len() >= 1,
        ensures
            *final(self) == *old(self),
            forall|r: int, c: int| 0 <= r < NROWS && 0 <= c < NCOLS ==> #[trigger] out.at(r, c)
                == fold_operation(operands_at(inputs@, r, c), *operation),
    {
        let operation = *operation;
        let mut out = Matrix::<NROWS, NCOLS, T>::zeroed();
        let mut c: usize = 0;
        while c < NCOLS
            invariant
                0 <= c <= NCOLS,
                inputs@.len() >= 1,
                forall|i: int, j: int| 0 <= i < NROWS && 0 <= j < c ==> (#[trigger] out.at(i, j)) == fold_operation(operands_at(inputs@, i, j), operation),
            decreases NCOLS - c,
        {
            let mut r: usize = 0;
            while r < NROWS
                invariant
                    0 <= r <= NROWS,
                    0 <= c < NCOLS,
                    inputs@.len() >= 1,
                    forall|i: int, j: int| 0 <= i < NROWS && 0 <= j < c ==> (#[trigger] out.at(i, j)) == fold_operation(operands_at(inputs@, i, j), operation),
                    forall|i: int| 0 <= i < r ==> (#[trigger] out.at(i, c as int)) == fold_operation(operands_at(inputs@, i, c as int), operation),
                decreases NROWS - r,
            {
                let v = fold_at(inputs, r, c, operation);
                out.set(r, c, v);
                r = r + 1;
            }
            c = c + 1;
        }
        out
    }
}

} // verus!
