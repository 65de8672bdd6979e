//! Shifts the bits of a signed integer input left or right by a fixed number
//! of positions; a matrix is shifted element by element.
use crate::context::Context;
use crate::matrix::Matrix;
use crate::scalar::Scalar;
use crate::text::{bytes_equal, ParseEnumError};
use vstd::arithmetic::power2::pow2;
use vstd::prelude::*;
use vstd::string::StringSliceAdditionalSpecFns;

verus! {

/// The direction of a bit shift.
#[derive(Clone, Copy, Debug, PartialEq, Eq, Structural)]
pub enum ShiftDirection {
    Left,
    Right,
}

/// The variant named `s` (`"Left"`, `"Right"`).
pub open spec fn spec_parse_shift_direction(s: Seq<u8>) -> Option<ShiftDirection> {
    if s == "Left".spec_bytes() {
        Some(ShiftDirection::Left)
    } else if s == "Right".spec_bytes() {
        Some(ShiftDirection::Right)
    } else {
        None
    }
}

impl ShiftDirection {
    /// The variant named `s` (`"Left"`, `"Right"`); `None` for any other text.
    pub fn parse(s: &str) -> (r: Option<Self>)
        ensures
            r == spec_parse_shift_direction(s.spec_bytes()),
    {
        let b = s.as_bytes();
        if bytes_equal(b, "Left".as_bytes()) {
            Some(ShiftDirection::Left)
        } else if bytes_equal(b, "Right".as_bytes()) {
            Some(ShiftDirection::Right)
        } else {
            None
        }
    }
}

impl core::str::FromStr for ShiftDirection {
    type Err = ParseEnumError;

    fn from_str(s: &str) -> (r: Result<Self, Self::Err>)
        ensures
            r == match spec_parse_shift_direction(s.spec_bytes()) {
                Some(v) => Ok(v),
                None => Err(ParseEnumError),
            },
    {
        match Self::parse(s) {
            Some(v) => Ok(v),
            None => Err(ParseEnumError),
        }
    }
}

/// Parameters of the bit shift block.
pub struct Parameters {
    /// Direction of the shift.
    pub direction: ShiftDirection,
    /// Number of bit positions to shift by.
    pub bits: u8,
}

impl Parameters {
    /// `direction` must name a [`ShiftDirection`].
    pub fn new(direction: &str, bits: u8) -> (p: Self)
        requires
            spec_parse_shift_direction(direction.spec_bytes()) is Some,
        ensures
            Some(p.direction) == spec_parse_shift_direction(direction.spec_bytes()),
            p.bits == bits,
    {
        Parameters { direction: ShiftDirection::parse(direction).unwrap(), bits }
    }
}

/// Signed integer types the block shifts. Bits shifted out are lost; a right
/// shift copies the sign bit.
pub trait BitShift: Scalar {
    /// The number of bits of the type.
    spec fn width() -> nat;

    /// `self` shifted by `bits` positions in `direction`.
    spec fn spec_shift(self, direction: ShiftDirection, bits: u8) -> Self;

    fn shift(self, direction: ShiftDirection, bits: u8) -> (r: Self)
        requires
            (bits as nat) < Self::width(),
        ensures
            r == self.spec_shift(direction, bits),
    ;

    /// The type holds the values of `width` bits in two's complement.
    proof fn lemma_width()
        ensures
            Self::width() >= 2,
            Self::min_value() == -pow2((Self::width() - 1) as nat),
            Self::max_value() == pow2((Self::width() - 1) as nat) - 1,
    ;

    /// A shift by zero gives the value back, and a shift by `k + 1` is a
    /// shift by `k` followed by a shift by one.
    proof fn lemma_shift_steps(self, direction: ShiftDirection, k: u8)
        requires
            (k as nat) + 1 < Self::width(),
        ensures
            self.spec_shift(direction, 0) == self,
            self.spec_shift(direction, (k + 1) as u8) == self.spec_shift(direction, k).spec_shift(direction, 1),
    ;

    /// A shift right by one halves the value, rounding down; a shift left by
    /// one doubles it, wrapped to the type's width.
    proof fn lemma_shift_one(self)
        ensures
            2 * self.spec_shift(ShiftDirection::Right, 1).value() <= self.value(),
            self.value() <= 2 * self.spec_shift(ShiftDirection::Right, 1).value() + 1,
            (2 * self.value() - self.spec_shift(ShiftDirection::Left, 1).value()) % (pow2(Self::width()) as int) == 0,
    ;
}

/// For every type, a right shift by `bits` is division by `2^bits` rounding
/// down: the sign is kept, and a negative value rounds toward negative infinity.
pub proof fn lemma_shift_right_divides<T: BitShift>(a: T, bits: u8)
    requires
        (bits as nat) < T::width(),
    ensures
        a.spec_shift(ShiftDirection::Right, bits).value() * pow2(bits as nat) <= a.value(),
        a.value() < (a.spec_shift(ShiftDirection::Right, bits).value() + 1) * pow2(bits as nat),
        a.spec_shift(ShiftDirection::Right, bits).value() == a.value() / (pow2(bits as nat) as int),
    decreases bits,
{
    let r = a.spec_shift(ShiftDirection::Right, bits).value();
    let x = a.value();
    T::lemma_width();
    a.lemma_shift_steps(ShiftDirection::Right, 0);
    vstd::arithmetic::power2::lemma_pow2_pos(bits as nat);
    if bits == 0 {
        vstd::arithmetic::power2::lemma2_to64();
    } else {
        let k = (bits - 1) as u8;
        lemma_shift_right_divides(a, k);
        a.lemma_shift_steps(ShiftDirection::Right, k);
        let p = a.spec_shift(ShiftDirection::Right, k);
        p.lemma_shift_one();
        vstd::arithmetic::power2::lemma_pow2_unfold(bits as nat);
        let q = p.value();
        let e = pow2(k as nat) as int;
        assert(pow2(bits as nat) == 2 * e);
        assert(r * (2 * e) <= x && x < (r + 1) * (2 * e)) by (nonlinear_arith)
            requires
                q * e <= x,
                x < (q + 1) * e,
                2 * r <= q <= 2 * r + 1,
                e > 0,
        ;
    }
    let d = pow2(bits as nat) as int;
    assert(0 <= x - r * d < d) by (nonlinear_arith)
        requires
            r * d <= x,
            x < (r + 1) * d,
    ;
    vstd::arithmetic::div_mod::lemma_fundamental_div_mod_converse(x, d, r, x - r * d);
}

/// Two multiples of `m` give one again when the first is doubled and the second added.
proof fn lemma_multiple_double_add(x: int, y: int, m: int)
    requires
        m > 0,
        x % m == 0,
        y % m == 0,
    ensures
        (2 * x + y) % m == 0,
{
    vstd::arithmetic::div_mod::lemma_fundamental_div_mod(x, m);
    vstd::arithmetic::div_mod::lemma_fundamental_div_mod(y, m);
    let q = 2 * (x / m) + y / m;
    assert(2 * x + y == q * m) by (nonlinear_arith)
        requires
            x == m * (x / m),
            y == m * (y / m),
            q == 2 * (x / m) + y / m,
    ;
    vstd::arithmetic::div_mod::lemma_mod_multiples_basic(q, m);
}

/// For every type, a left shift by `bits` is multiplication by `2^bits`
/// wrapped to the type's width: the result differs from `a * 2^bits` by a
/// multiple of `2^width`, and equals it where the product fits the type.
pub proof fn lemma_shift_left_multiplies<T: BitShift>(a: T, bits: u8)
    requires
        (bits as nat) < T::width(),
    ensures
        (a.value() * pow2(bits as nat) - a.spec_shift(ShiftDirection::Left, bits).value()) % (pow2(T::width()) as int) == 0,
        T::min_value() <= a.value() * pow2(bits as nat) <= T::max_value() ==> a.spec_shift(ShiftDirection::Left, bits).value()
            == a.value() * pow2(bits as nat),
    decreases bits,
{
    let x = a.value();
    let r = a.spec_shift(ShiftDirection::Left, bits);
    let m = pow2(T::width()) as int;
    T::lemma_width();
    a.lemma_shift_steps(ShiftDirection::Left, 0);
    vstd::arithmetic::power2::lemma_pow2_pos(T::width());
    vstd::arithmetic::power2::lemma_pow2_unfold(T::width());
    if bits == 0 {
        assert(pow2(0) == 1) by {
            vstd::arithmetic::power2::lemma2_to64();
        }
        assert(x * pow2(bits as nat) - r.value() == 0);
        vstd::arithmetic::div_mod::lemma_mod_multiples_basic(0, m);
    } else {
        let k = (bits - 1) as u8;
        lemma_shift_left_multiplies(a, k);
        a.lemma_shift_steps(ShiftDirection::Left, k);
        let p = a.spec_shift(ShiftDirection::Left, k);
        p.lemma_shift_one();
        vstd::arithmetic::power2::lemma_pow2_unfold(bits as nat);
        let e = pow2(k as nat) as int;
        assert(x * pow2(bits as nat) - r.value() == 2 * (x * e - p.value()) + (2 * p.value() - r.value())) by (nonlinear_arith)
            requires
                pow2(bits as nat) == 2 * e,
        ;
        lemma_multiple_double_add(x * e - p.value(), 2 * p.value() - r.value(), m);
    }
    let d = x * pow2(bits as nat) - r.value();
    r.lemma_value(r);
    if T::min_value() <= x * pow2(bits as nat) <= T::max_value() {
        vstd::arithmetic::div_mod::lemma_fundamental_div_mod(d, m);
        assert(d == 0) by (nonlinear_arith)
            requires
                d == m * (d / m),
                -m < d < m,
        ;
    }
}

impl BitShift for i8 {
    open spec fn width() -> nat {
        8
    }

    open spec fn spec_shift(self, direction: ShiftDirection, bits: u8) -> Self {
        match direction {
            ShiftDirection::Left => self << bits,
            ShiftDirection::Right => self >> bits,
        }
    }

    fn shift(self, direction: ShiftDirection, bits: u8) -> (r: Self) {
        match direction {
            ShiftDirection::Left => self << bits,
            ShiftDirection::Right => self >> bits,
        }
    }

    proof fn lemma_width() {
        vstd::arithmetic::power2::lemma2_to64();
    }

    proof fn lemma_shift_steps(self, direction: ShiftDirection, k: u8) {
        let x = self;
        assert(x >> 0u8 == x && x << 0u8 == x) by (bit_vector);
        assert(x >> ((k + 1) as u8) == (x >> k) >> 1u8 && x << ((k + 1) as u8) == (x << k) << 1u8) by (bit_vector)
            requires
                k < 7,
        ;
    }

    proof fn lemma_shift_one(self) {
        let x = self;
        vstd::arithmetic::power2::lemma2_to64();
        assert((x >> 1u8) * 2 <= x <= (x >> 1u8) * 2 + 1) by (bit_vector);
        assert(x * 2 - (x << 1u8) == 0 || x * 2 - (x << 1u8) == 0x100 || x * 2 - (x << 1u8) == -0x100) by (bit_vector);
    }
}

impl BitShift for i16 {
    open spec fn width() -> nat {
        16
    }

    open spec fn spec_shift(self, direction: ShiftDirection, bits: u8) -> Self {
        match direction {
            ShiftDirection::Left => self << bits,
            ShiftDirection::Right => self >> bits,
        }
    }

    fn shift(self, direction: ShiftDirection, bits: u8) -> (r: Self) {
        match direction {
            ShiftDirection::Left => self << bits,
            ShiftDirection::Right => self >> bits,
        }
    }

    proof fn lemma_width() {
        vstd::arithmetic::power2::lemma2_to64();
    }

    proof fn lemma_shift_steps(self, direction: ShiftDirection, k: u8) {
        let x = self;
        assert(x >> 0u8 == x && x << 0u8 == x) by (bit_vector);
        assert(x >> ((k + 1) as u8) == (x >> k) >> 1u8 && x << ((k + 1) as u8) == (x << k) << 1u8) by (bit_vector)
            requires
                k < 15,
        ;
    }

    proof fn lemma_shift_one(self) {
        let x = self;
        vstd::arithmetic::power2::lemma2_to64();
        assert((x >> 1u8) * 2 <= x <= (x >> 1u8) * 2 + 1) by (bit_vector);
        assert(x * 2 - (x << 1u8) == 0 || x * 2 - (x << 1u8) == 0x1_0000 || x * 2 - (x << 1u8) == -0x1_0000) by (bit_vector);
    }
}

impl BitShift for i32 {
    open spec fn width() -> nat {
        32
    }

    open spec fn spec_shift(self, direction: ShiftDirection, bits: u8) -> Self {
        match direction {
            ShiftDirection::Left => self << bits,
            ShiftDirection::Right => self >> bits,
        }
    }

    fn shift(self, direction: ShiftDirection, bits: u8) -> (r: Self) {
        match direction {
            ShiftDirection::Left => self << bits,
            ShiftDirection::Right => self >> bits,
        }
    }

    proof fn lemma_width() {
        vstd::arithmetic::power2::lemma2_to64();
    }

    proof fn lemma_shift_steps(self, direction: ShiftDirection, k: u8) {
        let x = self;
        assert(x >> 0u8 == x && x << 0u8 == x) by (bit_vector);
        assert(x >> ((k + 1) as u8) == (x >> k) >> 1u8 && x << ((k + 1) as u8) == (x << k) << 1u8) by (bit_vector)
            requires
                k < 31,
        ;
    }

    proof fn lemma_shift_one(self) {
        let x = self;
        vstd::arithmetic::power2::lemma2_to64();
        assert((x >> 1u8) * 2 <= x <= (x >> 1u8) * 2 + 1) by (bit_vector);
        assert(x * 2 - (x << 1u8) == 0 || x * 2 - (x << 1u8) == 0x1_0000_0000 || x * 2 - (x << 1u8) == -0x1_0000_0000) by (bit_vector);
    }
}

/// Shifts its input by the number of bits in its parameters.
pub struct BitShiftBlock<T: BitShift> {
    pub buffer: Option<T>,
}

impl<T: BitShift> Default for BitShiftBlock<T> {
    fn default() -> (b: Self)
        ensures
            b.buffer is None,
    {
        BitShiftBlock { buffer: None }
    }
}

impl<T: BitShift> BitShiftBlock<T> {
    /// The input shifted; the shift must be narrower than the type.
    pub fn process<C: Context>(&mut self, parameters: &Parameters, _context: &C, input: T) -> (out: T)
        requires
            (parameters.bits as nat) < T::width(),
        ensures
            out == input.spec_shift(parameters.direction, parameters.bits),
            final(self).buffer == Some(out),
    {
        let out = input.shift(parameters.direction, parameters.bits);
        self.buffer = Some(out);
        out
    }

    /// Each element of the input shifted.
    pub fn process_matrix<const NROWS: usize, const NCOLS: usize, C: Context>(
        &mut self,
        parameters: &Parameters,
        _context: &C,
        input: &Matrix<NROWS, NCOLS, T>,
    ) -> (out: Matrix<NROWS, NCOLS, T>)
        requires
            (parameters.bits as nat) < T::width(),
        ensures
            *final(self) == *old(self),
            forall|r: int, c: int| 0 <= r < NROWS && 0 <= c < NCOLS ==> #[trigger] out.at(r, c)
                == input.at(r, c).spec_shift(parameters.direction, parameters.bits),
    {
        let d = parameters.direction;
        let bits = parameters.bits;
        let mut out = Matrix::<NROWS, NCOLS, T>::zeroed();
        let mut c: usize = 0;
        while c < NCOLS
            invariant
                0 <= c <= NCOLS,
                    (bits as nat) < T::width(),
                forall|i: int, j: int| 0 <= i < NROWS && 0 <= j < c ==> (#[trigger] out.at(i, j)) == input.at(i, j).spec_shift(d, bits),
            decreases NCOLS - c,
        {
            let mut r: usize = 0;
            while r < NROWS
                invariant
                    0 <= r <= NROWS,
                    0 <= c < NCOLS,
                        (bits as nat) < T::width(),
                    forall|i: int, j: int| 0 <= i < NROWS && 0 <= j < c ==> (#[trigger] out.at(i, j)) == input.at(i, j).spec_shift(d, bits),
                    forall|i: int| 0 <= i < r ==> (#[trigger] out.at(i, c as int)) == input.at(i, (c as int)).spec_shift(d, bits),
                decreases NROWS - r,
            {
                let v = input.get(r, c).shift(d, bits);
                out.set(r, c, v);
                r = r + 1;
            }
            c = c + 1;
        }
        out
    }
}

} // verus!
