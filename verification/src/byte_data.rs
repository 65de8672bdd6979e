//! Byte layouts of numeric fields: the data types a field can have, their
//! byte order, the textual field specs such as `"I16:BigEndian"`, and the
//! packing and unpacking of fields. Byte-level reads and writes go through
//! the `byteorder` crate.
use crate::text::{bytes_equal, split_once, spec_split_once};
use byteorder::{BigEndian, ByteOrder, LittleEndian};
use vstd::arithmetic::div_mod::{lemma_fundamental_div_mod, lemma_small_mod};
use vstd::prelude::*;
use vstd::string::StringSliceAdditionalSpecFns;

verus! {

/// `256^k`: the number of distinct values of `k` bytes.
pub open spec fn pow256(k: nat) -> nat
    decreases k,
{
    if k == 0 {
        1
    } else {
        256 * pow256((k - 1) as nat)
    }
}

/// The `k` least significant base-256 digits of `x`, least significant first.
pub open spec fn le_bytes(x: nat, k: nat) -> Seq<u8>
    decreases k,
{
    if k == 0 {
        Seq::empty()
    } else {
        seq![(x % 256) as u8] + le_bytes(x / 256, (k - 1) as nat)
    }
}

/// The number whose base-256 digits, least significant first, are `s`.
pub open spec fn le_value(s: Seq<u8>) -> nat
    decreases s.len(),
{
    if s.len() == 0 {
        0
    } else {
        s[0] as nat + 256 * le_value(s.drop_first())
    }
}

/// Two's complement reading of the `k`-byte unsigned value `u`.
pub open spec fn to_signed(u: nat, k: nat) -> int {
    if u >= pow256(k) / 2 {
        u - pow256(k)
    } else {
        u as int
    }
}

/// The numeric type of a packed field. `F32` and `F64` fields carry the IEEE 754
/// bit pattern of the number as an unsigned value.
#[derive(Clone, Copy, Debug, PartialEq, Eq, Structural)]
pub enum DataType {
    U8,
    I8,
    U16,
    I16,
    U24,
    I24,
    U32,
    I32,
    U64,
    I64,
    U128,
    I128,
    F32,
    F64,
}

/// The order in which the bytes of a field are laid out.
#[derive(Clone, Copy, Debug, PartialEq, Eq, Structural)]
pub enum ByteOrderSpec {
    BigEndian,
    LittleEndian,
}

impl DataType {
    /// Number of bytes of a field of this type.
    pub open spec fn size(self) -> nat {
        match self {
            DataType::U8 | DataType::I8 => 1,
            DataType::U16 | DataType::I16 => 2,
            DataType::U24 | DataType::I24 => 3,
            DataType::U32 | DataType::I32 | DataType::F32 => 4,
            DataType::U64 | DataType::I64 | DataType::F64 => 8,
            DataType::U128 | DataType::I128 => 16,
        }
    }

    /// Whether the field holds a two's complement signed integer.
    pub open spec fn signed(self) -> bool {
        match self {
            DataType::I8 | DataType::I16 | DataType::I24 | DataType::I32 | DataType::I64
            | DataType::I128 => true,
            _ => false,
        }
    }

    /// Whether the integer `x` can be stored in a field of this type.
    pub open spec fn fits(self, x: int) -> bool {
        if self.signed() {
            -(pow256(self.size()) / 2) <= x < pow256(self.size()) / 2
        } else {
            0 <= x < pow256(self.size())
        }
    }

    /// Number of bytes of a field of this type.
    pub fn byte_size(&self) -> (n: usize)
        ensures
            n == self.size(),
    {
        match self {
            DataType::U8 | DataType::I8 => 1,
            DataType::U16 | DataType::I16 => 2,
            DataType::U24 | DataType::I24 => 3,
            DataType::U32 | DataType::I32 | DataType::F32 => 4,
            DataType::U64 | DataType::I64 | DataType::F64 => 8,
            DataType::U128 | DataType::I128 => 16,
        }
    }

    /// Whether the field holds a two's complement signed integer.
    pub fn is_signed(&self) -> (b: bool)
        ensures
            b == self.signed(),
    {
        match self {
            DataType::I8 | DataType::I16 | DataType::I24 | DataType::I32 | DataType::I64
            | DataType::I128 => true,
            _ => false,
        }
    }
}

/// The number of distinct values of a field of type `dt`, for every type
/// narrower than 16 bytes.
proof fn lemma_pow256_small()
    ensures
        pow256(1) == 0x100,
        pow256(2) == 0x1_0000,
        pow256(3) == 0x100_0000,
        pow256(4) == 0x1_0000_0000,
        pow256(8) == 0x1_0000_0000_0000_0000,
{
    reveal_with_fuel(pow256, 9);
}

impl DataType {
    /// Whether `v` can be stored in a field of this type.
    pub fn fits_value(&self, v: FieldValue) -> (b: bool)
        ensures
            b == self.fits(v.val()),
    {
        proof {
            lemma_pow256_small();
            lemma_pow256_16();
        }
        let (lo, hi): (i128, u128) = match self {
            DataType::U8 => (0, 0xFF),
            DataType::I8 => (-0x80, 0x7F),
            DataType::U16 => (0, 0xFFFF),
            DataType::I16 => (-0x8000, 0x7FFF),
            DataType::U24 => (0, 0xFF_FFFF),
            DataType::I24 => (-0x80_0000, 0x7F_FFFF),
            DataType::U32 | DataType::F32 => (0, 0xFFFF_FFFF),
            DataType::I32 => (-0x8000_0000, 0x7FFF_FFFF),
            DataType::U64 | DataType::F64 => (0, 0xFFFF_FFFF_FFFF_FFFF),
            DataType::I64 => (-0x8000_0000_0000_0000, 0x7FFF_FFFF_FFFF_FFFF),
            DataType::U128 => (0, 0xFFFF_FFFF_FFFF_FFFF_FFFF_FFFF_FFFF_FFFF),
            DataType::I128 => (-0x8000_0000_0000_0000_0000_0000_0000_0000, 0x7FFF_FFFF_FFFF_FFFF_FFFF_FFFF_FFFF_FFFF),
        };
        match v {
            FieldValue::Unsigned(u) => u <= hi,
            FieldValue::Signed(i) => lo <= i && (i < 0 || (i as u128) <= hi),
        }
    }
}

/// The bytes of a field of type `dt` holding `x`, in the given byte order.
pub open spec fn encode_field(dt: DataType, order: ByteOrderSpec, x: int) -> Seq<u8> {
    let k = dt.size();
    let le = le_bytes((x % (pow256(k) as int)) as nat, k);
    match order {
        ByteOrderSpec::LittleEndian => le,
        ByteOrderSpec::BigEndian => le.reverse(),
    }
}

/// The integer held by the bytes `s` of a field of type `dt` in the given byte order.
pub open spec fn decode_field(dt: DataType, order: ByteOrderSpec, s: Seq<u8>) -> int {
    let le = match order {
        ByteOrderSpec::LittleEndian => s,
        ByteOrderSpec::BigEndian => s.reverse(),
    };
    if dt.signed() {
        to_signed(le_value(le), dt.size())
    } else {
        le_value(le) as int
    }
}

/// The value of one field.
#[derive(Clone, Copy, Debug, PartialEq, Eq, Structural)]
pub enum FieldValue {
    Unsigned(u128),
    Signed(i128),
}

impl FieldValue {
    /// The integer the field value stands for.
    pub open spec fn val(self) -> int {
        match self {
            FieldValue::Unsigned(u) => u as int,
            FieldValue::Signed(i) => i as int,
        }
    }
}

proof fn lemma_pow256_facts(k: nat)
    ensures
        pow256(k) >= 1,
        k >= 1 ==> pow256(k) % 2 == 0,
    decreases k,
{
    if k > 0 {
        lemma_pow256_facts((k - 1) as nat);
    }
}

proof fn lemma_pow256_mono(a: nat, b: nat)
    requires
        a <= b,
    ensures
        pow256(a) <= pow256(b),
    decreases b,
{
    if a < b {
        lemma_pow256_mono(a, (b - 1) as nat);
    }
}

proof fn lemma_pow256_16()
    ensures
        pow256(16) == 0x1_0000_0000_0000_0000_0000_0000_0000_0000,
{
    reveal_with_fuel(pow256, 17);
}

/// `le_bytes` produces `k` digits.
proof fn lemma_le_bytes_len(x: nat, k: nat)
    ensures
        le_bytes(x, k).len() == k,
    decreases k,
{
    if k > 0 {
        lemma_le_bytes_len(x / 256, (k - 1) as nat);
    }
}

/// Reading back the digits of `x` gives `x`, when `x` has at most `k` digits.
proof fn lemma_le_value_le_bytes(x: nat, k: nat)
    requires
        x < pow256(k),
    ensures
        le_value(le_bytes(x, k)) == x,
    decreases k,
{
    if k > 0 {
        let rest = le_bytes(x / 256, (k - 1) as nat);
        lemma_fundamental_div_mod(x as int, 256);
        assert(x / 256 < pow256((k - 1) as nat)) by (nonlinear_arith)
            requires
                x < 256 * pow256((k - 1) as nat),
        ;
        lemma_le_value_le_bytes(x / 256, (k - 1) as nat);
        let s = seq![(x % 256) as u8] + rest;
        assert(s.drop_first() =~= rest);
    } else {
        assert(x == 0);
    }
}

/// `k` bytes hold a value below `256^k`.
proof fn lemma_le_value_bound(s: Seq<u8>)
    ensures
        le_value(s) < pow256(s.len()),
    decreases s.len(),
{
    if s.len() > 0 {
        lemma_le_value_bound(s.drop_first());
        let v = le_value(s.drop_first());
        let p = pow256((s.len() - 1) as nat);
        assert(s[0] as nat + 256 * v < 256 * p) by (nonlinear_arith)
            requires
                v < p,
                s[0] < 256,
        ;
    }
}

proof fn lemma_reverse_involution(s: Seq<u8>)
    ensures
        s.reverse().reverse() =~= s,
        s.reverse().len() == s.len(),
{
}

/// Decoding the bytes of a field gives back the integer it was encoded from.
pub proof fn lemma_field_roundtrip(dt: DataType, order: ByteOrderSpec, x: int)
    requires
        dt.fits(x),
    ensures
        encode_field(dt, order, x).len() == dt.size(),
        decode_field(dt, order, encode_field(dt, order, x)) == x,
{
    let k = dt.size();
    let m = pow256(k) as int;
    lemma_pow256_facts(k);
    let u = x % m;
    lemma_fundamental_div_mod(x, m);
    assert(0 <= u < m);
    let le = le_bytes(u as nat, k);
    lemma_le_bytes_len(u as nat, k);
    lemma_le_value_le_bytes(u as nat, k);
    lemma_reverse_involution(le);
    let e = encode_field(dt, order, x);
    let back = match order {
        ByteOrderSpec::LittleEndian => e,
        ByteOrderSpec::BigEndian => e.reverse(),
    };
    assert(back =~= le);
    assert(le_value(back) == u);
    if dt.signed() {
        if x >= 0 {
            lemma_small_mod(x as nat, m as nat);
            assert(u == x);
            assert(to_signed(u as nat, k) == x);
        } else {
            assert(x / m == -1) by (nonlinear_arith)
                requires
                    m >= 2,
                    -(m / 2) <= x < 0,
                    x == m * (x / m) + x % m,
                    0 <= x % m < m,
            ;
            assert(m * (x / m) == -m) by (nonlinear_arith)
                requires
                    x / m == -1,
            ;
            assert(u == x + m);
            assert(to_signed(u as nat, k) == x);
        }
    } else {
        lemma_small_mod(x as nat, m as nat);
        assert(u == x);
    }
}

/// `byteorder`'s `LittleEndian::write_uint128`: writes the `nbytes` least
/// significant bytes of `n`, least significant first. The rest of the buffer
/// stays zero. (`byteorder` panics when `n` needs more than `nbytes` bytes.)
#[verifier::external_body]
fn le_write_uint128(n: u128, nbytes: usize) -> (b: [u8; 16])
    requires
        1 <= nbytes <= 16,
        n < pow256(nbytes as nat),
    ensures
        b@.take(nbytes as int) == le_bytes(n as nat, nbytes as nat),
{
    let mut b = [0u8; 16];
    LittleEndian::write_uint128(&mut b, n, nbytes);
    b
}

/// `byteorder`'s `BigEndian::write_uint128`: writes the `nbytes` least
/// significant bytes of `n`, most significant first. (`byteorder` panics when
/// `n` needs more than `nbytes` bytes.)
#[verifier::external_body]
fn be_write_uint128(n: u128, nbytes: usize) -> (b: [u8; 16])
    requires
        1 <= nbytes <= 16,
        n < pow256(nbytes as nat),
    ensures
        b@.take(nbytes as int) == le_bytes(n as nat, nbytes as nat).reverse(),
{
    let mut b = [0u8; 16];
    BigEndian::write_uint128(&mut b, n, nbytes);
    b
}

/// `byteorder`'s `LittleEndian::write_int128`: writes the `nbytes` least
/// significant bytes of the two's complement of `n`, least significant first.
#[verifier::external_body]
fn le_write_int128(n: i128, nbytes: usize) -> (b: [u8; 16])
    requires
        1 <= nbytes <= 16,
    ensures
        b@.take(nbytes as int) == le_bytes((n as int % (pow256(nbytes as nat) as int)) as nat, nbytes as nat),
{
    let mut b = [0u8; 16];
    LittleEndian::write_int128(&mut b, n, nbytes);
    b
}

/// `byteorder`'s `BigEndian::write_int128`: writes the `nbytes` least
/// significant bytes of the two's complement of `n`, most significant first.
#[verifier::external_body]
fn be_write_int128(n: i128, nbytes: usize) -> (b: [u8; 16])
    requires
        1 <= nbytes <= 16,
    ensures
        b@.take(nbytes as int) == le_bytes((n as int % (pow256(nbytes as nat) as int)) as nat, nbytes as nat).reverse(),
{
    let mut b = [0u8; 16];
    BigEndian::write_int128(&mut b, n, nbytes);
    b
}

/// `byteorder`'s `LittleEndian::read_uint128`: the unsigned integer whose
/// bytes, least significant first, are the first `nbytes` bytes of `buf`.
#[verifier::external_body]
fn le_read_uint128(buf: &[u8], nbytes: usize) -> (r: u128)
    requires
        1 <= nbytes <= 16,
        nbytes <= buf@.len(),
    ensures
        r == le_value(buf@.take(nbytes as int)),
{
    LittleEndian::read_uint128(buf, nbytes)
}

/// `byteorder`'s `BigEndian::read_uint128`: the unsigned integer whose bytes,
/// most significant first, are the first `nbytes` bytes of `buf`.
#[verifier::external_body]
fn be_read_uint128(buf: &[u8], nbytes: usize) -> (r: u128)
    requires
        1 <= nbytes <= 16,
        nbytes <= buf@.len(),
    ensures
        r == le_value(buf@.take(nbytes as int).reverse()),
{
    BigEndian::read_uint128(buf, nbytes)
}

/// `byteorder`'s `LittleEndian::read_int128`: the two's complement reading of
/// the first `nbytes` bytes of `buf`, least significant first.
#[verifier::external_body]
fn le_read_int128(buf: &[u8], nbytes: usize) -> (r: i128)
    requires
        1 <= nbytes <= 16,
        nbytes <= buf@.len(),
    ensures
        r == to_signed(le_value(buf@.take(nbytes as int)), nbytes as nat),
{
    LittleEndian::read_int128(buf, nbytes)
}

/// `byteorder`'s `BigEndian::read_int128`: the two's complement reading of the
/// first `nbytes` bytes of `buf`, most significant first.
#[verifier::external_body]
fn be_read_int128(buf: &[u8], nbytes: usize) -> (r: i128)
    requires
        1 <= nbytes <= 16,
        nbytes <= buf@.len(),
    ensures
        r == to_signed(le_value(buf@.take(nbytes as int).reverse()), nbytes as nat),
{
    BigEndian::read_int128(buf, nbytes)
}

/// Appends the bytes of a field of type `dt` holding `value` to `out`.
pub fn pack_field(dt: DataType, order: ByteOrderSpec, value: FieldValue, out: &mut Vec<u8>)
    requires
        dt.fits(value.val()),
    ensures
        final(out)@ == old(out)@ + encode_field(dt, order, value.val()),
{
    let n = dt.byte_size();
    let ghost k = dt.size();
    proof {
        lemma_pow256_facts(k);
        lemma_pow256_mono(k, 16);
        lemma_pow256_16();
        lemma_le_bytes_len((value.val() % (pow256(k) as int)) as nat, k);
    }
    let bytes: [u8; 16] = if dt.is_signed() {
        let v: i128 = match value {
            FieldValue::Signed(v) => v,
            FieldValue::Unsigned(u) => u as i128,
        };
        match order {
            ByteOrderSpec::LittleEndian => le_write_int128(v, n),
            ByteOrderSpec::BigEndian => be_write_int128(v, n),
        }
    } else {
        let u: u128 = match value {
            FieldValue::Unsigned(u) => u,
            FieldValue::Signed(v) => v as u128,
        };
        proof {
            lemma_small_mod(u as nat, pow256(k));
        }
        match order {
            ByteOrderSpec::LittleEndian => le_write_uint128(u, n),
            ByteOrderSpec::BigEndian => be_write_uint128(u, n),
        }
    };
    let ghost enc = encode_field(dt, order, value.val());
    assert(bytes@.take(n as int) == enc);
    let ghost start = out@;
    let mut i: usize = 0;
    while i < n
        invariant
            0 <= i <= n,
            n == k,
            n <= 16,
            bytes@.take(n as int) == enc,
            out@ == start + enc.take(i as int),
        decreases n - i,
    {
        out.push(bytes[i]);
        i = i + 1;
        assert(out@ =~= start + enc.take(i as int));
    }
    assert(enc.take(n as int) =~= enc);
}

/// Reads a field of type `dt` from the front of `data`; `None` when `data` is
/// shorter than the field.
pub fn unpack_field(data: &[u8], dt: DataType, order: ByteOrderSpec) -> (r: Option<FieldValue>)
    ensures
        data@.len() >= dt.size() ==> (r matches Some(v) && v.val() == decode_field(
            dt,
            order,
            data@.take(dt.size() as int),
        ) && (v is Signed <==> dt.signed())),
        data@.len() < dt.size() ==> r is None,
{
    let n = dt.byte_size();
    if data.len() < n {
        return None;
    }
    proof {
        lemma_pow256_16();
        lemma_le_value_bound(data@.take(n as int));
        lemma_le_value_bound(data@.take(n as int).reverse());
        lemma_pow256_mono(n as nat, 16);
    }
    if dt.is_signed() {
        let v = match order {
            ByteOrderSpec::LittleEndian => le_read_int128(data, n),
            ByteOrderSpec::BigEndian => be_read_int128(data, n),
        };
        Some(FieldValue::Signed(v))
    } else {
        let u = match order {
            ByteOrderSpec::LittleEndian => le_read_uint128(data, n),
            ByteOrderSpec::BigEndian => be_read_uint128(data, n),
        };
        Some(FieldValue::Unsigned(u))
    }
}


/// The data type named `name` (`"U8"`, `"I16"`, ..., `"F64"`).
pub open spec fn spec_parse_data_type(name: Seq<u8>) -> Option<DataType> {
    if false {
        None
    } else if name == "U8".spec_bytes() {
        Some(DataType::U8)
    } else if name == "I8".spec_bytes() {
        Some(DataType::I8)
    } else if name == "U16".spec_bytes() {
        Some(DataType::U16)
    } else if name == "I16".spec_bytes() {
        Some(DataType::I16)
    } else if name == "U24".spec_bytes() {
        Some(DataType::U24)
    } else if name == "I24".spec_bytes() {
        Some(DataType::I24)
    } else if name == "U32".spec_bytes() {
        Some(DataType::U32)
    } else if name == "I32".spec_bytes() {
        Some(DataType::I32)
    } else if name == "U64".spec_bytes() {
        Some(DataType::U64)
    } else if name == "I64".spec_bytes() {
        Some(DataType::I64)
    } else if name == "U128".spec_bytes() {
        Some(DataType::U128)
    } else if name == "I128".spec_bytes() {
        Some(DataType::I128)
    } else if name == "F32".spec_bytes() {
        Some(DataType::F32)
    } else if name == "F64".spec_bytes() {
        Some(DataType::F64)
    } else {
        None
    }
}

/// The byte order named `name` (`"BigEndian"` or `"LittleEndian"`).
pub open spec fn spec_parse_byte_order(name: Seq<u8>) -> Option<ByteOrderSpec> {
    if name == "BigEndian".spec_bytes() {
        Some(ByteOrderSpec::BigEndian)
    } else if name == "LittleEndian".spec_bytes() {
        Some(ByteOrderSpec::LittleEndian)
    } else {
        None
    }
}

/// A field spec `"<data type>:<byte order>"`, such as `"I16:BigEndian"`.
pub open spec fn spec_parse_field_spec(s: Seq<u8>) -> Option<(DataType, ByteOrderSpec)> {
    match spec_split_once(s, 58u8) {
        Some((dt, order)) => match (spec_parse_data_type(dt), spec_parse_byte_order(order)) {
            (Some(d), Some(o)) => Some((d, o)),
            _ => None,
        },
        None => None,
    }
}

/// The data type named `name` (`"U8"`, `"I16"`, ..., `"F64"`).
pub fn parse_data_type(name: &[u8]) -> (r: Option<DataType>)
    ensures
        r == spec_parse_data_type(name@),
{
    if bytes_equal(name, "U8".as_bytes()) {
        return Some(DataType::U8);
    }
    if bytes_equal(name, "I8".as_bytes()) {
        return Some(DataType::I8);
    }
    if bytes_equal(name, "U16".as_bytes()) {
        return Some(DataType::U16);
    }
    if bytes_equal(name, "I16".as_bytes()) {
        return Some(DataType::I16);
    }
    if bytes_equal(name, "U24".as_bytes()) {
        return Some(DataType::U24);
    }
    if bytes_equal(name, "I24".as_bytes()) {
        return Some(DataType::I24);
    }
    if bytes_equal(name, "U32".as_bytes()) {
        return Some(DataType::U32);
    }
    if bytes_equal(name, "I32".as_bytes()) {
        return Some(DataType::I32);
    }
    if bytes_equal(name, "U64".as_bytes()) {
        return Some(DataType::U64);
    }
    if bytes_equal(name, "I64".as_bytes()) {
        return Some(DataType::I64);
    }
    if bytes_equal(name, "U128".as_bytes()) {
        return Some(DataType::U128);
    }
    if bytes_equal(name, "I128".as_bytes()) {
        return Some(DataType::I128);
    }
    if bytes_equal(name, "F32".as_bytes()) {
        return Some(DataType::F32);
    }
    if bytes_equal(name, "F64".as_bytes()) {
        return Some(DataType::F64);
    }
    None
}

/// The byte order named `name` (`"BigEndian"` or `"LittleEndian"`).
pub fn parse_byte_order(name: &[u8]) -> (r: Option<ByteOrderSpec>)
    ensures
        r == spec_parse_byte_order(name@),
{
    if bytes_equal(name, "BigEndian".as_bytes()) {
        Some(ByteOrderSpec::BigEndian)
    } else if bytes_equal(name, "LittleEndian".as_bytes()) {
        Some(ByteOrderSpec::LittleEndian)
    } else {
        None
    }
}

/// Parses a field spec `"<data type>:<byte order>"`, such as `"I16:BigEndian"`.
pub fn parse_field_spec(s: &str) -> (r: Option<(DataType, ByteOrderSpec)>)
    ensures
        r == spec_parse_field_spec(s.spec_bytes()),
{
    match split_once(s.as_bytes(), 58u8) {
        Some((dt, order)) => {
            let d = parse_data_type(dt.as_slice());
            let o = parse_byte_order(order.as_slice());
            match (d, o) {
                (Some(d), Some(o)) => Some((d, o)),
                _ => None,
            }
        },
        None => None,
    }
}

/// Whether every string of `specs` is a valid field spec.
pub open spec fn all_field_specs_valid(specs: Seq<&str>) -> bool {
    forall|i: int| 0 <= i < specs.len() ==> (#[trigger] spec_parse_field_spec(specs[i].spec_bytes())) is Some
}

/// Parses each string of `specs` as a field spec.
pub fn parse_byte_data_spec(specs: &[&str]) -> (r: Vec<(DataType, ByteOrderSpec)>)
    requires
        all_field_specs_valid(specs@),
    ensures
        r@.len() == specs@.len(),
        forall|i: int| 0 <= i < specs@.len() ==> Some(#[trigger] r@[i]) == spec_parse_field_spec(specs@[i].spec_bytes()),
{
    let mut r: Vec<(DataType, ByteOrderSpec)> = Vec::new();
    let mut i: usize = 0;
    while i < specs.len()
        invariant
            0 <= i <= specs@.len(),
            all_field_specs_valid(specs@),
            r@.len() == i,
            forall|j: int| 0 <= j < i ==> Some(#[trigger] r@[j]) == spec_parse_field_spec(specs@[j].spec_bytes()),
        decreases specs@.len() - i,
    {
        let p = parse_field_spec(specs[i]);
        assert(spec_parse_field_spec(specs@[i as int].spec_bytes()) is Some);
        r.push(p.unwrap());
        i = i + 1;
    }
    r
}

/// The bytes of consecutive fields: field `i` has the type and byte order
/// `spec[i]` and holds `values[i]`.
pub open spec fn encode_fields(spec: Seq<(DataType, ByteOrderSpec)>, values: Seq<int>) -> Seq<u8>
    decreases spec.len(),
{
    if spec.len() == 0 || values.len() == 0 {
        Seq::empty()
    } else {
        encode_field(spec[0].0, spec[0].1, values[0]) + encode_fields(spec.drop_first(), values.drop_first())
    }
}

/// The integers held by consecutive fields laid out as `spec` says at the
/// front of `data`, or `None` when `data` is too short.
pub open spec fn decode_fields(spec: Seq<(DataType, ByteOrderSpec)>, data: Seq<u8>) -> Option<Seq<int>>
    decreases spec.len(),
{
    if spec.len() == 0 {
        Some(Seq::empty())
    } else {
        let k = spec[0].0.size() as int;
        if data.len() < k {
            None
        } else {
            match decode_fields(spec.drop_first(), data.skip(k)) {
                Some(rest) => Some(seq![decode_field(spec[0].0, spec[0].1, data.take(k))] + rest),
                None => None,
            }
        }
    }
}

/// Every value fits the field that holds it.
pub open spec fn values_fit(spec: Seq<(DataType, ByteOrderSpec)>, values: Seq<int>) -> bool {
    &&& values.len() == spec.len()
    &&& forall|i: int| 0 <= i < spec.len() ==> #[trigger] spec[i].0.fits(values[i])
}

/// The integers that field values stand for.
pub open spec fn field_ints(values: Seq<FieldValue>) -> Seq<int> {
    values.map_values(|v: FieldValue| v.val())
}

/// Unpacking packed fields gives back the packed values.
pub proof fn lemma_fields_roundtrip(spec: Seq<(DataType, ByteOrderSpec)>, values: Seq<int>)
    requires
        values_fit(spec, values),
    ensures
        decode_fields(spec, encode_fields(spec, values)) == Some(values),
    decreases spec.len(),
{
    if spec.len() > 0 {
        let e0 = encode_field(spec[0].0, spec[0].1, values[0]);
        let rest = encode_fields(spec.drop_first(), values.drop_first());
        assert(spec[0].0.fits(values[0]));
        lemma_field_roundtrip(spec[0].0, spec[0].1, values[0]);
        assert(values_fit(spec.drop_first(), values.drop_first())) by {
            assert forall|i: int| 0 <= i < spec.drop_first().len() implies #[trigger] spec.drop_first()[i].0.fits(values.drop_first()[i]) by {
                assert(spec[i + 1].0.fits(values[i + 1]));
            }
        }
        lemma_fields_roundtrip(spec.drop_first(), values.drop_first());
        let all = e0 + rest;
        let k = spec[0].0.size() as int;
        assert(all.take(k) =~= e0);
        assert(all.skip(k) =~= rest);
        assert(seq![values[0]] + values.drop_first() =~= values);
    } else {
        assert(values =~= Seq::<int>::empty());
    }
}

/// Packs `values` one after the other, field `i` laid out as `spec[i]` says.
pub fn pack_fields(spec: &[(DataType, ByteOrderSpec)], values: &[FieldValue]) -> (r: Vec<u8>)
    requires
        values_fit(spec@, field_ints(values@)),
    ensures
        r@ == encode_fields(spec@, field_ints(values@)),
{
    let ghost vals = field_ints(values@);
    let mut out: Vec<u8> = Vec::new();
    let mut i: usize = 0;
    assert(spec@.skip(0) =~= spec@);
    assert(vals.skip(0) =~= vals);
    assert(out@ + encode_fields(spec@, vals) =~= encode_fields(spec@, vals));
    while i < spec.len()
        invariant
            0 <= i <= spec@.len(),
            values@.len() == spec@.len(),
            vals == field_ints(values@),
            values_fit(spec@, vals),
            encode_fields(spec@, vals) == out@ + encode_fields(spec@.skip(i as int), vals.skip(i as int)),
        decreases spec@.len() - i,
    {
        let (dt, order) = spec[i];
        assert(spec@[i as int].0.fits(vals[i as int]));
        pack_field(dt, order, values[i], &mut out);
        proof {
            let s = spec@.skip(i as int);
            let v = vals.skip(i as int);
            assert(s.drop_first() =~= spec@.skip(i + 1));
            assert(v.drop_first() =~= vals.skip(i + 1));
        }
        i = i + 1;
    }
    assert(encode_fields(spec@.skip(i as int), vals.skip(i as int)) =~= Seq::<u8>::empty());
    assert(out@ + Seq::<u8>::empty() =~= out@);
    out
}

/// Combines the decoded prefix with the decoding of the rest.
pub open spec fn prepend_decoded(prefix: Seq<int>, rest: Option<Seq<int>>) -> Option<Seq<int>> {
    match rest {
        Some(r) => Some(prefix + r),
        None => None,
    }
}

/// Unpacks consecutive fields laid out as `spec` says from the front of `data`;
/// `None` when `data` is too short. Bytes after the fields are ignored.
pub fn unpack_fields(data: &[u8], spec: &[(DataType, ByteOrderSpec)]) -> (r: Option<Vec<FieldValue>>)
    ensures
        match r {
            Some(v) => decode_fields(spec@, data@) == Some(field_ints(v@)) && v@.len() == spec@.len()
                && forall|i: int| 0 <= i < spec@.len() ==> (#[trigger] v@[i] is Signed <==> spec@[i].0.signed()),
            None => decode_fields(spec@, data@) is None,
        },
{
    let mut values: Vec<FieldValue> = Vec::new();
    let mut off: usize = 0;
    let mut i: usize = 0;
    assert(spec@.skip(0) =~= spec@);
    assert(data@.skip(0) =~= data@);
    proof {
        match decode_fields(spec@, data@) {
            Some(r) => assert(field_ints(values@) + r =~= r),
            None => {},
        }
    }
    while i < spec.len()
        invariant
            0 <= i <= spec@.len(),
            off <= data@.len(),
            values@.len() == i,
            forall|j: int| 0 <= j < i ==> (#[trigger] values@[j] is Signed <==> spec@[j].0.signed()),
            decode_fields(spec@, data@) == prepend_decoded(
                field_ints(values@),
                decode_fields(spec@.skip(i as int), data@.skip(off as int)),
            ),
        decreases spec@.len() - i,
    {
        let (dt, order) = spec[i];
        let rest = &data[off..data.len()];
        assert(rest@ =~= data@.skip(off as int));
        let f = unpack_field(rest, dt, order);
        let ghost s = spec@.skip(i as int);
        assert(s[0] == spec@[i as int]);
        assert(s.drop_first() =~= spec@.skip(i + 1));
        match f {
            Some(v) => {
                let n = dt.byte_size();
                let ghost old_vals = values@;
                values.push(v);
                proof {
                    assert(data@.skip(off as int).skip(n as int) =~= data@.skip(off + n));
                    assert(field_ints(values@) =~= field_ints(old_vals) + seq![v.val()]);
                    match decode_fields(spec@.skip(i + 1), data@.skip(off + n)) {
                        Some(r2) => {
                            assert(field_ints(old_vals) + (seq![v.val()] + r2) =~= field_ints(values@) + r2);
                        },
                        None => {},
                    }
                }
                off = off + n;
                i = i + 1;
            },
            None => {
                return None;
            },
        }
    }
    assert(field_ints(values@) + Seq::<int>::empty() =~= field_ints(values@));
    Some(values)
}

} // verus!
