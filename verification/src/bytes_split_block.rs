//! Splits an input byte stream at a delimiter pattern and picks chunks of it
//! as outputs; the outputs stay valid while the last successful parse is
//! recent enough.
use crate::context::Context;
use crate::escapes::{parse_string_to_read_delimiter, unescape_pattern};
use crate::scalar::Scalar;
use crate::text::{bytes_equal, copy_range, spec_split_once, split_once};
use crate::validity::Validity;
use vstd::prelude::*;
use vstd::string::StringSliceAdditionalSpecFns;

verus! {

/// The pattern `pat` occurs in `data` at position `i` (`None` matches any byte).
pub open spec fn matches_at(data: Seq<u8>, pat: Seq<Option<u8>>, i: int) -> bool {
    &&& 0 <= i
    &&& i + pat.len() <= data.len()
    &&& forall|j: int| 0 <= j < pat.len() ==> (#[trigger] pat[j] matches Some(b) ==> data[i + j] == b)
}

/// Positions of the non-overlapping occurrences of `pat` in `data` at or after
/// `i`, found from left to right. An empty pattern occurs nowhere.
pub open spec fn find_matches_from(data: Seq<u8>, pat: Seq<Option<u8>>, i: int) -> Seq<int>
    decreases data.len() - i,
{
    if pat.len() == 0 || i < 0 || i + pat.len() > data.len() {
        Seq::empty()
    } else if matches_at(data, pat, i) {
        seq![i] + find_matches_from(data, pat, i + pat.len())
    } else {
        find_matches_from(data, pat, i + 1)
    }
}

/// Positions of the non-overlapping occurrences of `pat` in `data`, left to right.
pub open spec fn find_matches(data: Seq<u8>, pat: Seq<Option<u8>>) -> Seq<int> {
    find_matches_from(data, pat, 0)
}

/// The positions are increasing, separated by at least the pattern length, and
/// each occurrence lies inside `data`.
pub open spec fn well_spaced(idxs: Seq<int>, k: int, lo: int, len: int) -> bool {
    &&& forall|a: int| 0 <= a < idxs.len() ==> lo <= #[trigger] idxs[a] && idxs[a] + k <= len
    &&& forall|a: int| 0 <= a < idxs.len() - 1 ==> #[trigger] idxs[a] + k <= idxs[a + 1]
}

proof fn lemma_find_matches_spaced(data: Seq<u8>, pat: Seq<Option<u8>>, i: int)
    requires
        i >= 0,
    ensures
        well_spaced(find_matches_from(data, pat, i), pat.len() as int, i, data.len() as int),
    decreases data.len() - i,
{
    let r = find_matches_from(data, pat, i);
    if pat.len() == 0 || i + pat.len() > data.len() {
    } else if matches_at(data, pat, i) {
        let rest = find_matches_from(data, pat, i + pat.len());
        lemma_find_matches_spaced(data, pat, i + pat.len());
        assert(r == seq![i] + rest);
        assert forall|a: int| 0 <= a < r.len() - 1 implies #[trigger] r[a] + pat.len() <= r[a + 1] by {
            if a > 0 {
                assert(r[a] == rest[a - 1]);
                assert(r[a + 1] == rest[a]);
            } else {
                assert(r[1] == rest[0]);
            }
        }
        assert forall|a: int| 0 <= a < r.len() implies i <= #[trigger] r[a] && r[a] + pat.len() <= data.len() by {
            if a > 0 {
                assert(r[a] == rest[a - 1]);
            }
        }
    } else {
        lemma_find_matches_spaced(data, pat, i + 1);
    }
}

fn matches_here(data: &[u8], pat: &[Option<u8>], i: usize) -> (r: bool)
    requires
        i + pat@.len() <= data@.len(),
    ensures
        r == matches_at(data@, pat@, i as int),
{
    let n = data.len();
    let mut j: usize = 0;
    while j < pat.len()
        invariant
            n == data@.len(),
            i + pat@.len() <= data@.len(),
            0 <= j <= pat@.len(),
            forall|t: int| 0 <= t < j ==> (#[trigger] pat@[t] matches Some(b) ==> data@[i + t] == b),
        decreases pat@.len() - j,
    {
        match pat[j] {
            Some(b) => {
                if data[i + j] != b {
                    return false;
                }
            },
            None => {},
        }
        j = j + 1;
    }
    true
}

/// Positions of the non-overlapping occurrences of `pat` in `data`, left to right.
pub fn find_all_bytes_idx(data: &[u8], pat: &[Option<u8>]) -> (r: Vec<usize>)
    ensures
        r@.map_values(|x: usize| x as int) == find_matches(data@, pat@),
{
    let n = data.len();
    let k = pat.len();
    let mut r: Vec<usize> = Vec::new();
    if k == 0 {
        assert(r@.map_values(|x: usize| x as int) =~= find_matches(data@, pat@));
        return r;
    }
    let mut i: usize = 0;
    assert(r@.map_values(|x: usize| x as int) + find_matches_from(data@, pat@, 0) =~= find_matches(data@, pat@));
    while i < n && k <= n - i
        invariant
            n == data@.len(),
            k == pat@.len(),
            k > 0,
            0 <= i <= n,
            r@.map_values(|x: usize| x as int) + find_matches_from(data@, pat@, i as int) == find_matches(data@, pat@),
        decreases n - i,
    {
        let ghost before = r@.map_values(|x: usize| x as int);
        if matches_here(data, pat, i) {
            r.push(i);
            assert(r@.map_values(|x: usize| x as int) =~= before + seq![i as int]);
            i = i + k;
        } else {
            i = i + 1;
        }
        assert(r@.map_values(|x: usize| x as int) + find_matches_from(data@, pat@, i as int) =~= find_matches(data@, pat@));
    }
    assert(find_matches_from(data@, pat@, i as int) =~= Seq::<int>::empty());
    assert(r@.map_values(|x: usize| x as int) + Seq::<int>::empty() =~= r@.map_values(|x: usize| x as int));
    r
}

/// Where chunk `n` starts: at 0 for the first chunk, else just after
/// occurrence `n - 1` (pattern length `k`).
pub open spec fn chunk_start(idxs: Seq<int>, k: int, n: int) -> int {
    if n == 0 {
        0
    } else {
        idxs[n - 1] + k
    }
}

/// Where chunk `n` ends: at occurrence `n`, or at the end of the data for the
/// last chunk.
pub open spec fn chunk_end(idxs: Seq<int>, len: int, n: int) -> int {
    if n < idxs.len() {
        idxs[n]
    } else {
        len
    }
}

/// Chunk `n` of `data` split at the pattern occurrences `idxs` (pattern length
/// `k`): chunk 0 runs from the start to the first occurrence, chunk `n` from
/// the end of occurrence `n - 1` to occurrence `n`, the last chunk to the end.
/// `None` when there are fewer than `n + 1` chunks.
pub open spec fn chunk(data: Seq<u8>, idxs: Seq<int>, k: int, n: int) -> Option<Seq<u8>> {
    if n < 0 || n > idxs.len() {
        None
    } else {
        Some(data.subrange(chunk_start(idxs, k, n), chunk_end(idxs, data.len() as int, n)))
    }
}

/// When chunk `n` exists, its bounds lie in order inside the data.
pub open spec fn chunk_bounds_ok(len: int, idxs: Seq<int>, k: int, n: int) -> bool {
    0 <= n <= idxs.len() ==> 0 <= chunk_start(idxs, k, n) <= chunk_end(idxs, len, n) <= len
}

/// Well-spaced occurrences give every chunk bounds in order.
proof fn lemma_well_spaced_bounds(idxs: Seq<int>, k: int, len: int, n: int)
    requires
        k >= 0,
        len >= 0,
        well_spaced(idxs, k, 0, len),
    ensures
        chunk_bounds_ok(len, idxs, k, n),
{
    if 0 <= n <= idxs.len() {
        if n > 0 {
            assert(0 <= idxs[n - 1] && idxs[n - 1] + k <= len);
        }
        if n < idxs.len() {
            assert(0 <= idxs[n] && idxs[n] + k <= len);
        }
        if 0 < n < idxs.len() {
            assert(idxs[n - 1] + k <= idxs[n]);
        }
    }
}

/// Chunk `n` of `data` split at the non-overlapping occurrences of `pat`.
pub open spec fn split_chunk(data: Seq<u8>, pat: Seq<Option<u8>>, n: int) -> Option<Seq<u8>> {
    chunk(data, find_matches(data, pat), pat.len() as int, n)
}

fn parse_bytes(bytes: &[u8], delim_idxs: &[usize], desired_idx: usize, delim_len: usize) -> (r: Option<Vec<u8>>)
    requires
        chunk_bounds_ok(bytes@.len() as int, delim_idxs@.map_values(|x: usize| x as int), delim_len as int, desired_idx as int),
    ensures
        match r {
            Some(c) => chunk(bytes@, delim_idxs@.map_values(|x: usize| x as int), delim_len as int, desired_idx as int) == Some(c@),
            None => chunk(bytes@, delim_idxs@.map_values(|x: usize| x as int), delim_len as int, desired_idx as int) is None,
        },
{
    let ghost idxs = delim_idxs@.map_values(|x: usize| x as int);
    let n = bytes.len();
    let start = if desired_idx == 0 {
        0
    } else {
        if desired_idx - 1 >= delim_idxs.len() {
            return None;
        }
        assert(idxs[desired_idx - 1] == delim_idxs@[desired_idx - 1] as int);
        assert(chunk_end(idxs, n as int, desired_idx as int) <= n);
        delim_idxs[desired_idx - 1] + delim_len
    };
    let end = if desired_idx < delim_idxs.len() {
        assert(idxs[desired_idx as int] == delim_idxs@[desired_idx as int] as int);
        delim_idxs[desired_idx]
    } else {
        bytes.len()
    };
    Some(crate::text::copy_range(bytes, start, end))
}

/// Whether `b` is an ASCII decimal digit.
pub open spec fn is_digit(b: u8) -> bool {
    48 <= b <= 57
}

/// The number written by the decimal digits `s`.
pub open spec fn decimal_value(s: Seq<u8>) -> nat
    decreases s.len(),
{
    if s.len() == 0 {
        0
    } else {
        10 * decimal_value(s.drop_last()) + (s.last() - 48) as nat
    }
}

/// `s` without its leading `+`, if it has one.
pub open spec fn digits_part(s: Seq<u8>) -> Seq<u8> {
    if s.len() > 0 && s[0] == 43u8 {
        s.skip(1)
    } else {
        s
    }
}

/// The number written by the decimal digits `d`, when there is at least one,
/// all are digits, and it fits a `usize`.
pub open spec fn spec_parse_digits(d: Seq<u8>) -> Option<usize> {
    if d.len() > 0 && (forall|i: int| 0 <= i < d.len() ==> is_digit(#[trigger] d[i])) && decimal_value(d) <= usize::MAX {
        Some(decimal_value(d) as usize)
    } else {
        None
    }
}

/// An index written in decimal, optionally preceded by `+`, that fits a `usize`.
pub open spec fn spec_parse_index(s: Seq<u8>) -> Option<usize> {
    spec_parse_digits(digits_part(s))
}

/// Parses the decimal digits `s[start..]`.
fn parse_digits_from(s: &[u8], start: usize) -> (r: Option<usize>)
    requires
        start <= s@.len(),
    ensures
        r == spec_parse_digits(s@.skip(start as int)),
{
    let n = s.len();
    let ghost d = s@.skip(start as int);
    if start >= n {
        return None;
    }
    let mut acc: usize = 0;
    let mut i: usize = start;
    let mut overflow = false;
    while i < n
        invariant
            0 <= start < n == s@.len(),
            start <= i <= n,
            d == s@.skip(start as int),
            forall|j: int| start <= j < i ==> is_digit(#[trigger] s@[j]),
            !overflow ==> acc == decimal_value(d.take(i - start)),
            overflow ==> decimal_value(d.take(i - start)) > usize::MAX,
        decreases n - i,
    {
        let c = s[i];
        if c < 48 || c > 57 {
            assert(d[i - start] == s@[i as int]);
            assert(!is_digit(d[i - start]));
            return None;
        }
        let ghost prev = d.take(i - start);
        assert(d.take(i - start + 1).drop_last() =~= prev);
        let digit = (c - 48) as usize;
        if !overflow {
            if acc > (usize::MAX - digit) / 10 {
                overflow = true;
                assert(10 * acc + digit > usize::MAX) by (nonlinear_arith)
                    requires
                        acc > (usize::MAX - digit) / 10,
                        digit <= 9,
                ;
            } else {
                assert(10 * acc + digit <= usize::MAX) by (nonlinear_arith)
                    requires
                        acc <= (usize::MAX - digit) / 10,
                        digit <= 9,
                ;
                acc = 10 * acc + digit;
            }
        } else {
            assert(10 * decimal_value(prev) + digit > usize::MAX) by (nonlinear_arith)
                requires
                    decimal_value(prev) > usize::MAX,
            ;
        }
        i = i + 1;
    }
    assert(d.take(n - start) =~= d);
    assert(forall|j: int| 0 <= j < d.len() ==> is_digit(#[trigger] d[j])) by {
        assert forall|j: int| 0 <= j < d.len() implies is_digit(#[trigger] d[j]) by {
            assert(d[j] == s@[j + start]);
        }
    }
    if overflow {
        None
    } else {
        Some(acc)
    }
}

/// Parses an index written in decimal, optionally preceded by `+`.
pub fn parse_index(s: &[u8]) -> (r: Option<usize>)
    ensures
        r == spec_parse_index(s@),
{
    let start: usize = if s.len() > 0 && s[0] == 43u8 { 1 } else { 0 };
    assert(digits_part(s@) =~= s@.skip(start as int));
    parse_digits_from(s, start)
}

/// Whether `s` starts with a `-` that counts as a sign.
pub open spec fn is_negative(s: Seq<u8>, signed: bool) -> bool {
    signed && s.len() > 0 && s[0] == 45u8
}

/// `s` without its sign: a leading `+`, or a leading `-` when `signed`.
pub open spec fn unsigned_part(s: Seq<u8>, signed: bool) -> Seq<u8> {
    if is_negative(s, signed) || (s.len() > 0 && s[0] == 43u8) {
        s.skip(1)
    } else {
        s
    }
}

/// An integer written in decimal: an optional `+` (or `-` when `signed`)
/// followed by at least one digit.
pub open spec fn spec_parse_integer(s: Seq<u8>, signed: bool) -> Option<int> {
    let d = unsigned_part(s, signed);
    if d.len() > 0 && (forall|i: int| 0 <= i < d.len() ==> is_digit(#[trigger] d[i])) {
        Some(if is_negative(s, signed) { -decimal_value(d) } else { decimal_value(d) as int })
    } else {
        None
    }
}

/// The scalar written by `s` as a decimal integer (signed or not), when it
/// lies in the type's range.
pub open spec fn spec_parse_scalar<T: Scalar>(s: Seq<u8>, signed: bool) -> Option<int> {
    match spec_parse_integer(s, signed) {
        Some(v) => if T::min_value() <= v <= T::max_value() {
            Some(v)
        } else {
            None
        },
        None => None,
    }
}

/// Parses a decimal integer that must lie in `T`'s range.
fn parse_scalar<T: Scalar>(s: &[u8], signed: bool) -> (r: Option<T>)
    ensures
        match r {
            Some(x) => spec_parse_scalar::<T>(s@, signed) == Some(x.value()),
            None => spec_parse_scalar::<T>(s@, signed) is None,
        },
{
    let negative = signed && s.len() > 0 && s[0] == 45u8;
    let start: usize = if negative || (s.len() > 0 && s[0] == 43u8) { 1 } else { 0 };
    let ghost d = s@.skip(start as int);
    assert(d =~= unsigned_part(s@, signed));
    proof {
        T::lemma_range();
    }
    match parse_digits_from(s, start) {
        None => {
            proof {
                if d.len() > 0 && (forall|i: int| 0 <= i < d.len() ==> is_digit(#[trigger] d[i])) {
                    assert(decimal_value(d) > usize::MAX);
                }
            }
            None
        },
        Some(m) => {
            if m > 0xFFFF_FFFF {
                assert(decimal_value(d) == m);
                None
            } else {
                let v: i128 = if negative { -(m as i128) } else { m as i128 };
                assert(decimal_value(d) == m);
                if T::in_range(v) {
                    Some(T::from_i128(v))
                } else {
                    None
                }
            }
        },
    }
}

/// Values an output of the split block can be parsed into from its chunk of
/// bytes: integers and booleans from their text, byte strings as they are.
pub trait FromBytes: Sized + View {
    /// The value `bytes` stand for, if any.
    spec fn spec_from_bytes(bytes: Seq<u8>) -> Option<Self::V>;

    fn from_bytes(bytes: &[u8]) -> (r: Option<Self>)
        ensures
            match r {
                Some(v) => Self::spec_from_bytes(bytes@) == Some(v@),
                None => Self::spec_from_bytes(bytes@) is None,
            },
    ;
}

impl FromBytes for Vec<u8> {
    open spec fn spec_from_bytes(bytes: Seq<u8>) -> Option<Seq<u8>> {
        Some(bytes)
    }

    fn from_bytes(bytes: &[u8]) -> (r: Option<Self>) {
        let v = copy_range(bytes, 0, bytes.len());
        assert(bytes@.subrange(0, bytes@.len() as int) =~= bytes@);
        Some(v)
    }
}

impl FromBytes for bool {
    /// `"true"` or `"false"`.
    open spec fn spec_from_bytes(bytes: Seq<u8>) -> Option<bool> {
        if bytes == "true".spec_bytes() {
            Some(true)
        } else if bytes == "false".spec_bytes() {
            Some(false)
        } else {
            None
        }
    }

    fn from_bytes(bytes: &[u8]) -> (r: Option<Self>) {
        if bytes_equal(bytes, "true".as_bytes()) {
            Some(true)
        } else if bytes_equal(bytes, "false".as_bytes()) {
            Some(false)
        } else {
            None
        }
    }
}

impl FromBytes for u8 {
    open spec fn spec_from_bytes(bytes: Seq<u8>) -> Option<u8> {
        match spec_parse_scalar::<u8>(bytes, false) {
            Some(v) => Some(v as u8),
            None => None,
        }
    }

    fn from_bytes(bytes: &[u8]) -> (r: Option<Self>) {
        parse_scalar::<u8>(bytes, false)
    }
}

impl FromBytes for i8 {
    open spec fn spec_from_bytes(bytes: Seq<u8>) -> Option<i8> {
        match spec_parse_scalar::<i8>(bytes, true) {
            Some(v) => Some(v as i8),
            None => None,
        }
    }

    fn from_bytes(bytes: &[u8]) -> (r: Option<Self>) {
        parse_scalar::<i8>(bytes, true)
    }
}

impl FromBytes for u16 {
    open spec fn spec_from_bytes(bytes: Seq<u8>) -> Option<u16> {
        match spec_parse_scalar::<u16>(bytes, false) {
            Some(v) => Some(v as u16),
            None => None,
        }
    }

    fn from_bytes(bytes: &[u8]) -> (r: Option<Self>) {
        parse_scalar::<u16>(bytes, false)
    }
}

impl FromBytes for i16 {
    open spec fn spec_from_bytes(bytes: Seq<u8>) -> Option<i16> {
        match spec_parse_scalar::<i16>(bytes, true) {
            Some(v) => Some(v as i16),
            None => None,
        }
    }

    fn from_bytes(bytes: &[u8]) -> (r: Option<Self>) {
        parse_scalar::<i16>(bytes, true)
    }
}

impl FromBytes for u32 {
    open spec fn spec_from_bytes(bytes: Seq<u8>) -> Option<u32> {
        match spec_parse_scalar::<u32>(bytes, false) {
            Some(v) => Some(v as u32),
            None => None,
        }
    }

    fn from_bytes(bytes: &[u8]) -> (r: Option<Self>) {
        parse_scalar::<u32>(bytes, false)
    }
}

impl FromBytes for i32 {
    open spec fn spec_from_bytes(bytes: Seq<u8>) -> Option<i32> {
        match spec_parse_scalar::<i32>(bytes, true) {
            Some(v) => Some(v as i32),
            None => None,
        }
    }

    fn from_bytes(bytes: &[u8]) -> (r: Option<Self>) {
        parse_scalar::<i32>(bytes, true)
    }
}

/// The output indices of the desired-output specs `"<type>:<index>"`.
pub open spec fn spec_desired_output_idx(spec: Seq<u8>) -> Option<usize> {
    match spec_split_once(spec, 58u8) {
        Some((_ty, idx)) => spec_parse_index(idx),
        None => None,
    }
}

/// Every desired-output spec names an index.
pub open spec fn desired_outputs_valid(specs: Seq<&str>) -> bool {
    forall|i: int| 0 <= i < specs.len() ==> (#[trigger] spec_desired_output_idx(specs[i].spec_bytes())) is Some
}

/// The pattern the input is split at, the chunk each output takes, and the
/// age after which the outputs are no longer valid without a successful
/// parse (nanoseconds).
pub struct Parameters {
    pub delimiter: Vec<Option<u8>>,
    pub desired_output_idx: Vec<usize>,
    pub stale_age: u128,
}

impl Parameters {
    /// `delimiter` may hold `\xHH` escapes and `\x**` wildcards; each desired
    /// output is written `"<type>:<index>"`, of which only the index is used.
    pub fn new(delimiter: &str, desired_outputs: &[&str], stale_age: u128) -> (p: Self)
        requires
            desired_outputs_valid(desired_outputs@),
        ensures
            p.delimiter@ == unescape_pattern(delimiter.spec_bytes()),
            p.stale_age == stale_age,
            p.desired_output_idx@.len() == desired_outputs@.len(),
            forall|i: int| 0 <= i < desired_outputs@.len() ==> Some(#[trigger] p.desired_output_idx@[i]) == spec_desired_output_idx(desired_outputs@[i].spec_bytes()),
    {
        Parameters {
            delimiter: parse_string_to_read_delimiter(delimiter),
            desired_output_idx: Self::parse_desired_outputs(desired_outputs),
            stale_age,
        }
    }

    fn parse_desired_outputs(desired_outputs: &[&str]) -> (r: Vec<usize>)
        requires
            desired_outputs_valid(desired_outputs@),
        ensures
            r@.len() == desired_outputs@.len(),
            forall|i: int| 0 <= i < desired_outputs@.len() ==> Some(#[trigger] r@[i]) == spec_desired_output_idx(desired_outputs@[i].spec_bytes()),
    {
        let mut r: Vec<usize> = Vec::new();
        let mut i: usize = 0;
        while i < desired_outputs.len()
            invariant
                0 <= i <= desired_outputs@.len(),
                desired_outputs_valid(desired_outputs@),
                r@.len() == i,
                forall|j: int| 0 <= j < i ==> Some(#[trigger] r@[j]) == spec_desired_output_idx(desired_outputs@[j].spec_bytes()),
            decreases desired_outputs@.len() - i,
        {
            let s = desired_outputs[i];
            assert(spec_desired_output_idx(desired_outputs@[i as int].spec_bytes()) is Some);
            let (_ty, idx) = split_once(s.as_bytes(), 58u8).unwrap();
            let v = parse_index(idx.as_slice()).unwrap();
            r.push(v);
            i = i + 1;
        }
        r
    }
}

/// The chunk of `input` that each output takes, `None` where there is no such chunk.
pub fn split_outputs(parameters: &Parameters, input: &[u8]) -> (r: Vec<Option<Vec<u8>>>)
    ensures
        r@.len() == parameters.desired_output_idx@.len(),
        forall|i: int| 0 <= i < r@.len() ==> match #[trigger] r@[i] {
            Some(c) => split_chunk(input@, parameters.delimiter@, parameters.desired_output_idx@[i] as int) == Some(c@),
            None => split_chunk(input@, parameters.delimiter@, parameters.desired_output_idx@[i] as int) is None,
        },
{
    let idxs = find_all_bytes_idx(input, parameters.delimiter.as_slice());
    proof {
        lemma_find_matches_spaced(input@, parameters.delimiter@, 0);
    }
    let k = parameters.delimiter.len();
    let mut r: Vec<Option<Vec<u8>>> = Vec::new();
    let mut i: usize = 0;
    while i < parameters.desired_output_idx.len()
        invariant
            0 <= i <= parameters.desired_output_idx@.len(),
            r@.len() == i,
            k == parameters.delimiter@.len(),
            idxs@.map_values(|x: usize| x as int) == find_matches(input@, parameters.delimiter@),
            well_spaced(idxs@.map_values(|x: usize| x as int), k as int, 0, input@.len() as int),
            forall|j: int| 0 <= j < i ==> match #[trigger] r@[j] {
                Some(c) => split_chunk(input@, parameters.delimiter@, parameters.desired_output_idx@[j] as int) == Some(c@),
                None => split_chunk(input@, parameters.delimiter@, parameters.desired_output_idx@[j] as int) is None,
            },
        decreases parameters.desired_output_idx@.len() - i,
    {
        proof {
            lemma_well_spaced_bounds(idxs@.map_values(|x: usize| x as int), k as int, input@.len() as int, parameters.desired_output_idx@[i as int] as int);
        }
        let c = parse_bytes(input, idxs.as_slice(), parameters.desired_output_idx[i], k);
        r.push(c);
        i = i + 1;
    }
    r
}

/// Holds one value per output and whether they are valid. Values are parsed
/// from the chunks of [`split_outputs`] by the caller, one type per output;
/// when any of them fails to parse, all values stay as they were.
pub struct BytesSplitBlock<T> {
    pub values: Vec<T>,
    pub validity: Validity,
}

impl<T> BytesSplitBlock<T> {
    /// A block holding `initial` until the first successful parse.
    pub fn new(initial: Vec<T>) -> (b: Self)
        ensures
            b.values@ == initial@,
            !b.validity.valid,
            b.validity.last_valid_time.is_none(),
    {
        BytesSplitBlock { values: initial, validity: Validity::new() }
    }

    /// Whether the outputs are valid.
    pub fn is_valid(&self) -> (b: bool)
        ensures
            b == self.validity.valid,
    {
        self.validity.valid
    }

    /// Takes the parsed outputs: all of them when every output parsed, none
    /// otherwise. Returns the current values and whether they are valid.
    pub fn process<C: Context>(&mut self, parameters: &Parameters, context: &C, parsed: Vec<Option<T>>) -> (out: (&[T], bool))
        requires
            old(self).validity.time_ok(context.spec_time()),
        ensures
            out.0@ == final(self).values@,
            out.1 == final(self).validity.valid,
            final(self).validity == old(self).validity.next(
                forall|i: int| 0 <= i < parsed@.len() ==> (#[trigger] parsed@[i]) is Some,
                context.spec_time(),
                parameters.stale_age,
            ),
            (forall|i: int| 0 <= i < parsed@.len() ==> (#[trigger] parsed@[i]) is Some) ==> (
                final(self).values@.len() == parsed@.len()
                && forall|i: int| 0 <= i < parsed@.len() ==> Some(#[trigger] final(self).values@[i]) == parsed@[i]),
            !(forall|i: int| 0 <= i < parsed@.len() ==> (#[trigger] parsed@[i]) is Some) ==> final(self).values@ == old(self).values@,
    {
        let now = context.time();
        let n = parsed.len();
        let mut all_ok = true;
        let mut i: usize = 0;
        while i < n
            invariant
                n == parsed@.len(),
                0 <= i <= n,
                all_ok == forall|j: int| 0 <= j < i ==> (#[trigger] parsed@[j]) is Some,
            decreases n - i,
        {
            if parsed[i].is_none() {
                all_ok = false;
            }
            i = i + 1;
        }
        if all_ok {
            let mut vals: Vec<T> = Vec::new();
            let mut p = parsed;
            let ghost orig = p@;
            while p.len() > 0
                invariant
                    orig.len() == n,
                    p@ == orig.subrange(0, p@.len() as int),
                    forall|j: int| 0 <= j < n ==> (#[trigger] orig[j]) is Some,
                    vals@.len() + p@.len() == n,
                    forall|j: int| 0 <= j < vals@.len() ==> Some(#[trigger] vals@[j]) == orig[n - 1 - j],
                decreases p@.len(),
            {
                let last = p.pop().unwrap();
                match last {
                    Some(v) => vals.push(v),
                    None => {},
                }
                assert(p@ =~= orig.subrange(0, p@.len() as int));
            }
            let mut out: Vec<T> = Vec::new();
            while vals.len() > 0
                invariant
                    vals@.len() + out@.len() == n,
                    orig.len() == n,
                    forall|j: int| 0 <= j < vals@.len() ==> Some(#[trigger] vals@[j]) == orig[n - 1 - j],
                    forall|j: int| 0 <= j < out@.len() ==> Some(#[trigger] out@[j]) == orig[j],
                decreases vals@.len(),
            {
                let v = vals.pop().unwrap();
                out.push(v);
            }
            self.values = out;
        }
        self.validity.update(all_ok, now, parameters.stale_age);
        (self.values.as_slice(), self.validity.valid)
    }
}

/// The value output `i` parses to from `input`: its chunk read as a `T`.
pub open spec fn spec_parse_output<T: FromBytes>(parameters: &Parameters, input: Seq<u8>, i: int) -> Option<T::V> {
    match split_chunk(input, parameters.delimiter@, parameters.desired_output_idx@[i] as int) {
        Some(c) => T::spec_from_bytes(c),
        None => None,
    }
}

/// Every output of `input` parses.
pub open spec fn all_outputs_parse<T: FromBytes>(parameters: &Parameters, input: Seq<u8>) -> bool {
    forall|i: int| 0 <= i < parameters.desired_output_idx@.len() ==> (#[trigger] spec_parse_output::<T>(parameters, input, i)) is Some
}

impl<T: FromBytes> BytesSplitBlock<T> {
    /// Splits `input` and reads each output's chunk as a `T`: when every
    /// output parses, the values are replaced; otherwise they stay. Returns
    /// the current values and whether they are valid.
    pub fn process_input<C: Context>(&mut self, parameters: &Parameters, context: &C, input: &[u8]) -> (out: (&[T], bool))
        requires
            old(self).validity.time_ok(context.spec_time()),
        ensures
            out.0@ == final(self).values@,
            out.1 == final(self).validity.valid,
            final(self).validity == old(self).validity.next(
                all_outputs_parse::<T>(parameters, input@),
                context.spec_time(),
                parameters.stale_age,
            ),
            all_outputs_parse::<T>(parameters, input@) ==> (
                final(self).values@.len() == parameters.desired_output_idx@.len()
                && forall|i: int| 0 <= i < parameters.desired_output_idx@.len() ==> Some((#[trigger] final(self).values@[i])@)
                    == spec_parse_output::<T>(parameters, input@, i)),
            !all_outputs_parse::<T>(parameters, input@) ==> final(self).values@ == old(self).values@,
    {
        let chunks = split_outputs(parameters, input);
        let n = chunks.len();
        let mut parsed: Vec<Option<T>> = Vec::new();
        let mut i: usize = 0;
        while i < n
            invariant
                n == chunks@.len(),
                n == parameters.desired_output_idx@.len(),
                0 <= i <= n,
                parsed@.len() == i,
                forall|j: int| 0 <= j < n ==> match #[trigger] chunks@[j] {
                    Some(c) => split_chunk(input@, parameters.delimiter@, parameters.desired_output_idx@[j] as int) == Some(c@),
                    None => split_chunk(input@, parameters.delimiter@, parameters.desired_output_idx@[j] as int) is None,
                },
                forall|j: int| 0 <= j < i ==> match #[trigger] parsed@[j] {
                    Some(v) => spec_parse_output::<T>(parameters, input@, j) == Some(v@),
                    None => spec_parse_output::<T>(parameters, input@, j) is None,
                },
            decreases n - i,
        {
            let p = match &chunks[i] {
                Some(c) => T::from_bytes(c.as_slice()),
                None => None,
            };
            parsed.push(p);
            i = i + 1;
        }
        let ghost parsed_view = parsed@;
        assert((forall|j: int| 0 <= j < parsed_view.len() ==> (#[trigger] parsed_view[j]) is Some) == all_outputs_parse::<T>(parameters, input@)) by {
            if forall|j: int| 0 <= j < parsed_view.len() ==> (#[trigger] parsed_view[j]) is Some {
                assert forall|j: int| 0 <= j < n implies (#[trigger] spec_parse_output::<T>(parameters, input@, j)) is Some by {
                    assert(parsed_view[j] is Some);
                }
            }
            if all_outputs_parse::<T>(parameters, input@) {
                assert forall|j: int| 0 <= j < parsed_view.len() implies (#[trigger] parsed_view[j]) is Some by {
                    assert(spec_parse_output::<T>(parameters, input@, j) is Some);
                }
            }
        }
        self.process(parameters, context, parsed)
    }
}

} // verus!
