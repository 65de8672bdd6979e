//! Byte-string helpers shared by the parsers: equality of byte strings and
//! splitting at the first occurrence of a separator.
use vstd::prelude::*;

verus! {

/// The text names no variant of the enum it was parsed as.
#[derive(Clone, Copy, Debug, PartialEq, Eq)]
pub struct ParseEnumError;

/// `i` is the position of the first `sep` in `s`.
pub open spec fn is_first_index(s: Seq<u8>, sep: u8, i: int) -> bool {
    &&& 0 <= i < s.len()
    &&& s[i] == sep
    &&& forall|j: int| 0 <= j < i ==> s[j] != sep
}

/// The parts of `s` before and after its first `sep`, or `None` if `s` has no `sep`.
pub open spec fn spec_split_once(s: Seq<u8>, sep: u8) -> Option<(Seq<u8>, Seq<u8>)> {
    if exists|i: int| is_first_index(s, sep, i) {
        let i = choose|i: int| is_first_index(s, sep, i);
        Some((s.take(i), s.skip(i + 1)))
    } else {
        None
    }
}

/// A separator has one first position.
pub proof fn lemma_first_index_unique(s: Seq<u8>, sep: u8, i: int, j: int)
    requires
        is_first_index(s, sep, i),
        is_first_index(s, sep, j),
    ensures
        i == j,
{
    if i < j {
        assert(s[i] != sep);
    } else if j < i {
        assert(s[j] != sep);
    }
}

/// Whether two byte strings are equal.
pub fn bytes_equal(a: &[u8], b: &[u8]) -> (r: bool)
    ensures
        r == (a@ == b@),
{
    if a.len() != b.len() {
        return false;
    }
    let mut i: usize = 0;
    while i < a.len()
        invariant
            a@.len() == b@.len(),
            0 <= i <= a@.len(),
            forall|j: int| 0 <= j < i ==> a@[j] == b@[j],
        decreases a@.len() - i,
    {
        if a[i] != b[i] {
            return false;
        }
        i = i + 1;
    }
    assert(a@ =~= b@);
    true
}

/// The position of the first `sep` in `s`, if there is one.
pub fn find_first(s: &[u8], sep: u8) -> (r: Option<usize>)
    ensures
        match r {
            Some(i) => is_first_index(s@, sep, i as int),
            None => forall|j: int| 0 <= j < s@.len() ==> s@[j] != sep,
        },
{
    let mut i: usize = 0;
    while i < s.len()
        invariant
            0 <= i <= s@.len(),
            forall|j: int| 0 <= j < i ==> s@[j] != sep,
        decreases s@.len() - i,
    {
        if s[i] == sep {
            return Some(i);
        }
        i = i + 1;
    }
    None
}

/// Copies `s[start..end]` into a new vector.
pub fn copy_range(s: &[u8], start: usize, end: usize) -> (r: Vec<u8>)
    requires
        start <= end <= s@.len(),
    ensures
        r@ == s@.subrange(start as int, end as int),
{
    let mut r: Vec<u8> = Vec::new();
    let mut i = start;
    while i < end
        invariant
            start <= i <= end <= s@.len(),
            r@ == s@.subrange(start as int, i as int),
        decreases end - i,
    {
        r.push(s[i]);
        i = i + 1;
        assert(r@ =~= s@.subrange(start as int, i as int));
    }
    r
}

/// Splits `s` at its first `sep` into the parts before and after it.
pub fn split_once(s: &[u8], sep: u8) -> (r: Option<(Vec<u8>, Vec<u8>)>)
    ensures
        match r {
            Some((a, b)) => spec_split_once(s@, sep) == Some((a@, b@)),
            None => spec_split_once(s@, sep).is_none(),
        },
{
    let n = s.len();
    match find_first(s, sep) {
        Some(i) => {
            let a = copy_range(s, 0, i);
            let b = copy_range(s, i + 1, n);
            proof {
                let k = choose|k: int| is_first_index(s@, sep, k);
                lemma_first_index_unique(s@, sep, i as int, k);
                assert(a@ =~= s@.take(i as int));
                assert(b@ =~= s@.skip(i + 1));
            }
            Some((a, b))
        },
        None => {
            assert(!exists|i: int| is_first_index(s@, sep, i));
            None
        },
    }
}

} // verus!
