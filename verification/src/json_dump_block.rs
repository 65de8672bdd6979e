//! The layout of the JSON dump block: which signals become the elements of a
//! JSON array and which become the named members of a JSON object, and how
//! each is encoded. Writing the JSON text itself is left to a serializer.
use crate::text::{bytes_equal, find_first, is_first_index, lemma_first_index_unique, spec_split_once, ParseEnumError};
use vstd::prelude::*;
use vstd::string::StringSliceAdditionalSpecFns;
use vstd::utf8::encode_utf8;

verus! {

/// How one signal is encoded in the JSON document. `Default` is plain JSON (a
/// matrix as nested arrays in row-major order, bytes as an array of numbers);
/// `Utf8` is a JSON string (the signal's JSON text, or the bytes as text).
#[derive(Clone, Copy, Debug, PartialEq, Eq, Structural)]
pub enum EncodingType {
    Default,
    Utf8,
}

/// The variant named `s` (`"Default"`, `"Utf8"`).
pub open spec fn spec_parse_encoding_type(s: Seq<u8>) -> Option<EncodingType> {
    if s == "Default".spec_bytes() {
        Some(EncodingType::Default)
    } else if s == "Utf8".spec_bytes() {
        Some(EncodingType::Utf8)
    } else {
        None
    }
}

impl EncodingType {
    /// The variant named `s` (`"Default"`, `"Utf8"`); `None` for any other text.
    pub fn parse(s: &str) -> (r: Option<Self>)
        ensures
            r == spec_parse_encoding_type(s.spec_bytes()),
    {
        let b = s.as_bytes();
        if bytes_equal(b, "Default".as_bytes()) {
            Some(EncodingType::Default)
        } else if bytes_equal(b, "Utf8".as_bytes()) {
            Some(EncodingType::Utf8)
        } else {
            None
        }
    }
}

impl core::str::FromStr for EncodingType {
    type Err = ParseEnumError;

    fn from_str(s: &str) -> (r: Result<Self, Self::Err>)
        ensures
            r == match spec_parse_encoding_type(s.spec_bytes()) {
                Some(v) => Ok(v),
                None => Err(ParseEnumError),
            },
    {
        match Self::parse(s) {
            Some(v) => Ok(v),
            None => Err(ParseEnumError),
        }
    }
}

/// One entry `"<encoding>:<key>"` of an output spec, as its encoding and the
/// bytes of its key; `None` when there is no `:` or the encoding is unknown.
pub open spec fn spec_parse_output_entry(s: Seq<u8>) -> Option<(EncodingType, Seq<u8>)> {
    match spec_split_once(s, 58u8) {
        Some((name, key)) => match spec_parse_encoding_type(name) {
            Some(t) => Some((t, key)),
            None => None,
        },
        None => None,
    }
}

/// Parses one entry `"<encoding>:<key>"`, which must be well formed.
fn parse_output_entry(entry: &String) -> (r: (EncodingType, String))
    requires
        spec_parse_output_entry(encode_utf8(entry@)) is Some,
    ensures
        spec_parse_output_entry(encode_utf8(entry@)) == Some((r.0, encode_utf8(r.1@))),
{
    let s: &str = entry.as_str();
    let b = s.as_bytes();
    let ghost bytes = encode_utf8(entry@);
    assert(b@ == bytes);
    let i = find_first(b, 58).unwrap();
    proof {
        vstd::utf8::encode_utf8_valid_utf8(entry@);
        vstd::utf8::is_char_boundary_iff_not_is_continuation_byte(bytes, i as int);
        assert(spec_split_once(bytes, 58u8) == Some((bytes.take(i as int), bytes.skip(i + 1)))) by {
            let j = choose|j: int| is_first_index(bytes, 58u8, j);
            lemma_first_index_unique(bytes, 58u8, i as int, j);
        }
    }
    let (name, rest) = s.split_at(i);
    proof {
        let rb = rest.spec_bytes();
        vstd::utf8::valid_utf8_split(bytes, i as int);
        assert(rb[0] == 58u8);
        reveal_with_fuel(vstd::utf8::is_char_boundary, 2);
        assert(vstd::utf8::is_char_boundary(rb, 1));
    }
    let (_, key) = rest.split_at(1);
    assert(name.spec_bytes() =~= bytes.take(i as int));
    assert(key.spec_bytes() =~= bytes.skip(i + 1));
    let t = EncodingType::parse(name).unwrap();
    let k = key.to_owned();
    (t, k)
}

/// Parameters of the JSON dump block: the encoding and key name of each
/// signal. With no entries the signals form a JSON array.
pub struct Parameters {
    pub encoding_spec: Vec<(EncodingType, String)>,
}

/// Every entry is `"<encoding>:<key>"` with a known encoding.
pub open spec fn all_output_entries_valid(entries: Seq<String>) -> bool {
    forall|i: int| 0 <= i < entries.len() ==> (#[trigger] spec_parse_output_entry(encode_utf8(entries[i]@))) is Some
}

impl Parameters {
    /// Parses one entry `"<encoding>:<key>"` per signal.
    pub fn new(encoding_spec: &[String]) -> (p: Self)
        requires
            all_output_entries_valid(encoding_spec@),
        ensures
            p.encoding_spec@.len() == encoding_spec@.len(),
            forall|i: int| 0 <= i < encoding_spec@.len() ==> spec_parse_output_entry(encode_utf8(encoding_spec@[i]@))
                == Some(((#[trigger] p.encoding_spec@[i]).0, encode_utf8(p.encoding_spec@[i].1@))),
    {
        let mut v: Vec<(EncodingType, String)> = Vec::new();
        let mut i: usize = 0;
        while i < encoding_spec.len()
            invariant
                0 <= i <= encoding_spec@.len(),
                all_output_entries_valid(encoding_spec@),
                v@.len() == i,
                forall|j: int| 0 <= j < i ==> spec_parse_output_entry(encode_utf8(encoding_spec@[j]@))
                    == Some(((#[trigger] v@[j]).0, encode_utf8(v@[j].1@))),
            decreases encoding_spec@.len() - i,
        {
            assert(spec_parse_output_entry(encode_utf8(encoding_spec@[i as int]@)) is Some);
            let e = parse_output_entry(&encoding_spec[i]);
            v.push(e);
            i = i + 1;
        }
        Parameters { encoding_spec: v }
    }
}

/// How the block arranges its signals.
#[derive(Clone, Copy, Debug, PartialEq, Eq, Structural)]
pub enum JsonLayout {
    /// A single signal, on its own.
    Bare,
    /// The signals as the elements of an array, in order.
    Array,
    /// The signals as members of an object, named by the keys of the spec.
    Object,
}

/// The layout for `n_inputs` signals and an output spec of `n_entries` entries.
pub open spec fn spec_layout(n_entries: nat, n_inputs: nat) -> JsonLayout {
    if n_entries > 0 {
        JsonLayout::Object
    } else if n_inputs == 1 {
        JsonLayout::Bare
    } else {
        JsonLayout::Array
    }
}

/// Without entries one signal stands alone and several form an array; with
/// entries the signals form an object. Several signals need one entry each,
/// or none.
pub fn json_layout(parameters: &Parameters, n_inputs: usize) -> (l: JsonLayout)
    requires
        1 <= n_inputs,
        n_inputs == 1 || parameters.encoding_spec@.len() == 0 || parameters.encoding_spec@.len() == n_inputs,
    ensures
        l == spec_layout(parameters.encoding_spec@.len(), n_inputs as nat),
{
    if parameters.encoding_spec.len() > 0 {
        JsonLayout::Object
    } else if n_inputs == 1 {
        JsonLayout::Bare
    } else {
        JsonLayout::Array
    }
}

/// The encoding of signal `i`: the one its entry names, or `Default`
/// without entries.
pub fn signal_encoding(parameters: &Parameters, i: usize) -> (e: EncodingType)
    requires
        parameters.encoding_spec@.len() == 0 || i < parameters.encoding_spec@.len(),
    ensures
        parameters.encoding_spec@.len() == 0 ==> e == EncodingType::Default,
        parameters.encoding_spec@.len() > 0 ==> e == parameters.encoding_spec@[i as int].0,
{
    if parameters.encoding_spec.len() == 0 {
        EncodingType::Default
    } else {
        parameters.encoding_spec[i].0
    }
}

} // verus!
