//! Joins serialized signals into one byte buffer, separated by a delimiter.
use crate::context::Context;
use crate::escapes::{parse_string_to_bytes, unescape};
use vstd::prelude::*;
use vstd::string::StringSliceAdditionalSpecFns;

verus! {

/// The entries joined with `delim` between consecutive entries.
pub open spec fn join(entries: Seq<Seq<u8>>, delim: Seq<u8>) -> Seq<u8>
    decreases entries.len(),
{
    if entries.len() == 0 {
        Seq::empty()
    } else if entries.len() == 1 {
        entries[0]
    } else {
        join(entries.drop_last(), delim) + delim + entries.last()
    }
}

/// The delimiter placed between signals.
pub struct Parameters {
    pub delimiter: Vec<u8>,
}

impl Parameters {
    /// `delimiter` may hold `\xHH` escapes; other text keeps its UTF-8 bytes.
    pub fn new(delimiter: &str) -> (p: Self)
        ensures
            p.delimiter@ == unescape(delimiter.spec_bytes()),
    {
        Parameters { delimiter: parse_string_to_bytes(delimiter) }
    }
}

/// Joins the bytes of its input signals, separated by the delimiter.
pub struct BytesJoinBlock {
    buffer: Vec<u8>,
}

impl Default for BytesJoinBlock {
    fn default() -> (b: Self)
        ensures
            b.output().len() == 0,
    {
        BytesJoinBlock { buffer: Vec::new() }
    }
}

/// Joins `entries` with `delim` between consecutive entries.
pub fn join_bytes(entries: &[Vec<u8>], delim: &[u8]) -> (r: Vec<u8>)
    ensures
        r@ == join(entries@.map_values(|e: Vec<u8>| e@), delim@),
{
    let ghost es = entries@.map_values(|e: Vec<u8>| e@);
    let mut out: Vec<u8> = Vec::new();
    let mut i: usize = 0;
    while i < entries.len()
        invariant
            0 <= i <= entries@.len(),
            es == entries@.map_values(|e: Vec<u8>| e@),
            out@ == join(es.take(i as int), delim@),
        decreases entries@.len() - i,
    {
        if i > 0 {
            out.extend_from_slice(delim);
        }
        out.extend_from_slice(entries[i].as_slice());
        proof {
            let t = es.take(i + 1);
            assert(t.drop_last() =~= es.take(i as int));
            assert(t.last() == entries@[i as int]@);
            if i == 0 {
                assert(out@ =~= t[0]);
            }
        }
        i = i + 1;
    }
    assert(es.take(i as int) =~= es);
    out
}

impl BytesJoinBlock {
    /// The bytes produced by the last call of `process`.
    pub closed spec fn output(&self) -> Seq<u8> {
        self.buffer@
    }

    /// Joins the serialized input signals with the delimiter.
    pub fn process<C: Context>(&mut self, parameters: &Parameters, _context: &C, inputs: &[Vec<u8>]) -> (out: &[u8])
        ensures
            out@ == join(inputs@.map_values(|e: Vec<u8>| e@), parameters.delimiter@),
            final(self).output() == out@,
    {
        self.buffer = join_bytes(inputs, parameters.delimiter.as_slice());
        self.buffer.as_slice()
    }
}

} // verus!
