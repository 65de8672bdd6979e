//! Packs up to eight numeric inputs into a byte buffer, each laid out by its
//! own field spec (data type and byte order).
use crate::byte_data::{
    all_field_specs_valid, encode_fields, field_ints, pack_fields, parse_byte_data_spec,
    spec_parse_field_spec, values_fit, ByteOrderSpec, DataType, FieldValue,
};
use crate::context::Context;
use vstd::prelude::*;
use vstd::string::StringSliceAdditionalSpecFns;

verus! {

/// Each input is assigned a field spec that says how it is packed into bytes,
/// e.g. `"F32:BigEndian"`.
pub struct Parameters {
    pub pack_spec: Vec<(DataType, ByteOrderSpec)>,
}

impl Parameters {
    /// Parses one field spec per input.
    pub fn new(pack_spec_str: &[&str]) -> (p: Self)
        requires
            all_field_specs_valid(pack_spec_str@),
        ensures
            p.pack_spec@.len() == pack_spec_str@.len(),
            forall|i: int|
                0 <= i < pack_spec_str@.len() ==> Some(#[trigger] p.pack_spec@[i]) == spec_parse_field_spec(
                    pack_spec_str@[i].spec_bytes(),
                ),
    {
        Parameters { pack_spec: parse_byte_data_spec(pack_spec_str) }
    }
}

/// Packs its inputs into a byte buffer according to the field specs.
pub struct BytesPackBlock {
    buffer: Vec<u8>,
}

impl Default for BytesPackBlock {
    fn default() -> (b: Self)
        ensures
            b.output().len() == 0,
    {
        BytesPackBlock { buffer: Vec::new() }
    }
}

impl BytesPackBlock {
    /// The bytes produced by the last call of `process`.
    pub closed spec fn output(&self) -> Seq<u8> {
        self.buffer@
    }

    /// Packs `inputs[i]` as field `i`, one field after the other.
    pub fn process<C: Context>(&mut self, parameters: &Parameters, context: &C, inputs: &[FieldValue]) -> (out: &[u8])
        requires
            values_fit(parameters.pack_spec@, field_ints(inputs@)),
        ensures
            out@ == encode_fields(parameters.pack_spec@, field_ints(inputs@)),
            final(self).output() == out@,
    {
        self.buffer = pack_fields(parameters.pack_spec.as_slice(), inputs);
        self.buffer.as_slice()
    }
}

} // verus!
