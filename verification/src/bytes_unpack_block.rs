//! Unpacks numeric fields from a byte buffer, each laid out by its own field
//! spec, and reports whether the unpacked values are still fresh.
use crate::byte_data::{
    all_field_specs_valid, decode_fields, field_ints, parse_byte_data_spec, spec_parse_field_spec,
    unpack_fields, ByteOrderSpec, DataType, FieldValue,
};
use crate::context::Context;
use crate::validity::Validity;
use vstd::prelude::*;
use vstd::string::StringSliceAdditionalSpecFns;

verus! {

/// One field spec per output, and the age after which the outputs are no
/// longer valid without a successful unpack (nanoseconds).
pub struct Parameters {
    pub pack_spec: Vec<(DataType, ByteOrderSpec)>,
    pub stale_age: u128,
}

impl Parameters {
    /// Parses one field spec per output.
    pub fn new(pack_spec_str: &[&str], stale_age: u128) -> (p: Self)
        requires
            all_field_specs_valid(pack_spec_str@),
        ensures
            p.stale_age == stale_age,
            p.pack_spec@.len() == pack_spec_str@.len(),
            forall|i: int|
                0 <= i < pack_spec_str@.len() ==> Some(#[trigger] p.pack_spec@[i]) == spec_parse_field_spec(
                    pack_spec_str@[i].spec_bytes(),
                ),
    {
        Parameters { pack_spec: parse_byte_data_spec(pack_spec_str), stale_age }
    }
}

/// The zero value of a field of type `dt`.
pub open spec fn zero_field(dt: DataType) -> FieldValue {
    if dt.signed() {
        FieldValue::Signed(0)
    } else {
        FieldValue::Unsigned(0)
    }
}

/// One zero value per field of `spec`.
pub open spec fn zero_fields(spec: Seq<(DataType, ByteOrderSpec)>) -> Seq<FieldValue> {
    spec.map_values(|f: (DataType, ByteOrderSpec)| zero_field(f.0))
}

/// Unpacks the fields of its input. When the input is too short the previous
/// values are kept (zeros before the first success), and the outputs turn
/// invalid once the last success is older than the stale age.
pub struct BytesUnpackBlock {
    pub values: Vec<FieldValue>,
    pub validity: Validity,
}

impl Default for BytesUnpackBlock {
    fn default() -> (b: Self)
        ensures
            b.values@.len() == 0,
            !b.validity.valid,
            b.validity.last_valid_time.is_none(),
    {
        BytesUnpackBlock { values: Vec::new(), validity: Validity::new() }
    }
}

impl BytesUnpackBlock {
    /// Whether the outputs are valid.
    pub fn is_valid(&self) -> (b: bool)
        ensures
            b == self.validity.valid,
    {
        self.validity.valid
    }

    /// Unpacks the fields of `input`; returns the current values and whether they are valid.
    pub fn process<C: Context>(&mut self, parameters: &Parameters, context: &C, input: &[u8]) -> (out: (&[FieldValue], bool))
        requires
            old(self).validity.time_ok(context.spec_time()),
        ensures
            out.0@ == final(self).values@,
            out.1 == final(self).validity.valid,
            final(self).validity == old(self).validity.next(
                decode_fields(parameters.pack_spec@, input@) is Some,
                context.spec_time(),
                parameters.stale_age,
            ),
            final(self).values@.len() == parameters.pack_spec@.len(),
            match decode_fields(parameters.pack_spec@, input@) {
                Some(vals) => field_ints(final(self).values@) == vals,
                None => final(self).values@ == if old(self).values@.len() == parameters.pack_spec@.len() {
                    old(self).values@
                } else {
                    zero_fields(parameters.pack_spec@)
                },
            },
    {
        let now = context.time();
        match unpack_fields(input, parameters.pack_spec.as_slice()) {
            Some(vals) => {
                self.values = vals;
                self.validity.update(true, now, parameters.stale_age);
            },
            None => {
                if self.values.len() != parameters.pack_spec.len() {
                    self.values = zeros_for(parameters.pack_spec.as_slice());
                }
                self.validity.update(false, now, parameters.stale_age);
            },
        }
        (self.values.as_slice(), self.validity.valid)
    }
}

/// One zero value per field of `spec`.
fn zeros_for(spec: &[(DataType, ByteOrderSpec)]) -> (r: Vec<FieldValue>)
    ensures
        r@ == zero_fields(spec@),
{
    let mut r: Vec<FieldValue> = Vec::new();
    let mut i: usize = 0;
    while i < spec.len()
        invariant
            0 <= i <= spec@.len(),
            r@ == zero_fields(spec@.take(i as int)),
        decreases spec@.len() - i,
    {
        let (dt, _) = spec[i];
        let z = if dt.is_signed() {
            FieldValue::Signed(0)
        } else {
            FieldValue::Unsigned(0)
        };
        r.push(z);
        i = i + 1;
        assert(r@ =~= zero_fields(spec@.take(i as int)));
    }
    assert(spec@.take(i as int) =~= spec@);
    r
}

} // verus!
