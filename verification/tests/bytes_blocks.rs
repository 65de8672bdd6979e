use byteorder::{BigEndian, LittleEndian, WriteBytesExt};
use pictorus_core_blocks::byte_data::{ByteOrderSpec, DataType, FieldValue};
use pictorus_core_blocks::bytes_join_block::{BytesJoinBlock, Parameters as JoinParameters};
use pictorus_core_blocks::bytes_literal_block::{BytesLiteralBlock, Parameters as LiteralParameters};
use pictorus_core_blocks::bytes_pack_block::{BytesPackBlock, Parameters as PackParameters};
use pictorus_core_blocks::bytes_split_block::{split_outputs, BytesSplitBlock, FromBytes, Parameters as SplitParameters};
use pictorus_core_blocks::bytes_unpack_block::{BytesUnpackBlock, Parameters as UnpackParameters};
use pictorus_core_blocks::context::StubContext;

const MS: u128 = 1_000_000;

/// The field value a number takes in a field of type `dt`: integers are
/// converted with saturation, floats are stored by their bit pattern.
fn field(dt: DataType, x: f64) -> FieldValue {
    match dt {
        DataType::U8 => FieldValue::Unsigned(x as u8 as u128),
        DataType::I8 => FieldValue::Signed(x as i8 as i128),
        DataType::U16 => FieldValue::Unsigned(x as u16 as u128),
        DataType::I16 => FieldValue::Signed(x as i16 as i128),
        DataType::U24 | DataType::U32 => FieldValue::Unsigned(x as u32 as u128),
        DataType::I24 | DataType::I32 => FieldValue::Signed(x as i32 as i128),
        DataType::U64 => FieldValue::Unsigned(x as u64 as u128),
        DataType::I64 => FieldValue::Signed(x as i64 as i128),
        DataType::U128 => FieldValue::Unsigned(x as u128),
        DataType::I128 => FieldValue::Signed(x as i128),
        DataType::F32 => FieldValue::Unsigned((x as f32).to_bits() as u128),
        DataType::F64 => FieldValue::Unsigned(x.to_bits() as u128),
    }
}

/// The number a field value of type `dt` stands for.
fn number(dt: DataType, v: FieldValue) -> f64 {
    match (dt, v) {
        (DataType::F32, FieldValue::Unsigned(bits)) => f32::from_bits(bits as u32) as f64,
        (DataType::F64, FieldValue::Unsigned(bits)) => f64::from_bits(bits as u64),
        (_, FieldValue::Unsigned(u)) => u as f64,
        (_, FieldValue::Signed(i)) => i as f64,
    }
}

fn fields(params: &PackParameters, inputs: &[f64]) -> Vec<FieldValue> {
    params.pack_spec.iter().zip(inputs.iter()).map(|((dt, _), x)| field(*dt, *x)).collect()
}

fn numbers(params: &UnpackParameters, values: &[FieldValue]) -> Vec<f64> {
    params.pack_spec.iter().zip(values.iter()).map(|((dt, _), v)| number(*dt, *v)).collect()
}

#[test]
fn test_bytes_pack_block_1_input() {
    let context = StubContext::default();
    let params = PackParameters::new(&["I8:BigEndian"]);
    let mut block = BytesPackBlock::default();
    let inputs = 255.0;

    let mut expected = Vec::new();
    expected.write_i8(inputs as i8).unwrap();

    let output = block.process(&params, &context, &fields(&params, &[inputs]));
    assert_eq!(output, expected.as_slice());
}

#[test]
fn test_bytes_pack_block_2_inputs() {
    let context = StubContext::default();
    let params = PackParameters::new(&["F32:BigEndian", "U24:LittleEndian"]);
    let mut block = BytesPackBlock::default();
    let inputs = (255.0, 123.0);

    let mut expected = Vec::new();
    expected.write_f32::<BigEndian>(inputs.0 as f32).unwrap();
    expected.write_u24::<LittleEndian>(inputs.1 as u32).unwrap();

    let output = block.process(&params, &context, &fields(&params, &[inputs.0, inputs.1]));
    assert_eq!(output, expected.as_slice());

    let inputs = (42.0, 1337.0);
    let mut expected = Vec::new();
    expected.write_f32::<BigEndian>(inputs.0 as f32).unwrap();
    expected.write_u24::<LittleEndian>(inputs.1 as u32).unwrap();
    let output = block.process(&params, &context, &fields(&params, &[inputs.0, inputs.1]));
    assert_eq!(output, expected.as_slice());
}

#[test]
fn test_bytes_pack_block_3_inputs() {
    let context = StubContext::default();
    let params = PackParameters::new(&["I16:BigEndian", "U16:LittleEndian", "I32:BigEndian"]);
    let mut block = BytesPackBlock::default();
    let inputs = [1000.0, 12345.0, -1234.0];

    let mut expected = Vec::new();
    expected.write_i16::<BigEndian>(inputs[0] as i16).unwrap();
    expected.write_u16::<LittleEndian>(inputs[1] as u16).unwrap();
    expected.write_i32::<BigEndian>(inputs[2] as i32).unwrap();

    let output = block.process(&params, &context, &fields(&params, &inputs));
    assert_eq!(output, expected.as_slice());
}

#[test]
fn test_bytes_pack_block_4_inputs() {
    let context = StubContext::default();
    let params = PackParameters::new(&["I16:BigEndian", "U16:LittleEndian", "I32:BigEndian", "F64:LittleEndian"]);
    let mut block = BytesPackBlock::default();
    let inputs = [1000.0, 12345.0, -1234.0, 3.1];

    let mut expected = Vec::new();
    expected.write_i16::<BigEndian>(inputs[0] as i16).unwrap();
    expected.write_u16::<LittleEndian>(inputs[1] as u16).unwrap();
    expected.write_i32::<BigEndian>(inputs[2] as i32).unwrap();
    expected.write_f64::<LittleEndian>(inputs[3]).unwrap();

    let output = block.process(&params, &context, &fields(&params, &inputs));
    assert_eq!(output, expected.as_slice());
}

#[test]
fn test_bytes_pack_block_5_inputs() {
    let context = StubContext::default();
    let params = PackParameters::new(&[
        "I16:BigEndian",
        "U16:LittleEndian",
        "I32:BigEndian",
        "F64:LittleEndian",
        "U8:BigEndian",
    ]);
    let mut block = BytesPackBlock::default();
    let inputs = [1000.0, 12345.0, -1234.0, 3.1, 255.0];

    let mut expected = Vec::new();
    expected.write_i16::<BigEndian>(inputs[0] as i16).unwrap();
    expected.write_u16::<LittleEndian>(inputs[1] as u16).unwrap();
    expected.write_i32::<BigEndian>(inputs[2] as i32).unwrap();
    expected.write_f64::<LittleEndian>(inputs[3]).unwrap();
    expected.write_u8(inputs[4] as u8).unwrap();

    let output = block.process(&params, &context, &fields(&params, &inputs));
    assert_eq!(output, expected.as_slice());
}

#[test]
fn test_bytes_pack_block_6_inputs() {
    let context = StubContext::default();
    let params = PackParameters::new(&[
        "I16:BigEndian",
        "U16:LittleEndian",
        "I32:BigEndian",
        "F64:LittleEndian",
        "U8:BigEndian",
        "I64:LittleEndian",
    ]);
    let mut block = BytesPackBlock::default();
    let inputs = [1000.0, 12345.0, -1234.0, 3.1, 255.0, -1234567890.0];

    let mut expected = Vec::new();
    expected.write_i16::<BigEndian>(inputs[0] as i16).unwrap();
    expected.write_u16::<LittleEndian>(inputs[1] as u16).unwrap();
    expected.write_i32::<BigEndian>(inputs[2] as i32).unwrap();
    expected.write_f64::<LittleEndian>(inputs[3]).unwrap();
    expected.write_u8(inputs[4] as u8).unwrap();
    expected.write_i64::<LittleEndian>(inputs[5] as i64).unwrap();

    let output = block.process(&params, &context, &fields(&params, &inputs));
    assert_eq!(output, expected.as_slice());
}

#[test]
fn test_bytes_pack_block_7_inputs() {
    let context = StubContext::default();
    let params = PackParameters::new(&[
        "I16:BigEndian",
        "U16:LittleEndian",
        "I32:BigEndian",
        "F64:LittleEndian",
        "U8:BigEndian",
        "I64:LittleEndian",
        "F32:BigEndian",
    ]);
    let mut block = BytesPackBlock::default();
    let inputs = [1000.0, 12345.0, -1234.0, 3.1, 255.0, -1234567890.0, 2.7];

    let mut expected = Vec::new();
    expected.write_i16::<BigEndian>(inputs[0] as i16).unwrap();
    expected.write_u16::<LittleEndian>(inputs[1] as u16).unwrap();
    expected.write_i32::<BigEndian>(inputs[2] as i32).unwrap();
    expected.write_f64::<LittleEndian>(inputs[3]).unwrap();
    expected.write_u8(inputs[4] as u8).unwrap();
    expected.write_i64::<LittleEndian>(inputs[5] as i64).unwrap();
    expected.write_f32::<BigEndian>(inputs[6] as f32).unwrap();

    let output = block.process(&params, &context, &fields(&params, &inputs));
    assert_eq!(output, expected.as_slice());
}

#[test]
fn test_bytes_pack_block_8_inputs() {
    let context = StubContext::default();
    let params = PackParameters::new(&[
        "I16:BigEndian",
        "U16:LittleEndian",
        "I32:BigEndian",
        "F64:LittleEndian",
        "U8:BigEndian",
        "I64:LittleEndian",
        "F32:BigEndian",
        "U32:LittleEndian",
    ]);
    let mut block = BytesPackBlock::default();
    let inputs = [1000.0, 12345.0, -1234.0, 3.1, 255.0, -1234567890.0, 2.7, 4294967295.0];

    let mut expected = Vec::new();
    expected.write_i16::<BigEndian>(inputs[0] as i16).unwrap();
    expected.write_u16::<LittleEndian>(inputs[1] as u16).unwrap();
    expected.write_i32::<BigEndian>(inputs[2] as i32).unwrap();
    expected.write_f64::<LittleEndian>(inputs[3]).unwrap();
    expected.write_u8(inputs[4] as u8).unwrap();
    expected.write_i64::<LittleEndian>(inputs[5] as i64).unwrap();
    expected.write_f32::<BigEndian>(inputs[6] as f32).unwrap();
    expected.write_u32::<LittleEndian>(inputs[7] as u32).unwrap();

    let output = block.process(&params, &context, &fields(&params, &inputs));
    assert_eq!(output, expected.as_slice());
}

/// Packs `data` with `specs`, then runs the unpack block on it, on an empty
/// input before the stale age, and on an empty input after it.
fn unpack_roundtrip(specs: &[&str], data: &[f64]) -> [(Vec<f64>, bool); 3] {
    let mut context = StubContext::default();
    let pack_parameters = PackParameters::new(specs);
    let parameters = UnpackParameters::new(specs, 1000 * MS);
    let mut pack_block = BytesPackBlock::default();
    let mut block = BytesUnpackBlock::default();

    let packed = pack_block.process(&pack_parameters, &context, &fields(&pack_parameters, data)).to_vec();
    let (values, valid) = block.process(&parameters, &context, &packed);
    let first = (numbers(&parameters, values), valid);

    let (values, valid) = block.process(&parameters, &context, &[]);
    let second = (numbers(&parameters, values), valid);

    context.time += 1100 * MS;
    let (values, valid) = block.process(&parameters, &context, &[]);
    let third = (numbers(&parameters, values), valid);
    [first, second, third]
}

/// Compares unpacked numbers: exactly, except the `f32` fields listed in
/// `f32_fields`, which are compared to within 0.001.
fn assert_unpacked(actual: &[f64], expected: &[f64], f32_fields: &[usize]) {
    assert_eq!(actual.len(), expected.len());
    for (i, (a, e)) in actual.iter().zip(expected.iter()).enumerate() {
        if f32_fields.contains(&i) {
            assert!((a - e).abs() <= 0.001, "{} != {}", a, e);
        } else {
            assert_eq!(a, e);
        }
    }
}

#[test]
fn test_bytes_unpack_1_output() {
    let [first, second, third] = unpack_roundtrip(&["I8:BigEndian"], &[42.0]);
    assert_eq!(first, (vec![42.0], true));
    assert_eq!(second, (vec![42.0], true));
    assert_eq!(third, (vec![42.0], false));
}

#[test]
fn test_bytes_unpack_2_outputs() {
    let [first, second, third] = unpack_roundtrip(&["I8:BigEndian", "U64:LittleEndian"], &[-23.0, 43.0]);
    assert_eq!(first, (vec![-23.0, 43.0], true));
    assert_eq!(second, (vec![-23.0, 43.0], true));
    assert_eq!(third, (vec![-23.0, 43.0], false));
}

#[test]
fn test_bytes_unpack_3_outputs() {
    let [first, second, third] =
        unpack_roundtrip(&["I8:BigEndian", "U64:LittleEndian", "F32:BigEndian"], &[-23.0, 43.0, 1.234]);
    let expected = [-23.0, 43.0, 1.234];
    assert_unpacked(&first.0, &expected, &[2]);
    assert!(first.1);
    assert_unpacked(&second.0, &expected, &[2]);
    assert!(second.1);
    assert_unpacked(&third.0, &expected, &[2]);
    assert!(!third.1);
}

#[test]
fn test_bytes_unpack_4_outputs() {
    let [first, second, third] = unpack_roundtrip(
        &["I8:BigEndian", "U64:LittleEndian", "F32:BigEndian", "F64:LittleEndian"],
        &[-23.0, 43.0, 1.234, 3.1],
    );
    let expected = [-23.0, 43.0, 1.234, 3.1];
    assert_unpacked(&first.0, &expected, &[2]);
    assert!(first.1);
    assert_unpacked(&second.0, &expected, &[2]);
    assert!(second.1);
    assert_unpacked(&third.0, &expected, &[2]);
    assert!(!third.1);
}

#[test]
fn test_bytes_unpack_5_outputs() {
    let [first, second, third] = unpack_roundtrip(
        &["I8:BigEndian", "U64:LittleEndian", "F32:BigEndian", "F64:LittleEndian", "I32:BigEndian"],
        &[-23.0, 43.0, 1.234, 3.1, 42.5],
    );
    let expected = [-23.0, 43.0, 1.234, 3.1, 42.0];
    assert_unpacked(&first.0, &expected, &[2]);
    assert!(first.1);
    assert_unpacked(&second.0, &expected, &[2]);
    assert!(second.1);
    assert_unpacked(&third.0, &expected, &[2]);
    assert!(!third.1);
}

#[test]
fn test_bytes_unpack_6_outputs() {
    let specs = ["I8:BigEndian", "U64:LittleEndian", "F32:BigEndian", "F64:LittleEndian", "I32:BigEndian", "U16:LittleEndian"];
    let mut context = StubContext::default();
    let pack_parameters = PackParameters::new(&specs);
    let parameters = UnpackParameters::new(&specs, 1000 * MS);
    let mut pack_block = BytesPackBlock::default();
    let mut block = BytesUnpackBlock::default();

    let test_data = [-23.0, 43.0, 1.234, 3.1, 42.5, 9999.0];
    let expected = [-23.0, 43.0, 1.234, 3.1, 42.0, 9999.0];
    let packed = pack_block.process(&pack_parameters, &context, &fields(&pack_parameters, &test_data)).to_vec();
    let (values, valid) = block.process(&parameters, &context, &packed);
    assert_unpacked(&numbers(&parameters, values), &expected, &[2]);
    assert!(valid);

    let (values, valid) = block.process(&parameters, &context, &[]);
    assert_unpacked(&numbers(&parameters, values), &expected, &[2]);
    assert!(valid);

    context.time += 1100 * MS;
    let (values, valid) = block.process(&parameters, &context, &packed[..15]);
    assert_unpacked(&numbers(&parameters, values), &expected, &[2]);
    assert!(!valid);

    let test_data = [1337.0, 12.0, 1994.0, -8.3, 71.92, -15.0];
    let packed = pack_block.process(&pack_parameters, &context, &fields(&pack_parameters, &test_data)).to_vec();
    let (values, valid) = block.process(&parameters, &context, &packed);
    let unpacked = numbers(&parameters, values);
    assert_eq!(unpacked[0], 127.0);
    assert_eq!(unpacked[1], 12.0);
    assert_eq!(unpacked[2], 1994.0);
    assert_eq!(unpacked[3], -8.3);
    assert_eq!(unpacked[4], 71.0);
    assert_eq!(unpacked[5], 0.0);
    assert!(valid);
}

#[test]
fn test_bytes_unpack_7_outputs() {
    let specs = [
        "I8:BigEndian",
        "U64:LittleEndian",
        "F32:BigEndian",
        "F64:LittleEndian",
        "I32:BigEndian",
        "U16:LittleEndian",
        "F32:LittleEndian",
    ];
    let [first, second, third] = unpack_roundtrip(&specs, &[-23.0, 43.0, 1.234, 3.1, 42.5, 9999.0, -7.89]);
    let expected = [-23.0, 43.0, 1.234, 3.1, 42.0, 9999.0, -7.89];
    assert_unpacked(&first.0, &expected, &[2, 6]);
    assert!(first.1);
    assert_unpacked(&second.0, &expected, &[2, 6]);
    assert!(second.1);
    assert_unpacked(&third.0, &expected, &[2, 6]);
    assert!(!third.1);
}

#[test]
fn bytes_unpack_keeps_zeros_before_first_success() {
    let context = StubContext::default();
    let parameters = UnpackParameters::new(&["I16:LittleEndian", "U8:BigEndian"], 1000 * MS);
    let mut block = BytesUnpackBlock::default();
    let (values, valid) = block.process(&parameters, &context, &[1]);
    assert_eq!(values, &[FieldValue::Signed(0), FieldValue::Unsigned(0)]);
    assert!(!valid);
    let (values, valid) = block.process(&parameters, &context, &[0xFE, 0xFF, 7, 99]);
    assert_eq!(values, &[FieldValue::Signed(-2), FieldValue::Unsigned(7)]);
    assert!(valid);
    assert!(block.is_valid());
}

#[test]
fn bytes_pack_wide_and_odd_sized_fields() {
    let context = StubContext::default();
    let params = PackParameters::new(&["I24:BigEndian", "U128:LittleEndian"]);
    let mut block = BytesPackBlock::default();
    let output = block.process(&params, &context, &[FieldValue::Signed(-2), FieldValue::Unsigned(1)]);
    let mut expected = vec![0xFF, 0xFF, 0xFE, 1];
    expected.extend_from_slice(&[0u8; 15]);
    assert_eq!(output, expected.as_slice());
}

/// One output of the split block: a number parsed from its chunk, or the
/// chunk's bytes.
#[derive(Debug, Clone, PartialEq)]
enum Out {
    Num(f64),
    Bytes(Vec<u8>),
}

/// Runs the split block; outputs marked `true` in `numeric` are parsed as numbers.
fn split<'a>(
    block: &'a mut BytesSplitBlock<Out>,
    params: &SplitParameters,
    context: &StubContext,
    numeric: &[bool],
    input: &[u8],
) -> (Vec<Out>, bool) {
    let chunks = split_outputs(params, input);
    let parsed: Vec<Option<Out>> = chunks
        .into_iter()
        .zip(numeric.iter())
        .map(|(chunk, is_num)| {
            let chunk = chunk?;
            if *is_num {
                std::str::from_utf8(&chunk).ok()?.parse::<f64>().ok().map(Out::Num)
            } else {
                Some(Out::Bytes(chunk))
            }
        })
        .collect();
    let (values, valid) = block.process(params, context, parsed);
    (values.to_vec(), valid)
}

fn initial(numeric: &[bool]) -> Vec<Out> {
    numeric.iter().map(|n| if *n { Out::Num(0.0) } else { Out::Bytes(Vec::new()) }).collect()
}

fn num(x: f64) -> Out {
    Out::Num(x)
}

fn bytes(b: &[u8]) -> Out {
    Out::Bytes(b.to_vec())
}

#[test]
fn test_bytes_split_block_data() {
    let mut context = StubContext::default();
    let params = SplitParameters::new(":", &["scalar:0", "scalar:3", "BytesArray:1"], 1000 * MS);
    let numeric = [true, true, false];
    let mut block = BytesSplitBlock::new(initial(&numeric));

    let output = split(&mut block, &params, &context, &numeric, br#"123:4.56:78.9:42.0"#);
    assert_eq!(output, (vec![num(123.0), num(42.0), bytes(b"4.56")], true));
    assert!(block.is_valid());

    context.time += context.fundamental_timestep;
    let output = split(&mut block, &params, &context, &numeric, br#"123:4.56:78.9"#);
    assert_eq!(output, (vec![num(123.0), num(42.0), bytes(b"4.56")], true));
    assert!(block.is_valid());

    context.time = 2000 * MS;
    let output = split(&mut block, &params, &context, &numeric, br#"123:4.56:78.9"#);
    assert_eq!(output, (vec![num(123.0), num(42.0), bytes(b"4.56")], false));
    assert!(!block.is_valid());

    context.time += context.fundamental_timestep;
    let output = split(&mut block, &params, &context, &numeric, br#"1.03:17:23.4:11.0"#);
    assert_eq!(output, (vec![num(1.03), num(11.0), bytes(b"17")], true));
    assert!(block.is_valid());
}

#[test]
fn test_wildcard_delim() {
    let context = StubContext::default();
    let params = SplitParameters::new(r"\xAA\x**\xAB", &["BytesArray:0", "BytesArray:2"], 1000 * MS);
    let numeric = [false, false];
    let mut block = BytesSplitBlock::new(initial(&numeric));
    let output = split(&mut block, &params, &context, &numeric, b"\x00\xAA\xAA\xAB\x01\xAA\xFF\xAB\x02");
    assert_eq!(output, (vec![bytes(b"\x00"), bytes(b"\x02")], true));
    assert!(block.is_valid());
}

#[test]
fn test_1_output() {
    let context = StubContext::default();
    let params = SplitParameters::new(":", &["scalar:3"], 1000 * MS);
    let numeric = [true];
    let mut block = BytesSplitBlock::new(initial(&numeric));
    let output = split(&mut block, &params, &context, &numeric, b"123:4.56:78.9:42.0");
    assert_eq!(output, (vec![num(42.0)], true));
    assert!(block.is_valid());
}

#[test]
fn test_2_outputs() {
    let context = StubContext::default();
    let params = SplitParameters::new(":", &["scalar:0", "BytesArray:3"], 1000 * MS);
    let numeric = [true, false];
    let mut block = BytesSplitBlock::new(initial(&numeric));
    let output = split(&mut block, &params, &context, &numeric, b"123:4.56:78.9:42.0");
    assert_eq!(output, (vec![num(123.0), bytes(b"42.0")], true));
    assert!(block.is_valid());
}

#[test]
fn test_3_outputs() {
    let context = StubContext::default();
    let params = SplitParameters::new(":", &["scalar:0", "scalar:3", "BytesArray:1"], 1000 * MS);
    let numeric = [true, true, false];
    let mut block = BytesSplitBlock::new(initial(&numeric));
    let output = split(&mut block, &params, &context, &numeric, b"123:4.56:78.9:42.0");
    assert_eq!(output, (vec![num(123.0), num(42.0), bytes(b"4.56")], true));
    assert!(block.is_valid());
}

#[test]
fn test_4_outputs() {
    let context = StubContext::default();
    let params = SplitParameters::new(":", &["scalar:0", "scalar:3", "scalar:1", "BytesArray:2"], 1000 * MS);
    let numeric = [true, true, true, false];
    let mut block = BytesSplitBlock::new(initial(&numeric));
    let output = split(&mut block, &params, &context, &numeric, b"123:4.56:78.9:42.0");
    assert_eq!(output, (vec![num(123.0), num(42.0), num(4.56), bytes(b"78.9")], true));
    assert!(block.is_valid());
}

#[test]
fn test_5_outputs() {
    let context = StubContext::default();
    let params = SplitParameters::new(
        ":",
        &["scalar:0", "scalar:3", "scalar:1", "scalar:2", "BytesArray:2"],
        1000 * MS,
    );
    let numeric = [true, true, true, true, false];
    let mut block = BytesSplitBlock::new(initial(&numeric));
    let output = split(&mut block, &params, &context, &numeric, b"123:4.56:78.9:42.0");
    assert_eq!(output, (vec![num(123.0), num(42.0), num(4.56), num(78.9), bytes(b"78.9")], true));
    assert!(block.is_valid());
}

#[test]
fn test_6_outputs() {
    let context = StubContext::default();
    let params = SplitParameters::new(
        ":",
        &["scalar:0", "scalar:3", "BytesArray:2", "scalar:1", "scalar:2", "scalar:1"],
        1000 * MS,
    );
    let numeric = [true, true, false, true, true, true];
    let mut block = BytesSplitBlock::new(initial(&numeric));
    let output = split(&mut block, &params, &context, &numeric, b"123:4.56:78.9:42.0");
    assert_eq!(
        output,
        (vec![num(123.0), num(42.0), bytes(b"78.9"), num(4.56), num(78.9), num(4.56)], true)
    );
    assert!(block.is_valid());
}

#[test]
fn test_7_outputs() {
    let context = StubContext::default();
    let params = SplitParameters::new(
        ":",
        &["scalar:0", "scalar:3", "BytesArray:2", "scalar:1", "scalar:2", "scalar:1", "BytesArray:2"],
        1000 * MS,
    );
    let numeric = [true, true, false, true, true, true, false];
    let mut block = BytesSplitBlock::new(initial(&numeric));
    let output = split(&mut block, &params, &context, &numeric, b"123:4.56:78.9:42.0");
    assert_eq!(
        output,
        (
            vec![num(123.0), num(42.0), bytes(b"78.9"), num(4.56), num(78.9), num(4.56), bytes(b"78.9")],
            true
        )
    );
    assert!(block.is_valid());
}

#[test]
fn split_outputs_missing_chunks_are_none() {
    let params = SplitParameters::new("::", &["scalar:0", "scalar:1", "scalar:2"], 1000 * MS);
    let chunks = split_outputs(&params, b"a::b");
    assert_eq!(chunks, vec![Some(b"a".to_vec()), Some(b"b".to_vec()), None]);
}

#[test]
fn test_bytes_join_block() {
    let context = StubContext::default();
    let params = JoinParameters::new("/ ");
    let mut block = BytesJoinBlock::default();
    let signal1 = b"1.0".to_vec();
    let signal2 = b"[[1.0,2.0,3.0],[4.0,5.0,6.0]]".to_vec();
    let signal3 = b"hello there".to_vec();
    let res = block.process(&params, &context, &[signal1, signal2, signal3]);
    let expected_string = "1.0/ [[1.0,2.0,3.0],[4.0,5.0,6.0]]/ hello there".to_string();
    assert_eq!(res, expected_string.as_bytes());
}

#[test]
fn test_bytes_join_block_non_ascii_input() {
    let context = StubContext::default();
    let params = JoinParameters::new("⚡");
    let mut block = BytesJoinBlock::default();
    let signal1 = "привет".as_bytes().to_vec();
    let signal2 = "こんにちは".as_bytes().to_vec();
    let res = block.process(&params, &context, &[signal1, signal2]);
    let expected_string = "привет⚡こんにちは".to_string();
    assert_eq!(res, expected_string.as_bytes());
}

#[test]
fn test_bytes_join_non_utf8_input() {
    let context = StubContext::default();
    let params = JoinParameters::new(r"\x99");
    let mut block = BytesJoinBlock::default();
    let signal1 = b"\x80\x81\x82\x83".to_vec();
    let signal2 = b"\x84\x85\x86\x87".to_vec();
    let res = block.process(&params, &context, &[signal1, signal2]);
    let expected = b"\x80\x81\x82\x83\x99\x84\x85\x86\x87";
    assert_eq!(res, expected);
}

#[test]
fn bytes_join_single_and_no_input() {
    let context = StubContext::default();
    let params = JoinParameters::new(",");
    let mut block = BytesJoinBlock::default();
    assert_eq!(block.process(&params, &context, &[b"only".to_vec()]), b"only");
    assert_eq!(block.process(&params, &context, &[]), b"");
}

#[test]
fn test_constant_block() {
    let mut block = BytesLiteralBlock::<11>::default();
    let mut value = [0u8; 11];
    value.copy_from_slice(String::from("Hello World").as_bytes());
    let parameters = LiteralParameters::new(value);
    let context = StubContext::new(0, None, 100 * MS);
    let output = block.generate(&parameters, &context);
    assert_eq!(output, "Hello World".as_bytes());
    assert_eq!(block.buffer, value);
}

#[test]
fn byte_data_field_specs_parse() {
    let params = PackParameters::new(&["U8:BigEndian", "I128:LittleEndian", "F64:BigEndian"]);
    assert_eq!(
        params.pack_spec,
        vec![
            (DataType::U8, ByteOrderSpec::BigEndian),
            (DataType::I128, ByteOrderSpec::LittleEndian),
            (DataType::F64, ByteOrderSpec::BigEndian)
        ]
    );
}

#[test]
fn split_block_parses_integers_itself() {
    let mut context = StubContext::default();
    let params = SplitParameters::new(",", &["scalar:2", "scalar:0"], 500 * MS);
    let mut block = BytesSplitBlock::<i16>::new(vec![0, 0]);
    let (values, valid) = block.process_input(&params, &context, b"-12,x,+345");
    assert_eq!((values.to_vec(), valid), (vec![345, -12], true));
    context.time += 100 * MS;
    let (values, valid) = block.process_input(&params, &context, b"1,2,99999");
    assert_eq!((values.to_vec(), valid), (vec![345, -12], true));
    context.time += 500 * MS;
    let (values, valid) = block.process_input(&params, &context, b"1,2");
    assert_eq!((values.to_vec(), valid), (vec![345, -12], false));
    let (values, valid) = block.process_input(&params, &context, b"7,2,8");
    assert_eq!((values.to_vec(), valid), (vec![8, 7], true));
}

#[test]
fn from_bytes_follows_integer_text_rules() {
    assert_eq!(i8::from_bytes(b"-128"), Some(-128));
    assert_eq!(i8::from_bytes(b"128"), None);
    assert_eq!(u8::from_bytes(b"+255"), Some(255));
    assert_eq!(u8::from_bytes(b"-0"), None);
    assert_eq!(u32::from_bytes(b"4294967295"), Some(u32::MAX));
    assert_eq!(i32::from_bytes(b"-2147483648"), Some(i32::MIN));
    assert_eq!(i32::from_bytes(b"99999999999999999999999"), None);
    assert_eq!(u16::from_bytes(b""), None);
    assert_eq!(i16::from_bytes(b"-"), None);
    assert_eq!(i16::from_bytes(b" 1"), None);
    assert_eq!(bool::from_bytes(b"true"), Some(true));
    assert_eq!(bool::from_bytes(b"false"), Some(false));
    assert_eq!(bool::from_bytes(b"1"), None);
    assert_eq!(Vec::<u8>::from_bytes(b"\xff\x00"), Some(vec![0xff, 0x00]));
    for text in ["0", "17", "-17", "+17", "32767", "-32768", "32768", "1e3", "0x10"] {
        assert_eq!(i16::from_bytes(text.as_bytes()), text.parse::<i16>().ok(), "{}", text);
        assert_eq!(u16::from_bytes(text.as_bytes()), text.parse::<u16>().ok(), "{}", text);
    }
}

#[test]
fn unpack_of_pack_gives_the_values_back() {
    let context = StubContext::default();
    let specs = ["U8:BigEndian", "I24:LittleEndian", "I64:BigEndian", "U128:LittleEndian", "I16:BigEndian"];
    let pack_parameters = PackParameters::new(&specs);
    let unpack_parameters = UnpackParameters::new(&specs, 0);
    let values = [
        FieldValue::Unsigned(200),
        FieldValue::Signed(-8_388_608),
        FieldValue::Signed(i64::MIN as i128),
        FieldValue::Unsigned(u128::MAX),
        FieldValue::Signed(-1),
    ];
    let mut pack_block = BytesPackBlock::default();
    let packed = pack_block.process(&pack_parameters, &context, &values).to_vec();
    assert_eq!(packed.len(), 1 + 3 + 8 + 16 + 2);
    let mut unpack_block = BytesUnpackBlock::default();
    let (unpacked, valid) = unpack_block.process(&unpack_parameters, &context, &packed);
    assert_eq!(unpacked, &values);
    assert!(valid);
}

#[test]
fn validity_follows_the_stale_age() {
    let mut context = StubContext::default();
    let params = SplitParameters::new(",", &["scalar:1"], 300 * MS);
    let mut block = BytesSplitBlock::<u8>::new(vec![0]);
    assert!(!block.is_valid());
    let (_, valid) = block.process_input(&params, &context, b"a,5");
    assert!(valid);
    for step in 1..=5u128 {
        context.time = step * 100 * MS;
        let (values, valid) = block.process_input(&params, &context, b"no second chunk");
        assert_eq!(values, &[5]);
        assert_eq!(valid, step * 100 <= 300, "at {} ms", step * 100);
    }
}

#[test]
fn field_fits_value_checks_the_type_range() {
    assert!(DataType::U8.fits_value(FieldValue::Unsigned(255)));
    assert!(!DataType::U8.fits_value(FieldValue::Unsigned(256)));
    assert!(!DataType::U8.fits_value(FieldValue::Signed(-1)));
    assert!(DataType::I8.fits_value(FieldValue::Signed(-128)));
    assert!(!DataType::I8.fits_value(FieldValue::Unsigned(128)));
    assert!(DataType::U24.fits_value(FieldValue::Unsigned(0xFF_FFFF)));
    assert!(!DataType::U24.fits_value(FieldValue::Unsigned(0x100_0000)));
    assert!(!DataType::I24.fits_value(FieldValue::Signed(-0x80_0001)));
    assert!(DataType::I128.fits_value(FieldValue::Signed(i128::MIN)));
    assert!(!DataType::I128.fits_value(FieldValue::Unsigned(u128::MAX)));
    assert!(DataType::U128.fits_value(FieldValue::Unsigned(u128::MAX)));
    assert!(DataType::F32.fits_value(FieldValue::Unsigned(1.5f32.to_bits() as u128)));
}
