use pictorus_core_blocks::abs_block::{AbsBlock, Parameter as AbsParameter};
use pictorus_core_blocks::aggregate_block::AggregateMethod;
use pictorus_core_blocks::arg_min_max_block::{ArgMethod, ArgMinMaxBlock};
use pictorus_core_blocks::bit_shift_block::{BitShiftBlock, Parameters as ShiftParameters, ShiftDirection};
use pictorus_core_blocks::bitwise_operator_block::{BitwiseOperatorBlock, Operand, Operation};
use pictorus_core_blocks::change_detection_block::{
    ChangeDetectionBlock, ChangeMode, HasIc, MatrixChangeDetectionBlock, Parameters as ChangeParameters,
};
use pictorus_core_blocks::clamp_block::{ClampBlock, Parameters as ClampParameters};
use pictorus_core_blocks::constant_block::{ConstantBlock, Parameters as ConstantParameters};
use pictorus_core_blocks::context::StubContext;
use pictorus_core_blocks::counter_block::{CounterBlock, MatrixCounterBlock, Parameters as CounterParameters};
use pictorus_core_blocks::dot_product_block::{DotProductBlock, Parameters as DotParameters};
use pictorus_core_blocks::frequency_filter_block::FrequencyFilterEnum;
use pictorus_core_blocks::gpio_output_block::{GpioOutputBlock, Parameters as GpioParameters};
use pictorus_core_blocks::integral_block::IntgeralMethod;
use pictorus_core_blocks::matrix::Matrix;
use std::str::FromStr;

#[test]
fn test_counter_block_simple_f64() {
    let p = CounterParameters::new();
    let mut block = MatrixCounterBlock::<1, 1, i32>::default();
    let c = StubContext::default();

    let mut increment = Matrix::<1, 1, bool>::zeroed();
    increment.data[0][0] = true;
    let mut reset = Matrix::<1, 1, bool>::zeroed();
    reset.data[0][0] = false;

    let output = block.process(&p, &c, (&increment, &reset));
    assert!(output.data[0][0] == 1);

    let output = block.process(&p, &c, (&increment, &reset));
    assert!(output.data[0][0] == 2);

    reset.data[0][0] = true;
    let output = block.process(&p, &c, (&increment, &reset));
    assert!(output.data[0][0] == 0);
}

#[test]
fn test_counter_block_1x2_f64() {
    let p = CounterParameters::new();
    let mut block = MatrixCounterBlock::<1, 2, i32>::default();
    let c = StubContext::default();

    let mut increment = Matrix::<1, 2, bool>::zeroed();
    increment.data[0][0] = true;
    let mut reset = Matrix::<1, 2, bool>::zeroed();
    reset.data[0][0] = false;

    let output = block.process(&p, &c, (&increment, &reset));
    assert_eq!(output.data[0][0], 1);
    assert_eq!(output.data[1][0], 0);

    let output = block.process(&p, &c, (&increment, &reset));
    assert_eq!(output.data[0][0], 2);
    assert_eq!(output.data[1][0], 0);

    reset.data[0][0] = true;
    let output = block.process(&p, &c, (&increment, &reset));
    assert_eq!(output.data[0][0], 0);
    assert_eq!(output.data[1][0], 0);
}

/// Runs the 2x2 counter scenario with per-element resets.
fn counter_2x2_scenario<T>()
where
    T: pictorus_core_blocks::scalar::Scalar + PartialEq + std::fmt::Debug + From<u8>,
{
    let p = CounterParameters::new();
    let mut block = MatrixCounterBlock::<2, 2, T>::default();
    let c = StubContext::default();
    let n = |x: u8| T::from(x);

    let increment = Matrix::<2, 2, bool> { data: [[true, true], [true, true]] };
    let mut reset = Matrix::<2, 2, bool>::zeroed();

    let output = block.process(&p, &c, (&increment, &reset));
    assert_eq!(output.data, [[n(1), n(1)], [n(1), n(1)]]);

    let output = block.process(&p, &c, (&increment, &reset));
    assert_eq!(output.data, [[n(2), n(2)], [n(2), n(2)]]);

    reset.data[0][0] = true;
    let output = block.process(&p, &c, (&increment, &reset));
    assert_eq!(output.data[0][0], n(0));
    assert_eq!(output.data[1][0], n(3));
    assert_eq!(output.data[0][1], n(3));
    assert_eq!(output.data[1][1], n(3));

    reset.data[0][0] = false;
    reset.data[1][0] = true;
    let output = block.process(&p, &c, (&increment, &reset));
    assert_eq!(output.data[0][0], n(1));
    assert_eq!(output.data[1][0], n(0));
    assert_eq!(output.data[0][1], n(4));
    assert_eq!(output.data[1][1], n(4));

    reset.data[0][0] = false;
    reset.data[1][0] = false;
    reset.data[0][1] = true;
    let output = block.process(&p, &c, (&increment, &reset));
    assert_eq!(output.data[0][0], n(2));
    assert_eq!(output.data[1][0], n(1));
    assert_eq!(output.data[0][1], n(0));
    assert_eq!(output.data[1][1], n(5));
}

#[test]
fn test_counter_block_2x2_f64() {
    counter_2x2_scenario::<i32>();
}

#[test]
fn test_counter_block_2x2_u8() {
    counter_2x2_scenario::<u8>();
}

#[test]
fn test_counter_block_2x2_u16() {
    counter_2x2_scenario::<u16>();
}

#[test]
fn test_counter_block_2x2_u32() {
    counter_2x2_scenario::<u32>();
}

#[test]
fn test_counter_block_2x2_single_reset_f64() {
    let p = CounterParameters::new();
    let mut block = MatrixCounterBlock::<2, 2, i32>::default();
    let c = StubContext::default();

    let increment = Matrix::<2, 2, bool> { data: [[true, true], [true, true]] };
    let mut reset = false;

    let output = block.process_single_reset(&p, &c, (&increment, reset));
    assert_eq!(output.data, [[1, 1], [1, 1]]);

    let output = block.process_single_reset(&p, &c, (&increment, reset));
    assert_eq!(output.data, [[2, 2], [2, 2]]);

    reset = true;
    let output = block.process_single_reset(&p, &c, (&increment, reset));
    assert_eq!(output.data, [[0, 0], [0, 0]]);

    reset = false;
    let output = block.process_single_reset(&p, &c, (&increment, reset));
    assert_eq!(output.data, [[1, 1], [1, 1]]);

    let output = block.process_single_reset(&p, &c, (&increment, reset));
    assert_eq!(output.data, [[2, 2], [2, 2]]);
}

#[test]
fn counter_scalar_counts_increments_since_last_reset() {
    let p = CounterParameters::new();
    let mut block = CounterBlock::<u16>::default();
    let c = StubContext::default();
    let steps = [(true, false), (false, false), (true, false), (true, true), (true, false), (false, false)];
    let expected = [1u16, 1, 2, 0, 1, 1];
    for (step, e) in steps.iter().zip(expected.iter()) {
        assert_eq!(block.process(&p, &c, *step), *e);
    }
}

#[test]
fn change_detection_scalar_modes() {
    let context = StubContext::default();
    for (mode, expected) in [("Rising", [false, false, true]), ("Falling", [false, true, false]), ("Any", [false, true, true])] {
        let params = ChangeParameters::new(1i32, mode);
        let mut block = ChangeDetectionBlock::<i32>::default();
        let outputs = [
            block.process(&params, &context, 1),
            block.process(&params, &context, 0),
            block.process(&params, &context, 1),
        ];
        assert_eq!(outputs, expected, "{}", mode);
    }
}

#[test]
fn change_detection_from_initial_condition() {
    let context = StubContext::default();
    let params = ChangeParameters::new(5u8, "Any");
    let mut block = ChangeDetectionBlock::<u8>::new(&params);
    assert!(block.process(&params, &context, 6));
    assert!(!block.process(&params, &context, 6));
    assert_eq!(ChangeMode::parse("Sideways"), None);
}

#[test]
fn change_detection_matrix_falling() {
    let context = StubContext::default();
    let params = ChangeParameters::new(Matrix { data: [[42i16; 8]; 11] }, "Falling");
    let mut block = MatrixChangeDetectionBlock::<8, 11, i16>::default();

    let output = block.process(&params, &context, &Matrix { data: [[42; 8]; 11] });
    assert_eq!(output.data, [[false; 8]; 11]);

    let output = block.process(&params, &context, &Matrix { data: [[1; 8]; 11] });
    assert_eq!(output.data, [[true; 8]; 11]);

    let mut input = Matrix { data: [[11i16; 8]; 11] };
    let output = block.process(&params, &context, &input);
    assert_eq!(output.data, [[false; 8]; 11]);

    input.data[3][5] = 4;
    let mut expected = [[false; 8]; 11];
    expected[3][5] = true;
    let output = block.process(&params, &context, &input);
    assert_eq!(output.data, expected);
}

#[test]
fn test_scalar_input() {
    let mut block = ArgMinMaxBlock::<i32>::default();
    let context = StubContext::default();
    let output = block.process(&ArgMethod::Min, &context, 1);
    assert_eq!(output, 0);
    assert_eq!(block.buffer, Some(0));
}

#[test]
fn arg_min_max_block_test_matrix() {
    let context = StubContext::default();
    let mut block = ArgMinMaxBlock::<i32>::default();
    let input = Matrix { data: [[11, 12], [13, 4], [15, 16]] };
    let output = block.process_matrix(&ArgMethod::Min, &context, &input);
    assert_eq!(output, 3);
    assert_eq!(block.buffer, Some(3));

    let input = Matrix { data: [[1, 12], [3, 4], [5, 6]] };
    let output = block.process_matrix(&ArgMethod::Max, &context, &input);
    assert_eq!(output, 1);
    assert_eq!(block.buffer, Some(1));
}

#[test]
fn arg_min_max_ties_first_min_last_max() {
    let context = StubContext::default();
    let mut block = ArgMinMaxBlock::<u8>::default();
    let input = Matrix { data: [[2u8, 1], [1, 2]] };
    assert_eq!(block.process_matrix(&ArgMethod::new("Min"), &context, &input), 1);
    assert_eq!(block.process_matrix(&ArgMethod::new("Max"), &context, &input), 3);
    assert!(ArgMethod::from_str("Median").is_err());
}

#[test]
fn test_aggregate_method_from_str() {
    assert_eq!(AggregateMethod::from_str("Sum").unwrap(), AggregateMethod::Sum);
    assert_eq!(AggregateMethod::from_str("Mean").unwrap(), AggregateMethod::Mean);
    assert_eq!(AggregateMethod::from_str("Median").unwrap(), AggregateMethod::Median);
    assert_eq!(AggregateMethod::from_str("Min").unwrap(), AggregateMethod::Min);
    assert_eq!(AggregateMethod::from_str("Max").unwrap(), AggregateMethod::Max);
    assert!(AggregateMethod::from_str("Invalid").is_err());
}

#[test]
fn method_enums_parse_their_names() {
    assert_eq!(AggregateMethod::new("Median"), AggregateMethod::Median);
    assert_eq!(FrequencyFilterEnum::parse("HighPass"), Some(FrequencyFilterEnum::HighPass));
    assert_eq!(FrequencyFilterEnum::parse("LowPass"), Some(FrequencyFilterEnum::LowPass));
    assert!(FrequencyFilterEnum::from_str("BandPass").is_err());
    assert_eq!(IntgeralMethod::parse("Rectangle"), Some(IntgeralMethod::Rectangle));
    assert_eq!(IntgeralMethod::parse("Trapezoidal"), Some(IntgeralMethod::Trapezoidal));
    assert!(IntgeralMethod::from_str("Simpson").is_err());
    assert_eq!(ShiftDirection::parse("Left"), Some(ShiftDirection::Left));
    assert!(ShiftDirection::from_str("Up").is_err());
}

#[test]
fn test_constant_scalar() {
    let mut block = ConstantBlock::<f64>::default();
    let parameters = ConstantParameters::new(3.0);
    let context = StubContext::default();
    let output = block.generate(&parameters, &context);
    assert_eq!(output, 3.0);
    assert_eq!(block.buffer, Some(3.0));
}

#[test]
fn test_constant_vector() {
    let mut block = ConstantBlock::<Matrix<1, 2, i32>>::default();
    let parameters = ConstantParameters::new(Matrix { data: [[1], [2]] });
    let context = StubContext::default();
    let output = block.generate(&parameters, &context);
    assert_eq!(output.data[0][0], 1);
    assert_eq!(output.data[1][0], 2);
}

#[test]
fn test_constant_matrix() {
    let mut block = ConstantBlock::<Matrix<2, 2, i32>>::default();
    let parameters = ConstantParameters::new(Matrix { data: [[1, 2], [3, 4]] });
    let context = StubContext::default();
    let output = block.generate(&parameters, &context);
    assert_eq!(output.data[0][0], 1);
    assert_eq!(output.data[1][0], 3);
    assert_eq!(output.data[0][1], 2);
    assert_eq!(output.data[1][1], 4);
}

#[test]
fn test_gpio_output_block_scalar() {
    let mut block = GpioOutputBlock::default();
    let context = StubContext::default();
    let output = block.process(&GpioParameters::new(), &context, &1i32);
    assert!(output);
    let output = block.process(&GpioParameters::new(), &context, &0i32);
    assert!(!output);
}

#[test]
fn test_gpio_output_block_matrix() {
    let mut block = GpioOutputBlock::default();
    let context = StubContext::default();
    let input = Matrix { data: [[0i32, 0], [0, 1]] };
    let output = block.process(&GpioParameters::new(), &context, &input);
    assert!(output);
    let input = Matrix { data: [[0i32, 0], [0, 0]] };
    let output = block.process(&GpioParameters::new(), &context, &input);
    assert!(!output);
}

#[test]
fn test_gpio_output_block_bytes() {
    let mut block = GpioOutputBlock::default();
    let context = StubContext::default();
    let params = GpioParameters::new();
    let output = block.process_bytes(&params, &context, b"hello world");
    assert!(output);
    let output = block.process_bytes(&params, &context, b"");
    assert!(!output);
    assert!(block.process(&params, &context, &b"x".to_vec()));
    assert!(block.level);
}

#[test]
fn test_dot_product_block() {
    let mut block = DotProductBlock::<i32>::default();
    let context = StubContext::default();
    let parameters = DotParameters::new();
    let input = (&Matrix::<2, 1, i32>::filled(2), &Matrix::<2, 1, i32>::filled(6));
    let output = block.process(&parameters, &context, input);
    assert_eq!(output, 24);

    let mut block = DotProductBlock::<u16>::default();
    let input = (&Matrix { data: [[3u16], [4]] }, &Matrix { data: [[6u16], [2]] });
    let output = block.process(&parameters, &context, input);
    assert_eq!(output, 26);
}

#[test]
fn dot_product_with_negative_products() {
    let mut block = DotProductBlock::<i8>::default();
    let context = StubContext::default();
    let a = Matrix { data: [[100i8, 100], [-100, 7]] };
    let b = Matrix { data: [[1i8, 1], [1, -1]] };
    assert_eq!(block.process(&DotParameters::new(), &context, (&a, &b)), 93);
}

#[test]
fn clamp_block_scalar_and_matrix() {
    let context = StubContext::default();
    let mut block = ClampBlock::<i16>::default();
    let parameters = ClampParameters::new(-1i16, 1);
    assert_eq!(block.process(&parameters, &context, -2), -1);
    assert_eq!(block.process(&parameters, &context, 2), 1);
    assert_eq!(block.process(&parameters, &context, 0), 0);
    let m = Matrix { data: [[-5i16, 5], [1, -1]] };
    assert_eq!(block.process_matrix(&parameters, &context, &m).data, [[-1, 1], [1, -1]]);
    let parameters = ClampParameters::new(3u8, 3);
    let mut block = ClampBlock::<u8>::default();
    assert_eq!(block.process(&parameters, &context, 200), 3);
}

#[test]
fn abs_block_scalar_and_matrix() {
    let context = StubContext::default();
    let mut block = AbsBlock::<i8>::default();
    assert_eq!(block.process(&AbsParameter::new(), &context, 1), 1);
    assert_eq!(block.process(&AbsParameter::new(), &context, -1), 1);
    assert_eq!(block.process(&AbsParameter::new(), &context, -127), 127);
    let mut input = Matrix::<2, 2, i32>::zeroed();
    input.data[0][0] = 1;
    input.data[0][1] = -1;
    input.data[1][0] = 1;
    input.data[1][1] = -1;
    let mut block = AbsBlock::<i32>::default();
    let output = block.process_matrix(&AbsParameter::default(), &context, &input);
    assert_eq!(output.data, [[1, 1], [1, 1]]);
}

#[test]
fn bit_shift_scalars_and_matrices() {
    let context = StubContext::default();
    let mut block = BitShiftBlock::<i8>::default();
    assert_eq!(block.process(&ShiftParameters::new("Left", 2), &context, 1), 4);
    assert_eq!(block.process(&ShiftParameters::new("Right", 2), &context, 8), 2);
    assert_eq!(block.process(&ShiftParameters::new("Right", 2), &context, 2), 0);
    assert_eq!(block.process(&ShiftParameters::new("Right", 1), &context, -8), -4);
    assert_eq!(block.process(&ShiftParameters::new("Left", 1), &context, 100), -56);
    let mut block = BitShiftBlock::<i32>::default();
    let input = Matrix { data: [[1i32, 2], [3, 4]] };
    let output = block.process_matrix(&ShiftParameters::new("Left", 2), &context, &input);
    assert_eq!(output.data, [[4, 8], [12, 16]]);
    let output = block.process_matrix(&ShiftParameters::new("Right", 2), &context, &output);
    assert_eq!(output.data, [[1, 2], [3, 4]]);
}

#[test]
fn bitwise_operator_scalars() {
    let context = StubContext::default();
    let mut block = BitwiseOperatorBlock::<u8>::default();
    assert_eq!(block.process(&Operation::new("And"), &context, &[12, 10]), 8);
    assert_eq!(block.process(&Operation::new("Or"), &context, &[8, 1]), 9);
    assert_eq!(block.process(&Operation::new("Xor"), &context, &[5, 5]), 0);
    assert_eq!(block.process(&Operation::new("Or"), &context, &[1, 2, 4, 8, 16, 32, 64, 128]), 255);
    let mut block = BitwiseOperatorBlock::<i16>::default();
    assert_eq!(block.process(&Operation::new("And"), &context, &[-1, 0x0F0F, 0x00FF]), 0x000F);
}

#[test]
fn bitwise_operator_mixed_scalar_and_matrix() {
    let context = StubContext::default();
    let mut block = BitwiseOperatorBlock::<u16>::default();
    let m = Matrix { data: [[1u16, 2], [3, 4]] };
    let out = block.process_matrix(&Operation::new("And"), &context, &[Operand::Matrix(m), Operand::Scalar(1)]);
    assert_eq!(out.data, [[1, 0], [1, 0]]);
    let out = block.process_matrix(&Operation::new("Or"), &context, &[Operand::Scalar(8), Operand::Matrix(m)]);
    assert_eq!(out.data, [[9, 10], [11, 12]]);
    let m2 = Matrix { data: [[1u16, 1], [1, 1]] };
    let out = block.process_matrix(&Operation::new("Xor"), &context, &[Operand::Matrix(m), Operand::Matrix(m2)]);
    assert_eq!(out.data, [[0, 3], [2, 5]]);
}
