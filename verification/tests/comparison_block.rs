use pictorus_core_blocks::comparison_block::{ComparisonBlock, ComparisonType, Parameters};
use pictorus_core_blocks::compare_to_value_block::{CompareToValueBlock, Parameter};
use pictorus_core_blocks::context::StubContext;
use pictorus_core_blocks::matrix::Matrix;

#[test]
fn test_comparison_type() {
    assert_eq!(ComparisonType::new("Equal"), ComparisonType::Equal);
    assert_eq!(ComparisonType::new("NotEqual"), ComparisonType::NotEqual);
    assert_eq!(ComparisonType::new("GreaterThan"), ComparisonType::GreaterThan);
    assert_eq!(ComparisonType::new("GreaterOrEqual"), ComparisonType::GreaterOrEqual);
    assert_eq!(ComparisonType::new("LessThan"), ComparisonType::LessThan);
    assert_eq!(ComparisonType::new("LessOrEqual"), ComparisonType::LessOrEqual);
}

#[test]
fn comparison_type_rejects_unknown_names() {
    assert_eq!(ComparisonType::parse("Bigger"), None);
    assert!("equal".parse::<ComparisonType>().is_err());
    assert_eq!("LessThan".parse::<ComparisonType>(), Ok(ComparisonType::LessThan));
}

#[test]
fn comparison_block_scalars_i32() {
    let mut block = ComparisonBlock::<i32>::default();
    let context = StubContext::default();
    let input_ne = (2i32, 1i32);
    let input_eq = (1i32, 1i32);
    let cases = [
        ("Equal", 0, 1),
        ("NotEqual", 1, 0),
        ("GreaterThan", 1, 0),
        ("GreaterOrEqual", 1, 1),
        ("LessThan", 0, 0),
        ("LessOrEqual", 0, 1),
    ];
    for (name, ne, eq) in cases {
        let parameters = Parameters::new(name);
        assert_eq!(block.process(&parameters, &context, input_ne), ne);
        assert_eq!(block.buffer, Some(ne));
        assert_eq!(block.process(&parameters, &context, input_eq), eq);
        assert_eq!(block.buffer, Some(eq));
    }
}

#[test]
fn comparison_block_matrices_u8() {
    let mut block = ComparisonBlock::<u8>::default();
    let context = StubContext::default();
    let m1 = Matrix { data: [[1u8, 0], [0, 1]] };
    let m2 = Matrix { data: [[1u8, 1], [1, 1]] };
    let cases: [(&str, [[u8; 2]; 2]); 6] = [
        ("Equal", [[1, 0], [0, 1]]),
        ("NotEqual", [[0, 1], [1, 0]]),
        ("GreaterThan", [[0, 0], [0, 0]]),
        ("GreaterOrEqual", [[1, 0], [0, 1]]),
        ("LessThan", [[0, 1], [1, 0]]),
        ("LessOrEqual", [[1, 1], [1, 1]]),
    ];
    for (name, expected) in cases {
        let parameters = Parameters::new(name);
        let output = block.process_matrix(&parameters, &context, (&m1, &m2));
        assert_eq!(output.data, expected);
    }
}

#[test]
fn comparison_block_signed_negative_values() {
    let mut block = ComparisonBlock::<i8>::default();
    let context = StubContext::default();
    let parameters = Parameters::new("LessThan");
    assert_eq!(block.process(&parameters, &context, (-128i8, 127i8)), 1);
    assert_eq!(block.process(&parameters, &context, (127i8, -128i8)), 0);
}

#[test]
fn compare_to_value_scalar_and_matrix() {
    let mut block = CompareToValueBlock::<i16>::default();
    let context = StubContext::default();
    let parameter = Parameter::new("GreaterThan", 5i16);
    assert_eq!(block.process(&parameter, &context, 6), 1);
    assert_eq!(block.process(&parameter, &context, 5), 0);
    let m = Matrix { data: [[4i16, 5], [6, 7]] };
    let out = block.process_matrix(&parameter, &context, &m);
    assert_eq!(out.data, [[0, 0], [1, 1]]);
    let parameter = Parameter::new("Equal", 5i16);
    let out = block.process_matrix(&parameter, &context, &m);
    assert_eq!(out.data, [[0, 1], [0, 0]]);
}
