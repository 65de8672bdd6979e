use pictorus_core_blocks::counter_app;
use pictorus_core_blocks::cras_app;
use pictorus_core_blocks::dmatrix::DMatrix;
use pictorus_core_blocks::json_dump_block::{json_layout, signal_encoding, EncodingType, JsonLayout, Parameters};
use pictorus_core_blocks::matrix::Matrix;
use std::str::FromStr;

#[test]
fn test_parsing_output_spec() {
    let specs = vec!["Default:value".to_owned(), "Utf8:text".to_owned()];
    let params = Parameters::new(&specs);
    assert_eq!(params.encoding_spec.len(), 2);
    assert_eq!(params.encoding_spec[0].0, EncodingType::Default);
    assert_eq!(params.encoding_spec[0].1, "value");
    assert_eq!(params.encoding_spec[1].0, EncodingType::Utf8);
    assert_eq!(params.encoding_spec[1].1, "text");
}

#[test]
fn output_spec_key_keeps_later_colons_and_unicode() {
    let specs = vec!["Utf8:a:b".to_owned(), "Default:ключ".to_owned(), "Default:".to_owned()];
    let params = Parameters::new(&specs);
    assert_eq!(params.encoding_spec[0], (EncodingType::Utf8, "a:b".to_owned()));
    assert_eq!(params.encoding_spec[1], (EncodingType::Default, "ключ".to_owned()));
    assert_eq!(params.encoding_spec[2], (EncodingType::Default, String::new()));
    assert!(EncodingType::from_str("Base64").is_err());
}

#[test]
fn json_layout_follows_spec() {
    let none = Parameters::new(&[]);
    assert_eq!(json_layout(&none, 1), JsonLayout::Bare);
    assert_eq!(json_layout(&none, 3), JsonLayout::Array);
    assert_eq!(signal_encoding(&none, 2), EncodingType::Default);
    let named = Parameters::new(&["Default:foo".to_owned(), "Utf8:bar".to_owned()]);
    assert_eq!(json_layout(&named, 2), JsonLayout::Object);
    assert_eq!(json_layout(&named, 1), JsonLayout::Object);
    assert_eq!(signal_encoding(&named, 1), EncodingType::Utf8);
}

#[test]
fn dmatrix_keeps_shape_and_data() {
    let data: Box<[i32]> = vec![1, 2, 3, 4, 5, 6].into_boxed_slice();
    let mut m = DMatrix::new(data, (2, 3));
    assert_eq!(m.shape(), (2, 3));
    assert_eq!(m.nrows(), 2);
    assert_eq!(m.ncols(), 3);
    assert_eq!(m.data(), &[1, 2, 3, 4, 5, 6]);
    m.data_mut()[4] = 50;
    let (data, shape) = m.into_parts();
    assert_eq!(&*data, &[1, 2, 3, 4, 50, 6]);
    assert_eq!(shape, (2, 3));
}

#[test]
fn matrix_accessors_are_column_major() {
    let mut m = Matrix { data: [[1u8, 2], [3, 4], [5, 6]] };
    assert_eq!(m.get(1, 0), 2);
    assert_eq!(m.get(0, 2), 5);
    assert_eq!(m.get_linear(3), 4);
    m.set(1, 2, 60);
    assert_eq!(m.data, [[1, 2], [3, 4], [5, 60]]);
    assert_eq!(Matrix::<2, 2, i8>::default().data, [[0, 0], [0, 0]]);
    assert_eq!(Matrix::<1, 3, bool>::filled(true).data, [[true], [true], [true]]);
}

#[test]
fn generated_apps_expose_build_info() {
    assert_eq!(counter_app::compile_info(), "counter_68059cc7b7d81834df67e279 version : compiled 04/21/2025 - 05:49:08");
    assert_eq!(cras_app::compile_info(), "cras_h_67e3ea9a6a4093c50166013a version : compiled 04/03/2025 - 05:15:56");
    let mut io = cras_app::IoManager::new().unwrap();
    io.flush_inputs();
    let mut io = counter_app::IoManager {};
    io.flush_inputs();
    assert_eq!(counter_app::State::Main7e27aState, counter_app::State::Main7e27aState);
    assert_eq!(cras_app::State::Main6013bState, cras_app::State::Main6013bState);
}

#[test]
fn linear_index_of_3x5_matrix() {
    let mut m = Matrix::<3, 5, u8>::zeroed();
    for c in 0..5 {
        for r in 0..3 {
            m.set(r, c, (c * 3 + r) as u8);
        }
    }
    for k in 0..15 {
        assert_eq!(m.get_linear(k), k as u8);
    }
    assert_eq!(m.get(2, 3), 11);
    assert_eq!(m.get(0, 4), 12);
}
