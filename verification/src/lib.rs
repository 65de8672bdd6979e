//! Verified core of the Pictorus block library: the signal data model
//! (scalars, fixed-size matrices, runtime-sized matrices), the execution
//! context, and the blocks whose logic works on integers, booleans and bytes.

mod sealed;
pub mod scalar;
pub mod matrix;
pub mod context;
pub mod text;
pub mod escapes;
pub mod byte_data;
pub mod validity;
pub mod bytes_pack_block;
pub mod bytes_unpack_block;
pub mod bytes_split_block;
pub mod bytes_join_block;
pub mod delay_control_block;
pub mod comparison_block;
pub mod compare_to_value_block;
pub mod counter_block;
pub mod change_detection_block;
pub mod bitwise_operator_block;
pub mod bit_shift_block;
pub mod clamp_block;
pub mod abs_block;
pub mod arg_min_max_block;
pub mod gpio_output_block;
pub mod dot_product_block;
pub mod constant_block;
pub mod i2c_input_block;
pub mod i2c_output_block;
pub mod bytes_literal_block;
pub mod dmatrix;
pub mod aggregate_block;
pub mod frequency_filter_block;
pub mod integral_block;
pub mod counter_app;
pub mod cras_app;
pub mod json_dump_block;
pub mod derivative_block;
