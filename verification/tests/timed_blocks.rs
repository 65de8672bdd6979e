use pictorus_core_blocks::context::{Context, StubContext, StubRuntime};
use pictorus_core_blocks::delay_control_block::{
    DelayControlBlock, DelayControlMatrixBlock, DelayControlMethod, Parameters as DelayParameters,
};
use pictorus_core_blocks::i2c_input_block::{I2cInputBlock, Parameters as I2cInputParameters};
use pictorus_core_blocks::i2c_output_block::{I2cOutputBlock, Parameters as I2cOutputParameters};
use pictorus_core_blocks::matrix::Matrix;

const MS: u128 = 1_000_000;

#[test]
fn test_scalar_throttle() {
    let mut runtime = StubRuntime::default();
    let mut block = DelayControlBlock::<i32>::default();
    let parameters = DelayParameters::new(300 * MS, "Throttle");

    let output = block.process(&parameters, &runtime.context(), 0);
    assert!(!output);
    assert_eq!(block.buffer, Some(false));

    runtime.tick();
    let output = block.process(&parameters, &runtime.context(), 5);
    assert!(output);
    assert_eq!(block.buffer, Some(true));

    runtime.tick();
    let output = block.process(&parameters, &runtime.context(), 1);
    assert!(!output);
    assert_eq!(block.buffer, Some(false));

    runtime.tick();
    let output = block.process(&parameters, &runtime.context(), 15);
    assert!(!output);
    assert_eq!(block.buffer, Some(false));

    runtime.tick();
    let output = block.process(&parameters, &runtime.context(), 2);
    assert!(output);
    assert_eq!(block.buffer, Some(true));

    runtime.tick();
    let output = block.process(&parameters, &runtime.context(), 25);
    assert!(!output);
    assert_eq!(block.buffer, Some(false));
}

#[test]
fn test_scalar_debounce() {
    let mut runtime = StubRuntime::default();
    let mut block = DelayControlBlock::<i32>::default();
    let parameters = DelayParameters::new(300 * MS, "Debounce");

    let output = block.process(&parameters, &runtime.context(), 0);
    assert!(!output);
    assert_eq!(block.buffer, Some(false));

    runtime.tick();
    let output = block.process(&parameters, &runtime.context(), -2);
    assert!(!output);
    assert_eq!(block.buffer, Some(false));

    runtime.tick();
    let output = block.process(&parameters, &runtime.context(), 0);
    assert!(!output);
    assert_eq!(block.buffer, Some(false));

    runtime.tick();
    let output = block.process(&parameters, &runtime.context(), 0);
    assert!(!output);
    assert_eq!(block.buffer, Some(false));

    runtime.tick();
    let output = block.process(&parameters, &runtime.context(), 0);
    assert!(output);
    assert_eq!(block.buffer, Some(true));

    runtime.tick();
    let output = block.process(&parameters, &runtime.context(), 0);
    assert!(!output);
    assert_eq!(block.buffer, Some(false));

    runtime.tick();
    let output = block.process(&parameters, &runtime.context(), 0);
    assert!(!output);
    assert_eq!(block.buffer, Some(false));

    runtime.tick();
    let output = block.process(&parameters, &runtime.context(), 1);
    assert!(!output);
    assert_eq!(block.buffer, Some(false));

    runtime.tick();
    let output = block.process(&parameters, &runtime.context(), 0);
    assert!(!output);
    assert_eq!(block.buffer, Some(false));

    runtime.context.time += 300 * MS;
    let output = block.process(&parameters, &runtime.context(), 0);
    assert!(output);
    assert_eq!(block.buffer, Some(true));

    runtime.tick();
    let output = block.process(&parameters, &runtime.context(), 0);
    assert!(!output);
    assert_eq!(block.buffer, Some(false));
}

#[test]
fn delay_control_method_names() {
    assert_eq!(DelayControlMethod::parse("Debounce"), Some(DelayControlMethod::Debounce));
    assert_eq!("Throttle".parse::<DelayControlMethod>(), Ok(DelayControlMethod::Throttle));
    assert_eq!(DelayControlMethod::parse("Delay"), None);
}

#[test]
fn delay_control_matrix_elements_are_independent() {
    let mut runtime = StubRuntime::default();
    let mut block = DelayControlMatrixBlock::<1, 2, u8>::new();
    let parameters = DelayParameters::new(150 * MS, "Throttle");
    let out = *block.process(&parameters, &runtime.context(), &Matrix { data: [[1], [0]] });
    assert_eq!(out.data, [[true], [false]]);
    runtime.tick();
    let out = *block.process(&parameters, &runtime.context(), &Matrix { data: [[1], [1]] });
    assert_eq!(out.data, [[false], [true]]);
    runtime.tick();
    let out = *block.process(&parameters, &runtime.context(), &Matrix { data: [[1], [1]] });
    assert_eq!(out.data, [[true], [false]]);
}

#[test]
fn throttle_fires_at_most_once_per_delay() {
    let mut runtime = StubRuntime::default();
    let mut block = DelayControlBlock::<u8>::default();
    let parameters = DelayParameters::new(250 * MS, "Throttle");
    let mut fired_at = Vec::new();
    for _ in 0..20 {
        if block.process(&parameters, &runtime.context(), 1) {
            fired_at.push(runtime.context().time());
        }
        runtime.tick();
    }
    assert_eq!(fired_at, vec![0, 300 * MS, 600 * MS, 900 * MS, 1200 * MS, 1500 * MS, 1800 * MS]);
}

#[test]
fn test_i2c_input_block() {
    let parameters = I2cInputParameters::new(0, 0, 10, 100 * MS);
    let mut runtime = StubRuntime::default();
    let mut block = I2cInputBlock::default();

    let input_data: &[u8] = &[1, 2, 3, 4, 5, 6, 7, 8, 9, 10];

    let output = block.process(&parameters, &runtime.context(), input_data);
    assert_eq!(output, input_data);
    assert!(block.is_valid(runtime.context().time()));

    runtime.set_time(1000 * MS);

    let output = block.process(&parameters, &runtime.context(), &[]);
    assert_eq!(output, input_data);
    assert!(!block.is_valid(runtime.context().time()));
}

#[test]
fn i2c_input_block_wrong_length_read_is_ignored() {
    let parameters = I2cInputParameters::new(0x40, 0x01, 2, 100 * MS);
    let context = StubContext::default();
    let mut block = I2cInputBlock::default();
    assert!(!block.is_valid(0));
    assert_eq!(block.process(&parameters, &context, &[1, 2, 3]), &[] as &[u8]);
    assert!(!block.is_valid(0));
    assert_eq!(block.process(&parameters, &context, &[7, 8]), &[7, 8]);
    assert!(block.is_valid(100 * MS));
    assert!(!block.is_valid(100 * MS + 1));
}

#[test]
fn test_i2c_output_block() {
    let mut block = I2cOutputBlock::default();
    let params = I2cOutputParameters::new(64, 1);
    let context = StubContext::default();

    let input_data: &[u8] = &[0x01, 0x02, 0x03];

    let output_signal = block.process(&params, &context, input_data);
    assert_eq!(output_signal, input_data);
    assert_eq!(block.buffer, input_data.to_vec());
    assert_eq!(params.address, 64);
    assert_eq!(params.command, 1);
}

#[test]
fn stub_runtime_ticks_and_sets_time() {
    let mut runtime = StubRuntime::default();
    assert_eq!(runtime.context().timestep(), None);
    assert_eq!(runtime.context().fundamental_timestep(), 100 * MS);
    runtime.tick();
    runtime.tick();
    assert_eq!(runtime.context().time(), 200 * MS);
    assert_eq!(runtime.context().timestep(), Some(100 * MS));
    runtime.set_time(5 * MS);
    assert_eq!(runtime.context().time(), 5 * MS);
    assert_eq!(runtime.context().timestep(), Some(100 * MS));
    let context = StubContext::new(7, Some(3), 11);
    assert_eq!((context.time(), context.timestep(), context.fundamental_timestep()), (7, Some(3), 11));
}

#[test]
fn sample_window_is_round_robin() {
    use_window();
}

fn use_window() {
    let mut w = pictorus_core_blocks::derivative_block::SampleWindow::<3>::new();
    assert_eq!(w.push(), (0, None));
    assert_eq!(w.push(), (1, None));
    assert_eq!(w.push(), (2, Some(0)));
    assert_eq!(w.push(), (0, Some(1)));
    assert_eq!(w.push(), (1, Some(2)));
    assert!(!w.warming_up);
    assert_eq!(w.index, 2);
}

#[test]
fn i2c_input_block_new_stale_age_forgets_last_read() {
    let mut block = I2cInputBlock::default();
    let context = StubContext::default();
    let short = I2cInputParameters::new(0, 0, 2, 100 * MS);
    assert_eq!(block.process(&short, &context, &[1, 2]), &[1, 2]);
    assert!(block.is_valid(50 * MS));
    let long = I2cInputParameters::new(0, 0, 2, 500 * MS);
    assert_eq!(block.process(&long, &context, &[9]), &[1, 2]);
    assert_eq!(block.last_update, None);
    assert!(!block.is_valid(50 * MS));
    assert_eq!(block.process(&long, &context, &[3, 4]), &[3, 4]);
    assert!(block.is_valid(400 * MS));
}

#[test]
fn delay_control_matrix_matches_one_scalar_block_per_element() {
    let parameters = DelayParameters::new(250 * MS, "Debounce");
    let mut runtime = StubRuntime::default();
    let mut matrix = DelayControlMatrixBlock::<1, 2, i32>::new();
    let mut first = DelayControlBlock::<i32>::default();
    let mut second = DelayControlBlock::<i32>::default();
    let inputs = [[1, 0], [0, 1], [0, 0], [0, 0], [1, 0], [0, 0], [0, 0], [0, 0], [0, 0]];
    for [a, b] in inputs {
        let out = *matrix.process(&parameters, &runtime.context(), &Matrix { data: [[a], [b]] });
        assert_eq!(out.data[0][0], first.process(&parameters, &runtime.context(), a));
        assert_eq!(out.data[1][0], second.process(&parameters, &runtime.context(), b));
        runtime.tick();
    }
}
