//! The bias layer's forward pass, backward pass and update rules.

use neural_core::bias::{AdamConfig, BiasLayer, MomentumConfig};
use neural_core::error::Error;
use neural_core::layer::Layer;
use neural_core::shape::Shape;
use neural_core::storage::Storage;
use neural_core::tensor::Tensor;

fn layer_from(values: Vec<i64>, dims: [usize; 4]) -> BiasLayer<64> {
    let count = values.len();
    let storage = Storage::<i64, 64>::adopt_owned(count, values).unwrap();
    BiasLayer::take(Shape::<4>::new(dims), storage).unwrap()
}

fn tensor4_from(values: Vec<i64>, dims: [usize; 4]) -> Tensor<i64, 4, 64> {
    let count = values.len();
    let storage = Storage::<i64, 64>::adopt_owned(count, values).unwrap();
    Tensor::take(Shape::<4>::new(dims), storage).unwrap()
}

fn tensor5_from(values: Vec<i64>, dims: [usize; 5]) -> Tensor<i64, 5, 64> {
    let count = values.len();
    let storage = Storage::<i64, 64>::adopt_owned(count, values).unwrap();
    Tensor::take(Shape::<5>::new(dims), storage).unwrap()
}

#[test]
fn new_layer_is_zero_initialized() {
    let layer = BiasLayer::<64>::new(Shape::<4>::new([1, 2, 2, 2]));
    assert_eq!(layer.nodes().element_count(), 8);
    for k in 0..8 {
        assert_eq!(layer.nodes().get_linear(k), 0);
    }
}

#[test]
fn layer_take_rejects_mismatched_storage() {
    let storage = Storage::<i64, 64>::fresh_owned(5, 0);
    let r = BiasLayer::<64>::take(Shape::<4>::new([1, 2, 2, 2]), storage);
    assert_eq!(r.err(), Some(Error::ShapeStorageMismatch));
}

#[test]
fn layer_take_adopts_elements_unchanged() {
    let layer = layer_from(vec![1, 2, 3, 4, 5, 6, 7, 8], [1, 2, 2, 2]);
    for k in 0..8 {
        assert_eq!(layer.nodes().get_linear(k), (k as i64) + 1);
    }
}

#[test]
fn inference_adds_bias_single_batch() {
    let layer = layer_from(vec![1, 2, 3, 4, 5, 6, 7, 8], [1, 2, 2, 2]);
    let input = tensor4_from(vec![10, 20, 30, 40, 50, 60, 70, 80], [1, 2, 2, 2]);
    let mut output = Tensor::<i64, 4, 64>::new(Shape::<4>::new([1, 2, 2, 2]), 0);
    layer.inference(&input, &mut output);
    let expected = [11i64, 22, 33, 44, 55, 66, 77, 88];
    for k in 0..8 {
        assert_eq!(output.get_linear(k), expected[k]);
    }
    assert_eq!(output.get(&[0, 1, 0, 1]), 66);
}

#[test]
fn inference_broadcasts_bias_across_batches() {
    let layer = layer_from(vec![1, 2, 3, 4], [1, 1, 2, 2]);
    let input = tensor4_from(vec![10, 20, 30, 40, 100, 200, 300, 400], [2, 1, 2, 2]);
    let mut output = Tensor::<i64, 4, 64>::new(Shape::<4>::new([2, 1, 2, 2]), 0);
    layer.inference(&input, &mut output);
    let expected = [11i64, 22, 33, 44, 101, 202, 303, 404];
    for k in 0..8 {
        assert_eq!(output.get_linear(k), expected[k]);
    }
    for h in 0..2 {
        for w in 0..2 {
            assert_eq!(
                output.get(&[1, 0, h, w]),
                input.get(&[1, 0, h, w]) + layer.nodes().get(&[0, 0, h, w])
            );
        }
    }
}

#[test]
fn backprop_passes_delta_through_and_accumulates_grad() {
    let layer = BiasLayer::<64>::new(Shape::<4>::new([1, 1, 2, 2]));
    let dummy_out = Tensor::<i64, 4, 64>::new(Shape::<4>::new([1, 1, 1, 1]), 0);
    let mut dummy_in = Tensor::<i64, 4, 64>::new(Shape::<4>::new([1, 1, 1, 1]), 0);
    // two batches of four entries each
    let od = tensor5_from(vec![1, 2, 3, 4, 10, 20, 30, 40], [2, 1, 2, 2, 1]);
    let mut id = Tensor::<i64, 5, 64>::new(Shape::<5>::new([2, 1, 2, 2, 1]), 0);
    let mut grad = tensor4_from(vec![100, 100, 100, 100], [1, 1, 2, 2]);
    layer.backprop(&dummy_out, &mut dummy_in, &od, &mut id, &mut grad);
    for k in 0..8 {
        assert_eq!(id.get_linear(k), od.get_linear(k));
    }
    let expected = [111i64, 122, 133, 144];
    for j in 0..4 {
        assert_eq!(grad.get_linear(j), expected[j]);
    }
    assert_eq!(grad.get(&[0, 0, 1, 0]), 133);
    assert_eq!(dummy_in.get_linear(0), 0);
}

#[test]
fn grad_descent_subtracts_prescaled_gradient() {
    // the gradient is expected to carry the learning-rate factor already:
    // parameter 10 and gradient 5 leave parameter 5
    let mut layer = layer_from(vec![10], [1, 1, 1, 1]);
    let grad = tensor4_from(vec![5], [1, 1, 1, 1]);
    layer.grad_descent(&grad);
    assert_eq!(layer.nodes().get_linear(0), 5);
}

#[test]
fn grad_descent_elementwise() {
    let mut layer = layer_from(vec![10, 20, 30, 40], [1, 1, 2, 2]);
    let grad = tensor4_from(vec![1, -2, 3, -4], [1, 1, 2, 2]);
    layer.grad_descent(&grad);
    let expected = [9i64, 22, 27, 44];
    for k in 0..4 {
        assert_eq!(layer.nodes().get_linear(k), expected[k]);
    }
}

#[test]
fn momentum_update_two_identical_steps() {
    // lr = 1/2, beta = 9/10, parameter 1000, gradient 100 twice over
    let mut layer = layer_from(vec![1000], [1, 1, 1, 1]);
    let grad = tensor4_from(vec![100], [1, 1, 1, 1]);
    let mut momentum = tensor4_from(vec![0], [1, 1, 1, 1]);
    let cfg = MomentumConfig { lr_num: 1, lr_den: 2, beta_num: 9, beta_den: 10 };

    layer.grad_descent_momentum(&grad, &mut momentum, &cfg);
    // momentum: (9*0 + 1*100) / 10 = 10; parameter: 1000 - (1*10)/2 = 995
    assert_eq!(momentum.get_linear(0), 10);
    assert_eq!(layer.nodes().get_linear(0), 995);

    layer.grad_descent_momentum(&grad, &mut momentum, &cfg);
    // momentum: (9*10 + 100) / 10 = 19; parameter: 995 - 19/2 = 986
    assert_eq!(momentum.get_linear(0), 19);
    assert_eq!(layer.nodes().get_linear(0), 986);
}

#[test]
fn adam_update_first_step() {
    // lr = 50, beta1 = 9/10, beta2 = 99/100, epsilon = 1, step 1
    let mut layer = layer_from(vec![1000], [1, 1, 1, 1]);
    let grad = tensor4_from(vec![100], [1, 1, 1, 1]);
    let mut momentum = tensor4_from(vec![0], [1, 1, 1, 1]);
    let mut velocity = tensor4_from(vec![0], [1, 1, 1, 1]);
    let cfg = AdamConfig {
        lr_num: 50,
        lr_den: 1,
        beta1_num: 9,
        beta1_den: 10,
        beta2_num: 99,
        beta2_den: 100,
        epsilon: 1,
        step: 1,
    };
    layer.grad_descent_adam(&grad, &mut momentum, &mut velocity, &cfg);
    // m = (9*0 + 1*100)/10 = 10, v = (99*0 + 1*10000)/100 = 100
    // m_hat = 10*10/(10-9) = 100, v_hat = 100*100/(100-99) = 10000
    // parameter: 1000 - 50*100/(1*(100+1)) = 1000 - 49 = 951
    assert_eq!(momentum.get_linear(0), 10);
    assert_eq!(velocity.get_linear(0), 100);
    assert_eq!(layer.nodes().get_linear(0), 951);
}

#[test]
fn adam_update_second_step_counter() {
    // same moments, but bias correction with step counter 2
    let mut layer = layer_from(vec![1000], [1, 1, 1, 1]);
    let grad = tensor4_from(vec![100], [1, 1, 1, 1]);
    let mut momentum = tensor4_from(vec![0], [1, 1, 1, 1]);
    let mut velocity = tensor4_from(vec![0], [1, 1, 1, 1]);
    let cfg = AdamConfig {
        lr_num: 50,
        lr_den: 1,
        beta1_num: 9,
        beta1_den: 10,
        beta2_num: 99,
        beta2_den: 100,
        epsilon: 1,
        step: 2,
    };
    layer.grad_descent_adam(&grad, &mut momentum, &mut velocity, &cfg);
    // m = 10, v = 100
    // m_hat = 10*100/(100-81) = 1000/19 = 52
    // v_hat = 100*10000/(10000-9801) = 1000000/199 = 5025, sqrt = 70
    // parameter: 1000 - 50*52/(1*(70+1)) = 1000 - 2600/71 = 1000 - 36 = 964
    assert_eq!(momentum.get_linear(0), 10);
    assert_eq!(velocity.get_linear(0), 100);
    assert_eq!(layer.nodes().get_linear(0), 964);
}

#[test]
fn shape_check_reports_dimension_mismatch() {
    let layer = BiasLayer::<64>::new(Shape::<4>::new([1, 1, 2, 2]));
    let good_in = Tensor::<i64, 4, 64>::new(Shape::<4>::new([3, 1, 2, 2]), 0);
    let good_out = Tensor::<i64, 4, 64>::new(Shape::<4>::new([3, 1, 2, 2]), 0);
    assert_eq!(layer.check_io_shapes(&good_in, &good_out), Ok(()));

    let narrow_out = Tensor::<i64, 4, 64>::new(Shape::<4>::new([3, 1, 2, 1]), 0);
    assert_eq!(
        layer.check_io_shapes(&good_in, &narrow_out),
        Err(Error::DimensionMismatch)
    );

    let wrong_channel = Tensor::<i64, 4, 64>::new(Shape::<4>::new([3, 2, 2, 2]), 0);
    assert_eq!(
        layer.check_io_shapes(&wrong_channel, &wrong_channel),
        Err(Error::DimensionMismatch)
    );
}

#[test]
fn cloned_layer_is_independent() {
    let layer = layer_from(vec![1, 2, 3, 4], [1, 1, 2, 2]);
    let mut copy = layer.clone();
    copy.nodes_mut().set_linear(0, 50);
    assert_eq!(copy.nodes().get_linear(0), 50);
    assert_eq!(layer.nodes().get_linear(0), 1);
}

#[test]
fn nodes_mut_edits_bias_in_place() {
    let mut layer = BiasLayer::<64>::new(Shape::<4>::new([1, 1, 1, 2]));
    layer.nodes_mut().set(&[0, 0, 0, 1], 7);
    assert_eq!(layer.nodes().get(&[0, 0, 0, 1]), 7);
    assert_eq!(layer.nodes().get_linear(0), 0);
}

fn build<L: Layer<64>>(shape: Shape<4>) -> L {
    L::new(shape)
}

#[test]
fn layer_interface_builds_zeroed_layer() {
    let layer: BiasLayer<64> = build(Shape::<4>::new([1, 1, 2, 2]));
    for k in 0..4 {
        assert_eq!(layer.nodes().get_linear(k), 0);
    }
}
