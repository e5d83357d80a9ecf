use trial::Array;
use trial::Flatten;
use trial::InferenceError;
use trial::LinearCombination;
use trial::Network;
use trial::Operator;
use trial::ReLu;
use trial::TensorError;

#[test]
fn flatten_2_dimensions_array() {
    let input_array = Array::new(vec![1, 2, 3, 4, 5, 6], vec![2, 3]).unwrap();
    let mut network = Network::new();
    network.add_operator(Operator::Flatten(Flatten::new())).unwrap();

    let result_array = network.execute_inference(&input_array).unwrap();
    assert_eq!(result_array.n_dim(), 1);
    assert_eq!(result_array.dimensions, vec![6]);
}

#[test]
fn flatten_already_flat_array() {
    let input_array = Array::new(vec![1, 2, 3, 4], vec![4]).unwrap();
    let mut network = Network::new();
    network.add_operator(Operator::Flatten(Flatten::new())).unwrap();

    let result_array = network.execute_inference(&input_array).unwrap();
    assert_eq!(result_array.n_dim(), 1);
    assert_eq!(result_array.dimensions, vec![4]);
}

#[test]
fn basic_chained_relu_1_dim() {
    let input_array = Array::new(vec![4, -1, 5, 0, -2], vec![5]).unwrap();
    let mut network = Network::new();
    network.add_operator(Operator::ReLu(ReLu::new())).unwrap();
    network.add_operator(Operator::ReLu(ReLu::new())).unwrap();

    assert_eq!(network.execute_inference(&input_array).unwrap().data, vec![4, 0, 5, 0, 0]);
}

#[test]
fn basic_linear_combination_1_dim() {
    let input_array = Array::new(vec![1, 2, 3, 4], vec![4]).unwrap();
    let mut network = Network::new();
    let weights = vec![
        1, 5, //
        2, 6, //
        3, 7, //
        4, 8,
    ];
    let weights_dim = vec![4, 2];
    let lin_comb = LinearCombination::new(weights, weights_dim, vec![2, 2]).unwrap();
    network.add_operator(Operator::LinearCombination(lin_comb)).unwrap();

    assert_eq!(network.execute_inference(&input_array).unwrap().data, vec![32, 72]);
}

#[test]
fn flatten_keeps_data_order() {
    let input_array = Array::new(vec![1, 2, 3, 4], vec![4]).unwrap();
    let out = Flatten::new().execute_operation(&input_array).unwrap();
    assert_eq!(out.data, vec![1, 2, 3, 4]);
    assert_eq!(out.dimensions, vec![4]);
}

#[test]
fn relu_rectifies_each_value() {
    let input_array = Array::new(vec![4, -1, 5, 0, -2], vec![5]).unwrap();
    let out = ReLu::new().execute_operation(&input_array).unwrap();
    assert_eq!(out.data, vec![4, 0, 5, 0, 0]);
    assert_eq!(out.dimensions, vec![5]);
}

#[test]
fn relu_applied_twice_equals_once() {
    let input_array = Array::new(vec![-7, 3, 0, -1, 9], vec![5]).unwrap();
    let relu = ReLu::new();
    let once = relu.execute_operation(&input_array).unwrap();
    let twice = relu.execute_operation(&once).unwrap();
    assert_eq!(twice.data, once.data);
    assert_eq!(twice.dimensions, once.dimensions);
}

#[test]
fn array_new_rejects_wrong_element_count() {
    let r = Array::new(vec![1, 2, 3], vec![2, 2]);
    assert!(matches!(r, Err(TensorError::ShapeMismatch)));
}

#[test]
fn array_new_accepts_zero_axis() {
    let a = Array::new(vec![], vec![0, 5]).unwrap();
    assert_eq!(a.len(), 0);
    assert_eq!(a.n_dim(), 2);
}

#[test]
fn array_empty_has_no_values() {
    let a = Array::empty();
    assert_eq!(a.len(), 0);
    assert_eq!(a.n_dim(), 1);
    assert_eq!(a.dimensions, vec![0]);
}

#[test]
fn array_reshape_changes_only_the_shape() {
    let mut a = Array::new(vec![1, 2, 3, 4, 5, 6], vec![2, 3]).unwrap();
    a.reshape(&vec![3, 2]).unwrap();
    assert_eq!(a.dimensions, vec![3, 2]);
    assert_eq!(a.data, vec![1, 2, 3, 4, 5, 6]);
}

#[test]
fn array_reshape_rejects_wrong_element_count() {
    let mut a = Array::new(vec![1, 2, 3, 4, 5, 6], vec![2, 3]).unwrap();
    let r = a.reshape(&vec![4]);
    assert!(matches!(r, Err(TensorError::ShapeMismatch)));
    assert_eq!(a.dimensions, vec![2, 3]);
    assert_eq!(a.data, vec![1, 2, 3, 4, 5, 6]);
}

#[test]
fn copy_array_overwrites_buffer_and_shape() {
    let mut a = Array::new(vec![9, 9, 9, 9], vec![4]).unwrap();
    let b = Array::new(vec![1, 2, 3, 4], vec![2, 2]).unwrap();
    a.copy_array(&b);
    assert_eq!(a.data, vec![1, 2, 3, 4]);
    assert_eq!(a.dimensions, vec![2, 2]);
}

#[test]
fn copy_array_replaces_shorter_buffer() {
    let mut a = Array::new(vec![9], vec![1]).unwrap();
    let b = Array::new(vec![1, 2, 3], vec![3]).unwrap();
    a.copy_array(&b);
    assert_eq!(a.data, vec![1, 2, 3]);
    assert_eq!(a.dimensions, vec![3]);
}

#[test]
fn linear_combination_rejects_uneven_bias() {
    let r = LinearCombination::new(vec![1, 2, 3], vec![3], vec![2, 2]);
    assert!(matches!(r, Err(TensorError::DimensionMismatch)));
}

#[test]
fn linear_combination_rejects_empty_bias() {
    let r = LinearCombination::new(vec![1, 2], vec![2], vec![]);
    assert!(matches!(r, Err(TensorError::DimensionMismatch)));
}

#[test]
fn linear_combination_rejects_wrong_weight_shape() {
    let r = LinearCombination::new(vec![1, 2, 3, 4], vec![3], vec![2, 2]);
    assert!(matches!(r, Err(TensorError::ShapeMismatch)));
}

#[test]
fn linear_combination_rejects_wrong_input_length() {
    let lin = LinearCombination::new(vec![1, 2], vec![2], vec![1]).unwrap();
    let input = Array::new(vec![1, 2, 3], vec![3]).unwrap();
    let r = lin.execute_operation(&input);
    assert!(matches!(r, Err(TensorError::DimensionMismatch)));
}

#[test]
fn linear_combination_reports_overflow() {
    let lin = LinearCombination::new(vec![i64::MAX], vec![1], vec![1]).unwrap();
    let input = Array::new(vec![2], vec![1]).unwrap();
    let r = lin.execute_operation(&input);
    assert!(matches!(r, Err(TensorError::Overflow)));
}

#[test]
fn count_parameters_is_zero_without_linear_layers() {
    let mut network = Network::new();
    network.add_operator(Operator::Flatten(Flatten::new())).unwrap();
    network.add_operator(Operator::ReLu(ReLu::new())).unwrap();
    assert_eq!(network.count_parameters(), 0);
}

#[test]
fn count_parameters_counts_weights_and_bias() {
    let mut network = Network::new();
    network.add_operator(Operator::Flatten(Flatten::new())).unwrap();
    let lin = LinearCombination::new(vec![1, 5, 2, 6, 3, 7, 4, 8], vec![4, 2], vec![2, 2]).unwrap();
    network.add_operator(Operator::LinearCombination(lin)).unwrap();
    network.add_operator(Operator::ReLu(ReLu::new())).unwrap();
    assert_eq!(network.count_parameters(), 10);
}

#[test]
fn repeated_inference_does_not_leak_state() {
    let mut network = Network::new();
    let lin = LinearCombination::new(vec![1, 5, 2, 6, 3, 7, 4, 8], vec![4, 2], vec![2, 2]).unwrap();
    network.add_operator(Operator::LinearCombination(lin)).unwrap();

    let first = Array::new(vec![1, 2, 3, 4], vec![4]).unwrap();
    assert_eq!(network.execute_inference(&first).unwrap().data, vec![32, 72]);

    let second = Array::new(vec![0, 0, 0, 0], vec![4]).unwrap();
    assert_eq!(network.execute_inference(&second).unwrap().data, vec![2, 2]);

    assert_eq!(network.execute_inference(&first).unwrap().data, vec![32, 72]);
}

#[test]
fn empty_pipeline_returns_the_input() {
    let network = Network::new();
    let input = Array::new(vec![1, 2, 3, 4, 5, 6], vec![2, 3]).unwrap();
    let out = network.execute_inference(&input).unwrap();
    assert_eq!(out.data, vec![1, 2, 3, 4, 5, 6]);
    assert_eq!(out.dimensions, vec![2, 3]);
}

#[test]
fn inference_reports_the_failing_operator() {
    let mut network = Network::new();
    network.add_operator(Operator::Flatten(Flatten::new())).unwrap();
    let lin = LinearCombination::new(vec![1, 2], vec![2], vec![1]).unwrap();
    network.add_operator(Operator::LinearCombination(lin)).unwrap();

    let input = Array::new(vec![1, 2, 3], vec![3]).unwrap();
    let e = network.execute_inference(&input).unwrap_err();
    assert_eq!(e, InferenceError { operator_index: 1, kind: TensorError::DimensionMismatch });
}

#[test]
fn full_pipeline_flatten_linear_relu() {
    let mut network = Network::new();
    network.add_operator(Operator::Flatten(Flatten::new())).unwrap();
    let lin = LinearCombination::new(vec![1, -1, 2, -2], vec![2, 2], vec![0, 1]).unwrap();
    network.add_operator(Operator::LinearCombination(lin)).unwrap();
    network.add_operator(Operator::ReLu(ReLu::new())).unwrap();

    let input = Array::new(vec![3, 4], vec![2, 1]).unwrap();
    // linear: [3*1 + 4*2 + 0, 3*(-1) + 4*(-2) + 1] == [11, -10]; relu: [11, 0]
    let out = network.execute_inference(&input).unwrap();
    assert_eq!(out.data, vec![11, 0]);
    assert_eq!(out.dimensions, vec![2]);
}
