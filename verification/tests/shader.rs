use intricate::gpu::calculate_dense_input_to_error_derivatives::actual_input_to_error_derivatives;
use intricate::gpu::calculate_dense_input_to_error_derivatives::calculate_dense_input_to_error_derivatives;
use intricate::gpu::calculate_dense_input_to_error_derivatives::execute_gpu_code;
use intricate::gpu::calculate_dense_input_to_error_derivatives::Binding;
use intricate::gpu::calculate_dense_input_to_error_derivatives::BindingKind;
use intricate::gpu::calculate_dense_input_to_error_derivatives::DenseGpu;
use intricate::gpu::calculate_dense_input_to_error_derivatives::Resource;

#[test]
fn the_shader_runs_once_per_sample_and_input() {
    let dense = DenseGpu {
        inputs_amount: 2,
        outputs_amount: 3,
        weights: vec![vec![1.0_f32, 2.0, 3.0], vec![4.0, 5.0, 6.0]],
        last_inputs: vec![vec![0.0, 0.0]; 4],
    };
    let derivatives = vec![vec![0.1_f32, 0.2, 0.3]; 4];
    let run = calculate_dense_input_to_error_derivatives(&dense, &derivatives).unwrap();
    assert_eq!(run.flattened_layer_weights, vec![1.0, 2.0, 3.0, 4.0, 5.0, 6.0]);
    assert_eq!(run.flattened_layer_output_to_error_derivatives.len(), 12);
    assert_eq!(run.flattened_layer_output_to_error_derivatives[4], 0.2);
    assert_eq!((run.samples_amount, run.outputs_amount, run.inputs_amount), (4, 3, 2));
    assert_eq!(run.results_amount, 8);
    assert_eq!(run.buffer_size, 32);
    assert_eq!(run.workgroups, (4, 2, 1));
    assert_eq!(
        run.bindings,
        vec![
            Binding {
                binding: 0,
                kind: BindingKind::Storage { read_only: false },
                resource: Resource::InputToErrorDerivatives
            },
            Binding {
                binding: 1,
                kind: BindingKind::Storage { read_only: true },
                resource: Resource::LayerOutputToErrorDerivatives
            },
            Binding {
                binding: 2,
                kind: BindingKind::Storage { read_only: true },
                resource: Resource::LayerWeights
            },
            Binding { binding: 3, kind: BindingKind::Uniform, resource: Resource::SamplesAmount },
            Binding { binding: 4, kind: BindingKind::Uniform, resource: Resource::OutputsAmount },
            Binding { binding: 5, kind: BindingKind::Uniform, resource: Resource::InputsAmount },
        ]
    );
    let results: Vec<f32> = (0..8).map(|k| k as f32).collect();
    assert_eq!(
        actual_input_to_error_derivatives(&run, &results),
        Some(vec![vec![0.0, 1.0], vec![2.0, 3.0], vec![4.0, 5.0], vec![6.0, 7.0]])
    );
    assert_eq!(actual_input_to_error_derivatives(&run, &vec![0.0; 7]), None);
}

#[test]
fn the_shader_counts_in_32_bits() {
    let none: Vec<f32> = vec![];
    assert!(execute_gpu_code(1, 1, 1, none.clone(), none.clone()).is_some());
    assert!(execute_gpu_code(0, 0, 0, none.clone(), none.clone()).is_some());
    assert!(execute_gpu_code(usize::MAX, 1, 1, none.clone(), none.clone()).is_none());
    assert!(execute_gpu_code(1, usize::MAX, 1, none.clone(), none.clone()).is_none());
    assert!(execute_gpu_code(1, 1, usize::MAX, none.clone(), none.clone()).is_none());
    let run = execute_gpu_code(3, 70000, 5, vec![1_u8], vec![2_u8]).unwrap();
    assert_eq!(run.results_amount, 15);
    assert_eq!(run.buffer_size, 60);
    assert_eq!(run.workgroups, (3, 5, 1));
    assert_eq!(run.outputs_amount, 70000);
}
