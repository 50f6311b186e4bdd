use intricate::commands::Command;
use intricate::commands::KernelArg;
use intricate::commands::Launch;
use intricate::device::Access;
use intricate::device::Compilation;
use intricate::device::ComputeContext;
use intricate::device::DeviceBuffer;
use intricate::layers::dense::compile_dense;
use intricate::layers::dense::Dense;
use intricate::layers::LayerError;
use intricate::layers::Parameters;
use intricate::programs::Kernel;
use intricate::programs::Program;
use intricate::types::ModelLayer;

fn ready_context() -> ComputeContext {
    let mut ctx = ComputeContext::new(1);
    for step in compile_dense(&ctx) {
        ctx.completed(step);
    }
    ctx
}

fn small() -> Dense<f32> {
    // Two inputs, three outputs.
    Dense::new_raw(2, 3, vec![1.0, 2.0, 3.0, 4.0, 5.0, 6.0, 0.1, 0.2, 0.3]).unwrap()
}

fn initialized(ctx: &mut ComputeContext) -> (Dense<f32>, Parameters) {
    let mut dense = small();
    let plan = dense.init(ctx).unwrap();
    dense.finish_init(&plan);
    (dense, plan.parameters.unwrap())
}

#[test]
fn new_raw_shapes_the_values() {
    let dense = small();
    assert_eq!(dense.get_inputs_amount(), 2);
    assert_eq!(dense.get_outputs_amount(), 3);
    assert_eq!(dense.weights(), &vec![vec![1.0, 2.0, 3.0], vec![4.0, 5.0, 6.0]]);
    assert_eq!(dense.biases(), &vec![0.1, 0.2, 0.3]);
    assert_eq!(dense.get_last_inputs(), None);
    assert_eq!(dense.get_last_outputs(), None);
    assert!(!dense.is_initialized());
    assert!(dense.fits_device());
}

#[test]
fn new_raw_wants_one_value_per_parameter() {
    assert!(Dense::new_raw(2, 3, vec![0.0_f32; 8]).is_none());
    assert!(Dense::new_raw(2, 3, vec![0.0_f32; 10]).is_none());
    assert!(Dense::new_raw(usize::MAX, 2, vec![0.0_f32; 2]).is_none());
    assert!(Dense::new_raw(0, 0, Vec::<f32>::new()).is_some());
    assert!(Dense::new_raw(0, 2, vec![0.0_f32; 2]).is_some());
    assert!(matches!(Dense::new(1, 1, vec![0.5_f32, 0.25]), Some(ModelLayer::Dense(_))));
    assert!(Dense::new(1, 1, vec![0.5_f32]).is_none());
}

#[test]
fn from_parameters_wants_a_matrix() {
    let dense = Dense::from_parameters(vec![vec![1, 2], vec![3, 4], vec![5, 6]], vec![7, 8]).unwrap();
    assert_eq!(dense.get_inputs_amount(), 3);
    assert_eq!(dense.get_outputs_amount(), 2);
    assert_eq!(dense.weights()[2][1], 6);
    assert!(Dense::from_parameters(vec![vec![1, 2], vec![3]], vec![7, 8]).is_none());
    assert!(Dense::from_parameters(vec![vec![1, 2]], vec![7]).is_none());
}

#[test]
fn init_creates_and_fills_both_buffers() {
    let mut ctx = ComputeContext::new(1);
    let mut dense = small();
    let plan = dense.init(&mut ctx).unwrap();
    let weights_buffer = DeviceBuffer { id: 0, len: 6 };
    let biases_buffer = DeviceBuffer { id: 1, len: 3 };
    assert_eq!(plan.parameters, Some(Parameters { weights_buffer, biases_buffer }));
    assert_eq!(plan.compilation, compile_dense(&ComputeContext::new(1)));
    assert_eq!(
        plan.commands,
        vec![
            Command::CreateBuffer { buffer: weights_buffer, access: Access::ReadWrite },
            Command::CreateBuffer { buffer: biases_buffer, access: Access::ReadWrite },
            Command::WriteBuffer {
                buffer: weights_buffer,
                data: vec![1.0, 2.0, 3.0, 4.0, 5.0, 6.0]
            },
            Command::Finish,
            Command::WriteBuffer { buffer: biases_buffer, data: vec![0.1, 0.2, 0.3] },
            Command::Finish,
        ]
    );
    // Nothing changes before the device is done.
    assert!(!dense.is_initialized());
    assert_eq!(dense.finish_init(&plan), vec![]);
    assert!(dense.is_initialized());
    // The next buffer gets the next handle.
    assert_eq!(ctx.reserve_buffer(1), Some(DeviceBuffer { id: 2, len: 1 }));
}

#[test]
fn init_again_supersedes_the_parameters() {
    let mut ctx = ComputeContext::new(1);
    let (mut dense, first) = initialized(&mut ctx);
    for step in compile_dense(&ctx) {
        ctx.completed(step);
    }
    let plan = dense.init(&mut ctx).unwrap();
    assert_eq!(plan.compilation, vec![]);
    assert_eq!(
        dense.finish_init(&plan),
        vec![
            Command::ReleaseBuffer { buffer: first.weights_buffer },
            Command::ReleaseBuffer { buffer: first.biases_buffer },
        ]
    );
}

#[test]
fn init_needs_a_queue_and_a_possible_shape() {
    let mut no_queue = ComputeContext::new(0);
    assert_eq!(small().init(&mut no_queue).unwrap_err(), LayerError::NoCommandQueue);
    let mut ctx = ComputeContext::new(1);
    let empty: Dense<f32> = Dense::new_raw(0, 0, vec![]).unwrap();
    assert!(!empty.fits_device());
    assert_eq!(empty.init(&mut ctx).unwrap_err(), LayerError::AllocationError);
    let no_inputs: Dense<f32> = Dense::new_raw(0, 2, vec![0.0; 2]).unwrap();
    assert_eq!(no_inputs.init(&mut ctx).unwrap_err(), LayerError::AllocationError);
    // A refusal gives out no handle.
    assert_eq!(ctx.reserve_buffer(1), Some(DeviceBuffer { id: 0, len: 1 }));
}

#[test]
fn propagate_plans_one_work_item_per_sample_and_output() {
    let mut ctx = ready_context();
    let (mut dense, parameters) = initialized(&mut ctx);
    let input = DeviceBuffer { id: 100, len: 8 };
    let plan = dense.propagate(&mut ctx, &input).unwrap();
    let last_inputs = DeviceBuffer { id: 2, len: 8 };
    let outputs = DeviceBuffer { id: 3, len: 12 };
    assert_eq!(plan.last_inputs, last_inputs);
    assert_eq!(plan.outputs, outputs);
    assert_eq!(
        plan.commands,
        vec![
            Command::CreateBuffer { buffer: last_inputs, access: Access::ReadOnly },
            Command::CopyBuffer { source: input, target: last_inputs, len: 8 },
            Command::CreateBuffer { buffer: outputs, access: Access::ReadWrite },
            Command::Launch(Launch {
                program: Program::DensePropagation,
                kernel: Kernel::DensePropagate,
                args: vec![
                    KernelArg::Buffer(input),
                    KernelArg::Buffer(parameters.biases_buffer),
                    KernelArg::Buffer(parameters.weights_buffer),
                    KernelArg::Buffer(outputs),
                    KernelArg::Int(2),
                    KernelArg::Int(4),
                    KernelArg::Int(3),
                ],
                global_work_sizes: vec![4, 3],
            }),
            Command::Finish,
        ]
    );
    assert_eq!(dense.get_last_outputs(), None);
    assert_eq!(dense.finish_propagate(&plan), vec![]);
    assert_eq!(dense.get_last_inputs(), Some(last_inputs));
    assert_eq!(dense.get_last_outputs(), Some(outputs));

    // The next pass supersedes this one's cache.
    let next = dense.propagate(&mut ctx, &input).unwrap();
    assert_eq!(next.outputs, DeviceBuffer { id: 5, len: 12 });
    assert_eq!(
        dense.finish_propagate(&next),
        vec![
            Command::ReleaseBuffer { buffer: last_inputs },
            Command::ReleaseBuffer { buffer: outputs },
        ]
    );
}

#[test]
fn propagate_counts_whole_samples() {
    let mut ctx = ready_context();
    let (dense, _) = initialized(&mut ctx);
    // Seven values are three samples of two and one value over.
    let plan = dense.propagate(&mut ctx, &DeviceBuffer { id: 100, len: 7 }).unwrap();
    assert_eq!(plan.last_inputs.len, 7);
    assert_eq!(plan.outputs.len, 9);
}

#[test]
fn propagate_says_what_is_missing() {
    let mut ctx = ComputeContext::new(1);
    let (dense, _) = initialized(&mut ctx);
    let input = DeviceBuffer { id: 100, len: 8 };
    assert_eq!(dense.propagate(&mut ctx, &input).unwrap_err(), LayerError::MissingProgramOrKernel);
    ctx.completed(Compilation::BuildProgram { program: Program::DensePropagation });
    assert_eq!(dense.propagate(&mut ctx, &input).unwrap_err(), LayerError::MissingProgramOrKernel);
    ctx.completed(Compilation::CreateKernel {
        program: Program::DensePropagation,
        kernel: Kernel::DensePropagate,
    });
    assert!(dense.propagate(&mut ctx, &input).is_ok());
    // Less than one sample leaves no outputs to create.
    assert_eq!(
        dense.propagate(&mut ctx, &DeviceBuffer { id: 100, len: 1 }).unwrap_err(),
        LayerError::AllocationError
    );
    assert_eq!(
        dense.propagate(&mut ctx, &DeviceBuffer { id: 100, len: 0 }).unwrap_err(),
        LayerError::AllocationError
    );
    assert_eq!(
        dense.propagate(&mut ctx, &DeviceBuffer { id: 100, len: usize::MAX }).unwrap_err(),
        LayerError::AllocationError
    );
}

#[test]
fn back_propagate_plans_the_update() {
    let mut ctx = ready_context();
    let (mut dense, parameters) = initialized(&mut ctx);
    let input = DeviceBuffer { id: 100, len: 8 };
    let forward = dense.propagate(&mut ctx, &input).unwrap();
    dense.finish_propagate(&forward);
    let derivatives = DeviceBuffer { id: 200, len: 12 };

    let plan = dense.back_propagate(&mut ctx, false, &derivatives, 0.5).unwrap();
    let new_weights = DeviceBuffer { id: 4, len: 6 };
    let new_biases = DeviceBuffer { id: 5, len: 3 };
    assert_eq!(plan.input_derivatives, None);
    assert_eq!(
        plan.parameters,
        Some(Parameters { weights_buffer: new_weights, biases_buffer: new_biases })
    );
    assert_eq!(
        plan.commands,
        vec![
            Command::CreateBuffer { buffer: new_weights, access: Access::ReadWrite },
            Command::Launch(Launch {
                program: Program::DenseBackPropagation,
                kernel: Kernel::WeightsGradientApplication,
                args: vec![
                    KernelArg::Buffer(derivatives),
                    KernelArg::Buffer(forward.last_inputs),
                    KernelArg::Buffer(parameters.weights_buffer),
                    KernelArg::Buffer(new_weights),
                    KernelArg::Int(4),
                    KernelArg::Int(3),
                    KernelArg::Int(2),
                    KernelArg::Scalar(0.5),
                ],
                global_work_sizes: vec![2, 3],
            }),
            Command::CreateBuffer { buffer: new_biases, access: Access::ReadWrite },
            Command::Launch(Launch {
                program: Program::DenseBackPropagation,
                kernel: Kernel::BiasGradientApplication,
                args: vec![
                    KernelArg::Buffer(derivatives),
                    KernelArg::Buffer(parameters.biases_buffer),
                    KernelArg::Buffer(new_biases),
                    KernelArg::Int(4),
                    KernelArg::Int(3),
                    KernelArg::Scalar(0.5),
                ],
                global_work_sizes: vec![3],
            }),
            Command::Finish,
        ]
    );
    assert_eq!(
        dense.finish_back_propagate(&plan),
        vec![
            Command::ReleaseBuffer { buffer: parameters.weights_buffer },
            Command::ReleaseBuffer { buffer: parameters.biases_buffer },
        ]
    );
}

#[test]
fn back_propagate_plans_the_input_derivative_first() {
    let mut ctx = ready_context();
    let (mut dense, parameters) = initialized(&mut ctx);
    let forward = dense.propagate(&mut ctx, &DeviceBuffer { id: 100, len: 8 }).unwrap();
    dense.finish_propagate(&forward);
    let derivatives = DeviceBuffer { id: 200, len: 12 };

    let plan = dense.back_propagate(&mut ctx, true, &derivatives, 0.5).unwrap();
    let input_derivatives = DeviceBuffer { id: 4, len: 8 };
    assert_eq!(plan.input_derivatives, Some(input_derivatives));
    assert_eq!(
        plan.parameters,
        Some(Parameters {
            weights_buffer: DeviceBuffer { id: 5, len: 6 },
            biases_buffer: DeviceBuffer { id: 6, len: 3 },
        })
    );
    assert_eq!(plan.commands.len(), 8);
    assert_eq!(
        plan.commands[..3],
        vec![
            Command::CreateBuffer { buffer: input_derivatives, access: Access::ReadWrite },
            Command::Launch(Launch {
                program: Program::DenseBackPropagation,
                kernel: Kernel::ComputeLossDerivativeWithRespectToInputs,
                args: vec![
                    KernelArg::Buffer(parameters.weights_buffer),
                    KernelArg::Buffer(derivatives),
                    KernelArg::Buffer(input_derivatives),
                    KernelArg::Int(3),
                    KernelArg::Int(4),
                    KernelArg::Int(2),
                ],
                global_work_sizes: vec![4, 2],
            }),
            Command::Finish,
        ]
    );
    // The derivative is computed from the weights as they were: the update
    // writes to buffers of its own.
    assert!(plan.commands[3..].iter().all(|command| match command {
        Command::Launch(launch) => launch.args[2] != KernelArg::Buffer(input_derivatives),
        _ => true,
    }));
}

#[test]
fn back_propagate_says_what_is_missing() {
    let mut ctx = ComputeContext::new(1);
    for step in ctx.ensure_program(
        Program::DenseBackPropagation,
        &vec![Kernel::WeightsGradientApplication, Kernel::BiasGradientApplication],
    ) {
        ctx.completed(step);
    }
    let (mut dense, _) = initialized(&mut ctx);
    let mut forward_ctx = ready_context();
    let forward = dense.propagate(&mut forward_ctx, &DeviceBuffer { id: 100, len: 8 }).unwrap();
    dense.finish_propagate(&forward);
    let derivatives = DeviceBuffer { id: 200, len: 12 };
    assert!(dense.back_propagate(&mut ctx, false, &derivatives, 0.5).is_ok());
    assert_eq!(
        dense.back_propagate(&mut ctx, true, &derivatives, 0.5).unwrap_err(),
        LayerError::MissingProgramOrKernel
    );
    let mut no_queue = ComputeContext::new(0);
    assert_eq!(
        dense.back_propagate(&mut no_queue, false, &derivatives, 0.5).unwrap_err(),
        LayerError::NoCommandQueue
    );
    let mut ready = ready_context();
    assert_eq!(
        dense.back_propagate(&mut ready, true, &DeviceBuffer { id: 200, len: 2 }, 0.5).unwrap_err(),
        LayerError::AllocationError
    );
    assert_eq!(
        dense.back_propagate(&mut ready, false, &DeviceBuffer { id: 200, len: 0 }, 0.5).unwrap_err(),
        LayerError::AllocationError
    );
}

#[test]
fn parameters_come_back_to_the_host() {
    let mut ctx = ComputeContext::new(1);
    let (mut dense, parameters) = initialized(&mut ctx);
    assert_eq!(
        dense.read_parameters(&ctx).unwrap(),
        vec![
            Command::ReadBuffer { buffer: parameters.weights_buffer },
            Command::ReadBuffer { buffer: parameters.biases_buffer },
            Command::Finish,
        ]
    );
    assert_eq!(
        dense.read_parameters(&ComputeContext::new(0)).unwrap_err(),
        LayerError::NoCommandQueue
    );
    assert!(dense.sync_data_from_buffers_to_host(
        &vec![6.0, 5.0, 4.0, 3.0, 2.0, 1.0],
        vec![0.3, 0.2, 0.1]
    ));
    assert_eq!(dense.weights(), &vec![vec![6.0, 5.0, 4.0], vec![3.0, 2.0, 1.0]]);
    assert_eq!(dense.biases(), &vec![0.3, 0.2, 0.1]);
    // What does not have the layer's shape is not taken.
    assert!(!dense.sync_data_from_buffers_to_host(&vec![0.0; 5], vec![0.0; 3]));
    assert!(!dense.sync_data_from_buffers_to_host(&vec![0.0; 6], vec![0.0; 2]));
    assert_eq!(dense.biases(), &vec![0.3, 0.2, 0.1]);
}

#[test]
fn cleaning_up_twice_is_cleaning_up_once() {
    let mut ctx = ready_context();
    let (mut dense, parameters) = initialized(&mut ctx);
    let forward = dense.propagate(&mut ctx, &DeviceBuffer { id: 100, len: 8 }).unwrap();
    dense.finish_propagate(&forward);
    assert_eq!(
        dense.clean_up_gpu_state(),
        vec![
            Command::ReleaseBuffer { buffer: parameters.weights_buffer },
            Command::ReleaseBuffer { buffer: parameters.biases_buffer },
            Command::ReleaseBuffer { buffer: forward.last_inputs },
            Command::ReleaseBuffer { buffer: forward.outputs },
        ]
    );
    assert!(!dense.is_initialized());
    assert_eq!(dense.get_last_outputs(), None);
    assert_eq!(dense.clean_up_gpu_state(), vec![]);
    assert_eq!(dense.weights(), small().weights());
}
