use intricate::commands::Command;
use intricate::commands::KernelArg;
use intricate::commands::Launch;
use intricate::device::Access;
use intricate::device::Compilation;
use intricate::device::ComputeContext;
use intricate::device::DeviceBuffer;
use intricate::layers::activations::relu::ReLU;
use intricate::layers::activations::tanh::TanH;
use intricate::layers::activations::tanh_gpu::TanHGPU;
use intricate::layers::BackPropagation;
use intricate::layers::Initialization;
use intricate::layers::LayerError;
use intricate::layers::Propagation;
use intricate::programs::Kernel;
use intricate::programs::Program;
use intricate::types::ModelLayer;

fn context_with(program: Program) -> ComputeContext {
    let mut ctx = ComputeContext::new(1);
    for step in ctx.ensure_program(program, &program.kernels()) {
        ctx.completed(step);
    }
    ctx
}

#[test]
fn an_activation_gives_as_many_values_as_it_takes() {
    let tanh = TanH::new_raw(5);
    assert_eq!(tanh.get_inputs_amount(), 5);
    assert_eq!(tanh.get_outputs_amount(), 5);
    assert_eq!(tanh.get_last_inputs(), None);
    assert_eq!(tanh.get_last_outputs(), None);
    let relu = ReLU::new_raw(7);
    assert_eq!(relu.get_inputs_amount(), 7);
    assert_eq!(relu.get_outputs_amount(), 7);
    let layer: ModelLayer<f32> = TanH::new(3);
    assert!(matches!(layer, ModelLayer::TanH(_)));
    assert_eq!(layer.get_outputs_amount(), 3);
    let layer: ModelLayer<f32> = ReLU::new(4);
    assert!(matches!(layer, ModelLayer::ReLU(_)));
    assert_eq!(layer.get_inputs_amount(), 4);
}

#[test]
fn init_compiles_the_program_of_the_activation() {
    let mut ctx = ComputeContext::new(1);
    let tanh = TanH::new_raw(5);
    let plan: Initialization<f32> = tanh.init(&ctx).unwrap();
    assert_eq!(
        plan.compilation,
        vec![
            Compilation::BuildProgram { program: Program::TanH },
            Compilation::CreateKernel { program: Program::TanH, kernel: Kernel::Propagate },
            Compilation::CreateKernel { program: Program::TanH, kernel: Kernel::BackPropagate },
        ]
    );
    assert_eq!(plan.commands, vec![]);
    assert_eq!(plan.parameters, None);
    for step in plan.compilation {
        ctx.completed(step);
    }
    // A second layer of the kind shares the program.
    let again: Initialization<f32> = TanH::new_raw(9).init(&ctx).unwrap();
    assert_eq!(again.compilation, vec![]);
    // Another kind has a program of its own.
    let relu: Initialization<f32> = ReLU::new_raw(9).init(&ctx).unwrap();
    assert_eq!(relu.compilation[0], Compilation::BuildProgram { program: Program::ReLU });
    assert_eq!(relu.compilation.len(), 3);
    let refused: Result<Initialization<f32>, LayerError> = tanh.init(&ComputeContext::new(0));
    assert_eq!(refused.unwrap_err(), LayerError::NoCommandQueue);
}

#[test]
fn propagate_copies_the_inputs_and_runs_one_item_per_value() {
    let mut ctx = context_with(Program::ReLU);
    let mut relu = ReLU::new_raw(3);
    let inputs = DeviceBuffer { id: 50, len: 6 };
    let plan: Propagation<f32> = relu.propagate(&mut ctx, &inputs).unwrap();
    let last_inputs = DeviceBuffer { id: 0, len: 6 };
    let outputs = DeviceBuffer { id: 1, len: 6 };
    assert_eq!(plan.last_inputs, last_inputs);
    assert_eq!(plan.outputs, outputs);
    assert_eq!(
        plan.commands,
        vec![
            Command::CreateBuffer { buffer: last_inputs, access: Access::ReadOnly },
            Command::CopyBuffer { source: inputs, target: last_inputs, len: 6 },
            Command::Finish,
            Command::CreateBuffer { buffer: outputs, access: Access::ReadWrite },
            Command::Launch(Launch {
                program: Program::ReLU,
                kernel: Kernel::Propagate,
                args: vec![KernelArg::Buffer(inputs), KernelArg::Buffer(outputs)],
                global_work_sizes: vec![6],
            }),
            Command::Finish,
        ]
    );
    let superseded: Vec<Command<f32>> = relu.finish_propagate(&plan);
    assert_eq!(superseded, vec![]);
    assert_eq!(relu.get_last_inputs(), Some(last_inputs));
    assert_eq!(relu.get_last_outputs(), Some(outputs));

    let next: Propagation<f32> = relu.propagate(&mut ctx, &inputs).unwrap();
    assert_eq!(
        relu.finish_propagate(&next),
        vec![
            Command::ReleaseBuffer { buffer: last_inputs },
            Command::ReleaseBuffer { buffer: outputs },
        ]
    );
}

#[test]
fn propagate_says_why_it_cannot() {
    let tanh = TanH::new_raw(3);
    let inputs = DeviceBuffer { id: 50, len: 6 };
    let r: Result<Propagation<f32>, LayerError> = tanh.propagate(&mut ComputeContext::new(0), &inputs);
    assert_eq!(r.unwrap_err(), LayerError::NoCommandQueue);
    // The program of another activation does not help.
    let r: Result<Propagation<f32>, LayerError> =
        tanh.propagate(&mut context_with(Program::ReLU), &inputs);
    assert_eq!(r.unwrap_err(), LayerError::MissingProgramOrKernel);
    let r: Result<Propagation<f32>, LayerError> =
        tanh.propagate(&mut context_with(Program::TanH), &DeviceBuffer { id: 50, len: 0 });
    assert_eq!(r.unwrap_err(), LayerError::AllocationError);
}

#[test]
fn back_propagate_uses_the_last_outputs() {
    let mut ctx = context_with(Program::TanH);
    let mut tanh = TanH::new_raw(3);
    let forward: Propagation<f32> =
        tanh.propagate(&mut ctx, &DeviceBuffer { id: 50, len: 6 }).unwrap();
    tanh.finish_propagate(&forward);
    let derivatives = DeviceBuffer { id: 60, len: 6 };
    let plan = tanh.back_propagate(&mut ctx, true, &derivatives, 0.0_f32).unwrap();
    let result = DeviceBuffer { id: 2, len: 6 };
    assert_eq!(plan.input_derivatives, Some(result));
    assert_eq!(plan.parameters, None);
    assert_eq!(
        plan.commands,
        vec![
            Command::CreateBuffer { buffer: result, access: Access::ReadWrite },
            Command::Launch(Launch {
                program: Program::TanH,
                kernel: Kernel::BackPropagate,
                args: vec![
                    KernelArg::Buffer(derivatives),
                    KernelArg::Buffer(forward.outputs),
                    KernelArg::Buffer(result),
                ],
                global_work_sizes: vec![6],
            }),
            Command::Finish,
        ]
    );
}

#[test]
fn back_propagate_without_a_derivative_asks_for_nothing() {
    let mut ctx = ComputeContext::new(0);
    let relu = ReLU::new_raw(3);
    let plan: BackPropagation<f32> =
        relu.back_propagate(&mut ctx, false, &DeviceBuffer { id: 60, len: 6 }, 0.1).unwrap();
    assert_eq!(plan.commands, vec![]);
    assert_eq!(plan.input_derivatives, None);
    assert_eq!(plan.parameters, None);
}

#[test]
fn back_propagate_says_why_it_cannot() {
    let mut ctx = context_with(Program::ReLU);
    let mut relu = ReLU::new_raw(3);
    let forward: Propagation<f32> =
        relu.propagate(&mut ctx, &DeviceBuffer { id: 50, len: 6 }).unwrap();
    relu.finish_propagate(&forward);
    let derivatives = DeviceBuffer { id: 60, len: 6 };
    assert_eq!(
        relu.back_propagate(&mut ComputeContext::new(0), true, &derivatives, 0.1_f32).unwrap_err(),
        LayerError::NoCommandQueue
    );
    assert_eq!(
        relu.back_propagate(&mut ComputeContext::new(1), true, &derivatives, 0.1_f32).unwrap_err(),
        LayerError::MissingProgramOrKernel
    );
}

#[test]
fn an_activation_gives_up_its_cache() {
    let mut ctx = context_with(Program::TanH);
    let mut tanh = TanH::new_raw(3);
    let forward: Propagation<f32> =
        tanh.propagate(&mut ctx, &DeviceBuffer { id: 50, len: 6 }).unwrap();
    tanh.finish_propagate(&forward);
    let released: Vec<Command<f32>> = tanh.clean_up_gpu_state();
    assert_eq!(
        released,
        vec![
            Command::ReleaseBuffer { buffer: forward.last_inputs },
            Command::ReleaseBuffer { buffer: forward.outputs },
        ]
    );
    let again: Vec<Command<f32>> = tanh.clean_up_gpu_state();
    assert_eq!(again, vec![]);
    assert_eq!(tanh.get_last_outputs(), None);
}

#[test]
fn the_layer_without_a_copy_remembers_the_callers_buffer() {
    let mut ctx = ComputeContext::new(1);
    let (mut layer, plan) = TanHGPU::new::<f32>(&ctx).unwrap();
    assert_eq!(plan.compilation.len(), 3);
    for step in plan.compilation {
        ctx.completed(step);
    }
    let again: Initialization<f32> = layer.send_to_gpu(&ctx).unwrap();
    assert_eq!(again.compilation, vec![]);
    assert_eq!(layer.get_inputs_amount(), 0);
    assert_eq!(layer.get_outputs_amount(), 0);

    let inputs = DeviceBuffer { id: 50, len: 6 };
    let first: Propagation<f32> = layer.propagate(&mut ctx, &inputs).unwrap();
    let outputs = DeviceBuffer { id: 0, len: 6 };
    assert_eq!(first.last_inputs, inputs);
    assert_eq!(first.outputs, outputs);
    assert_eq!(
        first.commands,
        vec![
            Command::CreateBuffer { buffer: outputs, access: Access::ReadWrite },
            Command::Launch(Launch {
                program: Program::TanH,
                kernel: Kernel::Propagate,
                args: vec![KernelArg::Buffer(inputs), KernelArg::Buffer(outputs)],
                global_work_sizes: vec![6],
            }),
            Command::Finish,
        ]
    );
    assert_eq!(layer.finish_propagate(&first), vec![]);
    assert_eq!(layer.get_last_inputs(), Some(inputs));
    assert_eq!(layer.get_last_outputs(), Some(outputs));

    // Only its own outputs are freed, never the caller's inputs.
    let second: Propagation<f32> = layer.propagate(&mut ctx, &inputs).unwrap();
    assert_eq!(layer.finish_propagate(&second), vec![Command::ReleaseBuffer { buffer: outputs }]);
    let plan = layer.back_propagate(&mut ctx, true, &DeviceBuffer { id: 60, len: 6 }, 0.0_f32).unwrap();
    assert_eq!(plan.input_derivatives, Some(DeviceBuffer { id: 2, len: 6 }));
    let none: BackPropagation<f32> =
        layer.back_propagate(&mut ctx, false, &DeviceBuffer { id: 60, len: 6 }, 0.0).unwrap();
    assert_eq!(none.commands, vec![]);
    let released: Vec<Command<f32>> = layer.clean_up_gpu_state();
    assert_eq!(released, vec![Command::ReleaseBuffer { buffer: second.outputs }]);
    let again: Vec<Command<f32>> = layer.clean_up_gpu_state();
    assert_eq!(again, vec![]);
    assert_eq!(layer.get_last_inputs(), None);
}

#[test]
fn the_layer_without_a_copy_says_why_it_cannot() {
    let r: Result<(TanHGPU, Initialization<f32>), LayerError> =
        TanHGPU::new(&ComputeContext::new(0));
    assert_eq!(r.unwrap_err(), LayerError::NoCommandQueue);
    let (layer, _) = TanHGPU::new::<f32>(&ComputeContext::new(1)).unwrap();
    let inputs = DeviceBuffer { id: 50, len: 6 };
    let r: Result<Propagation<f32>, LayerError> = layer.propagate(&mut ComputeContext::new(1), &inputs);
    assert_eq!(r.unwrap_err(), LayerError::MissingProgramOrKernel);
    let r: Result<Propagation<f32>, LayerError> = layer.propagate(&mut ComputeContext::new(0), &inputs);
    assert_eq!(r.unwrap_err(), LayerError::NoCommandQueue);
    let r: Result<Propagation<f32>, LayerError> =
        layer.propagate(&mut context_with(Program::TanH), &DeviceBuffer { id: 5, len: 0 });
    assert_eq!(r.unwrap_err(), LayerError::AllocationError);
}
