use intricate::commands::Command;
use intricate::commands::KernelArg;
use intricate::commands::Launch;
use intricate::device::Access;
use intricate::device::Compilation;
use intricate::device::ComputeContext;
use intricate::device::DeviceBuffer;
use intricate::loss_functions::categorical_cross_entropy::CategoricalCrossEntropy;
use intricate::loss_functions::compile_losses;
use intricate::loss_functions::loss_computation_failed;
use intricate::loss_functions::mean_squared::MeanSquared;
use intricate::loss_functions::LossComputation;
use intricate::loss_functions::LossComputationError;
use intricate::loss_functions::LossDerivatives;
use intricate::loss_functions::LossFunction;
use intricate::loss_functions::LossToModelOutputsDerivativesComputationError;
use intricate::loss_functions::MEM_OBJECT_ALLOCATION_FAILURE;
use intricate::programs::Kernel;
use intricate::programs::Program;
use intricate::types::BufferOperationError;
use intricate::types::KernelNotFoundError;
use intricate::types::ModelLossFunction;
use intricate::types::ProgramNotFoundError;

fn ready_context() -> ComputeContext {
    let mut ctx = ComputeContext::new(1);
    for step in compile_losses(&ctx) {
        ctx.completed(step);
    }
    ctx
}

fn ready_loss(ctx: &ComputeContext) -> MeanSquared {
    let mut loss = MeanSquared::new_raw();
    LossFunction::<f32>::init(&mut loss, ctx);
    loss
}

fn loss_of(
    loss: &MeanSquared,
    ctx: &mut ComputeContext,
    outputs: usize,
    expected: usize,
    samples: usize,
) -> Result<LossComputation<f32>, LossComputationError> {
    loss.compute_loss(
        ctx,
        &DeviceBuffer { id: 70, len: outputs },
        &DeviceBuffer { id: 71, len: expected },
        samples,
    )
}

fn derivatives_of(
    loss: &MeanSquared,
    ctx: &mut ComputeContext,
    outputs: usize,
    expected: usize,
    samples: usize,
) -> Result<LossDerivatives<f32>, LossToModelOutputsDerivativesComputationError> {
    loss.compute_loss_derivative_with_respect_to_output_samples(
        ctx,
        &DeviceBuffer { id: 70, len: outputs },
        &DeviceBuffer { id: 71, len: expected },
        samples,
    )
}

#[test]
fn a_new_loss_is_not_initialized() {
    let mut ctx = ready_context();
    let loss = MeanSquared::new_raw();
    assert_eq!(loss_of(&loss, &mut ctx, 6, 6, 2).unwrap_err(), LossComputationError::NotInitialized);
    assert_eq!(
        derivatives_of(&loss, &mut ctx, 6, 6, 2).unwrap_err(),
        LossToModelOutputsDerivativesComputationError::NotInitialized
    );
    let wrapped = MeanSquared::new();
    assert!(matches!(wrapped, ModelLossFunction::MeanSquared(_)));
    let r: Result<LossComputation<f32>, LossComputationError> = wrapped.compute_loss(
        &mut ctx,
        &DeviceBuffer { id: 70, len: 6 },
        &DeviceBuffer { id: 71, len: 6 },
        2,
    );
    assert_eq!(r.unwrap_err(), LossComputationError::NotInitialized);
    // Not being initialized comes before everything else.
    assert_eq!(
        loss_of(&loss, &mut ComputeContext::new(0), 6, 5, 0).unwrap_err(),
        LossComputationError::NotInitialized
    );
}

#[test]
fn init_brings_the_program() {
    let ctx = ComputeContext::new(1);
    let mut loss = MeanSquared::new_raw();
    let steps = LossFunction::<f32>::init(&mut loss, &ctx);
    assert_eq!(
        steps,
        vec![
            Compilation::BuildProgram { program: Program::MeanSquared },
            Compilation::CreateKernel { program: Program::MeanSquared, kernel: Kernel::ComputeLoss },
            Compilation::CreateKernel {
                program: Program::MeanSquared,
                kernel: Kernel::ComputeLossToOutputDerivatives
            },
        ]
    );
    let mut other = CategoricalCrossEntropy::new();
    let steps = LossFunction::<f32>::init(&mut other, &ctx);
    assert_eq!(steps[0], Compilation::BuildProgram { program: Program::CategoricalCrossEntropy });
}

#[test]
fn compute_loss_plans_one_work_item_per_sample() {
    let mut ctx = ready_context();
    let loss = ready_loss(&ctx);
    let plan = loss_of(&loss, &mut ctx, 27 * 29, 27 * 29, 27).unwrap();
    let sample_losses = DeviceBuffer { id: 0, len: 27 };
    assert_eq!(plan.sample_losses, sample_losses);
    assert_eq!(plan.samples_amount, 27);
    assert_eq!(plan.outputs_amount, 29);
    assert_eq!(
        plan.commands,
        vec![
            Command::CreateBuffer { buffer: sample_losses, access: Access::ReadWrite },
            Command::Launch(Launch {
                program: Program::MeanSquared,
                kernel: Kernel::ComputeLoss,
                args: vec![
                    KernelArg::Buffer(DeviceBuffer { id: 70, len: 783 }),
                    KernelArg::Buffer(DeviceBuffer { id: 71, len: 783 }),
                    KernelArg::Buffer(sample_losses),
                    KernelArg::Int(29),
                    KernelArg::Int(27),
                ],
                global_work_sizes: vec![27],
            }),
            Command::Finish,
            Command::ReadBuffer { buffer: sample_losses },
            Command::ReleaseBuffer { buffer: sample_losses },
        ]
    );
}

#[test]
fn derivatives_plan_one_work_item_per_sample_and_output() {
    let mut ctx = ready_context();
    let loss = ready_loss(&ctx);
    let plan = derivatives_of(&loss, &mut ctx, 113 * 61, 113 * 61, 113).unwrap();
    let derivatives = DeviceBuffer { id: 0, len: 6893 };
    assert_eq!(plan.derivatives, derivatives);
    assert_eq!(
        plan.commands,
        vec![
            Command::CreateBuffer { buffer: derivatives, access: Access::ReadWrite },
            Command::Launch(Launch {
                program: Program::MeanSquared,
                kernel: Kernel::ComputeLossToOutputDerivatives,
                args: vec![
                    KernelArg::Buffer(DeviceBuffer { id: 70, len: 6893 }),
                    KernelArg::Buffer(DeviceBuffer { id: 71, len: 6893 }),
                    KernelArg::Buffer(derivatives),
                    KernelArg::Int(113),
                    KernelArg::Int(61),
                ],
                global_work_sizes: vec![113, 61],
            }),
            Command::Finish,
        ]
    );
}

#[test]
fn the_other_loss_runs_its_own_program() {
    let mut ctx = ready_context();
    let mut loss = CategoricalCrossEntropy::new_raw();
    LossFunction::<f32>::init(&mut loss, &ctx);
    let plan: LossComputation<f32> = loss
        .compute_loss(&mut ctx, &DeviceBuffer { id: 70, len: 6 }, &DeviceBuffer { id: 71, len: 6 }, 3)
        .unwrap();
    match &plan.commands[1] {
        Command::Launch(launch) => {
            assert_eq!(launch.program, Program::CategoricalCrossEntropy);
            assert_eq!(launch.kernel, Kernel::ComputeLoss);
            assert_eq!(launch.args[3], KernelArg::Int(2));
        }
        other => panic!("expected a launch, found {:?}", other),
    }
}

#[test]
fn buffers_of_different_sizes_are_refused() {
    let mut ctx = ready_context();
    let loss = ready_loss(&ctx);
    for (outputs, expected, samples) in
        [(6, 5, 1), (5, 6, 5), (6, 12, 6), (12, 6, 3), (1, 0, 1), (0, 1, 0), (7, 8, 0)]
    {
        assert_eq!(
            loss_of(&loss, &mut ctx, outputs, expected, samples).unwrap_err(),
            LossComputationError::OutputsAndExpectedOutputsDoNotMatch
        );
        assert_eq!(
            derivatives_of(&loss, &mut ctx, outputs, expected, samples).unwrap_err(),
            LossToModelOutputsDerivativesComputationError::OutputsAndExpectedOutputsDoNotMatch
        );
    }
    // Even when the device has compiled nothing.
    let mut bare = ComputeContext::new(1);
    assert_eq!(
        loss_of(&loss, &mut bare, 6, 5, 1).unwrap_err(),
        LossComputationError::OutputsAndExpectedOutputsDoNotMatch
    );
    // A refusal gives out no handle.
    assert_eq!(ctx.reserve_buffer(1), Some(DeviceBuffer { id: 0, len: 1 }));
}

#[test]
fn samples_have_to_divide_the_outputs() {
    let mut ctx = ready_context();
    let loss = ready_loss(&ctx);
    assert_eq!(
        loss_of(&loss, &mut ctx, 7, 7, 2).unwrap_err(),
        LossComputationError::TrainingDataDoesNotHaveExpectedSamplesAmount
    );
    assert_eq!(
        loss_of(&loss, &mut ctx, 6, 6, 0).unwrap_err(),
        LossComputationError::TrainingDataDoesNotHaveExpectedSamplesAmount
    );
    assert_eq!(
        loss_of(&loss, &mut ctx, 6, 6, 7).unwrap_err(),
        LossComputationError::TrainingDataDoesNotHaveExpectedSamplesAmount
    );
    assert_eq!(
        derivatives_of(&loss, &mut ctx, 7, 7, 2).unwrap_err(),
        LossToModelOutputsDerivativesComputationError::TrainingDataDoesNotHaveExpectedSamplesAmount
    );
    assert!(loss_of(&loss, &mut ctx, 6, 6, 6).is_ok());
    assert!(loss_of(&loss, &mut ctx, 6, 6, 1).is_ok());
}

#[test]
fn each_refusal_has_its_error() {
    let loss = ready_loss(&ComputeContext::new(1));
    assert_eq!(
        loss_of(&loss, &mut ComputeContext::new(0), 6, 6, 2).unwrap_err(),
        LossComputationError::NoCommandQueue
    );
    assert_eq!(
        derivatives_of(&loss, &mut ComputeContext::new(0), 6, 6, 2).unwrap_err(),
        LossToModelOutputsDerivativesComputationError::NoCommandQueue
    );
    // No buffer holds no values.
    let mut ctx = ready_context();
    assert_eq!(
        loss_of(&loss, &mut ctx, 0, 0, 1).unwrap_err(),
        LossComputationError::OpenCL(MEM_OBJECT_ALLOCATION_FAILURE)
    );
    assert_eq!(MEM_OBJECT_ALLOCATION_FAILURE, -4);
    assert_eq!(
        derivatives_of(&loss, &mut ctx, usize::MAX, usize::MAX, 1).unwrap_err(),
        LossToModelOutputsDerivativesComputationError::OpenCL(-4)
    );
    let mut bare = ComputeContext::new(1);
    assert_eq!(
        loss_of(&loss, &mut bare, 6, 6, 2).unwrap_err(),
        LossComputationError::ProgramNotFound(ProgramNotFoundError { program: Program::MeanSquared })
    );
    assert_eq!(
        derivatives_of(&loss, &mut bare, 6, 6, 2).unwrap_err(),
        LossToModelOutputsDerivativesComputationError::ProgramNotFound(ProgramNotFoundError {
            program: Program::MeanSquared
        })
    );
    bare.completed(Compilation::BuildProgram { program: Program::MeanSquared });
    bare.completed(Compilation::CreateKernel {
        program: Program::MeanSquared,
        kernel: Kernel::ComputeLoss,
    });
    assert!(loss_of(&loss, &mut bare, 6, 6, 2).is_ok());
    assert_eq!(
        derivatives_of(&loss, &mut bare, 6, 6, 2).unwrap_err(),
        LossToModelOutputsDerivativesComputationError::KernelNotFound(KernelNotFoundError {
            program: Program::MeanSquared,
            kernel: Kernel::ComputeLossToOutputDerivatives,
        })
    );
    let mut half = ComputeContext::new(1);
    half.completed(Compilation::BuildProgram { program: Program::MeanSquared });
    assert_eq!(
        loss_of(&loss, &mut half, 6, 6, 2).unwrap_err(),
        LossComputationError::KernelNotFound(KernelNotFoundError {
            program: Program::MeanSquared,
            kernel: Kernel::ComputeLoss,
        })
    );
}

#[test]
fn a_failure_of_the_device_is_told_apart() {
    let mut ctx = ready_context();
    let loss = ready_loss(&ctx);
    let plan = loss_of(&loss, &mut ctx, 6, 6, 2).unwrap();
    let release = vec![Command::ReleaseBuffer { buffer: plan.sample_losses }];

    let at_creation = loss_computation_failed(&plan, 0, -61);
    assert_eq!(at_creation.error, LossComputationError::OpenCL(-61));
    assert_eq!(at_creation.cleanup, vec![]);

    let at_launch = loss_computation_failed(&plan, 1, -54);
    assert_eq!(at_launch.error, LossComputationError::OpenCL(-54));
    assert_eq!(at_launch.cleanup, release);

    let at_readback = loss_computation_failed(&plan, 3, -5);
    assert_eq!(
        at_readback.error,
        LossComputationError::BufferOperation(BufferOperationError { code: -5 })
    );
    assert_eq!(at_readback.cleanup, release);

    let past_the_end = loss_computation_failed(&plan, 9, -5);
    assert_eq!(past_the_end.error, LossComputationError::OpenCL(-5));
    assert_eq!(past_the_end.cleanup, vec![]);
}
