use intricate::commands::cleanup_after_failure;
use intricate::commands::release_held;
use intricate::commands::Command;
use intricate::device::buffer_len_limit;
use intricate::device::is_valid_buffer_len;
use intricate::device::Access;
use intricate::device::Compilation;
use intricate::device::ComputeContext;
use intricate::device::DeviceBuffer;
use intricate::layers::dense::compile_dense;
use intricate::loss_functions::compile_losses;
use intricate::loss_functions::mean_squared::compile_mean_squared;
use intricate::programs::Kernel;
use intricate::programs::Program;

#[test]
fn programs_and_kernels_have_their_names() {
    assert_eq!(Program::DensePropagation.name(), "DENSE_PROPAGATION");
    assert_eq!(Program::DenseBackPropagation.name(), "DENSE_BACKPROPAGATION");
    assert_eq!(Program::MeanSquared.name(), "MEAN_SQUARED");
    assert_eq!(Program::CategoricalCrossEntropy.name(), "CATEGORICAL_CROSS_ENTROPY");
    assert_eq!(Program::TanH.name(), "TANH");
    assert_eq!(Program::ReLU.name(), "RELU");
    assert_eq!(Kernel::DensePropagate.name(), "dense_propagate");
    assert_eq!(Kernel::WeightsGradientApplication.name(), "weights_gradient_application");
    assert_eq!(Kernel::BiasGradientApplication.name(), "bias_gradient_application");
    assert_eq!(
        Kernel::ComputeLossDerivativeWithRespectToInputs.name(),
        "compute_loss_derivative_with_respect_to_inputs"
    );
    assert_eq!(Kernel::Propagate.name(), "propagate");
    assert_eq!(Kernel::BackPropagate.name(), "back_propagate");
    assert_eq!(Kernel::ComputeLoss.name(), "compute_loss");
    assert_eq!(
        Kernel::ComputeLossToOutputDerivatives.name(),
        "compute_loss_to_output_derivatives"
    );
}

#[test]
fn programs_declare_their_kernels() {
    assert_eq!(Program::DensePropagation.kernels(), vec![Kernel::DensePropagate]);
    assert_eq!(
        Program::DenseBackPropagation.kernels(),
        vec![
            Kernel::WeightsGradientApplication,
            Kernel::BiasGradientApplication,
            Kernel::ComputeLossDerivativeWithRespectToInputs,
        ]
    );
    assert_eq!(Program::TanH.kernels(), vec![Kernel::Propagate, Kernel::BackPropagate]);
    assert_eq!(Program::ReLU.kernels(), vec![Kernel::Propagate, Kernel::BackPropagate]);
    assert_eq!(
        Program::MeanSquared.kernels(),
        vec![Kernel::ComputeLoss, Kernel::ComputeLossToOutputDerivatives]
    );
}

#[test]
fn a_new_context_has_nothing() {
    let ctx = ComputeContext::new(3);
    assert_eq!(ctx.queues(), 3);
    assert!(!ctx.has_program(Program::TanH));
    assert!(!ctx.has_kernel(Program::TanH, Kernel::Propagate));
    assert!(ctx.has_buffers_left());
}

#[test]
fn buffers_get_handles_in_order() {
    let mut ctx = ComputeContext::new(1);
    assert_eq!(ctx.reserve_buffer(7), Some(DeviceBuffer { id: 0, len: 7 }));
    assert_eq!(ctx.reserve_buffer(1), Some(DeviceBuffer { id: 1, len: 1 }));
    assert_eq!(
        ctx.reserve_buffers(&vec![4, 5, 6]),
        Some(vec![
            DeviceBuffer { id: 2, len: 4 },
            DeviceBuffer { id: 3, len: 5 },
            DeviceBuffer { id: 4, len: 6 },
        ])
    );
    assert_eq!(ctx.reserve_buffer(2), Some(DeviceBuffer { id: 5, len: 2 }));
}

#[test]
fn impossible_buffers_get_no_handle() {
    let mut ctx = ComputeContext::new(1);
    assert_eq!(ctx.reserve_buffer(0), None);
    assert_eq!(ctx.reserve_buffer(buffer_len_limit() + 1), None);
    assert_eq!(ctx.reserve_buffers(&vec![4, 0, 6]), None);
    assert_eq!(ctx.reserve_buffers(&vec![4, usize::MAX]), None);
    // A refusal gives out nothing.
    assert_eq!(ctx.reserve_buffer(3), Some(DeviceBuffer { id: 0, len: 3 }));
    assert_eq!(ctx.reserve_buffers(&vec![]), Some(vec![]));
    assert_eq!(
        ctx.reserve_buffer(buffer_len_limit()),
        Some(DeviceBuffer { id: 1, len: buffer_len_limit() })
    );
}

#[test]
fn the_limit_is_what_a_kernel_can_count() {
    assert_eq!(buffer_len_limit(), std::cmp::min(usize::MAX / 4, i32::MAX as usize));
    assert!(is_valid_buffer_len(1));
    assert!(!is_valid_buffer_len(0));
    assert!(DeviceBuffer { id: 0, len: 1 }.is_valid());
    assert!(!DeviceBuffer { id: 0, len: 0 }.is_valid());
    assert!(!DeviceBuffer { id: 0, len: buffer_len_limit() + 1 }.is_valid());
}

#[test]
fn a_program_is_compiled_once() {
    let mut ctx = ComputeContext::new(1);
    let steps = compile_dense(&ctx);
    assert_eq!(
        steps,
        vec![
            Compilation::BuildProgram { program: Program::DensePropagation },
            Compilation::CreateKernel {
                program: Program::DensePropagation,
                kernel: Kernel::DensePropagate,
            },
            Compilation::BuildProgram { program: Program::DenseBackPropagation },
            Compilation::CreateKernel {
                program: Program::DenseBackPropagation,
                kernel: Kernel::WeightsGradientApplication,
            },
            Compilation::CreateKernel {
                program: Program::DenseBackPropagation,
                kernel: Kernel::BiasGradientApplication,
            },
            Compilation::CreateKernel {
                program: Program::DenseBackPropagation,
                kernel: Kernel::ComputeLossDerivativeWithRespectToInputs,
            },
        ]
    );
    for step in steps {
        ctx.completed(step);
    }
    assert!(ctx.has_program(Program::DensePropagation));
    assert!(ctx.has_kernel(Program::DenseBackPropagation, Kernel::BiasGradientApplication));
    assert!(!ctx.has_kernel(Program::DensePropagation, Kernel::BiasGradientApplication));
    assert_eq!(compile_dense(&ctx), vec![]);
}

#[test]
fn only_what_is_missing_is_compiled() {
    let mut ctx = ComputeContext::new(1);
    ctx.completed(Compilation::BuildProgram { program: Program::MeanSquared });
    ctx.completed(Compilation::CreateKernel {
        program: Program::MeanSquared,
        kernel: Kernel::ComputeLossToOutputDerivatives,
    });
    assert_eq!(
        compile_mean_squared(&ctx),
        vec![Compilation::CreateKernel {
            program: Program::MeanSquared,
            kernel: Kernel::ComputeLoss
        }]
    );
    let steps = compile_losses(&ctx);
    assert_eq!(steps.len(), 4);
    assert_eq!(
        steps[1],
        Compilation::BuildProgram { program: Program::CategoricalCrossEntropy }
    );
    assert_eq!(
        ctx.ensure_program(Program::TanH, &vec![Kernel::BackPropagate]),
        vec![
            Compilation::BuildProgram { program: Program::TanH },
            Compilation::CreateKernel { program: Program::TanH, kernel: Kernel::BackPropagate },
        ]
    );
}

#[test]
fn cleanup_frees_what_was_created_and_not_freed() {
    let a = DeviceBuffer { id: 1, len: 2 };
    let b = DeviceBuffer { id: 2, len: 3 };
    let c = DeviceBuffer { id: 3, len: 4 };
    let plan: Vec<Command<u32>> = vec![
        Command::CreateBuffer { buffer: a, access: Access::ReadOnly },
        Command::CreateBuffer { buffer: b, access: Access::ReadWrite },
        Command::Finish,
        Command::ReleaseBuffer { buffer: a },
        Command::CreateBuffer { buffer: c, access: Access::ReadWrite },
        Command::ReadBuffer { buffer: c },
    ];
    assert_eq!(cleanup_after_failure(&plan, 0), vec![]);
    assert_eq!(cleanup_after_failure(&plan, 1), vec![Command::ReleaseBuffer { buffer: a }]);
    assert_eq!(
        cleanup_after_failure(&plan, 3),
        vec![Command::ReleaseBuffer { buffer: a }, Command::ReleaseBuffer { buffer: b }]
    );
    assert_eq!(cleanup_after_failure(&plan, 4), vec![Command::ReleaseBuffer { buffer: b }]);
    assert_eq!(
        cleanup_after_failure(&plan, 5),
        vec![Command::ReleaseBuffer { buffer: b }, Command::ReleaseBuffer { buffer: c }]
    );
    // Past the end, the whole plan was carried out.
    assert_eq!(cleanup_after_failure(&plan, 60), cleanup_after_failure(&plan, 6));
}

#[test]
fn held_buffers_are_released_in_order() {
    let a = DeviceBuffer { id: 1, len: 2 };
    let b = DeviceBuffer { id: 2, len: 3 };
    let released: Vec<Command<u32>> = release_held(&vec![Some(a), None, Some(b)]);
    assert_eq!(
        released,
        vec![Command::ReleaseBuffer { buffer: a }, Command::ReleaseBuffer { buffer: b }]
    );
    let nothing: Vec<Command<u32>> = release_held(&vec![None, None]);
    assert_eq!(nothing, vec![]);
}
