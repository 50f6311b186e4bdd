//! Loss functions: they measure how far a model's outputs are from the
//! expected outputs and give the derivative of that measure with respect to
//! each output.

pub mod categorical_cross_entropy;
pub mod mean_squared;

use crate::commands::carried_out;
use crate::commands::cleanup_after_failure;
use crate::commands::launch;
use crate::commands::lemma_outstanding_push;
use crate::commands::without;
use crate::commands::outstanding;
use crate::commands::plan_of;
use crate::commands::releases;
use crate::commands::Command;
use crate::commands::CommandView;
use crate::commands::KernelArg;
use crate::commands::LaunchView;
use crate::device::after_reserving;
use crate::device::is_valid_buffer_len;
use crate::device::missing_steps;
use crate::device::valid_buffer_len;
use crate::device::Access;
use crate::device::Compilation;
use crate::device::ComputeContext;
use crate::device::ContextView;
use crate::device::DeviceBuffer;
use crate::loss_functions::categorical_cross_entropy::compile_categorical_cross_entropy;
use crate::loss_functions::mean_squared::compile_mean_squared;
use crate::programs::Kernel;
use crate::programs::Program;
use crate::types::BufferOperationError;
use crate::types::KernelNotFoundError;
use crate::types::ProgramNotFoundError;
use vstd::prelude::*;

verus! {

/// The device's code for a buffer that it cannot allocate.
pub const MEM_OBJECT_ALLOCATION_FAILURE: i32 = -4;

/// The steps that bring the programs of all loss functions onto the
/// device: those that the context's registry still lacks, the mean squared
/// loss first.
pub fn compile_losses(opencl_state: &ComputeContext) -> (steps: Vec<Compilation>)
    ensures
        steps@ == missing_steps(
            opencl_state@,
            Program::MeanSquared,
            Program::MeanSquared.spec_kernels(),
        ) + missing_steps(
            opencl_state@,
            Program::CategoricalCrossEntropy,
            Program::CategoricalCrossEntropy.spec_kernels(),
        ),
{
    let mut steps = compile_mean_squared(opencl_state);
    let mut more = compile_categorical_cross_entropy(opencl_state);
    steps.append(&mut more);
    steps
}

/// Why the loss of a model's outputs could not be computed.
#[derive(Clone, Copy, Debug, PartialEq, Eq, Structural)]
pub enum LossComputationError {
    /// The loss function was not initialized.
    NotInitialized,
    /// The compute context has no command queue.
    NoCommandQueue,
    /// The device failed, with the given error code.
    OpenCL(i32),
    /// The expected outputs and the actual outputs differ in size.
    OutputsAndExpectedOutputsDoNotMatch,
    /// The outputs do not divide into the given number of samples.
    TrainingDataDoesNotHaveExpectedSamplesAmount,
    /// The device has not created a kernel that the function needs.
    KernelNotFound(KernelNotFoundError),
    /// The device has not compiled the program that the function needs.
    ProgramNotFound(ProgramNotFoundError),
    /// Summing up the losses of the samples failed.
    BufferOperation(BufferOperationError),
}

/// Why the derivative of the loss with respect to a model's outputs could
/// not be computed.
#[derive(Clone, Copy, Debug, PartialEq, Eq, Structural)]
pub enum LossToModelOutputsDerivativesComputationError {
    /// The loss function was not initialized.
    NotInitialized,
    /// The compute context has no command queue.
    NoCommandQueue,
    /// The device failed, with the given error code.
    OpenCL(i32),
    /// The expected outputs and the actual outputs differ in size.
    OutputsAndExpectedOutputsDoNotMatch,
    /// The outputs do not divide into the given number of samples.
    TrainingDataDoesNotHaveExpectedSamplesAmount,
    /// The device has not created a kernel that the function needs.
    KernelNotFound(KernelNotFoundError),
    /// The device has not compiled the program that the function needs.
    ProgramNotFound(ProgramNotFoundError),
    /// An operation on a whole buffer failed.
    BufferOperation(BufferOperationError),
}

/// Why a loss function refuses a request before anything reaches the
/// device.
#[derive(Clone, Copy, Debug, PartialEq, Eq, Structural)]
pub enum Refusal {
    NotInitialized,
    NoCommandQueue,
    OutputsAndExpectedOutputsDoNotMatch,
    TrainingDataDoesNotHaveExpectedSamplesAmount,
    Allocation,
    ProgramNotFound,
    KernelNotFound,
}

/// Why a loss function refuses a request, if it does. The checks come in
/// this order: the function is initialized; the context has a queue; both
/// buffers hold equally many values; these divide into `samples_amount`
/// samples, of which there is at least one; the buffers involved, the one
/// for the `result_len` results included, can exist; the device has the
/// program; the device has the kernel.
pub open spec fn refusal(
    initialized: bool,
    ctx: ContextView,
    program: Program,
    kernel: Kernel,
    output_samples: DeviceBuffer,
    expected_outputs: DeviceBuffer,
    samples_amount: usize,
    result_len: int,
) -> Option<Refusal> {
    if !initialized {
        Some(Refusal::NotInitialized)
    } else if ctx.queues == 0 {
        Some(Refusal::NoCommandQueue)
    } else if output_samples.len != expected_outputs.len {
        Some(Refusal::OutputsAndExpectedOutputsDoNotMatch)
    } else if samples_amount == 0 || output_samples.len as int % samples_amount as int != 0 {
        Some(Refusal::TrainingDataDoesNotHaveExpectedSamplesAmount)
    } else if !valid_buffer_len(output_samples.len as int) || !valid_buffer_len(result_len)
        || ctx.next_buffer + 1 > u64::MAX {
        Some(Refusal::Allocation)
    } else if !ctx.programs.contains(program) {
        Some(Refusal::ProgramNotFound)
    } else if !ctx.kernels.contains((program, kernel)) {
        Some(Refusal::KernelNotFound)
    } else {
        None
    }
}

/// The error with which the computation of a loss reports `why`.
pub open spec fn loss_error(why: Refusal, program: Program, kernel: Kernel)
    -> LossComputationError {
    match why {
        Refusal::NotInitialized => LossComputationError::NotInitialized,
        Refusal::NoCommandQueue => LossComputationError::NoCommandQueue,
        Refusal::OutputsAndExpectedOutputsDoNotMatch =>
            LossComputationError::OutputsAndExpectedOutputsDoNotMatch,
        Refusal::TrainingDataDoesNotHaveExpectedSamplesAmount =>
            LossComputationError::TrainingDataDoesNotHaveExpectedSamplesAmount,
        Refusal::Allocation => LossComputationError::OpenCL(MEM_OBJECT_ALLOCATION_FAILURE),
        Refusal::ProgramNotFound => LossComputationError::ProgramNotFound(
            ProgramNotFoundError { program },
        ),
        Refusal::KernelNotFound => LossComputationError::KernelNotFound(
            KernelNotFoundError { program, kernel },
        ),
    }
}

/// The error with which the computation of a loss's derivatives reports
/// `why`.
pub open spec fn derivatives_error(why: Refusal, program: Program, kernel: Kernel)
    -> LossToModelOutputsDerivativesComputationError {
    match why {
        Refusal::NotInitialized => LossToModelOutputsDerivativesComputationError::NotInitialized,
        Refusal::NoCommandQueue => LossToModelOutputsDerivativesComputationError::NoCommandQueue,
        Refusal::OutputsAndExpectedOutputsDoNotMatch =>
            LossToModelOutputsDerivativesComputationError::OutputsAndExpectedOutputsDoNotMatch,
        Refusal::TrainingDataDoesNotHaveExpectedSamplesAmount =>
            LossToModelOutputsDerivativesComputationError::TrainingDataDoesNotHaveExpectedSamplesAmount,
        Refusal::Allocation => LossToModelOutputsDerivativesComputationError::OpenCL(
            MEM_OBJECT_ALLOCATION_FAILURE,
        ),
        Refusal::ProgramNotFound => LossToModelOutputsDerivativesComputationError::ProgramNotFound(
            ProgramNotFoundError { program },
        ),
        Refusal::KernelNotFound => LossToModelOutputsDerivativesComputationError::KernelNotFound(
            KernelNotFoundError { program, kernel },
        ),
    }
}

/// What the computation of a loss asks of the device: one work item per
/// sample writes the sample's loss into `sample_losses`, which is then read
/// back to be summed up, and freed.
pub open spec fn loss_commands<T>(
    program: Program,
    output_samples: DeviceBuffer,
    expected_outputs: DeviceBuffer,
    sample_losses: DeviceBuffer,
    samples_amount: usize,
) -> Seq<CommandView<T>> {
    seq![
        CommandView::CreateBuffer { buffer: sample_losses, access: Access::ReadWrite },
        CommandView::Launch(
            LaunchView {
                program,
                kernel: Kernel::ComputeLoss,
                args: seq![
                    KernelArg::Buffer(output_samples),
                    KernelArg::Buffer(expected_outputs),
                    KernelArg::Buffer(sample_losses),
                    KernelArg::Int((output_samples.len as int / samples_amount as int) as i32),
                    KernelArg::Int(samples_amount as i32),
                ],
                global_work_sizes: seq![samples_amount],
            },
        ),
        CommandView::Finish,
        CommandView::ReadBuffer { buffer: sample_losses },
        CommandView::ReleaseBuffer { buffer: sample_losses },
    ]
}

/// What the computation of a loss's derivatives asks of the device: one
/// work item per sample and output writes into `derivatives`.
pub open spec fn derivatives_commands<T>(
    program: Program,
    output_samples: DeviceBuffer,
    expected_outputs: DeviceBuffer,
    derivatives: DeviceBuffer,
    samples_amount: usize,
) -> Seq<CommandView<T>> {
    let outputs_amount = output_samples.len as int / samples_amount as int;
    seq![
        CommandView::CreateBuffer { buffer: derivatives, access: Access::ReadWrite },
        CommandView::Launch(
            LaunchView {
                program,
                kernel: Kernel::ComputeLossToOutputDerivatives,
                args: seq![
                    KernelArg::Buffer(output_samples),
                    KernelArg::Buffer(expected_outputs),
                    KernelArg::Buffer(derivatives),
                    KernelArg::Int(samples_amount as i32),
                    KernelArg::Int(outputs_amount as i32),
                ],
                global_work_sizes: seq![samples_amount, outputs_amount as usize],
            },
        ),
        CommandView::Finish,
    ]
}

/// What a loss function asks of the device to compute a loss. The loss is
/// the sum of what is read from `sample_losses`, divided by
/// `outputs_amount` and by `samples_amount`.
#[derive(Debug, PartialEq)]
pub struct LossComputation<T> {
    /// The commands to carry out, in order.
    pub commands: Vec<Command<T>>,
    /// The buffer that holds the loss of each sample until it is read.
    pub sample_losses: DeviceBuffer,
    /// The number of outputs of each sample.
    pub outputs_amount: usize,
    /// The number of samples.
    pub samples_amount: usize,
}

/// What a loss function asks of the device to compute the derivative of
/// the loss with respect to each output.
#[derive(Debug, PartialEq)]
pub struct LossDerivatives<T> {
    /// The commands to carry out, in order.
    pub commands: Vec<Command<T>>,
    /// The buffer that then holds the derivatives; it is the caller's.
    pub derivatives: DeviceBuffer,
}

/// What follows when the device fails while a loss is computed.
#[derive(Debug, PartialEq)]
pub struct LossFailure<T> {
    /// The commands that free what the failed plan had created.
    pub cleanup: Vec<Command<T>>,
    /// The error to hand to the caller.
    pub error: LossComputationError,
}

/// The base of every loss function.
pub trait LossFunction<T> {
    /// Whether `init` has bound the function to a compute context.
    spec fn is_initialized(&self) -> bool;

    /// The device program that computes the function.
    spec fn program(&self) -> Program;

    /// Binds the function to the compute context. The steps bring its
    /// program onto the device where the registry lacks it.
    fn init(&mut self, ctx: &ComputeContext) -> (steps: Vec<Compilation>)
        ensures
            final(self).is_initialized(),
            final(self).program() == old(self).program(),
            steps@ == missing_steps(
                ctx@,
                old(self).program(),
                old(self).program().spec_kernels(),
            ),
    ;

    /// Plans the computation of the loss between `output_samples` and
    /// `expected_outputs`, which hold `samples_amount` samples each.
    fn compute_loss(
        &self,
        ctx: &mut ComputeContext,
        output_samples: &DeviceBuffer,
        expected_outputs: &DeviceBuffer,
        samples_amount: usize,
    ) -> (r: Result<LossComputation<T>, LossComputationError>)
        ensures
            match r {
                Ok(plan) => {
                    &&& refusal(
                        self.is_initialized(),
                        old(ctx)@,
                        self.program(),
                        Kernel::ComputeLoss,
                        *output_samples,
                        *expected_outputs,
                        samples_amount,
                        samples_amount as int,
                    ) is None
                    &&& plan.sample_losses == (DeviceBuffer {
                        id: old(ctx)@.next_buffer as u64,
                        len: samples_amount,
                    })
                    &&& plan.samples_amount == samples_amount
                    &&& plan.outputs_amount == output_samples.len as int / samples_amount as int
                    &&& plan_of(plan.commands@) == loss_commands::<T>(
                        self.program(),
                        *output_samples,
                        *expected_outputs,
                        plan.sample_losses,
                        samples_amount,
                    )
                    &&& final(ctx)@ == after_reserving(old(ctx)@, 1)
                },
                Err(e) => {
                    &&& refusal(
                        self.is_initialized(),
                        old(ctx)@,
                        self.program(),
                        Kernel::ComputeLoss,
                        *output_samples,
                        *expected_outputs,
                        samples_amount,
                        samples_amount as int,
                    ) matches Some(why)
                    &&& e == loss_error(why, self.program(), Kernel::ComputeLoss)
                    &&& final(ctx)@ == old(ctx)@
                },
            },
    ;

    /// Plans the computation of the derivative of the loss with respect to
    /// each value of `output_samples`.
    fn compute_loss_derivative_with_respect_to_output_samples(
        &self,
        ctx: &mut ComputeContext,
        output_samples: &DeviceBuffer,
        expected_outputs: &DeviceBuffer,
        samples_amount: usize,
    ) -> (r: Result<LossDerivatives<T>, LossToModelOutputsDerivativesComputationError>)
        ensures
            match r {
                Ok(plan) => {
                    &&& refusal(
                        self.is_initialized(),
                        old(ctx)@,
                        self.program(),
                        Kernel::ComputeLossToOutputDerivatives,
                        *output_samples,
                        *expected_outputs,
                        samples_amount,
                        output_samples.len as int,
                    ) is None
                    &&& plan.derivatives == (DeviceBuffer {
                        id: old(ctx)@.next_buffer as u64,
                        len: output_samples.len,
                    })
                    &&& plan_of(plan.commands@) == derivatives_commands::<T>(
                        self.program(),
                        *output_samples,
                        *expected_outputs,
                        plan.derivatives,
                        samples_amount,
                    )
                    &&& final(ctx)@ == after_reserving(old(ctx)@, 1)
                },
                Err(e) => {
                    &&& refusal(
                        self.is_initialized(),
                        old(ctx)@,
                        self.program(),
                        Kernel::ComputeLossToOutputDerivatives,
                        *output_samples,
                        *expected_outputs,
                        samples_amount,
                        output_samples.len as int,
                    ) matches Some(why)
                    &&& e == derivatives_error(
                        why,
                        self.program(),
                        Kernel::ComputeLossToOutputDerivatives,
                    )
                    &&& final(ctx)@ == old(ctx)@
                },
            },
    ;
}

/// Screens a request to a loss function and, unless it is refused, reserves
/// the buffer for the `result_len` results.
pub(crate) fn screen(
    initialized: bool,
    ctx: &mut ComputeContext,
    program: Program,
    kernel: Kernel,
    output_samples: &DeviceBuffer,
    expected_outputs: &DeviceBuffer,
    samples_amount: usize,
    result_len: usize,
) -> (r: Result<DeviceBuffer, Refusal>)
    ensures
        match r {
            Ok(buffer) => {
                &&& refusal(
                    initialized,
                    old(ctx)@,
                    program,
                    kernel,
                    *output_samples,
                    *expected_outputs,
                    samples_amount,
                    result_len as int,
                ) is None
                &&& buffer == (DeviceBuffer { id: old(ctx)@.next_buffer as u64, len: result_len })
                &&& final(ctx)@ == after_reserving(old(ctx)@, 1)
            },
            Err(why) => {
                &&& refusal(
                    initialized,
                    old(ctx)@,
                    program,
                    kernel,
                    *output_samples,
                    *expected_outputs,
                    samples_amount,
                    result_len as int,
                ) == Some(why)
                &&& final(ctx)@ == old(ctx)@
            },
        },
{
    if !initialized {
        return Err(Refusal::NotInitialized);
    }
    if ctx.queues() == 0 {
        return Err(Refusal::NoCommandQueue);
    }
    if output_samples.len != expected_outputs.len {
        return Err(Refusal::OutputsAndExpectedOutputsDoNotMatch);
    }
    if samples_amount == 0 || output_samples.len % samples_amount != 0 {
        return Err(Refusal::TrainingDataDoesNotHaveExpectedSamplesAmount);
    }
    if !output_samples.is_valid() || !is_valid_buffer_len(result_len) || !ctx.has_buffers_left() {
        return Err(Refusal::Allocation);
    }
    if !ctx.has_program(program) {
        return Err(Refusal::ProgramNotFound);
    }
    if !ctx.has_kernel(program, kernel) {
        return Err(Refusal::KernelNotFound);
    }
    match ctx.reserve_buffer(result_len) {
        Some(buffer) => Ok(buffer),
        None => Err(Refusal::Allocation),
    }
}

/// The error with which the computation of a loss reports `why`.
pub(crate) fn to_loss_error(why: Refusal, program: Program, kernel: Kernel) -> (e:
    LossComputationError)
    ensures
        e == loss_error(why, program, kernel),
{
    match why {
        Refusal::NotInitialized => LossComputationError::NotInitialized,
        Refusal::NoCommandQueue => LossComputationError::NoCommandQueue,
        Refusal::OutputsAndExpectedOutputsDoNotMatch =>
            LossComputationError::OutputsAndExpectedOutputsDoNotMatch,
        Refusal::TrainingDataDoesNotHaveExpectedSamplesAmount =>
            LossComputationError::TrainingDataDoesNotHaveExpectedSamplesAmount,
        Refusal::Allocation => LossComputationError::OpenCL(MEM_OBJECT_ALLOCATION_FAILURE),
        Refusal::ProgramNotFound => LossComputationError::ProgramNotFound(
            ProgramNotFoundError { program },
        ),
        Refusal::KernelNotFound => LossComputationError::KernelNotFound(
            KernelNotFoundError { program, kernel },
        ),
    }
}

/// The error with which the computation of a loss's derivatives reports
/// `why`.
pub(crate) fn to_derivatives_error(why: Refusal, program: Program, kernel: Kernel) -> (e:
    LossToModelOutputsDerivativesComputationError)
    ensures
        e == derivatives_error(why, program, kernel),
{
    match why {
        Refusal::NotInitialized => LossToModelOutputsDerivativesComputationError::NotInitialized,
        Refusal::NoCommandQueue => LossToModelOutputsDerivativesComputationError::NoCommandQueue,
        Refusal::OutputsAndExpectedOutputsDoNotMatch =>
            LossToModelOutputsDerivativesComputationError::OutputsAndExpectedOutputsDoNotMatch,
        Refusal::TrainingDataDoesNotHaveExpectedSamplesAmount =>
            LossToModelOutputsDerivativesComputationError::TrainingDataDoesNotHaveExpectedSamplesAmount,
        Refusal::Allocation => LossToModelOutputsDerivativesComputationError::OpenCL(
            MEM_OBJECT_ALLOCATION_FAILURE,
        ),
        Refusal::ProgramNotFound => LossToModelOutputsDerivativesComputationError::ProgramNotFound(
            ProgramNotFoundError { program },
        ),
        Refusal::KernelNotFound => LossToModelOutputsDerivativesComputationError::KernelNotFound(
            KernelNotFoundError { program, kernel },
        ),
    }
}

/// Plans the computation of the loss that `program` computes.
pub(crate) fn plan_loss<T>(
    initialized: bool,
    program: Program,
    ctx: &mut ComputeContext,
    output_samples: &DeviceBuffer,
    expected_outputs: &DeviceBuffer,
    samples_amount: usize,
) -> (r: Result<LossComputation<T>, LossComputationError>)
    ensures
        match r {
            Ok(plan) => {
                &&& refusal(
                    initialized,
                    old(ctx)@,
                    program,
                    Kernel::ComputeLoss,
                    *output_samples,
                    *expected_outputs,
                    samples_amount,
                    samples_amount as int,
                ) is None
                &&& plan.sample_losses == (DeviceBuffer {
                    id: old(ctx)@.next_buffer as u64,
                    len: samples_amount,
                })
                &&& plan.samples_amount == samples_amount
                &&& plan.outputs_amount == output_samples.len as int / samples_amount as int
                &&& plan_of(plan.commands@) == loss_commands::<T>(
                    program,
                    *output_samples,
                    *expected_outputs,
                    plan.sample_losses,
                    samples_amount,
                )
                &&& final(ctx)@ == after_reserving(old(ctx)@, 1)
            },
            Err(e) => {
                &&& refusal(
                    initialized,
                    old(ctx)@,
                    program,
                    Kernel::ComputeLoss,
                    *output_samples,
                    *expected_outputs,
                    samples_amount,
                    samples_amount as int,
                ) matches Some(why)
                &&& e == loss_error(why, program, Kernel::ComputeLoss)
                &&& final(ctx)@ == old(ctx)@
            },
        },
{
    let sample_losses = match screen(
        initialized,
        ctx,
        program,
        Kernel::ComputeLoss,
        output_samples,
        expected_outputs,
        samples_amount,
        samples_amount,
    ) {
        Ok(buffer) => buffer,
        Err(why) => {
            return Err(to_loss_error(why, program, Kernel::ComputeLoss));
        },
    };
    let outputs_amount: usize = output_samples.len / samples_amount;
    proof {
        assert(0 <= output_samples.len as int / samples_amount as int <= output_samples.len)
            by (nonlinear_arith)
            requires
                1 <= samples_amount,
                0 <= output_samples.len,
        ;
    }
    let mut args: Vec<KernelArg<T>> = Vec::new();
    args.push(KernelArg::Buffer(*output_samples));
    args.push(KernelArg::Buffer(*expected_outputs));
    args.push(KernelArg::Buffer(sample_losses));
    args.push(KernelArg::Int(outputs_amount as i32));
    args.push(KernelArg::Int(samples_amount as i32));
    let mut sizes: Vec<usize> = Vec::new();
    sizes.push(samples_amount);
    let mut commands: Vec<Command<T>> = Vec::new();
    commands.push(Command::CreateBuffer { buffer: sample_losses, access: Access::ReadWrite });
    commands.push(launch(program, Kernel::ComputeLoss, args, sizes));
    commands.push(Command::Finish);
    commands.push(Command::ReadBuffer { buffer: sample_losses });
    commands.push(Command::ReleaseBuffer { buffer: sample_losses });
    proof {
        let want = loss_commands::<T>(
            program,
            *output_samples,
            *expected_outputs,
            sample_losses,
            samples_amount,
        );
        assert(args@ =~= want[1]->Launch_0.args);
        assert(sizes@ =~= want[1]->Launch_0.global_work_sizes);
        assert(plan_of(commands@) =~= want);
    }
    Ok(LossComputation { commands, sample_losses, outputs_amount, samples_amount })
}

/// Plans the computation of the derivatives of the loss that `program`
/// computes.
pub(crate) fn plan_derivatives<T>(
    initialized: bool,
    program: Program,
    ctx: &mut ComputeContext,
    output_samples: &DeviceBuffer,
    expected_outputs: &DeviceBuffer,
    samples_amount: usize,
) -> (r: Result<LossDerivatives<T>, LossToModelOutputsDerivativesComputationError>)
    ensures
        match r {
            Ok(plan) => {
                &&& refusal(
                    initialized,
                    old(ctx)@,
                    program,
                    Kernel::ComputeLossToOutputDerivatives,
                    *output_samples,
                    *expected_outputs,
                    samples_amount,
                    output_samples.len as int,
                ) is None
                &&& plan.derivatives == (DeviceBuffer {
                    id: old(ctx)@.next_buffer as u64,
                    len: output_samples.len,
                })
                &&& plan_of(plan.commands@) == derivatives_commands::<T>(
                    program,
                    *output_samples,
                    *expected_outputs,
                    plan.derivatives,
                    samples_amount,
                )
                &&& final(ctx)@ == after_reserving(old(ctx)@, 1)
            },
            Err(e) => {
                &&& refusal(
                    initialized,
                    old(ctx)@,
                    program,
                    Kernel::ComputeLossToOutputDerivatives,
                    *output_samples,
                    *expected_outputs,
                    samples_amount,
                    output_samples.len as int,
                ) matches Some(why)
                &&& e == derivatives_error(why, program, Kernel::ComputeLossToOutputDerivatives)
                &&& final(ctx)@ == old(ctx)@
            },
        },
{
    let derivatives = match screen(
        initialized,
        ctx,
        program,
        Kernel::ComputeLossToOutputDerivatives,
        output_samples,
        expected_outputs,
        samples_amount,
        output_samples.len,
    ) {
        Ok(buffer) => buffer,
        Err(why) => {
            return Err(
                to_derivatives_error(why, program, Kernel::ComputeLossToOutputDerivatives),
            );
        },
    };
    let outputs_amount: usize = output_samples.len / samples_amount;
    proof {
        assert(0 <= output_samples.len as int / samples_amount as int <= output_samples.len)
            by (nonlinear_arith)
            requires
                1 <= samples_amount,
                0 <= output_samples.len,
        ;
    }
    let mut args: Vec<KernelArg<T>> = Vec::new();
    args.push(KernelArg::Buffer(*output_samples));
    args.push(KernelArg::Buffer(*expected_outputs));
    args.push(KernelArg::Buffer(derivatives));
    args.push(KernelArg::Int(samples_amount as i32));
    args.push(KernelArg::Int(outputs_amount as i32));
    let mut sizes: Vec<usize> = Vec::new();
    sizes.push(samples_amount);
    sizes.push(outputs_amount);
    let mut commands: Vec<Command<T>> = Vec::new();
    commands.push(Command::CreateBuffer { buffer: derivatives, access: Access::ReadWrite });
    commands.push(launch(program, Kernel::ComputeLossToOutputDerivatives, args, sizes));
    commands.push(Command::Finish);
    proof {
        let want = derivatives_commands::<T>(
            program,
            *output_samples,
            *expected_outputs,
            derivatives,
            samples_amount,
        );
        assert(args@ =~= want[1]->Launch_0.args);
        assert(sizes@ =~= want[1]->Launch_0.global_work_sizes);
        assert(plan_of(commands@) =~= want);
    }
    Ok(LossDerivatives { commands, derivatives })
}

/// The device failed with `code` at command `done` of the plan of a loss,
/// after it had carried out the commands before it. What the plan had
/// created is freed. A failure to read the losses of the samples back is a
/// failed buffer operation; any other is the device's error as it is.
pub fn loss_computation_failed<T>(plan: &LossComputation<T>, done: usize, code: i32) -> (failure:
    LossFailure<T>)
    ensures
        plan_of(failure.cleanup@) == releases::<T>(
            outstanding(carried_out(plan_of(plan.commands@), done as int)),
        ),
        failure.error == if done < plan.commands@.len() && plan_of(
            plan.commands@,
        )[done as int] is ReadBuffer {
            LossComputationError::BufferOperation(BufferOperationError { code })
        } else {
            LossComputationError::OpenCL(code)
        },
{
    let reading = done < plan.commands.len() && match &plan.commands[done] {
        Command::ReadBuffer { .. } => true,
        _ => false,
    };
    let error = if reading {
        LossComputationError::BufferOperation(BufferOperationError { code })
    } else {
        LossComputationError::OpenCL(code)
    };
    LossFailure { cleanup: cleanup_after_failure(&plan.commands, done), error }
}

/// The computation of a loss leaves nothing behind: the one buffer that its
/// plan creates, the plan frees. Until it does, that buffer is what is to
/// be freed if the device fails.
pub proof fn lemma_loss_leaves_nothing_behind<T>(
    program: Program,
    output_samples: DeviceBuffer,
    expected_outputs: DeviceBuffer,
    sample_losses: DeviceBuffer,
    samples_amount: usize,
)
    ensures
        ({
            let plan = loss_commands::<T>(
                program,
                output_samples,
                expected_outputs,
                sample_losses,
                samples_amount,
            );
            &&& outstanding(plan) == Seq::<DeviceBuffer>::empty()
            &&& forall|done: int| 1 <= done <= 4 ==> outstanding(#[trigger] plan.take(done)) == seq![
                sample_losses,
            ]
        }),
{
    let plan = loss_commands::<T>(
        program,
        output_samples,
        expected_outputs,
        sample_losses,
        samples_amount,
    );
    let none = Seq::<CommandView<T>>::empty();
    let one = none.push(plan[0]);
    let two = one.push(plan[1]);
    let three = two.push(plan[2]);
    let four = three.push(plan[3]);
    assert(plan =~= four.push(plan[4]));
    lemma_outstanding_push(none, plan[0]);
    lemma_outstanding_push(one, plan[1]);
    lemma_outstanding_push(two, plan[2]);
    lemma_outstanding_push(three, plan[3]);
    lemma_outstanding_push(four, plan[4]);
    assert(outstanding(one) =~= seq![sample_losses]);
    let kept = seq![sample_losses];
    assert(kept.drop_last() =~= Seq::<DeviceBuffer>::empty());
    assert(without(Seq::<DeviceBuffer>::empty(), sample_losses) =~= Seq::<DeviceBuffer>::empty());
    assert(without(kept, sample_losses) =~= Seq::<DeviceBuffer>::empty());
    assert forall|done: int| 1 <= done <= 4 implies outstanding(#[trigger] plan.take(done))
        == seq![sample_losses] by {
        assert(plan.take(1) =~= one);
        assert(plan.take(2) =~= two);
        assert(plan.take(3) =~= three);
        assert(plan.take(4) =~= four);
    }
}

/// The computation of a loss's derivatives creates the one buffer that its
/// plan names and frees none: the derivatives are the caller's.
pub proof fn lemma_derivatives_are_created<T>(
    program: Program,
    output_samples: DeviceBuffer,
    expected_outputs: DeviceBuffer,
    derivatives: DeviceBuffer,
    samples_amount: usize,
)
    ensures
        outstanding(
            derivatives_commands::<T>(
                program,
                output_samples,
                expected_outputs,
                derivatives,
                samples_amount,
            ),
        ) == seq![derivatives],
{
    let plan = derivatives_commands::<T>(
        program,
        output_samples,
        expected_outputs,
        derivatives,
        samples_amount,
    );
    let none = Seq::<CommandView<T>>::empty();
    let one = none.push(plan[0]);
    let two = one.push(plan[1]);
    assert(plan =~= two.push(plan[2]));
    lemma_outstanding_push(none, plan[0]);
    lemma_outstanding_push(one, plan[1]);
    lemma_outstanding_push(two, plan[2]);
    assert(outstanding(plan) =~= seq![derivatives]);
}

/// Buffers of different sizes are refused as such by every loss function
/// that is initialized on a context with a queue, whatever the number of
/// samples and whatever the device has compiled: nothing is cut to fit.
pub proof fn lemma_mismatched_buffers_are_refused(
    ctx: ContextView,
    program: Program,
    kernel: Kernel,
    output_samples: DeviceBuffer,
    expected_outputs: DeviceBuffer,
    samples_amount: usize,
    result_len: int,
)
    requires
        ctx.queues > 0,
        output_samples.len != expected_outputs.len,
    ensures
        refusal(
            true,
            ctx,
            program,
            kernel,
            output_samples,
            expected_outputs,
            samples_amount,
            result_len,
        ) == Some(Refusal::OutputsAndExpectedOutputsDoNotMatch),
        loss_error(Refusal::OutputsAndExpectedOutputsDoNotMatch, program, kernel)
            == LossComputationError::OutputsAndExpectedOutputsDoNotMatch,
        derivatives_error(Refusal::OutputsAndExpectedOutputsDoNotMatch, program, kernel)
            == LossToModelOutputsDerivativesComputationError::OutputsAndExpectedOutputsDoNotMatch,
{
}

} // verus!
