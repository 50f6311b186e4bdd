//! Activation layers: they apply one function to every value of a batch
//! and hold no trainable parameters.

pub mod relu;
pub mod tanh;
pub mod tanh_gpu;

use crate::commands::launch;
use crate::commands::plan_of;
use crate::commands::Command;
use crate::commands::CommandView;
use crate::commands::KernelArg;
use crate::commands::LaunchView;
use crate::device::after_reserving;
use crate::device::missing_steps;
use crate::device::valid_buffer_len;
use crate::device::Access;
use crate::device::ComputeContext;
use crate::device::ContextView;
use crate::device::DeviceBuffer;
use crate::layers::BackPropagation;
use crate::layers::Initialization;
use crate::layers::LayerError;
use crate::layers::Propagation;
use crate::programs::Kernel;
use crate::programs::Program;
use vstd::prelude::*;

verus! {

/// The state of an activation layer.
pub struct ActivationView {
    /// The number of values of each sample.
    pub inputs_amount: nat,
    /// The copy of the inputs of the last forward pass.
    pub last_inputs_buffer: Option<DeviceBuffer>,
    /// The outputs of the last forward pass.
    pub last_outputs_buffer: Option<DeviceBuffer>,
}

impl ActivationView {
    /// The layer's two buffers, the inputs first.
    pub open spec fn slots(self) -> Seq<Option<DeviceBuffer>> {
        seq![self.last_inputs_buffer, self.last_outputs_buffer]
    }
}

/// The buffers that a forward pass of an activation makes for the copy of
/// `inputs` and for the outputs, or why it makes none.
pub open spec fn propagate_buffers(ctx: ContextView, program: Program, inputs: DeviceBuffer)
    -> Result<(DeviceBuffer, DeviceBuffer), LayerError> {
    if ctx.queues == 0 {
        Err(LayerError::NoCommandQueue)
    } else if !ctx.programs.contains(program) || !ctx.kernels.contains(
        (program, Kernel::Propagate),
    ) {
        Err(LayerError::MissingProgramOrKernel)
    } else if !valid_buffer_len(inputs.len as int) || ctx.next_buffer + 2 > u64::MAX {
        Err(LayerError::AllocationError)
    } else {
        Ok(
            (
                DeviceBuffer { id: ctx.next_buffer as u64, len: inputs.len },
                DeviceBuffer { id: (ctx.next_buffer + 1) as u64, len: inputs.len },
            ),
        )
    }
}

/// What a forward pass of an activation asks of the device: `inputs` is
/// copied into `last_inputs`, then one work item per value computes into
/// `outputs`.
pub open spec fn propagate_commands<T>(
    program: Program,
    inputs: DeviceBuffer,
    last_inputs: DeviceBuffer,
    outputs: DeviceBuffer,
) -> Seq<CommandView<T>> {
    seq![
        CommandView::CreateBuffer { buffer: last_inputs, access: Access::ReadOnly },
        CommandView::CopyBuffer { source: inputs, target: last_inputs, len: inputs.len },
        CommandView::Finish,
        CommandView::CreateBuffer { buffer: outputs, access: Access::ReadWrite },
        CommandView::Launch(
            LaunchView {
                program,
                kernel: Kernel::Propagate,
                args: seq![KernelArg::Buffer(inputs), KernelArg::Buffer(outputs)],
                global_work_sizes: seq![inputs.len],
            },
        ),
        CommandView::Finish,
    ]
}

/// The buffer that a backward pass of an activation makes for the
/// derivative with respect to its inputs, or why it makes none. Where the
/// derivative is not asked for, nothing is needed and nothing can fail.
pub open spec fn back_propagate_buffer(
    ctx: ContextView,
    program: Program,
    should_calculate_input_to_error_derivative: bool,
    last_outputs: Option<DeviceBuffer>,
) -> Result<Option<DeviceBuffer>, LayerError> {
    if !should_calculate_input_to_error_derivative {
        Ok(None)
    } else if ctx.queues == 0 {
        Err(LayerError::NoCommandQueue)
    } else if !ctx.programs.contains(program) || !ctx.kernels.contains(
        (program, Kernel::BackPropagate),
    ) {
        Err(LayerError::MissingProgramOrKernel)
    } else if !valid_buffer_len(last_outputs.unwrap().len as int) || ctx.next_buffer + 1
        > u64::MAX {
        Err(LayerError::AllocationError)
    } else {
        Ok(Some(DeviceBuffer { id: ctx.next_buffer as u64, len: last_outputs.unwrap().len }))
    }
}

/// What a backward pass of an activation asks of the device: one work item
/// per value multiplies the incoming derivative by the function's own
/// derivative, taken from the outputs of the last forward pass.
pub open spec fn back_propagate_commands<T>(
    program: Program,
    layer_output_to_error_derivative: DeviceBuffer,
    last_outputs: Option<DeviceBuffer>,
    input_derivatives: Option<DeviceBuffer>,
) -> Seq<CommandView<T>> {
    match input_derivatives {
        Some(buffer) => seq![
            CommandView::CreateBuffer { buffer, access: Access::ReadWrite },
            CommandView::Launch(
                LaunchView {
                    program,
                    kernel: Kernel::BackPropagate,
                    args: seq![
                        KernelArg::Buffer(layer_output_to_error_derivative),
                        KernelArg::Buffer(last_outputs.unwrap()),
                        KernelArg::Buffer(buffer),
                    ],
                    global_work_sizes: seq![last_outputs.unwrap().len],
                },
            ),
            CommandView::Finish,
        ],
        None => Seq::empty(),
    }
}

/// Plans how an activation gets onto the device: its program is compiled
/// unless the device has it.
pub(crate) fn plan_init<T>(program: Program, ctx: &ComputeContext) -> (r: Result<
    Initialization<T>,
    LayerError,
>)
    ensures
        r is Ok <==> ctx@.queues > 0,
        r matches Ok(plan) ==> plan.compilation@ == missing_steps(
            ctx@,
            program,
            program.spec_kernels(),
        ) && plan.commands@.len() == 0 && plan.parameters is None,
        r matches Err(e) ==> e == LayerError::NoCommandQueue,
{
    if ctx.queues() == 0 {
        return Err(LayerError::NoCommandQueue);
    }
    let kernels = program.kernels();
    Ok(
        Initialization {
            compilation: ctx.ensure_program(program, &kernels),
            commands: Vec::new(),
            parameters: None,
        },
    )
}

/// Plans one forward pass of the activation that `program` computes.
pub(crate) fn plan_propagate<T>(program: Program, ctx: &mut ComputeContext, inputs: &DeviceBuffer)
    -> (r: Result<Propagation<T>, LayerError>)
    ensures
        match r {
            Ok(plan) => {
                &&& propagate_buffers(old(ctx)@, program, *inputs) == Ok::<_, LayerError>(
                    (plan.last_inputs, plan.outputs),
                )
                &&& plan_of(plan.commands@) == propagate_commands::<T>(
                    program,
                    *inputs,
                    plan.last_inputs,
                    plan.outputs,
                )
                &&& final(ctx)@ == after_reserving(old(ctx)@, 2)
            },
            Err(e) => {
                &&& propagate_buffers(old(ctx)@, program, *inputs) == Err::<
                    (DeviceBuffer, DeviceBuffer),
                    _,
                >(e)
                &&& final(ctx)@ == old(ctx)@
            },
        },
{
    if ctx.queues() == 0 {
        return Err(LayerError::NoCommandQueue);
    }
    if !ctx.has_program(program) || !ctx.has_kernel(program, Kernel::Propagate) {
        return Err(LayerError::MissingProgramOrKernel);
    }
    let mut lens: Vec<usize> = Vec::new();
    lens.push(inputs.len);
    lens.push(inputs.len);
    let buffers = match ctx.reserve_buffers(&lens) {
        Some(buffers) => buffers,
        None => {
            proof {
                if valid_buffer_len(inputs.len as int) {
                    assert(valid_buffer_len(lens@[0] as int));
                    assert(valid_buffer_len(lens@[1] as int));
                }
            }
            return Err(LayerError::AllocationError);
        },
    };
    proof {
        assert(valid_buffer_len(lens@[0] as int));
    }
    let last_inputs = buffers[0];
    let outputs = buffers[1];
    let mut args: Vec<KernelArg<T>> = Vec::new();
    args.push(KernelArg::Buffer(*inputs));
    args.push(KernelArg::Buffer(outputs));
    let mut sizes: Vec<usize> = Vec::new();
    sizes.push(inputs.len);
    let mut commands: Vec<Command<T>> = Vec::new();
    commands.push(Command::CreateBuffer { buffer: last_inputs, access: Access::ReadOnly });
    commands.push(Command::CopyBuffer { source: *inputs, target: last_inputs, len: inputs.len });
    commands.push(Command::Finish);
    commands.push(Command::CreateBuffer { buffer: outputs, access: Access::ReadWrite });
    commands.push(launch(program, Kernel::Propagate, args, sizes));
    commands.push(Command::Finish);
    proof {
        let want = propagate_commands::<T>(program, *inputs, last_inputs, outputs);
        assert(args@ =~= want[4]->Launch_0.args);
        assert(sizes@ =~= want[4]->Launch_0.global_work_sizes);
        assert(plan_of(commands@) =~= want);
    }
    Ok(Propagation { commands, last_inputs, outputs })
}

/// Plans one backward pass of the activation that `program` computes.
pub(crate) fn plan_back_propagate<T>(
    program: Program,
    ctx: &mut ComputeContext,
    should_calculate_input_to_error_derivative: bool,
    layer_output_to_error_derivative: &DeviceBuffer,
    last_outputs: Option<DeviceBuffer>,
) -> (r: Result<BackPropagation<T>, LayerError>)
    requires
        should_calculate_input_to_error_derivative ==> last_outputs is Some,
    ensures
        match r {
            Ok(plan) => {
                &&& back_propagate_buffer(
                    old(ctx)@,
                    program,
                    should_calculate_input_to_error_derivative,
                    last_outputs,
                ) == Ok::<_, LayerError>(plan.input_derivatives)
                &&& plan_of(plan.commands@) == back_propagate_commands::<T>(
                    program,
                    *layer_output_to_error_derivative,
                    last_outputs,
                    plan.input_derivatives,
                )
                &&& plan.parameters is None
                &&& final(ctx)@ == after_reserving(
                    old(ctx)@,
                    if should_calculate_input_to_error_derivative {
                        1
                    } else {
                        0
                    },
                )
            },
            Err(e) => {
                &&& back_propagate_buffer(
                    old(ctx)@,
                    program,
                    should_calculate_input_to_error_derivative,
                    last_outputs,
                ) == Err::<Option<DeviceBuffer>, _>(e)
                &&& final(ctx)@ == old(ctx)@
            },
        },
{
    let mut commands: Vec<Command<T>> = Vec::new();
    if !should_calculate_input_to_error_derivative {
        proof {
            assert(plan_of(commands@) =~= Seq::<CommandView<T>>::empty());
        }
        return Ok(BackPropagation { commands, input_derivatives: None, parameters: None });
    }
    if ctx.queues() == 0 {
        return Err(LayerError::NoCommandQueue);
    }
    if !ctx.has_program(program) || !ctx.has_kernel(program, Kernel::BackPropagate) {
        return Err(LayerError::MissingProgramOrKernel);
    }
    let outputs = last_outputs.unwrap();
    let buffer = match ctx.reserve_buffer(outputs.len) {
        Some(buffer) => buffer,
        None => {
            return Err(LayerError::AllocationError);
        },
    };
    let mut args: Vec<KernelArg<T>> = Vec::new();
    args.push(KernelArg::Buffer(*layer_output_to_error_derivative));
    args.push(KernelArg::Buffer(outputs));
    args.push(KernelArg::Buffer(buffer));
    let mut sizes: Vec<usize> = Vec::new();
    sizes.push(outputs.len);
    commands.push(Command::CreateBuffer { buffer, access: Access::ReadWrite });
    commands.push(launch(program, Kernel::BackPropagate, args, sizes));
    commands.push(Command::Finish);
    proof {
        let want = back_propagate_commands::<T>(
            program,
            *layer_output_to_error_derivative,
            last_outputs,
            Some(buffer),
        );
        assert(args@ =~= want[1]->Launch_0.args);
        assert(sizes@ =~= want[1]->Launch_0.global_work_sizes);
        assert(plan_of(commands@) =~= want);
    }
    Ok(BackPropagation { commands, input_derivatives: Some(buffer), parameters: None })
}

} // verus!
