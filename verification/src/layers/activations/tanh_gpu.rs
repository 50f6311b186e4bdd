//! The hyperbolic tangent activation that keeps no copy of its inputs: it
//! remembers the caller's buffer instead.

use crate::commands::held;
use crate::commands::launch;
use crate::commands::lemma_nothing_held;
use crate::commands::plan_of;
use crate::commands::release_held;
use crate::commands::releases;
use crate::commands::Command;
use crate::commands::CommandView;
use crate::commands::KernelArg;
use crate::commands::LaunchView;
use crate::device::after_reserving;
use crate::device::missing_steps;
use crate::device::valid_buffer_len;
use crate::device::Access;
use crate::device::ComputeContext;
use crate::device::ContextView;
use crate::device::DeviceBuffer;
use crate::layers::activations::back_propagate_buffer;
use crate::layers::activations::back_propagate_commands;
use crate::layers::activations::plan_back_propagate;
use crate::layers::activations::plan_init;
use crate::layers::BackPropagation;
use crate::layers::Initialization;
use crate::layers::LayerError;
use crate::layers::Propagation;
use crate::programs::Kernel;
use crate::programs::Program;
use vstd::prelude::*;

verus! {

/// The hyperbolic tangent activation without a copy of its inputs. The
/// buffer of the last inputs stays the caller's: the layer never frees it.
#[derive(Debug)]
pub struct TanHGPU {
    last_inputs_buffer: Option<DeviceBuffer>,
    last_outputs_buffer: Option<DeviceBuffer>,
}

/// The state of the layer.
pub struct TanHGPUView {
    /// The caller's buffer of the inputs of the last forward pass.
    pub last_inputs_buffer: Option<DeviceBuffer>,
    /// The outputs of the last forward pass.
    pub last_outputs_buffer: Option<DeviceBuffer>,
}

impl View for TanHGPU {
    type V = TanHGPUView;

    closed spec fn view(&self) -> TanHGPUView {
        TanHGPUView {
            last_inputs_buffer: self.last_inputs_buffer,
            last_outputs_buffer: self.last_outputs_buffer,
        }
    }
}

/// The buffer that a forward pass makes for the outputs, or why it makes
/// none.
pub open spec fn propagate_buffer(ctx: ContextView, inputs: DeviceBuffer) -> Result<
    DeviceBuffer,
    LayerError,
> {
    if ctx.queues == 0 {
        Err(LayerError::NoCommandQueue)
    } else if !ctx.programs.contains(Program::TanH) || !ctx.kernels.contains(
        (Program::TanH, Kernel::Propagate),
    ) {
        Err(LayerError::MissingProgramOrKernel)
    } else if !valid_buffer_len(inputs.len as int) || ctx.next_buffer + 1 > u64::MAX {
        Err(LayerError::AllocationError)
    } else {
        Ok(DeviceBuffer { id: ctx.next_buffer as u64, len: inputs.len })
    }
}

/// What a forward pass asks of the device: one work item per value of
/// `inputs` computes into `outputs`.
pub open spec fn propagate_commands<T>(inputs: DeviceBuffer, outputs: DeviceBuffer) -> Seq<
    CommandView<T>,
> {
    seq![
        CommandView::CreateBuffer { buffer: outputs, access: Access::ReadWrite },
        CommandView::Launch(
            LaunchView {
                program: Program::TanH,
                kernel: Kernel::Propagate,
                args: seq![KernelArg::Buffer(inputs), KernelArg::Buffer(outputs)],
                global_work_sizes: seq![inputs.len],
            },
        ),
        CommandView::Finish,
    ]
}

impl TanHGPU {
    /// The layer, with the plan that gets it onto the device. There are
    /// both exactly when the context has a command queue.
    pub fn new<T>(ctx: &ComputeContext) -> (r: Result<(TanHGPU, Initialization<T>), LayerError>)
        ensures
            r is Ok <==> ctx@.queues > 0,
            r matches Ok((layer, plan)) ==> layer@ == (TanHGPUView {
                last_inputs_buffer: None,
                last_outputs_buffer: None,
            }) && plan.compilation@ == missing_steps(
                ctx@,
                Program::TanH,
                Program::TanH.spec_kernels(),
            ) && plan.commands@.len() == 0 && plan.parameters is None,
            r matches Err(e) ==> e == LayerError::NoCommandQueue,
    {
        let layer = TanHGPU { last_inputs_buffer: None, last_outputs_buffer: None };
        match layer.send_to_gpu(ctx) {
            Ok(plan) => Ok((layer, plan)),
            Err(e) => Err(e),
        }
    }

    /// Plans how the layer gets onto the device: its program is compiled
    /// unless the device has it. There is a plan exactly when the context
    /// has a command queue.
    pub fn send_to_gpu<T>(&self, ctx: &ComputeContext) -> (r: Result<Initialization<T>, LayerError>)
        ensures
            r is Ok <==> ctx@.queues > 0,
            r matches Ok(plan) ==> plan.compilation@ == missing_steps(
                ctx@,
                Program::TanH,
                Program::TanH.spec_kernels(),
            ) && plan.commands@.len() == 0 && plan.parameters is None,
            r matches Err(e) ==> e == LayerError::NoCommandQueue,
    {
        plan_init(Program::TanH, ctx)
    }

    /// The caller's buffer of the inputs of the last forward pass.
    pub fn get_last_inputs(&self) -> (buffer: Option<DeviceBuffer>)
        ensures
            buffer == self@.last_inputs_buffer,
    {
        self.last_inputs_buffer
    }

    /// The outputs of the last forward pass.
    pub fn get_last_outputs(&self) -> (buffer: Option<DeviceBuffer>)
        ensures
            buffer == self@.last_outputs_buffer,
    {
        self.last_outputs_buffer
    }

    /// The layer takes samples of any number of values and says so with
    /// zero.
    pub fn get_inputs_amount(&self) -> (n: usize)
        ensures
            n == 0,
    {
        0
    }

    /// The layer gives samples of as many values as it takes and says so
    /// with zero.
    pub fn get_outputs_amount(&self) -> (n: usize)
        ensures
            n == 0,
    {
        0
    }

    /// Plans one forward pass: the hyperbolic tangent of every value in
    /// `inputs`. The plan's inputs are `inputs` itself.
    pub fn propagate<T>(&self, ctx: &mut ComputeContext, inputs: &DeviceBuffer) -> (r: Result<
        Propagation<T>,
        LayerError,
    >)
        ensures
            match r {
                Ok(plan) => {
                    &&& propagate_buffer(old(ctx)@, *inputs) == Ok::<_, LayerError>(plan.outputs)
                    &&& plan.last_inputs == *inputs
                    &&& plan_of(plan.commands@) == propagate_commands::<T>(*inputs, plan.outputs)
                    &&& final(ctx)@ == after_reserving(old(ctx)@, 1)
                },
                Err(e) => {
                    &&& propagate_buffer(old(ctx)@, *inputs) == Err::<DeviceBuffer, _>(e)
                    &&& final(ctx)@ == old(ctx)@
                },
            },
    {
        if ctx.queues() == 0 {
            return Err(LayerError::NoCommandQueue);
        }
        if !ctx.has_program(Program::TanH) || !ctx.has_kernel(Program::TanH, Kernel::Propagate) {
            return Err(LayerError::MissingProgramOrKernel);
        }
        let outputs = match ctx.reserve_buffer(inputs.len) {
            Some(buffer) => buffer,
            None => {
                return Err(LayerError::AllocationError);
            },
        };
        let mut args: Vec<KernelArg<T>> = Vec::new();
        args.push(KernelArg::Buffer(*inputs));
        args.push(KernelArg::Buffer(outputs));
        let mut sizes: Vec<usize> = Vec::new();
        sizes.push(inputs.len);
        let mut commands: Vec<Command<T>> = Vec::new();
        commands.push(Command::CreateBuffer { buffer: outputs, access: Access::ReadWrite });
        commands.push(launch(Program::TanH, Kernel::Propagate, args, sizes));
        commands.push(Command::Finish);
        proof {
            let want = propagate_commands::<T>(*inputs, outputs);
            assert(args@ =~= want[1]->Launch_0.args);
            assert(sizes@ =~= want[1]->Launch_0.global_work_sizes);
            assert(plan_of(commands@) =~= want);
        }
        Ok(Propagation { commands, last_inputs: *inputs, outputs })
    }

    /// The device has carried out `plan`: the layer remembers the plan's
    /// inputs and takes over its outputs. The outputs of the pass before
    /// are to be freed; the inputs of the pass before stay the caller's.
    pub fn finish_propagate<T>(&mut self, plan: &Propagation<T>) -> (superseded: Vec<Command<T>>)
        ensures
            final(self)@ == (TanHGPUView {
                last_inputs_buffer: Some(plan.last_inputs),
                last_outputs_buffer: Some(plan.outputs),
            }),
            plan_of(superseded@) == releases::<T>(held(seq![old(self)@.last_outputs_buffer])),
    {
        let mut slots: Vec<Option<DeviceBuffer>> = Vec::new();
        slots.push(self.last_outputs_buffer);
        proof {
            assert(slots@ =~= seq![self.last_outputs_buffer]);
        }
        self.last_inputs_buffer = Some(plan.last_inputs);
        self.last_outputs_buffer = Some(plan.outputs);
        release_held(&slots)
    }

    /// Plans one backward pass: where the derivative of the loss with
    /// respect to the inputs is asked for, it is
    /// `layer_output_to_error_derivative` times one minus the square of the
    /// output, value by value. The learning rate goes unused, and a pass
    /// that asks for no derivative asks nothing of the device.
    pub fn back_propagate<T>(
        &self,
        ctx: &mut ComputeContext,
        should_calculate_input_to_error_derivative: bool,
        layer_output_to_error_derivative: &DeviceBuffer,
        _learning_rate: T,
    ) -> (r: Result<BackPropagation<T>, LayerError>)
        requires
            should_calculate_input_to_error_derivative ==> self@.last_outputs_buffer is Some,
        ensures
            match r {
                Ok(plan) => {
                    &&& back_propagate_buffer(
                        old(ctx)@,
                        Program::TanH,
                        should_calculate_input_to_error_derivative,
                        self@.last_outputs_buffer,
                    ) == Ok::<_, LayerError>(plan.input_derivatives)
                    &&& plan_of(plan.commands@) == back_propagate_commands::<T>(
                        Program::TanH,
                        *layer_output_to_error_derivative,
                        self@.last_outputs_buffer,
                        plan.input_derivatives,
                    )
                    &&& plan.parameters is None
                    &&& final(ctx)@ == after_reserving(
                        old(ctx)@,
                        if should_calculate_input_to_error_derivative {
                            1
                        } else {
                            0
                        },
                    )
                },
                Err(e) => {
                    &&& back_propagate_buffer(
                        old(ctx)@,
                        Program::TanH,
                        should_calculate_input_to_error_derivative,
                        self@.last_outputs_buffer,
                    ) == Err::<Option<DeviceBuffer>, _>(e)
                    &&& final(ctx)@ == old(ctx)@
                },
            },
    {
        plan_back_propagate(
            Program::TanH,
            ctx,
            should_calculate_input_to_error_derivative,
            layer_output_to_error_derivative,
            self.last_outputs_buffer,
        )
    }

    /// Gives up what the layer holds on the device: the command frees its
    /// outputs, and the layer forgets the caller's inputs. A layer that
    /// holds nothing stays as it is and asks for nothing.
    pub fn clean_up_gpu_state<T>(&mut self) -> (commands: Vec<Command<T>>)
        ensures
            final(self)@ == (TanHGPUView { last_inputs_buffer: None, last_outputs_buffer: None }),
            plan_of(commands@) == releases::<T>(held(seq![old(self)@.last_outputs_buffer])),
            held(seq![final(self)@.last_outputs_buffer]) == Seq::<DeviceBuffer>::empty(),
    {
        let mut slots: Vec<Option<DeviceBuffer>> = Vec::new();
        slots.push(self.last_outputs_buffer);
        proof {
            assert(slots@ =~= seq![self.last_outputs_buffer]);
        }
        self.last_inputs_buffer = None;
        self.last_outputs_buffer = None;
        proof {
            lemma_nothing_held(seq![self.last_outputs_buffer]);
        }
        release_held(&slots)
    }
}

} // verus!
