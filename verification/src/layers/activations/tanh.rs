//! The hyperbolic tangent activation.

use crate::commands::held;
use crate::commands::lemma_nothing_held;
use crate::commands::plan_of;
use crate::commands::release_held;
use crate::commands::releases;
use crate::commands::Command;
use crate::device::after_reserving;
use crate::device::missing_steps;
use crate::device::ComputeContext;
use crate::device::DeviceBuffer;
use crate::layers::activations::back_propagate_buffer;
use crate::layers::activations::back_propagate_commands;
use crate::layers::activations::plan_back_propagate;
use crate::layers::activations::plan_init;
use crate::layers::activations::plan_propagate;
use crate::layers::activations::propagate_buffers;
use crate::layers::activations::propagate_commands;
use crate::layers::activations::ActivationView;
use crate::layers::BackPropagation;
use crate::layers::Initialization;
use crate::layers::LayerError;
use crate::layers::Propagation;
use crate::programs::Program;
use crate::types::ModelLayer;
use vstd::prelude::*;

verus! {

/// The hyperbolic tangent activation: it squashes every value into the
/// range from -1 to 1.
#[derive(Debug)]
pub struct TanH {
    inputs_amount: usize,
    last_inputs_buffer: Option<DeviceBuffer>,
    last_outputs_buffer: Option<DeviceBuffer>,
}

impl View for TanH {
    type V = ActivationView;

    closed spec fn view(&self) -> ActivationView {
        ActivationView {
            inputs_amount: self.inputs_amount as nat,
            last_inputs_buffer: self.last_inputs_buffer,
            last_outputs_buffer: self.last_outputs_buffer,
        }
    }
}

impl TanH {
    /// The activation for samples of `inputs_amount` values, with nothing on
    /// a device yet.
    pub fn new_raw(inputs_amount: usize) -> (layer: TanH)
        ensures
            layer@ == (ActivationView {
                inputs_amount: inputs_amount as nat,
                last_inputs_buffer: None,
                last_outputs_buffer: None,
            }),
    {
        TanH { inputs_amount, last_inputs_buffer: None, last_outputs_buffer: None }
    }

    /// The activation as a layer of a model. See `new_raw`.
    pub fn new<T>(inputs_amount: usize) -> (layer: ModelLayer<T>)
        ensures
            layer matches ModelLayer::TanH(inner) && inner@ == (ActivationView {
                inputs_amount: inputs_amount as nat,
                last_inputs_buffer: None,
                last_outputs_buffer: None,
            }),
    {
        ModelLayer::TanH(TanH::new_raw(inputs_amount))
    }

    /// Plans how the layer gets onto the device: its program is compiled
    /// unless the device has it. There is a plan exactly when the context
    /// has a command queue.
    pub fn init<T>(&self, ctx: &ComputeContext) -> (r: Result<Initialization<T>, LayerError>)
        ensures
            r is Ok <==> ctx@.queues > 0,
            r matches Ok(plan) ==> plan.compilation@ == missing_steps(
                ctx@,
                Program::TanH,
                Program::TanH.spec_kernels(),
            ) && plan.commands@.len() == 0 && plan.parameters is None,
            r matches Err(e) ==> e == LayerError::NoCommandQueue,
    {
        plan_init(Program::TanH, ctx)
    }

    /// The number of values of each sample that goes in.
    pub fn get_inputs_amount(&self) -> (n: usize)
        ensures
            n == self@.inputs_amount,
    {
        self.inputs_amount
    }

    /// The number of values of each sample that comes out: as many as go
    /// in.
    pub fn get_outputs_amount(&self) -> (n: usize)
        ensures
            n == self@.inputs_amount,
    {
        self.inputs_amount
    }

    /// The copy of the inputs of the last forward pass.
    pub fn get_last_inputs(&self) -> (buffer: Option<DeviceBuffer>)
        ensures
            buffer == self@.last_inputs_buffer,
    {
        self.last_inputs_buffer
    }

    /// The outputs of the last forward pass.
    pub fn get_last_outputs(&self) -> (buffer: Option<DeviceBuffer>)
        ensures
            buffer == self@.last_outputs_buffer,
    {
        self.last_outputs_buffer
    }

    /// Plans one forward pass: the hyperbolic tangent of every value in `inputs`.
    pub fn propagate<T>(&self, ctx: &mut ComputeContext, inputs: &DeviceBuffer) -> (r: Result<
        Propagation<T>,
        LayerError,
    >)
        ensures
            match r {
                Ok(plan) => {
                    &&& propagate_buffers(old(ctx)@, Program::TanH, *inputs) == Ok::<
                        _,
                        LayerError,
                    >((plan.last_inputs, plan.outputs))
                    &&& plan_of(plan.commands@) == propagate_commands::<T>(
                        Program::TanH,
                        *inputs,
                        plan.last_inputs,
                        plan.outputs,
                    )
                    &&& final(ctx)@ == after_reserving(old(ctx)@, 2)
                },
                Err(e) => {
                    &&& propagate_buffers(old(ctx)@, Program::TanH, *inputs) == Err::<
                        (DeviceBuffer, DeviceBuffer),
                        _,
                    >(e)
                    &&& final(ctx)@ == old(ctx)@
                },
            },
    {
        plan_propagate(Program::TanH, ctx, inputs)
    }

    /// The device has carried out `plan`: its buffers are now the layer's
    /// cache of the last forward pass. The buffers of the pass before are
    /// to be freed.
    pub fn finish_propagate<T>(&mut self, plan: &Propagation<T>) -> (superseded: Vec<Command<T>>)
        ensures
            final(self)@ == (ActivationView {
                last_inputs_buffer: Some(plan.last_inputs),
                last_outputs_buffer: Some(plan.outputs),
                ..old(self)@
            }),
            plan_of(superseded@) == releases::<T>(held(old(self)@.slots())),
    {
        let mut slots: Vec<Option<DeviceBuffer>> = Vec::new();
        slots.push(self.last_inputs_buffer);
        slots.push(self.last_outputs_buffer);
        proof {
            assert(slots@ =~= self@.slots());
        }
        self.last_inputs_buffer = Some(plan.last_inputs);
        self.last_outputs_buffer = Some(plan.outputs);
        release_held(&slots)
    }

    /// Plans one backward pass: where the derivative of the loss with
    /// respect to the inputs is asked for, it is
    /// `layer_output_to_error_derivative` times one minus the square of the
    /// output, value by value.
    /// The layer has nothing to train, so the learning rate goes unused
    /// and a pass that asks for no derivative asks nothing of the device.
    pub fn back_propagate<T>(
        &self,
        ctx: &mut ComputeContext,
        should_calculate_input_to_error_derivative: bool,
        layer_output_to_error_derivative: &DeviceBuffer,
        _learning_rate: T,
    ) -> (r: Result<BackPropagation<T>, LayerError>)
        requires
            should_calculate_input_to_error_derivative ==> self@.last_outputs_buffer is Some,
        ensures
            match r {
                Ok(plan) => {
                    &&& back_propagate_buffer(
                        old(ctx)@,
                        Program::TanH,
                        should_calculate_input_to_error_derivative,
                        self@.last_outputs_buffer,
                    ) == Ok::<_, LayerError>(plan.input_derivatives)
                    &&& plan_of(plan.commands@) == back_propagate_commands::<T>(
                        Program::TanH,
                        *layer_output_to_error_derivative,
                        self@.last_outputs_buffer,
                        plan.input_derivatives,
                    )
                    &&& plan.parameters is None
                    &&& final(ctx)@ == after_reserving(
                        old(ctx)@,
                        if should_calculate_input_to_error_derivative {
                            1
                        } else {
                            0
                        },
                    )
                },
                Err(e) => {
                    &&& back_propagate_buffer(
                        old(ctx)@,
                        Program::TanH,
                        should_calculate_input_to_error_derivative,
                        self@.last_outputs_buffer,
                    ) == Err::<Option<DeviceBuffer>, _>(e)
                    &&& final(ctx)@ == old(ctx)@
                },
            },
    {
        plan_back_propagate(
            Program::TanH,
            ctx,
            should_calculate_input_to_error_derivative,
            layer_output_to_error_derivative,
            self.last_outputs_buffer,
        )
    }

    /// Gives up every buffer that the layer holds on the device: the
    /// commands free them, and the layer holds none afterwards. A layer
    /// that holds none stays as it is and asks for nothing.
    pub fn clean_up_gpu_state<T>(&mut self) -> (commands: Vec<Command<T>>)
        ensures
            final(self)@ == (ActivationView {
                last_inputs_buffer: None,
                last_outputs_buffer: None,
                ..old(self)@
            }),
            plan_of(commands@) == releases::<T>(held(old(self)@.slots())),
            held(final(self)@.slots()) == Seq::<DeviceBuffer>::empty(),
    {
        let mut slots: Vec<Option<DeviceBuffer>> = Vec::new();
        slots.push(self.last_inputs_buffer);
        slots.push(self.last_outputs_buffer);
        proof {
            assert(slots@ =~= self@.slots());
        }
        self.last_inputs_buffer = None;
        self.last_outputs_buffer = None;
        proof {
            lemma_nothing_held(self@.slots());
        }
        release_held(&slots)
    }
}

} // verus!
