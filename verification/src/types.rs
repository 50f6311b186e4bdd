//! The closed sets of layers and loss functions that a model is made of,
//! and what a failed lookup in the device's registry reports.

use crate::commands::held;
use crate::commands::lemma_held_push;
use crate::commands::lemma_nothing_held;
use crate::commands::lemma_outstanding_push;
use crate::commands::outstanding;
use crate::commands::plan_of;
use crate::commands::releases;
use crate::commands::Command;
use crate::commands::CommandView;
use crate::device::after_reserving;
use crate::device::missing_steps;
use crate::device::Compilation;
use crate::device::ComputeContext;
use crate::device::ContextView;
use crate::device::DeviceBuffer;
use crate::layers::activations;
use crate::layers::activations::relu::ReLU;
use crate::layers::activations::tanh::TanH;
use crate::layers::activations::ActivationView;
use crate::layers::dense::Dense;
use crate::layers::dense::DenseView;
use crate::layers::BackPropagation;
use crate::layers::Initialization;
use crate::layers::LayerError;
use crate::layers::Parameters;
use crate::layers::Propagation;
use crate::layout::matrix_from_flat;
use crate::loss_functions::categorical_cross_entropy::CategoricalCrossEntropy;
use crate::loss_functions::mean_squared::MeanSquared;
use crate::loss_functions::LossComputation;
use crate::loss_functions::LossComputationError;
use crate::loss_functions::LossDerivatives;
use crate::loss_functions::LossFunction;
use crate::loss_functions::LossToModelOutputsDerivativesComputationError;
use crate::programs::Kernel;
use crate::programs::Program;
use vstd::prelude::*;

verus! {

/// The device has not compiled `program`.
#[derive(Clone, Copy, Debug, PartialEq, Eq, Structural)]
pub struct ProgramNotFoundError {
    pub program: Program,
}

/// The device has not created entry point `kernel` of `program`.
#[derive(Clone, Copy, Debug, PartialEq, Eq, Structural)]
pub struct KernelNotFoundError {
    pub program: Program,
    pub kernel: Kernel,
}

/// An operation on a whole buffer failed on the device with `code`.
#[derive(Clone, Copy, Debug, PartialEq, Eq, Structural)]
pub struct BufferOperationError {
    pub code: i32,
}

/// A loss function that a model can be trained with.
#[derive(Debug)]
pub enum ModelLossFunction {
    MeanSquared(MeanSquared),
    CategoricalCrossEntropy(CategoricalCrossEntropy),
}

impl<T> LossFunction<T> for ModelLossFunction {
    open spec fn is_initialized(&self) -> bool {
        match self {
            ModelLossFunction::MeanSquared(loss) => loss.bound(),
            ModelLossFunction::CategoricalCrossEntropy(loss) => loss.bound(),
        }
    }

    open spec fn program(&self) -> Program {
        match self {
            ModelLossFunction::MeanSquared(_) => Program::MeanSquared,
            ModelLossFunction::CategoricalCrossEntropy(_) => Program::CategoricalCrossEntropy,
        }
    }

    fn init(&mut self, ctx: &ComputeContext) -> (steps: Vec<Compilation>) {
        match self {
            ModelLossFunction::MeanSquared(loss) => LossFunction::<T>::init(loss, ctx),
            ModelLossFunction::CategoricalCrossEntropy(loss) => LossFunction::<T>::init(loss, ctx),
        }
    }

    fn compute_loss(
        &self,
        ctx: &mut ComputeContext,
        output_samples: &DeviceBuffer,
        expected_outputs: &DeviceBuffer,
        samples_amount: usize,
    ) -> (r: Result<LossComputation<T>, LossComputationError>) {
        match self {
            ModelLossFunction::MeanSquared(loss) => loss.compute_loss(
                ctx,
                output_samples,
                expected_outputs,
                samples_amount,
            ),
            ModelLossFunction::CategoricalCrossEntropy(loss) => loss.compute_loss(
                ctx,
                output_samples,
                expected_outputs,
                samples_amount,
            ),
        }
    }

    fn compute_loss_derivative_with_respect_to_output_samples(
        &self,
        ctx: &mut ComputeContext,
        output_samples: &DeviceBuffer,
        expected_outputs: &DeviceBuffer,
        samples_amount: usize,
    ) -> (r: Result<LossDerivatives<T>, LossToModelOutputsDerivativesComputationError>) {
        match self {
            ModelLossFunction::MeanSquared(loss) =>
                loss.compute_loss_derivative_with_respect_to_output_samples(
                    ctx,
                    output_samples,
                    expected_outputs,
                    samples_amount,
                ),
            ModelLossFunction::CategoricalCrossEntropy(loss) =>
                loss.compute_loss_derivative_with_respect_to_output_samples(
                    ctx,
                    output_samples,
                    expected_outputs,
                    samples_amount,
                ),
        }
    }
}

/// A layer that a model can be made of.
#[derive(Debug)]
pub enum ModelLayer<T> {
    Dense(Dense<T>),
    TanH(TanH),
    ReLU(ReLU),
}

/// The state of a layer of a model.
pub enum LayerView<T> {
    Dense(DenseView<T>),
    TanH(ActivationView),
    ReLU(ActivationView),
}

impl<T> View for ModelLayer<T> {
    type V = LayerView<T>;

    open spec fn view(&self) -> LayerView<T> {
        match self {
            ModelLayer::Dense(layer) => LayerView::Dense(layer@),
            ModelLayer::TanH(layer) => LayerView::TanH(layer@),
            ModelLayer::ReLU(layer) => LayerView::ReLU(layer@),
        }
    }
}

impl<T> LayerView<T> {
    /// The number of values of each sample that goes in.
    pub open spec fn inputs_amount(self) -> nat {
        match self {
            LayerView::Dense(layer) => layer.inputs_amount,
            LayerView::TanH(layer) => layer.inputs_amount,
            LayerView::ReLU(layer) => layer.inputs_amount,
        }
    }

    /// The number of values of each sample that comes out.
    pub open spec fn outputs_amount(self) -> nat {
        match self {
            LayerView::Dense(layer) => layer.outputs_amount,
            LayerView::TanH(layer) => layer.inputs_amount,
            LayerView::ReLU(layer) => layer.inputs_amount,
        }
    }

    /// The outputs of the last forward pass.
    pub open spec fn last_outputs(self) -> Option<DeviceBuffer> {
        match self {
            LayerView::Dense(layer) => layer.last_outputs_buffer,
            LayerView::TanH(layer) => layer.last_outputs_buffer,
            LayerView::ReLU(layer) => layer.last_outputs_buffer,
        }
    }

    /// The layer's parameters, if it has any, are on a device.
    pub open spec fn is_initialized(self) -> bool {
        self matches LayerView::Dense(layer) ==> layer.is_initialized()
    }

    /// The layer holds what a backward pass needs from the forward pass
    /// before it: a dense layer its inputs, an activation its outputs
    /// where the derivative with respect to its inputs is asked for.
    pub open spec fn has_cache_for(self, should_calculate_input_to_error_derivative: bool) -> bool {
        match self {
            LayerView::Dense(layer) => layer.last_inputs_buffer is Some,
            LayerView::TanH(layer) => should_calculate_input_to_error_derivative
                ==> layer.last_outputs_buffer is Some,
            LayerView::ReLU(layer) => should_calculate_input_to_error_derivative
                ==> layer.last_outputs_buffer is Some,
        }
    }

    /// The buffers that `init` makes for the layer's parameters, if it has
    /// any, or why it makes none.
    pub open spec fn init_buffers(self, ctx: ContextView) -> Result<Option<Parameters>, LayerError> {
        match self {
            LayerView::Dense(layer) => match layer.init_buffers(ctx) {
                Ok(parameters) => Ok(Some(parameters)),
                Err(e) => Err(e),
            },
            _ => if ctx.queues == 0 {
                Err(LayerError::NoCommandQueue)
            } else {
                Ok(None)
            },
        }
    }

    /// The steps with which `init` brings the layer's programs onto the
    /// device.
    pub open spec fn init_compilation(self, ctx: ContextView) -> Seq<Compilation> {
        match self {
            LayerView::Dense(_) => missing_steps(
                ctx,
                Program::DensePropagation,
                Program::DensePropagation.spec_kernels(),
            ) + missing_steps(
                ctx,
                Program::DenseBackPropagation,
                Program::DenseBackPropagation.spec_kernels(),
            ),
            LayerView::TanH(_) => missing_steps(ctx, Program::TanH, Program::TanH.spec_kernels()),
            LayerView::ReLU(_) => missing_steps(ctx, Program::ReLU, Program::ReLU.spec_kernels()),
        }
    }

    /// What `init` asks of the device once the programs are there.
    pub open spec fn init_commands(self, parameters: Option<Parameters>) -> Seq<CommandView<T>> {
        match self {
            LayerView::Dense(layer) => layer.init_commands(parameters.unwrap()),
            _ => Seq::empty(),
        }
    }

    /// The number of buffers that `init` makes.
    pub open spec fn init_reserves(self) -> nat {
        match self {
            LayerView::Dense(_) => 2,
            _ => 0,
        }
    }

    /// The layer once `parameters`, if there are any, have taken the place
    /// of its parameter buffers.
    pub open spec fn with_parameters(self, parameters: Option<Parameters>) -> LayerView<T> {
        match self {
            LayerView::Dense(layer) => LayerView::Dense(layer.with_parameters(parameters)),
            _ => self,
        }
    }

    /// The parameter buffers that `parameters`, if there are any, replace.
    pub open spec fn superseded_by(self, parameters: Option<Parameters>) -> Seq<
        Option<DeviceBuffer>,
    > {
        match self {
            LayerView::Dense(layer) => layer.superseded_by(parameters),
            _ => Seq::empty(),
        }
    }

    /// The buffers that `propagate` makes for the copy of `input` and for
    /// the outputs, or why it makes none.
    pub open spec fn propagate_buffers(self, ctx: ContextView, input: DeviceBuffer) -> Result<
        (DeviceBuffer, DeviceBuffer),
        LayerError,
    > {
        match self {
            LayerView::Dense(layer) => layer.propagate_buffers(ctx, input),
            LayerView::TanH(_) => activations::propagate_buffers(ctx, Program::TanH, input),
            LayerView::ReLU(_) => activations::propagate_buffers(ctx, Program::ReLU, input),
        }
    }

    /// What `propagate` asks of the device.
    pub open spec fn propagate_commands(
        self,
        input: DeviceBuffer,
        last_inputs: DeviceBuffer,
        outputs: DeviceBuffer,
    ) -> Seq<CommandView<T>> {
        match self {
            LayerView::Dense(layer) => layer.propagate_commands(input, last_inputs, outputs),
            LayerView::TanH(_) => activations::propagate_commands(
                Program::TanH,
                input,
                last_inputs,
                outputs,
            ),
            LayerView::ReLU(_) => activations::propagate_commands(
                Program::ReLU,
                input,
                last_inputs,
                outputs,
            ),
        }
    }

    /// The buffers of the layer's last forward pass, the inputs first.
    pub open spec fn cache(self) -> Seq<Option<DeviceBuffer>> {
        match self {
            LayerView::Dense(layer) => seq![layer.last_inputs_buffer, layer.last_outputs_buffer],
            LayerView::TanH(layer) => layer.slots(),
            LayerView::ReLU(layer) => layer.slots(),
        }
    }

    /// The layer once a forward pass has left `last_inputs` and `outputs`.
    pub open spec fn with_cache(self, last_inputs: DeviceBuffer, outputs: DeviceBuffer)
        -> LayerView<T> {
        match self {
            LayerView::Dense(layer) => LayerView::Dense(
                DenseView {
                    last_inputs_buffer: Some(last_inputs),
                    last_outputs_buffer: Some(outputs),
                    ..layer
                },
            ),
            LayerView::TanH(layer) => LayerView::TanH(
                ActivationView {
                    last_inputs_buffer: Some(last_inputs),
                    last_outputs_buffer: Some(outputs),
                    ..layer
                },
            ),
            LayerView::ReLU(layer) => LayerView::ReLU(
                ActivationView {
                    last_inputs_buffer: Some(last_inputs),
                    last_outputs_buffer: Some(outputs),
                    ..layer
                },
            ),
        }
    }

    /// The buffers that `back_propagate` makes, or why it makes none: the
    /// derivatives with respect to the inputs, where asked for, and the
    /// new parameters, if the layer has any.
    pub open spec fn back_propagate_buffers(
        self,
        ctx: ContextView,
        should_calculate_input_to_error_derivative: bool,
        layer_output_to_error_derivative: DeviceBuffer,
    ) -> Result<(Option<DeviceBuffer>, Option<Parameters>), LayerError> {
        match self {
            LayerView::Dense(layer) => match layer.back_propagate_buffers(
                ctx,
                should_calculate_input_to_error_derivative,
                layer_output_to_error_derivative,
            ) {
                Ok((input_derivatives, parameters)) => Ok((input_derivatives, Some(parameters))),
                Err(e) => Err(e),
            },
            LayerView::TanH(layer) => match activations::back_propagate_buffer(
                ctx,
                Program::TanH,
                should_calculate_input_to_error_derivative,
                layer.last_outputs_buffer,
            ) {
                Ok(input_derivatives) => Ok((input_derivatives, None)),
                Err(e) => Err(e),
            },
            LayerView::ReLU(layer) => match activations::back_propagate_buffer(
                ctx,
                Program::ReLU,
                should_calculate_input_to_error_derivative,
                layer.last_outputs_buffer,
            ) {
                Ok(input_derivatives) => Ok((input_derivatives, None)),
                Err(e) => Err(e),
            },
        }
    }

    /// What `back_propagate` asks of the device.
    pub open spec fn back_propagate_commands(
        self,
        layer_output_to_error_derivative: DeviceBuffer,
        learning_rate: T,
        input_derivatives: Option<DeviceBuffer>,
        parameters: Option<Parameters>,
    ) -> Seq<CommandView<T>> {
        match self {
            LayerView::Dense(layer) => layer.back_propagate_commands(
                layer_output_to_error_derivative,
                learning_rate,
                input_derivatives,
                parameters.unwrap(),
            ),
            LayerView::TanH(layer) => activations::back_propagate_commands(
                Program::TanH,
                layer_output_to_error_derivative,
                layer.last_outputs_buffer,
                input_derivatives,
            ),
            LayerView::ReLU(layer) => activations::back_propagate_commands(
                Program::ReLU,
                layer_output_to_error_derivative,
                layer.last_outputs_buffer,
                input_derivatives,
            ),
        }
    }

    /// The number of buffers that `back_propagate` makes.
    pub open spec fn back_propagate_reserves(
        self,
        should_calculate_input_to_error_derivative: bool,
    ) -> nat {
        let asked: nat = if should_calculate_input_to_error_derivative {
            1
        } else {
            0
        };
        match self {
            LayerView::Dense(_) => asked + 2,
            _ => asked,
        }
    }

    /// What reading the layer's parameters back asks of the device: nothing
    /// of a layer that has none.
    pub open spec fn read_commands(self) -> Seq<CommandView<T>> {
        match self {
            LayerView::Dense(layer) => layer.read_commands(),
            _ => Seq::empty(),
        }
    }

    /// Whether `weights` and `biases` have the shape of the layer's
    /// parameters. A layer that has none takes whatever comes.
    pub open spec fn takes(self, weights: Seq<T>, biases: Seq<T>) -> bool {
        match self {
            LayerView::Dense(layer) => weights.len() == layer.inputs_amount * layer.outputs_amount
                && biases.len() == layer.outputs_amount,
            _ => true,
        }
    }

    /// The layer once the host has taken over `weights`, row after row, and
    /// `biases`.
    pub open spec fn synced(self, weights: Seq<T>, biases: Seq<T>) -> LayerView<T> {
        match self {
            LayerView::Dense(layer) => LayerView::Dense(
                DenseView {
                    weights: matrix_from_flat(weights, layer.inputs_amount, layer.outputs_amount),
                    biases,
                    ..layer
                },
            ),
            _ => self,
        }
    }

    /// All the buffers of the layer, those of the parameters first.
    pub open spec fn slots(self) -> Seq<Option<DeviceBuffer>> {
        match self {
            LayerView::Dense(layer) => layer.slots(),
            LayerView::TanH(layer) => layer.slots(),
            LayerView::ReLU(layer) => layer.slots(),
        }
    }

    /// The layer once it has given up its buffers.
    pub open spec fn released(self) -> LayerView<T> {
        match self {
            LayerView::Dense(layer) => LayerView::Dense(
                DenseView {
                    weights_buffer: None,
                    biases_buffer: None,
                    last_inputs_buffer: None,
                    last_outputs_buffer: None,
                    ..layer
                },
            ),
            LayerView::TanH(layer) => LayerView::TanH(
                ActivationView { last_inputs_buffer: None, last_outputs_buffer: None, ..layer },
            ),
            LayerView::ReLU(layer) => LayerView::ReLU(
                ActivationView { last_inputs_buffer: None, last_outputs_buffer: None, ..layer },
            ),
        }
    }
}

impl<T: Copy> ModelLayer<T> {
    /// The number of values of each sample that goes in.
    pub fn get_inputs_amount(&self) -> (n: usize)
        ensures
            n == self@.inputs_amount(),
    {
        match self {
            ModelLayer::Dense(layer) => layer.get_inputs_amount(),
            ModelLayer::TanH(layer) => layer.get_inputs_amount(),
            ModelLayer::ReLU(layer) => layer.get_inputs_amount(),
        }
    }

    /// The number of values of each sample that comes out.
    pub fn get_outputs_amount(&self) -> (n: usize)
        ensures
            n == self@.outputs_amount(),
    {
        match self {
            ModelLayer::Dense(layer) => layer.get_outputs_amount(),
            ModelLayer::TanH(layer) => layer.get_outputs_amount(),
            ModelLayer::ReLU(layer) => layer.get_outputs_amount(),
        }
    }

    /// The outputs of the last forward pass.
    pub fn get_last_outputs(&self) -> (buffer: Option<DeviceBuffer>)
        ensures
            buffer == self@.last_outputs(),
    {
        match self {
            ModelLayer::Dense(layer) => layer.get_last_outputs(),
            ModelLayer::TanH(layer) => layer.get_last_outputs(),
            ModelLayer::ReLU(layer) => layer.get_last_outputs(),
        }
    }

    /// Whether the layer's parameters, if it has any, are on a device.
    pub fn is_initialized(&self) -> (initialized: bool)
        ensures
            initialized == self@.is_initialized(),
    {
        match self {
            ModelLayer::Dense(layer) => layer.is_initialized(),
            _ => true,
        }
    }

    /// Whether the layer holds what a backward pass needs from the forward
    /// pass before it.
    pub fn has_cache_for(&self, should_calculate_input_to_error_derivative: bool) -> (has: bool)
        ensures
            has == self@.has_cache_for(should_calculate_input_to_error_derivative),
    {
        match self {
            ModelLayer::Dense(layer) => layer.get_last_inputs().is_some(),
            ModelLayer::TanH(layer) => !should_calculate_input_to_error_derivative
                || layer.get_last_outputs().is_some(),
            ModelLayer::ReLU(layer) => !should_calculate_input_to_error_derivative
                || layer.get_last_outputs().is_some(),
        }
    }

    /// Plans how the layer gets onto the device: what it needs compiled,
    /// and where its parameters go, if it has any.
    pub fn init(&self, ctx: &mut ComputeContext) -> (r: Result<Initialization<T>, LayerError>)
        ensures
            match r {
                Ok(plan) => {
                    &&& self@.init_buffers(old(ctx)@) == Ok::<_, LayerError>(plan.parameters)
                    &&& plan.compilation@ == self@.init_compilation(old(ctx)@)
                    &&& plan_of(plan.commands@) == self@.init_commands(plan.parameters)
                    &&& final(ctx)@ == after_reserving(old(ctx)@, self@.init_reserves())
                },
                Err(e) => {
                    &&& self@.init_buffers(old(ctx)@) == Err::<Option<Parameters>, _>(e)
                    &&& final(ctx)@ == old(ctx)@
                },
            },
    {
        match self {
            ModelLayer::Dense(layer) => layer.init(ctx),
            ModelLayer::TanH(layer) => {
                let r = layer.init(ctx);
                proof {
                    if r is Ok {
                        assert(plan_of(r->Ok_0.commands@) =~= Seq::<CommandView<T>>::empty());
                    }
                }
                r
            },
            ModelLayer::ReLU(layer) => {
                let r = layer.init(ctx);
                proof {
                    if r is Ok {
                        assert(plan_of(r->Ok_0.commands@) =~= Seq::<CommandView<T>>::empty());
                    }
                }
                r
            },
        }
    }

    /// The device has carried out `plan`: the layer takes over the
    /// parameter buffers that the plan names, and those that they replace
    /// are to be freed.
    pub fn finish_init(&mut self, plan: &Initialization<T>) -> (superseded: Vec<Command<T>>)
        ensures
            final(self)@ == old(self)@.with_parameters(plan.parameters),
            plan_of(superseded@) == releases::<T>(
                held(old(self)@.superseded_by(plan.parameters)),
            ),
    {
        match self {
            ModelLayer::Dense(layer) => layer.finish_init(plan),
            _ => {
                let none: Vec<Command<T>> = Vec::new();
                proof {
                    assert(plan_of(none@) =~= releases::<T>(held(Seq::empty())));
                }
                none
            },
        }
    }

    /// Plans one forward pass over the samples in `input`.
    pub fn propagate(&self, ctx: &mut ComputeContext, input: &DeviceBuffer) -> (r: Result<
        Propagation<T>,
        LayerError,
    >)
        requires
            self@.is_initialized(),
        ensures
            match r {
                Ok(plan) => {
                    &&& self@.propagate_buffers(old(ctx)@, *input) == Ok::<_, LayerError>(
                        (plan.last_inputs, plan.outputs),
                    )
                    &&& plan_of(plan.commands@) == self@.propagate_commands(
                        *input,
                        plan.last_inputs,
                        plan.outputs,
                    )
                    &&& final(ctx)@ == after_reserving(old(ctx)@, 2)
                },
                Err(e) => {
                    &&& self@.propagate_buffers(old(ctx)@, *input) == Err::<
                        (DeviceBuffer, DeviceBuffer),
                        _,
                    >(e)
                    &&& final(ctx)@ == old(ctx)@
                },
            },
    {
        match self {
            ModelLayer::Dense(layer) => layer.propagate(ctx, input),
            ModelLayer::TanH(layer) => layer.propagate(ctx, input),
            ModelLayer::ReLU(layer) => layer.propagate(ctx, input),
        }
    }

    /// The device has carried out `plan`: its buffers are now the layer's
    /// cache of the last forward pass, and the buffers of the pass before
    /// are to be freed.
    pub fn finish_propagate(&mut self, plan: &Propagation<T>) -> (superseded: Vec<Command<T>>)
        ensures
            final(self)@ == old(self)@.with_cache(plan.last_inputs, plan.outputs),
            plan_of(superseded@) == releases::<T>(held(old(self)@.cache())),
    {
        match self {
            ModelLayer::Dense(layer) => layer.finish_propagate(plan),
            ModelLayer::TanH(layer) => layer.finish_propagate(plan),
            ModelLayer::ReLU(layer) => layer.finish_propagate(plan),
        }
    }

    /// Plans one backward pass from the derivative of the loss with
    /// respect to the layer's outputs.
    pub fn back_propagate(
        &self,
        ctx: &mut ComputeContext,
        should_calculate_input_to_error_derivative: bool,
        layer_output_to_error_derivative: &DeviceBuffer,
        learning_rate: T,
    ) -> (r: Result<BackPropagation<T>, LayerError>)
        requires
            self@.is_initialized(),
            self@.has_cache_for(should_calculate_input_to_error_derivative),
        ensures
            match r {
                Ok(plan) => {
                    &&& self@.back_propagate_buffers(
                        old(ctx)@,
                        should_calculate_input_to_error_derivative,
                        *layer_output_to_error_derivative,
                    ) == Ok::<_, LayerError>((plan.input_derivatives, plan.parameters))
                    &&& plan_of(plan.commands@) == self@.back_propagate_commands(
                        *layer_output_to_error_derivative,
                        learning_rate,
                        plan.input_derivatives,
                        plan.parameters,
                    )
                    &&& final(ctx)@ == after_reserving(
                        old(ctx)@,
                        self@.back_propagate_reserves(should_calculate_input_to_error_derivative),
                    )
                },
                Err(e) => {
                    &&& self@.back_propagate_buffers(
                        old(ctx)@,
                        should_calculate_input_to_error_derivative,
                        *layer_output_to_error_derivative,
                    ) == Err::<(Option<DeviceBuffer>, Option<Parameters>), _>(e)
                    &&& final(ctx)@ == old(ctx)@
                },
            },
    {
        match self {
            ModelLayer::Dense(layer) => layer.back_propagate(
                ctx,
                should_calculate_input_to_error_derivative,
                layer_output_to_error_derivative,
                learning_rate,
            ),
            ModelLayer::TanH(layer) => layer.back_propagate(
                ctx,
                should_calculate_input_to_error_derivative,
                layer_output_to_error_derivative,
                learning_rate,
            ),
            ModelLayer::ReLU(layer) => layer.back_propagate(
                ctx,
                should_calculate_input_to_error_derivative,
                layer_output_to_error_derivative,
                learning_rate,
            ),
        }
    }

    /// The device has carried out `plan`: the layer takes over the
    /// parameter buffers that the plan names, and those that they replace
    /// are to be freed.
    pub fn finish_back_propagate(&mut self, plan: &BackPropagation<T>) -> (superseded: Vec<
        Command<T>,
    >)
        ensures
            final(self)@ == old(self)@.with_parameters(plan.parameters),
            plan_of(superseded@) == releases::<T>(
                held(old(self)@.superseded_by(plan.parameters)),
            ),
    {
        match self {
            ModelLayer::Dense(layer) => layer.finish_back_propagate(plan),
            _ => {
                let none: Vec<Command<T>> = Vec::new();
                proof {
                    assert(plan_of(none@) =~= releases::<T>(held(Seq::empty())));
                }
                none
            },
        }
    }

    /// Plans how the device's parameters get back to the host. A layer
    /// without parameters asks for nothing.
    pub fn read_parameters(&self, ctx: &ComputeContext) -> (r: Result<Vec<Command<T>>, LayerError>)
        requires
            self@.is_initialized(),
        ensures
            r is Ok <==> ctx@.queues > 0,
            r matches Ok(commands) ==> plan_of(commands@) == self@.read_commands(),
            r matches Err(e) ==> e == LayerError::NoCommandQueue,
    {
        match self {
            ModelLayer::Dense(layer) => layer.read_parameters(ctx),
            _ => {
                if ctx.queues() == 0 {
                    return Err(LayerError::NoCommandQueue);
                }
                let commands: Vec<Command<T>> = Vec::new();
                proof {
                    assert(plan_of(commands@) =~= Seq::<CommandView<T>>::empty());
                }
                Ok(commands)
            },
        }
    }

    /// Takes over what the device's parameter buffers held. The host's
    /// copies change exactly when both have the layer's shape; a layer
    /// without parameters has nothing to take and stays as it is.
    pub fn sync_data_from_buffers_to_host(&mut self, weights: &Vec<T>, biases: Vec<T>) -> (synced:
        bool)
        ensures
            synced <==> old(self)@.takes(weights@, biases@),
            synced ==> final(self)@ == old(self)@.synced(weights@, biases@),
            !synced ==> final(self)@ == old(self)@,
    {
        match self {
            ModelLayer::Dense(layer) => layer.sync_data_from_buffers_to_host(weights, biases),
            _ => true,
        }
    }

    /// Gives up every buffer that the layer holds on the device. A layer
    /// that holds none stays as it is and asks for nothing.
    pub fn clean_up_gpu_state(&mut self) -> (commands: Vec<Command<T>>)
        ensures
            final(self)@ == old(self)@.released(),
            plan_of(commands@) == releases::<T>(held(old(self)@.slots())),
            held(final(self)@.slots()) == Seq::<DeviceBuffer>::empty(),
    {
        match self {
            ModelLayer::Dense(layer) => layer.clean_up_gpu_state(),
            ModelLayer::TanH(layer) => layer.clean_up_gpu_state(),
            ModelLayer::ReLU(layer) => layer.clean_up_gpu_state(),
        }
    }
}

/// A forward pass can be repeated: after a pass, the same input with
/// unchanged parameters gives the same commands on the same buffers, and
/// buffers of the same sizes for the results, as long as handles are left.
pub proof fn lemma_propagate_is_repeatable<T>(
    layer: LayerView<T>,
    ctx: ContextView,
    input: DeviceBuffer,
)
    requires
        layer.propagate_buffers(ctx, input) is Ok,
    ensures
        ({
            let first = layer.propagate_buffers(ctx, input)->Ok_0;
            let again = layer.with_cache(first.0, first.1);
            let later = after_reserving(ctx, 2);
            &&& forall|last_inputs: DeviceBuffer, outputs: DeviceBuffer| #[trigger]
                again.propagate_commands(input, last_inputs, outputs) == layer.propagate_commands(
                    input,
                    last_inputs,
                    outputs,
                )
            &&& later.next_buffer + 2 <= u64::MAX ==> {
                &&& again.propagate_buffers(later, input) matches Ok(second)
                &&& second.0.len == first.0.len
                &&& second.1.len == first.1.len
            }
        }),
{
}

/// A forward pass keeps the number of samples: of an input of `samples`
/// samples of as many values as the layer takes, it copies all and gives
/// `samples` samples of as many values as the layer gives. So the outputs
/// of a layer are a fit input for a next layer that takes what it gives.
pub proof fn lemma_propagate_keeps_samples<T>(
    layer: LayerView<T>,
    ctx: ContextView,
    input: DeviceBuffer,
    samples: nat,
)
    requires
        layer.inputs_amount() > 0,
        input.len == samples * layer.inputs_amount(),
        layer.propagate_buffers(ctx, input) is Ok,
    ensures
        ({
            let made = layer.propagate_buffers(ctx, input)->Ok_0;
            &&& made.0.len == input.len
            &&& made.1.len == samples * layer.outputs_amount()
        }),
{
    let per_sample = layer.inputs_amount() as int;
    assert((samples * per_sample) / per_sample == samples) by (nonlinear_arith)
        requires
            per_sample > 0,
            samples >= 0,
    ;
}

/// A backward pass writes to buffers of its own: every buffer that it
/// makes has a handle that was not given out before, so none is the
/// derivative that came in or any other buffer that exists, and no two of
/// them are the same.
pub proof fn lemma_back_propagate_makes_new_buffers<T>(
    layer: LayerView<T>,
    ctx: ContextView,
    should_calculate_input_to_error_derivative: bool,
    layer_output_to_error_derivative: DeviceBuffer,
)
    requires
        layer.back_propagate_buffers(
            ctx,
            should_calculate_input_to_error_derivative,
            layer_output_to_error_derivative,
        ) is Ok,
    ensures
        ({
            let made = layer.back_propagate_buffers(
                ctx,
                should_calculate_input_to_error_derivative,
                layer_output_to_error_derivative,
            )->Ok_0;
            &&& made.0 is Some <==> should_calculate_input_to_error_derivative
            &&& made.0 matches Some(derivatives) ==> derivatives.id >= ctx.next_buffer
            &&& made.1 matches Some(parameters) ==> {
                &&& parameters.weights_buffer.id >= ctx.next_buffer
                &&& parameters.biases_buffer.id > parameters.weights_buffer.id
                &&& made.0 matches Some(derivatives) ==> parameters.weights_buffer.id
                    > derivatives.id
            }
        }),
{
}

/// A layer that has given up its buffers holds none, and giving them up
/// again changes nothing.
pub proof fn lemma_released_holds_nothing<T>(layer: LayerView<T>)
    ensures
        held(layer.released().slots()) == Seq::<DeviceBuffer>::empty(),
        layer.released().released() == layer.released(),
{
    lemma_nothing_held(layer.released().slots());
}

/// A forward pass creates the two buffers that its plan names and frees
/// none: they are what the layer takes over when the pass succeeds, and
/// what is to be freed when it fails after both were created.
pub proof fn lemma_propagate_creates_its_results<T>(
    layer: LayerView<T>,
    input: DeviceBuffer,
    last_inputs: DeviceBuffer,
    outputs: DeviceBuffer,
)
    ensures
        outstanding(layer.propagate_commands(input, last_inputs, outputs)) == seq![
            last_inputs,
            outputs,
        ],
{
    let plan = layer.propagate_commands(input, last_inputs, outputs);
    let none = Seq::<CommandView<T>>::empty();
    match layer {
        LayerView::Dense(_) => {
            let one = none.push(plan[0]);
            let two = one.push(plan[1]);
            let three = two.push(plan[2]);
            let four = three.push(plan[3]);
            assert(plan =~= four.push(plan[4]));
            lemma_outstanding_push(none, plan[0]);
            lemma_outstanding_push(one, plan[1]);
            lemma_outstanding_push(two, plan[2]);
            lemma_outstanding_push(three, plan[3]);
            lemma_outstanding_push(four, plan[4]);
        },
        _ => {
            let one = none.push(plan[0]);
            let two = one.push(plan[1]);
            let three = two.push(plan[2]);
            let four = three.push(plan[3]);
            let five = four.push(plan[4]);
            assert(plan =~= five.push(plan[5]));
            lemma_outstanding_push(none, plan[0]);
            lemma_outstanding_push(one, plan[1]);
            lemma_outstanding_push(two, plan[2]);
            lemma_outstanding_push(three, plan[3]);
            lemma_outstanding_push(four, plan[4]);
            lemma_outstanding_push(five, plan[5]);
        },
    }
    assert(outstanding(plan) =~= seq![last_inputs, outputs]);
}

/// A backward pass creates the buffers that its plan names and frees none:
/// the derivative with respect to the inputs, where there is one, and the
/// new parameters, where the layer has any.
pub proof fn lemma_back_propagate_creates_its_results<T>(
    layer: LayerView<T>,
    layer_output_to_error_derivative: DeviceBuffer,
    learning_rate: T,
    input_derivatives: Option<DeviceBuffer>,
    parameters: Option<Parameters>,
)
    requires
        layer is Dense <==> parameters is Some,
    ensures
        outstanding(
            layer.back_propagate_commands(
                layer_output_to_error_derivative,
                learning_rate,
                input_derivatives,
                parameters,
            ),
        ) == held(
            seq![
                input_derivatives,
                match parameters {
                    Some(new) => Some(new.weights_buffer),
                    None => None,
                },
                match parameters {
                    Some(new) => Some(new.biases_buffer),
                    None => None,
                },
            ],
        ),
{
    let plan = layer.back_propagate_commands(
        layer_output_to_error_derivative,
        learning_rate,
        input_derivatives,
        parameters,
    );
    let slots = seq![
        input_derivatives,
        match parameters {
            Some(new) => Some(new.weights_buffer),
            None => None,
        },
        match parameters {
            Some(new) => Some(new.biases_buffer),
            None => None,
        },
    ];
    let none = Seq::<CommandView<T>>::empty();
    let no_slot = Seq::<Option<DeviceBuffer>>::empty();
    let first = no_slot.push(slots[0]);
    let second = first.push(slots[1]);
    assert(slots =~= second.push(slots[2]));
    lemma_held_push(no_slot, slots[0]);
    lemma_held_push(first, slots[1]);
    lemma_held_push(second, slots[2]);
    match layer {
        LayerView::Dense(dense) => {
            let update = dense.update_commands(
                layer_output_to_error_derivative,
                learning_rate,
                parameters.unwrap(),
            );
            match input_derivatives {
                Some(buffer) => {
                    let asked = dense.input_derivative_commands(
                        layer_output_to_error_derivative,
                        buffer,
                    );
                    let one = none.push(plan[0]);
                    let two = one.push(plan[1]);
                    let three = two.push(plan[2]);
                    let four = three.push(plan[3]);
                    let five = four.push(plan[4]);
                    let six = five.push(plan[5]);
                    let seven = six.push(plan[6]);
                    assert(plan =~= asked + update);
                    assert(plan =~= seven.push(plan[7]));
                    lemma_outstanding_push(none, plan[0]);
                    lemma_outstanding_push(one, plan[1]);
                    lemma_outstanding_push(two, plan[2]);
                    lemma_outstanding_push(three, plan[3]);
                    lemma_outstanding_push(four, plan[4]);
                    lemma_outstanding_push(five, plan[5]);
                    lemma_outstanding_push(six, plan[6]);
                    lemma_outstanding_push(seven, plan[7]);
                },
                None => {
                    let one = none.push(plan[0]);
                    let two = one.push(plan[1]);
                    let three = two.push(plan[2]);
                    let four = three.push(plan[3]);
                    assert(plan =~= update);
                    assert(plan =~= four.push(plan[4]));
                    lemma_outstanding_push(none, plan[0]);
                    lemma_outstanding_push(one, plan[1]);
                    lemma_outstanding_push(two, plan[2]);
                    lemma_outstanding_push(three, plan[3]);
                    lemma_outstanding_push(four, plan[4]);
                },
            }
        },
        _ => {
            match input_derivatives {
                Some(buffer) => {
                    let one = none.push(plan[0]);
                    let two = one.push(plan[1]);
                    assert(plan =~= two.push(plan[2]));
                    lemma_outstanding_push(none, plan[0]);
                    lemma_outstanding_push(one, plan[1]);
                    lemma_outstanding_push(two, plan[2]);
                },
                None => {
                    assert(plan =~= none);
                },
            }
        },
    }
    assert(outstanding(plan) =~= held(slots));
}

} // verus!
