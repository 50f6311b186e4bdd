//! One batch on its way through a model: which step comes next, which
//! buffer it takes, and which buffers are done with once it is over.
//!
//! The outputs of each layer are the inputs of the next; the derivative
//! that the loss function gives goes into the last layer, and the
//! derivative with respect to the inputs of each layer into the layer
//! before. A derivative belongs to the pass: the step that takes it frees
//! it.

use crate::commands::held;
use crate::commands::lemma_held_concat;
use crate::commands::plan_of;
use crate::commands::release_held;
use crate::commands::releases;
use crate::commands::Command;
use crate::device::after_reserving;
use crate::device::ComputeContext;
use crate::device::ContextView;
use crate::device::DeviceBuffer;
use crate::layers::BackPropagation;
use crate::layers::LayerError;
use crate::layers::Parameters;
use crate::layers::Propagation;
use crate::loss_functions::derivatives_commands;
use crate::loss_functions::derivatives_error;
use crate::loss_functions::loss_commands;
use crate::loss_functions::loss_error;
use crate::loss_functions::refusal;
use crate::loss_functions::LossComputation;
use crate::loss_functions::LossComputationError;
use crate::loss_functions::LossDerivatives;
use crate::loss_functions::LossFunction;
use crate::loss_functions::LossToModelOutputsDerivativesComputationError;
use crate::model::Model;
use crate::model::ModelView;
use crate::model::Step;
use crate::programs::Kernel;
use crate::types::LayerView;
use crate::types::ModelLossFunction;
use vstd::prelude::*;

verus! {

/// Where a batch is on its way through the model.
#[derive(Clone, Copy, Debug, PartialEq, Eq, Structural)]
pub struct BatchPass {
    /// The index of the step that comes next.
    pub next_step: usize,
    /// The inputs of the batch's samples.
    pub inputs: DeviceBuffer,
    /// The expected outputs of the batch's samples.
    pub expected_outputs: DeviceBuffer,
    /// The number of samples in the batch.
    pub samples_amount: usize,
    /// What the next layer takes on the way forward: the batch's inputs at
    /// first, then the outputs of the layer before.
    pub outputs: DeviceBuffer,
    /// What the next layer takes on the way back: the derivative of the
    /// loss with respect to its outputs.
    pub derivative: Option<DeviceBuffer>,
}

/// Why a step of a batch could not be planned.
#[derive(Clone, Copy, Debug, PartialEq, Eq, Structural)]
pub enum StepError {
    /// A layer could not do its part.
    Layer(LayerError),
    /// The loss could not be computed.
    LossComputation(LossComputationError),
    /// The derivative of the loss could not be computed.
    LossDerivatives(LossToModelOutputsDerivativesComputationError),
}

/// What one step of a batch asks of the device.
#[derive(Debug, PartialEq)]
pub enum StepPlan<T> {
    Propagate { layer: usize, propagation: Propagation<T> },
    ComputeLoss { computation: LossComputation<T> },
    ComputeLossDerivatives { derivation: LossDerivatives<T> },
    BackPropagate { layer: usize, back_propagation: BackPropagation<T> },
}

impl<T> StepPlan<T> {
    /// The layer that the step is about, if it is about one.
    pub open spec fn spec_layer(self) -> Option<usize> {
        match self {
            StepPlan::Propagate { layer, .. } => Some(layer),
            StepPlan::BackPropagate { layer, .. } => Some(layer),
            _ => None,
        }
    }

    /// The commands of the step.
    pub open spec fn spec_commands(self) -> Seq<Command<T>> {
        match self {
            StepPlan::Propagate { propagation: plan, .. } => plan.commands@,
            StepPlan::ComputeLoss { computation: plan } => plan.commands@,
            StepPlan::ComputeLossDerivatives { derivation: plan } => plan.commands@,
            StepPlan::BackPropagate { back_propagation: plan, .. } => plan.commands@,
        }
    }

    /// The layer that the step is about, if it is about one.
    pub fn layer(&self) -> (layer: Option<usize>)
        ensures
            layer == self.spec_layer(),
    {
        match self {
            StepPlan::Propagate { layer, .. } => Some(*layer),
            StepPlan::BackPropagate { layer, .. } => Some(*layer),
            _ => None,
        }
    }

    /// The commands to carry out for the step, in order.
    pub fn commands(&self) -> (commands: &Vec<Command<T>>)
        ensures
            commands@ == self.spec_commands(),
    {
        match self {
            StepPlan::Propagate { propagation: plan, .. } => &plan.commands,
            StepPlan::ComputeLoss { computation: plan } => &plan.commands,
            StepPlan::ComputeLossDerivatives { derivation: plan } => &plan.commands,
            StepPlan::BackPropagate { back_propagation: plan, .. } => &plan.commands,
        }
    }
}

/// Whether `r` is what the forward pass of `layer` over `input` comes to,
/// on a context that is `before` and then `after`.
pub open spec fn propagated<T>(
    layer: LayerView<T>,
    before: ContextView,
    after: ContextView,
    input: DeviceBuffer,
    r: Result<Propagation<T>, LayerError>,
) -> bool {
    match r {
        Ok(plan) => {
            &&& layer.propagate_buffers(before, input) == Ok::<_, LayerError>(
                (plan.last_inputs, plan.outputs),
            )
            &&& plan_of(plan.commands@) == layer.propagate_commands(
                input,
                plan.last_inputs,
                plan.outputs,
            )
            &&& after == after_reserving(before, 2)
        },
        Err(e) => {
            &&& layer.propagate_buffers(before, input) == Err::<(DeviceBuffer, DeviceBuffer), _>(e)
            &&& after == before
        },
    }
}

/// Whether `r` is what the backward pass of `layer` from `derivative` comes
/// to, on a context that is `before` and then `after`.
pub open spec fn back_propagated<T>(
    layer: LayerView<T>,
    before: ContextView,
    after: ContextView,
    should_calculate_input_to_error_derivative: bool,
    derivative: DeviceBuffer,
    learning_rate: T,
    r: Result<BackPropagation<T>, LayerError>,
) -> bool {
    match r {
        Ok(plan) => {
            &&& layer.back_propagate_buffers(
                before,
                should_calculate_input_to_error_derivative,
                derivative,
            ) == Ok::<_, LayerError>((plan.input_derivatives, plan.parameters))
            &&& plan_of(plan.commands@) == layer.back_propagate_commands(
                derivative,
                learning_rate,
                plan.input_derivatives,
                plan.parameters,
            )
            &&& after == after_reserving(
                before,
                layer.back_propagate_reserves(should_calculate_input_to_error_derivative),
            )
        },
        Err(e) => {
            &&& layer.back_propagate_buffers(
                before,
                should_calculate_input_to_error_derivative,
                derivative,
            ) == Err::<(Option<DeviceBuffer>, Option<Parameters>), _>(e)
            &&& after == before
        },
    }
}

/// Whether `r` is what the computation of the loss of `pass` comes to.
pub open spec fn loss_computed<T>(
    loss: ModelLossFunction,
    before: ContextView,
    after: ContextView,
    pass: BatchPass,
    r: Result<LossComputation<T>, LossComputationError>,
) -> bool {
    let initialized = LossFunction::<T>::is_initialized(&loss);
    let program = LossFunction::<T>::program(&loss);
    let why = refusal(
        initialized,
        before,
        program,
        Kernel::ComputeLoss,
        pass.outputs,
        pass.expected_outputs,
        pass.samples_amount,
        pass.samples_amount as int,
    );
    match r {
        Ok(plan) => {
            &&& why is None
            &&& plan.sample_losses == (DeviceBuffer {
                id: before.next_buffer as u64,
                len: pass.samples_amount,
            })
            &&& plan.samples_amount == pass.samples_amount
            &&& plan.outputs_amount == pass.outputs.len as int / pass.samples_amount as int
            &&& plan_of(plan.commands@) == loss_commands::<T>(
                program,
                pass.outputs,
                pass.expected_outputs,
                plan.sample_losses,
                pass.samples_amount,
            )
            &&& after == after_reserving(before, 1)
        },
        Err(e) => {
            &&& why matches Some(reason)
            &&& e == loss_error(reason, program, Kernel::ComputeLoss)
            &&& after == before
        },
    }
}

/// Whether `r` is what the computation of the derivative of the loss of
/// `pass` comes to.
pub open spec fn loss_derived<T>(
    loss: ModelLossFunction,
    before: ContextView,
    after: ContextView,
    pass: BatchPass,
    r: Result<LossDerivatives<T>, LossToModelOutputsDerivativesComputationError>,
) -> bool {
    let initialized = LossFunction::<T>::is_initialized(&loss);
    let program = LossFunction::<T>::program(&loss);
    let why = refusal(
        initialized,
        before,
        program,
        Kernel::ComputeLossToOutputDerivatives,
        pass.outputs,
        pass.expected_outputs,
        pass.samples_amount,
        pass.outputs.len as int,
    );
    match r {
        Ok(plan) => {
            &&& why is None
            &&& plan.derivatives == (DeviceBuffer {
                id: before.next_buffer as u64,
                len: pass.outputs.len,
            })
            &&& plan_of(plan.commands@) == derivatives_commands::<T>(
                program,
                pass.outputs,
                pass.expected_outputs,
                plan.derivatives,
                pass.samples_amount,
            )
            &&& after == after_reserving(before, 1)
        },
        Err(e) => {
            &&& why matches Some(reason)
            &&& e == derivatives_error(reason, program, Kernel::ComputeLossToOutputDerivatives)
            &&& after == before
        },
    }
}

/// Whether the step that comes next in `pass` can be planned: there is
/// one; if it is about a layer, the model has that layer and the layer is
/// initialized; and if it goes backward, there is a derivative to take and
/// the layer holds what it needs from the way forward.
pub open spec fn ready_for<T>(model: ModelView<T>, steps: Seq<Step>, pass: BatchPass) -> bool {
    &&& pass.next_step < steps.len()
    &&& match steps[pass.next_step as int] {
        Step::Propagate { layer } => {
            &&& layer < model.layers.len()
            &&& model.layers[layer as int].is_initialized()
        },
        Step::BackPropagate { layer, .. } => {
            &&& layer < model.layers.len()
            &&& model.layers[layer as int].is_initialized()
            &&& pass.derivative is Some
            &&& model.layers[layer as int].has_cache_for(model.asks_input_derivative(layer as int))
        },
        _ => true,
    }
}

/// Whether `r` is what `step` comes to for `pass`: a forward step takes
/// what flows forward, the loss looks at it, a backward step takes the
/// derivative that flows back.
pub open spec fn step_planned<T>(
    model: ModelView<T>,
    loss: ModelLossFunction,
    before: ContextView,
    after: ContextView,
    pass: BatchPass,
    step: Step,
    learning_rate: T,
    r: Result<StepPlan<T>, StepError>,
) -> bool {
    match step {
        Step::Propagate { layer } => match r {
            Ok(StepPlan::Propagate { layer: planned, propagation: plan }) => planned == layer && propagated(
                model.layers[layer as int],
                before,
                after,
                pass.outputs,
                Ok(plan),
            ),
            Err(StepError::Layer(e)) => propagated(
                model.layers[layer as int],
                before,
                after,
                pass.outputs,
                Err(e),
            ),
            _ => false,
        },
        Step::ComputeLoss => match r {
            Ok(StepPlan::ComputeLoss { computation: plan }) => loss_computed(loss, before, after, pass, Ok(plan)),
            Err(StepError::LossComputation(e)) => loss_computed::<T>(
                loss,
                before,
                after,
                pass,
                Err(e),
            ),
            _ => false,
        },
        Step::ComputeLossDerivatives => match r {
            Ok(StepPlan::ComputeLossDerivatives { derivation: plan }) => loss_derived(
                loss,
                before,
                after,
                pass,
                Ok(plan),
            ),
            Err(StepError::LossDerivatives(e)) => loss_derived::<T>(
                loss,
                before,
                after,
                pass,
                Err(e),
            ),
            _ => false,
        },
        Step::BackPropagate { layer, .. } => match r {
            Ok(StepPlan::BackPropagate { layer: planned, back_propagation: plan }) => planned == layer
                && back_propagated(
                model.layers[layer as int],
                before,
                after,
                model.asks_input_derivative(layer as int),
                pass.derivative.unwrap(),
                learning_rate,
                Ok(plan),
            ),
            Err(StepError::Layer(e)) => back_propagated(
                model.layers[layer as int],
                before,
                after,
                model.asks_input_derivative(layer as int),
                pass.derivative.unwrap(),
                learning_rate,
                Err(e),
            ),
            _ => false,
        },
    }
}

/// The index of the step after step `step`.
pub open spec fn step_after(step: usize) -> usize {
    if step < usize::MAX {
        (step + 1) as usize
    } else {
        step
    }
}

/// The pass once the device has carried out `plan`: the next step comes
/// next; the outputs of a layer flow forward; the derivative of the loss,
/// and then the derivative with respect to the inputs of a layer, flows
/// back.
pub open spec fn pass_after<T>(pass: BatchPass, plan: StepPlan<T>) -> BatchPass {
    let next_step = step_after(pass.next_step);
    match plan {
        StepPlan::Propagate { propagation: plan, .. } => BatchPass { next_step, outputs: plan.outputs, ..pass },
        StepPlan::ComputeLoss { .. } => BatchPass { next_step, ..pass },
        StepPlan::ComputeLossDerivatives { derivation: plan } => BatchPass {
            next_step,
            derivative: Some(plan.derivatives),
            ..pass
        },
        StepPlan::BackPropagate { back_propagation: plan, .. } => BatchPass {
            next_step,
            derivative: plan.input_derivatives,
            ..pass
        },
    }
}

/// The model once the device has carried out `plan`: a layer that went
/// forward has a new cache, a layer that went backward new parameters.
pub open spec fn model_after<T>(model: ModelView<T>, plan: StepPlan<T>) -> ModelView<T> {
    match plan {
        StepPlan::Propagate { layer, propagation: plan } => model.with_layer(
            layer as int,
            model.layers[layer as int].with_cache(plan.last_inputs, plan.outputs),
        ),
        StepPlan::BackPropagate { layer, back_propagation: plan } => model.with_layer(
            layer as int,
            model.layers[layer as int].with_parameters(plan.parameters),
        ),
        _ => model,
    }
}

/// The buffers that are done with once the device has carried out `plan`:
/// the cache that a forward step replaces; the parameters that a backward
/// step replaces and the derivative that it took; a derivative that a new
/// one replaces.
pub open spec fn done_with<T>(model: ModelView<T>, pass: BatchPass, plan: StepPlan<T>) -> Seq<
    Option<DeviceBuffer>,
> {
    match plan {
        StepPlan::Propagate { layer, .. } => model.layers[layer as int].cache(),
        StepPlan::ComputeLoss { .. } => Seq::empty(),
        StepPlan::ComputeLossDerivatives { .. } => seq![pass.derivative],
        StepPlan::BackPropagate { layer, back_propagation: plan } => model.layers[layer as int].superseded_by(
            plan.parameters,
        ) + seq![pass.derivative],
    }
}

/// The pass of a batch before its first step: the batch's inputs flow
/// into the first layer, and nothing flows back yet.
pub fn begin_batch(inputs: DeviceBuffer, expected_outputs: DeviceBuffer, samples_amount: usize)
    -> (pass: BatchPass)
    ensures
        pass == (BatchPass {
            next_step: 0,
            inputs,
            expected_outputs,
            samples_amount,
            outputs: inputs,
            derivative: None,
        }),
{
    BatchPass {
        next_step: 0,
        inputs,
        expected_outputs,
        samples_amount,
        outputs: inputs,
        derivative: None,
    }
}

/// Whether the step that comes next in `pass` can be planned.
pub fn is_ready_for<T: Copy>(model: &Model<T>, steps: &Vec<Step>, pass: &BatchPass) -> (ready: bool)
    ensures
        ready == ready_for(model@, steps@, *pass),
{
    if pass.next_step >= steps.len() {
        return false;
    }
    match steps[pass.next_step] {
        Step::Propagate { layer } => model.is_layer_initialized(layer),
        Step::BackPropagate { layer, .. } => model.is_layer_initialized(layer)
            && pass.derivative.is_some() && model.has_cache(layer),
        _ => true,
    }
}

/// Plans the step that comes next in `pass`.
pub fn plan_step<T: Copy>(
    model: &Model<T>,
    ctx: &mut ComputeContext,
    loss: &ModelLossFunction,
    steps: &Vec<Step>,
    pass: &BatchPass,
    learning_rate: T,
) -> (r: Result<StepPlan<T>, StepError>)
    requires
        ready_for(model@, steps@, *pass),
    ensures
        step_planned(
            model@,
            *loss,
            old(ctx)@,
            final(ctx)@,
            *pass,
            steps@[pass.next_step as int],
            learning_rate,
            r,
        ),
{
    match steps[pass.next_step] {
        Step::Propagate { layer } => match model.propagate_layer(ctx, layer, &pass.outputs) {
            Ok(plan) => Ok(StepPlan::Propagate { layer, propagation: plan }),
            Err(e) => Err(StepError::Layer(e)),
        },
        Step::ComputeLoss => match loss.compute_loss(
            ctx,
            &pass.outputs,
            &pass.expected_outputs,
            pass.samples_amount,
        ) {
            Ok(plan) => Ok(StepPlan::ComputeLoss { computation: plan }),
            Err(e) => Err(StepError::LossComputation(e)),
        },
        Step::ComputeLossDerivatives =>
            match loss.compute_loss_derivative_with_respect_to_output_samples(
                ctx,
                &pass.outputs,
                &pass.expected_outputs,
                pass.samples_amount,
            ) {
                Ok(plan) => Ok(StepPlan::ComputeLossDerivatives { derivation: plan }),
                Err(e) => Err(StepError::LossDerivatives(e)),
            },
        Step::BackPropagate { layer, .. } => {
            let derivative = pass.derivative.unwrap();
            match model.back_propagate_layer(ctx, layer, &derivative, learning_rate) {
                Ok(plan) => Ok(StepPlan::BackPropagate { layer, back_propagation: plan }),
                Err(e) => Err(StepError::Layer(e)),
            }
        },
    }
}

/// The device has carried out `plan`: the model and the pass move on, and
/// the commands free the buffers that are done with.
pub fn finish_step<T: Copy>(model: &mut Model<T>, pass: &mut BatchPass, plan: &StepPlan<T>) -> (
superseded: Vec<Command<T>>)
    requires
        plan.spec_layer() matches Some(layer) ==> layer < old(model)@.layers.len(),
    ensures
        *final(pass) == pass_after(*old(pass), *plan),
        final(model)@ == model_after(old(model)@, *plan),
        plan_of(superseded@) == releases::<T>(held(done_with(old(model)@, *old(pass), *plan))),
{
    let next_step: usize = if pass.next_step < usize::MAX {
        pass.next_step + 1
    } else {
        pass.next_step
    };
    let mut taken: Vec<Option<DeviceBuffer>> = Vec::new();
    let mut superseded: Vec<Command<T>> = Vec::new();
    match plan {
        StepPlan::Propagate { layer, propagation: plan } => {
            superseded = model.finish_propagate_layer(*layer, plan);
            pass.outputs = plan.outputs;
        },
        StepPlan::ComputeLoss { .. } => {},
        StepPlan::ComputeLossDerivatives { derivation: plan } => {
            taken.push(pass.derivative);
            pass.derivative = Some(plan.derivatives);
        },
        StepPlan::BackPropagate { layer, back_propagation: plan } => {
            superseded = model.finish_back_propagate_layer(*layer, plan);
            taken.push(pass.derivative);
            pass.derivative = plan.input_derivatives;
        },
    }
    pass.next_step = next_step;
    let ghost first = plan_of(superseded@);
    let mut more = release_held::<T>(&taken);
    proof {
        let done = done_with(old(model)@, *old(pass), *plan);
        assert(plan_of(superseded@ + more@) =~= first + plan_of(more@));
        match plan {
            StepPlan::Propagate { layer, .. } => {
                assert(taken@ =~= Seq::empty());
                lemma_held_concat(done, taken@);
                assert(done + taken@ =~= done);
            },
            StepPlan::ComputeLoss { .. } => {
                assert(taken@ =~= done);
                assert(first =~= releases::<T>(held(Seq::empty())));
                lemma_held_concat(Seq::empty(), taken@);
                assert(Seq::<Option<DeviceBuffer>>::empty() + taken@ =~= taken@);
            },
            StepPlan::ComputeLossDerivatives { .. } => {
                assert(taken@ =~= done);
                assert(first =~= releases::<T>(held(Seq::empty())));
                lemma_held_concat(Seq::empty(), taken@);
                assert(Seq::<Option<DeviceBuffer>>::empty() + taken@ =~= taken@);
            },
            StepPlan::BackPropagate { layer, back_propagation: plan } => {
                let replaced = old(model)@.layers[*layer as int].superseded_by(plan.parameters);
                assert(taken@ =~= seq![old(pass).derivative]);
                lemma_held_concat(replaced, taken@);
            },
        }
        assert(first + plan_of(more@) =~= releases::<T>(
            held(done_with(old(model)@, *old(pass), *plan)),
        ));
    }
    superseded.append(&mut more);
    superseded
}

/// The batch is over, or given up: the commands free its inputs, its
/// expected outputs, and the derivative that no step took.
pub fn end_batch<T>(pass: &BatchPass) -> (commands: Vec<Command<T>>)
    ensures
        plan_of(commands@) == releases::<T>(
            held(seq![Some(pass.inputs), Some(pass.expected_outputs), pass.derivative]),
        ),
{
    let mut slots: Vec<Option<DeviceBuffer>> = Vec::new();
    slots.push(Some(pass.inputs));
    slots.push(Some(pass.expected_outputs));
    slots.push(pass.derivative);
    proof {
        assert(slots@ =~= seq![Some(pass.inputs), Some(pass.expected_outputs), pass.derivative]);
    }
    release_held(&slots)
}

} // verus!
