//! The model: an ordered stack of layers, and the order in which training
//! visits them.
//!
//! Training runs for a number of epochs. In each epoch the samples are cut
//! into batches; each batch goes forward through the layers in order, the
//! loss function turns the last layer's outputs into the derivative of the
//! loss, and that derivative goes backward through the layers in reverse
//! order while each layer updates its parameters.

use crate::commands::held;
use crate::commands::lemma_held_concat;
use crate::commands::plan_of;
use crate::commands::releases;
use crate::commands::Command;
use crate::commands::CommandView;
use crate::device::after_reserving;
use crate::device::valid_buffer_len;
use crate::device::Access;
use crate::device::ComputeContext;
use crate::device::ContextView;
use crate::device::DeviceBuffer;
use crate::layers::BackPropagation;
use crate::layers::Initialization;
use crate::layers::LayerError;
use crate::layers::Parameters;
use crate::layers::Propagation;
use crate::types::LayerView;
use crate::types::ModelLayer;
use vstd::prelude::*;

verus! {

/// One stretch of consecutive samples that is processed together.
#[derive(Clone, Copy, Debug, PartialEq, Eq, Structural)]
pub struct Batch {
    /// The index of the first sample.
    pub start: usize,
    /// The number of samples.
    pub len: usize,
}

/// One thing to do for a batch.
#[derive(Clone, Copy, Debug, PartialEq, Eq, Structural)]
pub enum Step {
    /// Pass the outputs of the layer before, or the batch's inputs, through
    /// the layer.
    Propagate { layer: usize },
    /// Compute the loss of the last layer's outputs.
    ComputeLoss,
    /// Compute the derivative of the loss with respect to the last layer's
    /// outputs.
    ComputeLossDerivatives,
    /// Pass the derivative of the loss back through the layer.
    BackPropagate { layer: usize, should_calculate_input_to_error_derivative: bool },
}

/// How a model is to be fitted.
#[derive(Clone, Copy, Debug, PartialEq, Eq, Structural)]
pub struct TrainingOptions {
    /// The number of passes over all samples.
    pub epochs: usize,
    /// The number of samples in a batch.
    pub batch_size: usize,
    /// Whether the loss of each batch is computed.
    pub compute_loss: bool,
}

/// The inputs and the expected outputs of a training set differ in their
/// number of samples.
#[derive(Clone, Copy, Debug, PartialEq, Eq, Structural)]
pub struct ShapeMismatch {
    /// The number of input samples.
    pub inputs: usize,
    /// The number of expected output samples.
    pub expected_outputs: usize,
}

/// What training does: in each of `epochs` epochs, for each of `batches` in
/// order, each of `steps` in order.
#[derive(Debug, PartialEq)]
pub struct Training {
    pub epochs: usize,
    pub batches: Vec<Batch>,
    pub steps: Vec<Step>,
}

/// The number of batches of `batch_size` samples that `samples` samples are
/// cut into: as many as are full, and one more for what is left. A batch
/// size of zero cuts into no batches.
pub open spec fn batch_count(samples: nat, batch_size: nat) -> nat {
    if batch_size == 0 {
        0
    } else {
        ((samples + batch_size - 1) / (batch_size as int)) as nat
    }
}

/// Batch `k` of `samples` samples cut into batches of `batch_size`: it
/// starts where batch `k - 1` ended and is full unless the samples run out.
pub open spec fn batch_at(samples: nat, batch_size: nat, k: int) -> Batch {
    let start = k * batch_size;
    Batch {
        start: start as usize,
        len: if samples - start < batch_size {
            (samples - start) as usize
        } else {
            batch_size as usize
        },
    }
}

/// The batches that `samples` samples are cut into, in order.
pub open spec fn batches_of(samples: nat, batch_size: nat) -> Seq<Batch> {
    Seq::new(batch_count(samples, batch_size), |k: int| batch_at(samples, batch_size, k))
}

/// The forward pass visits the layers in order.
pub open spec fn forward_steps(layers: nat) -> Seq<Step> {
    Seq::new(layers, |k: int| Step::Propagate { layer: k as usize })
}

/// The backward pass visits the layers in reverse order. The derivative
/// with respect to a layer's inputs is asked for where a layer comes
/// before it, and of the first layer only if `first_layer_too`.
pub open spec fn backward_steps(layers: nat, first_layer_too: bool) -> Seq<Step> {
    Seq::new(
        layers,
        |k: int|
            Step::BackPropagate {
                layer: (layers - 1 - k) as usize,
                should_calculate_input_to_error_derivative: layers - 1 - k > 0 || first_layer_too,
            },
    )
}

/// What is done for one batch: forward through all layers, the loss if it
/// is asked for, its derivative, and backward through all layers.
pub open spec fn batch_steps(layers: nat, compute_loss: bool, first_layer_too: bool) -> Seq<Step> {
    forward_steps(layers) + (if compute_loss {
        seq![Step::ComputeLoss]
    } else {
        Seq::empty()
    }) + seq![Step::ComputeLossDerivatives] + backward_steps(layers, first_layer_too)
}

/// Whether each layer gives samples of as many values as the next one
/// takes.
pub open spec fn is_chain<T>(layers: Seq<LayerView<T>>) -> bool {
    forall|i: int|
        0 <= i < layers.len() - 1 ==> (#[trigger] layers[i]).outputs_amount() == layers[i
            + 1].inputs_amount()
}

/// All the buffers of `layers`, layer after layer.
pub open spec fn all_slots<T>(layers: Seq<LayerView<T>>) -> Seq<Option<DeviceBuffer>>
    decreases layers.len(),
{
    if layers.len() == 0 {
        Seq::empty()
    } else {
        all_slots(layers.drop_last()) + layers.last().slots()
    }
}

/// `layers` once each has given up its buffers.
pub open spec fn all_released<T>(layers: Seq<LayerView<T>>) -> Seq<LayerView<T>> {
    layers.map_values(|layer: LayerView<T>| layer.released())
}

/// The states of `layers`.
pub open spec fn layer_views<T>(layers: Seq<ModelLayer<T>>) -> Seq<LayerView<T>> {
    layers.map_values(|layer: ModelLayer<T>| layer@)
}

/// `batch_count` batches are neither too few nor too many: the one before
/// the last starts before the samples end, and the last covers their end.
pub proof fn lemma_batch_count(samples: nat, batch_size: nat)
    requires
        batch_size > 0,
    ensures
        (batch_count(samples, batch_size) - 1) * batch_size < samples || samples == 0,
        samples <= batch_count(samples, batch_size) * batch_size,
        samples == 0 ==> batch_count(samples, batch_size) == 0,
{
    let n = batch_count(samples, batch_size) as int;
    let b = batch_size as int;
    let s = samples as int;
    assert(n == (s + b - 1) / b);
    assert((n - 1) * b < s || s == 0) by (nonlinear_arith)
        requires
            n == (s + b - 1) / b,
            b > 0,
            s >= 0,
    ;
    assert(s <= n * b) by (nonlinear_arith)
        requires
            n == (s + b - 1) / b,
            b > 0,
            s >= 0,
    ;
    if s == 0 {
        assert((b - 1) / b == 0) by (nonlinear_arith)
            requires
                b > 0,
        ;
    }
}

/// Batch `k` of `n` starts before the samples end where the batch before
/// the last does.
proof fn lemma_batch_start(k: int, n: int, b: int, s: int)
    requires
        0 <= k < n,
        b > 0,
        (n - 1) * b < s,
    ensures
        0 <= k * b < s,
{
    assert(0 <= k * b <= (n - 1) * b) by (nonlinear_arith)
        requires
            0 <= k <= n - 1,
            b > 0,
    ;
}

/// The batches partition the samples: each starts where the one before
/// ended, the first at the first sample; the last ends at the last sample;
/// none is empty, and only the last may be smaller than the batch size.
pub proof fn lemma_batches_partition(samples: nat, batch_size: nat)
    requires
        batch_size > 0,
        samples <= usize::MAX,
    ensures
        ({
            let batches = batches_of(samples, batch_size);
            &&& forall|k: int|
                0 <= k < batches.len() ==> 1 <= (#[trigger] batches[k]).len <= batch_size
                    && batches[k].start == k * batch_size && batches[k].start + batches[k].len
                    <= samples
            &&& forall|k: int|
                0 <= k < batches.len() - 1 ==> (#[trigger] batches[k]).len == batch_size
                    && batches[k + 1].start == batches[k].start + batches[k].len
            &&& batches.len() > 0 ==> batches.last().start + batches.last().len == samples
            &&& batches.len() == 0 <==> samples == 0
        }),
{
    let batches = batches_of(samples, batch_size);
    let n = batch_count(samples, batch_size) as int;
    let b = batch_size as int;
    let s = samples as int;
    lemma_batch_count(samples, batch_size);
    assert forall|k: int| 0 <= k < batches.len() implies 1 <= (#[trigger] batches[k]).len
        <= batch_size && batches[k].start == k * batch_size && batches[k].start + batches[k].len
        <= samples by {
        lemma_batch_start(k, n, b, s);
    }
    assert forall|k: int| 0 <= k < batches.len() - 1 implies (#[trigger] batches[k]).len
        == batch_size && batches[k + 1].start == batches[k].start + batches[k].len by {
        lemma_batch_start(k, n, b, s);
        lemma_batch_start(k + 1, n, b, s);
        assert((k + 1) * b == k * b + b) by (nonlinear_arith);
    }
    if n > 0 {
        lemma_batch_start(n - 1, n, b, s);
        assert(n * b == (n - 1) * b + b) by (nonlinear_arith);
    }
}

/// Cuts `samples_amount` samples into batches of `batch_size`; the last
/// batch may be smaller.
pub fn batches(samples_amount: usize, batch_size: usize) -> (cut: Vec<Batch>)
    ensures
        cut@ == batches_of(samples_amount as nat, batch_size as nat),
{
    let mut cut: Vec<Batch> = Vec::new();
    if batch_size == 0 {
        assert(cut@ =~= batches_of(samples_amount as nat, batch_size as nat));
        return cut;
    }
    proof {
        lemma_batches_partition(samples_amount as nat, batch_size as nat);
        lemma_batch_count(samples_amount as nat, batch_size as nat);
    }
    let ghost all = batches_of(samples_amount as nat, batch_size as nat);
    let mut start: usize = 0;
    while start < samples_amount
        invariant
            batch_size > 0,
            all == batches_of(samples_amount as nat, batch_size as nat),
            cut@.len() <= all.len(),
            cut@ == all.take(cut@.len() as int),
            start <= samples_amount,
            cut@.len() < all.len() ==> start == cut@.len() * batch_size,
            cut@.len() == all.len() ==> start == samples_amount,
            forall|k: int|
                0 <= k < all.len() ==> 1 <= (#[trigger] all[k]).len <= batch_size && all[k].start
                    == k * batch_size && all[k].start + all[k].len <= samples_amount,
            forall|k: int|
                0 <= k < all.len() - 1 ==> (#[trigger] all[k]).len == batch_size && all[k
                    + 1].start == all[k].start + all[k].len,
            all.len() > 0 ==> all.last().start + all.last().len == samples_amount,
        decreases samples_amount - start,
    {
        let ghost k = cut@.len() as int;
        let left: usize = samples_amount - start;
        let len: usize = if left < batch_size {
            left
        } else {
            batch_size
        };
        proof {
            assert(k < all.len());
            assert(all[k].start == start);
            assert(all[k] == Batch { start, len });
            assert(all.take(k + 1) =~= all.take(k).push(all[k]));
            if k + 1 < all.len() {
                assert(all[k + 1].start == all[k].start + all[k].len);
            }
        }
        cut.push(Batch { start, len });
        start = start + len;
    }
    proof {
        if cut@.len() < all.len() {
            let k = cut@.len() as int;
            assert(all[k].start == start);
            assert(all[k].start + all[k].len <= samples_amount);
        }
        assert(all.take(all.len() as int) =~= all);
    }
    cut
}

/// What a model asks of the device to get the samples of a batch there.
#[derive(Debug, PartialEq)]
pub struct Upload<T> {
    /// The commands to carry out, in order.
    pub commands: Vec<Command<T>>,
    /// The buffer that then holds the data; it is the caller's.
    pub buffer: DeviceBuffer,
}

/// The buffer that `upload` makes for `len` values, or why it makes none.
pub open spec fn upload_buffer(ctx: ContextView, len: nat) -> Result<DeviceBuffer, LayerError> {
    if ctx.queues == 0 {
        Err(LayerError::NoCommandQueue)
    } else if !valid_buffer_len(len as int) || ctx.next_buffer + 1 > u64::MAX {
        Err(LayerError::AllocationError)
    } else {
        Ok(DeviceBuffer { id: ctx.next_buffer as u64, len: len as usize })
    }
}

/// Plans how `data` gets into a buffer of its own on the device, which
/// kernels only read.
pub fn upload<T>(ctx: &mut ComputeContext, data: Vec<T>) -> (r: Result<Upload<T>, LayerError>)
    ensures
        match r {
            Ok(plan) => {
                &&& upload_buffer(old(ctx)@, data@.len()) == Ok::<_, LayerError>(plan.buffer)
                &&& plan_of(plan.commands@) == seq![
                    CommandView::CreateBuffer { buffer: plan.buffer, access: Access::ReadOnly },
                    CommandView::WriteBuffer { buffer: plan.buffer, data: data@ },
                    CommandView::Finish,
                ]
                &&& final(ctx)@ == after_reserving(old(ctx)@, 1)
            },
            Err(e) => {
                &&& upload_buffer(old(ctx)@, data@.len()) == Err::<DeviceBuffer, _>(e)
                &&& final(ctx)@ == old(ctx)@
            },
        },
{
    if ctx.queues() == 0 {
        return Err(LayerError::NoCommandQueue);
    }
    let buffer = match ctx.reserve_buffer(data.len()) {
        Some(buffer) => buffer,
        None => {
            return Err(LayerError::AllocationError);
        },
    };
    let ghost content = data@;
    let mut commands: Vec<Command<T>> = Vec::new();
    commands.push(Command::CreateBuffer { buffer, access: Access::ReadOnly });
    commands.push(Command::WriteBuffer { buffer, data });
    commands.push(Command::Finish);
    proof {
        assert(plan_of(commands@) =~= seq![
            CommandView::CreateBuffer { buffer, access: Access::ReadOnly },
            CommandView::WriteBuffer { buffer, data: content },
            CommandView::Finish,
        ]);
    }
    Ok(Upload { commands, buffer })
}

/// An ordered stack of layers.
#[derive(Debug)]
pub struct Model<T> {
    layers: Vec<ModelLayer<T>>,
    first_layer_too: bool,
}

/// The state of a model.
pub struct ModelView<T> {
    /// The layers, the one that takes the model's inputs first.
    pub layers: Seq<LayerView<T>>,
    /// Whether the backward pass computes the derivative of the loss with
    /// respect to the inputs of the first layer as well.
    pub first_layer_too: bool,
}

impl<T> ModelView<T> {
    /// The parameters of every layer that has any are on a device.
    pub open spec fn is_initialized(self) -> bool {
        forall|i: int| 0 <= i < self.layers.len() ==> (#[trigger] self.layers[i]).is_initialized()
    }

    /// Whether the backward pass asks layer `layer` for the derivative
    /// with respect to its inputs.
    pub open spec fn asks_input_derivative(self, layer: int) -> bool {
        layer > 0 || self.first_layer_too
    }

    /// The model with `next` in the place of layer `layer`.
    pub open spec fn with_layer(self, layer: int, next: LayerView<T>) -> ModelView<T> {
        ModelView { layers: self.layers.update(layer, next), ..self }
    }
}

impl<T> View for Model<T> {
    type V = ModelView<T>;

    closed spec fn view(&self) -> ModelView<T> {
        ModelView { layers: layer_views(self.layers@), first_layer_too: self.first_layer_too }
    }
}

impl<T: Copy> Model<T> {
    /// The model made of `layers`, the one that takes the model's inputs
    /// first. Its backward pass leaves out the derivative with respect to
    /// the inputs of the first layer, which nothing needs.
    pub fn new(layers: Vec<ModelLayer<T>>) -> (model: Model<T>)
        ensures
            model@ == (ModelView { layers: layer_views(layers@), first_layer_too: false }),
    {
        Model { layers, first_layer_too: false }
    }

    /// Says whether the backward pass is to compute the derivative with
    /// respect to the inputs of the first layer as well, as a model needs
    /// whose first layer is not where the data enters.
    pub fn compute_first_layer_input_derivative(&mut self, first_layer_too: bool)
        ensures
            final(self)@ == (ModelView { first_layer_too, ..old(self)@ }),
    {
        self.first_layer_too = first_layer_too;
    }

    /// The number of layers.
    pub fn len(&self) -> (n: usize)
        ensures
            n == self@.layers.len(),
    {
        self.layers.len()
    }

    /// Whether each layer gives samples of as many values as the next one
    /// takes.
    pub fn is_chain(&self) -> (chain: bool)
        ensures
            chain == is_chain(self@.layers),
    {
        if self.layers.len() == 0 {
            return true;
        }
        let mut i: usize = 0;
        while i < self.layers.len() - 1
            invariant
                self.layers.len() > 0,
                i <= self.layers.len() - 1,
                forall|k: int|
                    0 <= k < i ==> (#[trigger] self@.layers[k]).outputs_amount() == self@.layers[k
                        + 1].inputs_amount(),
            decreases self.layers.len() - 1 - i,
        {
            if self.layers[i].get_outputs_amount() != self.layers[i + 1].get_inputs_amount() {
                assert(self@.layers[i as int].outputs_amount() != self@.layers[i
                    + 1].inputs_amount());
                return false;
            }
            i += 1;
        }
        true
    }

    /// Whether the parameters of every layer that has any are on a device.
    pub fn is_initialized(&self) -> (initialized: bool)
        ensures
            initialized == self@.is_initialized(),
    {
        let mut i: usize = 0;
        while i < self.layers.len()
            invariant
                i <= self.layers.len(),
                forall|k: int| 0 <= k < i ==> (#[trigger] self@.layers[k]).is_initialized(),
            decreases self.layers.len() - i,
        {
            if !self.layers[i].is_initialized() {
                assert(!self@.layers[i as int].is_initialized());
                return false;
            }
            i += 1;
        }
        true
    }

    /// Whether the model has a layer `layer` whose parameters, if it has
    /// any, are on a device.
    pub fn is_layer_initialized(&self, layer: usize) -> (initialized: bool)
        ensures
            initialized == (layer < self@.layers.len()
                && self@.layers[layer as int].is_initialized()),
    {
        layer < self.layers.len() && self.layers[layer].is_initialized()
    }

    /// Whether layer `layer` holds what its backward pass needs from the
    /// forward pass before it. A layer that the model does not have holds
    /// nothing.
    pub fn has_cache(&self, layer: usize) -> (has: bool)
        ensures
            has == (layer < self@.layers.len() && self@.layers[layer as int].has_cache_for(
                self@.asks_input_derivative(layer as int),
            )),
    {
        layer < self.layers.len() && self.layers[layer].has_cache_for(
            layer > 0 || self.first_layer_too,
        )
    }

    /// What is done for each batch, in order.
    pub fn steps(&self, compute_loss: bool) -> (steps: Vec<Step>)
        ensures
            steps@ == batch_steps(self@.layers.len(), compute_loss, self@.first_layer_too),
    {
        let n: usize = self.layers.len();
        let mut steps: Vec<Step> = Vec::new();
        let mut i: usize = 0;
        while i < n
            invariant
                i <= n,
                steps@ == forward_steps(i as nat),
            decreases n - i,
        {
            steps.push(Step::Propagate { layer: i });
            proof {
                assert(steps@ =~= forward_steps((i + 1) as nat));
            }
            i += 1;
        }
        if compute_loss {
            steps.push(Step::ComputeLoss);
        }
        steps.push(Step::ComputeLossDerivatives);
        let ghost head = steps@;
        let mut k: usize = 0;
        while k < n
            invariant
                k <= n,
                n == self@.layers.len(),
                steps@ == head + backward_steps(n as nat, self@.first_layer_too).take(k as int),
            decreases n - k,
        {
            let layer: usize = n - 1 - k;
            steps.push(
                Step::BackPropagate {
                    layer,
                    should_calculate_input_to_error_derivative: layer > 0 || self.first_layer_too,
                },
            );
            proof {
                let back = backward_steps(n as nat, self@.first_layer_too);
                assert(back.take(k + 1) =~= back.take(k as int).push(back[k as int]));
                assert(steps@ =~= head + back.take(k + 1));
            }
            k += 1;
        }
        proof {
            let back = backward_steps(n as nat, self@.first_layer_too);
            assert(back.take(n as int) =~= back);
            assert(steps@ =~= batch_steps(n as nat, compute_loss, self@.first_layer_too));
        }
        steps
    }

    /// Plans the fitting of the model to `training_input_samples` and
    /// `training_expected_output_samples`, one row per sample each. There
    /// is a plan exactly when both have the same number of samples.
    pub fn fit(
        &self,
        training_input_samples: &Vec<Vec<T>>,
        training_expected_output_samples: &Vec<Vec<T>>,
        training_options: &TrainingOptions,
    ) -> (r: Result<Training, ShapeMismatch>)
        ensures
            r is Ok <==> training_input_samples@.len() == training_expected_output_samples@.len(),
            r matches Ok(training) ==> {
                &&& training.epochs == training_options.epochs
                &&& training.batches@ == batches_of(
                    training_input_samples@.len(),
                    training_options.batch_size as nat,
                )
                &&& training.steps@ == batch_steps(
                    self@.layers.len(),
                    training_options.compute_loss,
                    self@.first_layer_too,
                )
            },
            r matches Err(e) ==> e == (ShapeMismatch {
                inputs: training_input_samples@.len() as usize,
                expected_outputs: training_expected_output_samples@.len() as usize,
            }),
    {
        let inputs: usize = training_input_samples.len();
        let expected_outputs: usize = training_expected_output_samples.len();
        if inputs != expected_outputs {
            return Err(ShapeMismatch { inputs, expected_outputs });
        }
        Ok(
            Training {
                epochs: training_options.epochs,
                batches: batches(inputs, training_options.batch_size),
                steps: self.steps(training_options.compute_loss),
            },
        )
    }

    /// Plans how layer `layer` gets onto the device.
    pub fn init_layer(&self, ctx: &mut ComputeContext, layer: usize) -> (r: Result<
        Initialization<T>,
        LayerError,
    >)
        requires
            layer < self@.layers.len(),
        ensures
            match r {
                Ok(plan) => {
                    &&& self@.layers[layer as int].init_buffers(old(ctx)@) == Ok::<_, LayerError>(
                        plan.parameters,
                    )
                    &&& plan.compilation@ == self@.layers[layer as int].init_compilation(
                        old(ctx)@,
                    )
                    &&& plan_of(plan.commands@) == self@.layers[layer as int].init_commands(
                        plan.parameters,
                    )
                    &&& final(ctx)@ == after_reserving(
                        old(ctx)@,
                        self@.layers[layer as int].init_reserves(),
                    )
                },
                Err(e) => {
                    &&& self@.layers[layer as int].init_buffers(old(ctx)@) == Err::<
                        Option<Parameters>,
                        _,
                    >(e)
                    &&& final(ctx)@ == old(ctx)@
                },
            },
    {
        self.layers[layer].init(ctx)
    }

    /// The device has carried out the plan of `init_layer` for layer
    /// `layer`.
    pub fn finish_init_layer(&mut self, layer: usize, plan: &Initialization<T>) -> (superseded:
        Vec<Command<T>>)
        requires
            layer < old(self)@.layers.len(),
        ensures
            final(self)@ == old(self)@.with_layer(
                layer as int,
                old(self)@.layers[layer as int].with_parameters(plan.parameters),
            ),
            plan_of(superseded@) == releases::<T>(
                held(old(self)@.layers[layer as int].superseded_by(plan.parameters)),
            ),
    {
        let superseded = self.layers[layer].finish_init(plan);
        proof {
            assert(layer_views(self.layers@) =~= old(self)@.layers.update(
                layer as int,
                old(self)@.layers[layer as int].with_parameters(plan.parameters),
            ));
        }
        superseded
    }

    /// Plans the forward pass of layer `layer` over the samples in
    /// `input`: the batch's inputs for the first layer, the outputs of the
    /// layer before for every other.
    pub fn propagate_layer(&self, ctx: &mut ComputeContext, layer: usize, input: &DeviceBuffer)
        -> (r: Result<Propagation<T>, LayerError>)
        requires
            layer < self@.layers.len(),
            self@.layers[layer as int].is_initialized(),
        ensures
            match r {
                Ok(plan) => {
                    &&& self@.layers[layer as int].propagate_buffers(old(ctx)@, *input) == Ok::<
                        _,
                        LayerError,
                    >((plan.last_inputs, plan.outputs))
                    &&& plan_of(plan.commands@) == self@.layers[layer as int].propagate_commands(
                        *input,
                        plan.last_inputs,
                        plan.outputs,
                    )
                    &&& final(ctx)@ == after_reserving(old(ctx)@, 2)
                },
                Err(e) => {
                    &&& self@.layers[layer as int].propagate_buffers(old(ctx)@, *input) == Err::<
                        (DeviceBuffer, DeviceBuffer),
                        _,
                    >(e)
                    &&& final(ctx)@ == old(ctx)@
                },
            },
    {
        self.layers[layer].propagate(ctx, input)
    }

    /// The device has carried out the plan of `propagate_layer` for layer
    /// `layer`.
    pub fn finish_propagate_layer(&mut self, layer: usize, plan: &Propagation<T>) -> (superseded:
        Vec<Command<T>>)
        requires
            layer < old(self)@.layers.len(),
        ensures
            final(self)@ == old(self)@.with_layer(
                layer as int,
                old(self)@.layers[layer as int].with_cache(plan.last_inputs, plan.outputs),
            ),
            plan_of(superseded@) == releases::<T>(held(old(self)@.layers[layer as int].cache())),
    {
        let superseded = self.layers[layer].finish_propagate(plan);
        proof {
            assert(layer_views(self.layers@) =~= old(self)@.layers.update(
                layer as int,
                old(self)@.layers[layer as int].with_cache(plan.last_inputs, plan.outputs),
            ));
        }
        superseded
    }

    /// Plans the backward pass of layer `layer` from the derivative of the
    /// loss with respect to its outputs: that of the loss function for the
    /// last layer, that with respect to the inputs of the layer after for
    /// every other. The derivative with respect to the layer's own inputs
    /// is asked for where a layer comes before it; of the first layer it
    /// is asked only if the model was told so.
    pub fn back_propagate_layer(
        &self,
        ctx: &mut ComputeContext,
        layer: usize,
        layer_output_to_error_derivative: &DeviceBuffer,
        learning_rate: T,
    ) -> (r: Result<BackPropagation<T>, LayerError>)
        requires
            layer < self@.layers.len(),
            self@.layers[layer as int].is_initialized(),
            self@.layers[layer as int].has_cache_for(self@.asks_input_derivative(layer as int)),
        ensures
            match r {
                Ok(plan) => {
                    &&& self@.layers[layer as int].back_propagate_buffers(
                        old(ctx)@,
                        self@.asks_input_derivative(layer as int),
                        *layer_output_to_error_derivative,
                    ) == Ok::<_, LayerError>((plan.input_derivatives, plan.parameters))
                    &&& plan_of(plan.commands@) == self@.layers[layer
                        as int].back_propagate_commands(
                        *layer_output_to_error_derivative,
                        learning_rate,
                        plan.input_derivatives,
                        plan.parameters,
                    )
                    &&& final(ctx)@ == after_reserving(
                        old(ctx)@,
                        self@.layers[layer as int].back_propagate_reserves(
                            self@.asks_input_derivative(layer as int),
                        ),
                    )
                },
                Err(e) => {
                    &&& self@.layers[layer as int].back_propagate_buffers(
                        old(ctx)@,
                        self@.asks_input_derivative(layer as int),
                        *layer_output_to_error_derivative,
                    ) == Err::<(Option<DeviceBuffer>, Option<Parameters>), _>(e)
                    &&& final(ctx)@ == old(ctx)@
                },
            },
    {
        self.layers[layer].back_propagate(
            ctx,
            layer > 0 || self.first_layer_too,
            layer_output_to_error_derivative,
            learning_rate,
        )
    }

    /// The device has carried out the plan of `back_propagate_layer` for
    /// layer `layer`.
    pub fn finish_back_propagate_layer(&mut self, layer: usize, plan: &BackPropagation<T>) -> (
    superseded: Vec<Command<T>>)
        requires
            layer < old(self)@.layers.len(),
        ensures
            final(self)@ == old(self)@.with_layer(
                layer as int,
                old(self)@.layers[layer as int].with_parameters(plan.parameters),
            ),
            plan_of(superseded@) == releases::<T>(
                held(old(self)@.layers[layer as int].superseded_by(plan.parameters)),
            ),
    {
        let superseded = self.layers[layer].finish_back_propagate(plan);
        proof {
            assert(layer_views(self.layers@) =~= old(self)@.layers.update(
                layer as int,
                old(self)@.layers[layer as int].with_parameters(plan.parameters),
            ));
        }
        superseded
    }

    /// Plans how the parameters of layer `layer` get back to the host.
    pub fn read_layer_parameters(&self, ctx: &ComputeContext, layer: usize) -> (r: Result<
        Vec<Command<T>>,
        LayerError,
    >)
        requires
            layer < self@.layers.len(),
            self@.layers[layer as int].is_initialized(),
        ensures
            r is Ok <==> ctx@.queues > 0,
            r matches Ok(commands) ==> plan_of(commands@) == self@.layers[layer
                as int].read_commands(),
            r matches Err(e) ==> e == LayerError::NoCommandQueue,
    {
        self.layers[layer].read_parameters(ctx)
    }

    /// Takes over what the parameter buffers of layer `layer` held.
    pub fn sync_layer_from_buffers_to_host(
        &mut self,
        layer: usize,
        weights: &Vec<T>,
        biases: Vec<T>,
    ) -> (synced: bool)
        requires
            layer < old(self)@.layers.len(),
        ensures
            synced <==> old(self)@.layers[layer as int].takes(weights@, biases@),
            synced ==> final(self)@ == old(self)@.with_layer(
                layer as int,
                old(self)@.layers[layer as int].synced(weights@, biases@),
            ),
            !synced ==> final(self)@ == old(self)@,
    {
        let synced = self.layers[layer].sync_data_from_buffers_to_host(weights, biases);
        proof {
            if synced {
                assert(layer_views(self.layers@) =~= old(self)@.layers.update(
                    layer as int,
                    old(self)@.layers[layer as int].synced(weights@, biases@),
                ));
            } else {
                assert(layer_views(self.layers@) =~= old(self)@.layers);
            }
        }
        synced
    }

    /// Gives up every buffer that the layers hold on the device: the
    /// commands free them, layer after layer, and no layer holds any
    /// afterwards. A model that holds none stays as it is and asks for
    /// nothing.
    pub fn clean_up_gpu_state(&mut self) -> (commands: Vec<Command<T>>)
        ensures
            final(self)@ == (ModelView {
                layers: all_released(old(self)@.layers),
                ..old(self)@
            }),
            plan_of(commands@) == releases::<T>(held(all_slots(old(self)@.layers))),
    {
        let n: usize = self.layers.len();
        let mut commands: Vec<Command<T>> = Vec::new();
        let mut i: usize = 0;
        proof {
            assert(plan_of(commands@) =~= releases::<T>(
                held(all_slots(old(self)@.layers.take(0))),
            ));
        }
        while i < n
            invariant
                i <= n,
                n == old(self)@.layers.len(),
                self.layers@.len() == n,
                self.first_layer_too == old(self).first_layer_too,
                forall|k: int|
                    0 <= k < i ==> (#[trigger] self.layers@[k])@ == old(self)@.layers[k].released(),
                forall|k: int| i <= k < n ==> (#[trigger] self.layers@[k])@ == old(self)@.layers[k],
                plan_of(commands@) == releases::<T>(
                    held(all_slots(old(self)@.layers.take(i as int))),
                ),
            decreases n - i,
        {
            let ghost before = plan_of(commands@);
            let ghost layer = old(self)@.layers[i as int];
            let mut more = self.layers[i].clean_up_gpu_state();
            proof {
                let done = old(self)@.layers.take(i as int);
                let next = old(self)@.layers.take(i + 1);
                assert(next.drop_last() =~= done);
                assert(next.last() == layer);
                lemma_held_concat(all_slots(done), layer.slots());
                assert(plan_of(commands@ + more@) =~= before + plan_of(more@));
                assert(before + plan_of(more@) =~= releases::<T>(held(all_slots(next))));
            }
            commands.append(&mut more);
            i += 1;
        }
        proof {
            assert(old(self)@.layers.take(n as int) =~= old(self)@.layers);
            assert(layer_views(self.layers@) =~= all_released(old(self)@.layers));
        }
        commands
    }
}

} // verus!
