//! The densely connected layer: every input is connected to every output by
//! a weight, and every output has a bias.

use crate::commands::held;
use crate::commands::lemma_nothing_held;
use crate::commands::launch;
use crate::commands::plan_of;
use crate::commands::release_held;
use crate::commands::releases;
use crate::commands::Command;
use crate::commands::CommandView;
use crate::commands::KernelArg;
use crate::commands::LaunchView;
use crate::device::after_reserving;
use crate::device::buffer_len_limit;
use crate::device::missing_steps;
use crate::device::valid_buffer_len;
use crate::device::valid_buffer_lens;
use crate::device::Access;
use crate::device::Compilation;
use crate::device::ComputeContext;
use crate::device::ContextView;
use crate::device::DeviceBuffer;
use crate::layers::BackPropagation;
use crate::layers::Initialization;
use crate::layers::LayerError;
use crate::layers::Parameters;
use crate::layers::Propagation;
use crate::layout::copy_from;
use crate::layout::flatten;
use crate::layout::is_matrix;
use crate::layout::lemma_flatten_of_matrix_from_flat;
use crate::layout::lemma_row_bounds;
use crate::layout::matrix_from_flat;
use crate::layout::rows_from_flat;
use crate::layout::rows_of;
use crate::layout::unflatten;
use crate::programs::Kernel;
use crate::programs::Program;
use crate::types::ModelLayer;
use vstd::prelude::*;

verus! {

/// The steps that bring the two programs of the dense layer onto the
/// device: those that the context's registry still lacks, the forward
/// program first.
pub fn compile_dense(opencl_state: &ComputeContext) -> (steps: Vec<Compilation>)
    ensures
        steps@ == missing_steps(
            opencl_state@,
            Program::DensePropagation,
            Program::DensePropagation.spec_kernels(),
        ) + missing_steps(
            opencl_state@,
            Program::DenseBackPropagation,
            Program::DenseBackPropagation.spec_kernels(),
        ),
{
    let prop_kernels = Program::DensePropagation.kernels();
    let backprop_kernels = Program::DenseBackPropagation.kernels();
    let mut steps = opencl_state.ensure_program(Program::DensePropagation, &prop_kernels);
    let mut backprop_steps = opencl_state.ensure_program(
        Program::DenseBackPropagation,
        &backprop_kernels,
    );
    steps.append(&mut backprop_steps);
    steps
}

/// A densely connected layer. Its weights connect each input to all
/// outputs; propagation is the product of the inputs with the weights, plus
/// the biases. Both are trained by back-propagation.
#[derive(Debug)]
pub struct Dense<T> {
    inputs_amount: usize,
    outputs_amount: usize,
    weights: Vec<Vec<T>>,
    biases: Vec<T>,
    weights_buffer: Option<DeviceBuffer>,
    biases_buffer: Option<DeviceBuffer>,
    last_inputs_buffer: Option<DeviceBuffer>,
    last_outputs_buffer: Option<DeviceBuffer>,
}

/// The state of a dense layer.
pub struct DenseView<T> {
    /// The number of inputs of each sample.
    pub inputs_amount: nat,
    /// The number of outputs of each sample.
    pub outputs_amount: nat,
    /// The host's copy of the weights: a row of one weight per output for
    /// each input.
    pub weights: Seq<Seq<T>>,
    /// The host's copy of the biases, one per output.
    pub biases: Seq<T>,
    /// The device's weights, row after row.
    pub weights_buffer: Option<DeviceBuffer>,
    /// The device's biases.
    pub biases_buffer: Option<DeviceBuffer>,
    /// The copy of the inputs of the last forward pass.
    pub last_inputs_buffer: Option<DeviceBuffer>,
    /// The outputs of the last forward pass.
    pub last_outputs_buffer: Option<DeviceBuffer>,
}

impl<T> DenseView<T> {
    /// The host's parameters have the layer's shape. This holds of every
    /// layer.
    pub open spec fn wf(self) -> bool {
        &&& is_matrix(self.weights, self.inputs_amount, self.outputs_amount)
        &&& self.biases.len() == self.outputs_amount
    }

    /// A device can hold the layer's parameters.
    pub open spec fn fits_device(self) -> bool {
        &&& valid_buffer_len((self.inputs_amount * self.outputs_amount) as int)
        &&& valid_buffer_len(self.outputs_amount as int)
    }

    /// The layer's parameters are on a device.
    pub open spec fn is_initialized(self) -> bool {
        self.weights_buffer is Some && self.biases_buffer is Some
    }

    /// The buffers that `init` makes for the weights and for the biases, or
    /// why it makes none.
    pub open spec fn init_buffers(self, ctx: ContextView) -> Result<Parameters, LayerError> {
        if ctx.queues == 0 {
            Err(LayerError::NoCommandQueue)
        } else if !self.fits_device() || ctx.next_buffer + 2 > u64::MAX {
            Err(LayerError::AllocationError)
        } else {
            Ok(
                Parameters {
                    weights_buffer: DeviceBuffer {
                        id: ctx.next_buffer as u64,
                        len: (self.inputs_amount * self.outputs_amount) as usize,
                    },
                    biases_buffer: DeviceBuffer {
                        id: (ctx.next_buffer + 1) as u64,
                        len: self.outputs_amount as usize,
                    },
                },
            )
        }
    }

    /// What `init` asks of the device: both buffers are created, then the
    /// weights are written row after row and the biases as they are, each
    /// write awaited.
    pub open spec fn init_commands(self, parameters: Parameters) -> Seq<CommandView<T>> {
        let weights_buffer = parameters.weights_buffer;
        let biases_buffer = parameters.biases_buffer;
        seq![
            CommandView::CreateBuffer { buffer: weights_buffer, access: Access::ReadWrite },
            CommandView::CreateBuffer { buffer: biases_buffer, access: Access::ReadWrite },
            CommandView::WriteBuffer { buffer: weights_buffer, data: self.weights.flatten() },
            CommandView::Finish,
            CommandView::WriteBuffer { buffer: biases_buffer, data: self.biases },
            CommandView::Finish,
        ]
    }

    /// The number of samples in a buffer of `len` values of which each
    /// sample takes `per_sample`.
    pub open spec fn samples_in(len: usize, per_sample: nat) -> int {
        len as int / per_sample as int
    }

    /// The buffers that `propagate` makes for the copy of `input` and for
    /// the outputs, or why it makes none.
    pub open spec fn propagate_buffers(self, ctx: ContextView, input: DeviceBuffer) -> Result<
        (DeviceBuffer, DeviceBuffer),
        LayerError,
    > {
        let samples = Self::samples_in(input.len, self.inputs_amount);
        if ctx.queues == 0 {
            Err(LayerError::NoCommandQueue)
        } else if !ctx.programs.contains(Program::DensePropagation) || !ctx.kernels.contains(
            (Program::DensePropagation, Kernel::DensePropagate),
        ) {
            Err(LayerError::MissingProgramOrKernel)
        } else if !self.fits_device() || !valid_buffer_len(input.len as int) || !valid_buffer_len(
            samples * self.outputs_amount,
        ) || ctx.next_buffer + 2 > u64::MAX {
            Err(LayerError::AllocationError)
        } else {
            Ok(
                (
                    DeviceBuffer { id: ctx.next_buffer as u64, len: input.len },
                    DeviceBuffer {
                        id: (ctx.next_buffer + 1) as u64,
                        len: (samples * self.outputs_amount) as usize,
                    },
                ),
            )
        }
    }

    /// What `propagate` asks of the device: `input` is copied into
    /// `last_inputs`, then one work item per sample and output computes
    /// into `outputs`, and the queue is awaited.
    pub open spec fn propagate_commands(
        self,
        input: DeviceBuffer,
        last_inputs: DeviceBuffer,
        outputs: DeviceBuffer,
    ) -> Seq<CommandView<T>> {
        let samples = Self::samples_in(input.len, self.inputs_amount);
        seq![
            CommandView::CreateBuffer { buffer: last_inputs, access: Access::ReadOnly },
            CommandView::CopyBuffer { source: input, target: last_inputs, len: input.len },
            CommandView::CreateBuffer { buffer: outputs, access: Access::ReadWrite },
            CommandView::Launch(
                LaunchView {
                    program: Program::DensePropagation,
                    kernel: Kernel::DensePropagate,
                    args: seq![
                        KernelArg::Buffer(input),
                        KernelArg::Buffer(self.biases_buffer.unwrap()),
                        KernelArg::Buffer(self.weights_buffer.unwrap()),
                        KernelArg::Buffer(outputs),
                        KernelArg::Int(self.inputs_amount as i32),
                        KernelArg::Int(samples as i32),
                        KernelArg::Int(self.outputs_amount as i32),
                    ],
                    global_work_sizes: seq![samples as usize, self.outputs_amount as usize],
                },
            ),
            CommandView::Finish,
        ]
    }

    /// The buffers that `back_propagate` makes, or why it makes none: the
    /// derivatives with respect to the inputs if they are asked for, the
    /// new weights and the new biases.
    pub open spec fn back_propagate_buffers(
        self,
        ctx: ContextView,
        should_calculate_input_to_error_derivative: bool,
        layer_output_to_error_derivative: DeviceBuffer,
    ) -> Result<(Option<DeviceBuffer>, Parameters), LayerError> {
        let samples = Self::samples_in(layer_output_to_error_derivative.len, self.outputs_amount);
        let first = ctx.next_buffer;
        let asked: nat = if should_calculate_input_to_error_derivative {
            1
        } else {
            0
        };
        if ctx.queues == 0 {
            Err(LayerError::NoCommandQueue)
        } else if !ctx.programs.contains(Program::DenseBackPropagation) || !ctx.kernels.contains(
            (Program::DenseBackPropagation, Kernel::WeightsGradientApplication),
        ) || !ctx.kernels.contains(
            (Program::DenseBackPropagation, Kernel::BiasGradientApplication),
        ) || (should_calculate_input_to_error_derivative && !ctx.kernels.contains(
            (Program::DenseBackPropagation, Kernel::ComputeLossDerivativeWithRespectToInputs),
        )) {
            Err(LayerError::MissingProgramOrKernel)
        } else if !self.fits_device() || !valid_buffer_len(
            layer_output_to_error_derivative.len as int,
        ) || (should_calculate_input_to_error_derivative && !valid_buffer_len(
            samples * self.inputs_amount,
        )) || first + asked + 2 > u64::MAX {
            Err(LayerError::AllocationError)
        } else {
            Ok(
                (
                    if should_calculate_input_to_error_derivative {
                        Some(
                            DeviceBuffer {
                                id: first as u64,
                                len: (samples * self.inputs_amount) as usize,
                            },
                        )
                    } else {
                        None
                    },
                    Parameters {
                        weights_buffer: DeviceBuffer {
                            id: (first + asked) as u64,
                            len: (self.inputs_amount * self.outputs_amount) as usize,
                        },
                        biases_buffer: DeviceBuffer {
                            id: (first + asked + 1) as u64,
                            len: self.outputs_amount as usize,
                        },
                    },
                ),
            )
        }
    }

    /// How `back_propagate` asks for the derivative of the loss with
    /// respect to the inputs: one work item per sample and input sums, over
    /// the outputs, weight times derivative, with the weights as they are
    /// before the update.
    pub open spec fn input_derivative_commands(
        self,
        layer_output_to_error_derivative: DeviceBuffer,
        input_derivatives: DeviceBuffer,
    ) -> Seq<CommandView<T>> {
        let samples = Self::samples_in(layer_output_to_error_derivative.len, self.outputs_amount);
        seq![
            CommandView::CreateBuffer { buffer: input_derivatives, access: Access::ReadWrite },
            CommandView::Launch(
                LaunchView {
                    program: Program::DenseBackPropagation,
                    kernel: Kernel::ComputeLossDerivativeWithRespectToInputs,
                    args: seq![
                        KernelArg::Buffer(self.weights_buffer.unwrap()),
                        KernelArg::Buffer(layer_output_to_error_derivative),
                        KernelArg::Buffer(input_derivatives),
                        KernelArg::Int(self.outputs_amount as i32),
                        KernelArg::Int(samples as i32),
                        KernelArg::Int(self.inputs_amount as i32),
                    ],
                    global_work_sizes: seq![samples as usize, self.inputs_amount as usize],
                },
            ),
            CommandView::Finish,
        ]
    }

    /// How `back_propagate` asks for the update of the parameters: one work
    /// item per input and output writes the new weight, then one per output
    /// the new bias; each is the old value minus the learning rate times
    /// the gradient averaged over the samples.
    pub open spec fn update_commands(
        self,
        layer_output_to_error_derivative: DeviceBuffer,
        learning_rate: T,
        parameters: Parameters,
    ) -> Seq<CommandView<T>> {
        let new_weights = parameters.weights_buffer;
        let new_biases = parameters.biases_buffer;
        let samples = Self::samples_in(layer_output_to_error_derivative.len, self.outputs_amount);
        seq![
            CommandView::CreateBuffer { buffer: new_weights, access: Access::ReadWrite },
            CommandView::Launch(
                LaunchView {
                    program: Program::DenseBackPropagation,
                    kernel: Kernel::WeightsGradientApplication,
                    args: seq![
                        KernelArg::Buffer(layer_output_to_error_derivative),
                        KernelArg::Buffer(self.last_inputs_buffer.unwrap()),
                        KernelArg::Buffer(self.weights_buffer.unwrap()),
                        KernelArg::Buffer(new_weights),
                        KernelArg::Int(samples as i32),
                        KernelArg::Int(self.outputs_amount as i32),
                        KernelArg::Int(self.inputs_amount as i32),
                        KernelArg::Scalar(learning_rate),
                    ],
                    global_work_sizes: seq![
                        self.inputs_amount as usize,
                        self.outputs_amount as usize,
                    ],
                },
            ),
            CommandView::CreateBuffer { buffer: new_biases, access: Access::ReadWrite },
            CommandView::Launch(
                LaunchView {
                    program: Program::DenseBackPropagation,
                    kernel: Kernel::BiasGradientApplication,
                    args: seq![
                        KernelArg::Buffer(layer_output_to_error_derivative),
                        KernelArg::Buffer(self.biases_buffer.unwrap()),
                        KernelArg::Buffer(new_biases),
                        KernelArg::Int(samples as i32),
                        KernelArg::Int(self.outputs_amount as i32),
                        KernelArg::Scalar(learning_rate),
                    ],
                    global_work_sizes: seq![self.outputs_amount as usize],
                },
            ),
            CommandView::Finish,
        ]
    }

    /// What `back_propagate` asks of the device: the derivative with
    /// respect to the inputs first, where it is asked for, then the update.
    pub open spec fn back_propagate_commands(
        self,
        layer_output_to_error_derivative: DeviceBuffer,
        learning_rate: T,
        input_derivatives: Option<DeviceBuffer>,
        parameters: Parameters,
    ) -> Seq<CommandView<T>> {
        let update = self.update_commands(
            layer_output_to_error_derivative,
            learning_rate,
            parameters,
        );
        match input_derivatives {
            Some(buffer) => self.input_derivative_commands(
                layer_output_to_error_derivative,
                buffer,
            ) + update,
            None => update,
        }
    }

    /// What `read_parameters` asks of the device.
    pub open spec fn read_commands(self) -> Seq<CommandView<T>> {
        seq![
            CommandView::ReadBuffer { buffer: self.weights_buffer.unwrap() },
            CommandView::ReadBuffer { buffer: self.biases_buffer.unwrap() },
            CommandView::Finish,
        ]
    }

    /// The layer once `parameters`, if there are any, have taken the place
    /// of its parameter buffers.
    pub open spec fn with_parameters(self, parameters: Option<Parameters>) -> DenseView<T> {
        match parameters {
            Some(new) => DenseView {
                weights_buffer: Some(new.weights_buffer),
                biases_buffer: Some(new.biases_buffer),
                ..self
            },
            None => self,
        }
    }

    /// The parameter buffers that `parameters`, if there are any, replace.
    pub open spec fn superseded_by(self, parameters: Option<Parameters>) -> Seq<
        Option<DeviceBuffer>,
    > {
        match parameters {
            Some(_) => seq![self.weights_buffer, self.biases_buffer],
            None => Seq::empty(),
        }
    }

    /// The layer's four buffers, those of the parameters first.
    pub open spec fn slots(self) -> Seq<Option<DeviceBuffer>> {
        seq![
            self.weights_buffer,
            self.biases_buffer,
            self.last_inputs_buffer,
            self.last_outputs_buffer,
        ]
    }
}

/// Where the parameters of a layer of this shape fit a device, no side is
/// zero and neither side exceeds what a kernel can count.
pub proof fn lemma_sides_fit(inputs_amount: nat, outputs_amount: nat)
    requires
        valid_buffer_len((inputs_amount * outputs_amount) as int),
        valid_buffer_len(outputs_amount as int),
    ensures
        1 <= inputs_amount <= 0x7fff_ffff,
        1 <= outputs_amount <= 0x7fff_ffff,
{
    assert(1 <= inputs_amount <= inputs_amount * outputs_amount) by (nonlinear_arith)
        requires
            1 <= inputs_amount * outputs_amount,
            1 <= outputs_amount,
    ;
}

/// A buffer holds no more samples than values.
pub proof fn lemma_samples_bound(len: usize, per_sample: nat)
    requires
        1 <= per_sample,
    ensures
        0 <= len as int / per_sample as int <= len,
{
    assert(0 <= len as int / per_sample as int <= len) by (nonlinear_arith)
        requires
            1 <= per_sample,
            0 <= len,
    ;
}

impl<T> View for Dense<T> {
    type V = DenseView<T>;

    closed spec fn view(&self) -> DenseView<T> {
        DenseView {
            inputs_amount: self.inputs_amount as nat,
            outputs_amount: self.outputs_amount as nat,
            weights: rows_of(self.weights@),
            biases: self.biases@,
            weights_buffer: self.weights_buffer,
            biases_buffer: self.biases_buffer,
            last_inputs_buffer: self.last_inputs_buffer,
            last_outputs_buffer: self.last_outputs_buffer,
        }
    }
}

impl<T> Dense<T> {
    /// The host's parameters have the layer's shape, always.
    #[verifier::type_invariant]
    spec fn shaped(&self) -> bool {
        &&& is_matrix(rows_of(self.weights@), self.inputs_amount as nat, self.outputs_amount as nat)
        &&& self.biases@.len() == self.outputs_amount
    }
}

impl<T: Copy> Dense<T> {
    /// A dense layer of `inputs_amount` inputs and `outputs_amount` outputs
    /// that is on no device yet. Its parameters are taken from `values`: the
    /// weights row by row, then the biases. There is such a layer exactly
    /// when `values` holds one value for each parameter.
    pub fn new_raw(inputs_amount: usize, outputs_amount: usize, values: Vec<T>) -> (layer: Option<
        Dense<T>,
    >)
        ensures
            layer is Some <==> values.len() == inputs_amount * outputs_amount + outputs_amount,
            layer matches Some(dense) ==> dense@.wf() && dense@ == (DenseView {
                inputs_amount: inputs_amount as nat,
                outputs_amount: outputs_amount as nat,
                weights: matrix_from_flat(values@, inputs_amount as nat, outputs_amount as nat),
                biases: values@.subrange(inputs_amount * outputs_amount, values.len() as int),
                weights_buffer: None,
                biases_buffer: None,
                last_inputs_buffer: None,
                last_outputs_buffer: None,
            }),
    {
        let weights_len: usize = match inputs_amount.checked_mul(outputs_amount) {
            Some(n) => n,
            None => {
                return None;
            },
        };
        let total: usize = match weights_len.checked_add(outputs_amount) {
            Some(n) => n,
            None => {
                return None;
            },
        };
        if values.len() != total {
            return None;
        }
        let weights = rows_from_flat(&values, inputs_amount, outputs_amount);
        let biases = copy_from(&values, weights_len);
        proof {
            let m = matrix_from_flat(values@, inputs_amount as nat, outputs_amount as nat);
            assert forall|i: int| 0 <= i < m.len() implies (#[trigger] m[i]).len()
                == outputs_amount by {
                lemma_row_bounds(i, inputs_amount as int, outputs_amount as int);
            }
        }
        Some(
            Dense {
                inputs_amount,
                outputs_amount,
                weights,
                biases,
                weights_buffer: None,
                biases_buffer: None,
                last_inputs_buffer: None,
                last_outputs_buffer: None,
            },
        )
    }

    /// A dense layer as a layer of a model. See `new_raw`.
    pub fn new(inputs_amount: usize, outputs_amount: usize, values: Vec<T>) -> (layer: Option<
        ModelLayer<T>,
    >)
        ensures
            layer is Some <==> values.len() == inputs_amount * outputs_amount + outputs_amount,
            layer matches Some(ModelLayer::Dense(dense)) ==> dense@.wf() && dense@ == (DenseView {
                inputs_amount: inputs_amount as nat,
                outputs_amount: outputs_amount as nat,
                weights: matrix_from_flat(values@, inputs_amount as nat, outputs_amount as nat),
                biases: values@.subrange(inputs_amount * outputs_amount, values.len() as int),
                weights_buffer: None,
                biases_buffer: None,
                last_inputs_buffer: None,
                last_outputs_buffer: None,
            }),
            layer matches Some(made) ==> made is Dense,
    {
        match Dense::new_raw(inputs_amount, outputs_amount, values) {
            Some(dense) => Some(ModelLayer::Dense(dense)),
            None => None,
        }
    }

    /// A dense layer with the given parameters that is on no device yet:
    /// `weights` holds a row of one weight per output for each input, and
    /// `biases` one bias per output. There is such a layer exactly when
    /// every row of `weights` is as long as `biases`.
    pub fn from_parameters(weights: Vec<Vec<T>>, biases: Vec<T>) -> (layer: Option<Dense<T>>)
        ensures
            layer is Some <==> is_matrix(rows_of(weights@), weights@.len(), biases@.len()),
            layer matches Some(dense) ==> dense@.wf() && dense@ == (DenseView {
                inputs_amount: weights@.len(),
                outputs_amount: biases@.len(),
                weights: rows_of(weights@),
                biases: biases@,
                weights_buffer: None,
                biases_buffer: None,
                last_inputs_buffer: None,
                last_outputs_buffer: None,
            }),
    {
        let mut i: usize = 0;
        while i < weights.len()
            invariant
                i <= weights.len(),
                forall|k: int| 0 <= k < i ==> (#[trigger] rows_of(weights@)[k]).len() == biases@.len(),
            decreases weights.len() - i,
        {
            if weights[i].len() != biases.len() {
                assert(rows_of(weights@)[i as int].len() != biases@.len());
                return None;
            }
            i += 1;
        }
        Some(
            Dense {
                inputs_amount: weights.len(),
                outputs_amount: biases.len(),
                weights,
                biases,
                weights_buffer: None,
                biases_buffer: None,
                last_inputs_buffer: None,
                last_outputs_buffer: None,
            },
        )
    }

    /// The number of inputs of each sample.
    pub fn get_inputs_amount(&self) -> (n: usize)
        ensures
            n == self@.inputs_amount,
    {
        self.inputs_amount
    }

    /// The number of outputs of each sample.
    pub fn get_outputs_amount(&self) -> (n: usize)
        ensures
            n == self@.outputs_amount,
    {
        self.outputs_amount
    }

    /// The host's copy of the weights: a row of one weight per output for
    /// each input.
    pub fn weights(&self) -> (weights: &Vec<Vec<T>>)
        ensures
            rows_of(weights@) == self@.weights,
            self@.wf(),
    {
        proof {
            use_type_invariant(self);
        }
        &self.weights
    }

    /// The host's copy of the biases, one per output.
    pub fn biases(&self) -> (biases: &Vec<T>)
        ensures
            biases@ == self@.biases,
            self@.wf(),
    {
        proof {
            use_type_invariant(self);
        }
        &self.biases
    }

    /// The copy of the inputs of the last forward pass.
    pub fn get_last_inputs(&self) -> (buffer: Option<DeviceBuffer>)
        ensures
            buffer == self@.last_inputs_buffer,
    {
        self.last_inputs_buffer
    }

    /// The outputs of the last forward pass.
    pub fn get_last_outputs(&self) -> (buffer: Option<DeviceBuffer>)
        ensures
            buffer == self@.last_outputs_buffer,
    {
        self.last_outputs_buffer
    }

    /// Whether the layer's parameters are on a device.
    pub fn is_initialized(&self) -> (initialized: bool)
        ensures
            initialized == self@.is_initialized(),
    {
        self.weights_buffer.is_some() && self.biases_buffer.is_some()
    }

    /// Whether a device can hold the layer's parameters.
    pub fn fits_device(&self) -> (fits: bool)
        ensures
            fits == self@.fits_device(),
    {
        let limit: usize = buffer_len_limit();
        match self.inputs_amount.checked_mul(self.outputs_amount) {
            Some(n) => 1 <= n && n <= limit && 1 <= self.outputs_amount && self.outputs_amount
                <= limit,
            None => false,
        }
    }

    /// Plans how the layer gets onto the device: its programs are compiled
    /// unless the device has them, and two buffers are reserved and filled
    /// from the host's parameters. Nothing changes in the layer until
    /// `finish_init` is told that the device has done so.
    pub fn init(&self, ctx: &mut ComputeContext) -> (r: Result<Initialization<T>, LayerError>)
        ensures
            match r {
                Ok(plan) => {
                    &&& plan.parameters matches Some(parameters)
                    &&& self@.init_buffers(old(ctx)@) == Ok::<_, LayerError>(parameters)
                    &&& plan.compilation@ == missing_steps(
                        old(ctx)@,
                        Program::DensePropagation,
                        Program::DensePropagation.spec_kernels(),
                    ) + missing_steps(
                        old(ctx)@,
                        Program::DenseBackPropagation,
                        Program::DenseBackPropagation.spec_kernels(),
                    )
                    &&& plan_of(plan.commands@) == self@.init_commands(parameters)
                    &&& final(ctx)@ == after_reserving(old(ctx)@, 2)
                },
                Err(e) => {
                    &&& self@.init_buffers(old(ctx)@) == Err::<Parameters, _>(e)
                    &&& final(ctx)@ == old(ctx)@
                },
            },
    {
        if ctx.queues() == 0 {
            return Err(LayerError::NoCommandQueue);
        }
        let weights_len: usize = match self.inputs_amount.checked_mul(self.outputs_amount) {
            Some(n) => n,
            None => {
                return Err(LayerError::AllocationError);
            },
        };
        let compilation = compile_dense(ctx);
        let mut lens: Vec<usize> = Vec::new();
        lens.push(weights_len);
        lens.push(self.outputs_amount);
        let buffers = match ctx.reserve_buffers(&lens) {
            Some(buffers) => buffers,
            None => {
                proof {
                    if self@.fits_device() {
                        assert(valid_buffer_len(lens@[0] as int));
                        assert(valid_buffer_len(lens@[1] as int));
                    }
                }
                return Err(LayerError::AllocationError);
            },
        };
        proof {
            assert(valid_buffer_len(lens@[0] as int));
            assert(valid_buffer_len(lens@[1] as int));
        }
        let parameters = Parameters { weights_buffer: buffers[0], biases_buffer: buffers[1] };
        let mut commands: Vec<Command<T>> = Vec::new();
        commands.push(
            Command::CreateBuffer { buffer: parameters.weights_buffer, access: Access::ReadWrite },
        );
        commands.push(
            Command::CreateBuffer { buffer: parameters.biases_buffer, access: Access::ReadWrite },
        );
        commands.push(
            Command::WriteBuffer {
                buffer: parameters.weights_buffer,
                data: flatten(&self.weights),
            },
        );
        commands.push(Command::Finish);
        commands.push(
            Command::WriteBuffer {
                buffer: parameters.biases_buffer,
                data: copy_from(&self.biases, 0),
            },
        );
        commands.push(Command::Finish);
        proof {
            assert(self.biases@.subrange(0, self.biases@.len() as int) =~= self.biases@);
            assert(plan_of(commands@) =~= self@.init_commands(parameters));
        }
        Ok(Initialization { compilation, commands, parameters: Some(parameters) })
    }

    /// The device has carried out `plan`: the buffers it names now hold the
    /// layer's parameters, and those that held them before are to be freed.
    /// A plan that names none changes nothing.
    pub fn finish_init(&mut self, plan: &Initialization<T>) -> (superseded: Vec<Command<T>>)
        ensures
            final(self)@ == old(self)@.with_parameters(plan.parameters),
            plan_of(superseded@) == releases::<T>(
                held(old(self)@.superseded_by(plan.parameters)),
            ),
    {
        self.install(plan.parameters)
    }

    /// Plans one forward pass over the samples in `input`: for each sample
    /// and output, the bias plus the sum over the inputs of input times
    /// weight. The number of samples is the number of values in `input`
    /// divided by the layer's number of inputs.
    pub fn propagate(&self, ctx: &mut ComputeContext, input: &DeviceBuffer) -> (r: Result<
        Propagation<T>,
        LayerError,
    >)
        requires
            self@.is_initialized(),
        ensures
            match r {
                Ok(plan) => {
                    &&& self@.propagate_buffers(old(ctx)@, *input) == Ok::<_, LayerError>(
                        (plan.last_inputs, plan.outputs),
                    )
                    &&& plan_of(plan.commands@) == self@.propagate_commands(
                        *input,
                        plan.last_inputs,
                        plan.outputs,
                    )
                    &&& final(ctx)@ == after_reserving(old(ctx)@, 2)
                },
                Err(e) => {
                    &&& self@.propagate_buffers(old(ctx)@, *input) == Err::<
                        (DeviceBuffer, DeviceBuffer),
                        _,
                    >(e)
                    &&& final(ctx)@ == old(ctx)@
                },
            },
    {
        if ctx.queues() == 0 {
            return Err(LayerError::NoCommandQueue);
        }
        if !ctx.has_program(Program::DensePropagation) || !ctx.has_kernel(
            Program::DensePropagation,
            Kernel::DensePropagate,
        ) {
            return Err(LayerError::MissingProgramOrKernel);
        }
        if !self.fits_device() {
            return Err(LayerError::AllocationError);
        }
        proof {
            lemma_sides_fit(self@.inputs_amount, self@.outputs_amount);
            lemma_samples_bound(input.len, self@.inputs_amount);
        }
        let samples: usize = input.len / self.inputs_amount;
        let outputs_len: usize = match samples.checked_mul(self.outputs_amount) {
            Some(n) => n,
            None => {
                return Err(LayerError::AllocationError);
            },
        };
        let mut lens: Vec<usize> = Vec::new();
        lens.push(input.len);
        lens.push(outputs_len);
        let buffers = match ctx.reserve_buffers(&lens) {
            Some(buffers) => buffers,
            None => {
                proof {
                    if valid_buffer_len(input.len as int) && valid_buffer_len(outputs_len as int) {
                        assert(valid_buffer_len(lens@[0] as int));
                        assert(valid_buffer_len(lens@[1] as int));
                    }
                }
                return Err(LayerError::AllocationError);
            },
        };
        proof {
            assert(valid_buffer_len(lens@[0] as int));
            assert(valid_buffer_len(lens@[1] as int));
        }
        let last_inputs = buffers[0];
        let outputs = buffers[1];
        let mut args: Vec<KernelArg<T>> = Vec::new();
        args.push(KernelArg::Buffer(*input));
        args.push(KernelArg::Buffer(self.biases_buffer.unwrap()));
        args.push(KernelArg::Buffer(self.weights_buffer.unwrap()));
        args.push(KernelArg::Buffer(outputs));
        args.push(KernelArg::Int(self.inputs_amount as i32));
        args.push(KernelArg::Int(samples as i32));
        args.push(KernelArg::Int(self.outputs_amount as i32));
        let mut sizes: Vec<usize> = Vec::new();
        sizes.push(samples);
        sizes.push(self.outputs_amount);
        let mut commands: Vec<Command<T>> = Vec::new();
        commands.push(Command::CreateBuffer { buffer: last_inputs, access: Access::ReadOnly });
        commands.push(Command::CopyBuffer { source: *input, target: last_inputs, len: input.len });
        commands.push(Command::CreateBuffer { buffer: outputs, access: Access::ReadWrite });
        commands.push(launch(Program::DensePropagation, Kernel::DensePropagate, args, sizes));
        commands.push(Command::Finish);
        proof {
            let want = self@.propagate_commands(*input, last_inputs, outputs);
            assert(args@ =~= want[3]->Launch_0.args);
            assert(sizes@ =~= want[3]->Launch_0.global_work_sizes);
            assert(plan_of(commands@) =~= want);
        }
        Ok(Propagation { commands, last_inputs, outputs })
    }

    /// The device has carried out `plan`: its buffers are now the layer's
    /// cache of the last forward pass. The buffers of the pass before are
    /// to be freed.
    pub fn finish_propagate(&mut self, plan: &Propagation<T>) -> (superseded: Vec<Command<T>>)
        ensures
            final(self)@ == (DenseView {
                last_inputs_buffer: Some(plan.last_inputs),
                last_outputs_buffer: Some(plan.outputs),
                ..old(self)@
            }),
            plan_of(superseded@) == releases::<T>(
                held(seq![old(self)@.last_inputs_buffer, old(self)@.last_outputs_buffer]),
            ),
    {
        proof {
            use_type_invariant(&*self);
        }
        let mut slots: Vec<Option<DeviceBuffer>> = Vec::new();
        slots.push(self.last_inputs_buffer);
        slots.push(self.last_outputs_buffer);
        proof {
            assert(slots@ =~= seq![self.last_inputs_buffer, self.last_outputs_buffer]);
        }
        self.last_inputs_buffer = Some(plan.last_inputs);
        self.last_outputs_buffer = Some(plan.outputs);
        release_held(&slots)
    }

    /// Plans one backward pass. `layer_output_to_error_derivative` holds
    /// the derivative of the loss with respect to each output of each
    /// sample; the number of samples is the number of its values divided by
    /// the layer's number of outputs. The parameters move against the
    /// gradient, averaged over the samples, by `learning_rate`. The
    /// derivative with respect to the inputs is computed only where
    /// `should_calculate_input_to_error_derivative` says so. No buffer that
    /// exists is written: the results go to buffers of their own.
    pub fn back_propagate(
        &self,
        ctx: &mut ComputeContext,
        should_calculate_input_to_error_derivative: bool,
        layer_output_to_error_derivative: &DeviceBuffer,
        learning_rate: T,
    ) -> (r: Result<BackPropagation<T>, LayerError>)
        requires
            self@.is_initialized(),
            self@.last_inputs_buffer is Some,
        ensures
            match r {
                Ok(plan) => {
                    &&& plan.parameters matches Some(parameters)
                    &&& self@.back_propagate_buffers(
                        old(ctx)@,
                        should_calculate_input_to_error_derivative,
                        *layer_output_to_error_derivative,
                    ) == Ok::<_, LayerError>((plan.input_derivatives, parameters))
                    &&& plan_of(plan.commands@) == self@.back_propagate_commands(
                        *layer_output_to_error_derivative,
                        learning_rate,
                        plan.input_derivatives,
                        parameters,
                    )
                    &&& final(ctx)@ == after_reserving(
                        old(ctx)@,
                        if should_calculate_input_to_error_derivative {
                            3
                        } else {
                            2
                        },
                    )
                },
                Err(e) => {
                    &&& self@.back_propagate_buffers(
                        old(ctx)@,
                        should_calculate_input_to_error_derivative,
                        *layer_output_to_error_derivative,
                    ) == Err::<(Option<DeviceBuffer>, Parameters), _>(e)
                    &&& final(ctx)@ == old(ctx)@
                },
            },
    {
        let derivatives = *layer_output_to_error_derivative;
        if ctx.queues() == 0 {
            return Err(LayerError::NoCommandQueue);
        }
        if !ctx.has_program(Program::DenseBackPropagation) || !ctx.has_kernel(
            Program::DenseBackPropagation,
            Kernel::WeightsGradientApplication,
        ) || !ctx.has_kernel(Program::DenseBackPropagation, Kernel::BiasGradientApplication) || (
        should_calculate_input_to_error_derivative && !ctx.has_kernel(
            Program::DenseBackPropagation,
            Kernel::ComputeLossDerivativeWithRespectToInputs,
        )) {
            return Err(LayerError::MissingProgramOrKernel);
        }
        if !self.fits_device() || !derivatives.is_valid() {
            return Err(LayerError::AllocationError);
        }
        proof {
            lemma_sides_fit(self@.inputs_amount, self@.outputs_amount);
            lemma_samples_bound(derivatives.len, self@.outputs_amount);
        }
        let samples: usize = derivatives.len / self.outputs_amount;
        let weights_len: usize = self.inputs_amount * self.outputs_amount;
        let mut lens: Vec<usize> = Vec::new();
        if should_calculate_input_to_error_derivative {
            match samples.checked_mul(self.inputs_amount) {
                Some(n) => {
                    lens.push(n);
                },
                None => {
                    return Err(LayerError::AllocationError);
                },
            }
        }
        lens.push(weights_len);
        lens.push(self.outputs_amount);
        let ghost asked: int = if should_calculate_input_to_error_derivative {
            1
        } else {
            0
        };
        let buffers = match ctx.reserve_buffers(&lens) {
            Some(buffers) => buffers,
            None => {
                proof {
                    assert(valid_buffer_len(lens@[asked] as int));
                    assert(valid_buffer_len(lens@[asked + 1] as int));
                    if should_calculate_input_to_error_derivative && valid_buffer_len(
                        lens@[0] as int,
                    ) {
                        assert(valid_buffer_lens(lens@));
                    }
                    if !should_calculate_input_to_error_derivative {
                        assert(valid_buffer_lens(lens@));
                    }
                }
                return Err(LayerError::AllocationError);
            },
        };
        proof {
            assert(valid_buffer_len(lens@[0] as int));
        }
        let mut commands: Vec<Command<T>> = Vec::new();
        let mut input_derivatives: Option<DeviceBuffer> = None;
        let mut next: usize = 0;
        if should_calculate_input_to_error_derivative {
            let buffer = buffers[0];
            let mut args: Vec<KernelArg<T>> = Vec::new();
            args.push(KernelArg::Buffer(self.weights_buffer.unwrap()));
            args.push(KernelArg::Buffer(derivatives));
            args.push(KernelArg::Buffer(buffer));
            args.push(KernelArg::Int(self.outputs_amount as i32));
            args.push(KernelArg::Int(samples as i32));
            args.push(KernelArg::Int(self.inputs_amount as i32));
            let mut sizes: Vec<usize> = Vec::new();
            sizes.push(samples);
            sizes.push(self.inputs_amount);
            commands.push(Command::CreateBuffer { buffer, access: Access::ReadWrite });
            commands.push(
                launch(
                    Program::DenseBackPropagation,
                    Kernel::ComputeLossDerivativeWithRespectToInputs,
                    args,
                    sizes,
                ),
            );
            commands.push(Command::Finish);
            proof {
                let want = self@.input_derivative_commands(derivatives, buffer);
                assert(args@ =~= want[1]->Launch_0.args);
                assert(sizes@ =~= want[1]->Launch_0.global_work_sizes);
                assert(plan_of(commands@) =~= want);
            }
            input_derivatives = Some(buffer);
            next = 1;
        }
        let ghost first_part = plan_of(commands@);
        let ghost first_len = commands@.len();
        let new_weights = buffers[next];
        let new_biases = buffers[next + 1];
        let mut weight_args: Vec<KernelArg<T>> = Vec::new();
        weight_args.push(KernelArg::Buffer(derivatives));
        weight_args.push(KernelArg::Buffer(self.last_inputs_buffer.unwrap()));
        weight_args.push(KernelArg::Buffer(self.weights_buffer.unwrap()));
        weight_args.push(KernelArg::Buffer(new_weights));
        weight_args.push(KernelArg::Int(samples as i32));
        weight_args.push(KernelArg::Int(self.outputs_amount as i32));
        weight_args.push(KernelArg::Int(self.inputs_amount as i32));
        weight_args.push(KernelArg::Scalar(learning_rate));
        let mut weight_sizes: Vec<usize> = Vec::new();
        weight_sizes.push(self.inputs_amount);
        weight_sizes.push(self.outputs_amount);
        let mut bias_args: Vec<KernelArg<T>> = Vec::new();
        bias_args.push(KernelArg::Buffer(derivatives));
        bias_args.push(KernelArg::Buffer(self.biases_buffer.unwrap()));
        bias_args.push(KernelArg::Buffer(new_biases));
        bias_args.push(KernelArg::Int(samples as i32));
        bias_args.push(KernelArg::Int(self.outputs_amount as i32));
        bias_args.push(KernelArg::Scalar(learning_rate));
        let mut bias_sizes: Vec<usize> = Vec::new();
        bias_sizes.push(self.outputs_amount);
        commands.push(Command::CreateBuffer { buffer: new_weights, access: Access::ReadWrite });
        commands.push(
            launch(
                Program::DenseBackPropagation,
                Kernel::WeightsGradientApplication,
                weight_args,
                weight_sizes,
            ),
        );
        commands.push(Command::CreateBuffer { buffer: new_biases, access: Access::ReadWrite });
        commands.push(
            launch(
                Program::DenseBackPropagation,
                Kernel::BiasGradientApplication,
                bias_args,
                bias_sizes,
            ),
        );
        commands.push(Command::Finish);
        let parameters = Parameters { weights_buffer: new_weights, biases_buffer: new_biases };
        proof {
            let update = self@.update_commands(derivatives, learning_rate, parameters);
            assert(weight_args@ =~= update[1]->Launch_0.args);
            assert(weight_sizes@ =~= update[1]->Launch_0.global_work_sizes);
            assert(bias_args@ =~= update[3]->Launch_0.args);
            assert(bias_sizes@ =~= update[3]->Launch_0.global_work_sizes);
            assert(plan_of(commands@) =~= first_part + update);
            assert(first_part + update =~= self@.back_propagate_commands(
                derivatives,
                learning_rate,
                input_derivatives,
                parameters,
            ));
        }
        Ok(BackPropagation { commands, input_derivatives, parameters: Some(parameters) })
    }

    /// The device has carried out `plan`: the buffers it names now hold the
    /// layer's parameters, and those that held them before are to be freed.
    /// A plan that names none changes nothing.
    pub fn finish_back_propagate(&mut self, plan: &BackPropagation<T>) -> (superseded: Vec<
        Command<T>,
    >)
        ensures
            final(self)@ == old(self)@.with_parameters(plan.parameters),
            plan_of(superseded@) == releases::<T>(
                held(old(self)@.superseded_by(plan.parameters)),
            ),
    {
        self.install(plan.parameters)
    }

    /// Takes over `parameters`, if there are any, and frees what they
    /// replace.
    fn install(&mut self, parameters: Option<Parameters>) -> (superseded: Vec<Command<T>>)
        ensures
            final(self)@ == old(self)@.with_parameters(parameters),
            plan_of(superseded@) == releases::<T>(held(old(self)@.superseded_by(parameters))),
    {
        proof {
            use_type_invariant(&*self);
        }
        let mut slots: Vec<Option<DeviceBuffer>> = Vec::new();
        match parameters {
            Some(new) => {
                slots.push(self.weights_buffer);
                slots.push(self.biases_buffer);
                self.weights_buffer = Some(new.weights_buffer);
                self.biases_buffer = Some(new.biases_buffer);
            },
            None => {},
        }
        proof {
            assert(slots@ =~= old(self)@.superseded_by(parameters));
        }
        release_held(&slots)
    }

    /// Plans how the device's parameters get back to the host: both
    /// buffers are read, the weights first, and the reads awaited.
    pub fn read_parameters(&self, ctx: &ComputeContext) -> (r: Result<Vec<Command<T>>, LayerError>)
        requires
            self@.is_initialized(),
        ensures
            r is Ok <==> ctx@.queues > 0,
            r matches Ok(commands) ==> plan_of(commands@) == self@.read_commands(),
            r matches Err(e) ==> e == LayerError::NoCommandQueue,
    {
        if ctx.queues() == 0 {
            return Err(LayerError::NoCommandQueue);
        }
        let mut commands: Vec<Command<T>> = Vec::new();
        commands.push(Command::ReadBuffer { buffer: self.weights_buffer.unwrap() });
        commands.push(Command::ReadBuffer { buffer: self.biases_buffer.unwrap() });
        commands.push(Command::Finish);
        proof {
            assert(plan_of(commands@) =~= self@.read_commands());
        }
        Ok(commands)
    }

    /// Takes over what the device's parameter buffers held: `weights` row
    /// after row, and `biases`. The host's copies change exactly when both
    /// have the layer's shape.
    pub fn sync_data_from_buffers_to_host(&mut self, weights: &Vec<T>, biases: Vec<T>) -> (synced:
        bool)
        ensures
            synced <==> weights.len() == old(self)@.inputs_amount * old(self)@.outputs_amount
                && biases.len() == old(self)@.outputs_amount,
            synced ==> final(self)@ == (DenseView {
                weights: matrix_from_flat(
                    weights@,
                    old(self)@.inputs_amount,
                    old(self)@.outputs_amount,
                ),
                biases: biases@,
                ..old(self)@
            }),
            !synced ==> final(self)@ == old(self)@,
    {
        proof {
            use_type_invariant(&*self);
        }
        if biases.len() != self.outputs_amount {
            return false;
        }
        match unflatten(weights, self.inputs_amount, self.outputs_amount) {
            Some(rows) => {
                proof {
                    lemma_flatten_of_matrix_from_flat(
                        weights@,
                        self.inputs_amount as nat,
                        self.outputs_amount as nat,
                    );
                }
                self.weights = rows;
                self.biases = biases;
                true
            },
            None => false,
        }
    }

    /// Gives up every buffer that the layer holds on the device: the
    /// commands free them, parameters first, and the layer holds none
    /// afterwards. A layer that holds none stays as it is and asks for
    /// nothing.
    pub fn clean_up_gpu_state(&mut self) -> (commands: Vec<Command<T>>)
        ensures
            final(self)@ == (DenseView {
                weights_buffer: None,
                biases_buffer: None,
                last_inputs_buffer: None,
                last_outputs_buffer: None,
                ..old(self)@
            }),
            plan_of(commands@) == releases::<T>(held(old(self)@.slots())),
            held(final(self)@.slots()) == Seq::<DeviceBuffer>::empty(),
    {
        proof {
            use_type_invariant(&*self);
        }
        let mut slots: Vec<Option<DeviceBuffer>> = Vec::new();
        slots.push(self.weights_buffer);
        slots.push(self.biases_buffer);
        slots.push(self.last_inputs_buffer);
        slots.push(self.last_outputs_buffer);
        proof {
            assert(slots@ =~= self@.slots());
        }
        self.weights_buffer = None;
        self.biases_buffer = None;
        self.last_inputs_buffer = None;
        self.last_outputs_buffer = None;
        proof {
            lemma_nothing_held(self@.slots());
        }
        release_held(&slots)
    }
}

} // verus!
