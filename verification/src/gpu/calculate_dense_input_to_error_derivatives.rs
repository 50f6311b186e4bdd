//! The derivative of the loss with respect to the inputs of a dense layer
//! whose parameters live on the host, computed by one compute shader.

use crate::layout::flatten;
use crate::layout::matrix_from_flat;
use crate::layout::rows_of;
use crate::layout::unflatten;
use vstd::prelude::*;

verus! {

/// What a binding of the shader is bound to.
#[derive(Clone, Copy, Debug, PartialEq, Eq, Structural)]
pub enum Resource {
    /// The derivatives with respect to the inputs, which the shader writes.
    InputToErrorDerivatives,
    /// The derivatives with respect to the outputs, sample after sample.
    LayerOutputToErrorDerivatives,
    /// The weights, row after row.
    LayerWeights,
    /// The number of samples.
    SamplesAmount,
    /// The number of outputs of each sample.
    OutputsAmount,
    /// The number of inputs of each sample.
    InputsAmount,
}

/// How the shader sees a binding.
#[derive(Clone, Copy, Debug, PartialEq, Eq, Structural)]
pub enum BindingKind {
    /// A storage buffer.
    Storage { read_only: bool },
    /// A uniform buffer of one 32-bit unsigned integer.
    Uniform,
}

/// One entry of the shader's only bind group.
#[derive(Clone, Copy, Debug, PartialEq, Eq, Structural)]
pub struct Binding {
    pub binding: u32,
    pub kind: BindingKind,
    pub resource: Resource,
}

/// A dense layer on the host, after a forward pass.
#[derive(Debug)]
pub struct DenseGpu<T> {
    /// The number of inputs of each sample.
    pub inputs_amount: usize,
    /// The number of outputs of each sample.
    pub outputs_amount: usize,
    /// A row of one weight per output for each input.
    pub weights: Vec<Vec<T>>,
    /// The inputs of the last forward pass, one row per sample.
    pub last_inputs: Vec<Vec<T>>,
}

/// One run of the shader.
#[derive(Debug, PartialEq)]
pub struct ShaderRun<T> {
    /// The contents of the buffer of the derivatives with respect to the
    /// outputs.
    pub flattened_layer_output_to_error_derivatives: Vec<T>,
    /// The contents of the buffer of the weights.
    pub flattened_layer_weights: Vec<T>,
    /// The contents of the uniform buffer of the number of samples.
    pub samples_amount: u32,
    /// The contents of the uniform buffer of the number of outputs.
    pub outputs_amount: u32,
    /// The contents of the uniform buffer of the number of inputs.
    pub inputs_amount: u32,
    /// The number of values that the shader writes.
    pub results_amount: usize,
    /// The size in bytes of the buffer that the shader writes and of the
    /// staging buffer that it is read through.
    pub buffer_size: u64,
    /// The entries of the bind group.
    pub bindings: Vec<Binding>,
    /// The number of workgroups along each dimension.
    pub workgroups: (u32, u32, u32),
}

/// The bind group of the shader: the buffer it writes, the two it reads,
/// and the three amounts.
pub open spec fn shader_bindings() -> Seq<Binding> {
    seq![
        Binding {
            binding: 0,
            kind: BindingKind::Storage { read_only: false },
            resource: Resource::InputToErrorDerivatives,
        },
        Binding {
            binding: 1,
            kind: BindingKind::Storage { read_only: true },
            resource: Resource::LayerOutputToErrorDerivatives,
        },
        Binding {
            binding: 2,
            kind: BindingKind::Storage { read_only: true },
            resource: Resource::LayerWeights,
        },
        Binding { binding: 3, kind: BindingKind::Uniform, resource: Resource::SamplesAmount },
        Binding { binding: 4, kind: BindingKind::Uniform, resource: Resource::OutputsAmount },
        Binding { binding: 5, kind: BindingKind::Uniform, resource: Resource::InputsAmount },
    ]
}

/// Whether the shader can run on these amounts: each fits a 32-bit
/// unsigned integer, and the size in bytes of its results fits both the
/// machine word and a buffer address.
pub open spec fn shader_can_run(samples_amount: int, outputs_amount: int, inputs_amount: int)
    -> bool {
    &&& samples_amount <= u32::MAX
    &&& outputs_amount <= u32::MAX
    &&& inputs_amount <= u32::MAX
    &&& inputs_amount * samples_amount * 4 <= usize::MAX
    &&& inputs_amount * samples_amount * 4 <= u64::MAX
}

/// Plans the run of the shader for a layer and the derivatives of the loss
/// with respect to its outputs, one row per sample. There are as many
/// samples as the layer's last forward pass had.
pub fn calculate_dense_input_to_error_derivatives<T: Copy>(
    dense: &DenseGpu<T>,
    layer_output_to_error_derivatives: &Vec<Vec<T>>,
) -> (run: Option<ShaderRun<T>>)
    ensures
        run is Some <==> shader_can_run(
            dense.last_inputs@.len() as int,
            dense.outputs_amount as int,
            dense.inputs_amount as int,
        ),
        run matches Some(r) ==> {
            &&& r.flattened_layer_output_to_error_derivatives@ == rows_of(
                layer_output_to_error_derivatives@,
            ).flatten()
            &&& r.flattened_layer_weights@ == rows_of(dense.weights@).flatten()
            &&& r.samples_amount == dense.last_inputs@.len()
            &&& r.outputs_amount == dense.outputs_amount
            &&& r.inputs_amount == dense.inputs_amount
            &&& r.results_amount == dense.inputs_amount * dense.last_inputs@.len()
            &&& r.buffer_size == r.results_amount * 4
            &&& r.bindings@ == shader_bindings()
            &&& r.workgroups == (r.samples_amount, r.inputs_amount, 1u32)
        },
{
    let flattened_layer_output_to_error_derivatives = flatten(layer_output_to_error_derivatives);
    let flattened_layer_weights = flatten(&dense.weights);
    let samples_amount: usize = dense.last_inputs.len();
    execute_gpu_code(
        samples_amount,
        dense.outputs_amount,
        dense.inputs_amount,
        flattened_layer_output_to_error_derivatives,
        flattened_layer_weights,
    )
}

/// Plans the run of the shader on flat buffers. There is a run exactly
/// when the shader can run on the amounts.
pub fn execute_gpu_code<T>(
    samples_amount: usize,
    outputs_amount: usize,
    inputs_amount: usize,
    flattened_layer_output_to_error_derivatives: Vec<T>,
    flattened_layer_weights: Vec<T>,
) -> (run: Option<ShaderRun<T>>)
    ensures
        run is Some <==> shader_can_run(
            samples_amount as int,
            outputs_amount as int,
            inputs_amount as int,
        ),
        run matches Some(r) ==> {
            &&& r.flattened_layer_output_to_error_derivatives
                == flattened_layer_output_to_error_derivatives
            &&& r.flattened_layer_weights == flattened_layer_weights
            &&& r.samples_amount == samples_amount
            &&& r.outputs_amount == outputs_amount
            &&& r.inputs_amount == inputs_amount
            &&& r.results_amount == inputs_amount * samples_amount
            &&& r.buffer_size == r.results_amount * 4
            &&& r.bindings@ == shader_bindings()
            &&& r.workgroups == (r.samples_amount, r.inputs_amount, 1u32)
        },
{
    if samples_amount > 0xffff_ffff || outputs_amount > 0xffff_ffff || inputs_amount
        > 0xffff_ffff {
        return None;
    }
    let results_amount: usize = match inputs_amount.checked_mul(samples_amount) {
        Some(n) => n,
        None => {
            proof {
                assert(inputs_amount * samples_amount * 4 > usize::MAX) by (nonlinear_arith)
                    requires
                        inputs_amount * samples_amount > usize::MAX,
                ;
            }
            return None;
        },
    };
    let input_derivatives_size: usize = match results_amount.checked_mul(4) {
        Some(n) => n,
        None => {
            return None;
        },
    };
    let mut bindings: Vec<Binding> = Vec::new();
    bindings.push(
        Binding {
            binding: 0,
            kind: BindingKind::Storage { read_only: false },
            resource: Resource::InputToErrorDerivatives,
        },
    );
    bindings.push(
        Binding {
            binding: 1,
            kind: BindingKind::Storage { read_only: true },
            resource: Resource::LayerOutputToErrorDerivatives,
        },
    );
    bindings.push(
        Binding {
            binding: 2,
            kind: BindingKind::Storage { read_only: true },
            resource: Resource::LayerWeights,
        },
    );
    bindings.push(
        Binding { binding: 3, kind: BindingKind::Uniform, resource: Resource::SamplesAmount },
    );
    bindings.push(
        Binding { binding: 4, kind: BindingKind::Uniform, resource: Resource::OutputsAmount },
    );
    bindings.push(
        Binding { binding: 5, kind: BindingKind::Uniform, resource: Resource::InputsAmount },
    );
    proof {
        assert(bindings@ =~= shader_bindings());
    }
    Some(
        ShaderRun {
            flattened_layer_output_to_error_derivatives,
            flattened_layer_weights,
            samples_amount: samples_amount as u32,
            outputs_amount: outputs_amount as u32,
            inputs_amount: inputs_amount as u32,
            results_amount,
            buffer_size: input_derivatives_size as u64,
            bindings,
            workgroups: (samples_amount as u32, inputs_amount as u32, 1),
        },
    )
}

/// What the shader wrote, as one row per sample of one derivative per
/// input. There are such rows exactly when `results` holds as many values
/// as the run was to write.
pub fn actual_input_to_error_derivatives<T: Copy>(run: &ShaderRun<T>, results: &Vec<T>) -> (rows:
    Option<Vec<Vec<T>>>)
    ensures
        rows is Some <==> run.samples_amount * run.inputs_amount == results@.len(),
        rows matches Some(m) ==> rows_of(m@) == matrix_from_flat(
            results@,
            run.samples_amount as nat,
            run.inputs_amount as nat,
        ),
{
    unflatten(results, run.samples_amount as usize, run.inputs_amount as usize)
}

} // verus!
