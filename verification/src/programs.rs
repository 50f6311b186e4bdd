//! The device programs the engine relies on and their entry points.
//!
//! A program is a unit of kernel source that the device compiles once; a
//! kernel is one entry point of a program. Both are closed sets here, so a
//! launch can only ever name an entry point that some program declares.

use vstd::prelude::*;

verus! {

/// A device program, known to the device by its name.
#[derive(Clone, Copy, Debug, PartialEq, Eq, Structural)]
pub enum Program {
    /// The forward pass of the densely connected layer.
    DensePropagation,
    /// The backward pass of the densely connected layer.
    DenseBackPropagation,
    /// The hyperbolic tangent activation.
    TanH,
    /// The rectified linear unit activation.
    ReLU,
    /// The mean squared loss.
    MeanSquared,
    /// The categorical cross entropy loss.
    CategoricalCrossEntropy,
}

/// An entry point of a device program.
#[derive(Clone, Copy, Debug, PartialEq, Eq, Structural)]
pub enum Kernel {
    /// Forward pass of a dense layer, one work item per (sample, output).
    DensePropagate,
    /// Gradient step on the weights, one work item per (input, output).
    WeightsGradientApplication,
    /// Gradient step on the biases, one work item per output.
    BiasGradientApplication,
    /// Derivative of the loss with respect to a dense layer's inputs.
    ComputeLossDerivativeWithRespectToInputs,
    /// Forward pass of an activation, one work item per value.
    Propagate,
    /// Backward pass of an activation, one work item per value.
    BackPropagate,
    /// Loss of each sample.
    ComputeLoss,
    /// Derivative of the loss with respect to each output.
    ComputeLossToOutputDerivatives,
}

impl Program {
    /// The name under which the device registry keeps the program.
    pub open spec fn spec_name(self) -> Seq<char> {
        match self {
            Program::DensePropagation => "DENSE_PROPAGATION"@,
            Program::DenseBackPropagation => "DENSE_BACKPROPAGATION"@,
            Program::TanH => "TANH"@,
            Program::ReLU => "RELU"@,
            Program::MeanSquared => "MEAN_SQUARED"@,
            Program::CategoricalCrossEntropy => "CATEGORICAL_CROSS_ENTROPY"@,
        }
    }

    /// The entry points that the program declares, in the order in which
    /// they are created.
    pub open spec fn spec_kernels(self) -> Seq<Kernel> {
        match self {
            Program::DensePropagation => seq![Kernel::DensePropagate],
            Program::DenseBackPropagation => seq![
                Kernel::WeightsGradientApplication,
                Kernel::BiasGradientApplication,
                Kernel::ComputeLossDerivativeWithRespectToInputs,
            ],
            Program::TanH => seq![Kernel::Propagate, Kernel::BackPropagate],
            Program::ReLU => seq![Kernel::Propagate, Kernel::BackPropagate],
            Program::MeanSquared => seq![
                Kernel::ComputeLoss,
                Kernel::ComputeLossToOutputDerivatives,
            ],
            Program::CategoricalCrossEntropy => seq![
                Kernel::ComputeLoss,
                Kernel::ComputeLossToOutputDerivatives,
            ],
        }
    }

    /// The name under which the device registry keeps the program.
    pub fn name(&self) -> (s: &'static str)
        ensures
            s@ == self.spec_name(),
    {
        match self {
            Program::DensePropagation => "DENSE_PROPAGATION",
            Program::DenseBackPropagation => "DENSE_BACKPROPAGATION",
            Program::TanH => "TANH",
            Program::ReLU => "RELU",
            Program::MeanSquared => "MEAN_SQUARED",
            Program::CategoricalCrossEntropy => "CATEGORICAL_CROSS_ENTROPY",
        }
    }

    /// The entry points that the program declares.
    pub fn kernels(&self) -> (ks: Vec<Kernel>)
        ensures
            ks@ == self.spec_kernels(),
    {
        let mut ks: Vec<Kernel> = Vec::new();
        match self {
            Program::DensePropagation => {
                ks.push(Kernel::DensePropagate);
            },
            Program::DenseBackPropagation => {
                ks.push(Kernel::WeightsGradientApplication);
                ks.push(Kernel::BiasGradientApplication);
                ks.push(Kernel::ComputeLossDerivativeWithRespectToInputs);
            },
            Program::TanH => {
                ks.push(Kernel::Propagate);
                ks.push(Kernel::BackPropagate);
            },
            Program::ReLU => {
                ks.push(Kernel::Propagate);
                ks.push(Kernel::BackPropagate);
            },
            Program::MeanSquared => {
                ks.push(Kernel::ComputeLoss);
                ks.push(Kernel::ComputeLossToOutputDerivatives);
            },
            Program::CategoricalCrossEntropy => {
                ks.push(Kernel::ComputeLoss);
                ks.push(Kernel::ComputeLossToOutputDerivatives);
            },
        }
        assert(ks@ =~= self.spec_kernels());
        ks
    }
}

impl Kernel {
    /// The name of the entry point in the program's source.
    pub open spec fn spec_name(self) -> Seq<char> {
        match self {
            Kernel::DensePropagate => "dense_propagate"@,
            Kernel::WeightsGradientApplication => "weights_gradient_application"@,
            Kernel::BiasGradientApplication => "bias_gradient_application"@,
            Kernel::ComputeLossDerivativeWithRespectToInputs =>
                "compute_loss_derivative_with_respect_to_inputs"@,
            Kernel::Propagate => "propagate"@,
            Kernel::BackPropagate => "back_propagate"@,
            Kernel::ComputeLoss => "compute_loss"@,
            Kernel::ComputeLossToOutputDerivatives => "compute_loss_to_output_derivatives"@,
        }
    }

    /// The name of the entry point in the program's source.
    pub fn name(&self) -> (s: &'static str)
        ensures
            s@ == self.spec_name(),
    {
        match self {
            Kernel::DensePropagate => "dense_propagate",
            Kernel::WeightsGradientApplication => "weights_gradient_application",
            Kernel::BiasGradientApplication => "bias_gradient_application",
            Kernel::ComputeLossDerivativeWithRespectToInputs =>
                "compute_loss_derivative_with_respect_to_inputs",
            Kernel::Propagate => "propagate",
            Kernel::BackPropagate => "back_propagate",
            Kernel::ComputeLoss => "compute_loss",
            Kernel::ComputeLossToOutputDerivatives => "compute_loss_to_output_derivatives",
        }
    }
}

} // verus!
