//! The categorical cross entropy loss.

use crate::device::missing_steps;
use crate::device::Compilation;
use crate::device::ComputeContext;
use crate::device::DeviceBuffer;
use crate::loss_functions::plan_derivatives;
use crate::loss_functions::plan_loss;
use crate::loss_functions::LossComputation;
use crate::loss_functions::LossComputationError;
use crate::loss_functions::LossDerivatives;
use crate::loss_functions::LossFunction;
use crate::loss_functions::LossToModelOutputsDerivativesComputationError;
use crate::programs::Program;
use crate::types::ModelLossFunction;
use vstd::prelude::*;

verus! {

/// The steps that bring the program of the categorical cross entropy loss
/// onto the device: those that the context's registry still lacks.
pub fn compile_categorical_cross_entropy(opencl_state: &ComputeContext) -> (steps: Vec<Compilation>)
    ensures
        steps@ == missing_steps(
            opencl_state@,
            Program::CategoricalCrossEntropy,
            Program::CategoricalCrossEntropy.spec_kernels(),
        ),
{
    let kernels = Program::CategoricalCrossEntropy.kernels();
    opencl_state.ensure_program(Program::CategoricalCrossEntropy, &kernels)
}

/// The categorical cross entropy loss, for outputs that are a probability
/// distribution over classes, such as those of a normalized exponential.
#[derive(Debug)]
pub struct CategoricalCrossEntropy {
    initialized: bool,
}

impl CategoricalCrossEntropy {
    /// The categorical cross entropy loss as a loss function for training a
    /// model. It is not initialized.
    pub fn new() -> (loss: ModelLossFunction)
        ensures
            loss matches ModelLossFunction::CategoricalCrossEntropy(inner) && !inner.bound(),
    {
        ModelLossFunction::CategoricalCrossEntropy(CategoricalCrossEntropy::new_raw())
    }

    /// The categorical cross entropy loss by itself. It is not initialized:
    /// `init` has to be called before a loss is computed.
    pub fn new_raw() -> (loss: CategoricalCrossEntropy)
        ensures
            !loss.bound(),
    {
        CategoricalCrossEntropy { initialized: false }
    }

    /// Whether `init` has bound the loss to a compute context.
    pub closed spec fn bound(&self) -> bool {
        self.initialized
    }
}

impl<T> LossFunction<T> for CategoricalCrossEntropy {
    open spec fn is_initialized(&self) -> bool {
        self.bound()
    }

    open spec fn program(&self) -> Program {
        Program::CategoricalCrossEntropy
    }

    fn init(&mut self, ctx: &ComputeContext) -> (steps: Vec<Compilation>) {
        self.initialized = true;
        compile_categorical_cross_entropy(ctx)
    }

    fn compute_loss(
        &self,
        ctx: &mut ComputeContext,
        output_samples: &DeviceBuffer,
        expected_outputs: &DeviceBuffer,
        samples_amount: usize,
    ) -> (r: Result<LossComputation<T>, LossComputationError>) {
        plan_loss(
            self.initialized,
            Program::CategoricalCrossEntropy,
            ctx,
            output_samples,
            expected_outputs,
            samples_amount,
        )
    }

    fn compute_loss_derivative_with_respect_to_output_samples(
        &self,
        ctx: &mut ComputeContext,
        output_samples: &DeviceBuffer,
        expected_outputs: &DeviceBuffer,
        samples_amount: usize,
    ) -> (r: Result<LossDerivatives<T>, LossToModelOutputsDerivativesComputationError>) {
        plan_derivatives(
            self.initialized,
            Program::CategoricalCrossEntropy,
            ctx,
            output_samples,
            expected_outputs,
            samples_amount,
        )
    }
}

} // verus!
