//! The mean squared loss.

use crate::device::missing_steps;
use crate::device::Compilation;
use crate::device::ComputeContext;
use crate::device::DeviceBuffer;
use crate::loss_functions::plan_derivatives;
use crate::loss_functions::plan_loss;
use crate::loss_functions::LossComputation;
use crate::loss_functions::LossComputationError;
use crate::loss_functions::LossDerivatives;
use crate::loss_functions::LossFunction;
use crate::loss_functions::LossToModelOutputsDerivativesComputationError;
use crate::programs::Program;
use crate::types::ModelLossFunction;
use vstd::prelude::*;

verus! {

/// The steps that bring the program of the mean squared loss onto the
/// device: those that the context's registry still lacks.
pub fn compile_mean_squared(opencl_state: &ComputeContext) -> (steps: Vec<Compilation>)
    ensures
        steps@ == missing_steps(
            opencl_state@,
            Program::MeanSquared,
            Program::MeanSquared.spec_kernels(),
        ),
{
    let kernels = Program::MeanSquared.kernels();
    opencl_state.ensure_program(Program::MeanSquared, &kernels)
}

/// The mean squared loss: the mean, over all samples and outputs, of the
/// square of the difference between the actual and the expected output.
/// Its derivative with respect to an output is twice that difference,
/// divided by the number of outputs of a sample.
#[derive(Debug)]
pub struct MeanSquared {
    initialized: bool,
}

impl MeanSquared {
    /// The mean squared loss as a loss function for training a model. It is
    /// not initialized.
    pub fn new() -> (loss: ModelLossFunction)
        ensures
            loss matches ModelLossFunction::MeanSquared(inner) && !inner.bound(),
    {
        ModelLossFunction::MeanSquared(MeanSquared::new_raw())
    }

    /// The mean squared loss by itself. It is not initialized: `init` has to
    /// be called before a loss is computed.
    pub fn new_raw() -> (loss: MeanSquared)
        ensures
            !loss.bound(),
    {
        MeanSquared { initialized: false }
    }

    /// Whether `init` has bound the loss to a compute context.
    pub closed spec fn bound(&self) -> bool {
        self.initialized
    }
}

impl<T> LossFunction<T> for MeanSquared {
    open spec fn is_initialized(&self) -> bool {
        self.bound()
    }

    open spec fn program(&self) -> Program {
        Program::MeanSquared
    }

    fn init(&mut self, ctx: &ComputeContext) -> (steps: Vec<Compilation>) {
        self.initialized = true;
        compile_mean_squared(ctx)
    }

    fn compute_loss(
        &self,
        ctx: &mut ComputeContext,
        output_samples: &DeviceBuffer,
        expected_outputs: &DeviceBuffer,
        samples_amount: usize,
    ) -> (r: Result<LossComputation<T>, LossComputationError>) {
        plan_loss(
            self.initialized,
            Program::MeanSquared,
            ctx,
            output_samples,
            expected_outputs,
            samples_amount,
        )
    }

    fn compute_loss_derivative_with_respect_to_output_samples(
        &self,
        ctx: &mut ComputeContext,
        output_samples: &DeviceBuffer,
        expected_outputs: &DeviceBuffer,
        samples_amount: usize,
    ) -> (r: Result<LossDerivatives<T>, LossToModelOutputsDerivativesComputationError>) {
        plan_derivatives(
            self.initialized,
            Program::MeanSquared,
            ctx,
            output_samples,
            expected_outputs,
            samples_amount,
        )
    }
}

} // verus!
