//! The layers of a model: each turns a batch of inputs into a batch of
//! outputs on the device and, on the way back, the derivative of the loss
//! with respect to its outputs into parameter updates and into the
//! derivative with respect to its inputs.

pub mod activations;
pub mod dense;

use crate::commands::carried_out;
use crate::commands::cleanup_after_failure;
use crate::commands::outstanding;
use crate::commands::plan_of;
use crate::commands::releases;
use crate::commands::Command;
use crate::device::Compilation;
use crate::device::DeviceBuffer;
use vstd::prelude::*;

verus! {

/// Why a layer could not do what it was asked.
#[derive(Clone, Copy, Debug, PartialEq, Eq, Structural)]
pub enum LayerError {
    /// The compute context has no command queue.
    NoCommandQueue,
    /// The device has not compiled a program or kernel that the layer needs.
    MissingProgramOrKernel,
    /// A buffer that the layer needs cannot be created.
    AllocationError,
    /// The device failed, with the given error code.
    DeviceError(i32),
}

/// The device buffers of a layer's trainable parameters.
#[derive(Clone, Copy, Debug, PartialEq, Eq, Structural)]
pub struct Parameters {
    /// The weights, row after row.
    pub weights_buffer: DeviceBuffer,
    /// The biases.
    pub biases_buffer: DeviceBuffer,
}

/// What a layer asks of the device to get there.
#[derive(Debug, PartialEq)]
pub struct Initialization<T> {
    /// The steps that compile what the layer needs, to carry out first.
    pub compilation: Vec<Compilation>,
    /// The commands to carry out then, in order.
    pub commands: Vec<Command<T>>,
    /// The buffers that then hold the layer's parameters, if it has any.
    pub parameters: Option<Parameters>,
}

/// What a layer asks of the device for one forward pass.
#[derive(Debug, PartialEq)]
pub struct Propagation<T> {
    /// The commands to carry out, in order.
    pub commands: Vec<Command<T>>,
    /// The buffer that then holds the inputs of the pass.
    pub last_inputs: DeviceBuffer,
    /// The buffer that then holds the outputs.
    pub outputs: DeviceBuffer,
}

/// What a layer asks of the device for one backward pass.
#[derive(Debug, PartialEq)]
pub struct BackPropagation<T> {
    /// The commands to carry out, in order.
    pub commands: Vec<Command<T>>,
    /// The buffer that then holds the derivative of the loss with respect
    /// to the layer's inputs, where that was asked for.
    pub input_derivatives: Option<DeviceBuffer>,
    /// The buffers that then hold the layer's updated parameters, if it
    /// has any.
    pub parameters: Option<Parameters>,
}

/// What follows when the device fails.
#[derive(Debug, PartialEq)]
pub struct Failure<T> {
    /// The commands that free what the failed plan had created.
    pub cleanup: Vec<Command<T>>,
    /// The error to hand to the caller.
    pub error: LayerError,
}

/// The device failed with `code` at command `done` of a plan, after it had
/// carried out the commands before it. The call that made the plan is
/// aborted: what the plan had created is freed, and the error is the
/// device's.
pub fn device_failed<T>(commands: &Vec<Command<T>>, done: usize, code: i32) -> (failure: Failure<
    T,
>)
    ensures
        plan_of(failure.cleanup@) == releases::<T>(
            outstanding(carried_out(plan_of(commands@), done as int)),
        ),
        failure.error == LayerError::DeviceError(code),
{
    Failure { cleanup: cleanup_after_failure(commands, done), error: LayerError::DeviceError(code) }
}

} // verus!
