//! Computations that go to a graphics device through bind groups and
//! workgroups rather than through the compute context's command queue.

pub mod calculate_dense_input_to_error_derivatives;
