//! The control plane: what an operator's dashboard asks of the registry.

pub mod sampling;
