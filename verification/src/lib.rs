//! A small feedforward neural network: a dense matrix engine and, on top of
//! it, layered prediction and backpropagation with momentum.
//!
//! Everything is generic over the number type ([`scalar::Scalar`]), so the
//! structure of every computation is proved once, for any arithmetic.

pub mod activation;
pub mod error;
pub mod learning;
pub mod matrix;
pub mod matrix_laws;
pub mod model;
pub mod network;
pub mod network_laws;
pub mod persist;
pub mod scalar;

pub use activation::Activation;
pub use error::Error;
pub use learning::{Data, DataSet, Example};
pub use matrix::Matrix;
pub use network::Network;
pub use persist::SaveData;
pub use scalar::Scalar;
