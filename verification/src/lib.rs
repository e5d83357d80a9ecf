//! A small feed-forward neural-network inference engine: a dense tensor type
//! with a shape descriptor, a closed set of layer operators, and a network
//! that runs them as a left-to-right pipeline.
//!
//! Element values are 64-bit integers, so every layer's arithmetic is exact
//! and fully specified; an affine layer reports an `Overflow` error on the
//! inputs whose accumulation leaves the representable range.

pub mod array;
pub mod error;
pub mod flatten;
pub mod linear;
pub mod network;
pub mod operator;
pub mod relu;

pub use array::Array;
pub use error::InferenceError;
pub use error::TensorError;
pub use flatten::Flatten;
pub use linear::LinearCombination;
pub use network::Network;
pub use operator::Operator;
pub use relu::ReLu;
