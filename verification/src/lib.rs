//! Dense matrices over an abstract scalar, and a multilayer perceptron built on them.
pub mod error;
pub mod gradient;
pub mod grid;
pub mod laws;
pub mod layer;
pub mod matrix;
pub mod mnist_parser;
pub mod network;
pub mod random;
pub mod scalar;
pub mod utils;
