//! Adapter layer between an application and a set of machine-learning
//! inference backends: payload builders, response normalizers, and a
//! local tokenizing language classifier.

pub mod text;
pub mod json;
pub mod bedrock;
pub mod sagemaker;
pub mod submission;
pub mod voice;
pub mod error;

pub use error::WaveError;
