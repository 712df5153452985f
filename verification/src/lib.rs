//! Gateway logic for a local Ollama model server.
//!
//! The library holds the verified half of the gateway: building the request
//! body for a generation call, aggregating the newline-delimited answer of
//! the generate endpoint, validating the model-list document of the tags
//! endpoint, and classifying failures. The HTTP transport itself lives
//! outside the library and hands bodies in as plain text.

pub mod error;
pub mod generate;
pub mod greeting;
pub mod lines;
pub mod models;
pub mod request;

pub use error::ApiError;
pub use greeting::greet;
pub use generate::generate_from_body;
pub use models::ModelList;
pub use models::models_from_body;
pub use request::generate_request_body;
