//! Thread-isolation facade for a single-threaded GraphQL engine, together with
//! the marshaling of response values between the engine's typed tree and a
//! dynamic JSON-like value.

pub mod context;
pub mod decimal;
pub mod engine;
pub mod error;
pub mod handles;
pub mod json;
pub mod marshal;
pub mod protocol;
pub mod steps;
pub mod text;
pub mod value;
pub mod worker;
