//! Runtime-neutral planning for the bounded standard VarDCT profile.

pub mod execution;
pub mod jpeg;
pub mod jpeg_laws;
pub mod jpeg_open;
pub mod jpeg_output;
pub mod jpeg_session;
pub mod output;
pub mod pipeline;
pub mod restoration;
pub mod source;
pub mod source_laws;
pub mod types;
