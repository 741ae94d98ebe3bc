//! Planning, validation and state machines of a GPU-resident JPEG XL decoder.

pub mod arith;
pub mod bits;
pub mod error;
pub mod noise;
pub mod pod;
pub mod profile;
pub mod progressive_dc;
pub mod restoration;
pub mod session;
pub mod vardct_artifact;
pub mod vardct_engine;
pub mod vardct_frontend;
