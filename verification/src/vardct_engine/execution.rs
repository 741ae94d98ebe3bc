//! Submission, staged continuation and validation of one VarDCT frame.

pub mod coefficients;
pub mod deferred;
pub mod downstream;
pub mod extra;
pub mod hf;
pub mod late_laws;
pub mod map;
pub mod packet;
pub mod plan_laws;
pub mod progression;
pub mod progression_extra;
pub mod raw_matrix;
pub mod render;
pub mod render_laws;
pub mod restore;
pub mod session;
pub mod side_image;
pub mod stage;
pub mod status_laws;
pub mod submit;
pub mod upload;
pub mod validate;
pub mod vardct;
pub mod window_laws;
