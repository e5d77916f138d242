//! A configuration source that turns a snapshot of environment variables into
//! a map from normalized keys to typed values.

pub mod env;
pub mod laws;
pub mod result_map;
pub mod text;
pub mod value;
