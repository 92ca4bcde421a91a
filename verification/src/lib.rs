pub mod buffer;
pub mod math;
pub mod hmi;
pub mod sys;
pub mod types;
