//! The data that jobs are made of.

pub mod task;
pub mod video;
