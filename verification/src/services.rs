//! The services that drive the external tool: command assembly, progress
//! parsing and the job registry.

pub mod ffmpeg_service;
pub mod task_model;
pub mod task_service;
pub mod video_service;
