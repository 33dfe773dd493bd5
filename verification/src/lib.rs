//! The engine of a video cutting tool: it queues, starts, follows and
//! cancels long-running transcoding jobs, each of which is carried out by an
//! external command-line tool.
//!
//! - [`shell`] writes an argument list as one command line and says how
//!   such a line is read back;
//! - [`filter_builder`] and [`export`] build filter graphs and the command
//!   that exports a list of slices;
//! - [`services::video_service`] assembles the invocations of clips and
//!   merges, [`services::ffmpeg_service`] reads the progress that the tool
//!   reports and decides what a runner does at each turn;
//! - [`services::task_service`] is the job registry, and
//!   [`services::task_model`] says what its operations do and what holds
//!   of every state of it;
//! - [`media_info`] reads what the probe tool answers, [`config`] holds the
//!   settings, [`models`] the data that jobs are made of, and [`text`] the
//!   helpers on characters that the others share.
//!
//! Nothing here spawns a process or touches a file: the library computes
//! what is to be run and what follows from what happened, and leaves the
//! running to its caller.

pub mod config;
pub mod export;
pub mod filter_builder;
pub mod media_info;
pub mod models;
pub mod services;
pub mod shell;
pub mod text;
