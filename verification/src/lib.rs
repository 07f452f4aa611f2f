//! The verified core of a local video and image compressor built on ffmpeg:
//! the ffmpeg arguments of each job, hardware-encoder selection, collision-free
//! output names, progress reports, and the task list with its
//! keep-the-source rule for outputs that would be larger than their input.

pub mod text;
pub mod decimal;
pub mod records;
pub mod naming;
pub mod encode;
pub mod progress;
pub mod plan;
pub mod clock;
pub mod laws;
pub mod tables;
