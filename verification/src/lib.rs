//! Verified core of a pipeline that watches a directory for media files and
//! has them transcoded, one at a time, in the order in which they arrived.
//!
//! The library decides; its driver acts. The driver receives filesystem
//! notifications, starts the transcoder and moves files. It asks the library
//! what each notification means, what to run next and what to do with the
//! output, and reports back what happened.
//!
//! - `config` resolves the settings that were looked up at startup.
//! - `filter` turns notifications into jobs.
//! - `failure` says which failures of the driver end the process.
//! - `queue` holds the jobs that wait.
//! - `worker` says how a job is run and how it is completed.
//! - `pipeline` wires filter, queue and worker into one state machine.
//! - `paths` and `text` hold the path and string functions underneath.

pub mod config;
pub mod failure;
pub mod filter;
pub mod paths;
pub mod pipeline;
pub mod queue;
pub mod text;
pub mod worker;
