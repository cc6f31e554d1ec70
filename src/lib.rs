//! Supervision of external downloader processes: line framing of their output,
//! a bounded window of diagnostic lines, a registry of running jobs, and the
//! decisions that turn process events into one terminal event per job.
//!
//! Around that core: the downloader's argument vectors, the check of the
//! installed downloader against its published digest, the browser cookie jar,
//! and the choices made when an update or a power action is requested.

pub mod text;
pub mod window;
pub mod lines;
pub mod registry;
pub mod supervisor;
pub mod command;
pub mod checksum;
pub mod cookies;
pub mod update;
pub mod actions;
