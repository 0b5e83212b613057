//! Verified core of a multipart directory uploader.
//!
//! A directory tree of files is uploaded into an object-storage bucket by
//! splitting each file into fixed-size parts and driving each file through a
//! multipart-upload protocol, with the work fanned out across a fixed pool of
//! concurrent workers.  This crate holds the logic that carries the
//! invariants: computing the chunk plan for an arbitrary file size
//! ([`planner`]), statically partitioning the job list across workers
//! ([`partition`]), the state machine of one upload session ([`session`]),
//! configuration validation and per-job outcome reporting ([`report`]).
//! The unverified binary around this crate performs the actual I/O (directory
//! walking, byte-range reads, the four remote calls) and feeds the results
//! back into these functions.

pub mod jobs;
pub mod math;
pub mod partition;
pub mod planner;
pub mod report;
pub mod session;
