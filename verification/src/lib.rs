//! Decision core of a two-sided synchronization engine.
//!
//! Two fixed collections of JSON documents ("servers" and "history") are kept
//! both on local storage and on a remote document store. This crate holds the
//! part of the engine that decides, for every filename, whether to push it,
//! pull it, or leave it alone, and that accumulates the outcome into a result
//! report. All transport and filesystem work is performed by an unverified
//! shell, which feeds plain values (filenames, modification times, listing
//! outcomes) into the state machines defined here and carries out the
//! transfers they request.

pub mod errors;
pub mod holder;
pub mod local;
pub mod merge;
pub mod model;
pub mod names;
pub mod report;
pub mod transfer;
