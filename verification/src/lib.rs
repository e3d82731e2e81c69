//! Recording of GPU command streams with automatic, batched pipeline barriers.
//!
//! A builder accepts operations and synchronisation requests in program order.
//! Barrier requests are collected in a pending batch and reach the recorded
//! stream as one merged pipeline barrier, only when an operation (or the end of
//! recording) forces them out.
//!
//! - [`sync`]: sets of pipeline stages and of access kinds.
//! - [`resource`]: buffers, images, and references to parts of them.
//! - [`barrier`]: barrier requests and the batch that merges them.
//! - [`state`]: the table of the last known state of each resource.
//! - [`sys`]: the raw stream and the pool that it takes its room from.
//! - [`recording`]: the state of a recording as a value, the steps that change
//!   it, and what holds of them.
//! - [`standard`]: the builders, which carry out those steps.

pub mod sync;
pub mod resource;
pub mod barrier;
pub mod state;
pub mod sys;
pub mod recording;
pub mod standard;
