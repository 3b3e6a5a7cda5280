//! A concurrent tiled renderer core: partitions an image plane across a
//! fixed pool of workers, drives each worker over its assigned pixel range,
//! synchronizes writes into one shared framebuffer, reports aggregate
//! progress, and supports cooperative, race-free cancellation.
//!
//! The library holds the verified decision logic: the partitioner, the
//! framebuffer, and the renderer/worker state machine. Thread spawning and
//! the mutual-exclusion plumbing that drive this state machine concurrently
//! live outside the library.

pub mod color;
pub mod framebuffer;
pub mod partition;
pub mod renderer;
