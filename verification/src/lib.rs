//! Version tracking for one node of an LSM-tree storage engine: the pinned
//! committed version, the per-epoch buffers of writes that are not durable
//! yet, and the snapshot that a read at a given epoch has to look at.
pub mod datagen;
pub mod decimal;
pub mod local_version;
pub mod shared_buffer;
pub mod sync;
pub mod version;

