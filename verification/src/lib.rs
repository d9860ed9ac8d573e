//! A voxel-world core: a chunk-local voxel storage engine that compresses
//! homogeneous rows, together with a deterministic input-recording and
//! playback subsystem built on fixed-size binary input records.

pub mod bytes;
pub mod chunk;
pub mod codec;
pub mod error;
pub mod events;
pub mod game;
pub mod input;
pub mod primer;
pub mod replay;
pub mod voxel;
pub mod world;
