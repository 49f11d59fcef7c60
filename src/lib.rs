//! Chunked voxel-world storage: lazily generated chunks, point reads and
//! writes with change notification, windowed snapshots, bounded multi-chunk
//! edit windows and a pollable deferred value for background work.

pub mod coords;
pub mod seed;
pub mod chunk;
pub mod notify;
pub mod world;
pub mod view;
pub mod neighborhood;
pub mod deferred;
pub mod tile;
pub mod decoration;
pub mod physics;
pub mod akasha;
