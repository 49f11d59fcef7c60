//! Change notifications sent to subscribers over tokio's unbounded channels.
use crate::coords::{chunk_coord, chunk_of};
use tokio::sync::mpsc::{UnboundedReceiver, UnboundedSender};
use vstd::prelude::*;

verus! {

/// `tokio::sync::mpsc::UnboundedSender`, held opaquely.
#[verifier::external_type_specification]
#[verifier::external_body]
#[verifier::reject_recursive_types(T)]
pub struct ExUnboundedSender<T>(UnboundedSender<T>);

/// `tokio::sync::mpsc::UnboundedReceiver`, handed out opaquely.
#[verifier::external_type_specification]
#[verifier::external_body]
#[verifier::reject_recursive_types(T)]
pub struct ExUnboundedReceiver<T>(UnboundedReceiver<T>);

/// Tells a subscriber that chunk `(x, y, z)` changed.
#[derive(Clone, Copy, Debug, PartialEq, Eq)]
pub struct ChunkUpdateMessage {
    pub x: i32,
    pub y: i32,
    pub z: i32,
}

impl ChunkUpdateMessage {
    /// The notice for an edit of world voxel `(x, y, z)`: it names the one
    /// chunk that holds the voxel.
    pub fn for_voxel(x: i32, y: i32, z: i32) -> (r: ChunkUpdateMessage)
        ensures
            r.x as int == chunk_of(x as int),
            r.y as int == chunk_of(y as int),
            r.z as int == chunk_of(z as int),
    {
        ChunkUpdateMessage { x: chunk_coord(x), y: chunk_coord(y), z: chunk_coord(z) }
    }
}

/// Relies on `tokio::sync::mpsc::unbounded_channel`: a new channel, as its
/// sending and its receiving end.
#[verifier::external_body]
pub(crate) fn open_channel() -> (UnboundedSender<ChunkUpdateMessage>, UnboundedReceiver<ChunkUpdateMessage>) {
    tokio::sync::mpsc::unbounded_channel()
}

/// Relies on `tokio::sync::mpsc::UnboundedSender::send`, which never blocks;
/// a closed receiver makes it fail, and that failure is ignored.
#[verifier::external_body]
pub(crate) fn send_update(sender: &UnboundedSender<ChunkUpdateMessage>, message: ChunkUpdateMessage) {
    let _ = sender.send(message);
}

} // verus!
