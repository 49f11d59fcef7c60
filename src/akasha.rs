//! The decoration store: per chunk, its height field and the decorations
//! placed in it, created on first reference.
use crate::chunk::{ChunkNoises, TerrainShape};
use crate::coords::chunk_key;
use crate::decoration::ChunkDecorations;
use crate::world::key_of;
use std::collections::HashMap;
use vstd::prelude::*;

verus! {

broadcast use vstd::std_specs::hash::group_hash_axioms;

/// The height field of a chunk and its decorations.
pub struct AkashaChunk {
    pub noises: ChunkNoises,
    pub decorations: ChunkDecorations,
}

impl AkashaChunk {
    /// A chunk with its height field sampled and no decorations yet.
    pub fn new<T: TerrainShape>(terrain: &T, x: i32, y: i32, z: i32) -> (r: AkashaChunk)
        ensures
            r.noises.wf(x, y, z),
            r.decorations.trees@.len() == 0,
    {
        AkashaChunk { noises: ChunkNoises::new(terrain, x, y, z), decorations: ChunkDecorations { trees: Vec::new() } }
    }
}

/// Decoration chunks by `chunk_key` of their coordinate.
pub struct Akasha<T: TerrainShape> {
    pub chunks: HashMap<i128, AkashaChunk>,
    pub terrain: T,
}

impl<T: TerrainShape> Akasha<T> {
    /// Each stored chunk's height field is that of its coordinate.
    pub open spec fn wf(&self) -> bool {
        forall|x: i32, y: i32, z: i32| #[trigger] self.chunks@.contains_key(key_of(x, y, z))
            ==> self.chunks@[key_of(x, y, z)].noises.wf(x, y, z)
    }

    pub fn new(terrain: T) -> (r: Akasha<T>)
        ensures
            r.wf(),
            r.chunks@.is_empty(),
            r.terrain == terrain,
    {
        Akasha { chunks: HashMap::new(), terrain }
    }

    /// The chunk at `(x, y, z)`, created with its height field if it did not
    /// exist; an existing chunk is handed out unchanged.
    pub fn ensure_chunk(&mut self, x: i32, y: i32, z: i32) -> (r: &AkashaChunk)
        requires
            old(self).wf(),
        ensures
            final(self).wf(),
            final(self).terrain == old(self).terrain,
            old(self).chunks@.contains_key(key_of(x, y, z)) ==> final(self).chunks@ == old(self).chunks@,
            !old(self).chunks@.contains_key(key_of(x, y, z)) ==> final(self).chunks@ == old(self).chunks@.insert(key_of(x, y, z), *r),
            *r == final(self).chunks@[key_of(x, y, z)],
            r.noises.wf(x, y, z),
    {
        let k = chunk_key(x, y, z);
        if !self.chunks.contains_key(&k) {
            let chunk = AkashaChunk::new(&self.terrain, x, y, z);
            self.chunks.insert(k, chunk);
            proof {
                assert forall|a: i32, b: i32, c: i32| #[trigger] self.chunks@.contains_key(key_of(a, b, c))
                    implies self.chunks@[key_of(a, b, c)].noises.wf(a, b, c) by {
                    if key_of(a, b, c) == k {
                        crate::coords::lemma_chunk_key_injective(a, b, c, x, y, z);
                    }
                }
            }
        }
        self.chunks.get(&k).unwrap()
    }
}

} // verus!
