//! The world: a map from chunk coordinates to chunk states, created on
//! first reference, with point reads and writes routed to the owning chunk
//! and writes announced to every subscriber.
use crate::chunk::{generated_blocks, lemma_voxel_index_decode, voxel_index, ChunkState, TerrainShape};
use crate::coords::{
    chunk_coord, chunk_key, chunk_of, lemma_chunk_key_injective, lemma_chunk_local_round_trip,
    local_coord, local_of, spec_chunk_key,
};
use crate::notify::{open_channel, send_update, ChunkUpdateMessage};
use std::collections::HashMap;
use tokio::sync::mpsc::{UnboundedReceiver, UnboundedSender};
use vstd::prelude::*;

verus! {

broadcast use vstd::std_specs::hash::group_hash_axioms;

/// A lazily generated voxel world over the height-field function `T`.
pub struct World<T: TerrainShape> {
    /// Chunk states by `chunk_key` of their coordinate.
    pub chunks: HashMap<i128, ChunkState>,
    pub chunk_update_listeners: Vec<UnboundedSender<ChunkUpdateMessage>>,
    pub terrain: T,
    /// Every notice sent so far, with the index of the listener it went to.
    pub notices: Ghost<Seq<(int, ChunkUpdateMessage)>>,
}

/// Key of chunk `(cx, cy, cz)` in the chunk map.
pub open spec fn key_of(cx: i32, cy: i32, cz: i32) -> i128 {
    spec_chunk_key(cx as int, cy as int, cz as int) as i128
}

/// The chunk of world coordinate `x`, as an `i32`.
pub open spec fn chunk32(x: i32) -> i32 {
    chunk_of(x as int) as i32
}

/// Flat index, inside its chunk, of world voxel `(x, y, z)`.
pub open spec fn local_index(x: i32, y: i32, z: i32) -> int {
    voxel_index(local_of(x as int), local_of(y as int), local_of(z as int))
}

/// How one chunk may change when the world only creates and generates
/// chunks: an existing chunk stays, a formed chunk keeps its voxels, a
/// cached height field is kept, and a chunk formed now holds what
/// generation derives from its height field.
pub open spec fn chunk_grows(before: Option<ChunkState>, after: Option<ChunkState>) -> bool {
    &&& (before is Some ==> after is Some)
    &&& (before is Some && before->0.spec_is_formed() ==> after == before)
    &&& (before is Some && before->0.spec_noises() is Some ==> after->0.spec_noises() == before->0.spec_noises())
    &&& (after is Some && after->0.spec_is_formed() && !(before is Some && before->0.spec_is_formed())
        ==> after->0.is_generated())
}

impl<T: TerrainShape> World<T> {
    /// Every stored chunk sits under the key of its own coordinate and any
    /// height field it cached belongs to that coordinate.
    pub open spec fn wf(&self) -> bool {
        forall|k: i128| #[trigger] self.chunks@.contains_key(k) ==> {
            &&& self.chunks@[k].wf()
            &&& key_of(self.chunks@[k].x, self.chunks@[k].y, self.chunks@[k].z) == k
        }
    }

    /// The stored state of chunk `(cx, cy, cz)`, if it was ever referenced.
    pub open spec fn chunk_at(&self, cx: i32, cy: i32, cz: i32) -> Option<ChunkState> {
        if self.chunks@.contains_key(key_of(cx, cy, cz)) {
            Some(self.chunks@[key_of(cx, cy, cz)])
        } else {
            None
        }
    }

    /// Chunk `(cx, cy, cz)` exists and is formed.
    pub open spec fn is_formed_at(&self, cx: i32, cy: i32, cz: i32) -> bool {
        self.chunk_at(cx, cy, cz) is Some && self.chunk_at(cx, cy, cz)->0.spec_is_formed()
    }

    /// The chunk of world voxel `(x, y, z)` is formed, so its block is held.
    pub open spec fn voxel_known(&self, x: i32, y: i32, z: i32) -> bool {
        self.is_formed_at(chunk32(x), chunk32(y), chunk32(z))
    }

    /// The block at world voxel `(x, y, z)`, where its chunk is formed.
    pub open spec fn block(&self, x: i32, y: i32, z: i32) -> u8 {
        self.chunk_at(chunk32(x), chunk32(y), chunk32(z))->0.spec_block(
            local_of(x as int),
            local_of(y as int),
            local_of(z as int),
        )
    }

    /// `next` is this world after chunks were only created or generated: no
    /// held voxel changed.
    pub open spec fn grows_to(&self, next: &World<T>) -> bool {
        &&& next.terrain == self.terrain
        &&& next.chunk_update_listeners@ == self.chunk_update_listeners@
        &&& next.notices@ == self.notices@
        &&& self.chunks_grow_to(next)
        &&& self.keeps_blocks(next)
    }

    /// Every chunk changes only as `chunk_grows` allows.
    pub open spec fn chunks_grow_to(&self, next: &World<T>) -> bool {
        forall|cx: i32, cy: i32, cz: i32| #[trigger] chunk_grows(self.chunk_at(cx, cy, cz), next.chunk_at(cx, cy, cz))
    }

    /// Every block held here is held in `next` too, unchanged.
    pub open spec fn keeps_blocks(&self, next: &World<T>) -> bool {
        forall|a: i32, b: i32, c: i32|
            #![trigger self.voxel_known(a, b, c)]
            #![trigger next.block(a, b, c)]
            self.voxel_known(a, b, c) ==> next.voxel_known(a, b, c) && next.block(a, b, c) == self.block(a, b, c)
    }

    proof fn lemma_chunks_keep_blocks(&self, next: &World<T>)
        requires
            self.chunks_grow_to(next),
        ensures
            self.keeps_blocks(next),
    {
        assert forall|a: i32, b: i32, c: i32|
            #![trigger self.voxel_known(a, b, c)]
            #![trigger next.block(a, b, c)]
            self.voxel_known(a, b, c) implies next.voxel_known(a, b, c) && next.block(a, b, c) == self.block(a, b, c) by {
            if self.voxel_known(a, b, c) {
                assert(chunk_grows(self.chunk_at(chunk32(a), chunk32(b), chunk32(c)), next.chunk_at(chunk32(a), chunk32(b), chunk32(c))));
            }
        }
    }

    /// A world grows to itself.
    pub proof fn lemma_grows_refl(&self)
        ensures
            self.grows_to(self),
    {
        assert forall|cx: i32, cy: i32, cz: i32| #[trigger] chunk_grows(self.chunk_at(cx, cy, cz), self.chunk_at(cx, cy, cz)) by {}
        self.lemma_chunks_keep_blocks(self);
    }

    /// Growing twice is growing.
    pub proof fn lemma_grows_trans(&self, mid: &World<T>, last: &World<T>)
        requires
            self.grows_to(mid),
            mid.grows_to(last),
        ensures
            self.grows_to(last),
    {
        assert forall|cx: i32, cy: i32, cz: i32| #[trigger] chunk_grows(self.chunk_at(cx, cy, cz), last.chunk_at(cx, cy, cz)) by {
            assert(chunk_grows(self.chunk_at(cx, cy, cz), mid.chunk_at(cx, cy, cz)));
            assert(chunk_grows(mid.chunk_at(cx, cy, cz), last.chunk_at(cx, cy, cz)));
        }
        self.lemma_chunks_keep_blocks(last);
    }

    /// Growing keeps every formed chunk, hence every held block.
    pub proof fn lemma_grows_keeps_blocks(&self, next: &World<T>, x: i32, y: i32, z: i32)
        requires
            self.grows_to(next),
            self.voxel_known(x, y, z),
        ensures
            next.voxel_known(x, y, z),
            next.block(x, y, z) == self.block(x, y, z),
    {
        assert(chunk_grows(self.chunk_at(chunk32(x), chunk32(y), chunk32(z)), next.chunk_at(chunk32(x), chunk32(y), chunk32(z))));
    }

    /// A world with no chunks and no subscribers.
    pub fn new(terrain: T) -> (r: World<T>)
        ensures
            r.wf(),
            r.chunks@.is_empty(),
            r.chunk_update_listeners@.len() == 0,
            r.notices@.len() == 0,
            r.terrain == terrain,
    {
        World { chunks: HashMap::new(), chunk_update_listeners: Vec::new(), terrain, notices: Ghost(Seq::empty()) }
    }

    /// Makes sure chunk `(x, y, z)` exists, creating it empty if it does not.
    fn touch_chunk(&mut self, x: i32, y: i32, z: i32)
        requires
            old(self).wf(),
        ensures
            final(self).wf(),
            final(self).chunk_at(x, y, z) is Some,
            old(self).chunk_at(x, y, z) is Some ==> final(self).chunks@ == old(self).chunks@,
            old(self).chunk_at(x, y, z) is None ==> final(self).chunk_at(x, y, z) == Some(ChunkState::new_spec(x, y, z)),
            forall|cx: i32, cy: i32, cz: i32| (cx, cy, cz) != (x, y, z) ==> #[trigger] final(self).chunk_at(cx, cy, cz) == old(self).chunk_at(cx, cy, cz),
            old(self).grows_to(final(self)),
    {
        let k = chunk_key(x, y, z);
        if !self.chunks.contains_key(&k) {
            self.chunks.insert(k, ChunkState::new(x, y, z));
        }
        proof {
            assert forall|cx: i32, cy: i32, cz: i32| (cx, cy, cz) != (x, y, z) implies #[trigger] self.chunk_at(cx, cy, cz) == old(self).chunk_at(cx, cy, cz) by {
                if key_of(cx, cy, cz) == k {
                    lemma_chunk_key_injective(cx, cy, cz, x, y, z);
                }
            }
            assert forall|cx: i32, cy: i32, cz: i32| #[trigger] chunk_grows(old(self).chunk_at(cx, cy, cz), self.chunk_at(cx, cy, cz)) by {
                if key_of(cx, cy, cz) == k {
                    lemma_chunk_key_injective(cx, cy, cz, x, y, z);
                }
            }
            old(self).lemma_chunks_keep_blocks(self);
        }
    }

    /// Makes sure chunk `(x, y, z)` exists, creating it empty if it does
    /// not, and hands it out.
    pub fn ensure_chunk(&mut self, x: i32, y: i32, z: i32) -> (r: &ChunkState)
        requires
            old(self).wf(),
        ensures
            final(self).wf(),
            old(self).chunk_at(x, y, z) is Some ==> final(self).chunks@ == old(self).chunks@,
            old(self).chunk_at(x, y, z) is None ==> *r == ChunkState::new_spec(x, y, z),
            forall|cx: i32, cy: i32, cz: i32| (cx, cy, cz) != (x, y, z) ==> #[trigger] final(self).chunk_at(cx, cy, cz) == old(self).chunk_at(cx, cy, cz),
            old(self).grows_to(final(self)),
            final(self).chunk_at(x, y, z) == Some(*r),
    {
        self.touch_chunk(x, y, z);
        self.chunks.get(&chunk_key(x, y, z)).unwrap()
    }

    /// Makes sure chunk `(x, y, z)` exists and is formed.
    fn form_chunk(&mut self, x: i32, y: i32, z: i32)
        requires
            old(self).wf(),
        ensures
            final(self).wf(),
            final(self).is_formed_at(x, y, z),
            old(self).is_formed_at(x, y, z) ==> final(self).chunks@ == old(self).chunks@,
            forall|cx: i32, cy: i32, cz: i32| (cx, cy, cz) != (x, y, z) ==> #[trigger] final(self).chunk_at(cx, cy, cz) == old(self).chunk_at(cx, cy, cz),
            old(self).grows_to(final(self)),
    {
        self.touch_chunk(x, y, z);
        let ghost mid = *self;
        let k = chunk_key(x, y, z);
        let removed = self.chunks.remove(&k);
        if let Some(mut state) = removed {
            if !state.is_formed() {
                state.ensure_formed(&self.terrain);
                self.chunks.insert(k, state);
            } else {
                self.chunks.insert(k, state);
                assert(self.chunks@ =~= mid.chunks@);
            }
        }
        proof {
            assert forall|cx: i32, cy: i32, cz: i32| (cx, cy, cz) != (x, y, z) implies #[trigger] self.chunk_at(cx, cy, cz) == mid.chunk_at(cx, cy, cz) by {
                if key_of(cx, cy, cz) == k {
                    lemma_chunk_key_injective(cx, cy, cz, x, y, z);
                }
            }
            assert forall|cx: i32, cy: i32, cz: i32| #[trigger] chunk_grows(mid.chunk_at(cx, cy, cz), self.chunk_at(cx, cy, cz)) by {
                if key_of(cx, cy, cz) == k {
                    lemma_chunk_key_injective(cx, cy, cz, x, y, z);
                }
            }
            mid.lemma_chunks_keep_blocks(self);
            assert(mid.grows_to(self));
            old(self).lemma_grows_trans(&mid, self);
        }
    }

    /// Makes sure chunk `(x, y, z)` exists and is formed, and hands it out.
    pub fn get_chunk(&mut self, x: i32, y: i32, z: i32) -> (r: &ChunkState)
        requires
            old(self).wf(),
        ensures
            final(self).wf(),
            final(self).is_formed_at(x, y, z),
            old(self).is_formed_at(x, y, z) ==> final(self).chunks@ == old(self).chunks@,
            forall|cx: i32, cy: i32, cz: i32| (cx, cy, cz) != (x, y, z) ==> #[trigger] final(self).chunk_at(cx, cy, cz) == old(self).chunk_at(cx, cy, cz),
            old(self).grows_to(final(self)),
            *r == final(self).chunk_at(x, y, z)->0,
    {
        self.form_chunk(x, y, z);
        let k = chunk_key(x, y, z);
        self.chunks.get(&k).unwrap()
    }

    /// Reads the block at world coordinate `(x, y, z)`, forming its chunk
    /// first if needed. Blocks already held do not change.
    pub fn get_block(&mut self, x: i32, y: i32, z: i32) -> (r: u8)
        requires
            old(self).wf(),
        ensures
            final(self).wf(),
            final(self).voxel_known(x, y, z),
            r == final(self).block(x, y, z),
            old(self).voxel_known(x, y, z) ==> r == old(self).block(x, y, z),
            old(self).grows_to(final(self)),
    {
        let lx = local_coord(x);
        let ly = local_coord(y);
        let lz = local_coord(z);
        proof {
            lemma_voxel_index_decode(lx as int, ly as int, lz as int);
        }
        let cx = chunk_coord(x);
        let cy = chunk_coord(y);
        let cz = chunk_coord(z);
        assert(chunk32(x) == cx && chunk32(y) == cy && chunk32(z) == cz);
        self.form_chunk(cx, cy, cz);
        let k = chunk_key(cx, cy, cz);
        let chunk = self.chunks.get(&k).unwrap();
        proof {
            if old(self).voxel_known(x, y, z) {
                old(self).lemma_grows_keeps_blocks(self, x, y, z);
            }
        }
        chunk.get_block(lx, ly, lz)
    }

    /// Writes `block_id` at world coordinate `(x, y, z)`, forming its chunk
    /// first if needed, without notifying anyone. No other held block
    /// changes; the rest of a chunk formed now is what generation gives it.
    pub fn write_block(&mut self, x: i32, y: i32, z: i32, block_id: u8)
        requires
            old(self).wf(),
        ensures
            final(self).wf(),
            final(self).terrain == old(self).terrain,
            final(self).chunk_update_listeners@ == old(self).chunk_update_listeners@,
            final(self).voxel_known(x, y, z),
            final(self).block(x, y, z) == block_id,
            final(self).notices@ == old(self).notices@,
            forall|a: i32, b: i32, c: i32| (a, b, c) != (x, y, z) && old(self).voxel_known(a, b, c)
                ==> #[trigger] final(self).block(a, b, c) == old(self).block(a, b, c),
            forall|cx: i32, cy: i32, cz: i32| (cx, cy, cz) != (chunk32(x), chunk32(y), chunk32(z))
                ==> #[trigger] final(self).chunk_at(cx, cy, cz) == old(self).chunk_at(cx, cy, cz),
            ({
                let before = old(self).chunk_at(chunk32(x), chunk32(y), chunk32(z));
                let after = final(self).chunk_at(chunk32(x), chunk32(y), chunk32(z))->0;
                &&& (before is Some && before->0.spec_noises() is Some ==> after.spec_noises() == before->0.spec_noises())
                &&& (before is Some && before->0.spec_is_formed() ==> after.blocks() == before->0.blocks().update(local_index(x, y, z), block_id))
                &&& (!(before is Some && before->0.spec_is_formed()) ==> after.blocks() == generated_blocks(
                    after.stage->Formed_0.target_height@,
                    after.y as int,
                ).update(local_index(x, y, z), block_id))
            }),
    {
        let cx = chunk_coord(x);
        let cy = chunk_coord(y);
        let cz = chunk_coord(z);
        let lx = local_coord(x);
        let ly = local_coord(y);
        let lz = local_coord(z);
        proof {
            lemma_voxel_index_decode(lx as int, ly as int, lz as int);
        }
        assert(chunk32(x) == cx && chunk32(y) == cy && chunk32(z) == cz);
        self.touch_chunk(cx, cy, cz);
        let ghost mid = *self;
        let k = chunk_key(cx, cy, cz);
        if let Some(mut state) = self.chunks.remove(&k) {
            state.set_block(&self.terrain, lx, ly, lz, block_id);
            self.chunks.insert(k, state);
        }
        proof {
            assert forall|ax: i32, ay: i32, az: i32| (ax, ay, az) != (cx, cy, cz) implies #[trigger] self.chunk_at(ax, ay, az) == old(self).chunk_at(ax, ay, az) by {
                if key_of(ax, ay, az) == k {
                    lemma_chunk_key_injective(ax, ay, az, cx, cy, cz);
                }
                assert(mid.chunk_at(ax, ay, az) == old(self).chunk_at(ax, ay, az));
            }
            assert(old(self).chunk_at(cx, cy, cz) is Some ==> mid.chunk_at(cx, cy, cz) == old(self).chunk_at(cx, cy, cz));
            assert forall|a: i32, b: i32, c: i32| (a, b, c) != (x, y, z) && old(self).voxel_known(a, b, c)
                implies #[trigger] self.block(a, b, c) == old(self).block(a, b, c) by {
                if (chunk32(a), chunk32(b), chunk32(c)) == (cx, cy, cz) {
                    lemma_chunk_local_round_trip(a as int);
                    lemma_chunk_local_round_trip(b as int);
                    lemma_chunk_local_round_trip(c as int);
                    lemma_voxel_index_decode(local_of(a as int), local_of(b as int), local_of(c as int));
                    if local_of(a as int) == local_of(x as int) && local_of(b as int) == local_of(y as int)
                        && local_of(c as int) == local_of(z as int) {
                        lemma_same_voxel(a, x);
                        lemma_same_voxel(b, y);
                        lemma_same_voxel(c, z);
                    }
                }
            }
        }
    }

    /// Writes `block_id` at world coordinate `(x, y, z)` as `write_block`
    /// does, then sends every subscriber, in order, a notice naming the one
    /// chunk that holds the voxel; a closed subscriber is skipped silently.
    pub fn set_block(&mut self, x: i32, y: i32, z: i32, block_id: u8)
        requires
            old(self).wf(),
        ensures
            final(self).wf(),
            final(self).terrain == old(self).terrain,
            final(self).chunk_update_listeners@ == old(self).chunk_update_listeners@,
            final(self).voxel_known(x, y, z),
            final(self).block(x, y, z) == block_id,
            final(self).notices@ == old(self).notices@ + Seq::new(
                old(self).chunk_update_listeners@.len(),
                |i: int| (i, (ChunkUpdateMessage { x: chunk32(x), y: chunk32(y), z: chunk32(z) })),
            ),
            forall|a: i32, b: i32, c: i32| (a, b, c) != (x, y, z) && old(self).voxel_known(a, b, c)
                ==> #[trigger] final(self).block(a, b, c) == old(self).block(a, b, c),
            forall|cx: i32, cy: i32, cz: i32| (cx, cy, cz) != (chunk32(x), chunk32(y), chunk32(z))
                ==> #[trigger] final(self).chunk_at(cx, cy, cz) == old(self).chunk_at(cx, cy, cz),
            ({
                let before = old(self).chunk_at(chunk32(x), chunk32(y), chunk32(z));
                let after = final(self).chunk_at(chunk32(x), chunk32(y), chunk32(z))->0;
                &&& (before is Some && before->0.spec_noises() is Some ==> after.spec_noises() == before->0.spec_noises())
                &&& (before is Some && before->0.spec_is_formed() ==> after.blocks() == before->0.blocks().update(local_index(x, y, z), block_id))
                &&& (!(before is Some && before->0.spec_is_formed()) ==> after.blocks() == generated_blocks(
                    after.stage->Formed_0.target_height@,
                    after.y as int,
                ).update(local_index(x, y, z), block_id))
            }),
    {
        self.write_block(x, y, z, block_id);
        let ghost written = *self;
        self.notify_all(ChunkUpdateMessage::for_voxel(x, y, z));
        proof {
            assert forall|a: i32, b: i32, c: i32| #[trigger] self.block(a, b, c) == written.block(a, b, c) by {}
            assert forall|a: i32, b: i32, c: i32| #[trigger] self.voxel_known(a, b, c) == written.voxel_known(a, b, c) by {}
            assert forall|cx: i32, cy: i32, cz: i32| #[trigger] self.chunk_at(cx, cy, cz) == written.chunk_at(cx, cy, cz) by {}
        }
    }

    /// Sends `message` to every subscriber in order, recording each notice.
    fn notify_all(&mut self, message: ChunkUpdateMessage)
        ensures
            final(self).chunks == old(self).chunks,
            final(self).terrain == old(self).terrain,
            final(self).chunk_update_listeners == old(self).chunk_update_listeners,
            final(self).notices@ == old(self).notices@ + Seq::new(
                old(self).chunk_update_listeners@.len(),
                |j: int| (j, message),
            ),
    {
        let ghost sent_before = self.notices@;
        let mut i: usize = 0;
        while i < self.chunk_update_listeners.len()
            invariant
                i <= self.chunk_update_listeners@.len(),
                self.chunk_update_listeners == old(self).chunk_update_listeners,
                self.chunks == old(self).chunks,
                self.terrain == old(self).terrain,
                self.notices@ == sent_before + Seq::new(i as nat, |j: int| (j, message)),
            decreases self.chunk_update_listeners@.len() - i,
        {
            send_update(&self.chunk_update_listeners[i], message);
            self.notices = Ghost(self.notices@.push((i as int, message)));
            assert(self.notices@ =~= sent_before + Seq::new((i + 1) as nat, |j: int| (j, message)));
            i = i + 1;
        }
    }

    /// Subscribes to change notices: every later `set_block` sends one to
    /// the returned receiver. Earlier changes are not replayed.
    pub fn register_chunk_update_listener(&mut self) -> (r: UnboundedReceiver<ChunkUpdateMessage>)
        requires
            old(self).wf(),
        ensures
            final(self).wf(),
            final(self).chunks@ == old(self).chunks@,
            final(self).terrain == old(self).terrain,
            final(self).notices@ == old(self).notices@,
            final(self).chunk_update_listeners@.len() == old(self).chunk_update_listeners@.len() + 1,
            final(self).chunk_update_listeners@.drop_last() == old(self).chunk_update_listeners@,
    {
        let (sender, receiver) = open_channel();
        self.chunk_update_listeners.push(sender);
        assert(self.chunk_update_listeners@.drop_last() =~= old(self).chunk_update_listeners@);
        receiver
    }

    /// Makes sure every chunk of the box `[x_start, x_end] x [y_start, y_end]
    /// x [z_start, z_end]` exists: a read-only pass finds the missing ones,
    /// a second pass creates them. Chunks that existed are left as they were
    /// and no voxel changes.
    pub(crate) fn create_chunks(&mut self, x_start: i32, x_end: i32, y_start: i32, y_end: i32, z_start: i32, z_end: i32)
        requires
            old(self).wf(),
        ensures
            final(self).wf(),
            forall|cx: i32, cy: i32, cz: i32|
                x_start <= cx <= x_end && y_start <= cy <= y_end && z_start <= cz <= z_end
                    ==> #[trigger] final(self).chunk_at(cx, cy, cz) is Some,
            forall|cx: i32, cy: i32, cz: i32|
                old(self).chunk_at(cx, cy, cz) is Some ==> #[trigger] final(self).chunk_at(cx, cy, cz) == old(self).chunk_at(cx, cy, cz),
            forall|cx: i32, cy: i32, cz: i32|
                old(self).chunk_at(cx, cy, cz) is None ==> #[trigger] final(self).chunk_at(cx, cy, cz) == (if x_start <= cx <= x_end
                    && y_start <= cy <= y_end && z_start <= cz <= z_end {
                    Some(ChunkState::new_spec(cx, cy, cz))
                } else {
                    None
                }),
            old(self).grows_to(final(self)),
    {
        proof {
            old(self).lemma_grows_refl();
        }
        let mut missing: Vec<(i32, i32, i32)> = Vec::new();
        let mut x: i64 = x_start as i64;
        while x <= x_end as i64
            invariant
                x_start <= x,
                x <= x_end as i64 + 1 || x == x_start,
                forall|cx: i32, cy: i32, cz: i32|
                    x_start <= cx < x && y_start <= cy <= y_end && z_start <= cz <= z_end
                        ==> #[trigger] self.chunk_at(cx, cy, cz) is Some || missing@.contains((cx, cy, cz)),
                forall|t: (i32, i32, i32)| #[trigger] missing@.contains(t) ==> x_start <= t.0 <= x_end && y_start <= t.1 <= y_end && z_start <= t.2 <= z_end,
            decreases x_end as i64 + 1 - x,
        {
            let mut y: i64 = y_start as i64;
            while y <= y_end as i64
                invariant
                    x_start <= x <= x_end,
                    y_start <= y,
                    y <= y_end as i64 + 1 || y == y_start,
                    forall|cx: i32, cy: i32, cz: i32|
                        x_start <= cx < x && y_start <= cy <= y_end && z_start <= cz <= z_end
                            ==> #[trigger] self.chunk_at(cx, cy, cz) is Some || missing@.contains((cx, cy, cz)),
                    forall|cy: i32, cz: i32|
                        y_start <= cy < y && z_start <= cz <= z_end
                            ==> #[trigger] self.chunk_at(x as i32, cy, cz) is Some || missing@.contains((x as i32, cy, cz)),
                forall|t: (i32, i32, i32)| #[trigger] missing@.contains(t) ==> x_start <= t.0 <= x_end && y_start <= t.1 <= y_end && z_start <= t.2 <= z_end,
                decreases y_end as i64 + 1 - y,
            {
                let mut z: i64 = z_start as i64;
                while z <= z_end as i64
                    invariant
                        x_start <= x <= x_end,
                        y_start <= y <= y_end,
                        z_start <= z,
                        z <= z_end as i64 + 1 || z == z_start,
                        forall|cx: i32, cy: i32, cz: i32|
                            x_start <= cx < x && y_start <= cy <= y_end && z_start <= cz <= z_end
                                ==> #[trigger] self.chunk_at(cx, cy, cz) is Some || missing@.contains((cx, cy, cz)),
                        forall|cy: i32, cz: i32|
                            y_start <= cy < y && z_start <= cz <= z_end
                                ==> #[trigger] self.chunk_at(x as i32, cy, cz) is Some || missing@.contains((x as i32, cy, cz)),
                        forall|cz: i32|
                            z_start <= cz < z
                                ==> #[trigger] self.chunk_at(x as i32, y as i32, cz) is Some || missing@.contains((x as i32, y as i32, cz)),
                forall|t: (i32, i32, i32)| #[trigger] missing@.contains(t) ==> x_start <= t.0 <= x_end && y_start <= t.1 <= y_end && z_start <= t.2 <= z_end,
                    decreases z_end as i64 + 1 - z,
                {
                    let k = chunk_key(x as i32, y as i32, z as i32);
                    if !self.chunks.contains_key(&k) {
                        let ghost prev = missing@;
                        missing.push((x as i32, y as i32, z as i32));
                        assert(missing@.last() == (x as i32, y as i32, z as i32));
                        assert forall|t: (i32, i32, i32)| prev.contains(t) implies #[trigger] missing@.contains(t) by {
                            assert(missing@[prev.index_of(t)] == t);
                        }
                        assert forall|t: (i32, i32, i32)| #[trigger] missing@.contains(t) implies x_start <= t.0 <= x_end && y_start <= t.1
                            <= y_end && z_start <= t.2 <= z_end by {
                            let i = missing@.index_of(t);
                            if i < prev.len() {
                                assert(prev[i] == t);
                                assert(prev.contains(t));
                            }
                        }
                    }
                    z = z + 1;
                }
                y = y + 1;
            }
            x = x + 1;
        }
        let mut i: usize = 0;
        while i < missing.len()
            invariant
                self.wf(),
                i <= missing@.len(),
                forall|cx: i32, cy: i32, cz: i32|
                    x_start <= cx <= x_end && y_start <= cy <= y_end && z_start <= cz <= z_end
                        ==> #[trigger] old(self).chunk_at(cx, cy, cz) is Some || missing@.contains((cx, cy, cz)),
                forall|j: int| 0 <= j < i ==> #[trigger] self.chunk_at(missing@[j].0, missing@[j].1, missing@[j].2) is Some,
                forall|t: (i32, i32, i32)| #[trigger] missing@.contains(t) ==> x_start <= t.0 <= x_end && y_start <= t.1 <= y_end && z_start <= t.2 <= z_end,
                forall|cx: i32, cy: i32, cz: i32|
                    old(self).chunk_at(cx, cy, cz) is None ==> #[trigger] self.chunk_at(cx, cy, cz) is None || (self.chunk_at(cx, cy, cz)
                        == Some(ChunkState::new_spec(cx, cy, cz)) && x_start <= cx <= x_end && y_start <= cy <= y_end && z_start <= cz <= z_end),
                forall|cx: i32, cy: i32, cz: i32|
                    old(self).chunk_at(cx, cy, cz) is Some ==> #[trigger] self.chunk_at(cx, cy, cz) == old(self).chunk_at(cx, cy, cz),
                old(self).grows_to(self),
            decreases missing@.len() - i,
        {
            let (cx, cy, cz) = missing[i];
            assert(missing@.contains(missing@[i as int]));
            let ghost before = *self;
            self.touch_chunk(cx, cy, cz);
            proof {
                assert forall|j: int| 0 <= j < i + 1 implies #[trigger] self.chunk_at(missing@[j].0, missing@[j].1, missing@[j].2) is Some by {
                    if j < i {
                        assert(before.chunk_at(missing@[j].0, missing@[j].1, missing@[j].2) is Some);
                    }
                }
                old(self).lemma_grows_trans(&before, self);
            }
            i = i + 1;
        }
        proof {
            assert forall|cx: i32, cy: i32, cz: i32|
                x_start <= cx <= x_end && y_start <= cy <= y_end && z_start <= cz <= z_end
                    implies #[trigger] self.chunk_at(cx, cy, cz) is Some by {
                if !(old(self).chunk_at(cx, cy, cz) is Some) {
                    let j = missing@.index_of((cx, cy, cz));
                    assert(self.chunk_at(missing@[j].0, missing@[j].1, missing@[j].2) is Some);
                }
            }
        }
    }

    /// Makes sure every chunk of the box `[x_start, x_end] x [y_start, y_end]
    /// x [z_start, z_end]` exists, creating the missing ones empty (a
    /// read-only pass finds them, a second pass creates them), and hands out
    /// the box's chunks in order of x, then y, then z, z varying fastest.
    /// Chunks that existed, and chunks outside the box, are left as they were.
    pub fn ensure_chunks(&mut self, x_start: i32, x_end: i32, y_start: i32, y_end: i32, z_start: i32, z_end: i32) -> (r: Vec<&ChunkState>)
        requires
            old(self).wf(),
            x_start <= x_end && y_start <= y_end && z_start <= z_end
                ==> (x_end - x_start + 1) * (y_end - y_start + 1) * (z_end - z_start + 1) <= usize::MAX,
        ensures
            final(self).wf(),
            forall|cx: i32, cy: i32, cz: i32|
                old(self).chunk_at(cx, cy, cz) is Some ==> #[trigger] final(self).chunk_at(cx, cy, cz) == old(self).chunk_at(cx, cy, cz),
            forall|cx: i32, cy: i32, cz: i32|
                old(self).chunk_at(cx, cy, cz) is None ==> #[trigger] final(self).chunk_at(cx, cy, cz) == (if x_start <= cx <= x_end
                    && y_start <= cy <= y_end && z_start <= cz <= z_end {
                    Some(ChunkState::new_spec(cx, cy, cz))
                } else {
                    None
                }),
            old(self).grows_to(final(self)),
            !(x_start <= x_end && y_start <= y_end && z_start <= z_end) ==> r@.len() == 0,
            x_start <= x_end && y_start <= y_end && z_start <= z_end ==> {
                &&& r@.len() == (x_end - x_start + 1) * (y_end - y_start + 1) * (z_end - z_start + 1)
                &&& forall|j: int|
                    #![trigger r@[j]]
                    0 <= j < r@.len() ==> {
                        let p = box_point(x_start, y_start, z_start, y_end - y_start + 1, z_end - z_start + 1, j);
                        final(self).chunk_at(p.0, p.1, p.2) == Some(*r@[j])
                    }
            },
    {
        self.create_chunks(x_start, x_end, y_start, y_end, z_start, z_end);
        let mut r: Vec<&ChunkState> = Vec::new();
        if x_start <= x_end && y_start <= y_end && z_start <= z_end {
            let ghost (a, b, c) = (x_end - x_start + 1, y_end - y_start + 1, z_end - z_start + 1);
            assert(a <= a * b * c && b <= a * b * c && c <= a * b * c) by (nonlinear_arith)
                requires
                    a >= 1,
                    b >= 1,
                    c >= 1,
            ;
            let nx = (x_end as i64 - x_start as i64 + 1) as usize;
            let ny = (y_end as i64 - y_start as i64 + 1) as usize;
            let nz = (z_end as i64 - z_start as i64 + 1) as usize;
            assert(nx * ny <= nx * ny * nz) by (nonlinear_arith)
                requires
                    nx >= 1,
                    ny >= 1,
                    nz >= 1,
            ;
            let total = nx * ny * nz;
            assert(nz * ny * nx == total) by (nonlinear_arith)
                requires
                    total == nx * ny * nz,
            ;
            let mut j: usize = 0;
            while j < total
                invariant
                    self.wf(),
                    nx == x_end - x_start + 1,
                    ny == y_end - y_start + 1,
                    nz == z_end - z_start + 1,
                    nx >= 1 && ny >= 1 && nz >= 1,
                    total == nx * ny * nz,
                    nz * ny * nx == total,
                    forall|cx: i32, cy: i32, cz: i32|
                        x_start <= cx <= x_end && y_start <= cy <= y_end && z_start <= cz <= z_end
                            ==> #[trigger] self.chunk_at(cx, cy, cz) is Some,
                    j <= total,
                    r@.len() == j,
                    forall|i: int|
                        #![trigger r@[i]]
                        0 <= i < j ==> {
                            let p = box_point(x_start, y_start, z_start, ny as int, nz as int, i);
                            self.chunk_at(p.0, p.1, p.2) == Some(*r@[i])
                        },
                decreases total - j,
            {
                proof {
                    crate::view::lemma_decode3(j as int, nz as int, ny as int, nx as int);
                }
                let cx = (x_start as i64 + ((j / nz) / ny) as i64) as i32;
                let cy = (y_start as i64 + ((j / nz) % ny) as i64) as i32;
                let cz = (z_start as i64 + (j % nz) as i64) as i32;
                assert(self.chunk_at(cx, cy, cz) is Some);
                r.push(self.chunks.get(&chunk_key(cx, cy, cz)).unwrap());
                j = j + 1;
            }
        }
        r
    }

    /// Makes sure every chunk of the box `[x_start, x_end] x [y_start, y_end]
    /// x [z_start, z_end]` exists and is formed.
    pub fn form_chunks(&mut self, x_start: i32, x_end: i32, y_start: i32, y_end: i32, z_start: i32, z_end: i32)
        requires
            old(self).wf(),
        ensures
            final(self).wf(),
            forall|cx: i32, cy: i32, cz: i32|
                x_start <= cx <= x_end && y_start <= cy <= y_end && z_start <= cz <= z_end
                    ==> #[trigger] final(self).is_formed_at(cx, cy, cz),
            old(self).grows_to(final(self)),
    {
        proof {
            old(self).lemma_grows_refl();
        }
        let mut x: i64 = x_start as i64;
        while x <= x_end as i64
            invariant
                self.wf(),
                old(self).grows_to(self),
                x_start <= x,
                x <= x_end as i64 + 1 || x == x_start,
                forall|cx: i32, cy: i32, cz: i32|
                    x_start <= cx < x && y_start <= cy <= y_end && z_start <= cz <= z_end
                        ==> #[trigger] self.is_formed_at(cx, cy, cz),
            decreases x_end as i64 + 1 - x,
        {
            let mut y: i64 = y_start as i64;
            while y <= y_end as i64
                invariant
                    self.wf(),
                    old(self).grows_to(self),
                    x_start <= x <= x_end,
                    y_start <= y,
                    y <= y_end as i64 + 1 || y == y_start,
                    forall|cx: i32, cy: i32, cz: i32|
                        x_start <= cx < x && y_start <= cy <= y_end && z_start <= cz <= z_end
                            ==> #[trigger] self.is_formed_at(cx, cy, cz),
                    forall|cy: i32, cz: i32|
                        y_start <= cy < y && z_start <= cz <= z_end ==> #[trigger] self.is_formed_at(x as i32, cy, cz),
                decreases y_end as i64 + 1 - y,
            {
                let mut z: i64 = z_start as i64;
                while z <= z_end as i64
                    invariant
                        self.wf(),
                        old(self).grows_to(self),
                        x_start <= x <= x_end,
                        y_start <= y <= y_end,
                        z_start <= z,
                        z <= z_end as i64 + 1 || z == z_start,
                        forall|cx: i32, cy: i32, cz: i32|
                            x_start <= cx < x && y_start <= cy <= y_end && z_start <= cz <= z_end
                                ==> #[trigger] self.is_formed_at(cx, cy, cz),
                        forall|cy: i32, cz: i32|
                            y_start <= cy < y && z_start <= cz <= z_end ==> #[trigger] self.is_formed_at(x as i32, cy, cz),
                        forall|cz: i32| z_start <= cz < z ==> #[trigger] self.is_formed_at(x as i32, y as i32, cz),
                    decreases z_end as i64 + 1 - z,
                {
                    let ghost before = *self;
                    self.form_chunk(x as i32, y as i32, z as i32);
                    proof {
                        old(self).lemma_grows_trans(&before, self);
                        assert forall|cx: i32, cy: i32, cz: i32| before.is_formed_at(cx, cy, cz) implies #[trigger] self.is_formed_at(cx, cy, cz) by {
                            assert(chunk_grows(before.chunk_at(cx, cy, cz), self.chunk_at(cx, cy, cz)));
                        }
                    }
                    z = z + 1;
                }
                proof {
                    assert forall|cy: i32, cz: i32|
                        y_start <= cy < y + 1 && z_start <= cz <= z_end implies #[trigger] self.is_formed_at(x as i32, cy, cz) by {
                        if cy == y {
                            assert(self.is_formed_at(x as i32, y as i32, cz));
                        }
                    }
                }
                y = y + 1;
            }
            proof {
                assert forall|cx: i32, cy: i32, cz: i32|
                    x_start <= cx < x + 1 && y_start <= cy <= y_end && z_start <= cz <= z_end
                        implies #[trigger] self.is_formed_at(cx, cy, cz) by {
                    if cx == x {
                        assert(self.is_formed_at(x as i32, cy, cz));
                    }
                }
            }
            x = x + 1;
        }
    }
}

/// The `j`-th chunk coordinate of a box that starts at `(x_start, y_start,
/// z_start)` and spans `ny` and `nz` chunks along y and z, in order of x,
/// then y, then z, z varying fastest.
pub open spec fn box_point(x_start: i32, y_start: i32, z_start: i32, ny: int, nz: int, j: int) -> (i32, i32, i32) {
    ((x_start + (j / nz) / ny) as i32, (y_start + (j / nz) % ny) as i32, (z_start + j % nz) as i32)
}

/// Two world coordinates with the same chunk and the same offset in it are
/// the same coordinate.
proof fn lemma_same_voxel(a: i32, x: i32)
    requires
        chunk_of(a as int) == chunk_of(x as int),
        local_of(a as int) == local_of(x as int),
    ensures
        a == x,
{
    lemma_chunk_local_round_trip(a as int);
    lemma_chunk_local_round_trip(x as int);
}

} // verus!
