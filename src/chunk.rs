//! A decoded chunk column: its sections behind reader/writer locks, its height map,
//! and a render artifact slot per section.
use vstd::prelude::*;
use vstd::rwlock::{ReadHandle, RwLock};
use crate::coords::{
    div_floor16, rem16, slot_of, BlockPos, ChunkCoords, ChunkLocation, ColumnPos, WorldCoords,
};
use crate::decode::{process_sections, slot_blocks, spec_decode, ChunkError};
use crate::heightmap::{process_heightmap, spec_heightmap, HeightTags, HeightmapMismatch};
use crate::section::{ChunkSection, SECTIONS_PER_CHUNK};

verus! {

/// What every reader of a section's lock sees: the section at index `y`, holding `blocks`.
pub open spec fn section_pred(y: int, blocks: Seq<u16>) -> spec_fn(ChunkSection) -> bool {
    |s: ChunkSection| s.y == y && s.blocks@ == blocks
}

/// The lock predicate of a section.
pub type SectionPred = spec_fn(ChunkSection) -> bool;

/// A section shared between readers, behind a reader/writer lock.
pub type WrappedChunkSection = RwLock<ChunkSection, SectionPred>;

/// A read view of a section; hand it back with `release_read` when done.
pub type SectionReadGuard<'a> = ReadHandle<'a, ChunkSection, SectionPred>;

/// A decoded section and its render artifact, once one has been attached.
pub struct SectionSlot<M> {
    pub lock: WrappedChunkSection,
    pub blocks: Ghost<Seq<u16>>,
    pub mesh: Option<M>,
}

/// One chunk-data payload, in the values that decoding reads.
pub struct ChunkPacket {
    /// Chunk location along x.
    pub x: i32,
    /// Chunk location along z.
    pub z: i32,
    /// Section-presence bitmask: bit `i` of the low sixteen marks section `i` present.
    pub bit_mask: i32,
    /// The tag tree that carries the height data.
    pub heightmaps: HeightTags,
    /// The concatenated section stream.
    pub data: Vec<u8>,
}

/// A chunk column.
pub struct Chunk<M> {
    pos: ChunkLocation,
    heightmap: [u16; 256],
    height_mismatch: Option<HeightmapMismatch>,
    sections: Vec<Option<SectionSlot<M>>>,
}

/// The height map that a packet's tag tree yields: all zeros where it has none.
pub open spec fn heights_of(tags: HeightTags) -> Seq<u16> {
    match spec_heightmap(tags) {
        Ok(h) => h,
        Err(_) => Seq::new(256, |i: int| 0u16),
    }
}

impl<M> Chunk<M> {
    /// The section slots hold sixteen entries, each lock pinned to its section.
    pub closed spec fn wf(&self) -> bool {
        &&& self.sections@.len() == 16
        &&& forall|i: int|
            0 <= i < 16 && (#[trigger] self.sections@[i]) is Some ==> self.sections@[i]->0.lock.pred()
                == section_pred(i, self.sections@[i]->0.blocks@)
    }

    /// The blocks of section `i`, if it is present.
    pub closed spec fn section_blocks(&self, i: int) -> Option<Seq<u16>> {
        match self.sections@[i] {
            Some(s) => Some(s.blocks@),
            None => None,
        }
    }

    /// The render artifact of section `i`, if one is attached.
    pub closed spec fn section_mesh(&self, i: int) -> Option<M> {
        match self.sections@[i] {
            Some(s) => s.mesh,
            None => None,
        }
    }

    pub closed spec fn spec_pos(&self) -> ChunkLocation {
        self.pos
    }

    pub closed spec fn spec_heights(&self) -> Seq<u16> {
        self.heightmap@
    }

    pub closed spec fn spec_height_mismatch(&self) -> Option<HeightmapMismatch> {
        self.height_mismatch
    }

    /// Builds a chunk from one payload. A malformed section stream fails the whole
    /// chunk; a height map that cannot be read leaves all heights zero and says why.
    pub fn new(packet: &ChunkPacket) -> (r: Result<Chunk<M>, ChunkError>)
        ensures
            match spec_decode((packet.bit_mask & 0xffff) as u16, packet.data@) {
                Err(e) => r == Err::<Chunk<M>, ChunkError>(e),
                Ok(s) => r is Ok && {
                    let c = r->Ok_0;
                    &&& c.wf()
                    &&& c.spec_pos() == (ColumnPos { x: packet.x, z: packet.z })
                    &&& forall|i: int| 0 <= i < 16 ==> #[trigger] c.section_blocks(i) == s[i]
                    &&& forall|i: int| 0 <= i < 16 ==> #[trigger] c.section_mesh(i) is None
                    &&& c.spec_heights() == heights_of(packet.heightmaps)
                    &&& c.spec_height_mismatch() == match spec_heightmap(packet.heightmaps) {
                        Ok(_) => None,
                        Err(e) => Some(e),
                    }
                },
            },
    {
        let raw = packet.bit_mask;
        let low = raw & 0xffff;
        assert(0 <= low <= 0xffff) by (bit_vector)
            requires
                low == raw & 0xffff,
        ;
        let mask = low as u16;
        let decoded = process_sections(mask, packet.data.as_slice())?;
        let (heightmap, height_mismatch) = process_heightmap(&packet.heightmaps);
        let ghost s = spec_decode(mask, packet.data@)->Ok_0;
        let mut decoded = decoded;
        assert forall|k: int| 0 <= k < decoded@.len() && decoded@[k] is Some implies decoded@[k]->0.y == k by {
            assert(slot_blocks(decoded@[k]) == s[k]);
        }
        let mut sections: Vec<Option<SectionSlot<M>>> = Vec::new();
        while decoded.len() > 0
            invariant
                decoded@.len() <= 16,
                sections@.len() == 16 - decoded@.len(),
                forall|k: int| 0 <= k < decoded@.len() ==> #[trigger] slot_blocks(decoded@[k]) == s[k],
                forall|k: int| 0 <= k < decoded@.len() && #[trigger] decoded@[k] is Some ==> decoded@[k]->0.y == k,
                forall|j: int|
                    0 <= j < sections@.len() ==> slot_ok(#[trigger] sections@[j], j + decoded@.len(), s),
            decreases decoded@.len(),
        {
            let ghost before = sections@;
            let ghost k = decoded@.len() - 1;
            assert(slot_blocks(decoded@[k]) == s[k]);
            let taken = decoded.pop().unwrap();
            match taken {
                Some(section) => {
                    let ghost b = section.blocks@;
                    let lock = RwLock::new(section, Ghost(section_pred(k, b)));
                    sections.insert(0, Some(SectionSlot { lock, blocks: Ghost(b), mesh: None }));
                },
                None => {
                    sections.insert(0, None);
                },
            }
            assert forall|j: int| 0 < j < sections@.len() implies sections@[j] == before[j - 1] by {}
            assert forall|j: int| 0 <= j < sections@.len() implies slot_ok(#[trigger] sections@[j], j + decoded@.len(), s) by {
                if j > 0 {
                    assert(sections@[j] == before[j - 1]);
                    assert(slot_ok(before[j - 1], (j - 1) + (decoded@.len() + 1), s));
                }
            }
        }
        let c = Chunk { pos: ColumnPos { x: packet.x, z: packet.z }, heightmap, height_mismatch, sections };
        assert forall|i: int| 0 <= i < 16 implies #[trigger] c.section_blocks(i) == s[i] && c.section_mesh(i) is None by {
            assert(slot_ok(sections@[i], i + 0, s));
        }
        assert forall|i: int| 0 <= i < 16 implies #[trigger] c.section_mesh(i) is None by {
            assert(slot_ok(sections@[i], i + 0, s));
        }
        Ok(c)
    }

    /// A read view of section `y`, or `None` when there is no such section. The view
    /// shows exactly the section's decoded blocks; release it with `release_read`.
    pub fn get_section(&self, y: usize) -> (r: Option<SectionReadGuard<'_>>)
        requires
            self.wf(),
        ensures
            (y < 16 && self.section_blocks(y as int) is Some) <==> r is Some,
            r is Some ==> r->0.view().y == y && r->0.view().blocks@ == self.section_blocks(y as int)->0,
    {
        if y >= SECTIONS_PER_CHUNK {
            return None;
        }
        match &self.sections[y] {
            Some(slot) => {
                let h = slot.lock.acquire_read();
                Some(h)
            },
            None => None,
        }
    }

    /// The render artifact attached to section `y`, if any.
    pub fn get_section_vbo(&self, y: usize) -> (r: Option<&M>)
        requires
            self.wf(),
        ensures
            y >= 16 ==> r is None,
            y < 16 ==> r == match self.section_mesh(y as int) {
                Some(m) => Some(&m),
                None => None::<&M>,
            },
    {
        if y >= SECTIONS_PER_CHUNK {
            return None;
        }
        match &self.sections[y] {
            Some(slot) => match &slot.mesh {
                Some(m) => Some(m),
                None => None,
            },
            None => None,
        }
    }

    /// A read view of the section that holds chunk-local height `y`.
    pub fn get_section_containing(&self, y: i32) -> (r: Option<SectionReadGuard<'_>>)
        requires
            self.wf(),
        ensures
            (0 <= y < 256 && self.section_blocks(y / 16) is Some) <==> r is Some,
            r is Some ==> r->0.view().y == y / 16 && r->0.view().blocks@ == self.section_blocks(y / 16)->0,
    {
        self.get_section(ChunkSection::section_containing(y))
    }

    /// The location of this chunk.
    pub fn get_coords(&self) -> (r: &ChunkLocation)
        ensures
            *r == self.spec_pos(),
    {
        &self.pos
    }

    /// Why the height map fell back to zeros, if it did.
    pub fn height_mismatch(&self) -> (r: Option<HeightmapMismatch>)
        ensures
            r == self.spec_height_mismatch(),
    {
        self.height_mismatch
    }

    /// Converts world block coordinates to coordinates within the owning chunk:
    /// x and z become their Euclidean remainders by 16, y is kept.
    pub fn map_from_world_coords(coords: &WorldCoords) -> (r: ChunkCoords)
        ensures
            r.x == coords.x % 16,
            r.y == coords.y,
            r.z == coords.z % 16,
            r.is_chunk_local(),
    {
        BlockPos { x: rem16(coords.x), y: coords.y, z: rem16(coords.z) }
    }

    /// Converts block coordinates within this chunk to world coordinates.
    pub fn map_to_world_coords(&self, coords: &ChunkCoords) -> (r: WorldCoords)
        requires
            coords.is_chunk_local(),
            i32::MIN <= self.spec_pos().x * 16 + coords.x <= i32::MAX,
            i32::MIN <= self.spec_pos().z * 16 + coords.z <= i32::MAX,
        ensures
            r.x == self.spec_pos().x * 16 + coords.x,
            r.y == coords.y,
            r.z == self.spec_pos().z * 16 + coords.z,
    {
        assert(i32::MIN <= self.pos.x * 16 <= i32::MAX);
        assert(i32::MIN <= self.pos.z * 16 <= i32::MAX);
        BlockPos { x: self.pos.x * 16 + coords.x, y: coords.y, z: self.pos.z * 16 + coords.z }
    }

    /// The location of the chunk that holds a world block position: floor division by 16.
    pub fn chunk_containing(coords: &WorldCoords) -> (r: ChunkLocation)
        ensures
            r.x == coords.x / 16,
            r.z == coords.z / 16,
    {
        ColumnPos { x: div_floor16(coords.x), z: div_floor16(coords.z) }
    }

    /// Attaches a render artifact to section `section`; nothing happens where that
    /// section is absent. The blocks and every other slot stay as they were.
    pub fn load_mesh(&mut self, mesh: M, section: usize)
        requires
            old(self).wf(),
        ensures
            final(self).wf(),
            final(self).spec_pos() == old(self).spec_pos(),
            final(self).spec_heights() == old(self).spec_heights(),
            final(self).spec_height_mismatch() == old(self).spec_height_mismatch(),
            forall|i: int| 0 <= i < 16 ==> #[trigger] final(self).section_blocks(i) == old(self).section_blocks(i),
            forall|i: int|
                0 <= i < 16 && i != section ==> #[trigger] final(self).section_mesh(i) == old(self).section_mesh(i),
            section < 16 && old(self).section_blocks(section as int) is Some ==> final(self).section_mesh(
                section as int,
            ) == Some(mesh),
            section < 16 && old(self).section_blocks(section as int) is None ==> final(self).section_mesh(
                section as int,
            ) is None,
    {
        if section >= SECTIONS_PER_CHUNK {
            return;
        }
        let ghost before = self.sections@;
        let slot = self.sections.remove(section);
        let slot = match slot {
            Some(s) => Some(SectionSlot { lock: s.lock, blocks: s.blocks, mesh: Some(mesh) }),
            None => None,
        };
        self.sections.insert(section, slot);
        assert forall|i: int| 0 <= i < 16 && i != section implies self.sections@[i] == before[i] by {}
    }

    /// The entry of the block-state registry for the block at chunk-local coordinates;
    /// `None` where the section is absent or the registry has no entry for the id.
    pub fn block_at<'r, B>(&self, coords: &ChunkCoords, registry: &'r [B]) -> (r: Option<&'r B>)
        requires
            self.wf(),
            coords.is_chunk_local(),
        ensures
            !(0 <= coords.y < 256 && self.section_blocks(coords.y / 16) is Some) ==> r is None,
            0 <= coords.y < 256 && self.section_blocks(coords.y / 16) is Some ==> ({
                let id = self.section_blocks(coords.y / 16)->0[slot_of(
                    coords.x as int,
                    coords.y as int,
                    coords.z as int,
                )] as int;
                &&& id < registry@.len() ==> r == Some(&registry@[id])
                &&& id >= registry@.len() ==> r is None
            }),
    {
        match self.get_section_containing(coords.y) {
            Some(guard) => {
                let local = ChunkSection::map_from_chunk_coords(coords);
                let r = guard.borrow().block_at(&local, registry);
                guard.release_read();
                r
            },
            None => None,
        }
    }

    /// The surface height at the column `(x, z)` of this chunk.
    pub fn get_highest_block(&self, coords: ColumnPos) -> (r: i32)
        requires
            0 <= coords.x < 16,
            0 <= coords.z < 16,
        ensures
            r == self.spec_heights()[coords.z * 16 + coords.x],
    {
        self.heightmap[(coords.z * 16 + coords.x) as usize] as i32
    }
}

/// Slot `k` holds what the decoded payload has at `k`, with no render artifact yet.
pub open spec fn slot_ok<M>(slot: Option<SectionSlot<M>>, k: int, s: Seq<Option<Seq<u16>>>) -> bool {
    &&& slot_blocks_of(slot) == s[k]
    &&& slot_mesh_of(slot) is None
    &&& slot is Some ==> slot->0.lock.pred() == section_pred(k, slot->0.blocks@)
}

/// The blocks that a slot holds.
pub open spec fn slot_blocks_of<M>(s: Option<SectionSlot<M>>) -> Option<Seq<u16>> {
    match s {
        Some(x) => Some(x.blocks@),
        None => None,
    }
}

/// The render artifact that a slot holds.
pub open spec fn slot_mesh_of<M>(s: Option<SectionSlot<M>>) -> Option<M> {
    match s {
        Some(x) => x.mesh,
        None => None,
    }
}

} // verus!
