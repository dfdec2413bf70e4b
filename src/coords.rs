//! World, chunk-local and section-local coordinates, and the block-array slot order.
use vstd::prelude::*;

verus! {

/// A block position: world, chunk-local or section-local, depending on context.
#[derive(Clone, Copy, Debug, PartialEq, Eq, Structural)]
pub struct BlockPos {
    pub x: i32,
    pub y: i32,
    pub z: i32,
}

/// A position on the horizontal plane: a chunk's location, or a column inside a chunk.
#[derive(Clone, Copy, Debug, PartialEq, Eq, Structural)]
pub struct ColumnPos {
    pub x: i32,
    pub z: i32,
}

/// Absolute block coordinates.
pub type WorldCoords = BlockPos;

/// Block coordinates inside a chunk: x and z in `0..16`, y as in the world.
pub type ChunkCoords = BlockPos;

/// Block coordinates inside a section: each axis in `0..16`.
pub type SectionCoords = BlockPos;

/// The location of a chunk column, in units of 16 blocks.
pub type ChunkLocation = ColumnPos;

/// Number of block slots in a section.
pub const SECTION_VOLUME: usize = 4096;

/// Euclidean remainder by 16: always in `0..16`.
pub open spec fn mod16(v: int) -> int {
    v % 16
}

/// Floor division by 16: rounds towards negative infinity.
pub open spec fn div16(v: int) -> int {
    v / 16
}

impl BlockPos {
    /// x and z lie inside one chunk.
    pub open spec fn is_chunk_local(&self) -> bool {
        0 <= self.x < 16 && 0 <= self.z < 16
    }

    /// All three axes lie inside one section.
    pub open spec fn is_section_local(&self) -> bool {
        self.is_chunk_local() && 0 <= self.y < 16
    }
}

/// Slot index of a block inside a section's block array.
pub open spec fn slot_of(x: int, y: int, z: int) -> int {
    mod16(y) * 256 + z * 16 + x
}

/// Euclidean remainder of an `i32` by 16.
pub fn rem16(v: i32) -> (r: i32)
    ensures
        r == mod16(v as int),
        0 <= r < 16,
{
    v.checked_rem_euclid(16).unwrap()
}

/// Floor division of an `i32` by 16.
pub fn div_floor16(v: i32) -> (r: i32)
    ensures
        r == div16(v as int),
{
    v.checked_div_euclid(16).unwrap()
}

/// Converts a block position to its slot index within a section's block array.
pub fn block_pos_to_index(pos: &BlockPos) -> (r: usize)
    requires
        pos.is_chunk_local(),
    ensures
        r == slot_of(pos.x as int, pos.y as int, pos.z as int),
        r < SECTION_VOLUME,
{
    let y = rem16(pos.y);
    (y * 256 + pos.z * 16 + pos.x) as usize
}

/// Converts a slot index within a section's block array back to a section-local position.
pub fn block_index_to_pos(i: usize) -> (r: BlockPos)
    requires
        i < SECTION_VOLUME,
    ensures
        r.x == i % 16,
        r.z == (i / 16) % 16,
        r.y == i / 256,
        r.is_section_local(),
{
    let x = i % 16;
    let y = i / (16 * 16);
    let z = (i / 16) % 16;
    BlockPos { x: x as i32, y: y as i32, z: z as i32 }
}

/// The slot order is a bijection between section-local positions and `0..4096`:
/// mapping a position to its slot and back gives the position again.
pub proof fn lemma_slot_round_trip(x: int, y: int, z: int)
    requires
        0 <= x < 16,
        0 <= y < 16,
        0 <= z < 16,
    ensures
        0 <= slot_of(x, y, z) < 4096,
        slot_of(x, y, z) % 16 == x,
        (slot_of(x, y, z) / 16) % 16 == z,
        slot_of(x, y, z) / 256 == y,
{
    assert(mod16(y) == y);
    let s = y * 256 + z * 16 + x;
    assert(s % 16 == x && s / 16 == y * 16 + z && (y * 16 + z) % 16 == z && s / 256 == y)
        by (nonlinear_arith)
        requires
            s == y * 256 + z * 16 + x,
            0 <= x < 16,
            0 <= y < 16,
            0 <= z < 16,
    ;
}

/// Splitting a world position into the location of its chunk (floor division by 16) and
/// chunk-local coordinates (Euclidean remainder by 16), then joining the two again, gives
/// the world position back, negative coordinates included; the local part lies in `0..16`.
/// Splitting a chunk-local height into section index and section-local height and joining
/// them again gives the height back in the same way.
pub proof fn lemma_world_chunk_round_trip(w: WorldCoords)
    ensures
        0 <= mod16(w.x as int) < 16,
        0 <= mod16(w.y as int) < 16,
        0 <= mod16(w.z as int) < 16,
        div16(w.x as int) * 16 + mod16(w.x as int) == w.x,
        div16(w.y as int) * 16 + mod16(w.y as int) == w.y,
        div16(w.z as int) * 16 + mod16(w.z as int) == w.z,
{
}

} // verus!
