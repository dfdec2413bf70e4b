//! One 16×16×16 section: its block array and the decoder for its packed wire form.
use vstd::prelude::*;
use crate::coords::{block_pos_to_index, rem16, slot_of, BlockPos, ChunkCoords, SectionCoords};
use crate::reader::{spec_varint, spec_varints, spec_words, DecodeError};

verus! {

/// Width in bits of a block entry when no palette is used.
pub const MAX_BITS_PER_BLOCK: u64 = 15;

/// Number of sections stacked in one chunk column.
pub const SECTIONS_PER_CHUNK: usize = 16;

/// Highest section index.
pub const MAX_SECTION: i32 = 15;

/// Lowest section index.
pub const MIN_SECTION: i32 = 0;

/// A global block-state identifier.
pub type BlockIndex = u16;

/// A section's blocks, in slot order.
pub type ChunkArray = [BlockIndex; 4096];

/// One decoded section of a chunk column.
#[derive(Debug)]
pub struct ChunkSection {
    /// Index of the section in its column, `0..16`.
    pub y: i32,
    pub blocks: ChunkArray,
}

/// The width in use for a declared bits-per-block byte.
pub open spec fn normalize_bits(b: u8) -> u64 {
    if b <= 4 {
        4
    } else if b >= 9 {
        MAX_BITS_PER_BLOCK
    } else {
        b as u64
    }
}

/// Entries packed into one 64-bit word.
pub open spec fn per_word(bits: u64) -> int {
    64int / (bits as int)
}

/// Words a section needs at the given width: a value never spans two words.
pub open spec fn words_needed(bits: u64) -> int {
    (4096 + per_word(bits) - 1) / per_word(bits)
}

/// A mask of the `bits` low bits.
pub open spec fn low_mask(bits: u64) -> u64 {
    ((1u64 << bits) - 1) as u64
}

/// The value packed for slot `j`: `bits` bits, starting at bit `(j mod per_word) * bits`
/// of word `j div per_word`.
pub open spec fn packed_value(words: Seq<u64>, bits: u64, j: int) -> u64 {
    (words[j / per_word(bits)] >> (((j % per_word(bits)) * bits) as u64)) & low_mask(bits)
}

/// The block-state id that a packed value stands for.
pub open spec fn resolve(palette: Option<Seq<i32>>, v: u64) -> u16 {
    match palette {
        Some(p) => p[v as int] as u16,
        None => v as u16,
    }
}

/// Every packed value indexes into the palette, when there is one.
pub open spec fn palette_covers(words: Seq<u64>, bits: u64, palette: Option<Seq<i32>>) -> bool {
    palette is Some ==> forall|j: int|
        0 <= j < 4096 ==> (#[trigger] packed_value(words, bits, j)) < palette->0.len()
}

/// The 4096 block-state ids of a section, or the palette error.
pub open spec fn spec_unpack(words: Seq<u64>, bits: u64, palette: Option<Seq<i32>>) -> Result<Seq<u16>, DecodeError> {
    if palette_covers(words, bits, palette) {
        Ok(Seq::new(4096, |j: int| resolve(palette, packed_value(words, bits, j))))
    } else {
        Err(DecodeError::PaletteIndex)
    }
}

/// The palette at `p`, present only below nine bits: a count, then that many ids.
pub open spec fn spec_palette(d: Seq<u8>, p: int, bits: u64) -> Result<(Option<Seq<i32>>, int), DecodeError> {
    if bits >= 9 {
        Ok((None, p))
    } else {
        match spec_varint(d, p) {
            Err(e) => Err(e),
            Ok((n, q)) => if n < 0 {
                Err(DecodeError::NegativeLength { offset: p as usize })
            } else {
                match spec_varints(d, q, n as nat, seq![]) {
                    Err(e) => Err(e),
                    Ok((pal, r)) => Ok((Some(pal), r)),
                }
            },
        }
    }
}

/// The packed word array at `p`: a count, which must be what the width needs, then the words.
pub open spec fn spec_data(d: Seq<u8>, p: int, bits: u64) -> Result<(Seq<u64>, int), DecodeError> {
    match spec_varint(d, p) {
        Err(e) => Err(e),
        Ok((n, q)) => if n != words_needed(bits) {
            Err(DecodeError::ArrayLength { declared: n, expected: words_needed(bits) as usize })
        } else {
            spec_words(d, q, n as nat, seq![])
        },
    }
}

/// A whole section at `p`: block count, bits per block, palette, packed words.
/// Yields its blocks and the position after it.
pub open spec fn spec_section(d: Seq<u8>, p: int) -> Result<(Seq<u16>, int), DecodeError> {
    if p + 2 > d.len() {
        Err(DecodeError::Truncated { offset: p as usize })
    } else if p + 2 >= d.len() {
        Err(DecodeError::Truncated { offset: (p + 2) as usize })
    } else {
        let bits = normalize_bits(d[p + 2]);
        match spec_palette(d, p + 3, bits) {
            Err(e) => Err(e),
            Ok((pal, q)) => match spec_data(d, q, bits) {
                Err(e) => Err(e),
                Ok((words, r)) => match spec_unpack(words, bits, pal) {
                    Err(e) => Err(e),
                    Ok(blocks) => Ok((blocks, r)),
                },
            },
        }
    }
}

pub proof fn lemma_width_facts(bits: u64)
    requires
        4 <= bits <= 8 || bits == 15,
    ensures
        1 <= per_word(bits) <= 16,
        per_word(bits) * bits <= 64,
        words_needed(bits) <= 1024,
        forall|j: int| 0 <= j < 4096 ==> #[trigger] (j / per_word(bits)) < words_needed(bits),
{
    if bits == 4 {
        assert(64int / (bits as int) == 16) by (nonlinear_arith)
            requires
                bits == 4,
        ;
        assert((4096 + 16 - 1) / 16int == 256);
    } else if bits == 5 {
        assert(64int / (bits as int) == 12) by (nonlinear_arith)
            requires
                bits == 5,
        ;
        assert((4096 + 12 - 1) / 12int == 342);
    } else if bits == 6 {
        assert(64int / (bits as int) == 10) by (nonlinear_arith)
            requires
                bits == 6,
        ;
        assert((4096 + 10 - 1) / 10int == 410);
    } else if bits == 7 {
        assert(64int / (bits as int) == 9) by (nonlinear_arith)
            requires
                bits == 7,
        ;
        assert((4096 + 9 - 1) / 9int == 456);
    } else if bits == 8 {
        assert(64int / (bits as int) == 8) by (nonlinear_arith)
            requires
                bits == 8,
        ;
        assert((4096 + 8 - 1) / 8int == 512);
    } else {
        assert(64int / (bits as int) == 4) by (nonlinear_arith)
            requires
                bits == 15,
        ;
        assert((4096 + 4 - 1) / 4int == 1024);
    }
}

impl ChunkSection {
    pub open spec fn wf(&self) -> bool {
        0 <= self.y < 16
    }

    pub fn new(y: i32, blocks: ChunkArray) -> (r: ChunkSection)
        ensures
            r.y == y,
            r.blocks == blocks,
    {
        ChunkSection { y, blocks }
    }

    /// Converts block coordinates within a chunk to coordinates within its section:
    /// y becomes its Euclidean remainder by 16.
    pub fn map_from_chunk_coords(coords: &ChunkCoords) -> (r: SectionCoords)
        ensures
            r.x == coords.x,
            r.y == coords.y % 16,
            r.z == coords.z,
            0 <= r.y < 16,
    {
        BlockPos { x: coords.x, y: rem16(coords.y), z: coords.z }
    }

    /// Converts block coordinates within this section to coordinates within the chunk.
    pub fn map_to_chunk_coords(&self, coords: &SectionCoords) -> (r: ChunkCoords)
        requires
            self.wf(),
            0 <= coords.y < 16,
        ensures
            r.x == coords.x,
            r.y == self.y * 16 + coords.y,
            r.z == coords.z,
    {
        BlockPos { x: coords.x, y: self.y * 16 + coords.y, z: coords.z }
    }

    /// The block-state id at the given coordinates of this section.
    pub fn block_id_at(&self, coords: &SectionCoords) -> (r: BlockIndex)
        requires
            coords.is_chunk_local(),
        ensures
            r == self.blocks@[slot_of(coords.x as int, coords.y as int, coords.z as int)],
    {
        self.blocks[block_pos_to_index(coords)]
    }

    /// The registry entry of the block at the given coordinates of this section;
    /// `None` when the registry has no entry for its id.
    pub fn block_at<'r, B>(&self, coords: &SectionCoords, registry: &'r [B]) -> (r: Option<&'r B>)
        requires
            coords.is_chunk_local(),
        ensures
            ({
                let id = self.blocks@[slot_of(coords.x as int, coords.y as int, coords.z as int)] as int;
                &&& id < registry@.len() ==> r == Some(&registry@[id])
                &&& id >= registry@.len() ==> r is None
            }),
    {
        let id = self.block_id_at(coords) as usize;
        if id < registry.len() {
            Some(&registry[id])
        } else {
            None
        }
    }

    /// Index of the section holding the given chunk-local y; `usize::MAX`, which is no
    /// section, below the column.
    pub fn section_containing(y: i32) -> (r: usize)
        ensures
            y >= 0 ==> r == y / 16,
            y < 0 ==> r == usize::MAX,
    {
        if y < 0 {
            usize::MAX
        } else {
            (y / 16) as usize
        }
    }

    /// The section y value for an index.
    pub fn section_at_index(index: usize) -> (r: i32)
        requires
            index <= i32::MAX,
        ensures
            r == index,
    {
        index as i32
    }

    /// The index for a section y value.
    pub fn index_of_section(section: i32) -> (r: usize)
        requires
            section >= 0,
        ensures
            r == section,
    {
        section as usize
    }
}

} // verus!
