//! The surface height map carried in a chunk payload's tag tree.
use vstd::prelude::*;

verus! {

/// Name of the tag-tree entry that holds the surface heights.
pub const SURFACE_HEIGHTMAP: &'static str = "MOTION_BLOCKING";

/// Heights packed into one 64-bit word.
pub const HEIGHTS_PER_LONG: usize = 7;

/// Words needed for the 256 heights.
pub const HEIGHT_LONGS: usize = 37;

/// One named entry of the height tag tree.
pub struct HeightEntry {
    pub name: String,
    /// The entry's words, when it holds a long array; `None` for any other payload.
    pub longs: Option<Vec<i64>>,
}

/// The root of the height tag tree, as far as height decoding reads it.
pub enum HeightTags {
    /// A compound: a list of named entries.
    Compound(Vec<HeightEntry>),
    /// Any other kind of root.
    Other,
}

/// Why the height map fell back to all zeros.
#[derive(Clone, Copy, Debug, PartialEq, Eq, Structural)]
pub enum HeightmapMismatch {
    /// The root is not a compound.
    NotCompound,
    /// No entry of the expected name holds a long array.
    MissingSurface,
    /// The surface entry has fewer words than 256 heights need.
    TooShort { len: usize },
}

/// The entry is the surface height source.
pub open spec fn is_surface(e: HeightEntry) -> bool {
    e.name@ == SURFACE_HEIGHTMAP@ && e.longs is Some
}

/// Index of the first surface entry at or after `i`.
pub open spec fn first_surface(es: Seq<HeightEntry>, i: int) -> Option<int>
    decreases es.len() - i,
{
    if i < 0 || i >= es.len() {
        None
    } else if is_surface(es[i]) {
        Some(i)
    } else {
        first_surface(es, i + 1)
    }
}

/// Height `i` of a packed word array: nine bits, seven to a word, at bit `(i mod 7) * 9`
/// of word `i div 7`.
pub open spec fn height_value(longs: Seq<i64>, i: int) -> u16 {
    (((longs[i / 7] as u64) >> (((i % 7) * 9) as u64)) & 0x1ffu64) as u16
}

/// The height map that a tag tree yields, or why it yields none.
pub open spec fn spec_heightmap(tags: HeightTags) -> Result<Seq<u16>, HeightmapMismatch> {
    match tags {
        HeightTags::Other => Err(HeightmapMismatch::NotCompound),
        HeightTags::Compound(es) => match first_surface(es@, 0) {
            None => Err(HeightmapMismatch::MissingSurface),
            Some(k) => {
                let longs = es@[k].longs->0@;
                if longs.len() < 37 {
                    Err(HeightmapMismatch::TooShort { len: longs.len() as usize })
                } else {
                    Ok(Seq::new(256, |i: int| height_value(longs, i)))
                }
            },
        },
    }
}

/// Decodes the 256 heights from a packed word array.
fn unpack_heights(longs: &Vec<i64>) -> (r: [u16; 256])
    requires
        longs@.len() >= 37,
    ensures
        r@ == Seq::new(256, |i: int| height_value(longs@, i)),
{
    let mut map = [0u16; 256];
    let mut i: usize = 0;
    while i < 256
        invariant
            longs@.len() >= 37,
            i <= 256,
            map@.len() == 256,
            forall|k: int| 0 <= k < i ==> #[trigger] map@[k] == height_value(longs@, k),
        decreases 256 - i,
    {
        let long = i / HEIGHTS_PER_LONG;
        let offset = ((i % HEIGHTS_PER_LONG) * 9) as u64;
        let w = longs[long] as u64;
        let v = (w >> offset) & 0x1ff;
        assert(v <= 0x1ff) by (bit_vector)
            requires
                v == (w >> offset) & 0x1ff,
        ;
        map[i] = v as u16;
        i = i + 1;
    }
    assert(map@ =~= Seq::new(256, |i: int| height_value(longs@, i)));
    map
}

/// Extracts the surface height map: the first entry named for surface height that holds
/// a long array gives all 256 heights, row-major over local x and z; every other entry is
/// ignored. Where the tree has no such entry, or not the expected shape, the map is all
/// zeros and the reason comes with it.
pub fn process_heightmap(tags: &HeightTags) -> (r: ([u16; 256], Option<HeightmapMismatch>))
    ensures
        match spec_heightmap(*tags) {
            Ok(h) => r.0@ == h && r.1 is None,
            Err(e) => r.0@ == Seq::new(256, |i: int| 0u16) && r.1 == Some(e),
        },
{
    let zeros = [0u16; 256];
    assert(zeros@ =~= Seq::new(256, |i: int| 0u16));
    match tags {
        HeightTags::Other => (zeros, Some(HeightmapMismatch::NotCompound)),
        HeightTags::Compound(entries) => {
            let key = SURFACE_HEIGHTMAP.to_owned();
            let mut i: usize = 0;
            while i < entries.len()
                invariant
                    i <= entries@.len(),
                    key@ == SURFACE_HEIGHTMAP@,
                    zeros@ == Seq::new(256, |i: int| 0u16),
                    *tags == HeightTags::Compound(*entries),
                    first_surface(entries@, 0) == first_surface(entries@, i as int),
                decreases entries@.len() - i,
            {
                let e = &entries[i];
                if e.name == key {
                    match &e.longs {
                        Some(longs) => {
                            if longs.len() < HEIGHT_LONGS {
                                return (zeros, Some(HeightmapMismatch::TooShort { len: longs.len() }));
                            }
                            return (unpack_heights(longs), None);
                        },
                        None => {},
                    }
                }
                i = i + 1;
            }
            (zeros, Some(HeightmapMismatch::MissingSurface))
        },
    }
}

} // verus!
