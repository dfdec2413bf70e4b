use mc_chunk::chunk::{Chunk, ChunkPacket};
use mc_chunk::coords::{block_index_to_pos, block_pos_to_index, BlockPos, ColumnPos};
use mc_chunk::heightmap::{HeightEntry, HeightTags, HeightmapMismatch};
use mc_chunk::section::ChunkSection;

fn section_of(id_at: impl Fn(usize) -> u64) -> Vec<u8> {
    let mut out = vec![0x00, 0x10, 15, 0x80, 0x08];
    let mut words = vec![0u64; 1024];
    for j in 0..4096 {
        words[j / 4] |= id_at(j) << ((j % 4) * 15);
    }
    for w in words {
        out.extend_from_slice(&w.to_be_bytes());
    }
    out
}

fn heights_tags(h: u16) -> HeightTags {
    let mut v: i64 = 0;
    for k in 0..7 {
        v |= (h as i64) << (9 * k);
    }
    HeightTags::Compound(vec![HeightEntry { name: "MOTION_BLOCKING".to_string(), longs: Some(vec![v; 37]) }])
}

fn sample_chunk() -> Chunk<String> {
    let mut data = section_of(|j| j as u64);
    data.extend_from_slice(&section_of(|j| (j as u64) + 10000));
    let p = ChunkPacket { x: -1, z: 3, bit_mask: 0b101, heightmaps: heights_tags(70), data };
    Chunk::new(&p).unwrap()
}

#[test]
fn world_to_chunk_with_negative_coordinates() {
    let w = BlockPos { x: -1, y: 5, z: -1 };
    assert_eq!(Chunk::<()>::chunk_containing(&w), ColumnPos { x: -1, z: -1 });
    let local = Chunk::<()>::map_from_world_coords(&w);
    assert_eq!(local, BlockPos { x: 15, y: 5, z: 15 });
    let p = ChunkPacket { x: -1, z: -1, bit_mask: 0, heightmaps: HeightTags::Other, data: vec![] };
    let c: Chunk<()> = Chunk::new(&p).unwrap();
    assert_eq!(c.map_to_world_coords(&local), w);
}

#[test]
fn world_to_chunk_round_trip_many() {
    for x in [-33, -17, -16, -15, -1, 0, 1, 15, 16, 31, 1000] {
        for z in [-20, -1, 0, 7, 16] {
            let w = BlockPos { x, y: 64, z };
            let cp = Chunk::<()>::chunk_containing(&w);
            let p = ChunkPacket { x: cp.x, z: cp.z, bit_mask: 0, heightmaps: HeightTags::Other, data: vec![] };
            let c: Chunk<()> = Chunk::new(&p).unwrap();
            assert_eq!(c.map_to_world_coords(&Chunk::<()>::map_from_world_coords(&w)), w);
        }
    }
}

#[test]
fn section_local_y_is_euclidean() {
    let r = ChunkSection::map_from_chunk_coords(&BlockPos { x: 3, y: -1, z: 4 });
    assert_eq!(r, BlockPos { x: 3, y: 15, z: 4 });
    let r = ChunkSection::map_from_chunk_coords(&BlockPos { x: 3, y: 37, z: 4 });
    assert_eq!(r.y, 5);
}

#[test]
fn section_to_chunk_coords() {
    let s = ChunkSection::new(2, [0u16; 4096]);
    assert_eq!(s.map_to_chunk_coords(&BlockPos { x: 1, y: 5, z: 9 }), BlockPos { x: 1, y: 37, z: 9 });
}

#[test]
fn section_index_helpers() {
    assert_eq!(ChunkSection::section_containing(0), 0);
    assert_eq!(ChunkSection::section_containing(37), 2);
    assert_eq!(ChunkSection::section_containing(255), 15);
    assert_eq!(ChunkSection::section_containing(-1), usize::MAX);
    assert_eq!(ChunkSection::section_at_index(7), 7);
    assert_eq!(ChunkSection::index_of_section(9), 9);
}

#[test]
fn slot_order() {
    assert_eq!(block_pos_to_index(&BlockPos { x: 1, y: 2, z: 3 }), 2 * 256 + 3 * 16 + 1);
    assert_eq!(block_pos_to_index(&BlockPos { x: 0, y: 17, z: 0 }), 256);
    assert_eq!(block_pos_to_index(&BlockPos { x: 0, y: -1, z: 0 }), 15 * 256);
    assert_eq!(block_index_to_pos(4095), BlockPos { x: 15, y: 15, z: 15 });
    assert_eq!(block_index_to_pos(2 * 256 + 3 * 16 + 1), BlockPos { x: 1, y: 2, z: 3 });
    for i in 0..4096 {
        assert_eq!(block_pos_to_index(&block_index_to_pos(i)), i);
    }
}

#[test]
fn section_block_lookup_through_registry() {
    let mut blocks = [0u16; 4096];
    blocks[block_pos_to_index(&BlockPos { x: 1, y: 2, z: 3 })] = 2;
    blocks[0] = 9;
    let s = ChunkSection::new(0, blocks);
    let registry = ["air", "stone", "dirt"];
    assert_eq!(s.block_at(&BlockPos { x: 1, y: 2, z: 3 }, &registry), Some(&"dirt"));
    assert_eq!(s.block_at(&BlockPos { x: 0, y: 0, z: 1 }, &registry), Some(&"air"));
    assert_eq!(s.block_at(&BlockPos { x: 0, y: 0, z: 0 }, &registry), None);
    assert_eq!(s.block_id_at(&BlockPos { x: 0, y: 0, z: 0 }), 9);
}

#[test]
fn chunk_queries() {
    let c = sample_chunk();
    assert_eq!(*c.get_coords(), ColumnPos { x: -1, z: 3 });
    assert_eq!(c.height_mismatch(), None);
    assert_eq!(c.get_highest_block(ColumnPos { x: 4, z: 9 }), 70);
    assert!(c.get_section(1).is_none());
    assert!(c.get_section(16).is_none());
    assert!(c.get_section_containing(-1).is_none());
    let g = c.get_section(2).unwrap();
    assert_eq!(g.borrow().y, 2);
    assert_eq!(g.borrow().blocks[5], 10005);
    g.release_read();
    let g = c.get_section_containing(3).unwrap();
    assert_eq!(g.borrow().y, 0);
    g.release_read();

    let registry: Vec<u32> = (0..20000u32).collect();
    let pos = BlockPos { x: 1, y: 34, z: 3 };
    let slot = block_pos_to_index(&pos);
    assert_eq!(c.block_at(&pos, &registry), Some(&(10000 + slot as u32)));
    assert_eq!(c.block_at(&BlockPos { x: 1, y: 20, z: 3 }, &registry), None);
    assert_eq!(c.block_at(&BlockPos { x: 1, y: -3, z: 3 }, &registry), None);
    assert_eq!(c.block_at(&BlockPos { x: 1, y: 300, z: 3 }, &registry), None);
    assert_eq!(c.block_at(&BlockPos { x: 0, y: 0, z: 0 }, &registry[..0]), None);
}

#[test]
fn many_readers_see_the_whole_section() {
    let c = sample_chunk();
    let guards: Vec<_> = (0..8).map(|_| c.get_section(0).unwrap()).collect();
    for g in &guards {
        assert_eq!(g.borrow().y, 0);
        assert!(g.borrow().blocks.iter().enumerate().all(|(j, b)| *b as usize == j));
    }
    for g in guards {
        g.release_read();
    }
}

#[test]
fn mesh_is_attached_once_whole() {
    let mut c = sample_chunk();
    assert!(c.get_section_vbo(0).is_none());
    c.load_mesh("mesh zero".to_string(), 0);
    c.load_mesh("nothing here".to_string(), 1);
    c.load_mesh("out of range".to_string(), 40);
    assert_eq!(c.get_section_vbo(0).map(|s| s.as_str()), Some("mesh zero"));
    assert!(c.get_section_vbo(1).is_none());
    assert!(c.get_section_vbo(2).is_none());
    assert!(c.get_section_vbo(40).is_none());
    let g = c.get_section(0).unwrap();
    assert_eq!(g.borrow().blocks[4095], 4095);
    g.release_read();
}

#[test]
fn chunk_with_unreadable_heights_keeps_sections() {
    let p = ChunkPacket { x: 0, z: 0, bit_mask: 1, heightmaps: HeightTags::Other, data: section_of(|_| 1) };
    let c: Chunk<()> = Chunk::new(&p).unwrap();
    assert_eq!(c.height_mismatch(), Some(HeightmapMismatch::NotCompound));
    assert_eq!(c.get_highest_block(ColumnPos { x: 15, z: 15 }), 0);
    let g = c.get_section(0).unwrap();
    assert_eq!(g.borrow().blocks[77], 1);
    g.release_read();
}

#[test]
fn only_the_low_sixteen_mask_bits_count() {
    let p = ChunkPacket { x: 0, z: 0, bit_mask: 0x7fff_0001, heightmaps: heights_tags(1), data: section_of(|_| 4) };
    let c: Chunk<()> = Chunk::new(&p).unwrap();
    assert!(c.get_section(0).map(|g| g.release_read()).is_some());
    for i in 1..16 {
        assert!(c.get_section(i).is_none());
    }
    assert_eq!(c.get_highest_block(ColumnPos { x: 0, z: 0 }), 1);
}
