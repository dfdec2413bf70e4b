use mc_chunk::chunk::{Chunk, ChunkPacket};
use mc_chunk::decode::{process_sections, ChunkError};
use mc_chunk::heightmap::{process_heightmap, HeightEntry, HeightTags, HeightmapMismatch};
use mc_chunk::reader::DecodeError;

fn varint(out: &mut Vec<u8>, v: i32) {
    let mut u = v as u32;
    loop {
        let b = (u & 0x7f) as u8;
        u >>= 7;
        if u == 0 {
            out.push(b);
            break;
        }
        out.push(b | 0x80);
    }
}

fn pack(values: &[u64], bits: u64) -> Vec<u64> {
    let per = (64 / bits) as usize;
    let mut words = vec![0u64; (4096 + per - 1) / per];
    for (j, v) in values.iter().enumerate() {
        words[j / per] |= v << ((j % per) as u64 * bits);
    }
    words
}

fn section_bytes(bits_byte: u8, palette: Option<&[i32]>, words: &[u64]) -> Vec<u8> {
    let mut out = vec![0x10, 0x00, bits_byte];
    if let Some(p) = palette {
        varint(&mut out, p.len() as i32);
        for id in p {
            varint(&mut out, *id);
        }
    }
    varint(&mut out, words.len() as i32);
    for w in words {
        out.extend_from_slice(&w.to_be_bytes());
    }
    out
}

fn packet(mask: i32, data: Vec<u8>, heightmaps: HeightTags) -> ChunkPacket {
    ChunkPacket { x: 0, z: 0, bit_mask: mask, heightmaps, data }
}

#[test]
fn round_trip_every_width() {
    for bits in [4u64, 5, 6, 7, 8, 15] {
        let limit = 1u64 << bits;
        let values: Vec<u64> = (0..4096u64).map(|j| (j * 7 + 3) % limit).collect();
        let words = pack(&values, bits);
        let data = if bits < 9 {
            let palette: Vec<i32> = (0..limit as i32).map(|i| i + 1000).collect();
            section_bytes(bits as u8, Some(&palette), &words)
        } else {
            section_bytes(bits as u8, None, &words)
        };
        let sections = process_sections(1, &data).unwrap();
        let s = sections[0].as_ref().unwrap();
        for j in 0..4096 {
            let expected = if bits < 9 { values[j] + 1000 } else { values[j] };
            assert_eq!(s.blocks[j] as u64, expected, "bits {} slot {}", bits, j);
        }
        assert!(sections[1..].iter().all(|s| s.is_none()));
    }
}

#[test]
fn palette_lookup_everywhere() {
    let words = pack(&vec![1u64; 4096], 4);
    let data = section_bytes(4, Some(&[1, 42, 7]), &words);
    let sections = process_sections(1, &data).unwrap();
    assert!(sections[0].as_ref().unwrap().blocks.iter().all(|b| *b == 42));
}

#[test]
fn direct_ids_without_palette() {
    let values: Vec<u64> = (0..4096u64).map(|j| (j * 31) % 32768).collect();
    let words = pack(&values, 15);
    let data = section_bytes(15, None, &words);
    let sections = process_sections(1, &data).unwrap();
    let s = sections[0].as_ref().unwrap();
    for j in 0..4096 {
        assert_eq!(s.blocks[j] as u64, values[j]);
    }
}

#[test]
fn small_and_large_widths_are_normalized() {
    // A declared width of 2 is read as 4; one of 12 as 15, with no palette.
    let words = pack(&vec![2u64; 4096], 4);
    let data = section_bytes(2, Some(&[5, 6, 9]), &words);
    let s = process_sections(1, &data).unwrap();
    assert!(s[0].as_ref().unwrap().blocks.iter().all(|b| *b == 9));
    let words = pack(&vec![300u64; 4096], 15);
    let data = section_bytes(12, None, &words);
    let s = process_sections(1, &data).unwrap();
    assert!(s[0].as_ref().unwrap().blocks.iter().all(|b| *b == 300));
}

#[test]
fn sections_follow_the_bitmask() {
    let a = section_bytes(4, Some(&[0, 11]), &pack(&vec![1u64; 4096], 4));
    let b = section_bytes(4, Some(&[0, 22]), &pack(&vec![1u64; 4096], 4));
    let mut data = a.clone();
    data.extend_from_slice(&b);
    let sections = process_sections(0b1000_0000_0000_0100, &data).unwrap();
    assert_eq!(sections.len(), 16);
    for (i, s) in sections.iter().enumerate() {
        match i {
            2 => {
                assert_eq!(s.as_ref().unwrap().y, 2);
                assert_eq!(s.as_ref().unwrap().blocks[0], 11);
            }
            15 => {
                assert_eq!(s.as_ref().unwrap().y, 15);
                assert_eq!(s.as_ref().unwrap().blocks[4095], 22);
            }
            _ => assert!(s.is_none()),
        }
    }
}

#[test]
fn truncated_by_one_byte_fails() {
    let mut data = section_bytes(4, Some(&[1, 42, 7]), &pack(&vec![1u64; 4096], 4));
    data.pop();
    let start_of_last_word = data.len() - 7;
    let r = process_sections(1, &data);
    assert_eq!(
        r.unwrap_err(),
        ChunkError { section: 0, error: DecodeError::Truncated { offset: start_of_last_word } }
    );
    let p = packet(1, data, HeightTags::Other);
    assert!(Chunk::<()>::new(&p).is_err());
}

#[test]
fn missing_header_fails() {
    assert_eq!(
        process_sections(1, &[0x10]).unwrap_err(),
        ChunkError { section: 0, error: DecodeError::Truncated { offset: 0 } }
    );
    assert_eq!(
        process_sections(1, &[0x10, 0x00]).unwrap_err(),
        ChunkError { section: 0, error: DecodeError::Truncated { offset: 2 } }
    );
    assert!(process_sections(0, &[]).unwrap().iter().all(|s| s.is_none()));
}

#[test]
fn palette_index_out_of_bounds_fails() {
    let data = section_bytes(4, Some(&[1, 42, 7]), &pack(&vec![3u64; 4096], 4));
    assert_eq!(
        process_sections(1, &data).unwrap_err(),
        ChunkError { section: 0, error: DecodeError::PaletteIndex }
    );
}

#[test]
fn wrong_array_length_fails() {
    let mut words = pack(&vec![0u64; 4096], 4);
    words.pop();
    let data = section_bytes(4, Some(&[1]), &words);
    assert_eq!(
        process_sections(1, &data).unwrap_err(),
        ChunkError { section: 0, error: DecodeError::ArrayLength { declared: 255, expected: 256 } }
    );
}

#[test]
fn negative_palette_length_fails() {
    let mut data = vec![0x10, 0x00, 4];
    varint(&mut data, -1);
    assert_eq!(
        process_sections(1, &data).unwrap_err(),
        ChunkError { section: 0, error: DecodeError::NegativeLength { offset: 3 } }
    );
}

#[test]
fn overlong_varint_fails() {
    let data = vec![0x10, 0x00, 4, 0xff, 0xff, 0xff, 0xff, 0xff, 0x01];
    assert_eq!(
        process_sections(1, &data).unwrap_err(),
        ChunkError { section: 0, error: DecodeError::VarintTooLong { offset: 3 } }
    );
}

#[test]
fn error_names_the_failing_section() {
    let good = section_bytes(4, Some(&[0, 11]), &pack(&vec![1u64; 4096], 4));
    let mut data = good.clone();
    data.extend_from_slice(&[0x10, 0x00]);
    let r = process_sections(0b11, &data).unwrap_err();
    assert_eq!(r.section, 1);
    assert_eq!(r.error, DecodeError::Truncated { offset: good.len() + 2 });
}

fn packed_heights(heights: &[u16]) -> Vec<i64> {
    let mut longs = vec![0i64; 37];
    for (i, h) in heights.iter().enumerate() {
        longs[i / 7] |= (*h as i64) << ((i % 7) * 9);
    }
    longs
}

#[test]
fn heightmap_reads_only_the_surface_entry() {
    let heights: Vec<u16> = (0..256u16).map(|i| (i * 3) % 512).collect();
    let tags = HeightTags::Compound(vec![
        HeightEntry { name: "WORLD_SURFACE".to_string(), longs: Some(vec![-1i64; 37]) },
        HeightEntry { name: "MOTION_BLOCKING".to_string(), longs: Some(packed_heights(&heights)) },
    ]);
    let (map, mismatch) = process_heightmap(&tags);
    assert!(mismatch.is_none());
    assert_eq!(map.to_vec(), heights);
}

#[test]
fn heightmap_mismatch_gives_zeros() {
    let (map, m) = process_heightmap(&HeightTags::Other);
    assert!(map.iter().all(|h| *h == 0));
    assert_eq!(m, Some(HeightmapMismatch::NotCompound));

    let tags = HeightTags::Compound(vec![HeightEntry { name: "OTHER".to_string(), longs: Some(vec![-1; 37]) }]);
    let (map, m) = process_heightmap(&tags);
    assert!(map.iter().all(|h| *h == 0));
    assert_eq!(m, Some(HeightmapMismatch::MissingSurface));

    let tags = HeightTags::Compound(vec![HeightEntry { name: "MOTION_BLOCKING".to_string(), longs: Some(vec![-1; 36]) }]);
    let (map, m) = process_heightmap(&tags);
    assert!(map.iter().all(|h| *h == 0));
    assert_eq!(m, Some(HeightmapMismatch::TooShort { len: 36 }));

    let tags = HeightTags::Compound(vec![HeightEntry { name: "MOTION_BLOCKING".to_string(), longs: None }]);
    assert_eq!(process_heightmap(&tags).1, Some(HeightmapMismatch::MissingSurface));
}

#[test]
fn heightmap_unpacks_each_long_in_turn() {
    let mut longs = vec![0i64; 37];
    longs[1] = 5; // height 7 sits in the low bits of the second long
    longs[36] = 0x1ff << 27; // height 255 is the fourth of the last long
    let tags = HeightTags::Compound(vec![HeightEntry { name: "MOTION_BLOCKING".to_string(), longs: Some(longs) }]);
    let (map, _) = process_heightmap(&tags);
    assert_eq!(map[7], 5);
    assert_eq!(map[0], 0);
    assert_eq!(map[255], 511);
}
