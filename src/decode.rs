//! Decoding the section stream of a chunk payload.
use vstd::prelude::*;
use crate::reader::{lemma_words_len, spec_varint, spec_varints, spec_words, DecodeError, Reader};
use crate::section::{
    low_mask, normalize_bits, packed_value, palette_covers, per_word, resolve, spec_data,
    spec_palette, spec_section, spec_unpack, words_needed, ChunkSection, MAX_BITS_PER_BLOCK,
    SECTIONS_PER_CHUNK, lemma_width_facts,
};

verus! {

/// A fatal decode failure, with the index of the section it occurred in.
#[derive(Clone, Copy, Debug, PartialEq, Eq, Structural)]
pub struct ChunkError {
    pub section: usize,
    pub error: DecodeError,
}

/// Section `i` is marked present in the bitmask.
pub open spec fn mask_has(mask: u16, i: int) -> bool {
    (mask >> (i as u16)) & 1u16 == 1u16
}

/// Decodes sections `i..16` from `p`, after `acc` holds the first `i`.
pub open spec fn spec_sections(mask: u16, d: Seq<u8>, p: int, i: nat, acc: Seq<Option<Seq<u16>>>) -> Result<
    Seq<Option<Seq<u16>>>,
    ChunkError,
>
    decreases 16 - i,
{
    if i >= 16 {
        Ok(acc)
    } else if !mask_has(mask, i as int) {
        spec_sections(mask, d, p, i + 1, acc.push(None))
    } else {
        match spec_section(d, p) {
            Ok((blocks, q)) => spec_sections(mask, d, q, i + 1, acc.push(Some(blocks))),
            Err(e) => Err(ChunkError { section: i as usize, error: e }),
        }
    }
}

/// The blocks of every present section of a payload, by index.
pub open spec fn spec_decode(mask: u16, d: Seq<u8>) -> Result<Seq<Option<Seq<u16>>>, ChunkError> {
    spec_sections(mask, d, 0, 0, seq![])
}

/// What a decoded slot holds: the section's blocks, if present.
pub open spec fn slot_blocks(s: Option<ChunkSection>) -> Option<Seq<u16>> {
    match s {
        Some(c) => Some(c.blocks@),
        None => None,
    }
}

/// Reads `n` variable-length integers.
fn read_varints(r: &mut Reader, n: usize) -> (res: Result<Vec<i32>, DecodeError>)
    requires
        old(r).wf(),
    ensures
        final(r).wf(),
        final(r).bytes() == old(r).bytes(),
        match spec_varints(old(r).bytes(), old(r).pos as int, n as nat, seq![]) {
            Ok((v, q)) => res is Ok && res->Ok_0@ == v && final(r).pos == q,
            Err(e) => res == Err::<Vec<i32>, DecodeError>(e),
        },
{
    let ghost d = r.bytes();
    let ghost p0 = r.pos as int;
    let mut out: Vec<i32> = Vec::new();
    let mut i: usize = 0;
    while i < n
        invariant
            r.wf(),
            r.bytes() == d,
            d == old(r).bytes(),
            p0 == old(r).pos,
            i <= n,
            spec_varints(d, p0, n as nat, seq![]) == spec_varints(d, r.pos as int, (n - i) as nat, out@),
        decreases n - i,
    {
        let v = r.read_varint()?;
        out.push(v);
        i = i + 1;
    }
    Ok(out)
}

/// Reads `n` big-endian words.
fn read_words(r: &mut Reader, n: usize) -> (res: Result<Vec<u64>, DecodeError>)
    requires
        old(r).wf(),
    ensures
        final(r).wf(),
        final(r).bytes() == old(r).bytes(),
        match spec_words(old(r).bytes(), old(r).pos as int, n as nat, seq![]) {
            Ok((v, q)) => res is Ok && res->Ok_0@ == v && final(r).pos == q,
            Err(e) => res == Err::<Vec<u64>, DecodeError>(e),
        },
{
    let ghost d = r.bytes();
    let ghost p0 = r.pos as int;
    let mut out: Vec<u64> = Vec::new();
    let mut i: usize = 0;
    while i < n
        invariant
            r.wf(),
            r.bytes() == d,
            d == old(r).bytes(),
            p0 == old(r).pos,
            i <= n,
            spec_words(d, p0, n as nat, seq![]) == spec_words(d, r.pos as int, (n - i) as nat, out@),
        decreases n - i,
    {
        let w = r.read_word()?;
        out.push(w);
        i = i + 1;
    }
    Ok(out)
}

/// Reads the palette, present only below nine bits per block.
fn read_palette(r: &mut Reader, bits: u64) -> (res: Result<Option<Vec<i32>>, DecodeError>)
    requires
        old(r).wf(),
    ensures
        final(r).wf(),
        final(r).bytes() == old(r).bytes(),
        match spec_palette(old(r).bytes(), old(r).pos as int, bits) {
            Ok((pal, q)) => res is Ok && final(r).pos == q && match res->Ok_0 {
                Some(v) => pal == Some(v@),
                None => pal is None,
            },
            Err(e) => res == Err::<Option<Vec<i32>>, DecodeError>(e),
        },
{
    if bits >= 9 {
        return Ok(None);
    }
    let start = r.pos;
    let n = r.read_varint()?;
    if n < 0 {
        return Err(DecodeError::NegativeLength { offset: start });
    }
    let pal = read_varints(r, n as usize)?;
    Ok(Some(pal))
}

/// Reads the packed word array, whose count must be what the width needs.
fn read_data(r: &mut Reader, bits: u64) -> (res: Result<Vec<u64>, DecodeError>)
    requires
        old(r).wf(),
        4 <= bits <= 8 || bits == 15,
    ensures
        final(r).wf(),
        final(r).bytes() == old(r).bytes(),
        match spec_data(old(r).bytes(), old(r).pos as int, bits) {
            Ok((v, q)) => res is Ok && res->Ok_0@ == v && final(r).pos == q,
            Err(e) => res == Err::<Vec<u64>, DecodeError>(e),
        },
        res is Ok ==> res->Ok_0@.len() == words_needed(bits),
{
    proof {
        lemma_width_facts(bits);
    }
    let ghost p = r.pos as int;
    let n = r.read_varint()?;
    proof {
        let q = spec_varint(r.bytes(), p)->Ok_0.1;
        lemma_words_len(r.bytes(), q, n as nat, seq![]);
    }
    let per = 64 / bits;
    let needed = (4096 + per - 1) / per;
    if n as i64 != needed as i64 {
        return Err(DecodeError::ArrayLength { declared: n, expected: needed as usize });
    }
    read_words(r, n as usize)
}

/// Unpacks the 4096 entries of a section and resolves them through the palette.
fn unpack_blocks(words: &Vec<u64>, bits: u64, palette: &Option<Vec<i32>>) -> (res: Result<[u16; 4096], DecodeError>)
    requires
        4 <= bits <= 8 || bits == 15,
        words@.len() == words_needed(bits),
    ensures
        match spec_unpack(words@, bits, palette_view(palette)) {
            Ok(b) => res is Ok && res->Ok_0@ == b,
            Err(e) => res == Err::<[u16; 4096], DecodeError>(e),
        },
{
    proof {
        lemma_width_facts(bits);
    }
    let ghost pal = palette_view(palette);
    assert(1u64 <= (1u64 << bits) <= 0x8000) by (bit_vector)
        requires
            4 <= bits <= 15,
    ;
    let mask: u64 = (1u64 << bits) - 1;
    let per: u64 = 64 / bits;
    let mut blocks = [0u16; 4096];
    let mut j: u64 = 0;
    while j < 4096
        invariant
            4 <= bits <= 8 || bits == 15,
            words@.len() == words_needed(bits),
            per == per_word(bits),
            mask == low_mask(bits),
            mask < 0x8000,
            1 <= per_word(bits) <= 16,
            per_word(bits) * bits <= 64,
            forall|i: int| 0 <= i < 4096 ==> #[trigger] (i / per_word(bits)) < words_needed(bits),
            pal == palette_view(palette),
            j <= 4096,
            blocks@.len() == 4096,
            forall|i: int| 0 <= i < j ==> pal is Some ==> #[trigger] packed_value(words@, bits, i) < pal->0.len(),
            forall|i: int| 0 <= i < j ==> #[trigger] blocks@[i] == resolve(pal, packed_value(words@, bits, i)),
        decreases 4096 - j,
    {
        let long = j / per;
        assert(long < words_needed(bits));
        let slot = j % per;
        assert(slot * bits + bits <= 64) by (nonlinear_arith)
            requires
                slot < per,
                per * bits <= 64,
        ;
        let start = slot * bits;
        let w = words[long as usize];
        let v = (w >> start) & mask;
        assert(v <= mask) by (bit_vector)
            requires
                v == (w >> start) & mask,
        ;
        assert(v == packed_value(words@, bits, j as int));
        match palette {
            Some(p) => {
                if v as usize >= p.len() {
                    assert(!palette_covers(words@, bits, pal));
                    return Err(DecodeError::PaletteIndex);
                }
                blocks[j as usize] = p[v as usize] as u16;
            },
            None => {
                blocks[j as usize] = v as u16;
            },
        }
        j = j + 1;
    }
    assert(palette_covers(words@, bits, pal));
    assert(blocks@ =~= Seq::new(4096, |i: int| resolve(pal, packed_value(words@, bits, i))));
    Ok(blocks)
}

/// Decodes one section from the stream, as section `index` of its column.
pub fn decode_section(r: &mut Reader, index: i32) -> (res: Result<ChunkSection, DecodeError>)
    requires
        old(r).wf(),
    ensures
        final(r).wf(),
        final(r).bytes() == old(r).bytes(),
        match spec_section(old(r).bytes(), old(r).pos as int) {
            Ok((b, q)) => res is Ok && res->Ok_0.blocks@ == b && res->Ok_0.y == index && final(r).pos == q,
            Err(e) => res == Err::<ChunkSection, DecodeError>(e),
        },
{
    r.skip(2)?;
    let raw = r.read_u8()?;
    let bits: u64 = if raw <= 4 {
        4
    } else if raw >= 9 {
        MAX_BITS_PER_BLOCK
    } else {
        raw as u64
    };
    assert(bits == normalize_bits(raw));
    let palette = read_palette(r, bits)?;
    let words = read_data(r, bits)?;
    let blocks = unpack_blocks(&words, bits, &palette)?;
    Ok(ChunkSection { y: index, blocks })
}

/// Decodes the sections that the bitmask marks present, in ascending index order,
/// from the concatenated section stream. Slot `i` of the result holds section `i`,
/// or nothing where the bitmask leaves it out. Any malformed section fails the whole
/// decode, naming the section.
pub fn process_sections(mask: u16, data: &[u8]) -> (res: Result<Vec<Option<ChunkSection>>, ChunkError>)
    ensures
        match spec_decode(mask, data@) {
            Ok(s) => res is Ok && res->Ok_0@.len() == 16 && forall|i: int|
                0 <= i < 16 ==> {
                    &&& #[trigger] slot_blocks(res->Ok_0@[i]) == s[i]
                    &&& res->Ok_0@[i] is Some ==> res->Ok_0@[i]->0.y == i
                },
            Err(e) => res == Err::<Vec<Option<ChunkSection>>, ChunkError>(e),
        },
{
    let mut r = Reader::new(data);
    let mut out: Vec<Option<ChunkSection>> = Vec::new();
    let ghost mut acc: Seq<Option<Seq<u16>>> = seq![];
    let mut i: usize = 0;
    while i < SECTIONS_PER_CHUNK
        invariant
            r.wf(),
            r.bytes() == data@,
            i <= 16,
            out@.len() == i,
            acc.len() == i,
            forall|k: int| 0 <= k < i ==> #[trigger] slot_blocks(out@[k]) == acc[k],
            forall|k: int| 0 <= k < i ==> out@[k] is Some ==> out@[k]->0.y == k,
            spec_decode(mask, data@) == spec_sections(mask, data@, r.pos as int, i as nat, acc),
        decreases 16 - i,
    {
        if (mask >> (i as u16)) & 1u16 != 1u16 {
            out.push(None);
            proof {
                acc = acc.push(None);
            }
        } else {
            match decode_section(&mut r, i as i32) {
                Ok(section) => {
                    proof {
                        acc = acc.push(Some(section.blocks@));
                    }
                    out.push(Some(section));
                },
                Err(e) => {
                    return Err(ChunkError { section: i, error: e });
                },
            }
        }
        i = i + 1;
    }
    Ok(out)
}

/// The palette as a sequence, if there is one.
pub open spec fn palette_view(p: &Option<Vec<i32>>) -> Option<Seq<i32>> {
    match p {
        Some(v) => Some(v@),
        None => None,
    }
}

} // verus!
