//! Packing block values into words, the inverse of what the section decoder reads.
use vstd::prelude::*;
use crate::section::{lemma_width_facts, low_mask, packed_value, per_word, resolve, spec_unpack, words_needed};

verus! {

/// Entry `j` of `vals`, or zero past its end.
pub open spec fn entry(vals: Seq<u64>, j: int) -> u64 {
    if 0 <= j < vals.len() {
        vals[j]
    } else {
        0
    }
}

/// Word `k` of a packed section holding only its first `m` entries: entry `i` of the
/// word sits at bit `i * bits`.
pub open spec fn pack_word(vals: Seq<u64>, bits: u64, k: int, m: nat) -> u64
    decreases m,
{
    if m == 0 {
        0
    } else {
        let i = m - 1;
        pack_word(vals, bits, k, i as nat) | (entry(vals, k * per_word(bits) + i) << ((i * bits) as u64))
    }
}

/// The words of a section packed at `bits` per entry.
pub open spec fn pack(vals: Seq<u64>, bits: u64) -> Seq<u64> {
    Seq::new(words_needed(bits) as nat, |k: int| pack_word(vals, bits, k, per_word(bits) as nat))
}

proof fn lemma_bits_new_entry(w: u64, v: u64, s: u64, b: u64, mask: u64)
    requires
        1 <= b <= 15,
        s + b <= 64,
        mask == (1u64 << b) - 1,
        v <= mask,
        s < 64,
        w >> s == 0,
    ensures
        ((w | (v << s)) >> s) & mask == v,
{
    assert(((w | (v << s)) >> s) & mask == v) by (bit_vector)
        requires
            1 <= b <= 15,
            s + b <= 64,
            mask == (1u64 << b) - 1,
            v <= mask,
            s < 64,
            w >> s == 0,
    ;
}

proof fn lemma_bits_old_entry(w: u64, v: u64, s: u64, t: u64, b: u64, mask: u64)
    requires
        1 <= b <= 15,
        t + b <= s,
        s + b <= 64,
        mask == (1u64 << b) - 1,
        v <= mask,
    ensures
        ((w | (v << s)) >> t) & mask == (w >> t) & mask,
{
    assert(((w | (v << s)) >> t) & mask == (w >> t) & mask) by (bit_vector)
        requires
            1 <= b <= 15,
            t + b <= s,
            s + b <= 64,
            mask == (1u64 << b) - 1,
            v <= mask,
    ;
}

proof fn lemma_bits_bound(w: u64, v: u64, s: u64, b: u64, mask: u64)
    requires
        1 <= b <= 15,
        s + b < 64,
        mask == (1u64 << b) - 1,
        v <= mask,
        w >> s == 0,
    ensures
        (w | (v << s)) >> ((s + b) as u64) == 0,
{
    assert((w | (v << s)) >> ((s + b) as u64) == 0) by (bit_vector)
        requires
            1 <= b <= 15,
            s + b < 64,
            mask == (1u64 << b) - 1,
            v <= mask,
            w >> s == 0,
    ;
}

proof fn lemma_pack_word(vals: Seq<u64>, bits: u64, k: int, m: nat)
    requires
        4 <= bits <= 8 || bits == 15,
        m <= per_word(bits),
        forall|j: int| 0 <= j < vals.len() ==> #[trigger] vals[j] <= low_mask(bits),
    ensures
        forall|i: int|
            0 <= i < m ==> (#[trigger] (pack_word(vals, bits, k, m) >> ((i * bits) as u64))) & low_mask(bits)
                == entry(vals, k * per_word(bits) + i),
        m * bits < 64 ==> pack_word(vals, bits, k, m) >> ((m * bits) as u64) == 0,
    decreases m,
{
    lemma_width_facts(bits);
    let mask = low_mask(bits);
    if m == 0 {
        assert(0u64 >> 0u64 == 0) by (bit_vector);
    } else {
        let i = (m - 1) as nat;
        lemma_pack_word(vals, bits, k, i);
        let w = pack_word(vals, bits, k, i);
        let v = entry(vals, k * per_word(bits) + i);
        assert(1u64 <= (1u64 << bits) <= 0x8000) by (bit_vector)
            requires
                4 <= bits <= 15,
        ;
        assert(v <= mask);
        assert(m * bits <= 64 && i * bits < 64 && i * bits + bits == m * bits) by (nonlinear_arith)
            requires
                m <= per_word(bits),
                per_word(bits) * bits <= 64,
                i == m - 1,
                bits >= 4,
        ;
        let s = (i * bits) as u64;
        assert forall|t: int| 0 <= t < m implies (#[trigger] (pack_word(vals, bits, k, m) >> ((t
            * bits) as u64))) & mask == entry(vals, k * per_word(bits) + t) by {
            if t < i {
                assert(t * bits + bits <= i * bits) by (nonlinear_arith)
                    requires
                        t < i,
                        bits >= 0,
                ;
                lemma_bits_old_entry(w, v, s, (t * bits) as u64, bits, mask);
            } else {
                lemma_bits_new_entry(w, v, s, bits, mask);
            }
        }
        if m * bits < 64 {
            lemma_bits_bound(w, v, s, bits, mask);
            assert((s + bits) as u64 == (m * bits) as u64) by (nonlinear_arith)
                requires
                    s == i * bits,
                    i == m - 1,
            ;
        }
    }
}

/// Packing values that fit the width and reading them back gives the same values:
/// slot by slot, and as a whole section, directly or through a palette that covers them.
pub proof fn lemma_pack_round_trip(vals: Seq<u64>, bits: u64)
    requires
        4 <= bits <= 8 || bits == 15,
        vals.len() == 4096,
        forall|j: int| 0 <= j < 4096 ==> #[trigger] vals[j] <= low_mask(bits),
    ensures
        pack(vals, bits).len() == words_needed(bits),
        forall|j: int| 0 <= j < 4096 ==> #[trigger] packed_value(pack(vals, bits), bits, j) == vals[j],
        spec_unpack(pack(vals, bits), bits, None) == Ok::<Seq<u16>, crate::reader::DecodeError>(
            Seq::new(4096, |j: int| vals[j] as u16),
        ),
        forall|p: Seq<i32>|
            (forall|j: int| 0 <= j < 4096 ==> #[trigger] vals[j] < p.len()) ==> spec_unpack(
                pack(vals, bits),
                bits,
                Some(p),
            ) == Ok::<Seq<u16>, crate::reader::DecodeError>(Seq::new(4096, |j: int| p[vals[j] as int] as u16)),
{
    lemma_width_facts(bits);
    let per = per_word(bits);
    let words = pack(vals, bits);
    assert forall|j: int| 0 <= j < 4096 implies #[trigger] packed_value(words, bits, j) == vals[j] by {
        let k = j / per;
        let i = j % per;
        assert(k < words_needed(bits));
        lemma_pack_word(vals, bits, k, per as nat);
        assert(k * per + i == j) by (nonlinear_arith)
            requires
                k == j / per,
                i == j % per,
                per > 0,
        ;
        assert(0 <= i < per);
        assert((pack_word(vals, bits, k, per as nat) >> ((i * bits) as u64)) & low_mask(bits) == entry(
            vals,
            k * per + i,
        ));
    }
    assert(spec_unpack(words, bits, None) == Ok::<Seq<u16>, crate::reader::DecodeError>(
        Seq::new(4096, |j: int| vals[j] as u16),
    )) by {
        assert(Seq::new(4096, |j: int| resolve(None, packed_value(words, bits, j))) =~= Seq::new(
            4096,
            |j: int| vals[j] as u16,
        ));
    }
    assert forall|p: Seq<i32>| (forall|j: int| 0 <= j < 4096 ==> #[trigger] vals[j] < p.len()) implies spec_unpack(
        words,
        bits,
        Some(p),
    ) == Ok::<Seq<u16>, crate::reader::DecodeError>(Seq::new(4096, |j: int| p[vals[j] as int] as u16)) by {
        assert(Seq::new(4096, |j: int| resolve(Some(p), packed_value(words, bits, j))) =~= Seq::new(
            4096,
            |j: int| p[vals[j] as int] as u16,
        ));
    }
}

} // verus!
