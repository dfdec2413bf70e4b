//! Reading the primitive fields of the section stream: bytes, variable-length
//! integers and big-endian 64-bit words.
use vstd::prelude::*;

verus! {

/// Why a payload could not be decoded.
#[derive(Clone, Copy, Debug, PartialEq, Eq, Structural)]
pub enum DecodeError {
    /// The stream ended before a declared field was complete; `offset` is where the field began.
    Truncated { offset: usize },
    /// A variable-length integer ran over five bytes; `offset` is where it began.
    VarintTooLong { offset: usize },
    /// A declared element count was negative.
    NegativeLength { offset: usize },
    /// The packed array does not have the length that the section's bit width implies.
    ArrayLength { declared: i32, expected: usize },
    /// A packed value does not index into the section's palette.
    PaletteIndex,
}

/// The 32-bit two's-complement reading of the low 32 bits of `v`.
pub open spec fn wrap_i32(v: int) -> i32 {
    let u = v % 0x1_0000_0000;
    if u < 0x8000_0000 {
        u as i32
    } else {
        (u - 0x1_0000_0000) as i32
    }
}

/// Continues decoding a variable-length integer that started at `start`, after `k`
/// of its bytes have added up to `acc`. Yields the accumulated value and the position
/// after the last byte.
pub open spec fn varint_from(d: Seq<u8>, start: int, k: nat, acc: int) -> Result<(int, int), DecodeError>
    decreases 5 - k,
{
    if k >= 5 {
        Err(DecodeError::VarintTooLong { offset: start as usize })
    } else if start + k >= d.len() {
        Err(DecodeError::Truncated { offset: start as usize })
    } else {
        let b = d[start + k] as int;
        let acc2 = acc + (b % 128) * pow128(k);
        if b < 128 {
            Ok((acc2, start + k + 1))
        } else {
            varint_from(d, start, k + 1, acc2)
        }
    }
}

/// `128` to the power `k`.
pub open spec fn pow128(k: nat) -> int
    decreases k,
{
    if k == 0 {
        1
    } else {
        128 * pow128((k - 1) as nat)
    }
}

/// The variable-length integer at `p`: seven bits per byte, least significant group
/// first, high bit set on every byte but the last, at most five bytes.
pub open spec fn spec_varint(d: Seq<u8>, p: int) -> Result<(i32, int), DecodeError> {
    match varint_from(d, p, 0, 0) {
        Ok((v, q)) => Ok((wrap_i32(v), q)),
        Err(e) => Err(e),
    }
}

/// Reads `n` more variable-length integers from `p`, after `acc` were read.
pub open spec fn spec_varints(d: Seq<u8>, p: int, n: nat, acc: Seq<i32>) -> Result<(Seq<i32>, int), DecodeError>
    decreases n,
{
    if n == 0 {
        Ok((acc, p))
    } else {
        match spec_varint(d, p) {
            Ok((v, q)) => spec_varints(d, q, (n - 1) as nat, acc.push(v)),
            Err(e) => Err(e),
        }
    }
}

/// The unsigned value of a big-endian byte sequence.
pub open spec fn be_value(s: Seq<u8>) -> nat
    decreases s.len(),
{
    if s.len() == 0 {
        0
    } else {
        be_value(s.drop_last()) * 256 + s.last() as nat
    }
}

/// Reads `n` more big-endian 64-bit words from `p`, after `acc` were read.
pub open spec fn spec_words(d: Seq<u8>, p: int, n: nat, acc: Seq<u64>) -> Result<(Seq<u64>, int), DecodeError>
    decreases n,
{
    if n == 0 {
        Ok((acc, p))
    } else if p + 8 > d.len() {
        Err(DecodeError::Truncated { offset: p as usize })
    } else {
        spec_words(d, p + 8, (n - 1) as nat, acc.push(be_value(d.subrange(p, p + 8)) as u64))
    }
}

/// Reading `n` words yields `n` more words.
pub proof fn lemma_words_len(d: Seq<u8>, p: int, n: nat, acc: Seq<u64>)
    ensures
        spec_words(d, p, n, acc) is Ok ==> spec_words(d, p, n, acc)->Ok_0.0.len() == acc.len() + n,
    decreases n,
{
    if n > 0 && p + 8 <= d.len() {
        lemma_words_len(d, p + 8, (n - 1) as nat, acc.push(be_value(d.subrange(p, p + 8)) as u64));
    }
}

proof fn lemma_pow128_bound(k: nat)
    requires
        k <= 4,
    ensures
        1 <= pow128(k) <= 0x1000_0000,
{
    reveal_with_fuel(pow128, 5);
}

proof fn lemma_be_value_bound(s: Seq<u8>)
    ensures
        be_value(s) < pow256(s.len()),
    decreases s.len(),
{
    if s.len() > 0 {
        lemma_be_value_bound(s.drop_last());
        let a = be_value(s.drop_last());
        let p = pow256(s.drop_last().len());
        let b = s.last() as nat;
        assert(a * 256 + b < p * 256) by (nonlinear_arith)
            requires
                a < p,
                b < 256,
        ;
    }
}

/// `256` to the power `k`.
pub open spec fn pow256(k: nat) -> nat
    decreases k,
{
    if k == 0 {
        1
    } else {
        256 * pow256((k - 1) as nat)
    }
}

/// A cursor over a byte stream.
pub struct Reader<'a> {
    pub data: &'a [u8],
    pub pos: usize,
}

impl<'a> Reader<'a> {
    pub open spec fn bytes(&self) -> Seq<u8> {
        self.data@
    }

    pub open spec fn wf(&self) -> bool {
        self.pos <= self.data@.len()
    }

    pub fn new(data: &'a [u8]) -> (r: Reader<'a>)
        ensures
            r.bytes() == data@,
            r.pos == 0,
            r.wf(),
    {
        Reader { data, pos: 0 }
    }

    /// Reads `n` raw bytes, discarding them.
    pub fn skip(&mut self, n: usize) -> (r: Result<(), DecodeError>)
        requires
            old(self).wf(),
        ensures
            final(self).wf(),
            final(self).bytes() == old(self).bytes(),
            old(self).pos + n <= old(self).bytes().len() ==> r is Ok && final(self).pos == old(self).pos + n,
            old(self).pos + n > old(self).bytes().len() ==> r == Err::<(), DecodeError>(
                DecodeError::Truncated { offset: old(self).pos },
            ),
    {
        if n > self.data.len() - self.pos {
            Err(DecodeError::Truncated { offset: self.pos })
        } else {
            self.pos = self.pos + n;
            Ok(())
        }
    }

    /// Reads one byte.
    pub fn read_u8(&mut self) -> (r: Result<u8, DecodeError>)
        requires
            old(self).wf(),
        ensures
            final(self).wf(),
            final(self).bytes() == old(self).bytes(),
            old(self).pos < old(self).bytes().len() ==> r == Ok::<u8, DecodeError>(
                old(self).bytes()[old(self).pos as int],
            ) && final(self).pos == old(self).pos + 1,
            old(self).pos >= old(self).bytes().len() ==> r == Err::<u8, DecodeError>(
                DecodeError::Truncated { offset: old(self).pos },
            ),
    {
        if self.pos >= self.data.len() {
            Err(DecodeError::Truncated { offset: self.pos })
        } else {
            let b = self.data[self.pos];
            self.pos = self.pos + 1;
            Ok(b)
        }
    }

    /// Reads one variable-length integer.
    pub fn read_varint(&mut self) -> (r: Result<i32, DecodeError>)
        requires
            old(self).wf(),
        ensures
            final(self).wf(),
            final(self).bytes() == old(self).bytes(),
            match spec_varint(old(self).bytes(), old(self).pos as int) {
                Ok((v, q)) => r == Ok::<i32, DecodeError>(v) && final(self).pos == q,
                Err(e) => r == Err::<i32, DecodeError>(e),
            },
    {
        let start = self.pos;
        let ghost d = self.data@;
        let mut k: usize = 0;
        let mut acc: u64 = 0;
        let mut mult: u64 = 1;
        while k < 5
            invariant
                self.wf(),
                self.data@ == d,
                d == old(self).data@,
                start == old(self).pos,
                self.pos == start,
                start <= d.len(),
                k <= 5,
                mult == pow128(k as nat),
                k < 5 ==> mult <= 0x1000_0000,
                acc < mult,
                varint_from(d, start as int, 0, 0) == varint_from(d, start as int, k as nat, acc as int),
            decreases 5 - k,
        {
            proof {
                lemma_pow128_bound(k as nat);
            }
            if k >= self.data.len() - start {
                return Err(DecodeError::Truncated { offset: start });
            }
            let b = self.data[start + k];
            let low = (b % 128) as u64;
            assert(low * mult <= 127 * mult) by (nonlinear_arith)
                requires
                    low <= 127,
            ;
            acc = acc + low * mult;
            if b < 128 {
                self.pos = start + k + 1;
                let u = acc % 0x1_0000_0000;
                if u < 0x8000_0000 {
                    return Ok(u as i32);
                } else {
                    return Ok((u as i64 - 0x1_0000_0000) as i32);
                }
            }
            proof {
                if k < 4 {
                    lemma_pow128_bound((k + 1) as nat);
                }
            }
            mult = mult * 128;
            k = k + 1;
        }
        Err(DecodeError::VarintTooLong { offset: start })
    }

    /// Reads one big-endian 64-bit word.
    pub fn read_word(&mut self) -> (r: Result<u64, DecodeError>)
        requires
            old(self).wf(),
        ensures
            final(self).wf(),
            final(self).bytes() == old(self).bytes(),
            old(self).pos + 8 <= old(self).bytes().len() ==> r == Ok::<u64, DecodeError>(
                be_value(old(self).bytes().subrange(old(self).pos as int, old(self).pos + 8)) as u64,
            ) && final(self).pos == old(self).pos + 8,
            old(self).pos + 8 > old(self).bytes().len() ==> r == Err::<u64, DecodeError>(
                DecodeError::Truncated { offset: old(self).pos },
            ),
    {
        if 8 > self.data.len() - self.pos {
            return Err(DecodeError::Truncated { offset: self.pos });
        }
        let start = self.pos;
        let ghost d = self.data@;
        let mut acc: u64 = 0;
        let mut k: usize = 0;
        while k < 8
            invariant
                self.data@ == d,
                start + 8 <= self.data.len(),
                k <= 8,
                acc == be_value(d.subrange(start as int, start + k)),
            decreases 8 - k,
        {
            let ghost s = d.subrange(start as int, start + k + 1);
            assert(s.drop_last() == d.subrange(start as int, start + k));
            proof {
                lemma_be_value_bound(d.subrange(start as int, start + k));
                reveal_with_fuel(pow256, 8);
            }
            let b = self.data[start + k];
            assert(acc * 256 + b < 0x1_0000_0000_0000_0000) by (nonlinear_arith)
                requires
                    acc < pow256(k as nat),
                    k < 8,
                    b < 256,
                    pow256(k as nat) <= pow256(7),
                    pow256(7) == 0x100_0000_0000_0000,
            ;
            acc = acc * 256 + b as u64;
            k = k + 1;
        }
        self.pos = start + 8;
        Ok(acc)
    }
}

} // verus!
