//! Checksum engine: an incremental CRC8 fold (polynomial 0x07, most
//! significant bit first, zero initial value) over bytes, little-endian
//! words and whole blobs.  Every row and cell of the binary row codec
//! carries one of these checksums.

use vstd::prelude::*;

verus! {

/// One shift step of the CRC8 register: shift left by one bit and, when a
/// one bit falls out, fold the polynomial 0x07 back in.
pub open spec fn crc8_shift(x: u8) -> u8 {
    if x & 0x80 != 0 {
        (x << 1) ^ 0x07
    } else {
        x << 1
    }
}

/// `k` shift steps of the CRC8 register.
pub open spec fn crc8_shift_n(x: u8, k: nat) -> u8
    decreases k,
{
    if k == 0 {
        x
    } else {
        crc8_shift_n(crc8_shift(x), (k - 1) as nat)
    }
}

/// The CRC8 state after folding one byte into `state`.
pub open spec fn spec_crc8(state: u8, b: u8) -> u8 {
    crc8_shift_n(state ^ b, 8)
}

/// The CRC8 state after folding a whole byte sequence into `state`,
/// first byte first.
pub open spec fn spec_crc8_bytes(state: u8, s: Seq<u8>) -> u8
    decreases s.len(),
{
    if s.len() == 0 {
        state
    } else {
        spec_crc8_bytes(spec_crc8(state, s[0]), s.drop_first())
    }
}

/// The four bytes of `v` in little-endian order.
pub open spec fn spec_le4(v: u32) -> Seq<u8> {
    seq![v as u8, (v >> 8) as u8, (v >> 16) as u8, (v >> 24) as u8]
}

/// The eight bytes of `v` in little-endian order.
pub open spec fn spec_le8(v: u64) -> Seq<u8> {
    seq![
        v as u8,
        (v >> 8) as u8,
        (v >> 16) as u8,
        (v >> 24) as u8,
        (v >> 32) as u8,
        (v >> 40) as u8,
        (v >> 48) as u8,
        (v >> 56) as u8,
    ]
}

/// Folding a sequence extended by one byte equals folding the sequence and
/// then the byte.
pub proof fn lemma_crc8_bytes_push(state: u8, s: Seq<u8>, b: u8)
    ensures
        spec_crc8_bytes(state, s.push(b)) == spec_crc8(spec_crc8_bytes(state, s), b),
    decreases s.len(),
{
    if s.len() == 0 {
        assert(s.push(b)[0] == b);
        assert(s.push(b).drop_first() =~= Seq::<u8>::empty());
        assert(spec_crc8_bytes(spec_crc8(state, b), Seq::<u8>::empty()) == spec_crc8(state, b));
    } else {
        assert(s.push(b)[0] == s[0]);
        assert(s.push(b).drop_first() =~= s.drop_first().push(b));
        lemma_crc8_bytes_push(spec_crc8(state, s[0]), s.drop_first(), b);
    }
}

/// Folding a single byte as a sequence is one plain fold step.
pub proof fn lemma_crc8_one(state: u8, b: u8)
    ensures
        spec_crc8_bytes(state, seq![b]) == spec_crc8(state, b),
{
    assert(seq![b].drop_first() =~= Seq::<u8>::empty());
    assert(spec_crc8_bytes(spec_crc8(state, b), Seq::<u8>::empty()) == spec_crc8(state, b));
}

/// Folding a concatenation equals folding the two parts in order.
pub proof fn lemma_crc8_bytes_concat(state: u8, a: Seq<u8>, b: Seq<u8>)
    ensures
        spec_crc8_bytes(state, a + b) == spec_crc8_bytes(spec_crc8_bytes(state, a), b),
    decreases a.len(),
{
    if a.len() == 0 {
        assert(a + b =~= b);
    } else {
        assert((a + b).drop_first() =~= a.drop_first() + b);
        lemma_crc8_bytes_concat(spec_crc8(state, a[0]), a.drop_first(), b);
    }
}

/// Folds one byte into the running checksum.
pub fn crc8_u8(checksum: &mut u8, b: u8)
    ensures
        *final(checksum) == spec_crc8(*old(checksum), b),
{
    let mut x: u8 = *checksum ^ b;
    let mut i: usize = 0;
    while i < 8
        invariant
            i <= 8,
            crc8_shift_n(x, (8 - i) as nat) == spec_crc8(*old(checksum), b),
        decreases 8 - i,
    {
        x = if x & 0x80 != 0 {
            (x << 1u8) ^ 0x07
        } else {
            x << 1u8
        };
        i = i + 1;
    }
    *checksum = x;
}

/// Folds a whole blob into the running checksum, first byte first.
pub fn crc8_blob(checksum: &mut u8, bytes: &[u8])
    ensures
        *final(checksum) == spec_crc8_bytes(*old(checksum), bytes@),
{
    let start: u8 = *checksum;
    let mut i: usize = 0;
    while i < bytes.len()
        invariant
            i <= bytes@.len(),
            *checksum == spec_crc8_bytes(start, bytes@.take(i as int)),
        decreases bytes@.len() - i,
    {
        proof {
            assert(bytes@.take(i + 1) =~= bytes@.take(i as int).push(bytes@[i as int]));
            lemma_crc8_bytes_push(start, bytes@.take(i as int), bytes@[i as int]);
        }
        crc8_u8(checksum, bytes[i]);
        i = i + 1;
    }
    proof {
        assert(bytes@.take(bytes@.len() as int) =~= bytes@);
    }
}

/// Folds the four little-endian bytes of `v` into the running checksum.
pub fn crc8_u32(checksum: &mut u8, v: u32)
    ensures
        *final(checksum) == spec_crc8_bytes(*old(checksum), spec_le4(v)),
{
    let start: Ghost<u8> = Ghost(*checksum);
    crc8_u8(checksum, v as u8);
    crc8_u8(checksum, (v >> 8u32) as u8);
    crc8_u8(checksum, (v >> 16u32) as u8);
    crc8_u8(checksum, (v >> 24u32) as u8);
    proof {
        reveal_crc8_le4(start@, v);
    }
}

/// Folds the eight little-endian bytes of `v` into the running checksum.
pub fn crc8_u64(checksum: &mut u8, v: u64)
    ensures
        *final(checksum) == spec_crc8_bytes(*old(checksum), spec_le8(v)),
{
    let start: Ghost<u8> = Ghost(*checksum);
    crc8_u8(checksum, v as u8);
    crc8_u8(checksum, (v >> 8u64) as u8);
    crc8_u8(checksum, (v >> 16u64) as u8);
    crc8_u8(checksum, (v >> 24u64) as u8);
    crc8_u8(checksum, (v >> 32u64) as u8);
    crc8_u8(checksum, (v >> 40u64) as u8);
    crc8_u8(checksum, (v >> 48u64) as u8);
    crc8_u8(checksum, (v >> 56u64) as u8);
    proof {
        reveal_crc8_le8(start@, v);
    }
}

/// Unfolds the four-byte fold of `spec_le4` into single-byte folds.
proof fn reveal_crc8_le4(state: u8, v: u32)
    ensures
        spec_crc8_bytes(state, spec_le4(v)) == spec_crc8(
            spec_crc8(spec_crc8(spec_crc8(state, v as u8), (v >> 8) as u8), (v >> 16) as u8),
            (v >> 24) as u8,
        ),
{
    let e = Seq::<u8>::empty();
    let s1 = e.push(v as u8);
    let s2 = s1.push((v >> 8) as u8);
    let s3 = s2.push((v >> 16) as u8);
    assert(spec_le4(v) =~= s3.push((v >> 24) as u8));
    lemma_crc8_bytes_push(state, s3, (v >> 24) as u8);
    lemma_crc8_bytes_push(state, s2, (v >> 16) as u8);
    lemma_crc8_bytes_push(state, s1, (v >> 8) as u8);
    lemma_crc8_bytes_push(state, e, v as u8);
}

/// Unfolds the eight-byte fold of `spec_le8` into single-byte folds.
proof fn reveal_crc8_le8(state: u8, v: u64)
    ensures
        spec_crc8_bytes(state, spec_le8(v)) == spec_crc8(
            spec_crc8(
                spec_crc8(
                    spec_crc8(
                        spec_crc8(
                            spec_crc8(
                                spec_crc8(spec_crc8(state, v as u8), (v >> 8) as u8),
                                (v >> 16) as u8,
                            ),
                            (v >> 24) as u8,
                        ),
                        (v >> 32) as u8,
                    ),
                    (v >> 40) as u8,
                ),
                (v >> 48) as u8,
            ),
            (v >> 56) as u8,
        ),
{
    let e = Seq::<u8>::empty();
    let s1 = e.push(v as u8);
    let s2 = s1.push((v >> 8) as u8);
    let s3 = s2.push((v >> 16) as u8);
    let s4 = s3.push((v >> 24) as u8);
    let s5 = s4.push((v >> 32) as u8);
    let s6 = s5.push((v >> 40) as u8);
    let s7 = s6.push((v >> 48) as u8);
    assert(spec_le8(v) =~= s7.push((v >> 56) as u8));
    lemma_crc8_bytes_push(state, s7, (v >> 56) as u8);
    lemma_crc8_bytes_push(state, s6, (v >> 48) as u8);
    lemma_crc8_bytes_push(state, s5, (v >> 40) as u8);
    lemma_crc8_bytes_push(state, s4, (v >> 32) as u8);
    lemma_crc8_bytes_push(state, s3, (v >> 24) as u8);
    lemma_crc8_bytes_push(state, s2, (v >> 16) as u8);
    lemma_crc8_bytes_push(state, s1, (v >> 8) as u8);
    lemma_crc8_bytes_push(state, e, v as u8);
}

} // verus!
