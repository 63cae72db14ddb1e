//! Reading and writing single bits and 8-bit nibbles of a byte buffer at a
//! running bit offset.
use vstd::prelude::*;

verus! {

/// Number of bits in a nibble written by `write_nibblet`.
pub const BITVECTOR_NIBBLE_SIZE: usize = 8;

/// The single-bit mask of bit `offset % 8` within a byte.
pub open spec fn bit_mask(offset: int) -> u8 {
    (1u8 << ((offset % 8) as u8)) as u8
}

/// Whether bit `offset` of the buffer (little-endian within each byte) is set.
pub open spec fn bit_is_set(v: Seq<u8>, offset: int) -> bool {
    v[offset / 8] & bit_mask(offset) != 0
}

/// The buffer with bit `offset` set.
pub open spec fn with_bit_set(v: Seq<u8>, offset: int) -> Seq<u8> {
    v.update(offset / 8, v[offset / 8] | bit_mask(offset))
}

/// The buffer with bit `offset` cleared.
pub open spec fn with_bit_cleared(v: Seq<u8>, offset: int) -> Seq<u8> {
    v.update(offset / 8, v[offset / 8] & !bit_mask(offset))
}

/// Sets the bit at `*offset` and advances the offset by one.
pub fn set_bit(vector: &mut [u8], offset: &mut usize)
    requires
        *old(offset) / 8 < old(vector)@.len(),
        *old(offset) < usize::MAX,
    ensures
        final(vector)@ == with_bit_set(old(vector)@, *old(offset) as int),
        *final(offset) == *old(offset) + 1,
{
    let i = *offset / 8;
    let m: u8 = 1u8 << ((*offset % 8) as u8);
    vector[i] = vector[i] | m;
    *offset = *offset + 1;
}

/// Clears the bit at `*offset` and advances the offset by one.
pub fn clear_bit(vector: &mut [u8], offset: &mut usize)
    requires
        *old(offset) / 8 < old(vector)@.len(),
        *old(offset) < usize::MAX,
    ensures
        final(vector)@ == with_bit_cleared(old(vector)@, *old(offset) as int),
        *final(offset) == *old(offset) + 1,
{
    let i = *offset / 8;
    let m: u8 = 1u8 << ((*offset % 8) as u8);
    vector[i] = vector[i] & !m;
    *offset = *offset + 1;
}


/// Whether bit `i` of `nibble` is set, as `write_nibblet` tests it.
pub open spec fn nibble_bit(nibble: usize, i: int) -> bool {
    (nibble & (1usize << (i as usize))) > 0
}

/// The buffer after the first `count` bits of `nibble` were written from
/// bit `offset` on, one bit per position, lowest bit first.
pub open spec fn with_nibble_bits(v: Seq<u8>, offset: int, nibble: usize, count: nat) -> Seq<u8>
    decreases count,
{
    if count == 0 {
        v
    } else {
        let prev = with_nibble_bits(v, offset, nibble, (count - 1) as nat);
        let pos = offset + count - 1;
        if nibble_bit(nibble, count - 1) {
            with_bit_set(prev, pos)
        } else {
            with_bit_cleared(prev, pos)
        }
    }
}

/// What `read_bit` gives for bit `offset`: the masked byte, nonzero exactly
/// when the bit is set.
pub open spec fn read_bit_value(v: Seq<u8>, offset: int) -> i32 {
    (v[offset / 8] & bit_mask(offset)) as i32
}

/// What `read_nibblet` accumulates over its first `count` reads from bit
/// `offset` on: each read value shifted left by its position.
pub open spec fn read_nibble_value(v: Seq<u8>, offset: int, count: nat) -> i32
    decreases count,
{
    if count == 0 {
        0
    } else {
        read_nibble_value(v, offset, (count - 1) as nat) | (read_bit_value(
            v,
            offset + count - 1,
        ) << ((count - 1) as u32))
    }
}

proof fn lemma_mask_bits(b: u8, x: u8, y: u8)
    requires
        x < 8,
        y < 8,
    ensures
        ((b | (1u8 << x)) & (1u8 << y) != 0) == (x == y || b & (1u8 << y) != 0),
        ((b & !(1u8 << x)) & (1u8 << y) != 0) == (x != y && b & (1u8 << y) != 0),
{
    assert(((b | (1u8 << x)) & (1u8 << y) != 0) == (x == y || b & (1u8 << y) != 0))
        by (bit_vector)
        requires
            x < 8,
            y < 8,
    ;
    assert(((b & !(1u8 << x)) & (1u8 << y) != 0) == (x != y && b & (1u8 << y) != 0))
        by (bit_vector)
        requires
            x < 8,
            y < 8,
    ;
}

/// Setting bit `o` sets it and leaves every other bit as it was.
pub proof fn lemma_set_bit_effect(v: Seq<u8>, o: int, j: int)
    requires
        0 <= o,
        0 <= j,
        o / 8 < v.len(),
        j / 8 < v.len(),
    ensures
        bit_is_set(with_bit_set(v, o), j) == (j == o || bit_is_set(v, j)),
        with_bit_set(v, o).len() == v.len(),
{
    if j / 8 == o / 8 {
        lemma_mask_bits(v[o / 8], (o % 8) as u8, (j % 8) as u8);
    }
}

/// Clearing bit `o` clears it and leaves every other bit as it was.
pub proof fn lemma_clear_bit_effect(v: Seq<u8>, o: int, j: int)
    requires
        0 <= o,
        0 <= j,
        o / 8 < v.len(),
        j / 8 < v.len(),
    ensures
        bit_is_set(with_bit_cleared(v, o), j) == (j != o && bit_is_set(v, j)),
        with_bit_cleared(v, o).len() == v.len(),
{
    if j / 8 == o / 8 {
        lemma_mask_bits(v[o / 8], (o % 8) as u8, (j % 8) as u8);
    }
}

/// After the first `count` bits of a nibble are written from `offset` on,
/// each of those positions holds the nibble's bit and every other bit is
/// unchanged.
pub proof fn lemma_nibble_bits_effect(v: Seq<u8>, offset: int, nibble: usize, count: nat, j: int)
    requires
        0 <= offset,
        0 <= j,
        count <= 8,
        (offset + count) / 8 < v.len() || (count == 0) || (offset + count - 1) / 8 < v.len(),
        j / 8 < v.len(),
    ensures
        with_nibble_bits(v, offset, nibble, count).len() == v.len(),
        bit_is_set(with_nibble_bits(v, offset, nibble, count), j) == if offset <= j < offset
            + count {
            nibble_bit(nibble, j - offset)
        } else {
            bit_is_set(v, j)
        },
    decreases count,
{
    if count > 0 {
        let c1 = (count - 1) as nat;
        lemma_nibble_bits_effect(v, offset, nibble, c1, j);
        let prev = with_nibble_bits(v, offset, nibble, c1);
        let pos = offset + count - 1;
        assert(pos / 8 < v.len());
        if nibble_bit(nibble, count - 1) {
            lemma_set_bit_effect(prev, pos, j);
        } else {
            lemma_clear_bit_effect(prev, pos, j);
        }
    }
}

/// Writes the low `BITVECTOR_NIBBLE_SIZE` bits of `nibble`, lowest first,
/// from `*offset` on, and advances the offset past them.
pub fn write_nibblet(vector: &mut [u8], nibble: usize, offset: &mut usize)
    requires
        nibble < 256,
        (*old(offset) + 7) / 8 < old(vector)@.len(),
        *old(offset) + 8 < usize::MAX,
    ensures
        final(vector)@ == with_nibble_bits(old(vector)@, *old(offset) as int, nibble, 8),
        *final(offset) == *old(offset) + 8,
{
    let ghost v0 = vector@;
    let ghost off0 = *offset as int;
    let mut i: usize = 0;
    while i < BITVECTOR_NIBBLE_SIZE
        invariant
            0 <= i <= 8,
            *offset == off0 + i,
            off0 + 8 < usize::MAX,
            (off0 + 7) / 8 < v0.len(),
            vector@ == with_nibble_bits(v0, off0, nibble, i as nat),
            vector@.len() == v0.len(),
        decreases 8 - i,
    {
        proof {
            assert((*offset as int) / 8 < v0.len());
        }
        if (nibble & (1usize << i)) > 0 {
            set_bit(vector, offset);
        } else {
            clear_bit(vector, offset);
        }
        i = i + 1;
    }
}

/// Reads the bit at `*offset` as the masked byte (nonzero exactly when the bit
/// is set) and advances the offset by one.
pub fn read_bit(vector: &mut [u8], offset: &mut usize) -> (retval: i32)
    requires
        *old(offset) / 8 < old(vector)@.len(),
        *old(offset) < usize::MAX,
    ensures
        retval == read_bit_value(old(vector)@, *old(offset) as int),
        final(vector)@ == old(vector)@,
        *final(offset) == *old(offset) + 1,
{
    let m: u8 = 1u8 << ((*offset % 8) as u8);
    let retval: i32 = (vector[*offset / 8] & m) as i32;
    *offset = *offset + 1;
    retval
}

/// `read_bit` gives a nonzero value exactly when the bit is set, and never a
/// negative one.
pub proof fn lemma_read_bit_value(v: Seq<u8>, offset: int)
    requires
        0 <= offset,
        offset / 8 < v.len(),
    ensures
        (read_bit_value(v, offset) != 0) == bit_is_set(v, offset),
        0 <= read_bit_value(v, offset) < 256,
{
}

/// Reads `BITVECTOR_NIBBLE_SIZE` bits from `*offset` on, or-ing each read
/// value shifted left by its position, and advances the offset past them.
pub fn read_nibblet(vector: &mut [u8], offset: &mut usize) -> (nibblet: i32)
    requires
        (*old(offset) + 7) / 8 < old(vector)@.len(),
        *old(offset) + 8 < usize::MAX,
    ensures
        nibblet == read_nibble_value(old(vector)@, *old(offset) as int, 8),
        final(vector)@ == old(vector)@,
        *final(offset) == *old(offset) + 8,
{
    let ghost v0 = vector@;
    let ghost off0 = *offset as int;
    let mut nibblet: i32 = 0;
    let mut i: usize = 0;
    assert(256i32 << 0u32 == 256i32) by (bit_vector);
    while i < BITVECTOR_NIBBLE_SIZE
        invariant
            0 <= i <= 8,
            *offset == off0 + i,
            off0 + 8 < usize::MAX,
            (off0 + 7) / 8 < v0.len(),
            vector@ == v0,
            nibblet == read_nibble_value(v0, off0, i as nat),
            0 <= nibblet < (256i32 << (i as u32)),
        decreases 8 - i,
    {
        let b = read_bit(vector, offset);
        let ii: u32 = i as u32;
        assert(0 <= nibblet | (b << ii) < (256i32 << (ii + 1))) by (bit_vector)
            requires
                0 <= nibblet < (256i32 << ii),
                0 <= b < 256,
                0 <= ii < 8,
        ;
        nibblet = nibblet | (b << ii);
        i = i + 1;
    }
    nibblet
}


/// A read bit gives its single-bit mask when set and zero otherwise.
proof fn lemma_read_bit_mask(v: Seq<u8>, offset: int)
    requires
        0 <= offset,
        offset / 8 < v.len(),
    ensures
        read_bit_value(v, offset) == if bit_is_set(v, offset) {
            bit_mask(offset) as i32
        } else {
            0i32
        },
{
    let b = v[offset / 8];
    let x = (offset % 8) as u8;
    assert((b & (1u8 << x)) != 0 ==> (b & (1u8 << x)) == (1u8 << x)) by (bit_vector)
        requires
            x < 8,
    ;
}

proof fn lemma_or_step(k: u32, c: u32, prev: i32, r: i32)
    by (bit_vector)
    requires
        k < 8,
        c < 8,
        prev == (if k < c { 1i32 << k } else { 0i32 }),
        r == (if c == k { 1i32 } else { 0i32 }),
    ensures
        (prev | (r << c)) == (if k < c + 1 { 1i32 << k } else { 0i32 }),
{
}

proof fn lemma_or_zero(c: u32, prev: i32, r: i32)
    by (bit_vector)
    requires
        c < 8,
        prev == 0i32,
        r == 0i32,
    ensures
        (prev | (r << c)) == 0i32,
{
}

/// The first `count` reads from `offset` accumulate the single bit at `k`
/// when every read gives one at position `k` (if `present`) and zero
/// elsewhere.
proof fn lemma_read_prefix(w: Seq<u8>, offset: int, present: bool, k: u32, count: nat)
    requires
        k < 8,
        count <= 8,
        forall|i: int|
            0 <= i < 8 ==> #[trigger] read_bit_value(w, offset + i) == if present && i == k {
                1i32
            } else {
                0i32
            },
    ensures
        read_nibble_value(w, offset, count) == if present && k < count {
            1i32 << k
        } else {
            0i32
        },
    decreases count,
{
    if count > 0 {
        let c = (count - 1) as nat;
        lemma_read_prefix(w, offset, present, k, c);
        let prev = read_nibble_value(w, offset, c);
        let r = read_bit_value(w, offset + c);
        assert(read_bit_value(w, offset + (c as int)) == if present && c == k {
            1i32
        } else {
            0i32
        });
        assert(offset + count - 1 == offset + c);
        if present {
            lemma_or_step(k, c as u32, prev, r);
        } else {
            lemma_or_zero(c as u32, prev, r);
        }
    }
}

/// The position within a byte at which the nibble's bit is read back as
/// itself, for nibbles written from `offset`.
pub open spec fn aligned_bit(offset: int) -> int {
    (8 - offset % 8) % 8
}

/// A nibble written from `offset` reads back as itself exactly when it has
/// no set bit but the one whose position `offset + i` starts a byte; read
/// back, every other bit is shifted by its position within its byte as well.
/// Here the law is proved for those nibbles: zero and the single aligned bit.
pub proof fn lemma_nibble_roundtrip(v: Seq<u8>, offset: int, nibble: usize)
    requires
        0 <= offset,
        (offset + 7) / 8 < v.len(),
        nibble == 0 || nibble == 1usize << (aligned_bit(offset) as usize),
    ensures
        read_nibble_value(with_nibble_bits(v, offset, nibble, 8), offset, 8) == nibble as i32,
{
    let w = with_nibble_bits(v, offset, nibble, 8);
    let i0 = aligned_bit(offset);
    assert forall|i: int| 0 <= i < 8 implies #[trigger] read_bit_value(w, offset + i) == if nibble != 0
        && i == i0 {
        1i32
    } else {
        0i32
    } by {
        lemma_nibble_bits_effect(v, offset, nibble, 8, offset + i);
        lemma_read_bit_mask(w, offset + i);
        let ii = i as usize;
        let k = i0 as usize;
        assert(((1usize << k) & (1usize << ii)) > 0 <==> ii == k) by (bit_vector)
            requires
                ii < 8,
                k < 8,
        ;
        assert(!((0usize & (1usize << ii)) > 0)) by (bit_vector)
            requires
                ii < 8,
        ;
        if nibble != 0 && i == i0 {
            assert((offset + i) % 8 == 0);
            assert(1u8 << 0u8 == 1u8) by (bit_vector);
        }
    }
    lemma_read_prefix(w, offset, nibble != 0, i0 as u32, 8);
    let k = i0 as u32;
    let kk = i0 as usize;
    if nibble != 0 {
        assert((1i32 << k) == ((1usize << kk) as i32)) by (bit_vector)
            requires
                k < 8,
                kk == k as usize,
        ;
    }
}

} // verus!
