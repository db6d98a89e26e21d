//! The byte-level pieces of the wire format: big-endian integers,
//! variable-length integers, and arrays of small values packed into 64-bit
//! words.

use vstd::prelude::*;

verus! {

/// The two bytes of `v`, most significant first.
pub open spec fn be_u16_bytes(v: u16) -> Seq<u8> {
    seq![(v / 256) as u8, (v % 256) as u8]
}

/// Byte `k` of `v`, counted from the least significant one.
pub open spec fn byte_of(v: u64, k: nat) -> u8
    recommends
        k < 8,
{
    if k == 0 {
        (v % 256) as u8
    } else if k == 1 {
        (v / 0x100 % 256) as u8
    } else if k == 2 {
        (v / 0x1_0000 % 256) as u8
    } else if k == 3 {
        (v / 0x100_0000 % 256) as u8
    } else if k == 4 {
        (v / 0x1_0000_0000 % 256) as u8
    } else if k == 5 {
        (v / 0x100_0000_0000 % 256) as u8
    } else if k == 6 {
        (v / 0x1_0000_0000_0000 % 256) as u8
    } else {
        (v / 0x100_0000_0000_0000 % 256) as u8
    }
}

/// The eight bytes of `v`, most significant first.
pub open spec fn be_u64_bytes(v: u64) -> Seq<u8> {
    seq![
        byte_of(v, 7),
        byte_of(v, 6),
        byte_of(v, 5),
        byte_of(v, 4),
        byte_of(v, 3),
        byte_of(v, 2),
        byte_of(v, 1),
        byte_of(v, 0),
    ]
}

/// The variable-length form of a 32-bit number: seven bits per byte, least
/// significant group first, the top bit of a byte set when another byte
/// follows. A signed number is written as its 32 bits read as unsigned, so a
/// negative number takes five bytes.
pub open spec fn var_int_bytes(v: u32) -> Seq<u8>
    decreases v,
{
    if v < 128 {
        seq![v as u8]
    } else {
        seq![(v % 128 + 128) as u8] + var_int_bytes(v / 128)
    }
}

/// Appends one byte.
pub fn write_u8(buf: &mut Vec<u8>, v: u8)
    ensures
        final(buf)@ == old(buf)@.push(v),
{
    buf.push(v);
}

/// Appends `v` as two bytes, most significant first.
pub fn write_u16(buf: &mut Vec<u8>, v: u16)
    ensures
        final(buf)@ == old(buf)@ + be_u16_bytes(v),
{
    buf.push((v / 256) as u8);
    buf.push((v % 256) as u8);
    assert(buf@ =~= old(buf)@ + be_u16_bytes(v));
}

/// Appends `v` as eight bytes, most significant first.
pub fn write_u64(buf: &mut Vec<u8>, v: u64)
    ensures
        final(buf)@ == old(buf)@ + be_u64_bytes(v),
{
    buf.push((v / 0x100_0000_0000_0000 % 256) as u8);
    buf.push((v / 0x1_0000_0000_0000 % 256) as u8);
    buf.push((v / 0x100_0000_0000 % 256) as u8);
    buf.push((v / 0x1_0000_0000 % 256) as u8);
    buf.push((v / 0x100_0000 % 256) as u8);
    buf.push((v / 0x1_0000 % 256) as u8);
    buf.push((v / 0x100 % 256) as u8);
    buf.push((v % 256) as u8);
    assert(buf@ =~= old(buf)@ + be_u64_bytes(v));
}

/// Appends the variable-length form of `v`.
pub fn write_var_u32(buf: &mut Vec<u8>, v: u32)
    ensures
        final(buf)@ == old(buf)@ + var_int_bytes(v),
{
    let mut rest: u32 = v;
    while rest >= 128
        invariant
            buf@ + var_int_bytes(rest) == old(buf)@ + var_int_bytes(v),
        decreases rest,
    {
        let ghost before = buf@;
        buf.push((rest % 128 + 128) as u8);
        assert(buf@ + var_int_bytes(rest / 128) =~= before + var_int_bytes(rest));
        rest = rest / 128;
    }
    let ghost before = buf@;
    buf.push(rest as u8);
    assert(buf@ =~= before + var_int_bytes(rest));
}

/// One 64-bit word holding `vals` side by side: value `i` is shifted left by
/// `i * bits` places and the shifted values are or-ed together.
pub open spec fn pack_word(vals: Seq<u64>, bits: nat) -> u64
    decreases vals.len(),
{
    if vals.len() == 0 {
        0
    } else {
        pack_word(vals.drop_last(), bits) | (vals.last() << (((vals.len() - 1) * bits) as u64))
    }
}

/// The words of `vals` when `per_word` values go into each word: the first
/// `per_word` values make the first word, and so on; the last word may be
/// partly filled. Each word is written as eight bytes, most significant
/// first.
pub open spec fn packed_words(vals: Seq<u64>, bits: nat, per_word: nat) -> Seq<u8>
    decreases vals.len(),
{
    if vals.len() == 0 || per_word < 1 {
        Seq::empty()
    } else if vals.len() <= per_word {
        be_u64_bytes(pack_word(vals, bits))
    } else {
        be_u64_bytes(pack_word(vals.take(per_word as int), bits)) + packed_words(
            vals.skip(per_word as int),
            bits,
            per_word,
        )
    }
}

/// The packed form of `vals`: as many values of `bits` bits as fit go into
/// each 64-bit word, and no value straddles two words.
pub open spec fn packed_bytes(vals: Seq<u64>, bits: nat) -> Seq<u8>
    recommends
        1 <= bits <= 64,
{
    packed_words(vals, bits, 64nat / bits)
}

/// Appends the packed form of `vals`.
pub fn write_packed(buf: &mut Vec<u8>, vals: &Vec<u64>, bits: usize)
    requires
        1 <= bits <= 64,
    ensures
        final(buf)@ == old(buf)@ + packed_bytes(vals@, bits as nat),
{
    let per_word: usize = 64 / bits;
    assert(1 <= per_word <= 64 && (per_word - 1) * bits < 64) by (nonlinear_arith)
        requires
            per_word == 64usize / bits,
            1 <= bits <= 64,
    ;
    let len = vals.len();
    let mut start: usize = 0;
    assert(vals@.skip(0) =~= vals@);
    while start < len
        invariant
            1 <= bits <= 64,
            per_word == 64usize / bits,
            1 <= per_word <= 64,
            (per_word - 1) * bits < 64,
            len == vals.len(),
            start <= len,
            buf@ + packed_words(vals@.skip(start as int), bits as nat, per_word as nat) == old(
                buf,
            )@ + packed_words(vals@, bits as nat, per_word as nat),
        decreases len - start,
    {
        let count: usize = if len - start <= per_word {
            len - start
        } else {
            per_word
        };
        let mut word: u64 = 0;
        let mut i: usize = 0;
        assert(vals@.subrange(start as int, start as int) =~= Seq::<u64>::empty());
        while i < count
            invariant
                1 <= bits <= 64,
                (per_word - 1) * bits < 64,
                count <= per_word,
                start + count <= len,
                len == vals.len(),
                i <= count,
                word == pack_word(vals@.subrange(start as int, start + i), bits as nat),
            decreases count - i,
        {
            assert(i * bits <= (per_word - 1) * bits) by (nonlinear_arith)
                requires
                    i <= per_word - 1,
                    1 <= bits,
            ;
            let shift: u64 = (i * bits) as u64;
            let ghost taken = vals@.subrange(start as int, start + i + 1);
            assert(taken.drop_last() =~= vals@.subrange(start as int, start + i));
            word = word | (vals[start + i] << shift);
            i = i + 1;
        }
        let ghost rest = vals@.skip(start as int);
        let ghost before = buf@;
        write_u64(buf, word);
        proof {
            assert(vals@.subrange(start as int, start + count) =~= rest.take(count as int));
            if len - start <= per_word {
                assert(rest.take(count as int) =~= rest);
                assert(vals@.skip(start + count) =~= Seq::<u64>::empty());
                assert(buf@ + packed_words(vals@.skip(start + count), bits as nat, per_word as nat)
                    =~= before + packed_words(rest, bits as nat, per_word as nat));
            } else {
                assert(rest.skip(per_word as int) =~= vals@.skip(start + count));
                assert(buf@ + packed_words(vals@.skip(start + count), bits as nat, per_word as nat)
                    =~= before + packed_words(rest, bits as nat, per_word as nat));
            }
        }
        start = start + count;
    }
    assert(vals@.skip(len as int) =~= Seq::<u64>::empty());
    assert(buf@ + packed_words(vals@.skip(len as int), bits as nat, per_word as nat) =~= buf@);
}

} // verus!
