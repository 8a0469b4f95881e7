//! Fixed-width integer codecs over byte vectors.
//!
//! Every multi-byte field of the container formats handled by this crate is
//! written through the functions of this module. The byte strings they produce
//! are described by the spec functions [`uint_le_bytes`] and [`uint_be_bytes`],
//! and the values they read back by [`uint_from_le`].

use byteorder::ByteOrder;
use vstd::prelude::*;
use vstd::slice::slice_subrange;

verus! {

/// `256` raised to the power `n`.
pub open spec fn pow256(n: nat) -> nat
    decreases n,
{
    if n == 0 {
        1
    } else {
        256 * pow256((n - 1) as nat)
    }
}

/// The `n` low-order bytes of `v`, least significant byte first.
pub open spec fn uint_le_bytes(v: nat, n: nat) -> Seq<u8>
    decreases n,
{
    if n == 0 {
        Seq::empty()
    } else {
        seq![(v % 256) as u8] + uint_le_bytes(v / 256, (n - 1) as nat)
    }
}

/// The `n` low-order bytes of `v`, most significant byte first.
pub open spec fn uint_be_bytes(v: nat, n: nat) -> Seq<u8>
    decreases n,
{
    if n == 0 {
        Seq::empty()
    } else {
        uint_be_bytes(v / 256, (n - 1) as nat).push((v % 256) as u8)
    }
}

/// The number that `b` holds when read least significant byte first.
pub open spec fn uint_from_le(b: Seq<u8>) -> nat
    decreases b.len(),
{
    if b.len() == 0 {
        0
    } else {
        b[0] as nat + 256 * uint_from_le(b.drop_first())
    }
}

/// A run of `n` zero bytes.
pub open spec fn zero_bytes(n: nat) -> Seq<u8> {
    Seq::new(n, |i: int| 0u8)
}

/// The two's-complement reading of a 32-bit pattern.
pub open spec fn as_signed32(v: nat) -> int {
    if v < 0x8000_0000 {
        v as int
    } else {
        v - 0x1_0000_0000
    }
}

/// The two's-complement reading of a 64-bit pattern.
pub open spec fn as_signed64(v: nat) -> int {
    if v < 0x8000_0000_0000_0000 {
        v as int
    } else {
        v - 0x1_0000_0000_0000_0000
    }
}

/// The powers of 256 that bound the field widths used by the formats.
pub proof fn lemma_pow256_values()
    ensures
        pow256(0) == 1,
        pow256(1) == 0x100,
        pow256(2) == 0x1_0000,
        pow256(3) == 0x100_0000,
        pow256(4) == 0x1_0000_0000,
        pow256(5) == 0x100_0000_0000,
        pow256(6) == 0x1_0000_0000_0000,
        pow256(7) == 0x100_0000_0000_0000,
        pow256(8) == 0x1_0000_0000_0000_0000,
{
    reveal_with_fuel(pow256, 10);
}

/// Both encodings of an `n`-byte field are `n` bytes long.
pub proof fn lemma_uint_bytes_len(v: nat, n: nat)
    ensures
        uint_le_bytes(v, n).len() == n,
        uint_be_bytes(v, n).len() == n,
    decreases n,
{
    if n > 0 {
        lemma_uint_bytes_len(v / 256, (n - 1) as nat);
    }
}

/// A little-endian reading of `n` bytes is below `256^n`.
pub proof fn lemma_uint_from_le_bound(b: Seq<u8>)
    ensures
        uint_from_le(b) < pow256(b.len()),
    decreases b.len(),
{
    if b.len() > 0 {
        lemma_uint_from_le_bound(b.drop_first());
        assert(b.drop_first().len() == b.len() - 1);
    }
}

/// Reading back a little-endian field yields the value that was written,
/// provided the value fits the field.
pub proof fn lemma_uint_le_roundtrip(v: nat, n: nat)
    requires
        v < pow256(n),
    ensures
        uint_from_le(uint_le_bytes(v, n)) == v,
    decreases n,
{
    if n > 0 {
        let rest = uint_le_bytes(v / 256, (n - 1) as nat);
        let all = uint_le_bytes(v, n);
        assert(v / 256 < pow256((n - 1) as nat)) by (nonlinear_arith)
            requires
                v < 256 * pow256((n - 1) as nat),
        ;
        lemma_uint_le_roundtrip(v / 256, (n - 1) as nat);
        assert(all.drop_first() =~= rest);
        assert(all[0] == (v % 256) as u8);
    }
}

/// The encodings of the items of a list, one after the other.
pub open spec fn concat_bytes<T>(items: Seq<T>, enc: spec_fn(T) -> Seq<u8>) -> Seq<u8>
    decreases items.len(),
{
    if items.len() == 0 {
        Seq::empty()
    } else {
        concat_bytes(items.drop_last(), enc) + enc(items.last())
    }
}

/// Encoding a list that grew by one item appends that item's encoding.
pub proof fn lemma_concat_bytes_push<T>(items: Seq<T>, item: T, enc: spec_fn(T) -> Seq<u8>)
    ensures
        concat_bytes(items.push(item), enc) == concat_bytes(items, enc) + enc(item),
{
    assert(items.push(item).drop_last() =~= items);
}

/// Where every item takes `width` bytes, a list of `n` items takes
/// `n * width`.
pub proof fn lemma_concat_bytes_len<T>(items: Seq<T>, enc: spec_fn(T) -> Seq<u8>, width: nat)
    requires
        forall|i: int| 0 <= i < items.len() ==> (#[trigger] enc(items[i])).len() == width,
    ensures
        concat_bytes(items, enc).len() == items.len() * width,
    decreases items.len(),
{
    if items.len() > 0 {
        let front = items.drop_last();
        assert forall|i: int| 0 <= i < front.len() implies (#[trigger] enc(front[i])).len()
            == width by {
            assert(front[i] == items[i]);
        }
        lemma_concat_bytes_len(front, enc, width);
        assert(items.len() * width == front.len() * width + width) by (nonlinear_arith)
            requires
                front.len() == items.len() - 1,
        ;
    }
}

/// The encoding of a list is the encoding of its front followed by that of
/// its back.
pub proof fn lemma_concat_bytes_split<T>(items: Seq<T>, k: int, enc: spec_fn(T) -> Seq<u8>)
    requires
        0 <= k <= items.len(),
    ensures
        concat_bytes(items, enc) == concat_bytes(items.take(k), enc) + concat_bytes(
            items.skip(k),
            enc,
        ),
    decreases items.len(),
{
    if k == items.len() {
        assert(items.take(k) =~= items);
        assert(items.skip(k) =~= Seq::<T>::empty());
        assert(concat_bytes(items, enc) + Seq::<u8>::empty() =~= concat_bytes(items, enc));
    } else {
        let front = items.drop_last();
        lemma_concat_bytes_split(front, k, enc);
        assert(front.take(k) =~= items.take(k));
        assert(items.skip(k).drop_last() =~= front.skip(k));
        assert(items.skip(k).last() == items.last());
        assert(concat_bytes(items.take(k), enc) + (concat_bytes(front.skip(k), enc) + enc(
            items.last(),
        )) =~= (concat_bytes(items.take(k), enc) + concat_bytes(front.skip(k), enc)) + enc(
            items.last(),
        ));
    }
}

/// Calls `byteorder::LittleEndian::write_uint` on a scratch buffer and hands
/// back the `nbytes` bytes it filled: the value `v`, least significant byte
/// first. The outside function refuses a value that does not fit the width,
/// so the precondition leaves those out.
#[verifier::external_body]
fn le_uint_bytes(v: u64, nbytes: usize) -> (out: Vec<u8>)
    requires
        1 <= nbytes <= 8,
        (v as nat) < pow256(nbytes as nat),
    ensures
        out@ == uint_le_bytes(v as nat, nbytes as nat),
{
    let mut buf = [0u8; 8];
    byteorder::LittleEndian::write_uint(&mut buf, v, nbytes);
    buf[..nbytes].to_vec()
}

/// Calls `byteorder::BigEndian::write_uint` on a scratch buffer and hands back
/// the `nbytes` bytes it filled: the value `v`, most significant byte first.
/// The outside function refuses a value that does not fit the width, so the
/// precondition leaves those out.
#[verifier::external_body]
fn be_uint_bytes(v: u64, nbytes: usize) -> (out: Vec<u8>)
    requires
        1 <= nbytes <= 8,
        (v as nat) < pow256(nbytes as nat),
    ensures
        out@ == uint_be_bytes(v as nat, nbytes as nat),
{
    let mut buf = [0u8; 8];
    byteorder::BigEndian::write_uint(&mut buf, v, nbytes);
    buf[..nbytes].to_vec()
}

/// Calls `byteorder::LittleEndian::read_uint`: the number held by the first
/// `nbytes` bytes of `buf`, least significant byte first. The outside
/// function refuses a width outside `1..=8` and a buffer shorter than the
/// width, so the precondition leaves those out.
#[verifier::external_body]
fn le_uint_value(buf: &[u8], nbytes: usize) -> (v: u64)
    requires
        1 <= nbytes <= 8,
        nbytes <= buf@.len(),
    ensures
        v as nat == uint_from_le(buf@.subrange(0, nbytes as int)),
{
    byteorder::LittleEndian::read_uint(buf, nbytes)
}

/// Appends `bytes` to `out`.
pub fn write_bytes(out: &mut Vec<u8>, bytes: &[u8])
    ensures
        final(out)@ == old(out)@ + bytes@,
{
    let n = bytes.len();
    let mut i: usize = 0;
    while i < n
        invariant
            n == bytes@.len(),
            i <= n,
            out@ == old(out)@ + bytes@.take(i as int),
        decreases n - i,
    {
        out.push(bytes[i]);
        i = i + 1;
        assert(bytes@.take(i as int) =~= bytes@.take(i - 1).push(bytes@[i - 1]));
    }
    assert(bytes@.take(n as int) =~= bytes@);
}

/// Appends `count` zero bytes to `out`.
pub fn write_zeros(out: &mut Vec<u8>, count: usize)
    ensures
        final(out)@ == old(out)@ + zero_bytes(count as nat),
{
    let mut i: usize = 0;
    while i < count
        invariant
            i <= count,
            out@ == old(out)@ + zero_bytes(i as nat),
        decreases count - i,
    {
        out.push(0u8);
        i = i + 1;
        assert(zero_bytes(i as nat) =~= zero_bytes((i - 1) as nat).push(0u8));
    }
}

/// Appends the single byte `v`.
pub fn write_u8(out: &mut Vec<u8>, v: u8)
    ensures
        final(out)@ == old(out)@ + uint_le_bytes(v as nat, 1),
{
    out.push(v);
    proof {
        reveal_with_fuel(uint_le_bytes, 2);
        assert(uint_le_bytes(v as nat, 1) =~= seq![v]);
        assert(old(out)@.push(v) =~= old(out)@ + seq![v]);
    }
}

/// Appends `v` as `nbytes` bytes, least significant byte first.
pub fn write_uint_le(out: &mut Vec<u8>, v: u64, nbytes: usize)
    requires
        1 <= nbytes <= 8,
        (v as nat) < pow256(nbytes as nat),
    ensures
        final(out)@ == old(out)@ + uint_le_bytes(v as nat, nbytes as nat),
{
    let bytes = le_uint_bytes(v, nbytes);
    write_bytes(out, bytes.as_slice());
}

/// Appends `v` as `nbytes` bytes, most significant byte first.
pub fn write_uint_be(out: &mut Vec<u8>, v: u64, nbytes: usize)
    requires
        1 <= nbytes <= 8,
        (v as nat) < pow256(nbytes as nat),
    ensures
        final(out)@ == old(out)@ + uint_be_bytes(v as nat, nbytes as nat),
{
    let bytes = be_uint_bytes(v, nbytes);
    write_bytes(out, bytes.as_slice());
}

/// Appends `v` as two little-endian bytes.
pub fn write_u16_le(out: &mut Vec<u8>, v: u16)
    ensures
        final(out)@ == old(out)@ + uint_le_bytes(v as nat, 2),
{
    proof {
        lemma_pow256_values();
    }
    write_uint_le(out, v as u64, 2);
}

/// Appends `v` as four little-endian bytes.
pub fn write_u32_le(out: &mut Vec<u8>, v: u32)
    ensures
        final(out)@ == old(out)@ + uint_le_bytes(v as nat, 4),
{
    proof {
        lemma_pow256_values();
    }
    write_uint_le(out, v as u64, 4);
}

/// Appends `v` as eight little-endian bytes.
pub fn write_u64_le(out: &mut Vec<u8>, v: u64)
    ensures
        final(out)@ == old(out)@ + uint_le_bytes(v as nat, 8),
{
    proof {
        lemma_pow256_values();
    }
    write_uint_le(out, v, 8);
}

/// Reads `nbytes` little-endian bytes at `pos`, or nothing when the buffer
/// ends before `pos + nbytes`.
pub fn read_uint_le(buf: &[u8], pos: usize, nbytes: usize) -> (r: Option<u64>)
    requires
        1 <= nbytes <= 8,
    ensures
        r is Some <==> pos + nbytes <= buf@.len(),
        r is Some ==> r->0 as nat == uint_from_le(buf@.subrange(pos as int, pos + nbytes)),
{
    if pos > buf.len() || buf.len() - pos < nbytes {
        return None;
    }
    let part = slice_subrange(buf, pos, pos + nbytes);
    let v = le_uint_value(part, nbytes);
    proof {
        assert(part@.subrange(0, nbytes as int) =~= buf@.subrange(pos as int, pos + nbytes));
    }
    Some(v)
}

/// Reads a little-endian `u32` at `pos`.
pub fn read_u32_le(buf: &[u8], pos: usize) -> (r: Option<u32>)
    ensures
        r is Some <==> pos + 4 <= buf@.len(),
        r is Some ==> r->0 as nat == uint_from_le(buf@.subrange(pos as int, pos + 4)),
{
    match read_uint_le(buf, pos, 4) {
        Some(v) => {
            proof {
                lemma_uint_from_le_bound(buf@.subrange(pos as int, pos + 4));
                lemma_pow256_values();
            }
            Some(v as u32)
        },
        None => None,
    }
}

/// Reads a little-endian `u64` at `pos`.
pub fn read_u64_le(buf: &[u8], pos: usize) -> (r: Option<u64>)
    ensures
        r is Some <==> pos + 8 <= buf@.len(),
        r is Some ==> r->0 as nat == uint_from_le(buf@.subrange(pos as int, pos + 8)),
{
    read_uint_le(buf, pos, 8)
}

/// Reads a little-endian two's-complement `i32` at `pos`.
pub fn read_i32_le(buf: &[u8], pos: usize) -> (r: Option<i32>)
    ensures
        r is Some <==> pos + 4 <= buf@.len(),
        r is Some ==> r->0 as int == as_signed32(
            uint_from_le(buf@.subrange(pos as int, pos + 4)),
        ),
{
    match read_u32_le(buf, pos) {
        Some(v) => {
            if v < 0x8000_0000 {
                Some(v as i32)
            } else {
                let low: u32 = v - 0x8000_0000;
                Some((low as i32) + i32::MIN)
            }
        },
        None => None,
    }
}

/// Reads a little-endian two's-complement `i64` at `pos`.
pub fn read_i64_le(buf: &[u8], pos: usize) -> (r: Option<i64>)
    ensures
        r is Some <==> pos + 8 <= buf@.len(),
        r is Some ==> r->0 as int == as_signed64(
            uint_from_le(buf@.subrange(pos as int, pos + 8)),
        ),
{
    match read_u64_le(buf, pos) {
        Some(v) => {
            if v < 0x8000_0000_0000_0000 {
                Some(v as i64)
            } else {
                let low: u64 = v - 0x8000_0000_0000_0000;
                Some((low as i64) + i64::MIN)
            }
        },
        None => None,
    }
}

} // verus!
