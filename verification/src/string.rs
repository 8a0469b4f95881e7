//! Serialized strings and the name hash.
//!
//! Two length-prefixed layouts are in use. [`FString32NoHash`] writes a signed
//! 32-bit count, the text and a terminating NUL; [`FString16`] writes an
//! unsigned 16-bit byte count and the text alone. Names are hashed with
//! CityHash64 over their lowercased UTF-16 little-endian form.

use crate::serialize::{
    as_signed32, lemma_pow256_values, lemma_uint_bytes_len, lemma_uint_le_roundtrip, read_i32_le,
    uint_from_le, uint_le_bytes, write_bytes, write_u16_le, write_u32_le,
};
use vstd::prelude::*;
use vstd::slice::slice_subrange;
use vstd::string::StringSliceAdditionalSpecFns;
use vstd::utf8::{char_is_scalar, decode_utf8, encode_utf8, encode_utf8_decode_utf8, valid_utf8};

verus! {

/// Identifier of the hash algorithm, written in front of a table of name
/// hashes.
pub const NAME_HASH_ALGORITHM: u64 = 0x0000_0000_C164_0000;

/// The longest text, in bytes, that the 32-bit layout can carry.
pub const FSTRING32_MAX_BYTES: usize = 0x7FFF_FFFE;

/// The longest text, in bytes, that the 16-bit layout can carry.
pub const FSTRING16_MAX_BYTES: usize = 0xFFFF;

/// CityHash64 of a byte string, as computed by `cityhasher::hash`.
pub uninterp spec fn city_hash64(data: Seq<u8>) -> u64;

/// The lowercase form of a text, as computed by `str::to_lowercase`.
pub uninterp spec fn lowercase(text: Seq<char>) -> Seq<char>;

/// The UTF-16 code units of one character, each as two little-endian bytes.
pub open spec fn char_utf16_le(c: char) -> Seq<u8> {
    let v = c as u32;
    if v < 0x1_0000 {
        uint_le_bytes(v as nat, 2)
    } else {
        uint_le_bytes((0xD800 + (v - 0x1_0000) / 0x400) as nat, 2) + uint_le_bytes(
            (0xDC00 + (v - 0x1_0000) % 0x400) as nat,
            2,
        )
    }
}

/// The UTF-16 little-endian encoding of a text, without terminator or byte
/// order mark.
pub open spec fn utf16_le_bytes(text: Seq<char>) -> Seq<u8>
    decreases text.len(),
{
    if text.len() == 0 {
        Seq::empty()
    } else {
        utf16_le_bytes(text.drop_last()) + char_utf16_le(text.last())
    }
}

/// The hash under which a name is known to the container: CityHash64 of the
/// lowercased name in UTF-16 little-endian.
pub open spec fn name_hash(text: Seq<char>) -> u64 {
    city_hash64(utf16_le_bytes(lowercase(text)))
}

/// The 32-bit layout of a text given as bytes: the count of bytes that follow
/// (the NUL included), the bytes, and a NUL.
pub open spec fn fstring32_bytes(raw: Seq<u8>) -> Seq<u8> {
    uint_le_bytes((raw.len() + 1) as nat, 4) + raw + seq![0u8]
}

/// The 16-bit layout of a text given as bytes: the byte count and the bytes.
pub open spec fn fstring16_bytes(raw: Seq<u8>) -> Seq<u8> {
    uint_le_bytes(raw.len(), 2) + raw
}

/// What a reader finds in a 32-bit-prefixed string.
#[derive(Debug)]
pub enum FStringData {
    /// A count of zero: no text at all.
    Empty,
    /// A positive count: single-byte text, given without its NUL.
    Narrow(Vec<u8>),
    /// A negative count: UTF-16 little-endian text, given as bytes without
    /// its two-byte NUL.
    Wide(Vec<u8>),
}

/// The mathematical content of an [`FStringData`].
pub enum FStringDataView {
    Empty,
    Narrow(Seq<u8>),
    Wide(Seq<u8>),
}

impl View for FStringData {
    type V = FStringDataView;

    open spec fn view(&self) -> FStringDataView {
        match self {
            FStringData::Empty => FStringDataView::Empty,
            FStringData::Narrow(b) => FStringDataView::Narrow(b@),
            FStringData::Wide(b) => FStringDataView::Wide(b@),
        }
    }
}

/// What a reader finds at `pos`, with the position after it, or nothing when
/// the buffer ends inside the string.
pub open spec fn fstring32_parse(buf: Seq<u8>, pos: int) -> Option<(FStringDataView, int)> {
    if pos < 0 || pos + 4 > buf.len() {
        None
    } else {
        let count = as_signed32(uint_from_le(buf.subrange(pos, pos + 4)));
        if count == 0 {
            Some((FStringDataView::Empty, pos + 4))
        } else if count > 0 {
            if pos + 4 + count > buf.len() {
                None
            } else {
                Some(
                    (
                        FStringDataView::Narrow(buf.subrange(pos + 4, pos + 4 + count - 1)),
                        pos + 4 + count,
                    ),
                )
            }
        } else {
            if pos + 4 + 2 * (-count) > buf.len() {
                None
            } else {
                Some(
                    (
                        FStringDataView::Wide(buf.subrange(pos + 4, pos + 4 + 2 * (-count) - 2)),
                        pos + 4 + 2 * (-count),
                    ),
                )
            }
        }
    }
}

/// Reading what [`fstring32_bytes`] describes gives the text back, wherever
/// in a buffer it stands.
pub proof fn lemma_fstring32_roundtrip(before: Seq<u8>, raw: Seq<u8>, after: Seq<u8>)
    requires
        raw.len() <= FSTRING32_MAX_BYTES,
    ensures
        fstring32_parse(before + fstring32_bytes(raw) + after, before.len() as int) == Some(
            (FStringDataView::Narrow(raw), (before.len() + 4 + raw.len() + 1) as int),
        ),
{
    let enc = fstring32_bytes(raw);
    let buf = before + enc + after;
    let pos = before.len() as int;
    let count = (raw.len() + 1) as nat;
    lemma_uint_bytes_len(count, 4);
    lemma_pow256_values();
    lemma_uint_le_roundtrip(count, 4);
    assert(buf.subrange(pos, pos + 4) =~= uint_le_bytes(count, 4));
    assert(buf.subrange(pos + 4, pos + 4 + count - 1) =~= raw);
}

/// Calls `cityhasher::hash` for a 64-bit result: CityHash64 of `data`.
#[verifier::external_body]
fn cityhash64(data: &[u8]) -> (h: u64)
    ensures
        h == city_hash64(data@),
{
    cityhasher::hash(data)
}

/// Calls `str::to_lowercase`: the lowercase form of `text`.
#[verifier::external_body]
fn to_lowercase(text: &str) -> (r: String)
    ensures
        r@ == lowercase(text@),
{
    text.to_lowercase()
}

/// Encodes `text` as UTF-16 little-endian bytes.
pub fn encode_utf16_le(text: &str) -> (out: Vec<u8>)
    ensures
        out@ == utf16_le_bytes(text@),
{
    let n = text.unicode_len();
    let mut out: Vec<u8> = Vec::new();
    let mut i: usize = 0;
    while i < n
        invariant
            n == text@.len(),
            i <= n,
            out@ == utf16_le_bytes(text@.take(i as int)),
        decreases n - i,
    {
        let c = text.get_char(i);
        let v: u32 = c as u32;
        proof {
            char_is_scalar(c);
            let next = text@.take(i + 1);
            assert(next.drop_last() =~= text@.take(i as int));
            assert(next.last() == c);
        }
        if v < 0x1_0000 {
            write_u16_le(&mut out, v as u16);
        } else {
            let high: u32 = 0xD800 + (v - 0x1_0000) / 0x400;
            let low: u32 = 0xDC00 + (v - 0x1_0000) % 0x400;
            write_u16_le(&mut out, high as u16);
            write_u16_le(&mut out, low as u16);
            assert(out@ =~= utf16_le_bytes(text@.take(i as int)) + char_utf16_le(c));
        }
        i = i + 1;
    }
    assert(text@.take(n as int) =~= text@);
    out
}

/// Hashes names for the container.
pub struct Hasher16;

impl Hasher16 {
    /// CityHash64 of the lowercased text in UTF-16 little-endian.
    pub fn get_cityhash64(text: &str) -> (h: u64)
        ensures
            h == name_hash(text@),
    {
        let lower = to_lowercase(text);
        let wide = encode_utf16_le(lower.as_str());
        cityhash64(wide.as_slice())
    }
}

/// The 32-bit-prefixed, NUL-terminated string layout, written without a hash.
pub struct FString32NoHash;

impl FString32NoHash {
    /// The number of bytes that [`FString32NoHash::to_buffer`] writes for
    /// `text`.
    pub fn get_expected_length(text: &str) -> (n: u64)
        requires
            text.spec_bytes().len() <= FSTRING32_MAX_BYTES,
        ensures
            n == fstring32_bytes(text.spec_bytes()).len(),
            n == text.spec_bytes().len() + 5,
    {
        proof {
            lemma_uint_bytes_len((text.spec_bytes().len() + 1) as nat, 4);
        }
        text.as_bytes().len() as u64 + 5
    }

    /// Appends the count, the text and the NUL.
    pub fn to_buffer(text: &str, writer: &mut Vec<u8>)
        requires
            text.spec_bytes().len() <= FSTRING32_MAX_BYTES,
        ensures
            final(writer)@ == old(writer)@ + fstring32_bytes(text.spec_bytes()),
    {
        let raw = text.as_bytes();
        write_u32_le(writer, (raw.len() + 1) as u32);
        write_bytes(writer, raw);
        writer.push(0u8);
        proof {
            assert(final(writer)@ =~= old(writer)@ + fstring32_bytes(text.spec_bytes()));
        }
    }

    /// Reads one string at `pos` and gives the position after it.
    pub fn from_buffer(buf: &[u8], pos: usize) -> (r: Option<(FStringData, usize)>)
        ensures
            match (fstring32_parse(buf@, pos as int), r) {
                (Some((data, next)), Some((found, end))) => found@ == data && end == next,
                (None, None) => true,
                _ => false,
            },
    {
        let total = buf.len();
        let prefix = read_i32_le(buf, pos);
        if prefix.is_none() {
            return None;
        }
        let count = prefix.unwrap();
        let start = pos + 4;
        let room = total - start;
        if count == 0 {
            Some((FStringData::Empty, start))
        } else if count > 0 {
            let len = count as usize;
            if len > room {
                return None;
            }
            let text = slice_subrange(buf, start, start + len - 1);
            let mut raw: Vec<u8> = Vec::new();
            write_bytes(&mut raw, text);
            assert(raw@ =~= text@);
            Some((FStringData::Narrow(raw), start + len))
        } else {
            let units: u64 = if count == i32::MIN {
                0x8000_0000
            } else {
                (-count) as u64
            };
            if units > (room / 2) as u64 {
                return None;
            }
            let len = (units * 2) as usize;
            let text = slice_subrange(buf, start, start + len - 2);
            let mut raw: Vec<u8> = Vec::new();
            write_bytes(&mut raw, text);
            assert(raw@ =~= text@);
            Some((FStringData::Wide(raw), start + len))
        }
    }
}

/// The 16-bit-prefixed string layout without terminator.
pub struct FString16;

impl FString16 {
    /// Appends the byte count and the text.
    pub fn to_buffer(text: &str, writer: &mut Vec<u8>)
        requires
            text.spec_bytes().len() <= FSTRING16_MAX_BYTES,
        ensures
            final(writer)@ == old(writer)@ + fstring16_bytes(text.spec_bytes()),
    {
        let raw = text.as_bytes();
        write_u16_le(writer, raw.len() as u16);
        write_bytes(writer, raw);
        proof {
            assert(final(writer)@ =~= old(writer)@ + fstring16_bytes(text.spec_bytes()));
        }
    }
}

/// Calls `String::from_utf8`: the text that `bytes` hold in UTF-8, or nothing
/// where they are not valid UTF-8.
#[verifier::external_body]
fn string_from_utf8(bytes: Vec<u8>) -> (r: Option<String>)
    ensures
        r is Some <==> valid_utf8(bytes@),
        r is Some ==> encode_utf8(r->0@) == bytes@,
{
    String::from_utf8(bytes).ok()
}

/// The text that `raw` holds in UTF-8, or nothing where it is not valid
/// UTF-8.
pub fn utf8_to_string(raw: &[u8]) -> (r: Option<String>)
    ensures
        r is Some <==> valid_utf8(raw@),
        r is Some ==> encode_utf8(r->0@) == raw@ && r->0@ == decode_utf8(raw@),
{
    let mut bytes: Vec<u8> = Vec::new();
    write_bytes(&mut bytes, raw);
    assert(bytes@ =~= raw@);
    let r = string_from_utf8(bytes);
    proof {
        if r is Some {
            encode_utf8_decode_utf8(r->0@);
        }
    }
    r
}

/// Whether two texts are the same, decided on their UTF-8 bytes.
pub fn str_eq(a: &str, b: &str) -> (same: bool)
    ensures
        same == (a@ == b@),
{
    let x = a.as_bytes();
    let y = b.as_bytes();
    proof {
        encode_utf8_decode_utf8(a@);
        encode_utf8_decode_utf8(b@);
    }
    if x.len() != y.len() {
        return false;
    }
    let n = x.len();
    let mut i: usize = 0;
    while i < n
        invariant
            n == x@.len(),
            n == y@.len(),
            i <= n,
            forall|j: int| 0 <= j < i ==> x@[j] == y@[j],
            a@ == b@ ==> x@ == y@,
        decreases n - i,
    {
        if x[i] != y[i] {
            return false;
        }
        i = i + 1;
    }
    assert(x@ =~= y@);
    true
}

/// The first index at which `needle` stands in `names` is `i`, when it stands
/// there and nowhere before.
pub proof fn lemma_first_index(names: Seq<Seq<char>>, needle: Seq<char>, i: int)
    requires
        0 <= i < names.len(),
        names[i] == needle,
        forall|j: int| 0 <= j < i ==> names[j] != needle,
    ensures
        names.index_of_first(needle) == Some(i),
{
    names.index_of_first_ensures(needle);
    assert(names.contains(needle));
}

/// No index is found for a text that stands nowhere in `names`.
pub proof fn lemma_no_index(names: Seq<Seq<char>>, needle: Seq<char>)
    requires
        forall|j: int| 0 <= j < names.len() ==> names[j] != needle,
    ensures
        names.index_of_first(needle) is None,
{
    names.index_of_first_ensures(needle);
}

} // verus!
