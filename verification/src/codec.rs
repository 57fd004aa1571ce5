//! Fixed-width integers and null-terminated strings inside a byte buffer.
//!
//! The mathematical meaning of a run of bytes is given by [`le_value`] and
//! [`be_value`]; the executable readers and writers hand the work to `binrw`
//! and state their results over those two functions.

use vstd::prelude::*;

verus! {

/// Whether `width` bytes starting at `pos` lie inside a buffer of `len` bytes.
pub open spec fn in_range(len: nat, pos: int, width: int) -> bool {
    0 <= pos && 0 <= width && pos + width <= len
}

/// The `width` bytes of `s` that start at `pos`.
pub open spec fn field(s: Seq<u8>, pos: int, width: int) -> Seq<u8> {
    s.subrange(pos, pos + width)
}

/// The number that a little-endian run of bytes denotes.
pub open spec fn le_value(s: Seq<u8>) -> nat
    decreases s.len(),
{
    if s.len() == 0 {
        0
    } else {
        s[0] as nat + 256 * le_value(s.drop_first())
    }
}

/// The number that a big-endian run of bytes denotes.
pub open spec fn be_value(s: Seq<u8>) -> nat
    decreases s.len(),
{
    if s.len() == 0 {
        0
    } else {
        256 * be_value(s.drop_last()) + s.last() as nat
    }
}

/// The `n` little-endian bytes of `v` (the low `8 * n` bits of it).
pub open spec fn le_bytes(v: nat, n: nat) -> Seq<u8>
    decreases n,
{
    if n == 0 {
        Seq::empty()
    } else {
        seq![(v % 256) as u8] + le_bytes(v / 256, (n - 1) as nat)
    }
}

/// 256 to the power `n`.
pub open spec fn radix_pow(n: nat) -> nat
    decreases n,
{
    if n == 0 {
        1
    } else {
        256 * radix_pow((n - 1) as nat)
    }
}

/// A two's-complement reading of a 32-bit pattern.
pub open spec fn signed32(v: nat) -> int {
    if v >= 0x8000_0000 {
        v - 0x1_0000_0000
    } else {
        v as int
    }
}

/// The little-endian number held by the `width` bytes of `s` at `pos`.
pub open spec fn le_at(s: Seq<u8>, pos: int, width: int) -> nat {
    le_value(field(s, pos, width))
}

/// The little-endian `u16` at `pos`.
pub open spec fn u16_at(s: Seq<u8>, pos: int) -> u16 {
    le_at(s, pos, 2) as u16
}

/// The little-endian `u32` at `pos`.
pub open spec fn u32_at(s: Seq<u8>, pos: int) -> u32 {
    le_at(s, pos, 4) as u32
}

/// The little-endian `i32` at `pos`.
pub open spec fn i32_at(s: Seq<u8>, pos: int) -> i32 {
    signed32(le_at(s, pos, 4)) as i32
}

/// The little-endian `u64` at `pos`.
pub open spec fn u64_at(s: Seq<u8>, pos: int) -> u64 {
    le_at(s, pos, 8) as u64
}

/// The little-endian `u128` at `pos`.
pub open spec fn u128_at(s: Seq<u8>, pos: int) -> u128 {
    le_at(s, pos, 16) as u128
}

/// The big-endian `u64` at `pos`.
pub open spec fn be_u64_at(s: Seq<u8>, pos: int) -> u64 {
    be_value(field(s, pos, 8)) as u64
}

/// The little-endian `u16` at `pos`, if two bytes are there.
pub open spec fn u16_in(s: Seq<u8>, pos: int) -> Option<u16> {
    if in_range(s.len(), pos, 2) {
        Some(u16_at(s, pos))
    } else {
        None
    }
}

/// The little-endian `u32` at `pos`, if four bytes are there.
pub open spec fn u32_in(s: Seq<u8>, pos: int) -> Option<u32> {
    if in_range(s.len(), pos, 4) {
        Some(u32_at(s, pos))
    } else {
        None
    }
}

/// The little-endian `i32` at `pos`, if four bytes are there.
pub open spec fn i32_in(s: Seq<u8>, pos: int) -> Option<i32> {
    if in_range(s.len(), pos, 4) {
        Some(i32_at(s, pos))
    } else {
        None
    }
}

/// The little-endian `u64` at `pos`, if eight bytes are there.
pub open spec fn u64_in(s: Seq<u8>, pos: int) -> Option<u64> {
    if in_range(s.len(), pos, 8) {
        Some(u64_at(s, pos))
    } else {
        None
    }
}

/// The big-endian `u64` at `pos`, if eight bytes are there.
pub open spec fn be_u64_in(s: Seq<u8>, pos: int) -> Option<u64> {
    if in_range(s.len(), pos, 8) {
        Some(be_u64_at(s, pos))
    } else {
        None
    }
}

/// The `size` bytes of `s` from `offset` on, if they are there.
pub open spec fn slice_in(s: Seq<u8>, offset: int, size: int) -> Option<Seq<u8>> {
    if in_range(s.len(), offset, size) {
        Some(s.subrange(offset, offset + size))
    } else {
        None
    }
}

/// The index of the first zero byte of `s` at or after `pos`, if there is one.
pub open spec fn terminator(s: Seq<u8>, pos: int) -> Option<int>
    decreases s.len() - pos,
{
    if pos < 0 || pos >= s.len() {
        None
    } else if s[pos] == 0 {
        Some(pos)
    } else {
        terminator(s, pos + 1)
    }
}

/// The bytes of a buffer that follow `pos`, up to the first zero byte.
pub open spec fn c_string(s: Seq<u8>, pos: int) -> Seq<u8>
    recommends
        terminator(s, pos) is Some,
{
    s.subrange(pos, terminator(s, pos).unwrap())
}

/// The text that a run of bytes stands for when it is read as UTF-8 with
/// every malformed sequence replaced by U+FFFD.
pub uninterp spec fn lossy_text(bytes: Seq<u8>) -> Seq<char>;

/// A little-endian number of `n` bytes is below 256 to the power `n`.
pub proof fn lemma_le_value_bound(s: Seq<u8>)
    ensures
        le_value(s) < radix_pow(s.len()),
    decreases s.len(),
{
    if s.len() > 0 {
        lemma_le_value_bound(s.drop_first());
    }
}

/// The powers of 256 for the widths that are read here.
pub proof fn lemma_radix_pow_values()
    ensures
        radix_pow(1) == 0x100,
        radix_pow(2) == 0x1_0000,
        radix_pow(4) == 0x1_0000_0000,
        radix_pow(8) == 0x1_0000_0000_0000_0000,
        radix_pow(16) == 0x1_0000_0000_0000_0000_0000_0000_0000_0000,
{
    reveal_with_fuel(radix_pow, 20);
}

/// The `n` little-endian bytes of a number are `n` bytes.
pub proof fn lemma_le_bytes_len(v: nat, n: nat)
    ensures
        le_bytes(v, n).len() == n,
    decreases n,
{
    if n > 0 {
        lemma_le_bytes_len(v / 256, (n - 1) as nat);
    }
}

/// Decoding the `n` little-endian bytes of a number that fits in them gives
/// the number back.
pub proof fn lemma_le_round_trip(v: nat, n: nat)
    requires
        v < radix_pow(n),
    ensures
        le_value(le_bytes(v, n)) == v,
    decreases n,
{
    if n > 0 {
        let rest = le_bytes(v / 256, (n - 1) as nat);
        let all = le_bytes(v, n);
        assert(v / 256 < radix_pow((n - 1) as nat)) by (nonlinear_arith)
            requires
                v < 256 * radix_pow((n - 1) as nat),
        ;
        lemma_le_round_trip(v / 256, (n - 1) as nat);
        assert(all.drop_first() =~= rest);
        assert(all[0] == (v % 256) as u8);
    }
}

/// The terminator is the first zero byte from `pos` on; where there is none,
/// no byte from `pos` on is zero.
pub proof fn lemma_terminator(s: Seq<u8>, pos: int)
    ensures
        match terminator(s, pos) {
            Some(end) => {
                &&& 0 <= pos <= end < s.len()
                &&& s[end] == 0
                &&& forall|i: int| pos <= i < end ==> s[i] != 0
            },
            None => forall|i: int| 0 <= pos <= i < s.len() ==> s[i] != 0,
        },
    decreases s.len() - pos,
{
    if 0 <= pos < s.len() && s[pos] != 0 {
        lemma_terminator(s, pos + 1);
    }
}

/// Reads one little-endian `u16` with `binrw`'s `BinReaderExt::read_le`, from
/// a cursor over `data` placed at `pos`. The read succeeds exactly when two
/// bytes are there, and gives the number they denote.
#[verifier::external_body]
pub(crate) fn read_u16_le(data: &[u8], pos: usize) -> (r: Option<u16>)
    ensures
        r is Some <==> in_range(data@.len(), pos as int, 2),
        r matches Some(v) ==> v as nat == le_at(data@, pos as int, 2),
{
    let mut cursor = std::io::Cursor::new(data);
    cursor.set_position(pos as u64);
    binrw::BinReaderExt::read_le::<u16>(&mut cursor).ok()
}

/// Reads one little-endian `u32` with `binrw`'s `BinReaderExt::read_le`, from
/// a cursor over `data` placed at `pos`. The read succeeds exactly when four
/// bytes are there, and gives the number they denote.
#[verifier::external_body]
pub(crate) fn read_u32_le(data: &[u8], pos: usize) -> (r: Option<u32>)
    ensures
        r is Some <==> in_range(data@.len(), pos as int, 4),
        r matches Some(v) ==> v as nat == le_at(data@, pos as int, 4),
{
    let mut cursor = std::io::Cursor::new(data);
    cursor.set_position(pos as u64);
    binrw::BinReaderExt::read_le::<u32>(&mut cursor).ok()
}

/// Reads one little-endian `i32` with `binrw`'s `BinReaderExt::read_le`, from
/// a cursor over `data` placed at `pos`. The read succeeds exactly when four
/// bytes are there, and gives their two's-complement reading.
#[verifier::external_body]
pub(crate) fn read_i32_le(data: &[u8], pos: usize) -> (r: Option<i32>)
    ensures
        r is Some <==> in_range(data@.len(), pos as int, 4),
        r matches Some(v) ==> v as int == signed32(le_at(data@, pos as int, 4)),
{
    let mut cursor = std::io::Cursor::new(data);
    cursor.set_position(pos as u64);
    binrw::BinReaderExt::read_le::<i32>(&mut cursor).ok()
}

/// Reads one little-endian `u64` with `binrw`'s `BinReaderExt::read_le`, from
/// a cursor over `data` placed at `pos`. The read succeeds exactly when eight
/// bytes are there, and gives the number they denote.
#[verifier::external_body]
pub(crate) fn read_u64_le(data: &[u8], pos: usize) -> (r: Option<u64>)
    ensures
        r is Some <==> in_range(data@.len(), pos as int, 8),
        r matches Some(v) ==> v as nat == le_at(data@, pos as int, 8),
{
    let mut cursor = std::io::Cursor::new(data);
    cursor.set_position(pos as u64);
    binrw::BinReaderExt::read_le::<u64>(&mut cursor).ok()
}

/// Reads one little-endian `u128` with `binrw`'s `BinReaderExt::read_le`,
/// from a cursor over `data` placed at `pos`. The read succeeds exactly when
/// sixteen bytes are there, and gives the number they denote.
#[verifier::external_body]
pub(crate) fn read_u128_le(data: &[u8], pos: usize) -> (r: Option<u128>)
    ensures
        r is Some <==> in_range(data@.len(), pos as int, 16),
        r matches Some(v) ==> v as nat == le_at(data@, pos as int, 16),
{
    let mut cursor = std::io::Cursor::new(data);
    cursor.set_position(pos as u64);
    binrw::BinReaderExt::read_le::<u128>(&mut cursor).ok()
}

/// Reads one big-endian `u64` with `binrw`'s `BinReaderExt::read_be`, from a
/// cursor over `data` placed at `pos`. The read succeeds exactly when eight
/// bytes are there, and gives the number they denote.
#[verifier::external_body]
pub(crate) fn read_u64_be(data: &[u8], pos: usize) -> (r: Option<u64>)
    ensures
        r is Some <==> in_range(data@.len(), pos as int, 8),
        r matches Some(v) ==> v as nat == be_value(field(data@, pos as int, 8)),
{
    let mut cursor = std::io::Cursor::new(data);
    cursor.set_position(pos as u64);
    binrw::BinReaderExt::read_be::<u64>(&mut cursor).ok()
}

/// Reads one `binrw::NullString` from a cursor over `data` placed at `pos`:
/// the bytes before the first zero byte at or after `pos`. There is no result
/// when the buffer ends before a zero byte is met.
#[verifier::external_body]
pub(crate) fn read_null_string(data: &[u8], pos: usize) -> (r: Option<Vec<u8>>)
    ensures
        r is Some <==> terminator(data@, pos as int) is Some,
        r matches Some(v) ==> v@ == c_string(data@, pos as int),
{
    let mut cursor = std::io::Cursor::new(data);
    cursor.set_position(pos as u64);
    binrw::BinReaderExt::read_le::<binrw::NullString>(&mut cursor).ok().map(|s| s.0)
}

/// The text of a `binrw::NullString` that holds `bytes`, as its `Display`
/// impl writes it.
#[verifier::external_body]
pub(crate) fn null_string_text(bytes: Vec<u8>) -> (r: String)
    ensures
        r@ == lossy_text(bytes@),
{
    binrw::NullString(bytes).to_string()
}

/// Appends the four little-endian bytes of `v` to `out` with `binrw`'s
/// `BinWriterExt::write_le`, through a cursor placed at the end of `out`.
#[verifier::external_body]
pub(crate) fn write_u32_le(out: &mut Vec<u8>, v: u32)
    ensures
        final(out)@ == old(out)@ + le_bytes(v as nat, 4),
{
    let end = out.len() as u64;
    let mut cursor = std::io::Cursor::new(out);
    cursor.set_position(end);
    let _ = binrw::BinWriterExt::write_le(&mut cursor, &v);
}

/// Appends the eight little-endian bytes of `v` to `out` with `binrw`'s
/// `BinWriterExt::write_le`, through a cursor placed at the end of `out`.
#[verifier::external_body]
pub(crate) fn write_u64_le(out: &mut Vec<u8>, v: u64)
    ensures
        final(out)@ == old(out)@ + le_bytes(v as nat, 8),
{
    let end = out.len() as u64;
    let mut cursor = std::io::Cursor::new(out);
    cursor.set_position(end);
    let _ = binrw::BinWriterExt::write_le(&mut cursor, &v);
}

/// Whether `width` bytes at `pos` lie inside `data`.
pub fn fits(data: &[u8], pos: usize, width: usize) -> (r: bool)
    ensures
        r == in_range(data@.len(), pos as int, width as int),
        data@.len() <= usize::MAX,
{
    pos <= data.len() && width <= data.len() - pos
}

/// The place `pos` as an index into `data`, if it is no further than the end.
pub fn place(data: &[u8], pos: u64) -> (r: Option<usize>)
    ensures
        data@.len() <= usize::MAX,
        r == if pos <= data@.len() {
            Some(pos as usize)
        } else {
            None
        },
{
    if pos <= data.len() as u64 {
        Some(pos as usize)
    } else {
        None
    }
}

/// Reads the `u32` at `pos`, which the caller knows to be there.
pub(crate) fn get_u32(data: &[u8], pos: usize) -> (r: u32)
    requires
        in_range(data@.len(), pos as int, 4),
    ensures
        r == u32_at(data@, pos as int),
{
    read_u32_le(data, pos).unwrap()
}

/// Reads the `u64` at `pos`, which the caller knows to be there.
pub(crate) fn get_u64(data: &[u8], pos: usize) -> (r: u64)
    requires
        in_range(data@.len(), pos as int, 8),
    ensures
        r == u64_at(data@, pos as int),
{
    read_u64_le(data, pos).unwrap()
}

/// Reads the `u128` at `pos`, which the caller knows to be there.
pub(crate) fn get_u128(data: &[u8], pos: usize) -> (r: u128)
    requires
        in_range(data@.len(), pos as int, 16),
    ensures
        r == u128_at(data@, pos as int),
{
    read_u128_le(data, pos).unwrap()
}

/// Reads the little-endian `u16` at `pos`.
pub fn read_u16(data: &[u8], pos: u64) -> (r: Option<u16>)
    ensures
        r == u16_in(data@, pos as int),
        data@.len() <= usize::MAX,
{
    match place(data, pos) {
        Some(at) => read_u16_le(data, at),
        None => None,
    }
}

/// Reads the little-endian `u32` at `pos`.
pub fn read_u32(data: &[u8], pos: u64) -> (r: Option<u32>)
    ensures
        r == u32_in(data@, pos as int),
        data@.len() <= usize::MAX,
{
    match place(data, pos) {
        Some(at) => read_u32_le(data, at),
        None => None,
    }
}

/// Reads the little-endian `i32` at `pos`.
pub fn read_i32(data: &[u8], pos: u64) -> (r: Option<i32>)
    ensures
        r == i32_in(data@, pos as int),
        data@.len() <= usize::MAX,
{
    match place(data, pos) {
        Some(at) => read_i32_le(data, at),
        None => None,
    }
}

/// Reads the little-endian `u64` at `pos`.
pub fn read_u64(data: &[u8], pos: u64) -> (r: Option<u64>)
    ensures
        r == u64_in(data@, pos as int),
        data@.len() <= usize::MAX,
{
    match place(data, pos) {
        Some(at) => read_u64_le(data, at),
        None => None,
    }
}

/// Reads the big-endian `u64` at `pos`.
pub fn read_be_u64(data: &[u8], pos: u64) -> (r: Option<u64>)
    ensures
        r == be_u64_in(data@, pos as int),
        data@.len() <= usize::MAX,
{
    match place(data, pos) {
        Some(at) => read_u64_be(data, at),
        None => None,
    }
}

/// Copies the `size` bytes of `data` from `offset` on, if they are there.
pub fn read_slice(data: &[u8], offset: u64, size: u64) -> (r: Option<Vec<u8>>)
    ensures
        match r {
            Some(v) => slice_in(data@, offset as int, size as int) == Some(v@),
            None => slice_in(data@, offset as int, size as int) is None,
        },
        data@.len() <= usize::MAX,
{
    let len: u64 = data.len() as u64;
    if offset > len || size > len - offset {
        return None;
    }
    let from: usize = offset as usize;
    let to: usize = (offset + size) as usize;
    Some(vstd::slice::slice_to_vec(vstd::slice::slice_subrange(data, from, to)))
}

/// Reads the null-terminated string at `pos`: the bytes before the first
/// zero byte at or after `pos`, if there is one.
pub fn read_c_string(data: &[u8], pos: u64) -> (r: Option<Vec<u8>>)
    ensures
        r is Some <==> terminator(data@, pos as int) is Some,
        r matches Some(v) ==> v@ == c_string(data@, pos as int),
        data@.len() <= usize::MAX,
{
    match place(data, pos) {
        Some(at) => read_null_string(data, at),
        None => None,
    }
}

} // verus!
