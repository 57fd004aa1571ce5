//! The name database: one compressed block that holds, for a set of
//! identifiers, a human-readable name each.

use crate::codec::{
    in_range, lossy_text, null_string_text, read_c_string, read_slice, read_u32, read_u64,
    slice_in, terminator, u32_at, u64_in,
};
use crate::error::ExtractError;
use crate::outside::{lz4_block, lz4_decompress};
use std::collections::HashMap;
use vstd::prelude::*;

verus! {

broadcast use vstd::std_specs::hash::group_hash_axioms;

/// The four bytes `PNDB`, read as a little-endian number.
pub const PNDB_MAGIC: u32 = 0x4244_4E50;

/// The size of the head of a name database.
pub const PNDB_HEAD: u64 = 16;

/// A table from raw identifiers to names.
#[derive(Clone, Debug)]
pub struct Pndb {
    pub name_database: HashMap<u64, String>,
}

/// The texts of a map of strings.
pub open spec fn names_of(m: Map<u64, String>) -> Map<u64, Seq<char>> {
    Map::new(|k: u64| m.contains_key(k), |k: u64| m[k]@)
}

impl View for Pndb {
    type V = Map<u64, Seq<char>>;

    open spec fn view(&self) -> Map<u64, Seq<char>> {
        names_of(self.name_database@)
    }
}

/// What reading `n` null-terminated strings one after the other gives,
/// starting at `pos` with the strings `acc` already read: all strings, and
/// the place after the last. `None` when the buffer ends inside a string.
pub open spec fn names_from(s: Seq<u8>, pos: int, n: nat, acc: Seq<Seq<u8>>) -> Option<
    (Seq<Seq<u8>>, int),
>
    decreases n,
{
    if n == 0 {
        Some((acc, pos))
    } else {
        match terminator(s, pos) {
            None => None,
            Some(end) => names_from(s, end + 1, (n - 1) as nat, acc.push(s.subrange(pos, end))),
        }
    }
}

/// The table of the first `k` names: identifier `i` stands at `pos + 8 * i`
/// and belongs to name `i`; a later pair replaces an earlier one of the same
/// identifier. `None` when the buffer ends before identifier `k - 1` does.
pub open spec fn name_pairs(s: Seq<u8>, pos: int, names: Seq<Seq<u8>>, k: nat) -> Option<
    Map<u64, Seq<char>>,
>
    decreases k,
{
    if k == 0 {
        Some(Map::empty())
    } else {
        match (name_pairs(s, pos, names, (k - 1) as nat), u64_in(s, pos + 8 * (k - 1))) {
            (Some(acc), Some(id)) => Some(acc.insert(id, lossy_text(names[k - 1]))),
            _ => None,
        }
    }
}

/// The table that a decompressed block holds: `count` names, then `count`
/// identifiers.
pub open spec fn block_names(plain: Seq<u8>, count: nat) -> Option<Map<u64, Seq<char>>> {
    match names_from(plain, 0, count, Seq::empty()) {
        None => None,
        Some((names, end)) => name_pairs(plain, end, names, count),
    }
}

/// The table of a name database.
///
/// The database opens with the magic number, the count of names, the size
/// of the compressed block and the size of what it decompresses to; the
/// block follows.
pub open spec fn pndb_names(s: Seq<u8>) -> Option<Map<u64, Seq<char>>> {
    if !in_range(s.len(), 0, PNDB_HEAD as int) || u32_at(s, 0) != PNDB_MAGIC {
        None
    } else {
        match slice_in(s, PNDB_HEAD as int, u32_at(s, 8) as int) {
            None => None,
            Some(packed) => match lz4_block(packed, u32_at(s, 12) as nat) {
                None => None,
                Some(plain) => block_names(plain, u32_at(s, 4) as nat),
            },
        }
    }
}

/// Once an identifier cannot be read, no longer table can.
proof fn lemma_name_pairs_fail(s: Seq<u8>, pos: int, names: Seq<Seq<u8>>, n: nat, m: nat)
    requires
        n <= m,
        name_pairs(s, pos, names, n) is None,
    ensures
        name_pairs(s, pos, names, m) is None,
    decreases m - n,
{
    if n < m {
        lemma_name_pairs_fail(s, pos, names, n, (m - 1) as nat);
    }
}

/// Reads the table that a decompressed block holds.
pub fn read_block_names(plain: &[u8], count: u32) -> (r: Option<HashMap<u64, String>>)
    ensures
        match r {
            Some(table) => block_names(plain@, count as nat) == Some(names_of(table@)),
            None => block_names(plain@, count as nat) is None,
        },
{
    let _len = plain.len();
    let mut vals: Vec<String> = Vec::new();
    let ghost mut names: Seq<Seq<u8>> = Seq::empty();
    let mut pos: u64 = 0;
    let mut i: u32 = 0;
    while i < count
        invariant
            i <= count,
            pos <= plain@.len() <= usize::MAX,
            names.len() == i,
            vals@.len() == i,
            forall|j: int| 0 <= j < i ==> (#[trigger] vals@[j])@ == lossy_text(names[j]),
            names_from(plain@, 0, count as nat, Seq::empty()) == names_from(
                plain@,
                pos as int,
                (count - i) as nat,
                names,
            ),
        decreases count - i,
    {
        let bytes = match read_c_string(plain, pos) {
            Some(b) => b,
            None => {
                return None;
            },
        };
        proof {
            crate::codec::lemma_terminator(plain@, pos as int);
            names = names.push(bytes@);
        }
        pos = pos + bytes.len() as u64 + 1;
        vals.push(null_string_text(bytes));
        i = i + 1;
    }
    let mut table: HashMap<u64, String> = HashMap::new();
    let mut k: u32 = 0;
    assert(names_of(table@) =~= Map::<u64, Seq<char>>::empty());
    while k < count
        invariant
            k <= count,
            pos <= plain@.len() <= usize::MAX,
            names.len() == count,
            vals@.len() == count,
            forall|j: int| 0 <= j < count ==> (#[trigger] vals@[j])@ == lossy_text(names[j]),
            block_names(plain@, count as nat) == name_pairs(
                plain@,
                pos as int,
                names,
                count as nat,
            ),
            name_pairs(plain@, pos as int, names, k as nat) == Some(names_of(table@)),
        decreases count - k,
    {
        let at: u64 = pos + 8 * (k as u64);
        let id = match read_u64(plain, at) {
            Some(v) => v,
            None => {
                proof {
                    lemma_name_pairs_fail(
                        plain@,
                        pos as int,
                        names,
                        (k + 1) as nat,
                        count as nat,
                    );
                }
                return None;
            },
        };
        let name = vals[k as usize].clone();
        let ghost before = names_of(table@);
        table.insert(id, name);
        assert(names_of(table@) =~= before.insert(id, lossy_text(names[k as int])));
        k = k + 1;
    }
    Some(table)
}

impl Pndb {
    /// A name database without names.
    pub fn new() -> (r: Self)
        ensures
            r@ == Map::<u64, Seq<char>>::empty(),
    {
        let r = Pndb { name_database: HashMap::new() };
        assert(r@ =~= Map::<u64, Seq<char>>::empty());
        r
    }

    /// Reads a name database. Bytes that do not open with the magic number,
    /// that end before the block does, whose block does not decompress into
    /// the announced size, or whose block ends before the last identifier
    /// does, are rejected.
    pub fn from_bytes(data: &[u8]) -> (r: Result<Pndb, ExtractError>)
        ensures
            match r {
                Ok(db) => pndb_names(data@) == Some(db@),
                Err(e) => e == ExtractError::Format && pndb_names(data@) is None,
            },
    {
        let len: u64 = data.len() as u64;
        if len < 16 {
            return Err(ExtractError::Format);
        }
        if read_u32(data, 0).unwrap() != PNDB_MAGIC {
            return Err(ExtractError::Format);
        }
        let count = read_u32(data, 4).unwrap();
        let packed_len = read_u32(data, 8).unwrap();
        let plain_len = read_u32(data, 12).unwrap();
        let packed = match read_slice(data, 16, packed_len as u64) {
            Some(p) => p,
            None => {
                return Err(ExtractError::Format);
            },
        };
        let plain = match lz4_decompress(packed.as_slice(), plain_len as usize) {
            Ok(p) => p,
            Err(_) => {
                return Err(ExtractError::Format);
            },
        };
        match read_block_names(plain.as_slice(), count) {
            Some(name_database) => Ok(Pndb { name_database }),
            None => Err(ExtractError::Format),
        }
    }

    /// The name that the database has for an identifier.
    pub fn name_of(&self, id: u64) -> (r: Option<&String>)
        ensures
            match r {
                Some(name) => self@.contains_key(id) && self@[id] == name@,
                None => !self@.contains_key(id),
            },
    {
        self.name_database.get(&id)
    }
}

/// Reads a name database from the bytes of its file.
pub fn read_pndb(data: &[u8]) -> (r: Result<Pndb, ExtractError>)
    ensures
        match r {
            Ok(db) => pndb_names(data@) == Some(db@),
            Err(e) => e == ExtractError::Format && pndb_names(data@) is None,
        },
{
    Pndb::from_bytes(data)
}

impl Default for Pndb {
    fn default() -> (r: Self)
        ensures
            r@ == Map::<u64, Seq<char>>::empty(),
    {
        Pndb::new()
    }
}

} // verus!
