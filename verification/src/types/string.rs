//! String tables: a table from string identifiers to null-terminated texts,
//! written out as a JSON object.

use crate::codec::{
    c_string, in_range, lossy_text, null_string_text, read_c_string, read_u32, terminator, u32_at,
};
use crate::error::ExtractError;
use crate::outside::{json_object_text, json_pretty, members_in, texts_of, walk_of, walks};
use crate::structs::{DataHeader, DataReaders};
use std::collections::HashMap;
use vstd::prelude::*;

verus! {

broadcast use vstd::std_specs::hash::group_hash_axioms;

/// The size of the fixed part of a string table.
pub const STRING_FILE_HEAD: u64 = 16;

/// The head of a string table: two fields that are not understood, the
/// number of strings, the language, and for every string its identifier and
/// the offset of its text, counted from the start of the table.
#[derive(Clone, Debug)]
pub struct StringFile {
    pub unk0: u32,
    pub unk4: u32,
    pub string_count: u32,
    pub language_id: u32,
    pub string_ids: Vec<u32>,
    pub string_offsets: Vec<u32>,
}

/// What a [`StringFile`] holds, as mathematical values.
pub struct StringFileModel {
    pub unk0: u32,
    pub unk4: u32,
    pub string_count: u32,
    pub language_id: u32,
    pub string_ids: Seq<u32>,
    pub string_offsets: Seq<u32>,
}

impl View for StringFile {
    type V = StringFileModel;

    open spec fn view(&self) -> StringFileModel {
        StringFileModel {
            unk0: self.unk0,
            unk4: self.unk4,
            string_count: self.string_count,
            language_id: self.language_id,
            string_ids: self.string_ids@,
            string_offsets: self.string_offsets@,
        }
    }
}

impl StringFile {
    /// The head of the string table at `base`, if the buffer holds all of
    /// it.
    pub open spec fn at(s: Seq<u8>, base: int) -> Option<StringFileModel> {
        if !in_range(s.len(), base, STRING_FILE_HEAD as int) {
            None
        } else {
            let count = u32_at(s, base + 8);
            if !in_range(s.len(), base + STRING_FILE_HEAD, 8 * count) {
                None
            } else {
                Some(
                    StringFileModel {
                        unk0: u32_at(s, base),
                        unk4: u32_at(s, base + 4),
                        string_count: count,
                        language_id: u32_at(s, base + 12),
                        string_ids: Seq::new(
                            count as nat,
                            |i: int| u32_at(s, base + STRING_FILE_HEAD + 4 * i),
                        ),
                        string_offsets: Seq::new(
                            count as nat,
                            |i: int| u32_at(s, base + STRING_FILE_HEAD + 4 * count + 4 * i),
                        ),
                    },
                )
            }
        }
    }

    /// Reads the head of the string table at `base`.
    pub fn parse(data: &[u8], base: u64) -> (r: Option<StringFile>)
        ensures
            match r {
                Some(f) => StringFile::at(data@, base as int) == Some(f@),
                None => StringFile::at(data@, base as int) is None,
            },
    {
        let len: u64 = data.len() as u64;
        if base > len || len - base < 16 {
            return None;
        }
        let unk0 = read_u32(data, base).unwrap();
        let unk4 = read_u32(data, base + 4).unwrap();
        let count = read_u32(data, base + 8).unwrap();
        let language_id = read_u32(data, base + 12).unwrap();
        let first: u64 = base + 16;
        if (len - first) / 8 < count as u64 {
            return None;
        }
        let second: u64 = first + 4 * (count as u64);
        let mut string_ids: Vec<u32> = Vec::new();
        let mut string_offsets: Vec<u32> = Vec::new();
        let mut i: u32 = 0;
        while i < count
            invariant
                i <= count,
                first == base + 16,
                second == first + 4 * count,
                in_range(data@.len(), first as int, 8 * count),
                string_ids@ == Seq::new(i as nat, |j: int| u32_at(data@, first + 4 * j)),
                string_offsets@ == Seq::new(i as nat, |j: int| u32_at(data@, second + 4 * j)),
            decreases count - i,
        {
            let id = read_u32(data, first + 4 * (i as u64)).unwrap();
            let offset = read_u32(data, second + 4 * (i as u64)).unwrap();
            string_ids.push(id);
            string_offsets.push(offset);
            i = i + 1;
            assert(string_ids@ =~= Seq::new(i as nat, |j: int| u32_at(data@, first + 4 * j)));
            assert(string_offsets@ =~= Seq::new(i as nat, |j: int| u32_at(data@, second + 4 * j)));
        }
        let f = StringFile {
            unk0,
            unk4,
            string_count: count,
            language_id,
            string_ids,
            string_offsets,
        };
        proof {
            let m = StringFile::at(data@, base as int).unwrap();
            assert(f@.string_ids =~= m.string_ids);
            assert(f@.string_offsets =~= m.string_offsets);
        }
        Some(f)
    }
}

/// The table of the first `n` strings of a string table at `base`: each
/// text starts at its offset from `base` and ends before the next zero
/// byte, and a later string replaces an earlier one of the same identifier.
/// `None` when one of the texts does not end inside the buffer.
pub open spec fn strings_upto(s: Seq<u8>, base: int, f: StringFileModel, n: nat) -> Option<
    Map<u32, Seq<char>>,
>
    decreases n,
{
    if n == 0 {
        Some(Map::empty())
    } else {
        let at = base + f.string_offsets[n - 1];
        match (strings_upto(s, base, f, (n - 1) as nat), terminator(s, at)) {
            (Some(acc), Some(_)) => Some(
                acc.insert(f.string_ids[n - 1], lossy_text(c_string(s, at))),
            ),
            _ => None,
        }
    }
}

/// The texts of the string table that the asset's header names in the
/// bundle, by identifier.
pub open spec fn string_table(bundle: Seq<u8>, d: DataHeader) -> Option<Map<u32, Seq<char>>> {
    match StringFile::at(bundle, d.data_offset as int) {
        None => None,
        Some(f) => strings_upto(bundle, d.data_offset as int, f, f.string_count as nat),
    }
}

/// Once a text cannot be read, no longer table can.
proof fn lemma_strings_fail(s: Seq<u8>, base: int, f: StringFileModel, n: nat, m: nat)
    requires
        n <= m,
        strings_upto(s, base, f, n) is None,
    ensures
        strings_upto(s, base, f, m) is None,
    decreases m - n,
{
    if n < m {
        lemma_strings_fail(s, base, f, n, (m - 1) as nat);
    }
}

/// Reads the string table of an asset out of the bundle.
pub fn read_strings(d: &DataHeader, r: &DataReaders) -> (res: Result<HashMap<u32, String>, ExtractError>)
    ensures
        match res {
            Ok(table) => string_table(r.0@, *d) == Some(texts_of(table@)),
            Err(e) => e == ExtractError::Format && string_table(r.0@, *d) is None,
        },
{
    let data = r.bundle().as_slice();
    let f = match StringFile::parse(data, d.data_offset) {
        Some(f) => f,
        None => {
            return Err(ExtractError::Format);
        },
    };
    let mut table: HashMap<u32, String> = HashMap::new();
    let mut i: usize = 0;
    assert(texts_of(table@) =~= Map::<u32, Seq<char>>::empty());
    while i < f.string_ids.len()
        invariant
            i <= f.string_ids@.len(),
            data@ == r.0@,
            f@.string_ids.len() == f@.string_count,
            f@.string_offsets.len() == f@.string_count,
            string_table(r.0@, *d) == strings_upto(
                data@,
                d.data_offset as int,
                f@,
                f@.string_count as nat,
            ),
            strings_upto(data@, d.data_offset as int, f@, i as nat) == Some(texts_of(table@)),
        decreases f.string_ids@.len() - i,
    {
        let id = f.string_ids[i];
        let at: u64 = match d.data_offset.checked_add(f.string_offsets[i] as u64) {
            Some(at) => at,
            None => {
                let _len = data.len();
                proof {
                    crate::codec::lemma_terminator(
                        data@,
                        d.data_offset + f@.string_offsets[i as int],
                    );
                    lemma_strings_fail(
                        data@,
                        d.data_offset as int,
                        f@,
                        (i + 1) as nat,
                        f@.string_count as nat,
                    );
                }
                return Err(ExtractError::Format);
            },
        };
        let text = match read_c_string(data, at) {
            Some(bytes) => null_string_text(bytes),
            None => {
                proof {
                    lemma_strings_fail(
                        data@,
                        d.data_offset as int,
                        f@,
                        (i + 1) as nat,
                        f@.string_count as nat,
                    );
                }
                return Err(ExtractError::Format);
            },
        };
        let ghost before = texts_of(table@);
        table.insert(id, text);
        assert(texts_of(table@) =~= before.insert(id, text@));
        i = i + 1;
    }
    Ok(table)
}

/// Whether `bytes` are the UTF-8 of the JSON object that the serializer
/// writes for `table`, its members taken in some order that names every
/// identifier of the table exactly once.
pub open spec fn json_bytes_of(table: Map<u32, Seq<char>>, bytes: Seq<u8>) -> bool {
    exists|order: Seq<u32>| #[trigger]
        walks(table, order) && bytes == vstd::utf8::encode_utf8(
            json_object_text(members_in(table, order)),
        )
}

/// A table with one string can be walked in one order only, so that its JSON
/// object is one text.
pub proof fn lemma_one_string_one_order(table: Map<u32, Seq<char>>, id: u32, order: Seq<u32>)
    requires
        table.dom() == set![id],
        walks(table, order),
    ensures
        order == seq![id],
        members_in(table, order) == seq![(id, table[id])],
{
    assert(table.contains_key(id));
    assert(order.contains(id));
    assert forall|i: int| 0 <= i < order.len() implies order[i] == id by {
        assert(order.contains(order[i]));
        assert(table.contains_key(order[i]));
    }
    if order.len() > 1 {
        assert(order[0] == order[1]);
    }
    assert(order =~= seq![id]);
    assert(members_in(table, order) =~= seq![(id, table[id])]);
}

/// Turns the outcome of the serialization into the outcome of the
/// reconstruction: the text becomes its UTF-8 bytes, for which no file name
/// is proposed, and a failure becomes `Encoding`.
pub fn finish_strings(json: Result<String, serde_json::Error>) -> (res: Result<
    (Vec<u8>, Option<String>),
    ExtractError,
>)
    ensures
        match json {
            Ok(text) => res matches Ok((bytes, name)) && bytes@ == vstd::utf8::encode_utf8(text@)
                && name is None,
            Err(_) => res == Err::<(Vec<u8>, Option<String>), ExtractError>(ExtractError::Encoding),
        },
{
    match json {
        Ok(text) => Ok((vstd::string::StrSliceExecFns::as_bytes_vec(text.as_str()), None)),
        Err(_) => Err(ExtractError::Encoding),
    }
}

/// Reconstructs a string table as a JSON object from identifiers to texts.
///
/// The asset comes out exactly when its table can be read, and fails with
/// `Format` otherwise. The result is the UTF-8 of the JSON object that the
/// serializer writes for the table that was read, with one member for each
/// identifier; in which order the members come is left open. No file name
/// is proposed for it.
pub fn extract_strings(d: &DataHeader, r: &DataReaders) -> (res: Result<
    (Vec<u8>, Option<String>),
    ExtractError,
>)
    ensures
        res is Ok <==> string_table(r.0@, *d) is Some,
        res is Err ==> res == Err::<(Vec<u8>, Option<String>), ExtractError>(
            ExtractError::Format,
        ),
        res matches Ok((bytes, name)) ==> name is None && json_bytes_of(
            string_table(r.0@, *d)->0,
            bytes@,
        ),
{
    let table = match read_strings(d, r) {
        Ok(t) => t,
        Err(e) => {
            return Err(e);
        },
    };
    let json = json_pretty(&table);
    proof {
        let texts = texts_of(table@);
        let text = json->Ok_0@;
        assert(walks(texts, walk_of(texts, text)));
    }
    finish_strings(json)
}

} // verus!
