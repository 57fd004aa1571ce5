//! What is taken on trust from `serde_json` and `lz4_flex`: two error types
//! that are only passed along, a serializer, and a decompressor.

use std::collections::HashMap;
use vstd::prelude::*;

verus! {

/// The error of `serde_json`.
#[verifier::external_type_specification]
#[verifier::external_body]
pub struct ExJsonError(serde_json::Error);

/// The error of the block decompressor of `lz4_flex`.
#[verifier::external_type_specification]
#[verifier::external_body]
pub struct ExDecompressError(lz4_flex::block::DecompressError);

/// What the block decompressor of `lz4_flex` makes of `input` when it is
/// given room for `capacity` bytes: the decompressed bytes, or nothing where
/// the input is no valid block or needs more room.
pub uninterp spec fn lz4_block(input: Seq<u8>, capacity: nat) -> Option<Seq<u8>>;

/// Decompresses one LZ4 block with `lz4_flex::decompress`, which is built
/// here with its bounds-checked decoder: an input that is malformed or that
/// needs more room than `capacity` gives an error.
#[verifier::external_body]
pub(crate) fn lz4_decompress(input: &[u8], capacity: usize) -> (r: Result<
    Vec<u8>,
    lz4_flex::block::DecompressError,
>)
    ensures
        match r {
            Ok(plain) => lz4_block(input@, capacity as nat) == Some(plain@),
            Err(_) => lz4_block(input@, capacity as nat) is None,
        },
{
    lz4_flex::decompress(input, capacity)
}

/// The texts of a table of strings.
pub open spec fn texts_of(m: Map<u32, String>) -> Map<u32, Seq<char>> {
    Map::new(|k: u32| m.contains_key(k), |k: u32| m[k]@)
}

/// Whether `order` names every key of `table` exactly once.
pub open spec fn walks(table: Map<u32, Seq<char>>, order: Seq<u32>) -> bool {
    &&& order.no_duplicates()
    &&& forall|k: u32| table.contains_key(k) <==> order.contains(k)
}

/// The members of `table`, key and text, in the order `order`.
pub open spec fn members_in(table: Map<u32, Seq<char>>, order: Seq<u32>) -> Seq<
    (u32, Seq<char>),
> {
    Seq::new(order.len(), |i: int| (order[i], table[order[i]]))
}

/// The text that `serde_json::to_string_pretty` writes for an object with
/// these members, in this order: each key as a quoted number, each text as
/// an escaped string.
pub uninterp spec fn json_object_text(members: Seq<(u32, Seq<char>)>) -> Seq<char>;

/// An order in which `table` can be walked and for which `text` is its JSON
/// object, where there is one.
pub open spec fn walk_of(table: Map<u32, Seq<char>>, text: Seq<char>) -> Seq<u32> {
    choose|order: Seq<u32>| #[trigger]
        walks(table, order) && text == json_object_text(members_in(table, order))
}

/// Writes a table of strings as a pretty-printed JSON object, with
/// `serde_json::to_string_pretty`.
///
/// The call succeeds on every such table: a `u32` key is written as a quoted
/// number and a `String` value as an escaped string, and the only errors on
/// that way are those of the writer, which is a `Vec<u8>` and has none. The
/// members come in the order in which the table is walked, each key once;
/// the text is what the serializer writes for the members in that order.
/// Which order that is stays open: the contract says that there is one.
#[verifier::external_body]
pub(crate) fn json_pretty(table: &HashMap<u32, String>) -> (r: Result<String, serde_json::Error>)
    ensures
        r is Ok,
        r matches Ok(text) ==> walks(texts_of(table@), walk_of(texts_of(table@), text@)) && text@
            == json_object_text(
            members_in(texts_of(table@), walk_of(texts_of(table@), text@)),
        ),
{
    serde_json::to_string_pretty(table)
}

} // verus!
