//! The persisted form of the identifier index loses nothing: reading back
//! what was written gives the same index, in whatever order the bundles were
//! written.

use crate::cache::{
    bundle_bytes, bundles_bytes, cache_bytes, decode_bundles, decode_cache, decode_headers,
    headers_bytes, is_walk, storable,
};
use crate::codec::{
    field, le_at, le_bytes, lemma_le_bytes_len, lemma_le_round_trip, lemma_radix_pow_values,
    radix_pow, u32_at, u64_at,
};
use crate::structs::{MinimizedIdHeader, MINIMIZED_HEADER_SIZE};
use vstd::prelude::*;

verus! {

/// A number written into a buffer is read back from the place where it was
/// written.
proof fn lemma_le_at_embedded(pre: Seq<u8>, v: nat, n: nat, post: Seq<u8>)
    requires
        v < radix_pow(n),
    ensures
        le_at(pre + le_bytes(v, n) + post, pre.len() as int, n as int) == v,
{
    lemma_le_bytes_len(v, n);
    assert(field(pre + le_bytes(v, n) + post, pre.len() as int, n as int) =~= le_bytes(v, n));
    lemma_le_round_trip(v, n);
}

proof fn lemma_header_bytes_len(h: MinimizedIdHeader)
    ensures
        h.bytes().len() == MINIMIZED_HEADER_SIZE,
{
    lemma_le_bytes_len(h.id._id as nat, 8);
    lemma_le_bytes_len(h.type_id._id as nat, 8);
    lemma_le_bytes_len(h.data_offset as nat, 8);
    lemma_le_bytes_len(h.data_size as nat, 4);
    lemma_le_bytes_len(h.stream_data_offset as nat, 4);
    lemma_le_bytes_len(h.stream_data_size as nat, 4);
    lemma_le_bytes_len(h.gpu_data_offset as nat, 8);
    lemma_le_bytes_len(h.gpu_data_size as nat, 4);
}

/// A minimized header written into a buffer is read back from the place
/// where it was written.
proof fn lemma_header_embedded(s: Seq<u8>, pos: int, h: MinimizedIdHeader)
    requires
        0 <= pos,
        pos + MINIMIZED_HEADER_SIZE <= s.len(),
        s.subrange(pos, pos + MINIMIZED_HEADER_SIZE) == h.bytes(),
    ensures
        MinimizedIdHeader::at(s, pos) == h,
{
    lemma_header_bytes_len(h);
    lemma_radix_pow_values();
    let b = h.bytes();
    lemma_le_bytes_len(h.id._id as nat, 8);
    lemma_le_bytes_len(h.type_id._id as nat, 8);
    lemma_le_bytes_len(h.data_offset as nat, 8);
    lemma_le_bytes_len(h.data_size as nat, 4);
    lemma_le_bytes_len(h.stream_data_offset as nat, 4);
    lemma_le_bytes_len(h.stream_data_size as nat, 4);
    lemma_le_bytes_len(h.gpu_data_offset as nat, 8);
    lemma_le_bytes_len(h.gpu_data_size as nat, 4);
    assert forall|off: int, w: int| 0 <= off && 0 <= w && off + w <= 48 implies #[trigger] field(
        s,
        pos + off,
        w,
    ) == b.subrange(off, off + w) by {
        assert(field(s, pos + off, w) =~= s.subrange(pos, pos + 48).subrange(off, off + w));
    }
    assert(field(s, pos + 0, 8) == b.subrange(0, 8));
    assert(b.subrange(0, 8) =~= le_bytes(h.id._id as nat, 8));
    lemma_le_round_trip(h.id._id as nat, 8);
    assert(field(s, pos + 8, 8) == b.subrange(8, 16));
    assert(b.subrange(8, 16) =~= le_bytes(h.type_id._id as nat, 8));
    lemma_le_round_trip(h.type_id._id as nat, 8);
    assert(field(s, pos + 16, 8) == b.subrange(16, 24));
    assert(b.subrange(16, 24) =~= le_bytes(h.data_offset as nat, 8));
    lemma_le_round_trip(h.data_offset as nat, 8);
    assert(field(s, pos + 24, 4) == b.subrange(24, 28));
    assert(b.subrange(24, 28) =~= le_bytes(h.data_size as nat, 4));
    lemma_le_round_trip(h.data_size as nat, 4);
    assert(field(s, pos + 28, 4) == b.subrange(28, 32));
    assert(b.subrange(28, 32) =~= le_bytes(h.stream_data_offset as nat, 4));
    lemma_le_round_trip(h.stream_data_offset as nat, 4);
    assert(field(s, pos + 32, 4) == b.subrange(32, 36));
    assert(b.subrange(32, 36) =~= le_bytes(h.stream_data_size as nat, 4));
    lemma_le_round_trip(h.stream_data_size as nat, 4);
    assert(field(s, pos + 36, 8) == b.subrange(36, 44));
    assert(b.subrange(36, 44) =~= le_bytes(h.gpu_data_offset as nat, 8));
    lemma_le_round_trip(h.gpu_data_offset as nat, 8);
    assert(field(s, pos + 44, 4) == b.subrange(44, 48));
    assert(b.subrange(44, 48) =~= le_bytes(h.gpu_data_size as nat, 4));
    lemma_le_round_trip(h.gpu_data_size as nat, 4);
}

proof fn lemma_headers_bytes_len(list: Seq<MinimizedIdHeader>)
    ensures
        headers_bytes(list).len() == MINIMIZED_HEADER_SIZE * list.len(),
    decreases list.len(),
{
    if list.len() > 0 {
        lemma_headers_bytes_len(list.drop_last());
        lemma_header_bytes_len(list.last());
    }
}

/// The bytes of the header of index `i` inside the bytes of a run of headers.
proof fn lemma_headers_bytes_index(list: Seq<MinimizedIdHeader>, i: int)
    requires
        0 <= i < list.len(),
    ensures
        headers_bytes(list).len() == MINIMIZED_HEADER_SIZE * list.len(),
        headers_bytes(list).subrange(
            MINIMIZED_HEADER_SIZE * i,
            MINIMIZED_HEADER_SIZE * i + MINIMIZED_HEADER_SIZE,
        ) == list[i].bytes(),
    decreases list.len(),
{
    lemma_headers_bytes_len(list);
    lemma_headers_bytes_len(list.drop_last());
    lemma_header_bytes_len(list.last());
    let all = headers_bytes(list);
    let front = headers_bytes(list.drop_last());
    if i == list.len() - 1 {
        assert(all.subrange(48 * i, 48 * i + 48) =~= list[i].bytes());
    } else {
        lemma_headers_bytes_index(list.drop_last(), i);
        assert(all.subrange(48 * i, 48 * i + 48) =~= front.subrange(48 * i, 48 * i + 48));
    }
}

/// A run of headers written into a buffer is read back from the place where
/// it was written.
proof fn lemma_headers_embedded(s: Seq<u8>, pos: int, list: Seq<MinimizedIdHeader>)
    requires
        0 <= pos,
        pos + MINIMIZED_HEADER_SIZE * list.len() <= s.len(),
        s.subrange(pos, pos + MINIMIZED_HEADER_SIZE * list.len()) == headers_bytes(list),
    ensures
        decode_headers(s, pos, list.len()) == Some(list),
{
    let got = Seq::new(
        list.len(),
        |i: int| MinimizedIdHeader::at(s, pos + MINIMIZED_HEADER_SIZE * i),
    );
    assert forall|i: int| 0 <= i < list.len() implies got[i] == list[i] by {
        lemma_headers_bytes_index(list, i);
        assert(s.subrange(pos + 48 * i, pos + 48 * i + 48) =~= s.subrange(
            pos,
            pos + 48 * list.len(),
        ).subrange(48 * i, 48 * i + 48));
        lemma_header_embedded(s, pos + 48 * i, list[i]);
    }
    assert(got =~= list);
}

proof fn lemma_bundle_bytes_len(id: u64, list: Seq<MinimizedIdHeader>)
    ensures
        bundle_bytes(id, list).len() == 12 + MINIMIZED_HEADER_SIZE * list.len(),
{
    lemma_le_bytes_len(id as nat, 8);
    lemma_le_bytes_len(list.len(), 4);
    lemma_headers_bytes_len(list);
}

/// The bytes of two runs of bundles, one after the other, are the bytes of
/// the joined run.
proof fn lemma_bundles_bytes_concat(
    m: Map<u64, Seq<MinimizedIdHeader>>,
    a: Seq<u64>,
    b: Seq<u64>,
)
    ensures
        bundles_bytes(m, a + b) == bundles_bytes(m, a) + bundles_bytes(m, b),
    decreases b.len(),
{
    if b.len() == 0 {
        assert(a + b =~= a);
        assert(bundles_bytes(m, a) + bundles_bytes(m, b) =~= bundles_bytes(m, a));
    } else {
        lemma_bundles_bytes_concat(m, a, b.drop_last());
        assert((a + b).drop_last() =~= a + b.drop_last());
        assert((a + b).last() == b.last());
        assert(bundles_bytes(m, a + b) =~= bundles_bytes(m, a) + bundles_bytes(m, b));
    }
}

/// The part of `m` that the first `k` bundles of `order` make up.
pub open spec fn prefix_map(
    m: Map<u64, Seq<MinimizedIdHeader>>,
    order: Seq<u64>,
    k: int,
) -> Map<u64, Seq<MinimizedIdHeader>> {
    Map::new(|id: u64| order.take(k).contains(id), |id: u64| m[id])
}

/// One bundle written into a buffer is read back from the place where it was
/// written.
proof fn lemma_bundle_embedded(s: Seq<u8>, pos: int, id: u64, list: Seq<MinimizedIdHeader>)
    requires
        0 <= pos,
        list.len() <= u32::MAX,
        pos + 12 + MINIMIZED_HEADER_SIZE * list.len() <= s.len(),
        s.subrange(pos, pos + 12 + MINIMIZED_HEADER_SIZE * list.len()) == bundle_bytes(id, list),
    ensures
        u64_at(s, pos) == id,
        u32_at(s, pos + 8) == list.len(),
        decode_headers(s, pos + 12, list.len()) == Some(list),
{
    let this = bundle_bytes(id, list);
    let whole = s.subrange(pos, pos + 12 + 48 * list.len());
    lemma_headers_bytes_len(list);
    lemma_le_bytes_len(id as nat, 8);
    lemma_le_bytes_len(list.len(), 4);
    lemma_radix_pow_values();
    assert(field(s, pos, 8) =~= whole.subrange(0, 8));
    assert(this.subrange(0, 8) =~= le_bytes(id as nat, 8));
    lemma_le_round_trip(id as nat, 8);
    assert(field(s, pos + 8, 4) =~= whole.subrange(8, 12));
    assert(this.subrange(8, 12) =~= le_bytes(list.len(), 4));
    lemma_le_round_trip(list.len(), 4);
    assert(s.subrange(pos + 12, pos + 12 + 48 * list.len()) =~= whole.subrange(
        12,
        12 + 48 * list.len() as int,
    ));
    assert(this.subrange(12, 12 + 48 * list.len() as int) =~= headers_bytes(list));
    lemma_headers_embedded(s, pos + 12, list);
}

proof fn lemma_prefix_map_step(m: Map<u64, Seq<MinimizedIdHeader>>, order: Seq<u64>, k: int)
    requires
        0 <= k < order.len(),
    ensures
        prefix_map(m, order, k).insert(order[k], m[order[k]]) == prefix_map(m, order, k + 1),
{
    let id = order[k];
    let longer = order.take(k + 1);
    let shorter = order.take(k);
    assert forall|x: u64| longer.contains(x) <==> (x == id || shorter.contains(x)) by {
        if longer.contains(x) {
            let j = choose|j: int| 0 <= j < longer.len() && longer[j] == x;
            if j < k {
                assert(shorter[j] == x);
            }
        }
        if shorter.contains(x) {
            let j = choose|j: int| 0 <= j < shorter.len() && shorter[j] == x;
            assert(longer[j] == x);
        }
        if x == id {
            assert(longer[k] == x);
        }
    }
    assert(prefix_map(m, order, k).insert(id, m[id]) =~= prefix_map(m, order, k + 1));
}

/// Where the bundle of index `k` stands in the persisted form.
proof fn lemma_bundle_place(m: Map<u64, Seq<MinimizedIdHeader>>, order: Seq<u64>, k: int)
    requires
        0 <= k < order.len(),
    ensures
        ({
            let s = cache_bytes(m, order);
            let pos = 4 + bundles_bytes(m, order.take(k)).len() as int;
            let this = bundle_bytes(order[k], m[order[k]]);
            &&& bundles_bytes(m, order.take(k + 1)).len() == bundles_bytes(m, order.take(k)).len()
                + this.len()
            &&& pos + this.len() <= s.len()
            &&& s.subrange(pos, pos + this.len()) == this
        }),
{
    let s = cache_bytes(m, order);
    let done = bundles_bytes(m, order.take(k));
    let this = bundle_bytes(order[k], m[order[k]]);
    let rest = bundles_bytes(m, order.skip(k + 1));
    lemma_le_bytes_len(order.len(), 4);
    assert(order.take(k + 1).drop_last() =~= order.take(k));
    assert(order.take(k + 1).last() == order[k]);
    assert(bundles_bytes(m, order.take(k + 1)) == done + this);
    lemma_bundles_bytes_concat(m, order.take(k + 1), order.skip(k + 1));
    assert(order.take(k + 1) + order.skip(k + 1) =~= order);
    assert(s =~= le_bytes(order.len(), 4) + done + this + rest);
    assert(s.subrange(4 + done.len() as int, 4 + done.len() + this.len() as int) =~= this);
}

proof fn lemma_decode_from(m: Map<u64, Seq<MinimizedIdHeader>>, order: Seq<u64>, k: int)
    requires
        is_walk(m, order),
        order.len() <= u32::MAX,
        forall|id: u64| m.contains_key(id) ==> (#[trigger] m[id]).len() <= u32::MAX,
        0 <= k <= order.len(),
    ensures
        decode_bundles(
            cache_bytes(m, order),
            4 + bundles_bytes(m, order.take(k)).len() as int,
            (order.len() - k) as nat,
            prefix_map(m, order, k),
        ) == Some(m),
    decreases order.len() - k,
{
    let s = cache_bytes(m, order);
    let pos: int = 4 + bundles_bytes(m, order.take(k)).len() as int;
    if k == order.len() {
        assert(order.take(k) =~= order);
        assert(prefix_map(m, order, k) =~= m);
    } else {
        let id = order[k];
        assert(order.contains(id));
        let list = m[id];
        lemma_bundle_bytes_len(id, list);
        lemma_bundle_place(m, order, k);
        lemma_bundle_embedded(s, pos, id, list);
        lemma_prefix_map_step(m, order, k);
        lemma_decode_from(m, order, k + 1);
    }
}

/// Reading back the persisted form of an index gives the index, whatever the
/// order in which its bundles were written.
pub proof fn lemma_cache_round_trip(m: Map<u64, Seq<MinimizedIdHeader>>, order: Seq<u64>)
    requires
        storable(m),
        is_walk(m, order),
    ensures
        decode_cache(cache_bytes(m, order)) == Some(m),
{
    order.unique_seq_to_set();
    assert(order.to_set() =~= m.dom());
    let s = cache_bytes(m, order);
    lemma_le_bytes_len(order.len(), 4);
    lemma_radix_pow_values();
    lemma_le_at_embedded(Seq::empty(), order.len(), 4, bundles_bytes(m, order));
    assert(s =~= Seq::<u8>::empty() + le_bytes(order.len(), 4) + bundles_bytes(m, order));
    assert(u32_at(s, 0) == order.len());
    assert(order.take(0) =~= Seq::<u64>::empty());
    assert(prefix_map(m, order, 0) =~= Map::<u64, Seq<MinimizedIdHeader>>::empty());
    lemma_decode_from(m, order, 0);
}

} // verus!
