//! The identifier index: for every bundle, the minimized headers of the
//! assets that it holds, with lookup by identifier and a compact binary form.

use crate::codec::{
    fits, get_u32, get_u64, in_range, le_bytes, u32_at, u64_at, write_u32_le, write_u64_le,
};
use crate::error::ExtractError;
use crate::structs::{DataTypes, Id, MinimizedIdHeader, MINIMIZED_HEADER_SIZE};
use std::collections::HashMap;
use vstd::prelude::*;

verus! {

broadcast use vstd::std_specs::hash::group_hash_axioms;

/// A snapshot of which bundle holds which assets. Bundles are keyed by the
/// raw value of their identifier.
#[derive(Clone, Debug)]
pub struct IdCache {
    pub bundles: HashMap<u64, Vec<MinimizedIdHeader>>,
}

/// The lists of a map of vectors, as sequences.
pub open spec fn lists_of(m: Map<u64, Vec<MinimizedIdHeader>>) -> Map<
    u64,
    Seq<MinimizedIdHeader>,
> {
    Map::new(|k: u64| m.contains_key(k), |k: u64| m[k]@)
}

impl View for IdCache {
    type V = Map<u64, Seq<MinimizedIdHeader>>;

    open spec fn view(&self) -> Map<u64, Seq<MinimizedIdHeader>> {
        lists_of(self.bundles@)
    }
}

/// Whether a header answers a lookup of `x` under the type filter `t`.
pub open spec fn answers(h: MinimizedIdHeader, x: Id, t: Option<DataTypes>) -> bool {
    h.id == x && (t matches Some(a) ==> h.type_id._id == a.code())
}

/// Whether some header of the list answers the lookup.
pub open spec fn has_answer(list: Seq<MinimizedIdHeader>, x: Id, t: Option<DataTypes>) -> bool {
    exists|i: int| 0 <= i < list.len() && answers(#[trigger] list[i], x, t)
}

/// Whether `h` is the first header of the list that answers the lookup.
pub open spec fn first_answer(
    list: Seq<MinimizedIdHeader>,
    x: Id,
    t: Option<DataTypes>,
    h: MinimizedIdHeader,
) -> bool {
    exists|i: int|
        {
            &&& 0 <= i < list.len()
            &&& #[trigger] list[i] == h
            &&& answers(h, x, t)
            &&& forall|j: int| 0 <= j < i ==> !answers(#[trigger] list[j], x, t)
        }
}

/// Whether `r` is an outcome that a lookup of `x` may have in the index `m`,
/// under the type filter `t` and the bundle scope `b`.
///
/// With a scope other than the invalid identifier, the answer is the first
/// header of that bundle's list that answers, and the lookup fails when the
/// index has no such bundle or its list has no answer. Without a scope, the
/// answer is the first header that answers in the list of some bundle, and
/// the lookup fails only when no list of the index has an answer.
pub open spec fn lookup_allowed(
    m: Map<u64, Seq<MinimizedIdHeader>>,
    x: Id,
    t: Option<DataTypes>,
    b: Id,
    r: Result<(Id, MinimizedIdHeader), ExtractError>,
) -> bool {
    match r {
        Ok((bundle, h)) => {
            &&& m.contains_key(bundle._id)
            &&& b._id != u64::MAX ==> bundle == b
            &&& first_answer(m[bundle._id], x, t, h)
        },
        Err(e) => {
            &&& e == ExtractError::UnresolvedReference
            &&& b._id != u64::MAX ==> !(m.contains_key(b._id) && has_answer(m[b._id], x, t))
            &&& b._id == u64::MAX ==> forall|k: u64| #[trigger]
                m.contains_key(k) ==> !has_answer(m[k], x, t)
        },
    }
}

/// A list in which some header is the first to answer has an answer.
pub proof fn lemma_first_answer_is_answer(
    list: Seq<MinimizedIdHeader>,
    x: Id,
    t: Option<DataTypes>,
    h: MinimizedIdHeader,
)
    requires
        first_answer(list, x, t, h),
    ensures
        has_answer(list, x, t),
{
    let i = choose|i: int|
        {
            &&& 0 <= i < list.len()
            &&& #[trigger] list[i] == h
            &&& answers(h, x, t)
            &&& forall|j: int| 0 <= j < i ==> !answers(#[trigger] list[j], x, t)
        };
    assert(answers(list[i], x, t));
}

/// A lookup under a bundle scope fails whenever the list of that bundle has
/// no answer, whatever the other bundles of the index hold.
pub proof fn lemma_scoped_lookup_stays_in_scope(
    m: Map<u64, Seq<MinimizedIdHeader>>,
    x: Id,
    t: Option<DataTypes>,
    b: Id,
    r: Result<(Id, MinimizedIdHeader), ExtractError>,
)
    requires
        b._id != u64::MAX,
        lookup_allowed(m, x, t, b, r),
        !(m.contains_key(b._id) && has_answer(m[b._id], x, t)),
    ensures
        r == Err::<(Id, MinimizedIdHeader), ExtractError>(ExtractError::UnresolvedReference),
{
    if let Ok((bundle, h)) = r {
        lemma_first_answer_is_answer(m[bundle._id], x, t, h);
    }
}

/// A lookup succeeds exactly when there is an answer where it searches: in
/// the list of the bundle that is its scope, or else in the list of any
/// bundle.
pub proof fn lemma_lookup_succeeds_when_answered(
    m: Map<u64, Seq<MinimizedIdHeader>>,
    x: Id,
    t: Option<DataTypes>,
    b: Id,
    r: Result<(Id, MinimizedIdHeader), ExtractError>,
)
    requires
        lookup_allowed(m, x, t, b, r),
    ensures
        r is Ok <==> if b._id != u64::MAX {
            m.contains_key(b._id) && has_answer(m[b._id], x, t)
        } else {
            exists|k: u64| #[trigger] m.contains_key(k) && has_answer(m[k], x, t)
        },
{
    if let Ok((bundle, h)) = r {
        lemma_first_answer_is_answer(m[bundle._id], x, t, h);
        assert(m.contains_key(bundle._id) && has_answer(m[bundle._id], x, t));
    }
}

/// The bytes of a run of minimized headers, one after the other.
pub open spec fn headers_bytes(list: Seq<MinimizedIdHeader>) -> Seq<u8>
    decreases list.len(),
{
    if list.len() == 0 {
        Seq::empty()
    } else {
        headers_bytes(list.drop_last()) + list.last().bytes()
    }
}

/// The bytes of one bundle of the index: its identifier, the number of its
/// headers, and the headers.
pub open spec fn bundle_bytes(id: u64, list: Seq<MinimizedIdHeader>) -> Seq<u8> {
    le_bytes(id as nat, 8) + le_bytes(list.len(), 4) + headers_bytes(list)
}

/// The bytes of the bundles of `m` named by `order`, in that order.
pub open spec fn bundles_bytes(m: Map<u64, Seq<MinimizedIdHeader>>, order: Seq<u64>) -> Seq<u8>
    decreases order.len(),
{
    if order.len() == 0 {
        Seq::empty()
    } else {
        bundles_bytes(m, order.drop_last()) + bundle_bytes(order.last(), m[order.last()])
    }
}

/// The persisted form of the index `m` when its bundles are written in the
/// order `order`.
pub open spec fn cache_bytes(m: Map<u64, Seq<MinimizedIdHeader>>, order: Seq<u64>) -> Seq<u8> {
    le_bytes(order.len(), 4) + bundles_bytes(m, order)
}

/// Whether `order` names every bundle of `m` exactly once.
pub open spec fn is_walk(m: Map<u64, Seq<MinimizedIdHeader>>, order: Seq<u64>) -> bool {
    &&& order.no_duplicates()
    &&& forall|k: u64| m.contains_key(k) <==> order.contains(k)
}

/// Whether every count of the index fits the four bytes that the persisted
/// form has for it.
pub open spec fn storable(m: Map<u64, Seq<MinimizedIdHeader>>) -> bool {
    &&& m.dom().finite()
    &&& m.dom().len() <= u32::MAX
    &&& forall|k: u64| m.contains_key(k) ==> (#[trigger] m[k]).len() <= u32::MAX
}

/// The `n` minimized headers stored from `pos` on, if the buffer holds them.
pub open spec fn decode_headers(s: Seq<u8>, pos: int, n: nat) -> Option<Seq<MinimizedIdHeader>> {
    if in_range(s.len(), pos, MINIMIZED_HEADER_SIZE * n) {
        Some(Seq::new(n, |i: int| MinimizedIdHeader::at(s, pos + MINIMIZED_HEADER_SIZE * i)))
    } else {
        None
    }
}

/// The index that results from `acc` when the `n` bundles stored from `pos`
/// on are added to it, a later bundle replacing an earlier one of the same
/// identifier; `None` when the buffer ends before the last of them does.
pub open spec fn decode_bundles(
    s: Seq<u8>,
    pos: int,
    n: nat,
    acc: Map<u64, Seq<MinimizedIdHeader>>,
) -> Option<Map<u64, Seq<MinimizedIdHeader>>>
    decreases n,
{
    if n == 0 {
        Some(acc)
    } else if !in_range(s.len(), pos, 12) {
        None
    } else {
        let id = u64_at(s, pos);
        let count = u32_at(s, pos + 8);
        match decode_headers(s, pos + 12, count as nat) {
            None => None,
            Some(list) => decode_bundles(
                s,
                pos + 12 + MINIMIZED_HEADER_SIZE * count,
                (n - 1) as nat,
                acc.insert(id, list),
            ),
        }
    }
}

/// The index that a persisted form stands for: a count of bundles and then
/// that many bundles. Bytes after the last bundle are not looked at.
pub open spec fn decode_cache(s: Seq<u8>) -> Option<Map<u64, Seq<MinimizedIdHeader>>> {
    if s.len() < 4 {
        None
    } else {
        decode_bundles(s, 4, u32_at(s, 0) as nat, Map::empty())
    }
}

/// Searches one list for the first header that answers the lookup.
pub fn find_answer(list: &Vec<MinimizedIdHeader>, x: Id, t: Option<DataTypes>) -> (r: Option<
    MinimizedIdHeader,
>)
    ensures
        match r {
            Some(h) => first_answer(list@, x, t, h),
            None => !has_answer(list@, x, t),
        },
{
    let wanted: Option<Id> = match t {
        Some(a) => Some(a.as_id()),
        None => None,
    };
    let mut i: usize = 0;
    while i < list.len()
        invariant
            i <= list.len(),
            wanted == match t {
                Some(a) => Some(Id { _id: a.code() }),
                None => None::<Id>,
            },
            forall|j: int| 0 <= j < i ==> !answers(#[trigger] list@[j], x, t),
        decreases list.len() - i,
    {
        let h = list[i];
        if h.id == x {
            let type_ok = match wanted {
                Some(w) => h.type_id == w,
                None => true,
            };
            if type_ok {
                assert(list@[i as int] == h);
                return Some(h);
            }
        }
        i = i + 1;
    }
    None
}

impl IdCache {
    /// An index without bundles.
    pub fn new() -> (r: Self)
        ensures
            r@ == Map::<u64, Seq<MinimizedIdHeader>>::empty(),
    {
        let r = IdCache { bundles: HashMap::new() };
        assert(r@ =~= Map::<u64, Seq<MinimizedIdHeader>>::empty());
        r
    }

    /// Looks an asset up by its identifier.
    ///
    /// With a bundle scope `b` other than the invalid identifier, only that
    /// bundle's list is searched. Without one, every bundle is searched and
    /// the answer comes from whichever bundle with an answer is met first.
    /// In the bundle that answers, the first header that has the identifier
    /// and passes the type filter is returned, with the bundle's identifier.
    pub fn get_by_id(&self, x: Id, t: Option<DataTypes>, b: Id) -> (r: Result<
        (Id, MinimizedIdHeader),
        ExtractError,
    >)
        ensures
            lookup_allowed(self@, x, t, b, r),
    {
        if b._id != u64::MAX {
            return match self.bundles.get(&b._id) {
                Some(list) => match find_answer(list, x, t) {
                    Some(h) => Ok((b, h)),
                    None => Err(ExtractError::UnresolvedReference),
                },
                None => Err(ExtractError::UnresolvedReference),
            };
        }
        for (bundle, list) in it: self.bundles.iter()
            invariant
                b._id == u64::MAX,
                forall|j: int| 0 <= j < it.index() ==> !has_answer(it.seq()[j].1@, x, t),
        {
            assert(self.bundles@.contains_key(*bundle) && self.bundles@[*bundle] == *list) by {
                let p = it.seq()[it.index() as int];
                assert(self.bundles@.contains_key(*p.0));
                assert(self.bundles@[*p.0] == *p.1);
            }
            match find_answer(list, x, t) {
                Some(h) => {
                    return Ok((Id { _id: *bundle }, h));
                },
                None => {},
            }
        }
        Err(ExtractError::UnresolvedReference)
    }
}

fn read_headers(data: &[u8], start: usize, count: u32) -> (r: Option<Vec<MinimizedIdHeader>>)
    ensures
        match r {
            Some(list) => decode_headers(data@, start as int, count as nat) == Some(list@),
            None => decode_headers(data@, start as int, count as nat) is None,
        },
{
    if start > data.len() {
        return None;
    }
    let room: u64 = (data.len() - start) as u64;
    if room / 48 < count as u64 {
        return None;
    }
    let mut list: Vec<MinimizedIdHeader> = Vec::new();
    let mut j: u32 = 0;
    while j < count
        invariant
            j <= count,
            start + 48 * count <= data@.len() <= usize::MAX,
            list@ == Seq::new(
                j as nat,
                |i: int| MinimizedIdHeader::at(data@, start + MINIMIZED_HEADER_SIZE * i),
            ),
        decreases count - j,
    {
        let at: usize = start + 48 * (j as usize);
        list.push(MinimizedIdHeader::parse(data, at).unwrap());
        j = j + 1;
        assert(list@ =~= Seq::new(
            j as nat,
            |i: int| MinimizedIdHeader::at(data@, start + MINIMIZED_HEADER_SIZE * i),
        ));
    }
    Some(list)
}

impl IdCache {
    /// Reads an index from its persisted form: a four-byte count of bundles
    /// and then, for each bundle, its eight-byte identifier, a four-byte
    /// count of headers and that many 48-byte headers, all little-endian.
    /// The bytes are rejected when they end before the last bundle does.
    pub fn from_bytes(data: &[u8]) -> (r: Result<IdCache, ExtractError>)
        ensures
            match r {
                Ok(cache) => decode_cache(data@) == Some(cache@),
                Err(e) => e == ExtractError::Format && decode_cache(data@) is None,
            },
    {
        if !fits(data, 0, 4) {
            return Err(ExtractError::Format);
        }
        let count: u32 = get_u32(data, 0);
        let mut bundles: HashMap<u64, Vec<MinimizedIdHeader>> = HashMap::new();
        let mut pos: usize = 4;
        let mut done: u32 = 0;
        assert(lists_of(bundles@) =~= Map::<u64, Seq<MinimizedIdHeader>>::empty());
        while done < count
            invariant
                done <= count,
                4 <= pos <= data@.len() <= usize::MAX,
                decode_cache(data@) == decode_bundles(
                    data@,
                    pos as int,
                    (count - done) as nat,
                    lists_of(bundles@),
                ),
            decreases count - done,
        {
            if !fits(data, pos, 12) {
                return Err(ExtractError::Format);
            }
            let id = get_u64(data, pos);
            let n = get_u32(data, pos + 8);
            let list = match read_headers(data, pos + 12, n) {
                Some(list) => list,
                None => {
                    return Err(ExtractError::Format);
                },
            };
            let ghost before = lists_of(bundles@);
            bundles.insert(id, list);
            assert(lists_of(bundles@) =~= before.insert(id, list@));
            pos = pos + 12 + 48 * (n as usize);
            done = done + 1;
        }
        Ok(IdCache { bundles })
    }
}

fn write_headers(list: &Vec<MinimizedIdHeader>, out: &mut Vec<u8>)
    ensures
        final(out)@ == old(out)@ + headers_bytes(list@),
{
    let mut j: usize = 0;
    assert(list@.take(0) =~= Seq::<MinimizedIdHeader>::empty());
    assert(out@ =~= old(out)@ + headers_bytes(list@.take(0)));
    while j < list.len()
        invariant
            j <= list.len(),
            out@ == old(out)@ + headers_bytes(list@.take(j as int)),
        decreases list.len() - j,
    {
        list[j].write(out);
        proof {
            let next = list@.take(j + 1);
            assert(next.drop_last() =~= list@.take(j as int));
            assert(next.last() == list@[j as int]);
            assert(out@ =~= old(out)@ + headers_bytes(next));
        }
        j = j + 1;
    }
    assert(list@.take(list@.len() as int) =~= list@);
}

impl IdCache {
    /// The raw identifiers of the bundles of the index, each once, in the
    /// order in which the index is walked.
    pub fn bundle_ids(&self) -> (r: Vec<u64>)
        ensures
            is_walk(self@, r@),
            r@.len() == self@.dom().len(),
            self@.dom().finite(),
    {
        let mut out: Vec<u64> = Vec::new();
        for (k, v) in it: self.bundles.iter()
            invariant
                out@.len() == it.index(),
                it.seq().len() == self.bundles@.dom().len(),
                it.seq().no_duplicates(),
                forall|j: int| 0 <= j < out@.len() ==> out@[j] == *it.seq()[j].0,
                forall|j: int|
                    0 <= j < out@.len() ==> self.bundles@.contains_key(#[trigger] out@[j]),
                out@.no_duplicates(),
        {
            proof {
                let pairs = it.seq();
                let i = it.index() as int;
                assert(self.bundles@.contains_key(*pairs[i].0));
                assert(self.bundles@[*pairs[i].0] == *pairs[i].1);
                assert(pairs[i] == (k, v));
                assert forall|j: int| 0 <= j < i implies out@[j] != *k by {
                    assert(self.bundles@.contains_key(*pairs[j].0));
                    assert(self.bundles@[*pairs[j].0] == *pairs[j].1);
                    if *pairs[j].0 == *k {
                        assert(pairs[j] == pairs[i]);
                    }
                }
            }
            out.push(*k);
        }
        proof {
            let dom = self.bundles@.dom();
            assert(self@.dom() =~= dom);
            out@.unique_seq_to_set();
            assert(out@.to_set().subset_of(dom)) by {
                assert forall|k: u64| out@.to_set().contains(k) implies dom.contains(k) by {
                    let j = choose|j: int| 0 <= j < out@.len() && out@[j] == k;
                    assert(self.bundles@.contains_key(out@[j]));
                }
            }
            vstd::set_lib::lemma_subset_equality(out@.to_set(), dom);
            assert forall|k: u64| self@.contains_key(k) <==> out@.contains(k) by {
                assert(dom.contains(k) == out@.to_set().contains(k));
            }
        }
        out
    }

    /// Writes the index in its persisted form, the bundles in the order in
    /// which the index is walked. An index with a count that does not fit in
    /// four bytes has no persisted form.
    pub fn to_bytes(&self) -> (r: Result<Vec<u8>, ExtractError>)
        ensures
            match r {
                Ok(bytes) => storable(self@) && exists|order: Seq<u64>|
                    is_walk(self@, order) && bytes@ == cache_bytes(self@, order),
                Err(e) => e == ExtractError::Format && !storable(self@),
            },
    {
        let order = self.bundle_ids();
        if order.len() > 0xFFFF_FFFF {
            return Err(ExtractError::Format);
        }
        let mut out: Vec<u8> = Vec::new();
        write_u32_le(&mut out, order.len() as u32);
        let mut i: usize = 0;
        assert(order@.take(0) =~= Seq::<u64>::empty());
        assert(out@ =~= le_bytes(order@.len(), 4) + bundles_bytes(self@, order@.take(0)));
        while i < order.len()
            invariant
                i <= order.len(),
                is_walk(self@, order@),
                out@ == le_bytes(order@.len(), 4) + bundles_bytes(self@, order@.take(i as int)),
                forall|j: int| 0 <= j < i ==> (#[trigger] self@[order@[j]]).len() <= u32::MAX,
            decreases order.len() - i,
        {
            let id = order[i];
            assert(order@.contains(id));
            let list = self.bundles.get(&id).unwrap();
            assert(self@.contains_key(id) && self@[id] == list@);
            if list.len() > 0xFFFF_FFFF {
                assert(!storable(self@));
                return Err(ExtractError::Format);
            }
            write_u64_le(&mut out, id);
            write_u32_le(&mut out, list.len() as u32);
            write_headers(list, &mut out);
            proof {
                let next = order@.take(i + 1);
                assert(next.drop_last() =~= order@.take(i as int));
                assert(next.last() == id);
                assert(out@ =~= le_bytes(order@.len(), 4) + bundles_bytes(self@, next));
            }
            i = i + 1;
        }
        proof {
            assert(order@.take(order@.len() as int) =~= order@);
            assert forall|k: u64| self@.contains_key(k) implies (#[trigger] self@[k]).len()
                <= u32::MAX by {
                assert(order@.contains(k));
                let j = choose|j: int| 0 <= j < order@.len() && order@[j] == k;
                assert(self@[order@[j]].len() <= u32::MAX);
            }
        }
        Ok(out)
    }
}

impl Default for IdCache {
    fn default() -> (r: Self)
        ensures
            r@ == Map::<u64, Seq<MinimizedIdHeader>>::empty(),
    {
        IdCache::new()
    }
}

} // verus!
