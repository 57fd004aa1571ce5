use bundle_assets::cache::{find_answer, IdCache};
use bundle_assets::structs::{DataTypes, Id, MinimizedIdHeader};
use bundle_assets::ExtractError;
use std::collections::HashMap;

fn entry(id: u64, type_id: u64, n: u32) -> MinimizedIdHeader {
    MinimizedIdHeader {
        id: Id::new(id),
        type_id: Id::new(type_id),
        data_offset: 0x0102030405060708 + n as u64,
        data_size: 0x11121314 + n,
        stream_data_offset: 0x21222324 + n,
        stream_data_size: 0x31323334 + n,
        gpu_data_offset: 0x4142434445464748 + n as u64,
        gpu_data_size: 0x51525354 + n,
    }
}

const TEXTURE: u64 = 0xCD4238C6A0C69E32;
const WEM: u64 = 0x504b55235d21440e;

fn two_bundles() -> IdCache {
    let mut cache = IdCache::new();
    cache.bundles.insert(0xB1, vec![entry(1, TEXTURE, 0), entry(2, WEM, 1), entry(2, TEXTURE, 2)]);
    cache.bundles.insert(0xB2, vec![entry(3, TEXTURE, 3)]);
    cache
}

#[test]
fn persisted_form_of_one_bundle_is_exact() {
    let mut cache = IdCache::new();
    cache.bundles.insert(0xB1, vec![entry(1, TEXTURE, 0)]);
    let bytes = cache.to_bytes().unwrap();
    let mut want = Vec::new();
    want.extend_from_slice(&1u32.to_le_bytes());
    want.extend_from_slice(&0xB1u64.to_le_bytes());
    want.extend_from_slice(&1u32.to_le_bytes());
    want.extend_from_slice(&1u64.to_le_bytes());
    want.extend_from_slice(&TEXTURE.to_le_bytes());
    want.extend_from_slice(&0x0102030405060708u64.to_le_bytes());
    want.extend_from_slice(&0x11121314u32.to_le_bytes());
    want.extend_from_slice(&0x21222324u32.to_le_bytes());
    want.extend_from_slice(&0x31323334u32.to_le_bytes());
    want.extend_from_slice(&0x4142434445464748u64.to_le_bytes());
    want.extend_from_slice(&0x51525354u32.to_le_bytes());
    assert_eq!(bytes, want);
    assert_eq!(bytes.len(), 4 + 12 + 48);
}

#[test]
fn empty_index_persists_as_a_zero_count() {
    let cache = IdCache::new();
    assert_eq!(cache.to_bytes().unwrap(), vec![0, 0, 0, 0]);
    assert!(IdCache::from_bytes(&[0, 0, 0, 0]).unwrap().bundles.is_empty());
}

#[test]
fn index_round_trips_through_its_persisted_form() {
    let cache = two_bundles();
    let bytes = cache.to_bytes().unwrap();
    let back = IdCache::from_bytes(&bytes).unwrap();
    let want: HashMap<u64, Vec<MinimizedIdHeader>> = cache.bundles.clone();
    assert_eq!(back.bundles, want);
}

#[test]
fn index_round_trips_whatever_the_order_of_its_bundles() {
    let cache = two_bundles();
    let bytes = cache.to_bytes().unwrap();
    let first = 4 + 12 + 48 * cache.bundles[&u64::from_le_bytes(bytes[4..12].try_into().unwrap())].len();
    let mut swapped = bytes[..4].to_vec();
    swapped.extend_from_slice(&bytes[first..]);
    swapped.extend_from_slice(&bytes[4..first]);
    assert_ne!(swapped, bytes);
    assert_eq!(IdCache::from_bytes(&swapped).unwrap().bundles, cache.bundles);
}

#[test]
fn persisted_index_that_is_cut_short_is_rejected() {
    let bytes = two_bundles().to_bytes().unwrap();
    assert_eq!(IdCache::from_bytes(&bytes[..bytes.len() - 1]).err(), Some(ExtractError::Format));
    assert_eq!(IdCache::from_bytes(&bytes[..3]).err(), Some(ExtractError::Format));
    assert_eq!(IdCache::from_bytes(&[]).err(), Some(ExtractError::Format));
}

#[test]
fn later_bundle_of_the_same_identifier_replaces_the_earlier() {
    let mut one = IdCache::new();
    one.bundles.insert(7, vec![entry(1, TEXTURE, 0)]);
    let mut two = IdCache::new();
    two.bundles.insert(7, vec![entry(2, WEM, 1)]);
    let a = one.to_bytes().unwrap();
    let b = two.to_bytes().unwrap();
    let mut bytes = 2u32.to_le_bytes().to_vec();
    bytes.extend_from_slice(&a[4..]);
    bytes.extend_from_slice(&b[4..]);
    let back = IdCache::from_bytes(&bytes).unwrap();
    assert_eq!(back.bundles.len(), 1);
    assert_eq!(back.bundles[&7], vec![entry(2, WEM, 1)]);
}

#[test]
fn bundle_ids_name_every_bundle_once() {
    let mut ids = two_bundles().bundle_ids();
    ids.sort();
    assert_eq!(ids, vec![0xB1, 0xB2]);
}

#[test]
fn lookup_without_scope_finds_the_asset_and_its_bundle() {
    let cache = two_bundles();
    let (bundle, h) = cache.get_by_id(Id::new(3), None, Id::invalid()).unwrap();
    assert_eq!(bundle, Id::new(0xB2));
    assert_eq!(h, entry(3, TEXTURE, 3));
}

#[test]
fn lookup_returns_the_first_match_of_the_list() {
    let cache = two_bundles();
    let (_, h) = cache.get_by_id(Id::new(2), None, Id::new(0xB1)).unwrap();
    assert_eq!(h, entry(2, WEM, 1));
}

#[test]
fn lookup_with_type_filter_skips_other_types() {
    let cache = two_bundles();
    let (bundle, h) =
        cache.get_by_id(Id::new(2), Some(DataTypes::Texture), Id::invalid()).unwrap();
    assert_eq!(bundle, Id::new(0xB1));
    assert_eq!(h, entry(2, TEXTURE, 2));
    assert_eq!(
        cache.get_by_id(Id::new(3), Some(DataTypes::WwiseWem), Id::invalid()).err(),
        Some(ExtractError::UnresolvedReference)
    );
}

#[test]
fn lookup_scoped_to_a_bundle_without_the_identifier_fails() {
    let cache = two_bundles();
    assert!(cache.get_by_id(Id::new(3), None, Id::invalid()).is_ok());
    assert_eq!(
        cache.get_by_id(Id::new(3), None, Id::new(0xB1)).err(),
        Some(ExtractError::UnresolvedReference)
    );
}

#[test]
fn lookup_scoped_to_an_unknown_bundle_fails() {
    let cache = two_bundles();
    assert_eq!(
        cache.get_by_id(Id::new(1), None, Id::new(0xB9)).err(),
        Some(ExtractError::UnresolvedReference)
    );
}

#[test]
fn lookup_of_an_unknown_identifier_fails() {
    let cache = two_bundles();
    assert_eq!(
        cache.get_by_id(Id::new(99), None, Id::invalid()).err(),
        Some(ExtractError::UnresolvedReference)
    );
}

#[test]
fn find_answer_takes_the_first_header_that_passes() {
    let list = vec![entry(5, WEM, 0), entry(6, TEXTURE, 1), entry(5, TEXTURE, 2)];
    assert_eq!(find_answer(&list, Id::new(5), None), Some(entry(5, WEM, 0)));
    assert_eq!(
        find_answer(&list, Id::new(5), Some(DataTypes::Texture)),
        Some(entry(5, TEXTURE, 2))
    );
    assert_eq!(find_answer(&list, Id::new(7), None), None);
}

#[test]
fn identifier_held_by_two_bundles_is_found_in_one_of_them() {
    let mut cache = IdCache::new();
    cache.bundles.insert(0xB1, vec![entry(9, TEXTURE, 1)]);
    cache.bundles.insert(0xB2, vec![entry(9, TEXTURE, 2)]);
    let (bundle, h) = cache.get_by_id(Id::new(9), None, Id::invalid()).unwrap();
    assert!(bundle == Id::new(0xB1) || bundle == Id::new(0xB2));
    assert_eq!(h, cache.bundles[&bundle.value()][0]);
    let (scoped, h2) = cache.get_by_id(Id::new(9), None, Id::new(0xB2)).unwrap();
    assert_eq!(scoped, Id::new(0xB2));
    assert_eq!(h2, entry(9, TEXTURE, 2));
}
