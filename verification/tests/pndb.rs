use bundle_assets::pndb::{read_block_names, read_pndb, Pndb};
use bundle_assets::ExtractError;

fn plain_block(names: &[(u64, &[u8])]) -> Vec<u8> {
    let mut p = Vec::new();
    for (_, name) in names {
        p.extend_from_slice(name);
        p.push(0);
    }
    for (id, _) in names {
        p.extend_from_slice(&id.to_le_bytes());
    }
    p
}

fn database(count: u32, packed: &[u8], plain_len: u32) -> Vec<u8> {
    let mut b = b"PNDB".to_vec();
    b.extend_from_slice(&count.to_le_bytes());
    b.extend_from_slice(&(packed.len() as u32).to_le_bytes());
    b.extend_from_slice(&plain_len.to_le_bytes());
    b.extend_from_slice(packed);
    b
}

fn sample() -> Vec<(u64, &'static [u8])> {
    vec![
        (0xA1, b"content/textures/rock" as &[u8]),
        (0xA2, b"content/textures/rock_rock_rock_rock_rock_rock_rock"),
        (0xA3, b""),
    ]
}

#[test]
fn name_database_is_decompressed_and_read() {
    let plain = plain_block(&sample());
    let packed = lz4_flex::compress(&plain);
    assert_ne!(packed, plain);
    let db = Pndb::from_bytes(&database(3, &packed, plain.len() as u32)).unwrap();
    assert_eq!(db.name_database.len(), 3);
    assert_eq!(db.name_database[&0xA1], "content/textures/rock");
    assert_eq!(db.name_database[&0xA2], "content/textures/rock_rock_rock_rock_rock_rock_rock");
    assert_eq!(db.name_database[&0xA3], "");
    assert_eq!(db.name_of(0xA1).map(|s| s.as_str()), Some("content/textures/rock"));
    assert_eq!(db.name_of(0xA9), None);
}

#[test]
fn name_database_accepts_more_room_than_needed() {
    let plain = plain_block(&sample());
    let packed = lz4_flex::compress(&plain);
    let db = Pndb::from_bytes(&database(3, &packed, plain.len() as u32 + 100)).unwrap();
    assert_eq!(db.name_database.len(), 3);
}

#[test]
fn name_database_with_too_little_room_is_rejected() {
    let plain = plain_block(&sample());
    let packed = lz4_flex::compress(&plain);
    let bytes = database(3, &packed, plain.len() as u32 - 1);
    assert_eq!(Pndb::from_bytes(&bytes).err(), Some(ExtractError::Format));
}

#[test]
fn name_database_with_wrong_magic_is_rejected() {
    let plain = plain_block(&sample());
    let packed = lz4_flex::compress(&plain);
    let mut bytes = database(3, &packed, plain.len() as u32);
    bytes[3] = b'X';
    assert_eq!(Pndb::from_bytes(&bytes).err(), Some(ExtractError::Format));
}

#[test]
fn name_database_that_is_cut_short_is_rejected() {
    let plain = plain_block(&sample());
    let packed = lz4_flex::compress(&plain);
    let bytes = database(3, &packed, plain.len() as u32);
    assert_eq!(Pndb::from_bytes(&bytes[..bytes.len() - 1]).err(), Some(ExtractError::Format));
    assert_eq!(Pndb::from_bytes(&bytes[..15]).err(), Some(ExtractError::Format));
}

#[test]
fn name_database_with_garbage_block_is_rejected() {
    let bytes = database(1, &[0xFF, 0xFF, 0xFF], 64);
    assert_eq!(Pndb::from_bytes(&bytes).err(), Some(ExtractError::Format));
}

#[test]
fn block_with_too_few_identifiers_is_rejected() {
    let plain = plain_block(&sample());
    assert!(read_block_names(&plain, 3).is_some());
    assert!(read_block_names(&plain[..plain.len() - 1], 3).is_none());
    assert!(read_block_names(b"no terminator", 1).is_none());
}

#[test]
fn names_come_before_identifiers_and_later_pairs_win() {
    let plain = plain_block(&[(5, b"first"), (5, b"second"), (6, b"third")]);
    let table = read_block_names(&plain, 3).unwrap();
    assert_eq!(table.len(), 2);
    assert_eq!(table[&5], "second");
    assert_eq!(table[&6], "third");
}

#[test]
fn empty_name_database_has_no_names() {
    let packed = lz4_flex::compress(&[]);
    let db = Pndb::from_bytes(&database(0, &packed, 0)).unwrap();
    assert!(db.name_database.is_empty());
    assert!(Pndb::new().name_database.is_empty());
}

#[test]
fn name_database_file_is_read_whole() {
    let plain = plain_block(&sample());
    let packed = lz4_flex::compress(&plain);
    let db = read_pndb(&database(3, &packed, plain.len() as u32)).unwrap();
    assert_eq!(db.name_database[&0xA1], "content/textures/rock");
    assert_eq!(read_pndb(b"PNDB").err(), Some(ExtractError::Format));
}
