use bundle_assets::extract::{read_data_headers, read_types};
use bundle_assets::structs::{Bundle, DataHeader, DataType, DataTypes, Header, Id, MinimizedIdHeader};
use bundle_assets::ExtractError;

fn header_bytes(type_count: u32, data_count: u64) -> Vec<u8> {
    let mut b = Vec::new();
    b.extend_from_slice(&0xF0000011u32.to_le_bytes());
    b.extend_from_slice(&type_count.to_le_bytes());
    b.extend_from_slice(&data_count.to_le_bytes());
    b.extend_from_slice(&0x11111111u32.to_le_bytes());
    b.extend_from_slice(&0x22222222u32.to_le_bytes());
    b.extend_from_slice(&0x3333333333333333u64.to_le_bytes());
    b.extend_from_slice(&0x4444444444444444u64.to_le_bytes());
    b.extend_from_slice(&0x5555555555555555u64.to_le_bytes());
    b.extend_from_slice(&0x0102030405060708090a0b0c0d0e0f10u128.to_le_bytes());
    b.extend_from_slice(&7u128.to_le_bytes());
    b
}

fn type_bytes(type_id: u64, count: u64, unk10: u32, unk14: u32) -> Vec<u8> {
    let mut b = Vec::new();
    b.extend_from_slice(&type_id.to_le_bytes());
    b.extend_from_slice(&count.to_le_bytes());
    b.extend_from_slice(&unk10.to_le_bytes());
    b.extend_from_slice(&unk14.to_le_bytes());
    b
}

fn asset_bytes(id: u64, type_id: u64, n: u32) -> Vec<u8> {
    let mut b = Vec::new();
    b.extend_from_slice(&id.to_le_bytes());
    b.extend_from_slice(&type_id.to_le_bytes());
    b.extend_from_slice(&(0x1000u64 + n as u64).to_le_bytes());
    b.extend_from_slice(&(0x20 + n).to_le_bytes());
    b.extend_from_slice(&(0x1c00 + n).to_le_bytes());
    b.extend_from_slice(&(0x3000u64 + n as u64).to_le_bytes());
    b.extend_from_slice(&(0x2800u64 + n as u64).to_le_bytes());
    b.extend_from_slice(&(0x3001u64 + n as u64).to_le_bytes());
    b.extend_from_slice(&(0x40 + n).to_le_bytes());
    b.extend_from_slice(&(0x50 + n).to_le_bytes());
    b.extend_from_slice(&(0x60 + n).to_le_bytes());
    b.extend_from_slice(&(0x4400 + n).to_le_bytes());
    b.extend_from_slice(&(0x4800 + n).to_le_bytes());
    b.extend_from_slice(&(0x4c00 + n).to_le_bytes());
    b
}

fn two_type_bundle() -> Vec<u8> {
    let mut b = header_bytes(2, 3);
    b.extend(type_bytes(0xCD4238C6A0C69E32, 2, 5, 6));
    b.extend([0xEEu8; 8]);
    b.extend(type_bytes(0x504b55235d21440e, 1, 7, 8));
    b.extend(asset_bytes(0xA1, 0xCD4238C6A0C69E32, 1));
    b.extend(asset_bytes(0xA2, 0xCD4238C6A0C69E32, 2));
    b.extend(asset_bytes(0xB1, 0x504b55235d21440e, 3));
    b
}

#[test]
fn header_fields_are_read_little_endian() {
    let h = Header::parse(&header_bytes(2, 3)).unwrap();
    assert_eq!(h.type_count, 2);
    assert_eq!(h.data_count, 3);
    assert_eq!(h.unk10, 0x11111111);
    assert_eq!(h.unk14, 0x22222222);
    assert_eq!(h.unk18, 0x3333333333333333);
    assert_eq!(h.unk20, 0x4444444444444444);
    assert_eq!(h.unk28, 0x5555555555555555);
    assert_eq!(h.unk30_pad, (0x0102030405060708090a0b0c0d0e0f10, 7));
}

#[test]
fn header_with_wrong_magic_is_rejected() {
    let mut b = header_bytes(0, 0);
    b[0] = 0x12;
    assert_eq!(Header::parse(&b).err(), Some(ExtractError::Format));
}

#[test]
fn header_that_is_cut_short_is_rejected() {
    let b = header_bytes(0, 0);
    assert_eq!(Header::parse(&b[..79]).err(), Some(ExtractError::Format));
    assert!(Header::parse(&b[..80]).is_ok());
}

#[test]
fn type_table_skips_the_gap_between_entries() {
    let b = two_type_bundle();
    let h = Header::parse(&b).unwrap();
    let types = read_types(&b, h).unwrap();
    assert_eq!(
        types,
        vec![
            DataType { type_id: Id::new(0xCD4238C6A0C69E32), data_count: 2, unk10: 5, unk14: 6 },
            DataType { type_id: Id::new(0x504b55235d21440e), data_count: 1, unk10: 7, unk14: 8 },
        ]
    );
}

#[test]
fn type_table_needs_no_gap_after_the_last_entry() {
    let mut b = header_bytes(2, 0);
    b.extend(type_bytes(1, 0, 0, 0));
    b.extend([0u8; 8]);
    b.extend(type_bytes(2, 0, 0, 0));
    let h = Header::parse(&b).unwrap();
    assert_eq!(read_types(&b, h).unwrap().len(), 2);
    assert_eq!(read_types(&b[..b.len() - 1], h).err(), Some(ExtractError::Format));
}

#[test]
fn empty_type_table_reads_as_empty() {
    let b = header_bytes(0, 0);
    let h = Header::parse(&b).unwrap();
    assert_eq!(read_types(&b, h).unwrap(), vec![]);
    assert_eq!(read_data_headers(&b, &vec![]).unwrap(), vec![]);
}

#[test]
fn flat_header_list_is_as_long_as_the_counts_say() {
    let b = two_type_bundle();
    let bundle = Bundle::parse(&b).unwrap();
    let sum: u64 = bundle.data_types.iter().map(|t| t.data_count).sum();
    assert_eq!(bundle.data_headers.len() as u64, sum);
    assert_eq!(sum, 3);
}

#[test]
fn flat_header_list_is_grouped_in_table_order() {
    let b = two_type_bundle();
    let bundle = Bundle::parse(&b).unwrap();
    let ids: Vec<u64> = bundle.data_headers.iter().map(|d| d.unk_id.value()).collect();
    assert_eq!(ids, vec![0xA1, 0xA2, 0xB1]);
    assert_eq!(bundle.data_headers[0].type_id, bundle.data_types[0].type_id);
    assert_eq!(bundle.data_headers[1].type_id, bundle.data_types[0].type_id);
    assert_eq!(bundle.data_headers[2].type_id, bundle.data_types[1].type_id);
}

#[test]
fn asset_header_fields_are_read_in_place() {
    let b = asset_bytes(0xA1, 0xB2, 1);
    let d = DataHeader::parse(&b, 0).unwrap();
    assert_eq!(
        d,
        DataHeader {
            unk_id: Id::new(0xA1),
            type_id: Id::new(0xB2),
            data_offset: 0x1001,
            stream_data_offset: 0x21,
            unk1c: 0x1c01,
            gpu_data_offset: 0x3001,
            unk28: 0x2801,
            unk30: 0x3002,
            data_size: 0x41,
            stream_data_size: 0x51,
            gpu_data_size: 0x61,
            unk44: 0x4401,
            unk48: 0x4801,
            unk4c: 0x4c01,
            type_enum: DataTypes::Unknown,
        }
    );
    assert_eq!(DataHeader::parse(&b, 1), None);
}

#[test]
fn asset_header_past_the_end_is_fatal() {
    let b = two_type_bundle();
    assert_eq!(Bundle::parse(&b[..b.len() - 1]).err(), Some(ExtractError::Format));
    let mut long = header_bytes(1, 0);
    long.extend(type_bytes(1, u64::MAX, 0, 0));
    assert_eq!(Bundle::parse(&long).err(), Some(ExtractError::Format));
}

#[test]
fn minimized_header_keeps_identifier_and_ranges() {
    let d = DataHeader::parse(&asset_bytes(0xA1, 0xCD4238C6A0C69E32, 1), 0).unwrap();
    let m = d.minimize();
    assert_eq!(
        m,
        MinimizedIdHeader {
            id: Id::new(0xA1),
            type_id: Id::new(0xCD4238C6A0C69E32),
            data_offset: 0x1001,
            data_size: 0x41,
            stream_data_offset: 0x21,
            stream_data_size: 0x51,
            gpu_data_offset: 0x3001,
            gpu_data_size: 0x61,
        }
    );
    let back = DataHeader::from(m);
    assert_eq!(back.unk1c, 0);
    assert_eq!(back.unk4c, 0);
    assert_eq!(back.type_enum, DataTypes::Texture);
    assert_eq!(back.minimize(), m);
}
