use bundle_assets::structs::{DataHeader, DataReaders};
use bundle_assets::types::string::{extract_strings, finish_strings, read_strings, StringFile};
use bundle_assets::ExtractError;
use std::collections::HashMap;

/// A string table at `base` with the given strings.
fn table_bundle(base: usize, strings: &[(u32, &[u8])]) -> Vec<u8> {
    let mut b = vec![0xEEu8; base];
    b.extend_from_slice(&0xAAu32.to_le_bytes());
    b.extend_from_slice(&0xBBu32.to_le_bytes());
    b.extend_from_slice(&(strings.len() as u32).to_le_bytes());
    b.extend_from_slice(&0x90B1B2A9u32.to_le_bytes());
    for (id, _) in strings {
        b.extend_from_slice(&id.to_le_bytes());
    }
    let mut offset = 16 + 8 * strings.len();
    for (_, text) in strings {
        b.extend_from_slice(&(offset as u32).to_le_bytes());
        offset += text.len() + 1;
    }
    for (_, text) in strings {
        b.extend_from_slice(text);
        b.push(0);
    }
    b
}

fn header(base: u64) -> DataHeader {
    let mut d = DataHeader::default();
    d.data_offset = base;
    d
}

#[test]
fn string_file_head_is_read_in_place() {
    let b = table_bundle(8, &[(7, b"seven"), (9, b"nine")]);
    let f = StringFile::parse(&b, 8).unwrap();
    assert_eq!(f.unk0, 0xAA);
    assert_eq!(f.unk4, 0xBB);
    assert_eq!(f.string_count, 2);
    assert_eq!(f.language_id, 0x90B1B2A9);
    assert_eq!(f.string_ids, vec![7, 9]);
    assert_eq!(f.string_offsets, vec![32, 38]);
    assert!(StringFile::parse(&b[..8 + 31], 8).is_none());
    assert!(StringFile::parse(&b[..8 + 32], 8).is_some());
}

#[test]
fn strings_are_read_at_their_offsets_from_the_table() {
    let b = table_bundle(8, &[(7, b"seven"), (9, b"nine"), (11, b"")]);
    let table = read_strings(&header(8), &DataReaders::new(b)).unwrap();
    let mut want = HashMap::new();
    want.insert(7u32, "seven".to_string());
    want.insert(9u32, "nine".to_string());
    want.insert(11u32, "".to_string());
    assert_eq!(table, want);
}

#[test]
fn later_string_of_the_same_identifier_wins() {
    let b = table_bundle(0, &[(7, b"first"), (7, b"second")]);
    let table = read_strings(&header(0), &DataReaders::new(b)).unwrap();
    assert_eq!(table.len(), 1);
    assert_eq!(table[&7], "second");
}

#[test]
fn string_without_terminator_is_malformed() {
    let mut b = table_bundle(0, &[(7, b"seven")]);
    b.pop();
    assert_eq!(
        read_strings(&header(0), &DataReaders::new(b.clone())).err(),
        Some(ExtractError::Format)
    );
    assert_eq!(
        extract_strings(&header(0), &DataReaders::new(b)).err(),
        Some(ExtractError::Format)
    );
}

#[test]
fn string_table_beyond_the_bundle_is_malformed() {
    let b = table_bundle(0, &[(7, b"seven")]);
    assert_eq!(
        extract_strings(&header(u64::MAX), &DataReaders::new(b)).err(),
        Some(ExtractError::Format)
    );
}

#[test]
fn string_table_is_written_as_a_json_object() {
    let b = table_bundle(4, &[(7, b"seven"), (9, b"say \"nine\"")]);
    let (bytes, name) = extract_strings(&header(4), &DataReaders::new(b)).unwrap();
    assert_eq!(name, None);
    let text = String::from_utf8(bytes).unwrap();
    let back: HashMap<String, String> = serde_json::from_str(&text).unwrap();
    let mut want = HashMap::new();
    want.insert("7".to_string(), "seven".to_string());
    want.insert("9".to_string(), "say \"nine\"".to_string());
    assert_eq!(back, want);
    assert!(text.contains('\n'));
}

#[test]
fn empty_string_table_is_an_empty_object() {
    let b = table_bundle(0, &[]);
    let (bytes, _) = extract_strings(&header(0), &DataReaders::new(b)).unwrap();
    assert_eq!(bytes, b"{}".to_vec());
}

#[test]
fn failed_serialization_is_an_encoding_error() {
    let failure = serde_json::from_str::<u32>("x").unwrap_err();
    assert_eq!(finish_strings(Err(failure)).err(), Some(ExtractError::Encoding));
    let (bytes, name) = finish_strings(Ok("{\"a\": \"\u{e9}\"}".to_string())).unwrap();
    assert_eq!(bytes, "{\"a\": \"\u{e9}\"}".as_bytes().to_vec());
    assert_eq!(name, None);
}

#[test]
fn every_string_table_that_can_be_read_is_written() {
    let odd: Vec<(u32, Vec<u8>)> = vec![
        (0, b"plain".to_vec()),
        (1, b"quote \" and backslash \\".to_vec()),
        (2, vec![0x01, 0x1F, b'\n', b'\t']),
        (3, vec![0xFF, 0xFE, b'x']),
        (4, "caf\u{e9} \u{1F600}".as_bytes().to_vec()),
        (u32::MAX, b"".to_vec()),
    ];
    let borrowed: Vec<(u32, &[u8])> = odd.iter().map(|(id, t)| (*id, t.as_slice())).collect();
    let b = table_bundle(3, &borrowed);
    let (bytes, name) = extract_strings(&header(3), &DataReaders::new(b)).unwrap();
    assert_eq!(name, None);
    let text = String::from_utf8(bytes).unwrap();
    let back: HashMap<String, String> = serde_json::from_str(&text).unwrap();
    assert_eq!(back.len(), 6);
    assert_eq!(back["1"], "quote \" and backslash \\");
    assert_eq!(back["2"], "\u{1}\u{1f}\n\t");
    assert_eq!(back["3"], "\u{FFFD}\u{FFFD}x");
    assert_eq!(back["4"], "caf\u{e9} \u{1F600}");
    assert_eq!(back["4294967295"], "");
}

#[test]
fn large_string_table_is_written() {
    let texts: Vec<(u32, Vec<u8>)> =
        (0..500u32).map(|i| (i * 7, format!("text {}", i).into_bytes())).collect();
    let borrowed: Vec<(u32, &[u8])> = texts.iter().map(|(id, t)| (*id, t.as_slice())).collect();
    let b = table_bundle(0, &borrowed);
    let (bytes, _) = extract_strings(&header(0), &DataReaders::new(b)).unwrap();
    let back: HashMap<String, String> = serde_json::from_slice(&bytes).unwrap();
    assert_eq!(back.len(), 500);
    assert_eq!(back["3493"], "text 499");
}

#[test]
fn table_with_one_string_is_an_object_with_that_one_member() {
    let mut b = Vec::new();
    for v in [0u32, 0, 1, 0, 5, 24] {
        b.extend_from_slice(&v.to_le_bytes());
    }
    b.extend_from_slice(&[0x68, 0x69, 0x00]);
    let (out, name) = extract_strings(&header(0), &DataReaders::new(b)).unwrap();
    assert_eq!(name, None);
    assert_eq!(out, b"{\n  \"5\": \"hi\"\n}".to_vec());
    let back: HashMap<String, String> = serde_json::from_slice(&out).unwrap();
    assert_eq!(back.len(), 1);
    assert_eq!(back["5"], "hi");
}

#[test]
fn json_object_has_one_member_for_every_identifier() {
    let b = table_bundle(0, &[(3, b"c"), (1, b"a"), (2, b"b"), (1, b"again")]);
    let (out, _) = extract_strings(&header(0), &DataReaders::new(b)).unwrap();
    let text = String::from_utf8(out).unwrap();
    let back: HashMap<String, String> = serde_json::from_str(&text).unwrap();
    let mut keys: Vec<&String> = back.keys().collect();
    keys.sort();
    assert_eq!(keys, vec!["1", "2", "3"]);
    assert_eq!(back["1"], "again");
    assert_eq!(text.matches("\": \"").count(), 3);
}
