use bundle_assets::cache::IdCache;
use bundle_assets::extract::{
    build_id_cache, export_special, extract_asset, extract_files, extract_generic, extract_single,
    find_adjust, finish_special, index_bundle, is_bundle_name, OutputFile, Payload,
};
use bundle_assets::pndb::Pndb;
use bundle_assets::structs::{
    DataHeader, DataReaders, DataType, DataTypes, Id, MinimizedIdHeader,
};
use bundle_assets::ExtractError;

const TEXTURE: u64 = 0xCD4238C6A0C69E32;
const WEM: u64 = 0x504b55235d21440e;
const OTHER: u64 = 0x1234;

fn counted(n: usize, start: u8) -> Vec<u8> {
    (0..n).map(|i| start.wrapping_add(i as u8)).collect()
}

struct Asset {
    id: u64,
    type_id: u64,
    data_offset: u64,
    data_size: u32,
    stream_offset: u32,
    stream_size: u32,
    gpu_offset: u64,
    gpu_size: u32,
    unk4c: u32,
}

fn asset(id: u64, type_id: u64) -> Asset {
    Asset {
        id,
        type_id,
        data_offset: 0,
        data_size: 0,
        stream_offset: 0,
        stream_size: 0,
        gpu_offset: 0,
        gpu_size: 0,
        unk4c: 0,
    }
}

/// A bundle of `size` bytes with the given types (identifier, count, unk10)
/// and assets.
fn bundle(types: &[(u64, u64, u32)], assets: &[Asset], size: usize) -> Vec<u8> {
    let mut b = Vec::new();
    b.extend_from_slice(&0xF0000011u32.to_le_bytes());
    b.extend_from_slice(&(types.len() as u32).to_le_bytes());
    b.extend_from_slice(&(assets.len() as u64).to_le_bytes());
    b.extend_from_slice(&[0u8; 64]);
    for (i, (type_id, count, unk10)) in types.iter().enumerate() {
        b.extend_from_slice(&type_id.to_le_bytes());
        b.extend_from_slice(&count.to_le_bytes());
        b.extend_from_slice(&unk10.to_le_bytes());
        b.extend_from_slice(&0u32.to_le_bytes());
        if i + 1 < types.len() {
            b.extend_from_slice(&[0u8; 8]);
        }
    }
    for a in assets {
        b.extend_from_slice(&a.id.to_le_bytes());
        b.extend_from_slice(&a.type_id.to_le_bytes());
        b.extend_from_slice(&a.data_offset.to_le_bytes());
        b.extend_from_slice(&a.stream_offset.to_le_bytes());
        b.extend_from_slice(&0u32.to_le_bytes());
        b.extend_from_slice(&a.gpu_offset.to_le_bytes());
        b.extend_from_slice(&[0u8; 16]);
        b.extend_from_slice(&a.data_size.to_le_bytes());
        b.extend_from_slice(&a.stream_size.to_le_bytes());
        b.extend_from_slice(&a.gpu_size.to_le_bytes());
        b.extend_from_slice(&[0u8; 8]);
        b.extend_from_slice(&a.unk4c.to_le_bytes());
    }
    let mut k = b.len();
    while b.len() < size {
        b.push(k as u8);
        k += 1;
    }
    b
}

fn bytes_of(f: &OutputFile) -> &Vec<u8> {
    match &f.payload {
        Payload::Bytes(b) => b,
        Payload::Mesh(_) => panic!("a mesh"),
    }
}

fn names(pairs: &[(u64, &str)]) -> Pndb {
    let mut db = Pndb::new();
    for (id, name) in pairs {
        db.name_database.insert(*id, name.to_string());
    }
    db
}

#[test]
fn texture_bundle_with_stream_sidecar_gives_one_file() {
    let mut a = asset(0xA1, TEXTURE);
    a.data_offset = 0x100;
    a.stream_size = 1024;
    a.unk4c = 3;
    let b = bundle(&[(TEXTURE, 1, 0)], &[a], 0x100 + 0xc0 + 0x94);
    let stream = counted(1024, 7);
    let mut readers = DataReaders::new(b.clone());
    readers.set_stream(stream.clone());
    let outcomes =
        extract_files(&IdCache::new(), "00000000000000b1", None, &readers, &Pndb::new()).unwrap();
    assert_eq!(outcomes.len(), 1);
    let files = outcomes[0].as_ref().unwrap().as_ref().unwrap();
    assert_eq!(files.len(), 1);
    let f = &files[0];
    assert_eq!(bytes_of(f).len(), 0x94 + 1024);
    assert_eq!(&bytes_of(f)[..0x94], &b[0x100 + 0xc0..0x100 + 0xc0 + 0x94]);
    assert_eq!(&bytes_of(f)[0x94..], &stream[..]);
    assert_eq!(f.folder, "Texture");
    assert_eq!(f.subfolder, None);
    assert_eq!(f.name, "3_00000000000000a1");
    assert_eq!(f.extension, "dds");
}

#[test]
fn one_failed_asset_does_not_keep_the_others_from_being_extracted() {
    let mut wem = asset(0xA1, WEM);
    wem.stream_offset = 100;
    wem.stream_size = 64;
    let mut good = asset(0xA2, WEM);
    good.stream_size = 16;
    let b = bundle(&[(WEM, 2, 0)], &[wem, good], 0);
    let mut readers = DataReaders::new(b);
    readers.set_stream(counted(64, 0));
    let outcomes = extract_files(&IdCache::new(), "b1", None, &readers, &Pndb::new()).unwrap();
    assert_eq!(outcomes.len(), 2);
    assert_eq!(
        outcomes[0].as_ref().unwrap().as_ref().err(),
        Some(&ExtractError::MissingPayload)
    );
    let files = outcomes[1].as_ref().unwrap().as_ref().unwrap();
    assert_eq!(bytes_of(&files[0]), &counted(16, 0));
    assert_eq!(files[0].folder, "WwiseWem");
    assert_eq!(files[0].extension, "wem");
}

#[test]
fn type_filter_leaves_other_assets_out() {
    let mut wem = asset(0xA1, WEM);
    wem.stream_size = 8;
    let mut other = asset(0xA2, OTHER);
    other.stream_size = 8;
    let b = bundle(&[(WEM, 1, 0), (OTHER, 1, 0)], &[wem, other], 0);
    let mut readers = DataReaders::new(b);
    readers.set_stream(counted(64, 0));
    let outcomes =
        extract_files(&IdCache::new(), "b1", Some(DataTypes::WwiseWem), &readers, &Pndb::new())
            .unwrap();
    assert!(outcomes[0].is_some());
    assert!(outcomes[1].is_none());
    let unknown =
        extract_files(&IdCache::new(), "b1", Some(DataTypes::Unknown), &readers, &Pndb::new())
            .unwrap();
    assert!(unknown[0].is_none());
    assert!(unknown[1].is_some());
}

#[test]
fn bundle_whose_tables_cannot_be_read_fails_as_a_whole() {
    let readers = DataReaders::new(vec![0u8; 200]);
    assert_eq!(
        extract_files(&IdCache::new(), "b1", None, &readers, &Pndb::new()).err(),
        Some(ExtractError::Format)
    );
}

#[test]
fn bundle_whose_name_is_no_identifier_fails_once_an_asset_is_wanted() {
    let mut wem = asset(0xA1, WEM);
    wem.stream_size = 8;
    let b = bundle(&[(WEM, 1, 0)], &[wem], 0);
    let readers = DataReaders::new(b);
    assert_eq!(
        extract_files(&IdCache::new(), "readme", None, &readers, &Pndb::new()).err(),
        Some(ExtractError::Format)
    );
    let none =
        extract_files(&IdCache::new(), "readme", Some(DataTypes::Texture), &readers, &Pndb::new())
            .unwrap();
    assert_eq!(none.len(), 1);
    assert!(none[0].is_none());
}

#[test]
fn asset_without_reconstructor_is_cut_out_of_its_three_sources() {
    let mut other = asset(0xA2, OTHER);
    other.data_offset = 0x10;
    other.data_size = 4;
    other.stream_offset = 2;
    other.stream_size = 5;
    other.gpu_offset = 3;
    other.gpu_size = 6;
    let b = bundle(&[(WEM, 0, 9), (OTHER, 1, 2)], &[other], 0x200);
    let mut readers = DataReaders::new(b.clone());
    readers.set_stream(counted(32, 50));
    readers.set_gpu(counted(32, 150));
    let db = names(&[(0xA2, "props/barrel")]);
    let outcomes = extract_files(&IdCache::new(), "b1", None, &readers, &db).unwrap();
    let files = outcomes[0].as_ref().unwrap().as_ref().unwrap();
    assert_eq!(files.len(), 3);
    for f in files.iter() {
        assert_eq!(f.folder, "Unknown_0000000000001234");
        assert_eq!(f.subfolder.as_deref(), Some("props/barrel"));
        assert_eq!(f.name, "0_00000000000000a2");
    }
    assert_eq!(files[0].extension, "bundle.bin");
    assert_eq!(files[1].extension, "stream.bin");
    assert_eq!(files[2].extension, "gpu.bin");
    assert_eq!(bytes_of(&files[0]), &b[0x12..0x16].to_vec());
    assert_eq!(bytes_of(&files[1]), &counted(32, 50)[2..7].to_vec());
    assert_eq!(bytes_of(&files[2]), &counted(32, 150)[3..9].to_vec());
}

#[test]
fn asset_number_in_file_names_is_its_place_in_the_bundle() {
    let mut first = asset(0xA1, OTHER);
    first.stream_size = 1;
    let mut second = asset(0xA2, OTHER);
    second.stream_size = 1;
    let b = bundle(&[(OTHER, 2, 0)], &[first, second], 0);
    let mut readers = DataReaders::new(b);
    readers.set_stream(counted(4, 0));
    let outcomes = extract_files(&IdCache::new(), "b1", None, &readers, &Pndb::new()).unwrap();
    let name = |i: usize| outcomes[i].as_ref().unwrap().as_ref().unwrap()[0].name.clone();
    assert_eq!(name(0), "0_00000000000000a1");
    assert_eq!(name(1), "1_00000000000000a2");
}

#[test]
fn generic_extraction_skips_sources_without_bytes() {
    let mut d = DataHeader::default();
    d.unk_id = Id::new(0xA1);
    d.type_id = Id::new(WEM);
    d.gpu_data_offset = 1;
    d.gpu_data_size = 2;
    let mut readers = DataReaders::new(vec![]);
    readers.set_gpu(counted(8, 0));
    let files = extract_generic(&d, 0, 12, &readers, &Pndb::new()).unwrap();
    assert_eq!(files.len(), 1);
    assert_eq!(files[0].folder, "WwiseWem_504b55235d21440e");
    assert_eq!(files[0].name, "12_00000000000000a1");
    assert_eq!(files[0].extension, "gpu.bin");
    assert_eq!(bytes_of(&files[0]), &vec![1, 2]);
    assert_eq!(extract_generic(&DataHeader::default(), 0, 0, &readers, &Pndb::new()).unwrap().len(), 0);
}

#[test]
fn generic_extraction_fails_on_the_first_range_that_cannot_be_had() {
    let mut d = DataHeader::default();
    d.data_size = 4;
    d.stream_data_size = 4;
    let readers = DataReaders::new(counted(3, 0));
    assert_eq!(
        extract_generic(&d, 0, 0, &readers, &Pndb::new()).err(),
        Some(ExtractError::Format)
    );
    let readers = DataReaders::new(counted(8, 0));
    assert_eq!(
        extract_generic(&d, 0, 0, &readers, &Pndb::new()).err(),
        Some(ExtractError::MissingPayload)
    );
    assert_eq!(
        extract_generic(&d, 5, 0, &readers, &Pndb::new()).err(),
        Some(ExtractError::Format)
    );
    d.data_offset = u64::MAX;
    assert_eq!(
        extract_generic(&d, 1, 0, &readers, &Pndb::new()).err(),
        Some(ExtractError::Format)
    );
}

#[test]
fn asset_with_bundle_bytes_of_a_type_outside_the_table_is_malformed() {
    let mut d = DataHeader::default();
    d.data_size = 2;
    let readers = DataReaders::new(counted(8, 0));
    assert_eq!(
        extract_asset(&IdCache::new(), &Id::invalid(), &d, None, 0, &readers, &Pndb::new()).err(),
        Some(ExtractError::Format)
    );
    d.data_size = 0;
    assert_eq!(
        extract_asset(&IdCache::new(), &Id::invalid(), &d, None, 0, &readers, &Pndb::new())
            .unwrap()
            .len(),
        0
    );
}

#[test]
fn adjustment_is_that_of_the_last_entry_of_the_type() {
    let t = |id: u64, unk10: u32| DataType { type_id: Id::new(id), data_count: 0, unk10, unk14: 0 };
    let types = vec![t(1, 10), t(2, 20), t(1, 30)];
    assert_eq!(find_adjust(&types, Id::new(1)), Some(30));
    assert_eq!(find_adjust(&types, Id::new(2)), Some(20));
    assert_eq!(find_adjust(&types, Id::new(3)), None);
    assert_eq!(find_adjust(&vec![], Id::new(1)), None);
}

#[test]
fn dispatch_is_by_the_decoded_type() {
    let readers = DataReaders::new(vec![]);
    let mut d = DataHeader::default();
    for t in [
        DataTypes::Unknown,
        DataTypes::WwiseDep,
        DataTypes::WwiseMetadata,
        DataTypes::WwiseProperties,
    ] {
        d.type_enum = t;
        assert!(export_special(&IdCache::new(), &Id::invalid(), &d, &readers, &Pndb::new())
            .is_none());
    }
    for t in [
        DataTypes::Texture,
        DataTypes::Unit,
        DataTypes::WwiseBNK,
        DataTypes::WwiseWem,
        DataTypes::String,
    ] {
        d.type_enum = t;
        assert!(export_special(&IdCache::new(), &Id::invalid(), &d, &readers, &Pndb::new())
            .is_some());
    }
}

#[test]
fn string_table_is_dispatched_to_its_reconstructor() {
    let mut table = vec![0u8; 16];
    table[8] = 0;
    let mut d = DataHeader::default();
    d.type_id = DataTypes::String.as_id();
    d.type_enum = DataTypes::String;
    d.unk_id = Id::new(0x51);
    let readers = DataReaders::new(table);
    let f = export_special(&IdCache::new(), &Id::invalid(), &d, &readers, &Pndb::new())
        .unwrap()
        .unwrap();
    assert_eq!(f.folder, "String");
    assert_eq!(f.extension, "json");
    assert_eq!(f.name, "0_0000000000000051");
    assert_eq!(bytes_of(&f), &b"{}".to_vec());
}

#[test]
fn reconstructed_file_is_named_by_proposal_then_database_then_number() {
    let mut d = DataHeader::default();
    d.unk_id = Id::new(0xA1);
    d.unk4c = 42;
    d.type_id = Id::new(0x535A7BD3E650D799);
    d.type_enum = DataTypes::WwiseBNK;
    let db = names(&[(0xA1, "from/database")]);
    let proposed =
        finish_special(&d, &db, Payload::Bytes(vec![1]), Some("proposed".to_string()));
    assert_eq!(proposed.name, "proposed");
    assert_eq!(proposed.folder, "WwiseBNK");
    assert_eq!(proposed.extension, "bnk");
    assert_eq!(proposed.subfolder, None);
    let known = finish_special(&d, &db, Payload::Bytes(vec![1]), None);
    assert_eq!(known.name, "from/database");
    let numbered = finish_special(&d, &Pndb::new(), Payload::Bytes(vec![1]), None);
    assert_eq!(numbered.name, "42_00000000000000a1");
}

#[test]
fn bank_in_a_bundle_is_looked_up_in_that_bundle_only() {
    let mut bank = asset(0xBEEF, 0x535A7BD3E650D799);
    bank.data_offset = 0x100;
    bank.data_size = 40;
    let mut b = bundle(&[(0x535A7BD3E650D799, 1, 0)], &[bank], 0x200);
    b[0x104..0x108].copy_from_slice(&24u32.to_le_bytes());
    b[0x108..0x110].copy_from_slice(&0x77u64.to_be_bytes());
    b[0x180..0x18D].copy_from_slice(b"\0\0\0\0\0\0\0\0path\0");
    let readers = DataReaders::new(b);
    let companion = MinimizedIdHeader {
        id: Id::new(0x77),
        type_id: DataTypes::WwiseDep.as_id(),
        data_offset: 0x180,
        data_size: 13,
        stream_data_offset: 0,
        stream_data_size: 0,
        gpu_data_offset: 0,
        gpu_data_size: 0,
    };
    let mut cache = IdCache::new();
    cache.bundles.insert(0xB2, vec![companion]);
    let name = |bundle_file: &str, cache: &IdCache| {
        let outcomes = extract_files(cache, bundle_file, None, &readers, &Pndb::new()).unwrap();
        outcomes[0].as_ref().unwrap().as_ref().unwrap()[0].name.clone()
    };
    assert_eq!(name("b1", &cache), "000000000000beef");
    assert_eq!(name("b2", &cache), "path");
}

#[test]
fn single_asset_is_extracted_from_its_minimized_header() {
    let h = MinimizedIdHeader {
        id: Id::new(0xA1),
        type_id: Id::new(WEM),
        data_offset: 0,
        data_size: 0,
        stream_data_offset: 4,
        stream_data_size: 8,
        gpu_data_offset: 0,
        gpu_data_size: 0,
    };
    let mut readers = DataReaders::new(vec![]);
    readers.set_stream(counted(16, 0));
    let files = extract_single(&IdCache::new(), h, &readers, &Pndb::new()).unwrap();
    assert_eq!(files.len(), 1);
    assert_eq!(files[0].folder, "WwiseWem");
    assert_eq!(files[0].name, "0_00000000000000a1");
    assert_eq!(bytes_of(&files[0]), &counted(16, 0)[4..12].to_vec());
}

#[test]
fn single_asset_without_reconstructor_is_cut_out_without_adjustment() {
    let h = MinimizedIdHeader {
        id: Id::new(0xA1),
        type_id: Id::new(OTHER),
        data_offset: 2,
        data_size: 3,
        stream_data_offset: 0,
        stream_data_size: 0,
        gpu_data_offset: 0,
        gpu_data_size: 0,
    };
    let readers = DataReaders::new(counted(16, 0));
    let files = extract_single(&IdCache::new(), h, &readers, &Pndb::new()).unwrap();
    assert_eq!(files.len(), 1);
    assert_eq!(files[0].extension, "bundle.bin");
    assert_eq!(bytes_of(&files[0]), &vec![2, 3, 4]);
}

#[test]
fn names_with_a_dot_and_game_are_no_bundles() {
    assert!(is_bundle_name("00000000000000b1"));
    assert!(is_bundle_name("games"));
    assert!(is_bundle_name(""));
    assert!(!is_bundle_name("game"));
    assert!(!is_bundle_name("00000000000000b1.stream"));
    assert!(!is_bundle_name(".hidden"));
    assert!(!is_bundle_name("trailing."));
}

#[test]
fn index_is_built_from_the_bundles_of_a_folder() {
    let mut first = asset(0xA1, TEXTURE);
    first.data_offset = 0x10;
    first.data_size = 0x20;
    first.stream_offset = 0x30;
    first.stream_size = 0x40;
    first.gpu_offset = 0x50;
    first.gpu_size = 0x60;
    let b1 = bundle(&[(TEXTURE, 1, 0)], &[first], 0);
    let b2 = bundle(&[(WEM, 2, 0)], &[asset(0xA2, WEM), asset(0xA3, WEM)], 0);
    let files = vec![
        ("00000000000000b1".to_string(), b1.clone()),
        ("00000000000000b1.stream".to_string(), b1.clone()),
        ("game".to_string(), b1.clone()),
        ("B2".to_string(), b2),
        ("b3".to_string(), vec![0u8; 10]),
        ("not hex".to_string(), b1),
    ];
    let cache = build_id_cache(&files);
    assert_eq!(cache.bundles.len(), 2);
    assert_eq!(
        cache.bundles[&0xB1],
        vec![MinimizedIdHeader {
            id: Id::new(0xA1),
            type_id: Id::new(TEXTURE),
            data_offset: 0x10,
            data_size: 0x20,
            stream_data_offset: 0x30,
            stream_data_size: 0x40,
            gpu_data_offset: 0x50,
            gpu_data_size: 0x60,
        }]
    );
    let ids: Vec<u64> = cache.bundles[&0xB2].iter().map(|h| h.id.value()).collect();
    assert_eq!(ids, vec![0xA2, 0xA3]);
}

#[test]
fn bundle_added_again_replaces_its_entry() {
    let mut cache = IdCache::new();
    let b1 = bundle(&[(WEM, 1, 0)], &[asset(0xA1, WEM)], 0);
    let b2 = bundle(&[(WEM, 1, 0)], &[asset(0xA2, WEM)], 0);
    assert!(index_bundle(&mut cache, "b1", &b1));
    assert!(index_bundle(&mut cache, "b1", &b2));
    assert!(!index_bundle(&mut cache, "b1", &[]));
    assert!(!index_bundle(&mut cache, "game", &b1));
    assert_eq!(cache.bundles.len(), 1);
    assert_eq!(cache.bundles[&0xB1][0].id, Id::new(0xA2));
}

#[test]
fn dispatched_string_table_gives_a_json_file_that_holds_the_mapping() {
    let mut table = Vec::new();
    for v in [0u32, 0, 2, 0, 7, 9, 32, 38] {
        table.extend_from_slice(&v.to_le_bytes());
    }
    table.extend_from_slice(b"seven\0nine\0");
    let mut d = DataHeader::default();
    d.type_id = DataTypes::String.as_id();
    d.type_enum = DataTypes::String;
    d.unk_id = Id::new(0x51);
    d.unk4c = 2;
    let readers = DataReaders::new(table);
    let f = export_special(&IdCache::new(), &Id::invalid(), &d, &readers, &Pndb::new())
        .unwrap()
        .unwrap();
    assert_eq!(f.folder, "String");
    assert_eq!(f.name, "2_0000000000000051");
    assert_eq!(f.extension, "json");
    let back: std::collections::HashMap<String, String> =
        serde_json::from_slice(bytes_of(&f)).unwrap();
    assert_eq!(back.len(), 2);
    assert_eq!(back["7"], "seven");
    assert_eq!(back["9"], "nine");
}

#[test]
fn unreadable_string_table_gives_no_file() {
    let mut d = DataHeader::default();
    d.type_enum = DataTypes::String;
    let readers = DataReaders::new(vec![0u8; 15]);
    let r = export_special(&IdCache::new(), &Id::invalid(), &d, &readers, &Pndb::new()).unwrap();
    assert_eq!(r.err(), Some(ExtractError::Format));
}
