use bundle_assets::structs::{DataTypes, Id};

#[test]
fn id_text_is_sixteen_lower_case_hex_digits() {
    assert_eq!(Id::new(0xCD4238C6A0C69E32).to_string(), "cd4238c6a0c69e32");
    assert_eq!(Id::new(0).to_string(), "0000000000000000");
    assert_eq!(Id::invalid().to_string(), "ffffffffffffffff");
}

#[test]
fn id_parse_accepts_either_case() {
    assert_eq!(Id::parse("CD4238c6a0c69e32"), Some(Id::new(0xCD4238C6A0C69E32)));
    assert_eq!(Id::parse("+ff"), Some(Id::new(255)));
    assert_eq!(Id::parse(""), None);
    assert_eq!(Id::parse("+"), None);
    assert_eq!(Id::parse("xyz"), None);
    assert_eq!(Id::parse("10000000000000000"), None);
    assert_eq!(Id::parse("00000000000000000001"), Some(Id::new(1)));
}

#[test]
fn type_codes_decode() {
    assert_eq!(Id::new(0xCD4238C6A0C69E32).as_enum(), DataTypes::Texture);
    assert_eq!(Id::new(5).as_enum(), DataTypes::Unknown);
    assert_eq!(DataTypes::Unit.as_id(), Id::new(0xE0A48D0BE9A7453F));
    assert_eq!(DataTypes::Unit.extension(), "obj");
    assert_eq!(DataTypes::WwiseDep.extension(), "bin");
}

#[test]
fn identifiers_convert_to_and_from_numbers() {
    assert_eq!(Id::from(7u64), Id::new(7));
    assert_eq!(u64::from(Id::new(7)), 7);
    assert_eq!(Id::new(7).value(), 7);
    assert_eq!(Id::invalid().value(), u64::MAX);
    assert_eq!(Id::default(), Id::new(0));
}

#[test]
fn every_type_decodes_from_its_own_identifier() {
    let all = [
        (DataTypes::Unknown, 0xFFFFFFFFFFFFFFFFu64, "Unknown", "bin"),
        (DataTypes::WwiseWem, 0x504b55235d21440e, "WwiseWem", "wem"),
        (DataTypes::WwiseBNK, 0x535A7BD3E650D799, "WwiseBNK", "bnk"),
        (DataTypes::Texture, 0xCD4238C6A0C69E32, "Texture", "dds"),
        (DataTypes::Unit, 0xE0A48D0BE9A7453F, "Unit", "obj"),
        (DataTypes::String, 0x0D972BAB10B40FD3, "String", "json"),
        (DataTypes::WwiseDep, 0xAF32095C82F2B070, "WwiseDep", "bin"),
        (DataTypes::WwiseMetadata, 0xD50A8B7E1C82B110, "WwiseMetadata", "bin"),
        (DataTypes::WwiseProperties, 0x5FDD5FE391076F9F, "WwiseProperties", "bin"),
    ];
    for (t, code, name, extension) in all {
        assert_eq!(t.as_id(), Id::new(code));
        assert_eq!(Id::new(code).as_enum(), t);
        assert_eq!(t.name(), name);
        assert_eq!(t.extension(), extension);
    }
    assert_eq!(DataTypes::default(), DataTypes::Unknown);
}

#[test]
fn identifier_text_reads_back_as_the_identifier() {
    for v in [0u64, 1, 0xA1, 0x0123456789abcdef, u64::MAX, 0xCD4238C6A0C69E32] {
        let id = Id::new(v);
        assert_eq!(Id::parse(&id.to_string()), Some(id));
        assert_eq!(id.to_string().len(), 16);
    }
}
