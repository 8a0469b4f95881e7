use fileemu_utoc_stream_emulator::io_package::{
    is_valid_asset_type, tag_hash, FGraphExternalArc, FGraphPackage, FPackageSummary2,
    IoStoreObjectIndex, ObjectImport, UASSET_MAGIC,
};
use fileemu_utoc_stream_emulator::partition::{
    file_extension, file_name, file_stem, find_first, find_from, replace_all, split_after,
    to_chars, GameName, GameNameImpl,
};
use fileemu_utoc_stream_emulator::serialize::{
    read_i32_le, read_i64_le, read_u32_le, read_u64_le, read_uint_le, write_bytes, write_u16_le,
    write_u32_le, write_u64_le, write_u8, write_uint_be, write_uint_le, write_zeros,
};
use fileemu_utoc_stream_emulator::string::{
    encode_utf16_le, str_eq, utf8_to_string, FString16, FString32NoHash, FStringData, Hasher16,
    NAME_HASH_ALGORITHM,
};

fn utf16_le(text: &str) -> Vec<u8> {
    let mut out = Vec::new();
    for unit in text.encode_utf16() {
        out.push((unit & 0xff) as u8);
        out.push((unit >> 8) as u8);
    }
    out
}

#[test]
fn little_endian_integers_are_written_low_byte_first() {
    let mut out = vec![0xAAu8];
    write_u8(&mut out, 0x7F);
    write_u16_le(&mut out, 0x1234);
    write_u32_le(&mut out, 0x89AB_CDEF);
    write_u64_le(&mut out, 0x0102_0304_0506_0708);
    assert_eq!(
        out,
        vec![
            0xAA, 0x7F, 0x34, 0x12, 0xEF, 0xCD, 0xAB, 0x89, 0x08, 0x07, 0x06, 0x05, 0x04, 0x03,
            0x02, 0x01
        ]
    );
}

#[test]
fn five_byte_fields_in_both_byte_orders() {
    let mut le = Vec::new();
    write_uint_le(&mut le, 0x01_0203_0405, 5);
    assert_eq!(le, vec![0x05, 0x04, 0x03, 0x02, 0x01]);
    let mut be = Vec::new();
    write_uint_be(&mut be, 0x01_0203_0405, 5);
    assert_eq!(be, vec![0x01, 0x02, 0x03, 0x04, 0x05]);
    let mut three = Vec::new();
    write_uint_le(&mut three, 0xFF_FFFF, 3);
    assert_eq!(three, vec![0xFF, 0xFF, 0xFF]);
}

#[test]
fn zeros_and_bytes_are_appended() {
    let mut out = vec![1u8];
    write_zeros(&mut out, 3);
    write_bytes(&mut out, &[9, 8]);
    write_zeros(&mut out, 0);
    assert_eq!(out, vec![1, 0, 0, 0, 9, 8]);
}

#[test]
fn integers_are_read_back_at_a_position() {
    let buf = vec![0xFFu8, 0x78, 0x56, 0x34, 0x12, 0xEF, 0xCD, 0xAB, 0x89];
    assert_eq!(read_u32_le(&buf, 1), Some(0x1234_5678));
    assert_eq!(read_u64_le(&buf, 1), Some(0x89AB_CDEF_1234_5678));
    assert_eq!(read_uint_le(&buf, 0, 3), Some(0x56_78FF));
    assert_eq!(read_u32_le(&buf, 6), None);
    assert_eq!(read_u64_le(&buf, 2), None);
    assert_eq!(read_u32_le(&buf, 100), None);
    assert_eq!(read_u32_le(&buf, usize::MAX), None);
}

#[test]
fn signed_integers_are_read_in_twos_complement() {
    let minus_two = vec![0xFEu8, 0xFF, 0xFF, 0xFF, 0xFF, 0xFF, 0xFF, 0xFF];
    assert_eq!(read_i32_le(&minus_two, 0), Some(-2));
    assert_eq!(read_i64_le(&minus_two, 0), Some(-2));
    let lowest = vec![0u8, 0, 0, 0x80];
    assert_eq!(read_i32_le(&lowest, 0), Some(i32::MIN));
    let highest = vec![0xFFu8, 0xFF, 0xFF, 0x7F];
    assert_eq!(read_i32_le(&highest, 0), Some(i32::MAX));
    assert_eq!(read_i32_le(&highest, 1), None);
}

#[test]
fn written_integers_read_back_as_written() {
    for value in [0u32, 1, 255, 256, 0xFFFF, 0x1_0000, 0x7FFF_FFFF, 0x8000_0000, u32::MAX] {
        let mut out = vec![7u8, 7];
        write_u32_le(&mut out, value);
        assert_eq!(read_u32_le(&out, 2), Some(value));
    }
    for value in [0u64, 0xFF_FFFF_FFFF, u64::MAX] {
        let mut out = Vec::new();
        write_u64_le(&mut out, value);
        assert_eq!(read_u64_le(&out, 0), Some(value));
    }
}

#[test]
fn string_with_32_bit_prefix_counts_the_terminator() {
    let mut out = Vec::new();
    FString32NoHash::to_buffer("abc", &mut out);
    assert_eq!(out, vec![4, 0, 0, 0, b'a', b'b', b'c', 0]);
    assert_eq!(FString32NoHash::get_expected_length("abc"), 8);
    let mut empty = Vec::new();
    FString32NoHash::to_buffer("", &mut empty);
    assert_eq!(empty, vec![1, 0, 0, 0, 0]);
    assert_eq!(FString32NoHash::get_expected_length(""), 5);
}

#[test]
fn mount_point_is_serialized_with_its_terminator() {
    let mut out = Vec::new();
    FString32NoHash::to_buffer("../../../", &mut out);
    assert_eq!(out.len(), 14);
    assert_eq!(&out[..4], &[10, 0, 0, 0]);
    assert_eq!(&out[4..13], b"../../../");
    assert_eq!(out[13], 0);
}

#[test]
fn string_with_32_bit_prefix_is_read_back() {
    let mut buf = vec![0xEEu8];
    FString32NoHash::to_buffer("Content", &mut buf);
    buf.push(0x55);
    match FString32NoHash::from_buffer(&buf, 1) {
        Some((FStringData::Narrow(text), next)) => {
            assert_eq!(text, b"Content".to_vec());
            assert_eq!(next, 1 + 4 + 7 + 1);
        }
        other => panic!("unexpected result {:?}", other),
    }
}

#[test]
fn string_reader_tells_empty_wide_and_cut_off_strings_apart() {
    let empty = vec![0u8, 0, 0, 0];
    assert!(matches!(FString32NoHash::from_buffer(&empty, 0), Some((FStringData::Empty, 4))));
    // A count of -2: two UTF-16 units, the second being the terminator.
    let wide = vec![0xFEu8, 0xFF, 0xFF, 0xFF, b'A', 0, 0, 0];
    match FString32NoHash::from_buffer(&wide, 0) {
        Some((FStringData::Wide(text), next)) => {
            assert_eq!(text, vec![b'A', 0]);
            assert_eq!(next, 8);
        }
        other => panic!("unexpected result {:?}", other),
    }
    let cut = vec![5u8, 0, 0, 0, b'a', b'b'];
    assert!(FString32NoHash::from_buffer(&cut, 0).is_none());
    assert!(FString32NoHash::from_buffer(&cut, 3).is_none());
    let cut_wide = vec![0xFEu8, 0xFF, 0xFF, 0xFF, b'A', 0, 0];
    assert!(FString32NoHash::from_buffer(&cut_wide, 0).is_none());
}

#[test]
fn string_with_16_bit_prefix_has_no_terminator() {
    let mut out = Vec::new();
    FString16::to_buffer("Game", &mut out);
    assert_eq!(out, vec![4, 0, b'G', b'a', b'm', b'e']);
}

#[test]
fn utf16_encoding_of_plain_and_supplementary_characters() {
    assert_eq!(encode_utf16_le("Ab"), vec![b'A', 0, b'b', 0]);
    assert_eq!(encode_utf16_le(""), Vec::<u8>::new());
    assert_eq!(encode_utf16_le("\u{e9}"), vec![0xE9, 0x00]);
    assert_eq!(encode_utf16_le("\u{20ac}"), vec![0xAC, 0x20]);
    // U+1F600 is the surrogate pair D83D DE00.
    assert_eq!(encode_utf16_le("\u{1F600}"), vec![0x3D, 0xD8, 0x00, 0xDE]);
    assert_eq!(encode_utf16_le("a\u{10FFFF}z"), utf16_le("a\u{10FFFF}z"));
    assert_eq!(encode_utf16_le("/Game/T_Chair_M"), utf16_le("/Game/T_Chair_M"));
}

#[test]
fn name_hash_is_city_hash_of_lowercased_utf16() {
    let expected: u64 = cityhasher::hash(utf16_le("/game/t_chair_m"));
    assert_eq!(Hasher16::get_cityhash64("/Game/T_Chair_M"), expected);
    assert_eq!(Hasher16::get_cityhash64("/game/t_chair_m"), expected);
    let container: u64 = cityhasher::hash(utf16_le("unrealessentials_p"));
    assert_eq!(Hasher16::get_cityhash64("UnrealEssentials_P"), container);
}

#[test]
fn name_hash_is_stable_and_tells_names_apart() {
    let first = Hasher16::get_cityhash64("/Game/A");
    let again = Hasher16::get_cityhash64("/Game/A");
    let other = Hasher16::get_cityhash64("/Game/B");
    assert_eq!(first, again);
    assert_ne!(first, other);
    // The hash is taken of the UTF-16 form, not of the UTF-8 bytes.
    let of_utf8: u64 = cityhasher::hash("/game/a");
    assert_ne!(first, of_utf8);
    // The reference value of CityHash64 for the bytes of "world".
    let reference: u64 = cityhasher::hash("world");
    assert_eq!(reference, 16436542438370751598);
}

#[test]
fn name_hash_algorithm_identifier() {
    assert_eq!(NAME_HASH_ALGORITHM, 0x0000_0000_C164_0000);
}

#[test]
fn texts_are_compared_by_content() {
    assert!(str_eq("uasset", "uasset"));
    assert!(!str_eq("uasset", "Uasset"));
    assert!(!str_eq("uasset", "uasse"));
    assert!(str_eq("", ""));
    assert!(str_eq("h\u{e9}", "h\u{e9}"));
}

#[test]
fn file_names_are_split_at_the_last_dot() {
    assert_eq!(file_stem("T_Chair_M.uasset"), "T_Chair_M");
    assert_eq!(file_extension("T_Chair_M.uasset"), Some("uasset"));
    assert_eq!(file_stem("a.b.c"), "a.b");
    assert_eq!(file_extension("a.b.c"), Some("c"));
    assert_eq!(file_stem("noext"), "noext");
    assert_eq!(file_extension("noext"), None);
    assert_eq!(file_stem(".hidden"), ".hidden");
    assert_eq!(file_extension(".hidden"), None);
    assert_eq!(file_stem("trailing."), "trailing");
    assert_eq!(file_extension("trailing."), Some(""));
    assert_eq!(file_stem(""), "");
    assert_eq!(file_extension(""), None);
}

#[test]
fn last_component_follows_the_last_separator() {
    assert_eq!(file_name("C:\\mods\\a\\UnrealEssentials_P.utoc"), "UnrealEssentials_P.utoc");
    assert_eq!(file_name("/mods/a/UnrealEssentials_P.utoc"), "UnrealEssentials_P.utoc");
    assert_eq!(file_name("mixed\\one/two.ucas"), "two.ucas");
    assert_eq!(file_name("plain"), "plain");
    assert_eq!(file_name("dir/"), "");
    assert_eq!(file_name(""), "");
}

#[test]
fn first_occurrence_of_a_pattern() {
    assert_eq!(split_after("Root/Content/Dir/File", "Root/Content"), Some("/Dir/File"));
    assert_eq!(split_after("Root/Root/Content/x", "Root/Content"), Some("/x"));
    assert_eq!(split_after("abcabc", "bc"), Some("abc"));
    assert_eq!(split_after("abc", "abc"), Some(""));
    assert_eq!(split_after("abc", ""), Some("abc"));
    assert_eq!(split_after("", ""), Some(""));
    assert_eq!(split_after("abc", "abcd"), None);
    assert_eq!(split_after("Root/Other/File", "Root/Content"), None);
    assert_eq!(find_first(&to_chars("xxabxx"), &to_chars("ab")), Some(2));
    assert_eq!(find_first(&to_chars("xxabxxab"), &to_chars("ab")), Some(2));
    assert_eq!(find_first(&to_chars("xx"), &to_chars("ab")), None);
}

#[test]
fn game_names_are_kept() {
    let names = GameNameImpl::new("TestingSrc", "Game");
    assert_eq!(names.get_project_name(), "TestingSrc");
    assert_eq!(names.get_game_name(), "Game");
}

#[test]
fn cooked_packages_are_told_by_their_magic() {
    assert_eq!(UASSET_MAGIC, 0x9E2A83C1);
    assert!(!is_valid_asset_type(&[0xC1, 0x83, 0x2A, 0x9E]));
    assert!(!is_valid_asset_type(&[0xC1, 0x83, 0x2A, 0x9E, 0x00, 0x01]));
    assert!(is_valid_asset_type(&[0x9E, 0x2A, 0x83, 0xC1]));
    assert!(is_valid_asset_type(&[0xC1, 0x83, 0x2A]));
    assert!(is_valid_asset_type(&[]));
    assert!(is_valid_asset_type(&[0u8; 16]));
}

#[test]
fn object_index_carries_its_tag_in_the_two_high_bits() {
    assert_eq!(tag_hash(u64::MAX, 0), 0x3FFF_FFFF_FFFF_FFFF);
    assert_eq!(tag_hash(u64::MAX, 1), 0x7FFF_FFFF_FFFF_FFFF);
    assert_eq!(tag_hash(0, 2), 0x8000_0000_0000_0000);
    assert_eq!(tag_hash(5, 3), 0xC000_0000_0000_0005);
    let name = "/Script/Engine";
    let hash = Hasher16::get_cityhash64(name);
    let index = IoStoreObjectIndex::generate_hash(name, 1);
    assert_eq!(index >> 62, 1);
    assert_eq!(index & 0x3FFF_FFFF_FFFF_FFFF, hash & 0x3FFF_FFFF_FFFF_FFFF);
    assert_eq!(IoStoreObjectIndex::generate_hash(name, 2) >> 62, 2);
}

#[test]
fn object_indices_are_serialized_in_eight_bytes() {
    let map = vec![
        IoStoreObjectIndex::Export(3),
        IoStoreObjectIndex::Empty,
        IoStoreObjectIndex::PackageImport(String::from("/Game/A")),
    ];
    let mut out = Vec::new();
    ObjectImport::map_to_buffer(&map, &mut out);
    assert_eq!(out.len(), 24);
    assert_eq!(&out[..8], &[3, 0, 0, 0, 0, 0, 0, 0]);
    assert_eq!(&out[8..16], &[0xFF; 8]);
    let expected = IoStoreObjectIndex::generate_hash("/Game/A", 2);
    assert_eq!(read_u64_le(&out, 16), Some(expected));
}

#[test]
fn object_index_is_read_by_its_tag() {
    let mut buf = Vec::new();
    write_u64_le(&mut buf, 0x0000_0000_0000_0007);
    write_u64_le(&mut buf, 0x4000_0000_0000_0007);
    write_u64_le(&mut buf, 0x8000_0000_0000_0007);
    write_u64_le(&mut buf, u64::MAX);
    assert!(matches!(
        IoStoreObjectIndex::from_buffer(&buf, 0),
        Some(IoStoreObjectIndex::Export(0))
    ));
    assert!(matches!(
        IoStoreObjectIndex::from_buffer(&buf, 8),
        Some(IoStoreObjectIndex::ScriptImport(_))
    ));
    assert!(matches!(
        IoStoreObjectIndex::from_buffer(&buf, 16),
        Some(IoStoreObjectIndex::PackageImport(_))
    ));
    assert!(matches!(IoStoreObjectIndex::from_buffer(&buf, 24), Some(IoStoreObjectIndex::Empty)));
    assert!(IoStoreObjectIndex::from_buffer(&buf, 25).is_none());
}

#[test]
fn package_summary_is_read_field_by_field() {
    let mut buf = vec![0u8; 3];
    write_u64_le(&mut buf, 0x1111_2222_3333_4444);
    write_u64_le(&mut buf, 0x5555_6666_7777_8888);
    write_u32_le(&mut buf, 0x8000_0000);
    write_u32_le(&mut buf, 0x40);
    for value in [0x40u32, 0x10, 0x50, 0x20, 0x70, 0x90, 0xB0, 0xFFFF_FFFF, 0x18] {
        write_u32_le(&mut buf, value);
    }
    let summary = FPackageSummary2::from_buffer(&buf, 3).unwrap();
    assert_eq!(summary.name.value, 0x1111_2222_3333_4444);
    assert_eq!(summary.source_name.value, 0x5555_6666_7777_8888);
    assert_eq!(summary.package_flags, 0x8000_0000);
    assert_eq!(summary.cooked_header_size, 0x40);
    assert_eq!(summary.name_map_names_offset, 0x40);
    assert_eq!(summary.name_map_names_size, 0x10);
    assert_eq!(summary.name_map_hashes_offset, 0x50);
    assert_eq!(summary.name_map_hashes_size, 0x20);
    assert_eq!(summary.import_map_offset, 0x70);
    assert_eq!(summary.export_map_offset, 0x90);
    assert_eq!(summary.export_bundles_offset, 0xB0);
    assert_eq!(summary.graph_data_offset, -1);
    assert_eq!(summary.graph_data_size, 0x18);
    assert!(FPackageSummary2::from_buffer(&buf, 4).is_none());
    assert_eq!(summary.name.get_name_index(), 0x3333_4444);
}

#[test]
fn graph_package_is_read_with_its_arcs() {
    let mut buf = Vec::new();
    write_u64_le(&mut buf, 0xAABB_CCDD_0011_2233);
    write_u32_le(&mut buf, 2);
    write_u32_le(&mut buf, 1);
    write_u32_le(&mut buf, 2);
    write_u32_le(&mut buf, 3);
    write_u32_le(&mut buf, 4);
    let (package, next) = FGraphPackage::from_buffer(&buf, 0).unwrap();
    assert_eq!(package.imported_package_id, 0xAABB_CCDD_0011_2233);
    assert_eq!(
        package.external_arcs,
        vec![
            FGraphExternalArc { from_export_bundle_index: 1, to_export_bundle_index: 2 },
            FGraphExternalArc { from_export_bundle_index: 3, to_export_bundle_index: 4 },
        ]
    );
    assert_eq!(next, 28);
    buf.pop();
    assert!(FGraphPackage::from_buffer(&buf, 0).is_none());
    assert!(FGraphExternalArc::from_buffer(&buf, 24).is_none());
}

#[test]
fn project_paths_become_game_paths() {
    let names = GameNameImpl::new("TestingSrc", "Game");
    assert_eq!(
        names.project_path_to_game_path("/TestingSrc/Content/StarterContent/Textures/T_Chair_M"),
        Ok(String::from("/Game/StarterContent/Textures/T_Chair_M"))
    );
    assert_eq!(
        names.project_path_to_game_path("TestingSrc/Content"),
        Ok(String::from("Game"))
    );
    assert_eq!(
        names.project_path_to_game_path("/TestingSrc/Content/TestingSrc/Content/x"),
        Ok(String::from("/Game/Game/x"))
    );
    assert_eq!(
        names.project_path_to_game_path("/Other/Content/x"),
        Err("Couldn't convert the project path to game path")
    );
    assert_eq!(
        names.project_path_to_game_path(""),
        Err("Couldn't convert the project path to game path")
    );
}

#[test]
fn every_occurrence_is_replaced_from_left_to_right() {
    assert_eq!(replace_all("a.b.c", ".", "/"), "a/b/c");
    assert_eq!(replace_all("aaa", "aa", "b"), "ba");
    assert_eq!(replace_all("abc", "x", "y"), "abc");
    assert_eq!(replace_all("", "x", "y"), "");
    assert_eq!(replace_all("xx", "x", ""), "");
    assert_eq!(replace_all("abab", "ab", "abab"), "abababab");
    assert_eq!(replace_all("h\u{e9}h\u{e9}", "\u{e9}", "e"), "hehe");
    assert_eq!(find_from(&to_chars("abcabc"), &to_chars("bc"), 2), Some(4));
    assert_eq!(find_from(&to_chars("abcabc"), &to_chars("bc"), 1), Some(1));
    assert_eq!(find_from(&to_chars("abcabc"), &to_chars("bc"), 5), None);
    assert_eq!(find_from(&to_chars("abcabc"), &to_chars("bc"), 9), None);
}

#[test]
fn bytes_become_text_where_they_are_utf8() {
    assert_eq!(utf8_to_string(b"Content"), Some(String::from("Content")));
    assert_eq!(utf8_to_string(&[0x68, 0xC3, 0xA9]), Some(String::from("h\u{e9}")));
    assert_eq!(utf8_to_string(&[]), Some(String::new()));
    assert_eq!(utf8_to_string(&[0xFF, 0x41]), None);
    assert_eq!(utf8_to_string(&[0xC3]), None);
    assert_eq!(utf8_to_string(&[0xED, 0xA0, 0x80]), None);
}
