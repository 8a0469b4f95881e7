use fileemu_utoc_stream_emulator::pak_package::{
    CustomVersion, FObjectExport, FObjectImport, IntBool, NameMap, NameMapImpl,
    OBJECT_EXPORT_SIZE, OBJECT_IMPORT_SIZE, PACKAGE_ASSET_MAGIC,
};
use fileemu_utoc_stream_emulator::serialize::{write_u32_le, write_u64_le};
use fileemu_utoc_stream_emulator::string::FString32NoHash;

fn write_i32(out: &mut Vec<u8>, v: i32) {
    write_u32_le(out, v as u32);
}

fn write_i64(out: &mut Vec<u8>, v: i64) {
    write_u64_le(out, v as u64);
}

fn export_bytes(class_index: i32, truth: [i32; 5]) -> Vec<u8> {
    let mut out = Vec::new();
    write_i32(&mut out, class_index);
    write_i32(&mut out, 0);
    write_i32(&mut out, -4);
    write_i32(&mut out, 7);
    write_u64_le(&mut out, 0x0000_0002_0000_0009);
    write_u32_le(&mut out, 0x0008_0001);
    write_i64(&mut out, 0x1_0000_0000);
    write_i64(&mut out, -1);
    write_i32(&mut out, truth[0]);
    write_i32(&mut out, truth[1]);
    write_i32(&mut out, truth[2]);
    out.extend_from_slice(&[0xAB; 16]);
    write_u32_le(&mut out, 0x8000_0000);
    write_i32(&mut out, truth[3]);
    write_i32(&mut out, truth[4]);
    for v in [-1, 1, 2, 3, 4] {
        write_i32(&mut out, v);
    }
    out
}

#[test]
fn sizes_and_magic_of_the_legacy_format() {
    assert_eq!(PACKAGE_ASSET_MAGIC, 0xC1832A9E);
    assert_eq!(OBJECT_IMPORT_SIZE, 28);
    assert_eq!(OBJECT_EXPORT_SIZE, 104);
    assert_eq!(export_bytes(1, [0; 5]).len(), OBJECT_EXPORT_SIZE);
    let version = CustomVersion { key: 1, version: 2 };
    assert_eq!(version, CustomVersion { key: 1, version: 2 });
}

#[test]
fn truth_values_are_zero_or_one() {
    assert!(!IntBool::new(0).value());
    assert!(IntBool::new(1).value());
    assert_eq!(IntBool::checked(0), Some(false));
    assert_eq!(IntBool::checked(1), Some(true));
    assert_eq!(IntBool::checked(2), None);
    assert_eq!(IntBool::checked(-1), None);
}

#[test]
fn import_is_read_field_by_field() {
    let mut buf = vec![0x77u8; 2];
    write_u64_le(&mut buf, 3);
    write_u64_le(&mut buf, 5);
    write_i32(&mut buf, -2);
    write_u64_le(&mut buf, 0x0000_0001_0000_000A);
    let import = FObjectImport::from_buffer(&buf, 2).unwrap();
    assert_eq!(import.class_package, 3);
    assert_eq!(import.class_name, 5);
    assert_eq!(import.outer_index, -2);
    assert_eq!(import.object_name.value, 0x0000_0001_0000_000A);
    assert_eq!(import.object_name.get_name_index(), 10);
    assert!(FObjectImport::from_buffer(&buf, 3).is_none());
}

#[test]
fn import_map_is_read_entry_by_entry() {
    let mut buf = Vec::new();
    for i in 0..3u64 {
        write_u64_le(&mut buf, i);
        write_u64_le(&mut buf, 10 + i);
        write_i32(&mut buf, -(i as i32));
        write_u64_le(&mut buf, 100 + i);
    }
    let map = FObjectImport::build_import_map(&buf, 0, 3).unwrap();
    assert_eq!(map.len(), 3);
    for (i, import) in map.iter().enumerate() {
        assert_eq!(import.class_package, i as u64);
        assert_eq!(import.class_name, 10 + i as u64);
        assert_eq!(import.outer_index, -(i as i32));
        assert_eq!(import.object_name.value, 100 + i as u64);
    }
    assert_eq!(FObjectImport::build_import_map(&buf, 28, 2).unwrap().len(), 2);
    assert!(FObjectImport::build_import_map(&buf, 0, 4).is_none());
    assert!(FObjectImport::build_import_map(&buf, 1, 3).is_none());
    assert!(FObjectImport::build_import_map(&buf, 0, usize::MAX).is_none());
    assert_eq!(FObjectImport::build_import_map(&buf, 84, 0), Some(Vec::new()));
    assert!(FObjectImport::build_import_map(&buf, 85, 0).is_none());
}

#[test]
fn export_is_read_field_by_field() {
    let buf = export_bytes(1, [0, 1, 0, 1, 1]);
    let export = FObjectExport::from_buffer(&buf, 0).unwrap();
    assert_eq!(export.class_index, 0);
    assert_eq!(export.super_index, -1);
    assert_eq!(export.template_index, -5);
    assert_eq!(export.outer_index, 7);
    assert_eq!(export.object_name.value, 0x0000_0002_0000_0009);
    assert_eq!(export.object_flags, 0x0008_0001);
    assert_eq!(export.serial_size, 0x1_0000_0000);
    assert_eq!(export.serial_offset, -1);
    assert!(!export.bool_forced_export);
    assert!(export.bool_not_for_client);
    assert!(!export.bool_not_for_server);
    assert_eq!(export.package_flags, 0x8000_0000);
    assert!(export.not_always_loaded_for_editor_game);
    assert!(export.is_asset);
    assert_eq!(export.first_export_dependency, -1);
    assert_eq!(export.serialization_before_serialization_dependencies, 1);
    assert_eq!(export.create_before_serialization_dependencies, 2);
    assert_eq!(export.serialization_before_create_dependencies, 3);
    assert_eq!(export.create_before_create_dependencies, 4);
}

#[test]
fn malformed_export_is_refused() {
    assert!(FObjectExport::from_buffer(&export_bytes(1, [0, 2, 0, 0, 0]), 0).is_none());
    assert!(FObjectExport::from_buffer(&export_bytes(1, [0, 0, 0, 0, -1]), 0).is_none());
    assert!(FObjectExport::from_buffer(&export_bytes(i32::MIN, [0; 5]), 0).is_none());
    let good = export_bytes(1, [0; 5]);
    assert!(FObjectExport::from_buffer(&good, 1).is_none());
    assert!(FObjectExport::from_buffer(&good[..103], 0).is_none());
    assert!(FObjectExport::from_buffer(&good, 0).is_some());
}

fn name_block(names: &[&str]) -> Vec<u8> {
    let mut out = Vec::new();
    for name in names {
        FString32NoHash::to_buffer(name, &mut out);
    }
    out
}

#[test]
fn name_map_is_read_from_serialized_strings() {
    let mut buf = vec![1u8, 2, 3];
    buf.extend(name_block(&["None", "Texture2D", "/Script/Engine"]));
    // A string without text holds no name.
    buf.extend_from_slice(&[0, 0, 0, 0]);
    buf.extend(name_block(&["T_Chair_M"]));
    let map = NameMapImpl::new_from_buffer(&buf, 3, 5).unwrap();
    assert_eq!(map.0, vec!["None", "Texture2D", "/Script/Engine", "T_Chair_M"]);
    assert_eq!(map.get_string_from_index(1), Ok("Texture2D"));
    assert_eq!(map.get_string_from_index(4), Err(4));
    assert_eq!(map.get_string_from_package_index(0), None);
    assert_eq!(map.get_string_from_package_index(1), Some("None"));
    assert_eq!(map.get_string_from_package_index(4), Some("T_Chair_M"));
    assert_eq!(map.get_string_from_package_index(-2), Some("/Script/Engine"));
    assert!(NameMapImpl::new_from_buffer(&buf, 3, 6).is_none());
    assert!(NameMapImpl::new_from_buffer(&buf, 4, 1).is_none());
}

#[test]
fn names_are_appended_to_a_name_map() {
    let first = name_block(&["A", "B"]);
    let second = name_block(&["C"]);
    let mut map = NameMapImpl::new();
    assert!(map.0.is_empty());
    assert_eq!(map.add_from_buffer(&first, 0, 2), Some(first.len()));
    assert_eq!(map.add_from_buffer(&second, 0, 1), Some(second.len()));
    assert_eq!(map.0, vec!["A", "B", "C"]);
    // Nothing is appended where the names cannot all be read.
    assert_eq!(map.add_from_buffer(&first, 0, 3), None);
    assert_eq!(map.0, vec!["A", "B", "C"]);
    let bad = vec![3u8, 0, 0, 0, 0xFF, 0xFE, 0];
    assert_eq!(map.add_from_buffer(&bad, 0, 1), None);
    let wide = vec![0xFEu8, 0xFF, 0xFF, 0xFF, b'A', 0, 0, 0];
    assert_eq!(map.add_from_buffer(&wide, 0, 1), None);
    assert_eq!(map.add_from_buffer(&wide, 0, 0), Some(0));
    assert_eq!(map.0.len(), 3);
}
