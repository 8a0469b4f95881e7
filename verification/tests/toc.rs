use fileemu_utoc_stream_emulator::asset_collector::{TocDirectory, TocFile};
use fileemu_utoc_stream_emulator::io_toc::{
    ContainerHeader, ContainerHeaderPackage, IoChunkId, IoChunkType4, IoChunkType5,
    IoDirectoryIndexEntry, IoFileIndexEntry, IoOffsetAndLength, IoStoreToc,
    IoStoreTocCompressedBlockEntry, IoStoreTocEntryMeta, IoStoreTocHeaderType1,
    IoStoreTocHeaderType3, IoStoreTocVersion, IoStringPool,
    CONTAINER_HEADER_PACKAGE_SERIALIZED_SIZE,
    IO_COMPRESSED_BLOCK_LENGTH_MAX, IO_CONTAINER_FLAG_INDEXED, IO_FILE_INDEX_ENTRY_SERIALIZED_SIZE,
    IO_INDEX_NONE, IO_OFFSET_LENGTH_MAX, IO_STORE_TOC_MAGIC,
};
use fileemu_utoc_stream_emulator::serialize::{read_u32_le, read_u64_le, write_u32_le, write_u64_le};
use fileemu_utoc_stream_emulator::string::Hasher16;
use fileemu_utoc_stream_emulator::chunk_layout::{chunk_id_for_path, chunk_type_for, ChunkTables};
use fileemu_utoc_stream_emulator::flat_index::FlatIndex;
use fileemu_utoc_stream_emulator::toc_factory::{
    build_table_of_contents, build_table_of_contents_inner, companion_path, effective_content,
    get_virtual_partition, requested_paths, source_paths, PartitionSerializer,
    PartitionSerializerAlign, PartitionSerializerFile, PartitionStatus, TocBuildError,
    TocBuilderProfiler, TocResolver, COMPRESSION_BLOCK_ALIGNMENT, COMPRESSION_BLOCK_SIZE,
    MEMORY_MAPPING_ALIGNMENT, TARGET_CAS, TARGET_TOC, TOC_NAME,
};
use fileemu_utoc_stream_emulator::usable_files::{prune_index, remap_table};

const SHA1_OF_1024_ZEROS: [u8; 20] = [
    0x60, 0xca, 0xcb, 0xf3, 0xd7, 0x2e, 0x1e, 0x78, 0x34, 0x20, 0x3d, 0xa6, 0x08, 0x03, 0x7b, 0x1b,
    0xf8, 0x3b, 0x40, 0xe8,
];

const SHA1_OF_HELLO_WORLD: [u8; 20] = [
    0x2a, 0xae, 0x6c, 0x35, 0xc9, 0x4f, 0xcf, 0xb4, 0x15, 0xdb, 0xe9, 0x5f, 0x40, 0x8b, 0x9c, 0xe9,
    0x1e, 0xe8, 0x46, 0xed,
];

const SHA1_OF_NOTHING: [u8; 20] = [
    0xda, 0x39, 0xa3, 0xee, 0x5e, 0x6b, 0x4b, 0x0d, 0x32, 0x55, 0xbf, 0xef, 0x95, 0x60, 0x18, 0x90,
    0xaf, 0xd8, 0x07, 0x09,
];

const SHA1_OF_20_TIMES_B: [u8; 20] = [
    0xd7, 0xf6, 0xec, 0xf2, 0xed, 0xc1, 0x15, 0x6f, 0x8e, 0x8c, 0x52, 0x50, 0x35, 0xf6, 0x1a, 0x26,
    0xa3, 0xa2, 0x45, 0xd7,
];

const TOC_PATH: &str = "C:\\mods\\UnrealEssentials\\Unreal\\UnrealEssentials_P.utoc";
const CAS_PATH: &str = "C:\\mods\\UnrealEssentials\\Unreal\\UnrealEssentials_P.ucas";

fn dir_entry(name: u32, first_child: u32, next_sibling: u32, first_file: u32) -> IoDirectoryIndexEntry {
    IoDirectoryIndexEntry { name, first_child, next_sibling, first_file }
}

fn chained_file(name: u32, next_file: u32, user_data: u32, os_path: &str) -> IoFileIndexEntry {
    IoFileIndexEntry {
        name,
        next_file,
        user_data,
        file_size: 0,
        os_path: String::from(os_path),
        hash_path: String::new(),
    }
}

fn put_file(dir: &mut TocDirectory, name: &str, size: u64, os_path: &str) {
    TocDirectory::add_or_replace_file(dir, TocFile::new(name, size, os_path));
}

fn tree_with_content(files: &[(&str, &str)]) -> TocDirectory {
    let mut root = TocDirectory::new("UnrealEssentials");
    let slot = TocDirectory::ensure_child(&mut root, "Content");
    for (name, os_path) in files {
        TocDirectory::add_or_replace_file(&mut root.children[slot], TocFile::new(name, 0, os_path));
    }
    root
}

fn flat_file(os_path: &str, hash_path: &str) -> IoFileIndexEntry {
    IoFileIndexEntry {
        name: 0,
        next_file: IO_INDEX_NONE,
        user_data: 0,
        file_size: 0,
        os_path: String::from(os_path),
        hash_path: String::from(hash_path),
    }
}

fn block(offset: u64, size: u32) -> IoStoreTocCompressedBlockEntry {
    IoStoreTocCompressedBlockEntry { offset, size }
}

#[test]
fn constants_of_the_container() {
    assert_eq!(TOC_NAME, "UnrealEssentials_P");
    assert_eq!(TARGET_TOC, "UnrealEssentials_P.utoc");
    assert_eq!(TARGET_CAS, "UnrealEssentials_P.ucas");
    assert_eq!(COMPRESSION_BLOCK_SIZE, 0x10000);
    assert_eq!(COMPRESSION_BLOCK_ALIGNMENT, 0x800);
    assert_eq!(MEMORY_MAPPING_ALIGNMENT, 0x4000);
    assert_eq!(IO_OFFSET_LENGTH_MAX, 0xFF_FFFF_FFFF);
    assert_eq!(IO_COMPRESSED_BLOCK_LENGTH_MAX, 0xFF_FFFF);
    assert_eq!(IO_FILE_INDEX_ENTRY_SERIALIZED_SIZE, 12);
    assert_eq!(CONTAINER_HEADER_PACKAGE_SERIALIZED_SIZE, 0x20);
    assert_eq!(&IO_STORE_TOC_MAGIC, b"-==--==--==--==-");
}

#[test]
fn versions_and_chunk_types_have_their_numbers() {
    assert_eq!(u8::from(IoStoreTocVersion::Invalid), 0);
    assert_eq!(u8::from(IoStoreTocVersion::PartitionSize), 3);
    assert_eq!(u8::from(IoStoreTocVersion::PerfectHashWithOverflow), 5);
    assert_eq!(IoStoreTocVersion::from_u8(3), Some(IoStoreTocVersion::PartitionSize));
    assert_eq!(IoStoreTocVersion::from_u8(0), None);
    assert_eq!(IoStoreTocVersion::from_u8(6), None);
    assert_eq!(u8::from(IoChunkType4::ExportBundleData), 2);
    assert_eq!(u8::from(IoChunkType4::BulkData), 3);
    assert_eq!(u8::from(IoChunkType4::OptionalBulkData), 4);
    assert_eq!(u8::from(IoChunkType4::ContainerHeader), 10);
    assert_eq!(IoChunkType4::from_u8(10), Some(IoChunkType4::ContainerHeader));
    assert_eq!(IoChunkType4::from_u8(11), None);
    assert_eq!(IoChunkType4::from_u8(0), None);
    assert_eq!(u8::from(IoChunkType5::ContainerHeader), 6);
    assert_eq!(u8::from(IoChunkType5::PackageResource), 13);
    assert_eq!(IoChunkType5::from_u8(1), Some(IoChunkType5::ExportBundleData));
    assert_eq!(IoChunkType5::from_u8(14), None);
    for value in 1u8..=10 {
        assert_eq!(u8::from(IoChunkType4::from_u8(value).unwrap()), value);
    }
    for value in 1u8..=13 {
        assert_eq!(u8::from(IoChunkType5::from_u8(value).unwrap()), value);
    }
    assert_eq!(u32::from(PartitionStatus::Successful), 0);
    assert_eq!(u32::from(PartitionStatus::IncorrectFile), 1);
    assert_eq!(u32::from(PartitionStatus::CalledBeforeToc), 2);
}

#[test]
fn early_header_layout() {
    let header = IoStoreTocHeaderType1::new("pakchunk0", 7);
    assert_eq!(header.toc_magic, IO_STORE_TOC_MAGIC);
    assert_eq!(header.toc_header_size, 0x80);
    assert_eq!(header.toc_entry_count, 7);
    assert!(matches!(
        IoStoreToc::new(IoStoreTocVersion::Initial, "pakchunk0", 1),
        IoStoreToc::Initial(_)
    ));
    assert!(matches!(
        IoStoreToc::new(IoStoreTocVersion::DirectoryIndex, "pakchunk0", 1),
        IoStoreToc::DirectoryIndex(_)
    ));
    assert!(matches!(
        IoStoreToc::new(IoStoreTocVersion::PartitionSize, "pakchunk0", 1),
        IoStoreToc::PartitionSize(_)
    ));
    assert!(matches!(
        IoStoreToc::new(IoStoreTocVersion::PerfectHash, "pakchunk0", 1),
        IoStoreToc::PerfectHash(_)
    ));
    assert!(matches!(
        IoStoreToc::new(IoStoreTocVersion::PerfectHashWithOverflow, "pakchunk0", 1),
        IoStoreToc::PerfectHash(_)
    ));
}

#[test]
fn header_of_the_table_of_contents_is_144_bytes() {
    let header = IoStoreTocHeaderType3::new(0x1122_3344_5566_7788, 2, 3, 0x10000, 0x7C);
    assert_eq!(header.container_flags, IO_CONTAINER_FLAG_INDEXED);
    let mut out = Vec::new();
    header.to_buffer(&mut out);
    assert_eq!(out.len(), 144);
    assert_eq!(&out[0..16], b"-==--==--==--==-");
    assert_eq!(&out[16..20], &[3, 0, 0, 0]);
    assert_eq!(read_u32_le(&out, 20), Some(144));
    assert_eq!(read_u32_le(&out, 24), Some(2));
    assert_eq!(read_u32_le(&out, 28), Some(3));
    assert_eq!(read_u32_le(&out, 32), Some(12));
    assert_eq!(read_u32_le(&out, 36), Some(0));
    assert_eq!(read_u32_le(&out, 40), Some(0));
    assert_eq!(read_u32_le(&out, 44), Some(0x10000));
    assert_eq!(read_u32_le(&out, 48), Some(0x7C));
    assert_eq!(read_u32_le(&out, 52), Some(1));
    assert_eq!(read_u64_le(&out, 56), Some(0x1122_3344_5566_7788));
    assert_eq!(&out[64..80], &[0u8; 16]);
    assert_eq!(&out[80..88], &[0x08, 0, 0, 0, 0, 0, 0, 0]);
    assert_eq!(read_u64_le(&out, 88), Some(u64::MAX));
    assert_eq!(&out[96..144], &[0u8; 48]);
}

#[test]
fn chunk_identity_is_twelve_bytes() {
    let id = IoChunkId::new_from_hash(0x0102_0304_0506_0708, IoChunkType4::BulkData);
    assert_eq!(id.get_raw_hash(), 0x0102_0304_0506_0708);
    assert_eq!(id.get_type(), IoChunkType4::BulkData);
    let mut out = Vec::new();
    id.to_buffer(&mut out);
    assert_eq!(out, vec![8, 7, 6, 5, 4, 3, 2, 1, 0, 0, 0, 3]);
    let by_path = IoChunkId::new("/Game/T_Chair_M", IoChunkType4::ExportBundleData);
    assert_eq!(by_path.hash, Hasher16::get_cityhash64("/Game/T_Chair_M"));
    assert_eq!(by_path.index, 0);
    assert_eq!(by_path.obj_type, IoChunkType4::ExportBundleData);
    let mut list = Vec::new();
    IoChunkId::list_to_buffer(&vec![id, by_path], &mut list);
    assert_eq!(list.len(), 24);
    assert_eq!(&list[..12], &out[..]);
    assert_eq!(list[23], 2);
}

#[test]
fn offset_and_length_are_five_bytes_each_high_byte_first() {
    let record = IoOffsetAndLength::new(0x01_0203_0405, 0xA0_B0C0_D0E0);
    let mut out = Vec::new();
    record.to_buffer(&mut out);
    assert_eq!(out, vec![0x01, 0x02, 0x03, 0x04, 0x05, 0xA0, 0xB0, 0xC0, 0xD0, 0xE0]);
    let largest = IoOffsetAndLength::new(IO_OFFSET_LENGTH_MAX, 0);
    let mut list = Vec::new();
    IoOffsetAndLength::list_to_buffer(&vec![record, largest], &mut list);
    assert_eq!(&list[10..], &[0xFF, 0xFF, 0xFF, 0xFF, 0xFF, 0, 0, 0, 0, 0]);
}

#[test]
fn compression_block_is_twelve_bytes() {
    let entry = IoStoreTocCompressedBlockEntry::new(0x01_0203_0405, 0x0A0B0C);
    let mut out = Vec::new();
    entry.to_buffer(&mut out);
    assert_eq!(out, vec![0x05, 0x04, 0x03, 0x02, 0x01, 0x0C, 0x0B, 0x0A, 0x0C, 0x0B, 0x0A, 0x00]);
    let mut list = Vec::new();
    IoStoreTocCompressedBlockEntry::list_to_buffer(&vec![entry, block(0, 0)], &mut list);
    assert_eq!(list.len(), 24);
    assert_eq!(&list[12..], &[0u8; 12]);
}

#[test]
fn index_entries_are_written_with_their_counts() {
    let dirs = vec![
        dir_entry(0, 1, IO_INDEX_NONE, IO_INDEX_NONE),
        dir_entry(1, IO_INDEX_NONE, IO_INDEX_NONE, 0),
    ];
    let mut out = Vec::new();
    IoDirectoryIndexEntry::list_to_buffer(&dirs, &mut out);
    assert_eq!(out.len(), 4 + 32);
    assert_eq!(read_u32_le(&out, 0), Some(2));
    assert_eq!(read_u32_le(&out, 4), Some(0));
    assert_eq!(read_u32_le(&out, 8), Some(1));
    assert_eq!(read_u32_le(&out, 12), Some(0xFFFF_FFFF));
    assert_eq!(read_u32_le(&out, 32), Some(0));
    let mut file = flat_file("/os/a.ubulk", "Root/Content/a");
    file.name = 2;
    file.next_file = 1;
    file.user_data = 0;
    let mut files = Vec::new();
    IoFileIndexEntry::list_to_buffer(&vec![file], &mut files);
    assert_eq!(files, vec![1, 0, 0, 0, 2, 0, 0, 0, 1, 0, 0, 0, 0, 0, 0, 0]);
}

#[test]
fn string_pool_is_read_back_as_written() {
    let pool = vec![
        String::from("UnrealEssentials"),
        String::from("Content"),
        String::new(),
        String::from("T_Chair_M.uasset"),
        String::from("h\u{e9}llo"),
    ];
    let mut buf = vec![0xAAu8, 0xBB];
    IoStringPool::list_to_buffer(&pool, &mut buf);
    buf.push(0xCC);
    let (texts, next) = IoStringPool::list_from_buffer(&buf, 2).unwrap();
    assert_eq!(next, buf.len() - 1);
    assert_eq!(texts.len(), pool.len());
    for (text, wanted) in texts.iter().zip(pool.iter()) {
        assert_eq!(String::from_utf8(text.clone()).unwrap(), *wanted);
    }
    assert!(IoStringPool::list_from_buffer(&buf[..buf.len() - 3], 2).is_none());
    assert!(IoStringPool::list_from_buffer(&buf, buf.len() - 2).is_none());
}

#[test]
fn meta_holds_sha1_in_32_bytes_and_a_flag() {
    let meta = IoStoreTocEntryMeta::new(&b"hello world".to_vec());
    assert_eq!(&meta.hash[..20], &SHA1_OF_HELLO_WORLD);
    assert_eq!(&meta.hash[20..], &[0u8; 12]);
    assert_eq!(meta.flags, 0);
    let of_nothing = IoStoreTocEntryMeta::new(&Vec::new());
    assert_eq!(&of_nothing.hash[..20], &SHA1_OF_NOTHING);
    let empty = IoStoreTocEntryMeta::new_empty();
    assert_eq!(empty.hash, [0u8; 32]);
    let mut out = Vec::new();
    IoStoreTocEntryMeta::list_to_buffer(&vec![meta, empty], &mut out);
    assert_eq!(out.len(), 66);
    assert_eq!(&out[..20], &SHA1_OF_HELLO_WORLD);
    assert_eq!(&out[20..66], &[0u8; 46]);
}

#[test]
fn container_header_without_packages() {
    let header = ContainerHeader::new(0x1122_3344_5566_7788);
    let bytes = header.to_bytes().unwrap();
    let mut expected = Vec::new();
    write_u64_le(&mut expected, 0x1122_3344_5566_7788);
    write_u32_le(&mut expected, 0);
    write_u32_le(&mut expected, 0);
    write_u32_le(&mut expected, 8);
    write_u64_le(&mut expected, 0xC164_0000);
    write_u32_le(&mut expected, 0);
    write_u32_le(&mut expected, 0);
    write_u32_le(&mut expected, 0);
    write_u32_le(&mut expected, 0);
    assert_eq!(bytes, expected);
    assert_eq!(bytes.len(), 44);
    let mut writer = vec![1u8, 2, 3];
    let serialized = header.to_buffer(&mut writer).unwrap();
    assert_eq!(serialized, expected);
    assert_eq!(writer.len(), 48);
    assert_eq!(&writer[3..47], &expected[..]);
    assert_eq!(writer[47], 0);
}

#[test]
fn container_header_places_imports_after_the_store_entries() {
    let mut header = ContainerHeader::new(1);
    header.packages.push(ContainerHeaderPackage {
        hash: 0xA1,
        export_bundle_size: 0x100,
        export_count: 1,
        export_bundle_count: 2,
        load_order: 0,
        import_ids: vec![0x11, 0x22],
    });
    header.packages.push(ContainerHeaderPackage {
        hash: 0xB2,
        export_bundle_size: 0x200,
        export_count: 3,
        export_bundle_count: 4,
        load_order: 0,
        import_ids: vec![],
    });
    header.packages.push(ContainerHeaderPackage {
        hash: 0xC3,
        export_bundle_size: 0x300,
        export_count: 5,
        export_bundle_count: 6,
        load_order: 0,
        import_ids: vec![0x33],
    });
    let bytes = header.to_bytes().unwrap();
    assert_eq!(read_u64_le(&bytes, 0), Some(1));
    assert_eq!(read_u32_le(&bytes, 8), Some(3));
    assert_eq!(read_u32_le(&bytes, 12), Some(0));
    assert_eq!(read_u32_le(&bytes, 16), Some(8));
    assert_eq!(read_u64_le(&bytes, 20), Some(0xC164_0000));
    assert_eq!(read_u32_le(&bytes, 28), Some(3));
    assert_eq!(read_u64_le(&bytes, 32), Some(0xA1));
    assert_eq!(read_u64_le(&bytes, 40), Some(0xB2));
    assert_eq!(read_u64_le(&bytes, 48), Some(0xC3));
    // Three store entries and three imports.
    assert_eq!(read_u32_le(&bytes, 56), Some(3 * 0x20 + 3 * 8));
    let table = 60;
    assert_eq!(read_u64_le(&bytes, table), Some(0x100));
    assert_eq!(read_u32_le(&bytes, table + 8), Some(1));
    assert_eq!(read_u32_le(&bytes, table + 12), Some(2));
    assert_eq!(read_u32_le(&bytes, table + 16), Some(0));
    assert_eq!(read_u32_le(&bytes, table + 20), Some(0));
    assert_eq!(read_u32_le(&bytes, table + 24), Some(2));
    // From the imports field of the first entry (0x18) to the end of the
    // entries (0x60).
    assert_eq!(read_u32_le(&bytes, table + 28), Some(0x60 - 0x18));
    assert_eq!(read_u32_le(&bytes, table + 0x20 + 24), Some(0));
    assert_eq!(read_u32_le(&bytes, table + 0x20 + 28), Some(0));
    assert_eq!(read_u32_le(&bytes, table + 0x40 + 24), Some(1));
    assert_eq!(read_u32_le(&bytes, table + 0x40 + 28), Some(0x60 + 16 - 0x58));
    assert_eq!(read_u64_le(&bytes, table + 0x60), Some(0x11));
    assert_eq!(read_u64_le(&bytes, table + 0x68), Some(0x22));
    assert_eq!(read_u64_le(&bytes, table + 0x70), Some(0x33));
    assert_eq!(read_u32_le(&bytes, table + 0x78), Some(0));
    assert_eq!(read_u32_le(&bytes, table + 0x7C), Some(0));
    assert_eq!(bytes.len(), table + 0x80);
    // Following the relative offsets leads to the imports.
    let first_field = table + 0x18;
    let first_offset = read_u32_le(&bytes, first_field + 4).unwrap() as usize;
    assert_eq!(read_u64_le(&bytes, first_field + first_offset), Some(0x11));
    let third_field = table + 0x40 + 0x18;
    let third_offset = read_u32_le(&bytes, third_field + 4).unwrap() as usize;
    assert_eq!(read_u64_le(&bytes, third_field + third_offset), Some(0x33));
}

fn package_bytes(export_offset: u32, bundle_offset: u32, graph_offset: u32) -> Vec<u8> {
    let mut data = vec![0u8; 0x2c];
    write_u32_le(&mut data, export_offset);
    write_u32_le(&mut data, bundle_offset);
    write_u32_le(&mut data, graph_offset);
    data.resize(0x40, 0);
    data
}

#[test]
fn store_entry_is_read_from_a_package_head() {
    // The export map holds two exports from 0x40 on, the export bundles
    // follow at 0x80 with five entries, and the graph data at 0x90 names two
    // imported packages, the first with one arc.
    let mut data = package_bytes(0x40, 0x80, 0x90);
    data.resize(0x80, 0xEE);
    write_u32_le(&mut data, 0);
    write_u32_le(&mut data, 5);
    data.resize(0x90, 0xEE);
    write_u32_le(&mut data, 2);
    write_u64_le(&mut data, 0xAAAA);
    write_u32_le(&mut data, 1);
    write_u32_le(&mut data, 7);
    write_u32_le(&mut data, 8);
    write_u64_le(&mut data, 0xBBBB);
    write_u32_le(&mut data, 0);
    let package = ContainerHeaderPackage::from_header_package(&data, 0x55, data.len() as u64);
    assert_eq!(package.hash, 0x55);
    assert_eq!(package.export_bundle_size, data.len() as u64);
    assert_eq!(package.export_count, 2);
    assert_eq!(package.export_bundle_count, 3);
    assert_eq!(package.load_order, 0);
    assert_eq!(package.import_ids, vec![0xAAAA, 0xBBBB]);
}

#[test]
fn store_entry_of_a_malformed_package_is_bare() {
    let bare = |data: &[u8]| {
        let package = ContainerHeaderPackage::from_header_package(data, 9, 77);
        assert_eq!(package.hash, 9);
        assert_eq!(package.export_bundle_size, 77);
        assert_eq!(package.export_count, 0);
        assert_eq!(package.export_bundle_count, 0);
        assert_eq!(package.load_order, 0);
        assert!(package.import_ids.is_empty());
    };
    bare(&[]);
    bare(&[0u8; 0x37]);
    // The export bundles before the export map.
    bare(&package_bytes(0x40, 0x20, 0x30));
    // The export bundles beyond the end.
    bare(&package_bytes(0x10, 0x3C, 0x30));
    // The graph data beyond the end.
    bare(&package_bytes(0x10, 0x30, 0xFFFF_FFFF));
    // Fewer bundle entries than exports.
    let mut few = package_bytes(0x00, 0x40, 0x30);
    few.resize(0x48, 0);
    bare(&few);
    // More imported packages announced than the data holds.
    let mut cut = package_bytes(0x30, 0x30, 0x3C);
    cut[0x3C] = 3;
    bare(&cut);
}

#[test]
fn chunk_type_follows_the_extension() {
    assert_eq!(chunk_type_for("C:\\m\\Content\\a.uasset"), Some(IoChunkType4::ExportBundleData));
    assert_eq!(chunk_type_for("/m/Content/a.ubulk"), Some(IoChunkType4::BulkData));
    assert_eq!(chunk_type_for("a.uptnl"), Some(IoChunkType4::OptionalBulkData));
    assert_eq!(chunk_type_for("/m/Content/a.uexp"), None);
    assert_eq!(chunk_type_for("/m/Content.uasset/a"), None);
    assert_eq!(chunk_type_for("/m/Content/a.Uasset"), None);
    assert_eq!(chunk_type_for(""), None);
}

#[test]
fn chunk_identity_hashes_the_game_path() {
    let id = chunk_id_for_path(
        "UnrealEssentials",
        "UnrealEssentials/Content/T_Chair_M",
        IoChunkType4::ExportBundleData,
    )
    .unwrap();
    assert_eq!(id.hash, Hasher16::get_cityhash64("/Game/T_Chair_M"));
    assert_eq!(id.obj_type, IoChunkType4::ExportBundleData);
    let nested = chunk_id_for_path(
        "UnrealEssentials",
        "UnrealEssentials/UnrealEssentials/Content/Dir/File",
        IoChunkType4::BulkData,
    )
    .unwrap();
    assert_eq!(nested.hash, Hasher16::get_cityhash64("/Game/Dir/File"));
    assert_eq!(
        chunk_id_for_path(
            "UnrealEssentials",
            "UnrealEssentials/Other/File",
            IoChunkType4::BulkData
        ),
        Err(TocBuildError::MissingContentRoot)
    );
    let resolver = TocResolver::new("Project");
    assert_eq!(
        resolver.create_chunk_id("Project/Content/x", IoChunkType4::BulkData).unwrap().hash,
        Hasher16::get_cityhash64("/Game/x")
    );
    assert_eq!(
        resolver.create_chunk_id("UnrealEssentials/Content/x", IoChunkType4::BulkData),
        Err(TocBuildError::MissingContentRoot)
    );
    assert_eq!(
        resolver.get_file_hash(&flat_file("/os/x.ubulk", "Project/Content/x")).unwrap().obj_type,
        IoChunkType4::BulkData
    );
    assert_eq!(
        resolver.get_file_hash(&flat_file("/os/x.txt", "Project/Content/x")),
        Err(TocBuildError::UnsupportedFileType)
    );
    assert_eq!(
        resolver.get_file_hash(&flat_file("/os/x.ubulk", "Elsewhere/x")),
        Err(TocBuildError::MissingContentRoot)
    );
}

#[test]
fn resolver_starts_empty() {
    let resolver = TocResolver::new("UnrealEssentials");
    assert_eq!(resolver.project_name, "UnrealEssentials");
    assert_eq!(resolver.toc_name_hash, Hasher16::get_cityhash64("UnrealEssentials_P"));
    assert!(resolver.directories.is_empty());
    assert!(resolver.files.is_empty());
    assert!(resolver.strings.is_empty());
    assert!(resolver.chunk_ids.is_empty());
    assert_eq!(resolver.partition_size, 0);
}

#[test]
fn three_sibling_files_are_chained() {
    let root = tree_with_content(&[
        ("a.uasset", "/m/Content/a.uasset"),
        ("b.ubulk", "/m/Content/b.ubulk"),
        ("c.uptnl", "/m/Content/c.uptnl"),
    ]);
    let mut resolver = TocResolver::new("UnrealEssentials");
    assert_eq!(resolver.flatten_toc_tree(&root), Ok(()));
    assert_eq!(
        resolver.directories,
        vec![
            dir_entry(0, 1, IO_INDEX_NONE, IO_INDEX_NONE),
            dir_entry(1, IO_INDEX_NONE, IO_INDEX_NONE, 0),
        ]
    );
    assert_eq!(
        resolver.strings,
        vec!["UnrealEssentials", "Content", "a.uasset", "b.ubulk", "c.uptnl"]
    );
    let links: Vec<(u32, u32, u32)> =
        resolver.files.iter().map(|f| (f.name, f.next_file, f.user_data)).collect();
    assert_eq!(links, vec![(2, 1, 0), (3, 2, 1), (4, IO_INDEX_NONE, 2)]);
    let paths: Vec<&str> = resolver.files.iter().map(|f| f.hash_path.as_str()).collect();
    assert_eq!(
        paths,
        vec![
            "UnrealEssentials/Content/a",
            "UnrealEssentials/Content/b",
            "UnrealEssentials/Content/c"
        ]
    );
    assert_eq!(resolver.resolved_directories, 2);
    assert_eq!(resolver.resolved_files, 3);
    assert_eq!(resolver.resolved_strings, 5);
    let contents = vec![Some(vec![1u8; 4]), Some(vec![2u8; 4]), Some(vec![3u8; 4])];
    let mut profiler = TocBuilderProfiler::new();
    resolver.serialize(&mut profiler, TOC_PATH, &contents).unwrap();
    let types: Vec<IoChunkType4> = resolver.chunk_ids.iter().map(|c| c.obj_type).collect();
    assert_eq!(
        types,
        vec![
            IoChunkType4::ExportBundleData,
            IoChunkType4::BulkData,
            IoChunkType4::OptionalBulkData,
            IoChunkType4::ContainerHeader
        ]
    );
    assert_eq!(profiler.successful_files, 3);
    assert!(profiler.generated_meta_hashes);
}

#[test]
fn tree_is_flattened_parents_first() {
    // Root
    //   A (a1.ubulk)
    //     A1 (deep.ubulk)
    //     A2
    //   B (b1.ubulk, A)      a file called like a directory shares its string
    //   C
    let mut root = TocDirectory::new("Root");
    let a = TocDirectory::ensure_child(&mut root, "A");
    put_file(&mut root.children[a], "a1.ubulk", 1, "/a1");
    let a1 = TocDirectory::ensure_child(&mut root.children[a], "A1");
    TocDirectory::add_or_replace_file(
        &mut root.children[a].children[a1],
        TocFile::new("deep.ubulk", 1, "/deep"),
    );
    TocDirectory::ensure_child(&mut root.children[a], "A2");
    let b = TocDirectory::ensure_child(&mut root, "B");
    put_file(&mut root.children[b], "b1.ubulk", 1, "/b1");
    put_file(&mut root.children[b], "A", 1, "/A");
    TocDirectory::ensure_child(&mut root, "C");
    let mut resolver = TocResolver::new("Root");
    resolver.flatten_toc_tree(&root).unwrap();
    let none = IO_INDEX_NONE;
    assert_eq!(
        resolver.strings,
        vec!["Root", "A", "a1.ubulk", "A1", "deep.ubulk", "A2", "B", "b1.ubulk", "C"]
    );
    assert_eq!(
        resolver.directories,
        vec![
            dir_entry(0, 1, none, none),
            dir_entry(1, 2, 4, 0),
            dir_entry(3, none, 3, 1),
            dir_entry(5, none, none, none),
            dir_entry(6, none, 5, 2),
            dir_entry(8, none, none, none),
        ]
    );
    let links: Vec<(u32, u32, u32)> =
        resolver.files.iter().map(|f| (f.name, f.next_file, f.user_data)).collect();
    assert_eq!(links, vec![(2, none, 0), (4, none, 1), (7, 3, 2), (1, none, 3)]);
    let paths: Vec<&str> = resolver.files.iter().map(|f| f.hash_path.as_str()).collect();
    assert_eq!(paths, vec!["Root/A/a1", "Root/A/A1/deep", "Root/B/b1", "Root/B/A"]);
    assert_eq!(
        source_paths(&root).unwrap(),
        vec!["/a1", "/deep", "/b1", "/A"]
    );
}

#[test]
fn string_pool_gives_each_string_one_index() {
    let mut index = FlatIndex::new();
    assert_eq!(index.get_string_index("Content"), Some(0));
    assert_eq!(index.get_string_index("content"), Some(1));
    assert_eq!(index.get_string_index("Content"), Some(0));
    assert_eq!(index.get_string_index(""), Some(2));
    assert_eq!(index.get_string_index(""), Some(2));
    assert_eq!(index.strings, vec!["Content", "content", ""]);
}

#[test]
fn one_file_of_1024_zero_bytes() {
    let root = tree_with_content(&[("T_Chair_M.uasset", "C:\\mods\\a\\T_Chair_M.uasset")]);
    let contents = vec![Some(vec![0u8; 1024])];
    let built = build_table_of_contents(Some(&root), TOC_PATH, &contents).unwrap();
    let resolver = &built.resolver;
    let container = Hasher16::get_cityhash64("UnrealEssentials_P");
    assert_eq!(resolver.chunk_ids.len(), 2);
    assert_eq!(
        resolver.chunk_ids[0],
        IoChunkId {
            hash: Hasher16::get_cityhash64("/Game/T_Chair_M"),
            index: 0,
            obj_type: IoChunkType4::ExportBundleData
        }
    );
    assert_eq!(
        resolver.chunk_ids[1],
        IoChunkId { hash: container, index: 0, obj_type: IoChunkType4::ContainerHeader }
    );
    // One package without exports and imports: 8 + 4 + 4 + 4 + 8 + 4 + 8 + 4 + 32 + 4 + 4.
    let header_len = 84;
    assert_eq!(
        resolver.offsets_and_lengths,
        vec![
            IoOffsetAndLength { offset: 0, length: 1024 },
            IoOffsetAndLength { offset: 0x10000, length: header_len },
        ]
    );
    assert_eq!(resolver.compression_blocks, vec![block(0, 1024), block(0x800, header_len as u32)]);
    assert_eq!(&resolver.metas[0].hash[..20], &SHA1_OF_1024_ZEROS);
    assert_eq!(&resolver.metas[0].hash[20..], &[0u8; 12]);
    assert_eq!(resolver.metas[1].hash, [0u8; 32]);
    assert_eq!(resolver.container_header.packages.len(), 1);
    assert_eq!(resolver.container_header.packages[0].hash, resolver.chunk_ids[0].hash);
    assert_eq!(resolver.container_header.packages[0].export_bundle_size, 1024);
    assert_eq!(resolver.container_header_bytes.len(), 96);
    assert_eq!(read_u64_le(&resolver.container_header_bytes, 0), Some(container));
    assert_eq!(resolver.partition_size, 0x800 + 96);
    let toc = &built.toc;
    let index_size = 14 + (4 + 2 * 16) + (4 + 12) + (4 + 21 + 12 + 21);
    assert_eq!(toc.len(), 144 + 2 * 12 + 2 * 10 + 2 * 12 + index_size + 2 * 33);
    assert_eq!(&toc[0..16], b"-==--==--==--==-");
    assert_eq!(read_u32_le(toc, 24), Some(2));
    assert_eq!(read_u32_le(toc, 28), Some(2));
    assert_eq!(read_u32_le(toc, 44), Some(0x10000));
    assert_eq!(read_u32_le(toc, 48), Some(index_size as u32));
    assert_eq!(read_u64_le(toc, 56), Some(container));
    assert_eq!(read_u64_le(toc, 88), Some(0xFFFF_FFFF_FFFF_FFFF));
    assert_eq!(read_u64_le(toc, 144), Some(resolver.chunk_ids[0].hash));
    assert_eq!(toc[144 + 11], 2);
    assert_eq!(toc[144 + 23], 10);
    // Offset 0 and length 1024 in five bytes each, high byte first.
    assert_eq!(&toc[168..178], &[0, 0, 0, 0, 0, 0, 0, 0, 4, 0]);
    assert_eq!(&toc[178..188], &[0, 0, 1, 0, 0, 0, 0, 0, 0, 84]);
    assert_eq!(&toc[188..200], &[0, 0, 0, 0, 0, 0, 4, 0, 0, 4, 0, 0]);
    assert_eq!(&toc[200..212], &[0, 8, 0, 0, 0, 84, 0, 0, 84, 0, 0, 0]);
    assert_eq!(&toc[212..216], &[10, 0, 0, 0]);
    assert_eq!(&toc[216..226], b"../../../\0");
    let metas = toc.len() - 66;
    assert_eq!(&toc[metas..metas + 20], &SHA1_OF_1024_ZEROS);
    assert_eq!(&toc[metas + 20..], &[0u8; 46]);
    let (texts, end) = IoStringPool::list_from_buffer(toc, 212 + 14 + 36 + 16).unwrap();
    assert_eq!(end, metas);
    assert_eq!(
        texts,
        vec![b"UnrealEssentials".to_vec(), b"Content".to_vec(), b"T_Chair_M.uasset".to_vec()]
    );
    assert_eq!(built.profiler.successful_files, 1);
    assert_eq!(built.profiler.container_header_hash, container);
    assert_eq!(built.profiler.compression_block_count, 2);
    assert_eq!(built.profiler.directory_index_size, index_size as u64);
}

#[test]
fn empty_tree_has_the_container_header_alone() {
    let root = TocDirectory::new("UnrealEssentials");
    let built = build_table_of_contents(Some(&root), TOC_PATH, &Vec::new()).unwrap();
    let resolver = &built.resolver;
    assert_eq!(
        resolver.directories,
        vec![IoDirectoryIndexEntry {
            name: 0,
            first_child: IO_INDEX_NONE,
            next_sibling: IO_INDEX_NONE,
            first_file: IO_INDEX_NONE
        }]
    );
    assert!(resolver.files.is_empty());
    assert_eq!(resolver.strings, vec!["UnrealEssentials"]);
    assert_eq!(resolver.chunk_ids.len(), 1);
    assert_eq!(resolver.chunk_ids[0].obj_type, IoChunkType4::ContainerHeader);
    assert_eq!(resolver.offsets_and_lengths, vec![IoOffsetAndLength { offset: 0, length: 44 }]);
    assert_eq!(resolver.compression_blocks, vec![block(0, 44)]);
    assert_eq!(resolver.metas.len(), 1);
    assert_eq!(read_u32_le(&built.toc, 24), Some(1));
    assert_eq!(read_u32_le(&built.toc, 28), Some(1));
    assert_eq!(resolver.container_header_bytes.len(), 48);
    assert_eq!(&resolver.container_header_bytes[44..], &[0u8; 4]);
    assert_eq!(resolver.partition_size, 48);
    let (blocks, status) = get_virtual_partition(CAS_PATH, Some(resolver));
    assert_eq!(status, PartitionStatus::Successful);
    assert_eq!(blocks.len(), 1);
    assert_eq!(blocks[0].source_path, "");
    assert_eq!(blocks[0].source_start, 0);
    assert_eq!(blocks[0].length, 48);
    assert_eq!(blocks[0].virtual_offset, 0);
    let index_size = 14 + (4 + 16) + 4 + (4 + 21);
    assert_eq!(built.toc.len(), 144 + 12 + 10 + 12 + index_size + 33);
}

fn layout_of(sizes: &[usize]) -> TocResolver {
    let names: Vec<String> = (0..sizes.len()).map(|i| format!("f{}.ubulk", i)).collect();
    let paths: Vec<String> = names.iter().map(|n| format!("/m/Content/{}", n)).collect();
    let files: Vec<(&str, &str)> =
        names.iter().zip(paths.iter()).map(|(n, p)| (n.as_str(), p.as_str())).collect();
    let root = tree_with_content(&files);
    let contents: Vec<Option<Vec<u8>>> = sizes.iter().map(|s| Some(vec![0x5Au8; *s])).collect();
    build_table_of_contents_inner(&root, TOC_PATH, &contents).unwrap().resolver
}

#[test]
fn file_of_exactly_one_block() {
    let resolver = layout_of(&[0x10000]);
    assert_eq!(resolver.offsets_and_lengths[0], IoOffsetAndLength { offset: 0, length: 0x10000 });
    assert_eq!(resolver.compression_blocks.len(), 2);
    assert_eq!(resolver.compression_blocks[0], block(0, 0x10000));
    assert_eq!(resolver.offsets_and_lengths[1].offset, 0x10000);
    assert_eq!(resolver.compression_blocks[1].offset, 0x10000);
}

#[test]
fn file_of_one_block_and_one_byte() {
    let resolver = layout_of(&[0x10001]);
    assert_eq!(resolver.offsets_and_lengths[0], IoOffsetAndLength { offset: 0, length: 0x10001 });
    assert_eq!(resolver.compression_blocks.len(), 3);
    assert_eq!(resolver.compression_blocks[0], block(0, 0x10000));
    assert_eq!(resolver.compression_blocks[1], block(0x10000, 1));
    assert_eq!(resolver.offsets_and_lengths[1].offset, 0x20000);
    assert_eq!(resolver.compression_blocks[2].offset, 0x10800);
}

#[test]
fn file_without_content_takes_one_empty_block() {
    let resolver = layout_of(&[5, 0, 7]);
    assert_eq!(
        &resolver.offsets_and_lengths[..3],
        &[
            IoOffsetAndLength { offset: 0, length: 5 },
            IoOffsetAndLength { offset: 0x10000, length: 0 },
            IoOffsetAndLength { offset: 0x20000, length: 7 },
        ]
    );
    assert_eq!(
        &resolver.compression_blocks[..3],
        &[block(0, 5), block(0x800, 0), block(0x800, 7)]
    );
    assert_eq!(resolver.offsets_and_lengths[3].offset, 0x30000);
    assert_eq!(resolver.compression_blocks[3].offset, 0x1000);
    assert_eq!(&resolver.metas[1].hash[..20], &SHA1_OF_NOTHING);
}

#[test]
fn file_of_two_full_blocks() {
    let resolver = layout_of(&[0x20000, 3]);
    assert_eq!(resolver.offsets_and_lengths[0], IoOffsetAndLength { offset: 0, length: 0x20000 });
    assert_eq!(&resolver.compression_blocks[..2], &[block(0, 0x10000), block(0x10000, 0x10000)]);
    assert_eq!(resolver.offsets_and_lengths[1], IoOffsetAndLength { offset: 0x20000, length: 3 });
    assert_eq!(resolver.compression_blocks[2], block(0x20000, 3));
    assert_eq!(resolver.compression_blocks.len(), 4);
}

#[test]
fn lists_of_chunk_records_are_equally_long() {
    let resolver = layout_of(&[1, 0x10000, 0x30001, 0, 0x800]);
    assert_eq!(resolver.files.len(), 5);
    assert_eq!(resolver.chunk_ids.len(), 6);
    assert_eq!(resolver.offsets_and_lengths.len(), 6);
    assert_eq!(resolver.metas.len(), 6);
    assert_eq!(resolver.partition_blocks.len(), 6);
    assert_eq!(resolver.compression_blocks.len(), 1 + 1 + 4 + 1 + 1 + 1);
    let mut next_block = 0u64;
    let sizes = [1u64, 0x10000, 0x30001, 0, 0x800];
    for (record, size) in resolver.offsets_and_lengths.iter().zip(sizes) {
        assert_eq!(record.offset % 0x10000, 0);
        assert_eq!(record.offset, next_block * 0x10000);
        assert_eq!(record.length, size);
        next_block += std::cmp::max(1, (size + 0xFFFF) / 0x10000);
    }
    for part in resolver.partition_blocks.iter().take(5) {
        assert_eq!(part.virtual_offset % 0x800, 0);
    }
    let small = layout_of(&[1, 2, 3]);
    assert_eq!(small.compression_blocks.len(), small.chunk_ids.len());
}

#[test]
fn partition_blocks_tell_where_the_content_comes_from() {
    let root = tree_with_content(&[("a.ubulk", "/m1/a.ubulk"), ("b.ubulk", "/m2/b.ubulk")]);
    let contents = vec![Some(vec![1u8; 0x801]), Some(vec![2u8; 10])];
    let built = build_table_of_contents(Some(&root), TOC_PATH, &contents).unwrap();
    let (blocks, status) = get_virtual_partition(CAS_PATH, Some(&built.resolver));
    assert_eq!(status, PartitionStatus::Successful);
    let seen: Vec<(&str, u64, u64, u64)> = blocks
        .iter()
        .map(|b| (b.source_path.as_str(), b.source_start, b.length, b.virtual_offset))
        .collect();
    assert_eq!(
        seen,
        vec![("/m1/a.ubulk", 0, 0x801, 0), ("/m2/b.ubulk", 0, 10, 0x1000), ("", 0, 48, 0x1800)]
    );
    assert_eq!(built.resolver.partition_size, 0x1800 + 48);
}

#[test]
fn replaced_file_is_laid_out_once_with_the_later_content() {
    let mut root = TocDirectory::new("UnrealEssentials");
    let slot = TocDirectory::ensure_child(&mut root, "Content");
    put_file(&mut root.children[slot], "A.ubulk", 10, "/m1/A.ubulk");
    put_file(&mut root.children[slot], "A.ubulk", 20, "/m2/A.ubulk");
    assert_eq!(source_paths(&root).unwrap(), vec!["/m2/A.ubulk"]);
    let contents = vec![Some(vec![b'B'; 20])];
    let built = build_table_of_contents(Some(&root), TOC_PATH, &contents).unwrap();
    assert_eq!(built.resolver.files.len(), 1);
    assert_eq!(built.resolver.files[0].file_size, 20);
    assert_eq!(built.resolver.offsets_and_lengths[0].length, 20);
    assert_eq!(&built.resolver.metas[0].hash[..20], &SHA1_OF_20_TIMES_B);
    assert_eq!(built.resolver.partition_blocks[0].source_path, "/m2/A.ubulk");
}

#[test]
fn unusable_files_leave_the_index() {
    // Content holds a, b, c; Sub holds d, e.
    let mut root = tree_with_content(&[
        ("a.uasset", "/m/a.uasset"),
        ("b.ubulk", "/m/b.ubulk"),
        ("c.uptnl", "/m/c.uptnl"),
    ]);
    let sub = TocDirectory::ensure_child(&mut root.children[0], "Sub");
    TocDirectory::add_or_replace_file(
        &mut root.children[0].children[sub],
        TocFile::new("d.ubulk", 0, "/m/Sub/d.ubulk"),
    );
    TocDirectory::add_or_replace_file(
        &mut root.children[0].children[sub],
        TocFile::new("e.ubulk", 0, "/m/Sub/e.ubulk"),
    );
    // a turns out to be cooked, b stays, c cannot be read, d and e cannot be
    // read either.
    let contents = vec![
        Some(vec![0xC1u8, 0x83, 0x2A, 0x9E, 0, 0]),
        Some(vec![1u8, 2, 3]),
        None,
        None,
    ];
    let built = build_table_of_contents(Some(&root), TOC_PATH, &contents).unwrap();
    let resolver = &built.resolver;
    assert_eq!(resolver.files.len(), 1);
    assert_eq!(resolver.files[0].os_path, "/m/b.ubulk");
    assert_eq!(resolver.files[0].next_file, IO_INDEX_NONE);
    assert_eq!(resolver.files[0].user_data, 0);
    assert_eq!(resolver.files[0].name, 3);
    assert_eq!(resolver.resolved_files, 1);
    // Content now starts with b; Sub holds no file any more.
    assert_eq!(resolver.directories[1].first_file, 0);
    assert_eq!(resolver.directories[2].first_file, IO_INDEX_NONE);
    assert_eq!(resolver.directories[1].first_child, 2);
    assert_eq!(resolver.strings.len(), 8);
    assert_eq!(resolver.chunk_ids.len(), 2);
    assert_eq!(resolver.chunk_ids[0].obj_type, IoChunkType4::BulkData);
    assert_eq!(read_u32_le(&built.toc, 24), Some(2));
    assert_eq!(built.profiler.incorrect_asset_format, vec!["/m/a.uasset"]);
    assert_eq!(
        built.profiler.failed_to_read,
        vec!["/m/c.uptnl", "/m/Sub/d.ubulk", "/m/Sub/e.ubulk"]
    );
    assert_eq!(built.profiler.successful_files, 1);
}

#[test]
fn chains_are_repaired_around_dropped_files() {
    let files = vec![
        chained_file(0, 1, 0, "0"),
        chained_file(1, 2, 1, "1"),
        chained_file(2, IO_INDEX_NONE, 2, "2"),
        chained_file(3, 4, 3, "3"),
        chained_file(4, IO_INDEX_NONE, 4, "4"),
    ];
    let dirs = vec![
        dir_entry(9, 1, IO_INDEX_NONE, 0),
        dir_entry(8, IO_INDEX_NONE, IO_INDEX_NONE, 3),
        dir_entry(7, IO_INDEX_NONE, IO_INDEX_NONE, IO_INDEX_NONE),
    ];
    // Files 0 and 3 are dropped.
    let contents = vec![None, Some(vec![1u8]), Some(vec![2u8]), None, Some(vec![4u8])];
    assert_eq!(remap_table(&files, &contents), vec![0, 0, 1, 2, 2]);
    let mut profiler = TocBuilderProfiler::new();
    let (new_dirs, new_files) = prune_index(&dirs, &files, &contents, &mut profiler);
    let links: Vec<(&str, u32, u32, u32)> = new_files
        .iter()
        .map(|f| (f.os_path.as_str(), f.name, f.next_file, f.user_data))
        .collect();
    assert_eq!(links, vec![("1", 1, 1, 0), ("2", 2, IO_INDEX_NONE, 1), ("4", 4, IO_INDEX_NONE, 2)]);
    let firsts: Vec<u32> = new_dirs.iter().map(|d| d.first_file).collect();
    assert_eq!(firsts, vec![0, 2, IO_INDEX_NONE]);
    assert_eq!(new_dirs[0].first_child, 1);
    assert_eq!(new_dirs[0].name, 9);
    assert_eq!(profiler.failed_to_read, vec!["0", "3"]);
    // Everything dropped.
    let nothing: Vec<Option<Vec<u8>>> = Vec::new();
    assert_eq!(remap_table(&files, &nothing), vec![IO_INDEX_NONE; 5]);
    let (all_dirs, no_files) = prune_index(&dirs, &files, &nothing, &mut profiler);
    assert!(no_files.is_empty());
    assert!(all_dirs.iter().all(|d| d.first_file == IO_INDEX_NONE));
}

#[test]
fn build_fails_for_a_file_outside_the_content_directory() {
    let mut root = TocDirectory::new("UnrealEssentials");
    put_file(&mut root, "stray.ubulk", 1, "/m/stray.ubulk");
    let contents = vec![Some(vec![1u8])];
    assert!(matches!(
        build_table_of_contents_inner(&root, TOC_PATH, &contents),
        Err(TocBuildError::MissingContentRoot)
    ));
    assert!(build_table_of_contents(Some(&root), TOC_PATH, &contents).is_none());
    // The file is not looked at where it has no usable content.
    assert!(build_table_of_contents(Some(&root), TOC_PATH, &vec![None]).is_some());
}

#[test]
fn build_fails_for_a_file_of_unknown_type() {
    let root = tree_with_content(&[("notes.txt", "/m/Content/notes.txt")]);
    let contents = vec![Some(vec![1u8])];
    assert!(matches!(
        build_table_of_contents_inner(&root, TOC_PATH, &contents),
        Err(TocBuildError::UnsupportedFileType)
    ));
}

#[test]
fn failed_build_leaves_the_resolver_as_it_was() {
    let root = tree_with_content(&[("notes.txt", "/m/Content/notes.txt")]);
    let mut resolver = TocResolver::new("UnrealEssentials");
    resolver.flatten_toc_tree(&root).unwrap();
    let before = format!("{:?}", resolver);
    let mut profiler = TocBuilderProfiler::new();
    assert_eq!(
        resolver.serialize(&mut profiler, TOC_PATH, &vec![Some(vec![1u8])]),
        Err(TocBuildError::UnsupportedFileType)
    );
    assert_eq!(format!("{:?}", resolver), before);
    assert_eq!(profiler.successful_files, 0);
}

#[test]
fn only_the_emulated_table_of_contents_is_built() {
    let root = TocDirectory::new("UnrealEssentials");
    let none = Vec::new();
    assert!(build_table_of_contents(Some(&root), "C:\\game\\pakchunk0.utoc", &none).is_none());
    assert!(build_table_of_contents(Some(&root), "UnrealEssentials_P.ucas", &none).is_none());
    assert!(build_table_of_contents(Some(&root), "", &none).is_none());
    assert!(build_table_of_contents(Some(&root), "unrealessentials_p.utoc", &none).is_none());
    assert!(build_table_of_contents(None, TOC_PATH, &none).is_none());
    assert!(build_table_of_contents(Some(&root), "UnrealEssentials_P.utoc", &none).is_some());
    assert!(build_table_of_contents(Some(&root), "/a/b/UnrealEssentials_P.utoc", &none).is_some());
}

#[test]
fn partition_is_handed_out_for_the_emulated_file_after_a_build() {
    let root = TocDirectory::new("UnrealEssentials");
    let built = build_table_of_contents(Some(&root), TOC_PATH, &Vec::new()).unwrap();
    let (blocks, status) = get_virtual_partition("C:\\game\\pakchunk0.ucas", Some(&built.resolver));
    assert_eq!(status, PartitionStatus::IncorrectFile);
    assert!(blocks.is_empty());
    let (blocks, status) = get_virtual_partition("C:\\game\\pakchunk0.ucas", None);
    assert_eq!(status, PartitionStatus::IncorrectFile);
    assert!(blocks.is_empty());
    let (blocks, status) = get_virtual_partition(CAS_PATH, None);
    assert_eq!(status, PartitionStatus::CalledBeforeToc);
    assert!(blocks.is_empty());
    let (blocks, status) = get_virtual_partition(CAS_PATH, Some(&built.resolver));
    assert_eq!(status, PartitionStatus::Successful);
    assert_eq!(blocks.len(), 1);
}

#[test]
fn same_tree_built_in_another_order_gives_the_same_bytes() {
    let contents = vec![Some(vec![1u8; 100]), Some(vec![2u8; 200])];
    let mut first = TocDirectory::new("UnrealEssentials");
    let slot = TocDirectory::ensure_child(&mut first, "Content");
    put_file(&mut first.children[slot], "a.ubulk", 1, "/old/a.ubulk");
    put_file(&mut first.children[slot], "b.ubulk", 200, "/m/b.ubulk");
    put_file(&mut first.children[slot], "a.ubulk", 100, "/m/a.ubulk");
    let mut second = TocDirectory::new("UnrealEssentials");
    TocDirectory::add_directory(&mut second, TocDirectory::new("Content"));
    put_file(&mut second.children[0], "a.ubulk", 100, "/m/a.ubulk");
    put_file(&mut second.children[0], "b.ubulk", 200, "/m/b.ubulk");
    let one = build_table_of_contents(Some(&first), TOC_PATH, &contents).unwrap();
    let two = build_table_of_contents(Some(&second), TOC_PATH, &contents).unwrap();
    assert_eq!(one.toc, two.toc);
    assert_eq!(one.resolver.container_header_bytes, two.resolver.container_header_bytes);
}

#[test]
fn chunk_tables_take_files_one_by_one() {
    let mut tables = ChunkTables::new(42);
    let file = flat_file("/m/a.uasset", "P/Content/a");
    assert_eq!(tables.add_file(&file, &vec![0u8; 0x900], "P"), Ok(()));
    assert_eq!(tables.cursor, 0x1000);
    assert_eq!(tables.header.packages.len(), 1);
    let bulk = flat_file("/m/b.ubulk", "P/Content/b");
    assert_eq!(tables.add_file(&bulk, &vec![0u8; 1], "P"), Ok(()));
    assert_eq!(tables.cursor, 0x1800);
    assert_eq!(tables.header.packages.len(), 1);
    let padded = tables.add_header().unwrap();
    assert_eq!(padded.len() % 16, 0);
    assert_eq!(tables.chunk_ids.len(), 3);
    assert_eq!(tables.chunk_ids[2].hash, 42);
    assert_eq!(tables.cursor, 0x1800 + padded.len() as u64);
    let mut other = ChunkTables::new(1);
    assert_eq!(
        other.add_file(&flat_file("/m/a.uasset", "Q/Content/a"), &vec![], "P"),
        Err(TocBuildError::MissingContentRoot)
    );
    assert!(other.chunk_ids.is_empty());
}

#[test]
fn padding_brings_a_stream_to_a_multiple_of_the_block_size() {
    let serializer = PartitionSerializer::new(0x10);
    assert_eq!(serializer.get_block_alignment(), 0x10);
    let mut out = vec![1u8; 5];
    serializer.to_buffer_alignment(&mut out);
    assert_eq!(out.len(), 16);
    assert_eq!(&out[5..], &[0u8; 11]);
    serializer.to_buffer_alignment(&mut out);
    assert_eq!(out.len(), 16);
    let mut empty = Vec::new();
    serializer.to_buffer_alignment(&mut empty);
    assert!(empty.is_empty());
    PartitionSerializer::to_buffer(&vec![7u8, 8], &mut empty);
    assert_eq!(empty, vec![7, 8]);
    PartitionSerializer::new(0x800).to_buffer_alignment(&mut empty);
    assert_eq!(empty.len(), 0x800);
}

#[test]
fn profiler_takes_the_times_it_is_given() {
    let mut profiler = TocBuilderProfiler::new();
    profiler.set_flatten_time(12);
    profiler.set_serialize_time(34);
    assert_eq!(profiler.time_to_flatten, 12);
    assert_eq!(profiler.time_to_serialize, 34);
    assert_eq!(profiler.successful_files, 0);
}

#[test]
fn contents_are_asked_for_in_the_order_of_the_index() {
    let root = tree_with_content(&[("a.ubulk", "/m/a.ubulk"), ("b.uasset", "/m/b.uasset")]);
    assert_eq!(
        requested_paths(Some(&root), TOC_PATH),
        Some(vec![String::from("/m/a.ubulk"), String::from("/m/b.uasset")])
    );
    assert_eq!(requested_paths(Some(&root), CAS_PATH), None);
    assert_eq!(requested_paths(None, TOC_PATH), None);
    assert_eq!(requested_paths(Some(&TocDirectory::new("R")), TOC_PATH), Some(Vec::new()));
}

#[test]
fn export_data_is_appended_only_where_asked_for() {
    let package = vec![1u8, 2, 3];
    let data = vec![9u8, 8, 7, 6, 0xC1, 0x83, 0x2A, 0x9E];
    assert_eq!(effective_content(package.clone(), Some(&data), true), vec![1, 2, 3, 9, 8, 7, 6]);
    assert_eq!(effective_content(package.clone(), Some(&data), false), vec![1, 2, 3]);
    assert_eq!(effective_content(package.clone(), None, true), vec![1, 2, 3]);
    assert_eq!(effective_content(package.clone(), Some(&vec![1, 2, 3]), true), vec![1, 2, 3]);
    assert_eq!(effective_content(package.clone(), Some(&vec![1, 2, 3, 4]), true), vec![1, 2, 3]);
    assert_eq!(effective_content(Vec::new(), Some(&vec![5, 1, 2, 3, 4]), true), vec![5]);
}

#[test]
fn export_data_stands_beside_its_package() {
    assert_eq!(companion_path("/m/Content/a.uasset"), Some(String::from("/m/Content/a.uexp")));
    assert_eq!(companion_path("C:\\m\\x.y.uasset"), Some(String::from("C:\\m\\x.y.uexp")));
    assert_eq!(companion_path("/m/Content/a.ubulk"), None);
    assert_eq!(companion_path("/m/Content/uasset"), None);
    assert_eq!(companion_path(""), None);
}

#[test]
fn store_entry_points_to_its_imports() {
    let package = ContainerHeaderPackage {
        hash: 1,
        export_bundle_size: 0x0102_0304_0506_0708,
        export_count: 2,
        export_bundle_count: 3,
        load_order: 4,
        import_ids: vec![7, 8, 9],
    };
    let mut table = vec![0u8; 0x20];
    let mut placed = 16u64;
    package.to_buffer_store_entry(&mut table, 0x60, &mut placed);
    assert_eq!(table.len(), 0x40);
    assert_eq!(read_u64_le(&table, 0x20), Some(0x0102_0304_0506_0708));
    assert_eq!(read_u32_le(&table, 0x28), Some(2));
    assert_eq!(read_u32_le(&table, 0x2C), Some(3));
    assert_eq!(read_u32_le(&table, 0x30), Some(4));
    assert_eq!(read_u32_le(&table, 0x34), Some(0));
    assert_eq!(read_u32_le(&table, 0x38), Some(3));
    assert_eq!(read_u32_le(&table, 0x3C), Some(0x60 + 16 - 0x38));
    assert_eq!(placed, 16 + 24);
    let bare = ContainerHeaderPackage {
        hash: 1,
        export_bundle_size: 5,
        export_count: 0,
        export_bundle_count: 0,
        load_order: 0,
        import_ids: vec![],
    };
    bare.to_buffer_store_entry(&mut table, 0x60, &mut placed);
    assert_eq!(read_u32_le(&table, 0x58), Some(0));
    assert_eq!(read_u32_le(&table, 0x5C), Some(0));
    assert_eq!(placed, 40);
}

#[test]
fn layout_fails_beyond_what_five_bytes_can_address() {
    let file = flat_file("/m/a.ubulk", "P/Content/a");
    let mut full = ChunkTables::new(1);
    full.cursor = IO_OFFSET_LENGTH_MAX - 0x7FF;
    assert_eq!(full.add_file(&file, &vec![0u8; 0x800], "P"), Err(TocBuildError::LayoutOverflow));
    assert!(full.chunk_ids.is_empty());
    assert!(full.compression_blocks.is_empty());
    // A chunk that ends on the last byte still fits.
    let mut last = ChunkTables::new(1);
    last.cursor = IO_OFFSET_LENGTH_MAX - 0x7FF;
    assert_eq!(last.add_file(&file, &vec![0u8; 0x7FF], "P"), Ok(()));
    assert_eq!(last.compression_blocks, vec![block(IO_OFFSET_LENGTH_MAX - 0x7FF, 0x7FF)]);
    assert_eq!(last.cursor, IO_OFFSET_LENGTH_MAX + 1);
    // Nothing can follow it, not even the container header.
    assert_eq!(last.add_file(&file, &vec![], "P"), Err(TocBuildError::LayoutOverflow));
    assert_eq!(last.add_header(), Err(TocBuildError::LayoutOverflow));
    assert_eq!(last.chunk_ids.len(), 1);
}

#[test]
fn table_of_contents_of_an_empty_tree_byte_for_byte() {
    let root = TocDirectory::new("UnrealEssentials");
    let built = build_table_of_contents(Some(&root), TOC_PATH, &Vec::new()).unwrap();
    let container = Hasher16::get_cityhash64("UnrealEssentials_P");
    let mut index: Vec<u8> = Vec::new();
    index.extend_from_slice(&10u32.to_le_bytes());
    index.extend_from_slice(b"../../../\0");
    index.extend_from_slice(&1u32.to_le_bytes());
    index.extend_from_slice(&0u32.to_le_bytes());
    index.extend_from_slice(&[0xFF; 12]);
    index.extend_from_slice(&0u32.to_le_bytes());
    index.extend_from_slice(&1u32.to_le_bytes());
    index.extend_from_slice(&17u32.to_le_bytes());
    index.extend_from_slice(b"UnrealEssentials\0");
    let mut expected: Vec<u8> = Vec::new();
    expected.extend_from_slice(b"-==--==--==--==-");
    expected.extend_from_slice(&[3, 0, 0, 0]);
    expected.extend_from_slice(&144u32.to_le_bytes());
    expected.extend_from_slice(&1u32.to_le_bytes());
    expected.extend_from_slice(&1u32.to_le_bytes());
    expected.extend_from_slice(&12u32.to_le_bytes());
    expected.extend_from_slice(&0u32.to_le_bytes());
    expected.extend_from_slice(&0u32.to_le_bytes());
    expected.extend_from_slice(&0x10000u32.to_le_bytes());
    expected.extend_from_slice(&(index.len() as u32).to_le_bytes());
    expected.extend_from_slice(&1u32.to_le_bytes());
    expected.extend_from_slice(&container.to_le_bytes());
    expected.extend_from_slice(&[0u8; 16]);
    expected.extend_from_slice(&[8, 0, 0, 0, 0, 0, 0, 0]);
    expected.extend_from_slice(&u64::MAX.to_le_bytes());
    expected.extend_from_slice(&[0u8; 48]);
    // The chunk of the container header.
    expected.extend_from_slice(&container.to_le_bytes());
    expected.extend_from_slice(&[0, 0, 0, 10]);
    // It starts at 0 and is 44 bytes long.
    expected.extend_from_slice(&[0, 0, 0, 0, 0, 0, 0, 0, 0, 44]);
    expected.extend_from_slice(&[0, 0, 0, 0, 0, 44, 0, 0, 44, 0, 0, 0]);
    expected.extend_from_slice(&index);
    expected.extend_from_slice(&[0u8; 33]);
    assert_eq!(built.toc, expected);
    let mut header: Vec<u8> = Vec::new();
    header.extend_from_slice(&container.to_le_bytes());
    header.extend_from_slice(&0u32.to_le_bytes());
    header.extend_from_slice(&0u32.to_le_bytes());
    header.extend_from_slice(&8u32.to_le_bytes());
    header.extend_from_slice(&0xC164_0000u64.to_le_bytes());
    header.extend_from_slice(&[0u8; 16]);
    header.extend_from_slice(&[0u8; 4]);
    assert_eq!(built.resolver.container_header_bytes, header);
}

#[test]
fn table_of_contents_of_two_files_byte_for_byte() {
    let root = tree_with_content(&[("a.ubulk", "/m/a.ubulk"), ("b.uptnl", "/m/b.uptnl")]);
    let first = vec![7u8; 0x10001];
    let second = b"hello world".to_vec();
    let contents = vec![Some(first.clone()), Some(second)];
    let built = build_table_of_contents(Some(&root), TOC_PATH, &contents).unwrap();
    let container = Hasher16::get_cityhash64("UnrealEssentials_P");
    let five_be = |v: u64| v.to_be_bytes()[3..].to_vec();
    let five_le = |v: u64| v.to_le_bytes()[..5].to_vec();
    let three_le = |v: u32| v.to_le_bytes()[..3].to_vec();
    let mut index: Vec<u8> = Vec::new();
    index.extend_from_slice(&10u32.to_le_bytes());
    index.extend_from_slice(b"../../../\0");
    index.extend_from_slice(&2u32.to_le_bytes());
    for field in [0u32, 1, u32::MAX, u32::MAX, 1, u32::MAX, u32::MAX, 0] {
        index.extend_from_slice(&field.to_le_bytes());
    }
    index.extend_from_slice(&2u32.to_le_bytes());
    for field in [2u32, 1, 0, 3, u32::MAX, 1] {
        index.extend_from_slice(&field.to_le_bytes());
    }
    index.extend_from_slice(&4u32.to_le_bytes());
    for text in ["UnrealEssentials", "Content", "a.ubulk", "b.uptnl"] {
        index.extend_from_slice(&(text.len() as u32 + 1).to_le_bytes());
        index.extend_from_slice(text.as_bytes());
        index.push(0);
    }
    let mut expected: Vec<u8> = Vec::new();
    expected.extend_from_slice(b"-==--==--==--==-");
    expected.extend_from_slice(&[3, 0, 0, 0]);
    for field in [144u32, 3, 4, 12, 0, 0, 0x10000, index.len() as u32, 1] {
        expected.extend_from_slice(&field.to_le_bytes());
    }
    expected.extend_from_slice(&container.to_le_bytes());
    expected.extend_from_slice(&[0u8; 16]);
    expected.extend_from_slice(&[8, 0, 0, 0, 0, 0, 0, 0]);
    expected.extend_from_slice(&u64::MAX.to_le_bytes());
    expected.extend_from_slice(&[0u8; 48]);
    expected.extend_from_slice(&Hasher16::get_cityhash64("/Game/a").to_le_bytes());
    expected.extend_from_slice(&[0, 0, 0, 3]);
    expected.extend_from_slice(&Hasher16::get_cityhash64("/Game/b").to_le_bytes());
    expected.extend_from_slice(&[0, 0, 0, 4]);
    expected.extend_from_slice(&container.to_le_bytes());
    expected.extend_from_slice(&[0, 0, 0, 10]);
    for (offset, length) in [(0u64, 0x10001u64), (0x20000, 11), (0x30000, 44)] {
        expected.extend(five_be(offset));
        expected.extend(five_be(length));
    }
    // The first file ends at 0x10001, so the second stands at 0x10800 and the
    // container header at 0x11000.
    for (offset, size) in [(0u64, 0x10000u32), (0x10000, 1), (0x10800, 11), (0x11000, 44)] {
        expected.extend(five_le(offset));
        expected.extend(three_le(size));
        expected.extend(three_le(size));
        expected.push(0);
    }
    expected.extend_from_slice(&index);
    let first_meta = IoStoreTocEntryMeta::new(&first);
    expected.extend_from_slice(&first_meta.hash);
    expected.push(0);
    expected.extend_from_slice(&SHA1_OF_HELLO_WORLD);
    expected.extend_from_slice(&[0u8; 13]);
    expected.extend_from_slice(&[0u8; 33]);
    assert_eq!(built.toc, expected);
    assert_eq!(built.resolver.partition_size, 0x11000 + 48);
}
