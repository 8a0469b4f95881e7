//! The records of an IO Store table of contents and their byte layouts.

use crate::io_package::{field_at, FGraphPackage};
use crate::serialize::{
    concat_bytes, lemma_concat_bytes_push, lemma_pow256_values, lemma_uint_bytes_len, read_u32_le,
    uint_be_bytes, uint_le_bytes, write_bytes, write_u16_le, write_u32_le, write_u64_le, write_u8,
    write_uint_be, write_uint_le, write_zeros, zero_bytes,
};
use crate::string::{
    fstring32_bytes, fstring32_parse, lemma_fstring32_roundtrip, name_hash, FString32NoHash,
    FStringData, FStringDataView, Hasher16, FSTRING32_MAX_BYTES,
};
use crate::toc_factory::{PartitionSerializer, PartitionSerializerAlign};
use sha1::Digest;
use vstd::prelude::*;
use vstd::std_specs::convert::FromSpecImpl;
use vstd::string::StringSliceAdditionalSpecFns;

verus! {

/// A container is identified by the name hash of its file name.
pub type IoContainerId = u64;

pub type GUID = u128;

/// Index value that stands for "none" in the directory index.
pub const IO_INDEX_NONE: u32 = 0xFFFF_FFFF;

/// Largest offset or length that the five-byte fields can hold.
pub const IO_OFFSET_LENGTH_MAX: u64 = 0xFF_FFFF_FFFF;

/// Largest block size that the three-byte fields can hold.
pub const IO_COMPRESSED_BLOCK_LENGTH_MAX: u32 = 0xFF_FFFF;

/// Serialized size of one file index entry.
pub const IO_FILE_INDEX_ENTRY_SERIALIZED_SIZE: usize = 0xc;

/// Serialized size of one directory index entry.
pub const IO_DIRECTORY_INDEX_ENTRY_SERIALIZED_SIZE: usize = 0x10;

/// Serialized size of the table of contents header.
pub const IO_STORE_TOC_HEADER_SIZE: u32 = 0x90;

/// Serialized size of one compression block entry.
pub const IO_STORE_TOC_COMPRESSED_BLOCK_ENTRY_SIZE: u32 = 0xc;

/// The sixteen bytes `-==--==--==--==-` that open a table of contents.
pub const IO_STORE_TOC_MAGIC: [u8; 16] = [
    0x2D, 0x3D, 0x3D, 0x2D, 0x2D, 0x3D, 0x3D, 0x2D, 0x2D, 0x3D, 0x3D, 0x2D, 0x2D, 0x3D, 0x3D, 0x2D,
];

/// Container flag: the data is compressed.
pub const IO_CONTAINER_FLAG_COMPRESSED: u8 = 0x01;

/// Container flag: the data is encrypted.
pub const IO_CONTAINER_FLAG_ENCRYPTED: u8 = 0x02;

/// Container flag: the table of contents is signed.
pub const IO_CONTAINER_FLAG_SIGNED: u8 = 0x04;

/// Container flag: the table of contents carries a directory index.
pub const IO_CONTAINER_FLAG_INDEXED: u8 = 0x08;

/// Container flag: the container is fetched on demand.
pub const IO_CONTAINER_FLAG_ON_DEMAND: u8 = 0x10;

/// Revision of the table of contents layout.
#[derive(Debug, Copy, Clone, PartialEq, Eq, Structural)]
pub enum IoStoreTocVersion {
    Invalid,
    Initial,
    DirectoryIndex,
    PartitionSize,
    PerfectHash,
    PerfectHashWithOverflow,
}

impl IoStoreTocVersion {
    /// The byte that stands for the revision.
    pub open spec fn spec_u8(self) -> u8 {
        match self {
            IoStoreTocVersion::Invalid => 0,
            IoStoreTocVersion::Initial => 1,
            IoStoreTocVersion::DirectoryIndex => 2,
            IoStoreTocVersion::PartitionSize => 3,
            IoStoreTocVersion::PerfectHash => 4,
            IoStoreTocVersion::PerfectHashWithOverflow => 5,
        }
    }

    /// The revision that `val` stands for, where it stands for one other than
    /// `Invalid`.
    pub fn from_u8(val: u8) -> (r: Option<IoStoreTocVersion>)
        ensures
            r is Some <==> 1 <= val <= 5,
            r is Some ==> r->0.spec_u8() == val,
    {
        match val {
            1 => Some(IoStoreTocVersion::Initial),
            2 => Some(IoStoreTocVersion::DirectoryIndex),
            3 => Some(IoStoreTocVersion::PartitionSize),
            4 => Some(IoStoreTocVersion::PerfectHash),
            5 => Some(IoStoreTocVersion::PerfectHashWithOverflow),
            _ => None,
        }
    }
}

impl From<IoStoreTocVersion> for u8 {
    fn from(val: IoStoreTocVersion) -> (r: u8) {
        match val {
            IoStoreTocVersion::Invalid => 0,
            IoStoreTocVersion::Initial => 1,
            IoStoreTocVersion::DirectoryIndex => 2,
            IoStoreTocVersion::PartitionSize => 3,
            IoStoreTocVersion::PerfectHash => 4,
            IoStoreTocVersion::PerfectHashWithOverflow => 5,
        }
    }
}

impl FromSpecImpl<IoStoreTocVersion> for u8 {
    open spec fn obeys_from_spec() -> bool {
        true
    }

    open spec fn from_spec(val: IoStoreTocVersion) -> u8 {
        val.spec_u8()
    }
}

/// Kind of a chunk in a 4.x container.
#[derive(Debug, Clone, Copy, PartialEq, Eq, Structural)]
pub enum IoChunkType4 {
    Invalid,
    InstallManifest,
    ExportBundleData,
    BulkData,
    OptionalBulkData,
    MemoryMappedBulkData,
    LoaderGlobalMeta,
    LoaderInitialLoadMeta,
    LoaderGlobalNames,
    LoaderGlobalNameHashes,
    ContainerHeader,
}

impl IoChunkType4 {
    /// The byte that stands for the kind.
    pub open spec fn spec_u8(self) -> u8 {
        match self {
            IoChunkType4::Invalid => 0,
            IoChunkType4::InstallManifest => 1,
            IoChunkType4::ExportBundleData => 2,
            IoChunkType4::BulkData => 3,
            IoChunkType4::OptionalBulkData => 4,
            IoChunkType4::MemoryMappedBulkData => 5,
            IoChunkType4::LoaderGlobalMeta => 6,
            IoChunkType4::LoaderInitialLoadMeta => 7,
            IoChunkType4::LoaderGlobalNames => 8,
            IoChunkType4::LoaderGlobalNameHashes => 9,
            IoChunkType4::ContainerHeader => 10,
        }
    }

    /// The kind that `value` stands for, where it stands for one other than
    /// `Invalid`.
    pub fn from_u8(value: u8) -> (r: Option<IoChunkType4>)
        ensures
            r is Some <==> 1 <= value <= 10,
            r is Some ==> r->0.spec_u8() == value,
    {
        match value {
            1 => Some(IoChunkType4::InstallManifest),
            2 => Some(IoChunkType4::ExportBundleData),
            3 => Some(IoChunkType4::BulkData),
            4 => Some(IoChunkType4::OptionalBulkData),
            5 => Some(IoChunkType4::MemoryMappedBulkData),
            6 => Some(IoChunkType4::LoaderGlobalMeta),
            7 => Some(IoChunkType4::LoaderInitialLoadMeta),
            8 => Some(IoChunkType4::LoaderGlobalNames),
            9 => Some(IoChunkType4::LoaderGlobalNameHashes),
            10 => Some(IoChunkType4::ContainerHeader),
            _ => None,
        }
    }
}

impl From<IoChunkType4> for u8 {
    fn from(value: IoChunkType4) -> (r: u8) {
        match value {
            IoChunkType4::Invalid => 0,
            IoChunkType4::InstallManifest => 1,
            IoChunkType4::ExportBundleData => 2,
            IoChunkType4::BulkData => 3,
            IoChunkType4::OptionalBulkData => 4,
            IoChunkType4::MemoryMappedBulkData => 5,
            IoChunkType4::LoaderGlobalMeta => 6,
            IoChunkType4::LoaderInitialLoadMeta => 7,
            IoChunkType4::LoaderGlobalNames => 8,
            IoChunkType4::LoaderGlobalNameHashes => 9,
            IoChunkType4::ContainerHeader => 10,
        }
    }
}

impl FromSpecImpl<IoChunkType4> for u8 {
    open spec fn obeys_from_spec() -> bool {
        true
    }

    open spec fn from_spec(value: IoChunkType4) -> u8 {
        value.spec_u8()
    }
}

/// Kind of a chunk in a 5.x container.
#[derive(Debug, Clone, Copy, PartialEq, Eq, Structural)]
pub enum IoChunkType5 {
    Invalid,
    ExportBundleData,
    BulkData,
    OptionalBulkData,
    MemoryMappedBulkData,
    ScriptObjects,
    ContainerHeader,
    ExternalFile,
    ShaderCodeLibrary,
    ShaderCode,
    PackageStoreEntry,
    DerivedData,
    EditorDerivedData,
    PackageResource,
}

impl IoChunkType5 {
    /// The byte that stands for the kind.
    pub open spec fn spec_u8(self) -> u8 {
        match self {
            IoChunkType5::Invalid => 0,
            IoChunkType5::ExportBundleData => 1,
            IoChunkType5::BulkData => 2,
            IoChunkType5::OptionalBulkData => 3,
            IoChunkType5::MemoryMappedBulkData => 4,
            IoChunkType5::ScriptObjects => 5,
            IoChunkType5::ContainerHeader => 6,
            IoChunkType5::ExternalFile => 7,
            IoChunkType5::ShaderCodeLibrary => 8,
            IoChunkType5::ShaderCode => 9,
            IoChunkType5::PackageStoreEntry => 10,
            IoChunkType5::DerivedData => 11,
            IoChunkType5::EditorDerivedData => 12,
            IoChunkType5::PackageResource => 13,
        }
    }

    /// The kind that `value` stands for, where it stands for one other than
    /// `Invalid`.
    pub fn from_u8(value: u8) -> (r: Option<IoChunkType5>)
        ensures
            r is Some <==> 1 <= value <= 13,
            r is Some ==> r->0.spec_u8() == value,
    {
        match value {
            1 => Some(IoChunkType5::ExportBundleData),
            2 => Some(IoChunkType5::BulkData),
            3 => Some(IoChunkType5::OptionalBulkData),
            4 => Some(IoChunkType5::MemoryMappedBulkData),
            5 => Some(IoChunkType5::ScriptObjects),
            6 => Some(IoChunkType5::ContainerHeader),
            7 => Some(IoChunkType5::ExternalFile),
            8 => Some(IoChunkType5::ShaderCodeLibrary),
            9 => Some(IoChunkType5::ShaderCode),
            10 => Some(IoChunkType5::PackageStoreEntry),
            11 => Some(IoChunkType5::DerivedData),
            12 => Some(IoChunkType5::EditorDerivedData),
            13 => Some(IoChunkType5::PackageResource),
            _ => None,
        }
    }
}

impl From<IoChunkType5> for u8 {
    fn from(value: IoChunkType5) -> (r: u8) {
        match value {
            IoChunkType5::Invalid => 0,
            IoChunkType5::ExportBundleData => 1,
            IoChunkType5::BulkData => 2,
            IoChunkType5::OptionalBulkData => 3,
            IoChunkType5::MemoryMappedBulkData => 4,
            IoChunkType5::ScriptObjects => 5,
            IoChunkType5::ContainerHeader => 6,
            IoChunkType5::ExternalFile => 7,
            IoChunkType5::ShaderCodeLibrary => 8,
            IoChunkType5::ShaderCode => 9,
            IoChunkType5::PackageStoreEntry => 10,
            IoChunkType5::DerivedData => 11,
            IoChunkType5::EditorDerivedData => 12,
            IoChunkType5::PackageResource => 13,
        }
    }
}

impl FromSpecImpl<IoChunkType5> for u8 {
    open spec fn obeys_from_spec() -> bool {
        true
    }

    open spec fn from_spec(value: IoChunkType5) -> u8 {
        value.spec_u8()
    }
}

/// Header of the earliest layout: magic, sizes and padding.
#[derive(Debug)]
pub struct IoStoreTocHeaderType1 {
    pub toc_magic: [u8; 16],
    pub toc_header_size: u32,
    pub toc_entry_count: u32,
    pub toc_entry_size: u32,
    pub toc_pad: [u32; 25],
}

impl IoStoreTocHeaderType1 {
    /// A header for the `entries` chunks of the container called `name`. The
    /// name leaves no trace in the header.
    pub fn new(name: &str, entries: u32) -> (header: Self)
        ensures
            header.toc_magic == IO_STORE_TOC_MAGIC,
            header.toc_header_size == 0x80,
            header.toc_entry_count == entries,
            header.toc_entry_size == 0,
            header.toc_pad@ == Seq::new(25, |i: int| 0u32),
    {
        let header = IoStoreTocHeaderType1 {
            toc_magic: IO_STORE_TOC_MAGIC,
            toc_header_size: 0x80,
            toc_entry_count: entries,
            toc_entry_size: 0,
            toc_pad: [0u32; 25],
        };
        assert(header.toc_pad@ =~= Seq::new(25, |i: int| 0u32));
        header
    }
}

/// A table of contents under construction, by layout revision.
#[derive(Debug)]
pub enum IoStoreToc {
    Initial(IoStoreTocHeaderType1),
    DirectoryIndex(IoStoreTocHeaderType1),
    PartitionSize(IoStoreTocHeaderType1),
    PerfectHash(IoStoreTocHeaderType1),
}

impl IoStoreToc {
    /// The header that this table of contents starts with.
    pub open spec fn header(self) -> IoStoreTocHeaderType1 {
        match self {
            IoStoreToc::Initial(h) => h,
            IoStoreToc::DirectoryIndex(h) => h,
            IoStoreToc::PartitionSize(h) => h,
            IoStoreToc::PerfectHash(h) => h,
        }
    }

    /// A table of contents of revision `ver` for the `entries` chunks of the
    /// container called `name`. Both perfect-hash revisions share one
    /// variant.
    pub fn new(ver: IoStoreTocVersion, name: &str, entries: u32) -> (toc: IoStoreToc)
        requires
            ver != IoStoreTocVersion::Invalid,
        ensures
            toc.header().toc_entry_count == entries,
            toc.header().toc_magic == IO_STORE_TOC_MAGIC,
            toc.header().toc_header_size == 0x80,
            toc.header().toc_entry_size == 0,
            toc.header().toc_pad@ == Seq::new(25, |i: int| 0u32),
            ver == IoStoreTocVersion::Initial <==> toc is Initial,
            ver == IoStoreTocVersion::DirectoryIndex <==> toc is DirectoryIndex,
            ver == IoStoreTocVersion::PartitionSize <==> toc is PartitionSize,
            (ver == IoStoreTocVersion::PerfectHash || ver
                == IoStoreTocVersion::PerfectHashWithOverflow) <==> toc is PerfectHash,
    {
        match ver {
            IoStoreTocVersion::Initial => IoStoreToc::Initial(
                IoStoreTocHeaderType1::new(name, entries),
            ),
            IoStoreTocVersion::DirectoryIndex => IoStoreToc::DirectoryIndex(
                IoStoreTocHeaderType1::new(name, entries),
            ),
            IoStoreTocVersion::PartitionSize => IoStoreToc::PartitionSize(
                IoStoreTocHeaderType1::new(name, entries),
            ),
            _ => IoStoreToc::PerfectHash(IoStoreTocHeaderType1::new(name, entries)),
        }
    }
}

/// Header of the layout with a directory index.
#[derive(Debug)]
pub struct IoStoreTocHeaderType2 {
    pub toc_magic: [u8; 16],
    pub version: IoStoreTocVersion,
    pub toc_header_size: u32,
    pub toc_entry_count: u32,
    pub toc_compressed_block_entry_count: u32,
    pub toc_compressed_block_entry_size: u32,
    pub compression_method_name_count: u32,
    pub compression_method_name_length: u32,
    pub compression_block_size: u32,
    pub directory_index_size: u32,
    pub container_id: IoContainerId,
    pub encryption_key_guid: GUID,
    pub container_flags: u8,
    pub reserved: [u32; 15],
}

/// Header of the layout with a partition size, 144 bytes when serialized.
#[derive(Debug)]
pub struct IoStoreTocHeaderType3 {
    pub toc_magic: [u8; 16],
    pub version: IoStoreTocVersion,
    pub toc_header_size: u32,
    pub toc_entry_count: u32,
    pub toc_compressed_block_entry_count: u32,
    pub toc_compressed_block_entry_size: u32,
    pub compression_method_name_count: u32,
    pub compression_method_name_length: u32,
    pub compression_block_size: u32,
    pub directory_index_size: u32,
    pub partition_count: u32,
    pub container_id: IoContainerId,
    pub encryption_key_guid: GUID,
    pub container_flags: u8,
    pub partition_size: u64,
    pub reserved: [u64; 6],
}

impl IoStoreTocHeaderType3 {
    /// The serialized header.
    pub open spec fn spec_bytes(self) -> Seq<u8> {
        self.toc_magic@ + uint_le_bytes(self.version.spec_u8() as nat, 1) + zero_bytes(3)
            + uint_le_bytes(self.toc_header_size as nat, 4) + uint_le_bytes(
            self.toc_entry_count as nat,
            4,
        ) + uint_le_bytes(self.toc_compressed_block_entry_count as nat, 4) + uint_le_bytes(
            self.toc_compressed_block_entry_size as nat,
            4,
        ) + uint_le_bytes(self.compression_method_name_count as nat, 4) + uint_le_bytes(
            self.compression_method_name_length as nat,
            4,
        ) + uint_le_bytes(self.compression_block_size as nat, 4) + uint_le_bytes(
            self.directory_index_size as nat,
            4,
        ) + uint_le_bytes(self.partition_count as nat, 4) + uint_le_bytes(
            self.container_id as nat,
            8,
        ) + uint_le_bytes((self.encryption_key_guid % 0x1_0000_0000_0000_0000) as nat, 8)
            + uint_le_bytes((self.encryption_key_guid / 0x1_0000_0000_0000_0000) as nat, 8)
            + uint_le_bytes(self.container_flags as nat, 1) + zero_bytes(3) + zero_bytes(4)
            + uint_le_bytes(self.partition_size as nat, 8) + zero_bytes(48)
    }

    /// The header of an indexed, unencrypted, single-partition container.
    pub fn new(
        container_id: u64,
        entries: u32,
        compressed_blocks: u32,
        compression_block_size: u32,
        dir_index_size: u32,
    ) -> (header: Self)
        ensures
            header.toc_magic == IO_STORE_TOC_MAGIC,
            header.version == IoStoreTocVersion::PartitionSize,
            header.toc_header_size == IO_STORE_TOC_HEADER_SIZE,
            header.toc_entry_count == entries,
            header.toc_compressed_block_entry_count == compressed_blocks,
            header.toc_compressed_block_entry_size == IO_STORE_TOC_COMPRESSED_BLOCK_ENTRY_SIZE,
            header.compression_method_name_count == 0,
            header.compression_method_name_length == 0,
            header.compression_block_size == compression_block_size,
            header.directory_index_size == dir_index_size,
            header.partition_count == 1,
            header.container_id == container_id,
            header.encryption_key_guid == 0,
            header.container_flags == IO_CONTAINER_FLAG_INDEXED,
            header.partition_size == u64::MAX,
            header.reserved@ == Seq::new(6, |i: int| 0u64),
    {
        let header = Self {
            toc_magic: IO_STORE_TOC_MAGIC,
            version: IoStoreTocVersion::PartitionSize,
            toc_header_size: IO_STORE_TOC_HEADER_SIZE,
            toc_entry_count: entries,
            toc_compressed_block_entry_count: compressed_blocks,
            toc_compressed_block_entry_size: IO_STORE_TOC_COMPRESSED_BLOCK_ENTRY_SIZE,
            compression_method_name_count: 0,
            compression_method_name_length: 0,
            compression_block_size,
            directory_index_size: dir_index_size,
            partition_count: 1,
            container_id,
            encryption_key_guid: 0,
            container_flags: IO_CONTAINER_FLAG_INDEXED,
            partition_size: u64::MAX,
            reserved: [0u64; 6],
        };
        assert(header.reserved@ =~= Seq::new(6, |i: int| 0u64));
        header
    }

    /// Appends the 144 bytes of the header. The reserved words are written as
    /// zeros.
    pub fn to_buffer(&self, writer: &mut Vec<u8>)
        ensures
            final(writer)@ == old(writer)@ + self.spec_bytes(),
            self.spec_bytes().len() == IO_STORE_TOC_HEADER_SIZE,
    {
        proof {
            self.lemma_len();
        }
        write_bytes(writer, self.toc_magic.as_slice());
        write_u8(writer, self.version.into());
        write_zeros(writer, 3);
        write_u32_le(writer, self.toc_header_size);
        write_u32_le(writer, self.toc_entry_count);
        write_u32_le(writer, self.toc_compressed_block_entry_count);
        write_u32_le(writer, self.toc_compressed_block_entry_size);
        write_u32_le(writer, self.compression_method_name_count);
        write_u32_le(writer, self.compression_method_name_length);
        write_u32_le(writer, self.compression_block_size);
        write_u32_le(writer, self.directory_index_size);
        write_u32_le(writer, self.partition_count);
        write_u64_le(writer, self.container_id);
        write_u64_le(writer, (self.encryption_key_guid % 0x1_0000_0000_0000_0000) as u64);
        write_u64_le(writer, (self.encryption_key_guid / 0x1_0000_0000_0000_0000) as u64);
        write_u8(writer, self.container_flags);
        write_zeros(writer, 3);
        write_zeros(writer, 4);
        write_u64_le(writer, self.partition_size);
        write_zeros(writer, 48);
        proof {
            assert(writer@ =~= old(writer)@ + self.spec_bytes());
        }
    }

    /// The serialized header is 144 bytes long.
    pub proof fn lemma_len(self)
        ensures
            self.spec_bytes().len() == IO_STORE_TOC_HEADER_SIZE,
    {
        lemma_uint_bytes_len(self.version.spec_u8() as nat, 1);
        lemma_uint_bytes_len(self.toc_header_size as nat, 4);
        lemma_uint_bytes_len(self.toc_entry_count as nat, 4);
        lemma_uint_bytes_len(self.toc_compressed_block_entry_count as nat, 4);
        lemma_uint_bytes_len(self.toc_compressed_block_entry_size as nat, 4);
        lemma_uint_bytes_len(self.compression_method_name_count as nat, 4);
        lemma_uint_bytes_len(self.compression_method_name_length as nat, 4);
        lemma_uint_bytes_len(self.compression_block_size as nat, 4);
        lemma_uint_bytes_len(self.directory_index_size as nat, 4);
        lemma_uint_bytes_len(self.partition_count as nat, 4);
        lemma_uint_bytes_len(self.container_id as nat, 8);
        lemma_uint_bytes_len((self.encryption_key_guid % 0x1_0000_0000_0000_0000) as nat, 8);
        lemma_uint_bytes_len((self.encryption_key_guid / 0x1_0000_0000_0000_0000) as nat, 8);
        lemma_uint_bytes_len(self.container_flags as nat, 1);
        lemma_uint_bytes_len(self.partition_size as nat, 8);
    }
}

/// Header of the layout with perfect hashing.
#[derive(Debug)]
pub struct IoStoreTocHeaderType4 {
    pub toc_magic: [u8; 16],
    pub version: IoStoreTocVersion,
    pub toc_header_size: u32,
    pub toc_entry_count: u32,
    pub toc_compressed_block_entry_count: u32,
    pub toc_compressed_block_entry_size: u32,
    pub compression_method_name_count: u32,
    pub compression_method_name_length: u32,
    pub compression_block_size: u32,
    pub directory_index_size: u32,
    pub partition_count: u32,
    pub container_id: IoContainerId,
    pub encryption_key_guid: GUID,
    pub container_flags: u8,
    pub toc_chunks_perfect_hash_seeds_count: u32,
    pub partition_size: u64,
    pub toc_chunks_without_perfect_hash_count: u32,
    pub reserved: [u32; 11],
}

/// Identity of a chunk: the name hash of its path, a sub-index and its kind.
#[derive(Debug, Copy, Clone, PartialEq, Eq, Structural)]
pub struct IoChunkId {
    pub hash: u64,
    pub index: u16,
    pub obj_type: IoChunkType4,
}

impl IoChunkId {
    /// The twelve serialized bytes: hash, sub-index, a zero byte, kind.
    pub open spec fn spec_bytes(self) -> Seq<u8> {
        uint_le_bytes(self.hash as nat, 8) + uint_le_bytes(self.index as nat, 2) + uint_le_bytes(
            0,
            1,
        ) + uint_le_bytes(self.obj_type.spec_u8() as nat, 1)
    }

    /// The serialized form of a list of chunk identities.
    pub open spec fn list_bytes(list: Seq<IoChunkId>) -> Seq<u8> {
        concat_bytes(list, |c: IoChunkId| c.spec_bytes())
    }

    /// The identity of the chunk of kind `chunk_type` found under `path`.
    pub fn new(path: &str, chunk_type: IoChunkType4) -> (id: Self)
        ensures
            id == (IoChunkId { hash: name_hash(path@), index: 0, obj_type: chunk_type }),
    {
        let hash = Hasher16::get_cityhash64(path);
        IoChunkId::new_from_hash(hash, chunk_type)
    }

    /// The identity of a chunk whose path hash is known.
    #[inline]
    pub fn new_from_hash(hash: u64, obj_type: IoChunkType4) -> (id: Self)
        ensures
            id == (IoChunkId { hash, index: 0, obj_type }),
    {
        Self { hash, index: 0, obj_type }
    }

    /// Appends the twelve bytes of the identity.
    pub fn to_buffer(&self, writer: &mut Vec<u8>)
        ensures
            final(writer)@ == old(writer)@ + self.spec_bytes(),
    {
        write_u64_le(writer, self.hash);
        write_u16_le(writer, self.index);
        write_u8(writer, 0);
        write_u8(writer, self.obj_type.into());
        proof {
            assert(writer@ =~= old(writer)@ + self.spec_bytes());
        }
    }

    /// Appends every identity of `list`, in order.
    pub fn list_to_buffer(list: &Vec<IoChunkId>, writer: &mut Vec<u8>)
        ensures
            final(writer)@ == old(writer)@ + IoChunkId::list_bytes(list@),
    {
        let n = list.len();
        let mut i: usize = 0;
        while i < n
            invariant
                n == list@.len(),
                i <= n,
                writer@ == old(writer)@ + IoChunkId::list_bytes(list@.take(i as int)),
            decreases n - i,
        {
            list[i].to_buffer(writer);
            proof {
                lemma_concat_bytes_push(
                    list@.take(i as int),
                    list@[i as int],
                    |c: IoChunkId| c.spec_bytes(),
                );
                assert(list@.take(i + 1) =~= list@.take(i as int).push(list@[i as int]));
                assert(writer@ =~= old(writer)@ + IoChunkId::list_bytes(list@.take(i + 1)));
            }
            i = i + 1;
        }
        assert(list@.take(n as int) =~= list@);
    }

    pub fn get_raw_hash(&self) -> (hash: u64)
        ensures
            hash == self.hash,
    {
        self.hash
    }

    pub fn get_type(&self) -> (obj_type: IoChunkType4)
        ensures
            obj_type == self.obj_type,
    {
        self.obj_type
    }

    /// An identity takes twelve bytes.
    pub proof fn lemma_len(self)
        ensures
            self.spec_bytes().len() == 12,
    {
        lemma_uint_bytes_len(self.hash as nat, 8);
        lemma_uint_bytes_len(self.index as nat, 2);
        lemma_uint_bytes_len(0, 1);
        lemma_uint_bytes_len(self.obj_type.spec_u8() as nat, 1);
    }
}

/// Where a chunk lies in the container's uncompressed address space, and how
/// long it is. Both numbers are held in five bytes.
#[derive(Debug, Copy, Clone, PartialEq, Eq, Structural)]
pub struct IoOffsetAndLength {
    pub offset: u64,
    pub length: u64,
}

impl IoOffsetAndLength {
    /// Both numbers fit their five-byte fields.
    pub open spec fn wf(self) -> bool {
        self.offset <= IO_OFFSET_LENGTH_MAX && self.length <= IO_OFFSET_LENGTH_MAX
    }

    /// The ten serialized bytes: offset, then length, each most significant
    /// byte first.
    pub open spec fn spec_bytes(self) -> Seq<u8> {
        uint_be_bytes(self.offset as nat, 5) + uint_be_bytes(self.length as nat, 5)
    }

    /// The serialized form of a list of records.
    pub open spec fn list_bytes(list: Seq<IoOffsetAndLength>) -> Seq<u8> {
        concat_bytes(list, |c: IoOffsetAndLength| c.spec_bytes())
    }

    pub fn new(offset: u64, length: u64) -> (r: Self)
        requires
            offset <= IO_OFFSET_LENGTH_MAX,
            length <= IO_OFFSET_LENGTH_MAX,
        ensures
            r == (IoOffsetAndLength { offset, length }),
            r.wf(),
    {
        Self { offset, length }
    }

    /// Appends the ten bytes of the record.
    pub fn to_buffer(&self, writer: &mut Vec<u8>)
        requires
            self.wf(),
        ensures
            final(writer)@ == old(writer)@ + self.spec_bytes(),
    {
        proof {
            lemma_pow256_values();
        }
        write_uint_be(writer, self.offset, 5);
        write_uint_be(writer, self.length, 5);
        proof {
            assert(writer@ =~= old(writer)@ + self.spec_bytes());
        }
    }

    /// Appends every record of `list`, in order.
    pub fn list_to_buffer(list: &Vec<IoOffsetAndLength>, writer: &mut Vec<u8>)
        requires
            forall|i: int| 0 <= i < list@.len() ==> (#[trigger] list@[i]).wf(),
        ensures
            final(writer)@ == old(writer)@ + IoOffsetAndLength::list_bytes(list@),
    {
        let n = list.len();
        let mut i: usize = 0;
        while i < n
            invariant
                n == list@.len(),
                i <= n,
                forall|i: int| 0 <= i < list@.len() ==> (#[trigger] list@[i]).wf(),
                writer@ == old(writer)@ + IoOffsetAndLength::list_bytes(list@.take(i as int)),
            decreases n - i,
        {
            list[i].to_buffer(writer);
            proof {
                lemma_concat_bytes_push(
                    list@.take(i as int),
                    list@[i as int],
                    |c: IoOffsetAndLength| c.spec_bytes(),
                );
                assert(list@.take(i + 1) =~= list@.take(i as int).push(list@[i as int]));
                assert(writer@ =~= old(writer)@ + IoOffsetAndLength::list_bytes(
                    list@.take(i + 1),
                ));
            }
            i = i + 1;
        }
        assert(list@.take(n as int) =~= list@);
    }

    /// A record takes ten bytes.
    pub proof fn lemma_len(self)
        ensures
            self.spec_bytes().len() == 10,
    {
        lemma_uint_bytes_len(self.offset as nat, 5);
        lemma_uint_bytes_len(self.length as nat, 5);
    }
}

/// One block of the partition: where it starts and how many bytes it holds.
/// Blocks are stored as they are, so the size before and after compression
/// is the same.
#[derive(Debug, Copy, Clone, PartialEq, Eq, Structural)]
pub struct IoStoreTocCompressedBlockEntry {
    pub offset: u64,
    pub size: u32,
}

impl IoStoreTocCompressedBlockEntry {
    /// The offset fits five bytes and the size three.
    pub open spec fn wf(self) -> bool {
        self.offset <= IO_OFFSET_LENGTH_MAX && self.size <= IO_COMPRESSED_BLOCK_LENGTH_MAX
    }

    /// The twelve serialized bytes: offset in five bytes, the size twice in
    /// three bytes each, and a zero byte for the compression method.
    pub open spec fn spec_bytes(self) -> Seq<u8> {
        uint_le_bytes(self.offset as nat, 5) + uint_le_bytes(self.size as nat, 3) + uint_le_bytes(
            self.size as nat,
            3,
        ) + uint_le_bytes(0, 1)
    }

    /// The serialized form of a list of blocks.
    pub open spec fn list_bytes(list: Seq<IoStoreTocCompressedBlockEntry>) -> Seq<u8> {
        concat_bytes(list, |c: IoStoreTocCompressedBlockEntry| c.spec_bytes())
    }

    pub fn new(offset: u64, length: u32) -> (r: Self)
        requires
            offset <= IO_OFFSET_LENGTH_MAX,
            length <= IO_COMPRESSED_BLOCK_LENGTH_MAX,
        ensures
            r == (IoStoreTocCompressedBlockEntry { offset, size: length }),
            r.wf(),
    {
        Self { offset, size: length }
    }

    /// Appends the twelve bytes of the block.
    pub fn to_buffer(&self, writer: &mut Vec<u8>)
        requires
            self.wf(),
        ensures
            final(writer)@ == old(writer)@ + self.spec_bytes(),
    {
        proof {
            lemma_pow256_values();
        }
        write_uint_le(writer, self.offset, 5);
        write_uint_le(writer, self.size as u64, 3);
        write_uint_le(writer, self.size as u64, 3);
        write_u8(writer, 0);
        proof {
            assert(writer@ =~= old(writer)@ + self.spec_bytes());
        }
    }

    /// Appends every block of `list`, in order.
    pub fn list_to_buffer(list: &Vec<IoStoreTocCompressedBlockEntry>, writer: &mut Vec<u8>)
        requires
            forall|i: int| 0 <= i < list@.len() ==> (#[trigger] list@[i]).wf(),
        ensures
            final(writer)@ == old(writer)@ + IoStoreTocCompressedBlockEntry::list_bytes(list@),
    {
        let n = list.len();
        let mut i: usize = 0;
        while i < n
            invariant
                n == list@.len(),
                i <= n,
                forall|i: int| 0 <= i < list@.len() ==> (#[trigger] list@[i]).wf(),
                writer@ == old(writer)@ + IoStoreTocCompressedBlockEntry::list_bytes(
                    list@.take(i as int),
                ),
            decreases n - i,
        {
            list[i].to_buffer(writer);
            proof {
                lemma_concat_bytes_push(
                    list@.take(i as int),
                    list@[i as int],
                    |c: IoStoreTocCompressedBlockEntry| c.spec_bytes(),
                );
                assert(list@.take(i + 1) =~= list@.take(i as int).push(list@[i as int]));
                assert(writer@ =~= old(writer)@ + IoStoreTocCompressedBlockEntry::list_bytes(
                    list@.take(i + 1),
                ));
            }
            i = i + 1;
        }
        assert(list@.take(n as int) =~= list@);
    }

    /// A block takes twelve bytes.
    pub proof fn lemma_len(self)
        ensures
            self.spec_bytes().len() == 12,
    {
        lemma_uint_bytes_len(self.offset as nat, 5);
        lemma_uint_bytes_len(self.size as nat, 3);
        lemma_uint_bytes_len(0, 1);
    }
}

/// A directory of the flattened index. Each field is an index into one of the
/// index's lists, or [`IO_INDEX_NONE`].
#[derive(Debug, Copy, Clone, PartialEq, Eq, Structural)]
pub struct IoDirectoryIndexEntry {
    /// Index of the directory's name in the string pool.
    pub name: u32,
    /// Index of the first sub-directory.
    pub first_child: u32,
    /// Index of the next directory under the same parent.
    pub next_sibling: u32,
    /// Index of the first file.
    pub first_file: u32,
}

impl IoDirectoryIndexEntry {
    /// The sixteen serialized bytes.
    pub open spec fn spec_bytes(self) -> Seq<u8> {
        uint_le_bytes(self.name as nat, 4) + uint_le_bytes(self.first_child as nat, 4)
            + uint_le_bytes(self.next_sibling as nat, 4) + uint_le_bytes(self.first_file as nat, 4)
    }

    /// The serialized form of a list of directories: their count, then each.
    pub open spec fn list_bytes(list: Seq<IoDirectoryIndexEntry>) -> Seq<u8> {
        uint_le_bytes(list.len(), 4) + concat_bytes(list, |c: IoDirectoryIndexEntry| c.spec_bytes())
    }

    /// Appends the sixteen bytes of the entry.
    pub fn to_buffer(&self, writer: &mut Vec<u8>)
        ensures
            final(writer)@ == old(writer)@ + self.spec_bytes(),
    {
        write_u32_le(writer, self.name);
        write_u32_le(writer, self.first_child);
        write_u32_le(writer, self.next_sibling);
        write_u32_le(writer, self.first_file);
        proof {
            assert(writer@ =~= old(writer)@ + self.spec_bytes());
        }
    }

    /// Appends the count of `list` and every entry, in order.
    pub fn list_to_buffer(list: &Vec<IoDirectoryIndexEntry>, writer: &mut Vec<u8>)
        requires
            list@.len() <= u32::MAX,
        ensures
            final(writer)@ == old(writer)@ + IoDirectoryIndexEntry::list_bytes(list@),
    {
        let n = list.len();
        write_u32_le(writer, n as u32);
        let ghost start = writer@;
        let mut i: usize = 0;
        while i < n
            invariant
                n == list@.len(),
                i <= n,
                writer@ == start + concat_bytes(
                    list@.take(i as int),
                    |c: IoDirectoryIndexEntry| c.spec_bytes(),
                ),
            decreases n - i,
        {
            list[i].to_buffer(writer);
            proof {
                lemma_concat_bytes_push(
                    list@.take(i as int),
                    list@[i as int],
                    |c: IoDirectoryIndexEntry| c.spec_bytes(),
                );
                assert(list@.take(i + 1) =~= list@.take(i as int).push(list@[i as int]));
                assert(writer@ =~= start + concat_bytes(
                    list@.take(i + 1),
                    |c: IoDirectoryIndexEntry| c.spec_bytes(),
                ));
            }
            i = i + 1;
        }
        proof {
            assert(list@.take(n as int) =~= list@);
            assert(writer@ =~= old(writer)@ + IoDirectoryIndexEntry::list_bytes(list@));
        }
    }

    /// An entry takes sixteen bytes.
    pub proof fn lemma_len(self)
        ensures
            self.spec_bytes().len() == 16,
    {
        lemma_uint_bytes_len(self.name as nat, 4);
        lemma_uint_bytes_len(self.first_child as nat, 4);
        lemma_uint_bytes_len(self.next_sibling as nat, 4);
        lemma_uint_bytes_len(self.first_file as nat, 4);
    }
}

/// A file of the flattened index. Only the three indices are serialized; the
/// rest is kept for building the chunk records.
#[derive(Debug)]
pub struct IoFileIndexEntry {
    /// Index of the file's name in the string pool.
    pub name: u32,
    /// Index of the next file of the same directory.
    pub next_file: u32,
    /// Index of the file's chunk records.
    pub user_data: u32,
    /// Size of the file when it was collected.
    pub file_size: u64,
    /// Where the content is read from.
    pub os_path: String,
    /// The path from the root to the file, without the file's extension.
    pub hash_path: String,
}

/// The mathematical content of an [`IoFileIndexEntry`].
pub struct IoFileIndexEntryView {
    pub name: u32,
    pub next_file: u32,
    pub user_data: u32,
    pub file_size: u64,
    pub os_path: Seq<char>,
    pub hash_path: Seq<char>,
}

impl View for IoFileIndexEntry {
    type V = IoFileIndexEntryView;

    open spec fn view(&self) -> IoFileIndexEntryView {
        IoFileIndexEntryView {
            name: self.name,
            next_file: self.next_file,
            user_data: self.user_data,
            file_size: self.file_size,
            os_path: self.os_path@,
            hash_path: self.hash_path@,
        }
    }
}

impl IoFileIndexEntryView {
    /// The twelve serialized bytes.
    pub open spec fn spec_bytes(self) -> Seq<u8> {
        uint_le_bytes(self.name as nat, 4) + uint_le_bytes(self.next_file as nat, 4)
            + uint_le_bytes(self.user_data as nat, 4)
    }

    /// The serialized form of a list of files: their count, then each.
    pub open spec fn list_bytes(list: Seq<IoFileIndexEntryView>) -> Seq<u8> {
        uint_le_bytes(list.len(), 4) + concat_bytes(list, |c: IoFileIndexEntryView| c.spec_bytes())
    }

    /// An entry takes twelve bytes.
    pub proof fn lemma_len(self)
        ensures
            self.spec_bytes().len() == 12,
    {
        lemma_uint_bytes_len(self.name as nat, 4);
        lemma_uint_bytes_len(self.next_file as nat, 4);
        lemma_uint_bytes_len(self.user_data as nat, 4);
    }
}

/// The views of a list of file entries.
pub open spec fn file_entry_views(list: Seq<IoFileIndexEntry>) -> Seq<IoFileIndexEntryView> {
    list.map_values(|f: IoFileIndexEntry| f@)
}

impl IoFileIndexEntry {
    /// Appends the twelve bytes of the entry.
    pub fn to_buffer(&self, writer: &mut Vec<u8>)
        ensures
            final(writer)@ == old(writer)@ + self@.spec_bytes(),
    {
        write_u32_le(writer, self.name);
        write_u32_le(writer, self.next_file);
        write_u32_le(writer, self.user_data);
        proof {
            assert(writer@ =~= old(writer)@ + self@.spec_bytes());
        }
    }

    /// Appends the count of `list` and every entry, in order.
    pub fn list_to_buffer(list: &Vec<IoFileIndexEntry>, writer: &mut Vec<u8>)
        requires
            list@.len() <= u32::MAX,
        ensures
            final(writer)@ == old(writer)@ + IoFileIndexEntryView::list_bytes(
                file_entry_views(list@),
            ),
    {
        let n = list.len();
        let ghost views = file_entry_views(list@);
        write_u32_le(writer, n as u32);
        let ghost start = writer@;
        let mut i: usize = 0;
        while i < n
            invariant
                n == list@.len(),
                views == file_entry_views(list@),
                i <= n,
                writer@ == start + concat_bytes(
                    views.take(i as int),
                    |c: IoFileIndexEntryView| c.spec_bytes(),
                ),
            decreases n - i,
        {
            list[i].to_buffer(writer);
            proof {
                lemma_concat_bytes_push(
                    views.take(i as int),
                    views[i as int],
                    |c: IoFileIndexEntryView| c.spec_bytes(),
                );
                assert(views.take(i + 1) =~= views.take(i as int).push(views[i as int]));
                assert(writer@ =~= start + concat_bytes(
                    views.take(i + 1),
                    |c: IoFileIndexEntryView| c.spec_bytes(),
                ));
            }
            i = i + 1;
        }
        proof {
            assert(views.take(n as int) =~= views);
            assert(writer@ =~= old(writer)@ + IoFileIndexEntryView::list_bytes(views));
        }
    }
}

/// The views of a list of strings.
pub open spec fn string_views(list: Seq<String>) -> Seq<Seq<char>> {
    list.map_values(|s: String| s@)
}

/// The UTF-8 bytes of every text of a list.
pub open spec fn utf8_of_each(list: Seq<Seq<char>>) -> Seq<Seq<u8>> {
    list.map_values(|s: Seq<char>| vstd::utf8::encode_utf8(s))
}

/// The string pool of the directory index.
pub struct IoStringPool;

impl IoStringPool {
    /// Every string of the pool is short enough to be serialized.
    pub open spec fn fits(list: Seq<Seq<char>>) -> bool {
        &&& list.len() <= u32::MAX
        &&& forall|i: int|
            0 <= i < list.len() ==> vstd::utf8::encode_utf8(#[trigger] list[i]).len()
                <= FSTRING32_MAX_BYTES
    }

    /// The strings of the pool, each in the 32-bit-prefixed layout, one after
    /// the other.
    pub open spec fn entries_bytes(list: Seq<Seq<char>>) -> Seq<u8> {
        concat_bytes(list, |s: Seq<char>| fstring32_bytes(vstd::utf8::encode_utf8(s)))
    }

    /// The serialized pool: the count of strings, then the strings.
    pub open spec fn list_bytes(list: Seq<Seq<char>>) -> Seq<u8> {
        uint_le_bytes(list.len(), 4) + IoStringPool::entries_bytes(list)
    }

    /// Appends the count of `list` and every string, in order.
    pub fn list_to_buffer(list: &Vec<String>, writer: &mut Vec<u8>)
        requires
            IoStringPool::fits(string_views(list@)),
        ensures
            final(writer)@ == old(writer)@ + IoStringPool::list_bytes(string_views(list@)),
    {
        let n = list.len();
        let ghost views = string_views(list@);
        write_u32_le(writer, n as u32);
        let ghost start = writer@;
        let mut i: usize = 0;
        while i < n
            invariant
                n == list@.len(),
                views == string_views(list@),
                IoStringPool::fits(views),
                i <= n,
                writer@ == start + IoStringPool::entries_bytes(views.take(i as int)),
            decreases n - i,
        {
            assert(views[i as int] == list@[i as int]@);
            FString32NoHash::to_buffer(list[i].as_str(), writer);
            proof {
                lemma_concat_bytes_push(
                    views.take(i as int),
                    views[i as int],
                    |s: Seq<char>| fstring32_bytes(vstd::utf8::encode_utf8(s)),
                );
                assert(views.take(i + 1) =~= views.take(i as int).push(views[i as int]));
                assert(writer@ =~= start + IoStringPool::entries_bytes(views.take(i + 1)));
            }
            i = i + 1;
        }
        proof {
            assert(views.take(n as int) =~= views);
            assert(writer@ =~= old(writer)@ + IoStringPool::list_bytes(views));
        }
    }
}

/// The texts that `count` serialized strings from `pos` on hold, as bytes,
/// with the position after them. Nothing where the buffer ends before, or
/// where a string is stored as wide text.
pub open spec fn string_entries_parse(buf: Seq<u8>, pos: int, count: nat) -> Option<
    (Seq<Seq<u8>>, int),
>
    decreases count,
{
    if count == 0 {
        Some((Seq::empty(), pos))
    } else {
        match string_entries_parse(buf, pos, (count - 1) as nat) {
            Some((texts, at)) => match fstring32_parse(buf, at) {
                Some((FStringDataView::Narrow(raw), next)) => Some((texts.push(raw), next)),
                Some((FStringDataView::Empty, next)) => Some((texts.push(Seq::empty()), next)),
                _ => None,
            },
            None => None,
        }
    }
}

/// The texts of the string pool that is serialized at `pos`, as bytes, with
/// the position after the pool.
pub open spec fn string_pool_parse(buf: Seq<u8>, pos: int) -> Option<(Seq<Seq<u8>>, int)> {
    if pos < 0 || pos + 4 > buf.len() {
        None
    } else {
        string_entries_parse(buf, pos + 4, field_at(buf, pos, 4))
    }
}

/// The serialized strings of a pool take five bytes each besides their text.
pub proof fn lemma_entries_bytes_take(pool: Seq<Seq<char>>, k: int)
    requires
        0 <= k < pool.len(),
    ensures
        IoStringPool::entries_bytes(pool.take(k + 1)) == IoStringPool::entries_bytes(pool.take(k))
            + fstring32_bytes(vstd::utf8::encode_utf8(pool[k])),
{
    assert(pool.take(k + 1) =~= pool.take(k).push(pool[k]));
    lemma_concat_bytes_push(
        pool.take(k),
        pool[k],
        |s: Seq<char>| fstring32_bytes(vstd::utf8::encode_utf8(s)),
    );
}

/// Reading the first `k` strings of a serialized pool gives the first `k`
/// strings of the pool, wherever in a buffer the pool stands.
pub proof fn lemma_string_entries_roundtrip(
    before: Seq<u8>,
    pool: Seq<Seq<char>>,
    after: Seq<u8>,
    k: int,
)
    requires
        IoStringPool::fits(pool),
        0 <= k <= pool.len(),
    ensures
        string_entries_parse(
            before + IoStringPool::entries_bytes(pool) + after,
            before.len() as int,
            k as nat,
        ) == Some(
            (
                utf8_of_each(pool.take(k)),
                (before.len() + IoStringPool::entries_bytes(pool.take(k)).len()) as int,
            ),
        ),
    decreases k,
{
    let enc = |s: Seq<char>| fstring32_bytes(vstd::utf8::encode_utf8(s));
    let buf = before + IoStringPool::entries_bytes(pool) + after;
    if k == 0 {
        assert(pool.take(0) =~= Seq::<Seq<char>>::empty());
        assert(utf8_of_each(pool.take(0)) =~= Seq::<Seq<u8>>::empty());
    } else {
        lemma_string_entries_roundtrip(before, pool, after, k - 1);
        let front = pool.take(k - 1);
        let raw = vstd::utf8::encode_utf8(pool[k - 1]);
        lemma_entries_bytes_take(pool, k - 1);
        crate::serialize::lemma_concat_bytes_split(pool, k, enc);
        let head = before + IoStringPool::entries_bytes(front);
        let tail = IoStringPool::entries_bytes(pool.skip(k)) + after;
        assert(buf =~= head + fstring32_bytes(raw) + tail);
        lemma_fstring32_roundtrip(head, raw, tail);
        lemma_uint_bytes_len((raw.len() + 1) as nat, 4);
        assert(utf8_of_each(pool.take(k)) =~= utf8_of_each(front).push(raw));
    }
}

/// Reading a serialized string pool gives back every string of the pool
/// under its index: the bytes found there are the UTF-8 form of the string,
/// and decoding them yields the string.
pub proof fn lemma_string_pool_roundtrip(before: Seq<u8>, pool: Seq<Seq<char>>, after: Seq<u8>)
    requires
        IoStringPool::fits(pool),
    ensures
        string_pool_parse(before + IoStringPool::list_bytes(pool) + after, before.len() as int)
            == Some(
            (
                utf8_of_each(pool),
                (before.len() + IoStringPool::list_bytes(pool).len()) as int,
            ),
        ),
        forall|i: int|
            0 <= i < pool.len() ==> vstd::utf8::decode_utf8(#[trigger] utf8_of_each(pool)[i])
                == pool[i],
{
    let count = uint_le_bytes(pool.len(), 4);
    let buf = before + IoStringPool::list_bytes(pool) + after;
    let pos = before.len() as int;
    lemma_uint_bytes_len(pool.len(), 4);
    lemma_pow256_values();
    crate::serialize::lemma_uint_le_roundtrip(pool.len(), 4);
    assert(buf.subrange(pos, pos + 4) =~= count);
    lemma_string_entries_roundtrip(before + count, pool, after, pool.len() as int);
    assert(buf =~= (before + count) + IoStringPool::entries_bytes(pool) + after);
    assert(pool.take(pool.len() as int) =~= pool);
    assert forall|i: int| 0 <= i < pool.len() implies vstd::utf8::decode_utf8(
        #[trigger] utf8_of_each(pool)[i],
    ) == pool[i] by {
        vstd::utf8::encode_utf8_decode_utf8(pool[i]);
    }
}

impl IoStringPool {
    /// Reads the string pool that is serialized at `pos`: the texts as bytes,
    /// and the position after the pool.
    pub fn list_from_buffer(buf: &[u8], pos: usize) -> (r: Option<(Vec<Vec<u8>>, usize)>)
        ensures
            match (string_pool_parse(buf@, pos as int), r) {
                (Some((texts, next)), Some((found, end))) => found@.map_values(|t: Vec<u8>| t@)
                    == texts && end == next,
                (None, None) => true,
                _ => false,
            },
    {
        let total = buf.len();
        let prefix = read_u32_le(buf, pos);
        if prefix.is_none() {
            return None;
        }
        let count = prefix.unwrap();
        let start = pos + 4;
        let mut found: Vec<Vec<u8>> = Vec::new();
        let mut at: usize = start;
        let mut i: u32 = 0;
        while i < count
            invariant
                i <= count,
                start == pos + 4,
                start <= buf@.len(),
                count == field_at(buf@, pos as int, 4),
                string_entries_parse(buf@, start as int, i as nat) == Some(
                    (found@.map_values(|t: Vec<u8>| t@), at as int),
                ),
            decreases count - i,
        {
            let ghost texts = found@.map_values(|t: Vec<u8>| t@);
            match FString32NoHash::from_buffer(buf, at) {
                Some((FStringData::Narrow(raw), next)) => {
                    proof {
                        assert(found@.push(raw).map_values(|t: Vec<u8>| t@) =~= texts.push(raw@));
                    }
                    found.push(raw);
                    at = next;
                },
                Some((FStringData::Empty, next)) => {
                    let raw: Vec<u8> = Vec::new();
                    proof {
                        assert(found@.push(raw).map_values(|t: Vec<u8>| t@) =~= texts.push(
                            Seq::empty(),
                        ));
                    }
                    found.push(raw);
                    at = next;
                },
                _ => {
                    proof {
                        lemma_string_entries_none(buf@, start as int, i as nat, count as nat);
                    }
                    return None;
                },
            }
            i = i + 1;
        }
        Some((found, at))
    }
}

/// Where the strings cannot be read up to some count, they cannot be read up
/// to a larger one.
pub proof fn lemma_string_entries_none(buf: Seq<u8>, pos: int, reached: nat, count: nat)
    requires
        reached < count,
        match string_entries_parse(buf, pos, reached) {
            Some((texts, at)) => match fstring32_parse(buf, at) {
                Some((FStringDataView::Narrow(_), _)) => false,
                Some((FStringDataView::Empty, _)) => false,
                _ => true,
            },
            None => true,
        },
    ensures
        string_entries_parse(buf, pos, count) is None,
    decreases count,
{
    if reached + 1 < count {
        lemma_string_entries_none(buf, pos, reached, (count - 1) as nat);
    }
}

/// The directory index of a container before serialization.
#[derive(Debug)]
pub struct IoFileResource {
    pub mount_point: String,
    pub directory_entries: Vec<IoDirectoryIndexEntry>,
    pub file_entries: Vec<IoFileIndexEntry>,
    pub strings: Vec<String>,
}

/// SHA-1 of a byte string, as computed by `sha1::Sha1::digest`.
pub uninterp spec fn sha1_digest(data: Seq<u8>) -> Seq<u8>;

/// Calls `sha1::Sha1::digest` (the one-shot form of the `Digest` trait): the
/// twenty-byte SHA-1 of `data`.
#[verifier::external_body]
fn sha1_of(data: &[u8]) -> (out: [u8; 20])
    ensures
        out@ == sha1_digest(data@),
{
    sha1::Sha1::digest(data).into()
}

/// What is known of a chunk's content: a hash and flags.
#[derive(Debug)]
pub struct IoStoreTocEntryMeta {
    /// A SHA-1 digest in the first twenty bytes, zeros in the other twelve.
    pub hash: [u8; 32],
    pub flags: u8,
}

/// The mathematical content of an [`IoStoreTocEntryMeta`].
pub struct IoStoreTocEntryMetaView {
    pub hash: Seq<u8>,
    pub flags: u8,
}

impl View for IoStoreTocEntryMeta {
    type V = IoStoreTocEntryMetaView;

    open spec fn view(&self) -> IoStoreTocEntryMetaView {
        IoStoreTocEntryMetaView { hash: self.hash@, flags: self.flags }
    }
}

/// The views of a list of records.
pub open spec fn meta_views(list: Seq<IoStoreTocEntryMeta>) -> Seq<IoStoreTocEntryMetaView> {
    list.map_values(|m: IoStoreTocEntryMeta| m@)
}

impl IoStoreTocEntryMetaView {
    /// The 33 serialized bytes: the hash field and the flags.
    pub open spec fn spec_bytes(self) -> Seq<u8> {
        self.hash + uint_le_bytes(self.flags as nat, 1)
    }

    /// The serialized form of a list of records.
    pub open spec fn list_bytes(list: Seq<IoStoreTocEntryMetaView>) -> Seq<u8> {
        concat_bytes(list, |c: IoStoreTocEntryMetaView| c.spec_bytes())
    }

    /// The record of a chunk whose content is `content`: the SHA-1 of the
    /// content, filled up with zeros to 32 bytes, and no flags.
    pub open spec fn of_content(content: Seq<u8>) -> IoStoreTocEntryMetaView {
        IoStoreTocEntryMetaView { hash: sha1_digest(content) + zero_bytes(12), flags: 0 }
    }

    /// The record of a chunk of which no hash is kept.
    pub open spec fn empty() -> IoStoreTocEntryMetaView {
        IoStoreTocEntryMetaView { hash: zero_bytes(32), flags: 0 }
    }
}

impl IoStoreTocEntryMeta {
    /// The record of a chunk whose content is `buffer`.
    pub fn new(buffer: &Vec<u8>) -> (meta: Self)
        ensures
            meta@ == IoStoreTocEntryMetaView::of_content(buffer@),
            meta@.hash.subrange(0, 20) == sha1_digest(buffer@),
    {
        let digest = sha1_of(buffer.as_slice());
        let mut hash = [0u8; 32];
        let mut i: usize = 0;
        while i < 20
            invariant
                i <= 20,
                digest@ == sha1_digest(buffer@),
                forall|j: int| 0 <= j < i ==> hash@[j] == digest@[j],
                forall|j: int| i <= j < 32 ==> hash@[j] == 0u8,
            decreases 20 - i,
        {
            hash[i] = digest[i];
            i = i + 1;
        }
        proof {
            assert(hash@ =~= sha1_digest(buffer@) + zero_bytes(12));
            assert(hash@.subrange(0, 20) =~= sha1_digest(buffer@));
        }
        Self { hash, flags: 0 }
    }

    /// The record of a chunk of which no hash is kept.
    pub fn new_empty() -> (meta: Self)
        ensures
            meta@ == IoStoreTocEntryMetaView::empty(),
    {
        let hash = [0u8; 32];
        proof {
            assert(hash@ =~= zero_bytes(32));
        }
        Self { hash, flags: 0 }
    }

    /// Appends the 33 bytes of the record.
    pub fn to_buffer(&self, writer: &mut Vec<u8>)
        ensures
            final(writer)@ == old(writer)@ + self@.spec_bytes(),
    {
        write_bytes(writer, self.hash.as_slice());
        write_u8(writer, self.flags);
        proof {
            assert(writer@ =~= old(writer)@ + self@.spec_bytes());
        }
    }

    /// Appends every record of `list`, in order.
    pub fn list_to_buffer(list: &Vec<IoStoreTocEntryMeta>, writer: &mut Vec<u8>)
        ensures
            final(writer)@ == old(writer)@ + IoStoreTocEntryMetaView::list_bytes(meta_views(list@)),
    {
        let n = list.len();
        let ghost views = meta_views(list@);
        let mut i: usize = 0;
        while i < n
            invariant
                n == list@.len(),
                views == meta_views(list@),
                i <= n,
                writer@ == old(writer)@ + IoStoreTocEntryMetaView::list_bytes(
                    views.take(i as int),
                ),
            decreases n - i,
        {
            list[i].to_buffer(writer);
            proof {
                lemma_concat_bytes_push(
                    views.take(i as int),
                    views[i as int],
                    |c: IoStoreTocEntryMetaView| c.spec_bytes(),
                );
                assert(views.take(i + 1) =~= views.take(i as int).push(views[i as int]));
                assert(writer@ =~= old(writer)@ + IoStoreTocEntryMetaView::list_bytes(
                    views.take(i + 1),
                ));
            }
            i = i + 1;
        }
        assert(views.take(n as int) =~= views);
    }
}

/// Serialized size of a store entry without its list of imports.
pub const CONTAINER_HEADER_PACKAGE_SERIALIZED_SIZE: u64 = 0x20;

/// Offset of the imports field inside a store entry. The position of a
/// package's imports is stored relative to this field.
pub const STORE_ENTRY_IMPORTS_FIELD: u64 = 0x18;

/// What the container header says of one package: its store entry.
#[derive(Debug)]
pub struct ContainerHeaderPackage {
    /// Name hash of the package.
    pub hash: u64,
    pub export_bundle_size: u64,
    pub export_count: u32,
    pub export_bundle_count: u32,
    pub load_order: u32,
    /// Name hashes of the packages that this one imports.
    pub import_ids: Vec<u64>,
}

/// The mathematical content of a [`ContainerHeaderPackage`].
pub struct ContainerHeaderPackageView {
    pub hash: u64,
    pub export_bundle_size: u64,
    pub export_count: u32,
    pub export_bundle_count: u32,
    pub load_order: u32,
    pub import_ids: Seq<u64>,
}

impl View for ContainerHeaderPackage {
    type V = ContainerHeaderPackageView;

    open spec fn view(&self) -> ContainerHeaderPackageView {
        ContainerHeaderPackageView {
            hash: self.hash,
            export_bundle_size: self.export_bundle_size,
            export_count: self.export_count,
            export_bundle_count: self.export_bundle_count,
            load_order: self.load_order,
            import_ids: self.import_ids@,
        }
    }
}

/// The views of a list of packages.
pub open spec fn package_views(list: Seq<ContainerHeaderPackage>) -> Seq<
    ContainerHeaderPackageView,
> {
    list.map_values(|p: ContainerHeaderPackage| p@)
}

/// What the head of a package says of its exports and imports.
pub struct PackageGraphSummary {
    pub export_count: u32,
    pub export_bundle_count: u32,
    pub import_ids: Seq<u64>,
}

/// The identities of the first `count` graph records that start at `pos`, with
/// the position after them; nothing when the buffer ends before.
pub open spec fn imported_packages_parse(buf: Seq<u8>, pos: int, count: nat) -> Option<
    (Seq<u64>, int),
>
    decreases count,
{
    if count == 0 {
        Some((Seq::empty(), pos))
    } else {
        match imported_packages_parse(buf, pos, (count - 1) as nat) {
            Some((ids, at)) => if FGraphPackage::present(buf, at) {
                Some(
                    (
                        ids.push(FGraphPackage::parse(buf, at).imported_package_id),
                        FGraphPackage::end(buf, at),
                    ),
                )
            } else {
                None
            },
            None => None,
        }
    }
}

/// What a package that starts with `buf` says of its exports and imports, or
/// nothing when `buf` does not hold a well-formed package head.
///
/// The offsets of the export map, the export bundles and the graph data stand
/// at `0x2c`, `0x30` and `0x34`. An export takes `0x20` bytes of the export
/// map. The first export bundle header gives, at its offset 4, the number of
/// bundle entries, of which the exports are taken off. The graph data opens
/// with the number of imported packages, followed by their records.
pub open spec fn package_graph_parse(buf: Seq<u8>) -> Option<PackageGraphSummary> {
    if buf.len() < 0x38 {
        None
    } else {
        let export_offset = field_at(buf, 0x2c, 4);
        let export_bundle_offset = field_at(buf, 0x30, 4);
        let graph_offset = field_at(buf, 0x34, 4);
        if export_bundle_offset < export_offset || export_bundle_offset + 8 > buf.len()
            || graph_offset + 4 > buf.len() {
            None
        } else {
            let export_count = (export_bundle_offset - export_offset) / 0x20;
            let entry_count = field_at(buf, (export_bundle_offset + 4) as int, 4);
            let imported = field_at(buf, graph_offset as int, 4);
            if entry_count < export_count {
                None
            } else {
                match imported_packages_parse(buf, (graph_offset + 4) as int, imported) {
                    Some((ids, end)) => Some(
                        PackageGraphSummary {
                            export_count: export_count as u32,
                            export_bundle_count: (entry_count - export_count) as u32,
                            import_ids: ids,
                        },
                    ),
                    None => None,
                }
            }
        }
    }
}

impl ContainerHeaderPackageView {
    /// The store entry of a package of which nothing but hash and size is
    /// known.
    pub open spec fn bare(hash: u64, size: u64) -> Self {
        ContainerHeaderPackageView {
            hash,
            export_bundle_size: size,
            export_count: 0,
            export_bundle_count: 0,
            load_order: 0,
            import_ids: Seq::empty(),
        }
    }

    /// The store entry of the package with content `buf`.
    pub open spec fn from_content(buf: Seq<u8>, hash: u64, size: u64) -> Self {
        match package_graph_parse(buf) {
            Some(summary) => ContainerHeaderPackageView {
                hash,
                export_bundle_size: size,
                export_count: summary.export_count,
                export_bundle_count: summary.export_bundle_count,
                load_order: 0,
                import_ids: summary.import_ids,
            },
            None => ContainerHeaderPackageView::bare(hash, size),
        }
    }
}

impl ContainerHeaderPackage {
    /// Reads the imported packages: `count` graph records from `pos` on.
    fn read_imported_packages(buf: &[u8], pos: usize, count: u32) -> (r: Option<Vec<u64>>)
        ensures
            match imported_packages_parse(buf@, pos as int, count as nat) {
                Some((ids, end)) => r is Some && r->0@ == ids,
                None => r is None,
            },
    {
        let mut ids: Vec<u64> = Vec::new();
        let mut at: usize = pos;
        let mut i: u32 = 0;
        while i < count
            invariant
                i <= count,
                imported_packages_parse(buf@, pos as int, i as nat) == Some((ids@, at as int)),
            decreases count - i,
        {
            match FGraphPackage::from_buffer(buf, at) {
                Some((package, next)) => {
                    ids.push(package.imported_package_id);
                    at = next;
                    i = i + 1;
                },
                None => {
                    proof {
                        lemma_imported_packages_none(buf@, pos as int, i as nat, count as nat);
                    }
                    return None;
                },
            }
        }
        Some(ids)
    }

    /// Appends the package's store entry to the store entry table `writer`.
    /// The imports of the package are to stand `base_offset + curr_offset`
    /// bytes after the start of the table; `curr_offset` moves on by the room
    /// that they take.
    pub fn to_buffer_store_entry(
        &self,
        writer: &mut Vec<u8>,
        base_offset: u64,
        curr_offset: &mut u64,
    )
        requires
            self.import_ids@.len() <= u32::MAX,
            old(writer)@.len() + STORE_ENTRY_IMPORTS_FIELD <= base_offset + *old(curr_offset),
            base_offset + *old(curr_offset) <= u32::MAX,
        ensures
            final(writer)@ == old(writer)@ + self@.entry_bytes(
                self@.relative_offset(
                    base_offset + *old(curr_offset),
                    old(writer)@.len() as int,
                ) as nat,
            ),
            *final(curr_offset) == *old(curr_offset) + 8 * self.import_ids@.len(),
    {
        let position = writer.len() as u64;
        let count = self.import_ids.len();
        let relative: u64 = if count > 0 {
            base_offset + *curr_offset - (position + STORE_ENTRY_IMPORTS_FIELD)
        } else {
            0
        };
        write_u64_le(writer, self.export_bundle_size);
        write_u32_le(writer, self.export_count);
        write_u32_le(writer, self.export_bundle_count);
        write_u32_le(writer, self.load_order);
        write_u32_le(writer, 0);
        write_u32_le(writer, count as u32);
        write_u32_le(writer, relative as u32);
        *curr_offset = *curr_offset + 8 * (count as u64);
        proof {
            assert(final(writer)@ =~= old(writer)@ + self@.entry_bytes(relative as nat));
        }
    }

    /// The store entry of the package of name hash `hash` whose content is
    /// the `size` bytes of `data`. Content that does not carry a well-formed
    /// package head gives an entry without exports and imports.
    pub fn from_header_package(data: &[u8], hash: u64, size: u64) -> (package: Self)
        ensures
            package@ == ContainerHeaderPackageView::from_content(data@, hash, size),
    {
        let bare = ContainerHeaderPackage {
            hash,
            export_bundle_size: size,
            export_count: 0,
            export_bundle_count: 0,
            load_order: 0,
            import_ids: Vec::new(),
        };
        let total = data.len();
        if total < 0x38 {
            return bare;
        }
        let export_offset = read_u32_le(data, 0x2c).unwrap();
        let export_bundle_offset = read_u32_le(data, 0x30).unwrap();
        let graph_offset = read_u32_le(data, 0x34).unwrap();
        if export_bundle_offset < export_offset {
            return bare;
        }
        if (export_bundle_offset as u64) + 8 > total as u64 {
            return bare;
        }
        if (graph_offset as u64) + 4 > total as u64 {
            return bare;
        }
        let export_count = (export_bundle_offset - export_offset) / 0x20;
        let entry_count = read_u32_le(data, export_bundle_offset as usize + 4).unwrap();
        let imported = read_u32_le(data, graph_offset as usize).unwrap();
        if entry_count < export_count {
            return bare;
        }
        match ContainerHeaderPackage::read_imported_packages(
            data,
            graph_offset as usize + 4,
            imported,
        ) {
            Some(import_ids) => ContainerHeaderPackage {
                hash,
                export_bundle_size: size,
                export_count,
                export_bundle_count: entry_count - export_count,
                load_order: 0,
                import_ids,
            },
            None => bare,
        }
    }
}

/// Where the graph records cannot be read up to some count, they cannot be
/// read up to a larger one.
pub proof fn lemma_imported_packages_none(buf: Seq<u8>, pos: int, reached: nat, count: nat)
    requires
        reached < count,
        match imported_packages_parse(buf, pos, reached) {
            Some((ids, at)) => !FGraphPackage::present(buf, at),
            None => true,
        },
    ensures
        imported_packages_parse(buf, pos, count) is None,
    decreases count,
{
    if reached + 1 < count {
        lemma_imported_packages_none(buf, pos, reached, (count - 1) as nat);
    }
}

/// The number of imports of the first `upto` packages.
pub open spec fn imports_before(packages: Seq<ContainerHeaderPackageView>, upto: int) -> nat
    decreases upto,
{
    if upto <= 0 {
        0
    } else {
        imports_before(packages, upto - 1) + packages[upto - 1].import_ids.len()
    }
}

/// Where the imports of package `i` start, counted from the imports field of
/// its store entry; zero for a package without imports. The lists of imports
/// follow the store entries in the order of the packages.
pub open spec fn imports_relative_offset(
    packages: Seq<ContainerHeaderPackageView>,
    i: int,
) -> int {
    if packages[i].import_ids.len() > 0 {
        CONTAINER_HEADER_PACKAGE_SERIALIZED_SIZE * packages.len() + 8 * imports_before(
            packages,
            i,
        ) - (CONTAINER_HEADER_PACKAGE_SERIALIZED_SIZE * i + STORE_ENTRY_IMPORTS_FIELD)
    } else {
        0
    }
}

impl ContainerHeaderPackageView {
    /// The 32 bytes of the package's store entry, where the imports start
    /// `relative` bytes after the imports field: the size of the export
    /// bundles, the number of exports and of export bundles, the load order,
    /// four filling bytes, the number of imports, and `relative`.
    pub open spec fn entry_bytes(self, relative: nat) -> Seq<u8> {
        uint_le_bytes(self.export_bundle_size as nat, 8) + uint_le_bytes(
            self.export_count as nat,
            4,
        ) + uint_le_bytes(self.export_bundle_count as nat, 4) + uint_le_bytes(
            self.load_order as nat,
            4,
        ) + uint_le_bytes(0, 4) + uint_le_bytes(self.import_ids.len(), 4) + uint_le_bytes(
            relative,
            4,
        )
    }

    /// Where the imports start, counted from the imports field of a store
    /// entry that is written at `position` of the store entry table, when
    /// the imports that are still to be placed go to `target`; zero for a
    /// package without imports.
    pub open spec fn relative_offset(self, target: int, position: int) -> int {
        if self.import_ids.len() > 0 {
            target - (position + STORE_ENTRY_IMPORTS_FIELD)
        } else {
            0
        }
    }
}

/// The 32 bytes of the store entry of package `i`.
pub open spec fn store_entry_bytes(packages: Seq<ContainerHeaderPackageView>, i: int) -> Seq<u8> {
    packages[i].entry_bytes(imports_relative_offset(packages, i) as nat)
}

/// The store entries of the first `upto` packages.
pub open spec fn store_entries_bytes(packages: Seq<ContainerHeaderPackageView>, upto: int) -> Seq<
    u8,
>
    decreases upto,
{
    if upto <= 0 {
        Seq::empty()
    } else {
        store_entries_bytes(packages, upto - 1) + store_entry_bytes(packages, upto - 1)
    }
}

/// A list of package identities, eight bytes each.
pub open spec fn id_list_bytes(ids: Seq<u64>) -> Seq<u8> {
    concat_bytes(ids, |id: u64| uint_le_bytes(id as nat, 8))
}

/// The lists of imports of the first `upto` packages.
pub open spec fn import_lists_bytes(packages: Seq<ContainerHeaderPackageView>, upto: int) -> Seq<
    u8,
>
    decreases upto,
{
    if upto <= 0 {
        Seq::empty()
    } else {
        import_lists_bytes(packages, upto - 1) + id_list_bytes(packages[upto - 1].import_ids)
    }
}

/// The store entry table: all store entries, then all lists of imports.
pub open spec fn store_blob_bytes(packages: Seq<ContainerHeaderPackageView>) -> Seq<u8> {
    store_entries_bytes(packages, packages.len() as int) + import_lists_bytes(
        packages,
        packages.len() as int,
    )
}

/// The length of the store entry table.
pub open spec fn store_blob_len(packages: Seq<ContainerHeaderPackageView>) -> nat {
    (CONTAINER_HEADER_PACKAGE_SERIALIZED_SIZE * packages.len() + 8 * imports_before(
        packages,
        packages.len() as int,
    )) as nat
}

/// The header that a container carries as its last chunk: the packages it
/// holds and their store entries.
#[derive(Debug)]
pub struct ContainerHeader {
    pub container_id: u64,
    pub packages: Vec<ContainerHeaderPackage>,
}

/// The mathematical content of a [`ContainerHeader`].
pub struct ContainerHeaderView {
    pub container_id: u64,
    pub packages: Seq<ContainerHeaderPackageView>,
}

impl View for ContainerHeader {
    type V = ContainerHeaderView;

    open spec fn view(&self) -> ContainerHeaderView {
        ContainerHeaderView {
            container_id: self.container_id,
            packages: package_views(self.packages@),
        }
    }
}

/// The number of zero bytes that bring a length of `len` to a multiple of
/// `align`.
pub open spec fn padding_to(len: int, align: int) -> nat {
    ((align - len % align) % align) as nat
}

impl ContainerHeaderView {
    /// The store entry table can be addressed with 32-bit numbers.
    pub open spec fn fits(self) -> bool {
        store_blob_len(self.packages) <= u32::MAX
    }

    /// The name hashes of the packages, in order.
    pub open spec fn package_ids(self) -> Seq<u64> {
        self.packages.map_values(|p: ContainerHeaderPackageView| p.hash)
    }

    /// The serialized header: the container's identity, the number of
    /// packages, an empty list of names, a list of name hashes that holds the
    /// algorithm's identifier alone, the packages' identities, the store entry
    /// table, and two empty maps.
    pub open spec fn spec_bytes(self) -> Seq<u8> {
        uint_le_bytes(self.container_id as nat, 8) + uint_le_bytes(self.packages.len(), 4)
            + uint_le_bytes(0, 4) + uint_le_bytes(8, 4) + uint_le_bytes(
            crate::string::NAME_HASH_ALGORITHM as nat,
            8,
        ) + uint_le_bytes(self.packages.len(), 4) + id_list_bytes(self.package_ids())
            + uint_le_bytes(store_blob_len(self.packages), 4) + store_blob_bytes(self.packages)
            + uint_le_bytes(0, 4) + uint_le_bytes(0, 4)
    }
}

/// The imports of more packages are at least as many.
pub proof fn lemma_imports_before_monotone(
    packages: Seq<ContainerHeaderPackageView>,
    i: int,
    j: int,
)
    requires
        i <= j,
    ensures
        imports_before(packages, i) <= imports_before(packages, j),
    decreases j - i,
{
    if i < j {
        lemma_imports_before_monotone(packages, i, j - 1);
    }
}

/// The store entries of `upto` packages take 32 bytes each, and their lists
/// of imports eight bytes for each import.
pub proof fn lemma_store_blob_len(packages: Seq<ContainerHeaderPackageView>, upto: int)
    requires
        0 <= upto <= packages.len(),
    ensures
        store_entries_bytes(packages, upto).len() == 0x20 * upto,
        import_lists_bytes(packages, upto).len() == 8 * imports_before(packages, upto),
    decreases upto,
{
    if upto > 0 {
        lemma_store_blob_len(packages, upto - 1);
        let p = packages[upto - 1];
        lemma_uint_bytes_len(p.export_bundle_size as nat, 8);
        lemma_uint_bytes_len(p.export_count as nat, 4);
        lemma_uint_bytes_len(p.export_bundle_count as nat, 4);
        lemma_uint_bytes_len(p.load_order as nat, 4);
        lemma_uint_bytes_len(0, 4);
        lemma_uint_bytes_len(p.import_ids.len(), 4);
        lemma_uint_bytes_len(imports_relative_offset(packages, upto - 1) as nat, 4);
        let enc = |id: u64| uint_le_bytes(id as nat, 8);
        assert forall|i: int| 0 <= i < p.import_ids.len() implies (#[trigger] enc(
            p.import_ids[i],
        )).len() == 8 by {
            lemma_uint_bytes_len(p.import_ids[i] as nat, 8);
        }
        crate::serialize::lemma_concat_bytes_len(p.import_ids, enc, 8);
    }
}

impl ContainerHeader {
    /// A header without packages.
    pub fn new(container_id: u64) -> (header: Self)
        ensures
            header@ == (ContainerHeaderView { container_id, packages: Seq::empty() }),
    {
        let header = Self { container_id, packages: Vec::new() };
        proof {
            assert(header@.packages =~= Seq::empty());
        }
        header
    }

    /// The length of the store entry table, where 32 bits can hold it.
    fn store_table_len(&self) -> (r: Option<u32>)
        ensures
            r is Some <==> self@.fits(),
            r is Some ==> r->0 == store_blob_len(self@.packages),
    {
        let ghost packages = self@.packages;
        let n = self.packages.len();
        if n > 0x7FF_FFFF {
            return None;
        }
        let mut imports: u64 = 0;
        let mut i: usize = 0;
        while i < n
            invariant
                n == self.packages@.len(),
                packages == self@.packages,
                n <= 0x7FF_FFFF,
                i <= n,
                imports == imports_before(packages, i as int),
                imports <= 0x1FFF_FFFF,
            decreases n - i,
        {
            let count = self.packages[i].import_ids.len();
            proof {
                assert(packages[i as int] == self.packages@[i as int]@);
                lemma_imports_before_monotone(packages, i + 1, n as int);
            }
            if count > 0x1FFF_FFFF || imports + count as u64 > 0x1FFF_FFFF {
                return None;
            }
            imports = imports + count as u64;
            i = i + 1;
        }
        let total: u64 = 0x20 * (n as u64) + 8 * imports;
        if total > 0xFFFF_FFFF {
            None
        } else {
            Some(total as u32)
        }
    }

    /// The store entries of all packages, one after the other.
    fn store_entries(&self) -> (entries: Vec<u8>)
        requires
            self@.fits(),
        ensures
            entries@ == store_entries_bytes(self@.packages, self@.packages.len() as int),
    {
        let ghost packages = self@.packages;
        let n = self.packages.len();
        let base_offset: u64 = CONTAINER_HEADER_PACKAGE_SERIALIZED_SIZE * (n as u64);
        let mut import_list_already_written_offset: u64 = 0;
        let mut entries: Vec<u8> = Vec::new();
        let mut i: usize = 0;
        while i < n
            invariant
                n == self.packages@.len(),
                packages == self@.packages,
                self@.fits(),
                base_offset == CONTAINER_HEADER_PACKAGE_SERIALIZED_SIZE * n,
                i <= n,
                import_list_already_written_offset == 8 * imports_before(packages, i as int),
                entries@ == store_entries_bytes(packages, i as int),
                entries@.len() == CONTAINER_HEADER_PACKAGE_SERIALIZED_SIZE * i,
            decreases n - i,
        {
            proof {
                assert(packages[i as int] == self.packages@[i as int]@);
                lemma_imports_before_monotone(packages, i + 1, n as int);
                lemma_imports_before_monotone(packages, i as int, n as int);
                lemma_store_blob_len(packages, i + 1);
            }
            self.packages[i].to_buffer_store_entry(
                &mut entries,
                base_offset,
                &mut import_list_already_written_offset,
            );
            i = i + 1;
        }
        entries
    }

    /// Appends a list of package identities.
    fn write_ids(ids: &Vec<u64>, writer: &mut Vec<u8>)
        ensures
            final(writer)@ == old(writer)@ + id_list_bytes(ids@),
    {
        let n = ids.len();
        let mut i: usize = 0;
        while i < n
            invariant
                n == ids@.len(),
                i <= n,
                writer@ == old(writer)@ + id_list_bytes(ids@.take(i as int)),
            decreases n - i,
        {
            write_u64_le(writer, ids[i]);
            proof {
                lemma_concat_bytes_push(
                    ids@.take(i as int),
                    ids@[i as int],
                    |id: u64| uint_le_bytes(id as nat, 8),
                );
                assert(ids@.take(i + 1) =~= ids@.take(i as int).push(ids@[i as int]));
                assert(writer@ =~= old(writer)@ + id_list_bytes(ids@.take(i + 1)));
            }
            i = i + 1;
        }
        assert(ids@.take(n as int) =~= ids@);
    }

    /// Appends the lists of imports of all packages.
    fn write_import_lists(&self, writer: &mut Vec<u8>)
        ensures
            final(writer)@ == old(writer)@ + import_lists_bytes(
                self@.packages,
                self@.packages.len() as int,
            ),
    {
        let ghost packages = self@.packages;
        let n = self.packages.len();
        let mut i: usize = 0;
        while i < n
            invariant
                n == self.packages@.len(),
                packages == self@.packages,
                i <= n,
                writer@ == old(writer)@ + import_lists_bytes(packages, i as int),
            decreases n - i,
        {
            proof {
                assert(packages[i as int] == self.packages@[i as int]@);
            }
            ContainerHeader::write_ids(&self.packages[i].import_ids, writer);
            proof {
                assert(writer@ =~= old(writer)@ + import_lists_bytes(packages, i + 1));
            }
            i = i + 1;
        }
    }

    /// Appends the identities of all packages.
    fn write_package_ids(&self, writer: &mut Vec<u8>)
        ensures
            final(writer)@ == old(writer)@ + id_list_bytes(self@.package_ids()),
    {
        let ghost ids = self@.package_ids();
        let n = self.packages.len();
        let mut i: usize = 0;
        while i < n
            invariant
                n == self.packages@.len(),
                ids == self@.package_ids(),
                i <= n,
                writer@ == old(writer)@ + id_list_bytes(ids.take(i as int)),
            decreases n - i,
        {
            proof {
                assert(ids[i as int] == self.packages@[i as int].hash);
            }
            write_u64_le(writer, self.packages[i].hash);
            proof {
                lemma_concat_bytes_push(
                    ids.take(i as int),
                    ids[i as int],
                    |id: u64| uint_le_bytes(id as nat, 8),
                );
                assert(ids.take(i + 1) =~= ids.take(i as int).push(ids[i as int]));
                assert(writer@ =~= old(writer)@ + id_list_bytes(ids.take(i + 1)));
            }
            i = i + 1;
        }
        assert(ids.take(n as int) =~= ids);
    }

    /// The serialized header, or nothing where the store entry table is too
    /// long for its 32-bit fields.
    pub fn to_bytes(&self) -> (r: Option<Vec<u8>>)
        ensures
            r is Some <==> self@.fits(),
            r is Some ==> r->0@ == self@.spec_bytes(),
    {
        let table_len = match self.store_table_len() {
            Some(len) => len,
            None => {
                return None;
            },
        };
        let count = self.packages.len() as u32;
        let mut out: Vec<u8> = Vec::new();
        write_u64_le(&mut out, self.container_id);
        write_u32_le(&mut out, count);
        write_u32_le(&mut out, 0);
        write_u32_le(&mut out, 8);
        write_u64_le(&mut out, crate::string::NAME_HASH_ALGORITHM);
        write_u32_le(&mut out, count);
        self.write_package_ids(&mut out);
        write_u32_le(&mut out, table_len);
        let entries = self.store_entries();
        write_bytes(&mut out, entries.as_slice());
        self.write_import_lists(&mut out);
        write_u32_le(&mut out, 0);
        write_u32_le(&mut out, 0);
        proof {
            assert(out@ =~= self@.spec_bytes());
        }
        Some(out)
    }

    /// Appends the serialized header to `writer` and fills up with zeros to
    /// the next multiple of 16 bytes. Gives the serialized header without the
    /// filling. Nothing is written where the store entry table is too long
    /// for its 32-bit fields.
    pub fn to_buffer(&self, writer: &mut Vec<u8>) -> (r: Option<Vec<u8>>)
        ensures
            r is Some <==> self@.fits(),
            r is Some ==> r->0@ == self@.spec_bytes() && final(writer)@ == old(writer)@
                + self@.spec_bytes() + zero_bytes(
                padding_to((old(writer)@.len() + self@.spec_bytes().len()) as int, 16),
            ),
            r is None ==> final(writer)@ == old(writer)@,
    {
        match self.to_bytes() {
            Some(serialized) => {
                write_bytes(writer, serialized.as_slice());
                PartitionSerializer::new(0x10).to_buffer_alignment(writer);
                Some(serialized)
            },
            None => None,
        }
    }
}

} // verus!
