//! Turns the asset tree into a table of contents.
//!
//! The tree is first flattened into the directory index. Then the files
//! without usable content are dropped, every other file gets its chunk records
//! and its place in the partition, and the whole is serialized.

use crate::asset_collector::{TocDirectory, TocDirectoryView, MOUNT_POINT};
use crate::chunk_layout::{
    block_count, block_size_at, blocks_before, chunk_id_for_path, chunk_id_of, chunk_type_for,
    chunk_type_of, game_path, layout_files, layout_header, lemma_blocks_before_grows,
    lemma_blocks_before_single, lemma_layout_blocks, lemma_layout_files, ChunkTables, TocLayout,
};
use crate::flat_index::{flat_tree, FlatIndex, FlatToc, FLAT_INDEX_LIMIT};
use crate::io_toc::{
    file_entry_views, meta_views, padding_to, sha1_digest, string_views, ContainerHeader, IoChunkId,
    IoChunkType4, IoDirectoryIndexEntry, IoFileIndexEntry, IoFileIndexEntryView, IoOffsetAndLength,
    IoStoreTocCompressedBlockEntry, IoStoreTocEntryMeta, IoStoreTocEntryMetaView,
    IoStoreTocHeaderType3, IoStringPool, IO_STORE_TOC_MAGIC,
};
use crate::partition::{extension_of, file_name, file_name_of, lemma_last_separator_range, to_chars};
use crate::serialize::{lemma_uint_bytes_len, uint_le_bytes, write_bytes, write_zeros, zero_bytes};
use crate::string::{
    fstring32_bytes, name_hash, str_eq, FString32NoHash, Hasher16, FSTRING32_MAX_BYTES,
};
use crate::usable_files::{
    content_at, contents_view, cooked_paths, is_usable, kept_contents, lemma_kept_contents_bound,
    lemma_pruned_len, prune, prune_index, unreadable_paths,
};
use vstd::prelude::*;
use vstd::slice::slice_subrange;
use vstd::std_specs::convert::FromSpecImpl;
use vstd::string::{StringExecFns, StringSliceAdditionalSpecFns};

verus! {

/// Name of the emulated container.
pub const TOC_NAME: &'static str = "UnrealEssentials_P";

/// File name of the emulated table of contents.
pub const TARGET_TOC: &'static str = "UnrealEssentials_P.utoc";

/// File name of the emulated partition.
pub const TARGET_CAS: &'static str = "UnrealEssentials_P.ucas";

/// Size of a compression block. Every chunk starts on a multiple of it in the
/// container's uncompressed address space.
pub const COMPRESSION_BLOCK_SIZE: u32 = 0x10000;

/// Every chunk starts on a multiple of this in the partition.
pub const COMPRESSION_BLOCK_ALIGNMENT: u32 = 0x800;

pub const MEMORY_MAPPING_ALIGNMENT: u32 = 0x4000;

/// Why a table of contents could not be built.
#[derive(Debug, Clone, Copy, PartialEq, Eq, Structural)]
pub enum TocBuildError {
    /// A list of the directory index, the chunks or the compression blocks
    /// would hold more entries than a 32-bit count can tell.
    TooManyEntries,
    /// The path of a file does not hold the project's content directory.
    MissingContentRoot,
    /// A file has an extension that no chunk type stands for.
    UnsupportedFileType,
    /// An offset or a length does not fit its field.
    LayoutOverflow,
    /// A name is too long to be serialized.
    StringTooLong,
}

/// Where a stretch of the partition is found: `length` bytes of the file at
/// `source_path`, from `source_start` on, stand at `virtual_offset` of the
/// partition. The container header, which is held in memory, has an empty
/// source path.
#[derive(Debug)]
pub struct PartitionBlock {
    pub source_path: String,
    pub source_start: u64,
    pub length: u64,
    pub virtual_offset: u64,
}

/// The mathematical content of a [`PartitionBlock`].
pub struct PartitionBlockView {
    pub source_path: Seq<char>,
    pub source_start: u64,
    pub length: u64,
    pub virtual_offset: u64,
}

impl View for PartitionBlock {
    type V = PartitionBlockView;

    open spec fn view(&self) -> PartitionBlockView {
        PartitionBlockView {
            source_path: self.source_path@,
            source_start: self.source_start,
            length: self.length,
            virtual_offset: self.virtual_offset,
        }
    }
}

/// The views of a list of partition blocks.
pub open spec fn partition_views(list: Seq<PartitionBlock>) -> Seq<PartitionBlockView> {
    list.map_values(|b: PartitionBlock| b@)
}

/// Writers of the content of files into the partition.
pub trait PartitionSerializerFile {
    /// Appends the content of a file.
    fn to_buffer(file: &Vec<u8>, writer: &mut Vec<u8>)
        ensures
            final(writer)@ == old(writer)@ + file@,
    ;
}

/// Writers that keep what they write on multiples of a block size.
pub trait PartitionSerializerAlign {
    /// The block size.
    spec fn block_alignment(&self) -> u64;

    fn get_block_alignment(&self) -> (align: u64)
        ensures
            align == self.block_alignment(),
    ;

    /// Appends zeros up to the next multiple of the block size.
    fn to_buffer_alignment(&self, writer: &mut Vec<u8>)
        requires
            0 < self.block_alignment() <= u32::MAX,
        ensures
            final(writer)@ == old(writer)@ + zero_bytes(
                padding_to(old(writer)@.len() as int, self.block_alignment() as int),
            ),
    ;
}

/// Pads a stream with zeros to a multiple of a block size.
pub struct PartitionSerializer(pub u64);

impl PartitionSerializer {
    pub fn new(block_align: u32) -> (serializer: Self)
        ensures
            serializer.0 == block_align,
    {
        Self(block_align as u64)
    }
}

impl PartitionSerializerFile for PartitionSerializer {
    fn to_buffer(file: &Vec<u8>, writer: &mut Vec<u8>) {
        write_bytes(writer, file.as_slice());
    }
}

impl PartitionSerializerAlign for PartitionSerializer {
    open spec fn block_alignment(&self) -> u64 {
        self.0
    }

    fn get_block_alignment(&self) -> (align: u64) {
        self.0
    }

    fn to_buffer_alignment(&self, writer: &mut Vec<u8>) {
        let align = (writer.len() as u64) % self.get_block_alignment();
        if align == 0 {
            proof {
                let a = self.0 as int;
                assert((a - 0) % a == 0) by (nonlinear_arith)
                    requires
                        a > 0,
                ;
                assert(zero_bytes(0) =~= Seq::<u8>::empty());
                assert(writer@ + Seq::<u8>::empty() =~= writer@);
            }
            return;
        }
        let diff = self.get_block_alignment() - align;
        proof {
            let a = self.0 as int;
            let d = diff as int;
            assert(d % a == d) by (nonlinear_arith)
                requires
                    0 < d < a,
            ;
        }
        write_zeros(writer, diff as usize);
    }
}

/// Counters and lists that tell how a build went.
#[derive(Debug)]
pub struct TocBuilderProfiler {
    /// The number of files that went into the container.
    pub successful_files: u64,
    /// Source paths of the files that were dropped as packages cooked for the
    /// legacy format.
    pub incorrect_asset_format: Vec<String>,
    /// Source paths of the files that were dropped because their content
    /// could not be read.
    pub failed_to_read: Vec<String>,
    pub container_header_hash: u64,
    pub compression_block_count: u64,
    pub directory_index_size: u64,
    pub generated_meta_hashes: bool,
    /// Microseconds from the start of the build to the end of flattening.
    pub time_to_flatten: u128,
    /// Microseconds from the start of the build to the end of serialization.
    pub time_to_serialize: u128,
}

impl TocBuilderProfiler {
    pub fn new() -> (profiler: Self)
        ensures
            profiler.successful_files == 0,
            profiler.incorrect_asset_format@ == Seq::<String>::empty(),
            profiler.failed_to_read@ == Seq::<String>::empty(),
            profiler.container_header_hash == 0,
            profiler.compression_block_count == 0,
            profiler.directory_index_size == 0,
            !profiler.generated_meta_hashes,
            profiler.time_to_flatten == 0,
            profiler.time_to_serialize == 0,
    {
        Self {
            successful_files: 0,
            incorrect_asset_format: Vec::new(),
            failed_to_read: Vec::new(),
            container_header_hash: 0,
            compression_block_count: 0,
            directory_index_size: 0,
            generated_meta_hashes: false,
            time_to_flatten: 0,
            time_to_serialize: 0,
        }
    }

    /// Notes the time that flattening took, as measured by the caller.
    pub fn set_flatten_time(&mut self, elapsed_micros: u128)
        ensures
            *final(self) == (TocBuilderProfiler { time_to_flatten: elapsed_micros, ..*old(self) }),
    {
        self.time_to_flatten = elapsed_micros;
    }

    /// Notes the time that serialization took, as measured by the caller.
    pub fn set_serialize_time(&mut self, elapsed_micros: u128)
        ensures
            *final(self) == (TocBuilderProfiler {
                time_to_serialize: elapsed_micros,
                ..*old(self)
            }),
    {
        self.time_to_serialize = elapsed_micros;
    }
}

/// The mount point of the directory index in its serialized form.
pub open spec fn mount_point_bytes() -> Seq<u8> {
    fstring32_bytes(MOUNT_POINT.spec_bytes())
}

/// The directory index: the mount point, the directories, the files and the
/// string pool.
pub open spec fn directory_index_bytes(flat: FlatToc) -> Seq<u8> {
    mount_point_bytes() + IoDirectoryIndexEntry::list_bytes(flat.directories)
        + IoFileIndexEntryView::list_bytes(flat.files) + IoStringPool::list_bytes(flat.strings)
}

/// The 144 bytes that open the table of contents of an indexed, unencrypted
/// container with a single partition: the magic, the layout revision 3 with
/// three filling bytes, the size of this header, the number of chunks, the
/// number of compression blocks and the size of such a block's entry, no
/// compression methods, the size of a compression block, the size of the
/// directory index, one partition, the container's identity, an empty
/// encryption key, the flag for an indexed container with seven filling
/// bytes, the largest partition size there is, and 48 reserved bytes.
pub open spec fn toc_header_bytes(
    container_id: u64,
    entries: u32,
    blocks: u32,
    dir_index_size: u32,
) -> Seq<u8> {
    IO_STORE_TOC_MAGIC@ + uint_le_bytes(3, 1) + zero_bytes(3) + uint_le_bytes(144, 4)
        + uint_le_bytes(entries as nat, 4) + uint_le_bytes(blocks as nat, 4) + uint_le_bytes(12, 4)
        + uint_le_bytes(0, 4) + uint_le_bytes(0, 4) + uint_le_bytes(
        COMPRESSION_BLOCK_SIZE as nat,
        4,
    ) + uint_le_bytes(dir_index_size as nat, 4) + uint_le_bytes(1, 4) + uint_le_bytes(
        container_id as nat,
        8,
    ) + uint_le_bytes(0, 8) + uint_le_bytes(0, 8) + uint_le_bytes(8, 1) + zero_bytes(3)
        + zero_bytes(4) + uint_le_bytes(u64::MAX as nat, 8) + zero_bytes(48)
}

/// Whether the lists can be serialized: their counts fit 32 bits, every
/// string fits its layout, and so does the size of the directory index.
pub open spec fn toc_check(flat: FlatToc, layout: TocLayout) -> Result<(), TocBuildError> {
    if layout.chunk_ids.len() > u32::MAX || layout.compression_blocks.len() > u32::MAX
        || flat.directories.len() > u32::MAX || flat.files.len() > u32::MAX || flat.strings.len()
        > u32::MAX {
        Err(TocBuildError::TooManyEntries)
    } else if !IoStringPool::fits(flat.strings) {
        Err(TocBuildError::StringTooLong)
    } else if directory_index_bytes(flat).len() > u32::MAX {
        Err(TocBuildError::LayoutOverflow)
    } else {
        Ok(())
    }
}

/// The table of contents: the header, the chunk identities, the offsets and
/// lengths, the compression blocks, the directory index and the metas.
pub open spec fn toc_bytes(flat: FlatToc, layout: TocLayout, container_id: u64) -> Seq<u8> {
    toc_header_bytes(
        container_id,
        layout.chunk_ids.len() as u32,
        layout.compression_blocks.len() as u32,
        directory_index_bytes(flat).len() as u32,
    ) + IoChunkId::list_bytes(layout.chunk_ids) + IoOffsetAndLength::list_bytes(
        layout.offsets_and_lengths,
    ) + IoStoreTocCompressedBlockEntry::list_bytes(layout.compression_blocks)
        + directory_index_bytes(flat) + IoStoreTocEntryMetaView::list_bytes(layout.metas)
}

/// Whether every string of the pool is short enough to be serialized.
fn strings_fit(strings: &Vec<String>) -> (fit: bool)
    requires
        strings@.len() <= u32::MAX,
    ensures
        fit == IoStringPool::fits(string_views(strings@)),
{
    let ghost views = string_views(strings@);
    let n = strings.len();
    let mut i: usize = 0;
    while i < n
        invariant
            n == strings@.len(),
            views == string_views(strings@),
            i <= n,
            forall|j: int|
                0 <= j < i ==> vstd::utf8::encode_utf8(#[trigger] views[j]).len()
                    <= FSTRING32_MAX_BYTES,
        decreases n - i,
    {
        assert(views[i as int] == strings@[i as int]@);
        if strings[i].as_str().as_bytes().len() > FSTRING32_MAX_BYTES {
            return false;
        }
        i = i + 1;
    }
    true
}

/// Serializes the table of contents and tells the size of its directory
/// index.
pub fn write_toc(
    directories: &Vec<IoDirectoryIndexEntry>,
    files: &Vec<IoFileIndexEntry>,
    strings: &Vec<String>,
    tables: &ChunkTables,
) -> (r: Result<(Vec<u8>, u32), TocBuildError>)
    requires
        tables@.records_wf(),
    ensures
        ({
            let flat = FlatToc {
                directories: directories@,
                files: file_entry_views(files@),
                strings: string_views(strings@),
            };
            match toc_check(flat, tables@) {
                Ok(()) => match r {
                    Ok((toc, index_size)) => toc@ == toc_bytes(
                        flat,
                        tables@,
                        tables.header.container_id,
                    ) && index_size == directory_index_bytes(flat).len(),
                    Err(_) => false,
                },
                Err(e) => r == Err::<(Vec<u8>, u32), TocBuildError>(e),
            }
        }),
{
    let ghost flat = FlatToc {
        directories: directories@,
        files: file_entry_views(files@),
        strings: string_views(strings@),
    };
    let limit: usize = 0xFFFF_FFFF;
    if tables.chunk_ids.len() > limit || tables.compression_blocks.len() > limit
        || directories.len() > limit || files.len() > limit || strings.len() > limit {
        return Err(TocBuildError::TooManyEntries);
    }
    if !strings_fit(strings) {
        return Err(TocBuildError::StringTooLong);
    }
    proof {
        lemma_mount_point_len();
    }
    let mut index: Vec<u8> = Vec::new();
    FString32NoHash::to_buffer(MOUNT_POINT, &mut index);
    IoDirectoryIndexEntry::list_to_buffer(directories, &mut index);
    IoFileIndexEntry::list_to_buffer(files, &mut index);
    IoStringPool::list_to_buffer(strings, &mut index);
    proof {
        assert(index@ =~= directory_index_bytes(flat));
    }
    if index.len() > limit {
        return Err(TocBuildError::LayoutOverflow);
    }
    let header = IoStoreTocHeaderType3::new(
        tables.header.container_id,
        tables.chunk_ids.len() as u32,
        tables.compression_blocks.len() as u32,
        COMPRESSION_BLOCK_SIZE,
        index.len() as u32,
    );
    proof {
        assert(header.spec_bytes() =~= toc_header_bytes(
            tables.header.container_id,
            tables.chunk_ids.len() as u32,
            tables.compression_blocks.len() as u32,
            index.len() as u32,
        ));
    }
    let mut out: Vec<u8> = Vec::new();
    header.to_buffer(&mut out);
    IoChunkId::list_to_buffer(&tables.chunk_ids, &mut out);
    IoOffsetAndLength::list_to_buffer(&tables.offsets_and_lengths, &mut out);
    IoStoreTocCompressedBlockEntry::list_to_buffer(&tables.compression_blocks, &mut out);
    write_bytes(&mut out, index.as_slice());
    IoStoreTocEntryMeta::list_to_buffer(&tables.metas, &mut out);
    proof {
        assert(out@ =~= toc_bytes(flat, tables@, tables.header.container_id));
    }
    Ok((out, index.len() as u32))
}

/// The mount point is nine bytes long.
pub proof fn lemma_mount_point_len()
    ensures
        MOUNT_POINT.spec_bytes().len() == 9,
{
    reveal_strlit("../../../");
    vstd::string::is_ascii_spec_bytes(MOUNT_POINT);
    assert(vstd::string::is_ascii(MOUNT_POINT));
}

/// A table of contents with all that it was made of.
pub struct ResolvedToc {
    /// The directory index, without the files that were dropped.
    pub flat: FlatToc,
    /// The chunk records and the partition layout.
    pub layout: TocLayout,
    /// The container header as it stands in the partition.
    pub container_header: Seq<u8>,
    /// The serialized table of contents.
    pub toc: Seq<u8>,
}

/// The table of contents of the directory index `flat`, of whose files the
/// contents `contents` were read, in the project called `project`, for the
/// container with the identity `container_id`.
///
/// Files without usable content are dropped. Each other file gets its chunk
/// in the order of the index, the container header comes last, and the whole
/// is serialized.
pub open spec fn resolve(
    flat: FlatToc,
    contents: Seq<Option<Seq<u8>>>,
    project: Seq<char>,
    container_id: u64,
) -> Result<ResolvedToc, TocBuildError> {
    if !flat.fits() {
        Err(TocBuildError::TooManyEntries)
    } else {
        let pruned = prune(flat, contents);
        let kept = kept_contents(contents, flat.files.len() as int);
        match layout_files(pruned.files, kept, project, pruned.files.len() as int) {
            Err(e) => Err(e),
            Ok(acc) => match layout_header(acc, container_id) {
                Err(e) => Err(e),
                Ok((layout, header)) => match toc_check(pruned, layout) {
                    Err(e) => Err(e),
                    Ok(()) => Ok(
                        ResolvedToc {
                            flat: pruned,
                            layout,
                            container_header: header,
                            toc: toc_bytes(pruned, layout, container_id),
                        },
                    ),
                },
            },
        }
    }
}

/// Builds a table of contents from an asset tree: first the directory index,
/// then the chunk records.
#[derive(Debug)]
pub struct TocResolver {
    pub directories: Vec<IoDirectoryIndexEntry>,
    pub files: Vec<IoFileIndexEntry>,
    pub strings: Vec<String>,
    pub resolved_directories: u32,
    pub resolved_files: u32,
    pub resolved_strings: u32,
    /// Identity of the container: the name hash of its name.
    pub toc_name_hash: u64,
    /// Name of the project, which is the name of the tree's root.
    pub project_name: String,
    pub chunk_ids: Vec<IoChunkId>,
    pub offsets_and_lengths: Vec<IoOffsetAndLength>,
    pub compression_blocks: Vec<IoStoreTocCompressedBlockEntry>,
    pub metas: Vec<IoStoreTocEntryMeta>,
    /// Where each chunk is found, in the order of the chunks.
    pub partition_blocks: Vec<PartitionBlock>,
    /// The container header with the store entries of the packages.
    pub container_header: ContainerHeader,
    /// The container header as it stands in the partition.
    pub container_header_bytes: Vec<u8>,
    /// The length of the partition.
    pub partition_size: u64,
}

impl TocResolver {
    /// The directory index held by the resolver.
    pub open spec fn flat(&self) -> FlatToc {
        FlatToc {
            directories: self.directories@,
            files: file_entry_views(self.files@),
            strings: string_views(self.strings@),
        }
    }

    /// The chunk records and the partition layout held by the resolver.
    pub open spec fn layout(&self) -> TocLayout {
        TocLayout {
            chunk_ids: self.chunk_ids@,
            offsets_and_lengths: self.offsets_and_lengths@,
            compression_blocks: self.compression_blocks@,
            metas: meta_views(self.metas@),
            partition: partition_views(self.partition_blocks@),
            packages: self.container_header@.packages,
            cursor: self.partition_size as nat,
        }
    }

    /// A resolver for the project called `root_name`, without entries.
    pub fn new(root_name: &str) -> (resolver: Self)
        ensures
            resolver.flat() == FlatToc::empty(),
            resolver.layout() == TocLayout::empty(),
            resolver.project_name@ == root_name@,
            resolver.toc_name_hash == name_hash(TOC_NAME@),
            resolver.container_header.container_id == name_hash(TOC_NAME@),
            resolver.container_header_bytes@ == Seq::<u8>::empty(),
            resolver.resolved_directories == 0,
            resolver.resolved_files == 0,
            resolver.resolved_strings == 0,
    {
        let toc_name_hash = Hasher16::get_cityhash64(TOC_NAME);
        let resolver = Self {
            directories: Vec::new(),
            files: Vec::new(),
            strings: Vec::new(),
            resolved_directories: 0,
            resolved_files: 0,
            resolved_strings: 0,
            toc_name_hash,
            project_name: String::from_str(root_name),
            chunk_ids: Vec::new(),
            offsets_and_lengths: Vec::new(),
            compression_blocks: Vec::new(),
            metas: Vec::new(),
            partition_blocks: Vec::new(),
            container_header: ContainerHeader::new(toc_name_hash),
            container_header_bytes: Vec::new(),
            partition_size: 0,
        };
        proof {
            assert(resolver.flat().files =~= Seq::empty());
            assert(resolver.flat().strings =~= Seq::empty());
            assert(resolver.layout().metas =~= Seq::empty());
            assert(resolver.layout().partition =~= Seq::empty());
        }
        resolver
    }

    /// Flattens the tree under `root` into the directory index. Nothing
    /// changes where a list of the index would grow too long.
    pub fn flatten_toc_tree(&mut self, root: &TocDirectory) -> (r: Result<(), TocBuildError>)
        ensures
            r is Ok <==> flat_tree(root@).fits(),
            r is Ok ==> final(self).flat() == flat_tree(root@) && final(self).resolved_directories
                == final(self).directories@.len()
                && final(self).resolved_files == final(self).files@.len()
                && final(self).resolved_strings == final(self).strings@.len(),
            r is Ok ==> final(self).toc_name_hash == old(self).toc_name_hash
                && final(self).project_name == old(self).project_name
                && final(self).layout() == old(self).layout()
                && final(self).container_header == old(self).container_header
                && final(self).container_header_bytes == old(self).container_header_bytes,
            r is Err ==> r == Err::<(), TocBuildError>(TocBuildError::TooManyEntries)
                && *final(self) == *old(self),
    {
        let mut index = FlatIndex::new();
        match index.flatten_toc_tree_dir(root, "", false) {
            Ok(()) => {},
            Err(e) => {
                proof {
                    reveal_strlit("");
                    assert(""@ =~= Seq::<char>::empty());
                }
                return Err(e);
            },
        }
        proof {
            reveal_strlit("");
            assert(""@ =~= Seq::<char>::empty());
        }
        self.resolved_directories = index.directories.len() as u32;
        self.resolved_files = index.files.len() as u32;
        self.resolved_strings = index.strings.len() as u32;
        self.directories = index.directories;
        self.files = index.files;
        self.strings = index.strings;
        Ok(())
    }

    /// The identity of the chunk of type `chunk_type` whose asset has the
    /// hash path `file_path`.
    pub fn create_chunk_id(&self, file_path: &str, chunk_type: IoChunkType4) -> (r: Result<
        IoChunkId,
        TocBuildError,
    >)
        ensures
            r == match game_path(file_path@, self.project_name@) {
                Some(path) => Ok::<IoChunkId, TocBuildError>(
                    IoChunkId { hash: name_hash(path), index: 0, obj_type: chunk_type },
                ),
                None => Err::<IoChunkId, TocBuildError>(TocBuildError::MissingContentRoot),
            },
    {
        chunk_id_for_path(self.project_name.as_str(), file_path, chunk_type)
    }

    /// The identity of the chunk of `curr_file`.
    pub fn get_file_hash(&self, curr_file: &IoFileIndexEntry) -> (r: Result<
        IoChunkId,
        TocBuildError,
    >)
        ensures
            r == chunk_id_of(curr_file@, self.project_name@),
    {
        match chunk_type_for(curr_file.os_path.as_str()) {
            Some(chunk_type) => self.create_chunk_id(curr_file.hash_path.as_str(), chunk_type),
            None => Err(TocBuildError::UnsupportedFileType),
        }
    }

    /// Builds the chunk records from the contents of the files, which
    /// `contents` holds in the order of the file list (nothing for a file
    /// that could not be read), and serializes the table of contents.
    ///
    /// Files without usable content leave the directory index and are noted
    /// in the profiler. Where the build fails, the resolver stays as it was.
    /// The path of the table of contents has no part in what is built.
    pub fn serialize(
        &mut self,
        profiler: &mut TocBuilderProfiler,
        toc_path: &str,
        contents: &Vec<Option<Vec<u8>>>,
    ) -> (r: Result<Vec<u8>, TocBuildError>)
        ensures
            match resolve(
                old(self).flat(),
                contents_view(contents@),
                old(self).project_name@,
                old(self).toc_name_hash,
            ) {
                Ok(resolved) => {
                    &&& r is Ok
                    &&& r->Ok_0@ == resolved.toc
                    &&& final(self).flat() == resolved.flat
                    &&& final(self).layout() == resolved.layout
                    &&& final(self).container_header_bytes@ == resolved.container_header
                    &&& final(self).project_name == old(self).project_name
                    &&& final(self).toc_name_hash == old(self).toc_name_hash
                    &&& final(self).container_header.container_id == old(self).toc_name_hash
                    &&& final(self).resolved_files == resolved.flat.files.len()
                    &&& final(self).resolved_directories == old(self).resolved_directories
                    &&& final(self).resolved_strings == old(self).resolved_strings
                    &&& final(profiler).successful_files == resolved.flat.files.len()
                    &&& final(profiler).container_header_hash == old(self).toc_name_hash
                    &&& final(profiler).compression_block_count
                        == resolved.layout.compression_blocks.len()
                    &&& final(profiler).directory_index_size == directory_index_bytes(
                        resolved.flat,
                    ).len()
                    &&& final(profiler).generated_meta_hashes
                },
                Err(e) => {
                    &&& r == Err::<Vec<u8>, TocBuildError>(e)
                    &&& *final(self) == *old(self)
                    &&& final(profiler).successful_files == old(profiler).successful_files
                    &&& final(profiler).container_header_hash == old(profiler).container_header_hash
                    &&& final(profiler).compression_block_count
                        == old(profiler).compression_block_count
                    &&& final(profiler).directory_index_size == old(profiler).directory_index_size
                    &&& final(profiler).generated_meta_hashes == old(profiler).generated_meta_hashes
                },
            },
            old(self).flat().fits() ==> string_views(final(profiler).failed_to_read@)
                == string_views(old(profiler).failed_to_read@) + unreadable_paths(
                old(self).flat().files,
                contents_view(contents@),
                old(self).flat().files.len() as int,
            ),
            old(self).flat().fits() ==> string_views(final(profiler).incorrect_asset_format@)
                == string_views(old(profiler).incorrect_asset_format@) + cooked_paths(
                old(self).flat().files,
                contents_view(contents@),
                old(self).flat().files.len() as int,
            ),
            !old(self).flat().fits() ==> final(profiler).failed_to_read
                == old(profiler).failed_to_read
                && final(profiler).incorrect_asset_format == old(profiler).incorrect_asset_format,
            final(profiler).time_to_flatten == old(profiler).time_to_flatten,
            final(profiler).time_to_serialize == old(profiler).time_to_serialize,
    {
        let ghost flat = self.flat();
        let ghost given = contents_view(contents@);
        if self.directories.len() > FLAT_INDEX_LIMIT || self.files.len() > FLAT_INDEX_LIMIT
            || self.strings.len() > FLAT_INDEX_LIMIT {
            return Err(TocBuildError::TooManyEntries);
        }
        let n = self.files.len();
        let (directories, files) = prune_index(&self.directories, &self.files, contents, profiler);
        proof {
            lemma_pruned_len(flat.files, given, n as int);
        }
        let mut tables = ChunkTables::new(self.toc_name_hash);
        match tables.add_kept_files(&files, contents, n, self.project_name.as_str()) {
            Ok(()) => {},
            Err(e) => {
                return Err(e);
            },
        }
        let padded = match tables.add_header() {
            Ok(bytes) => bytes,
            Err(e) => {
                return Err(e);
            },
        };
        let (toc, index_size) = match write_toc(&directories, &files, &self.strings, &tables) {
            Ok(written) => written,
            Err(e) => {
                return Err(e);
            },
        };
        profiler.successful_files = files.len() as u64;
        profiler.container_header_hash = self.toc_name_hash;
        profiler.compression_block_count = tables.compression_blocks.len() as u64;
        profiler.directory_index_size = index_size as u64;
        profiler.generated_meta_hashes = true;
        self.resolved_files = files.len() as u32;
        self.directories = directories;
        self.files = files;
        self.chunk_ids = tables.chunk_ids;
        self.offsets_and_lengths = tables.offsets_and_lengths;
        self.compression_blocks = tables.compression_blocks;
        self.metas = tables.metas;
        self.partition_blocks = tables.partition;
        self.container_header = tables.header;
        self.container_header_bytes = padded;
        self.partition_size = tables.cursor;
        Ok(toc)
    }
}

/// The table of contents of a tree of whose files, taken directory by
/// directory and parents before children, the contents `contents` were read.
/// The project bears the name of the tree's root, and the container that of
/// [`TOC_NAME`].
pub open spec fn tree_toc(root: TocDirectoryView, contents: Seq<Option<Seq<u8>>>) -> Result<
    ResolvedToc,
    TocBuildError,
> {
    resolve(flat_tree(root), contents, root.name, name_hash(TOC_NAME@))
}

/// The source paths of the files of a directory index, in order.
pub open spec fn source_paths_of(flat: FlatToc) -> Seq<Seq<char>> {
    flat.files.map_values(|f: IoFileIndexEntryView| f.os_path)
}

/// What a build hands back: the serialized table of contents, the resolver
/// with the records and the partition layout, and the profiler.
#[derive(Debug)]
pub struct BuiltToc {
    pub toc: Vec<u8>,
    pub resolver: TocResolver,
    pub profiler: TocBuilderProfiler,
}

/// The source paths of the files of the tree, in the order in which a build
/// wants their contents.
pub fn source_paths(root: &TocDirectory) -> (r: Result<Vec<String>, TocBuildError>)
    ensures
        r is Ok <==> flat_tree(root@).fits(),
        r is Ok ==> string_views(r->Ok_0@) == source_paths_of(flat_tree(root@)),
        r is Err ==> r == Err::<Vec<String>, TocBuildError>(TocBuildError::TooManyEntries),
{
    let mut resolver = TocResolver::new(root.name.as_str());
    match resolver.flatten_toc_tree(root) {
        Ok(()) => {},
        Err(e) => {
            return Err(e);
        },
    }
    let ghost wanted = source_paths_of(flat_tree(root@));
    let n = resolver.files.len();
    let mut paths: Vec<String> = Vec::new();
    let mut i: usize = 0;
    while i < n
        invariant
            n == resolver.files@.len(),
            wanted == source_paths_of(resolver.flat()),
            i <= n,
            string_views(paths@) == wanted.take(i as int),
        decreases n - i,
    {
        let ghost before = string_views(paths@);
        paths.push(resolver.files[i].os_path.clone());
        proof {
            assert(resolver.flat().files[i as int] == resolver.files@[i as int]@);
            assert(wanted[i as int] == resolver.files@[i as int]@.os_path);
            assert(string_views(paths@) =~= before.push(wanted[i as int]));
            assert(wanted.take(i + 1) =~= wanted.take(i as int).push(wanted[i as int]));
        }
        i = i + 1;
    }
    proof {
        assert(wanted.take(n as int) =~= wanted);
    }
    Ok(paths)
}

/// Builds the table of contents of the tree under `root`. `contents` holds
/// the content of each file, in the order of [`source_paths`], or nothing
/// where the file could not be read.
pub fn build_table_of_contents_inner(
    root: &TocDirectory,
    toc_path: &str,
    contents: &Vec<Option<Vec<u8>>>,
) -> (r: Result<BuiltToc, TocBuildError>)
    ensures
        match tree_toc(root@, contents_view(contents@)) {
            Ok(resolved) => match r {
                Ok(built) => {
                    &&& built.toc@ == resolved.toc
                    &&& built.resolver.flat() == resolved.flat
                    &&& built.resolver.layout() == resolved.layout
                    &&& built.resolver.container_header_bytes@ == resolved.container_header
                    &&& built.resolver.project_name@ == root@.name
                    &&& built.resolver.toc_name_hash == name_hash(TOC_NAME@)
                    &&& string_views(built.profiler.failed_to_read@) == unreadable_paths(
                        flat_tree(root@).files,
                        contents_view(contents@),
                        flat_tree(root@).files.len() as int,
                    )
                    &&& string_views(built.profiler.incorrect_asset_format@) == cooked_paths(
                        flat_tree(root@).files,
                        contents_view(contents@),
                        flat_tree(root@).files.len() as int,
                    )
                    &&& built.profiler.successful_files == resolved.flat.files.len()
                },
                Err(_) => false,
            },
            Err(e) => r matches Err(f) && f == e,
        },
{
    let mut profiler = TocBuilderProfiler::new();
    let mut resolver = TocResolver::new(root.name.as_str());
    proof {
        root.lemma_view();
    }
    match resolver.flatten_toc_tree(root) {
        Ok(()) => {},
        Err(e) => {
            return Err(e);
        },
    }
    match resolver.serialize(&mut profiler, toc_path, contents) {
        Ok(toc) => {
            proof {
                assert(string_views(profiler.failed_to_read@) =~= unreadable_paths(
                    flat_tree(root@).files,
                    contents_view(contents@),
                    flat_tree(root@).files.len() as int,
                ));
                assert(string_views(profiler.incorrect_asset_format@) =~= cooked_paths(
                    flat_tree(root@).files,
                    contents_view(contents@),
                    flat_tree(root@).files.len() as int,
                ));
            }
            Ok(BuiltToc { toc, resolver, profiler })
        },
        Err(e) => Err(e),
    }
}

/// Builds the table of contents where `toc_path` names the emulated table of
/// contents and a tree was collected; nothing otherwise, and nothing where
/// the build fails.
pub fn build_table_of_contents(
    root: Option<&TocDirectory>,
    toc_path: &str,
    contents: &Vec<Option<Vec<u8>>>,
) -> (r: Option<BuiltToc>)
    ensures
        r is Some <==> file_name_of(toc_path@) == TARGET_TOC@ && root is Some && tree_toc(
            root->0@,
            contents_view(contents@),
        ) is Ok,
        r is Some ==> ({
            let resolved = tree_toc(root->0@, contents_view(contents@))->Ok_0;
            let built = r->0;
            &&& built.toc@ == resolved.toc
            &&& built.resolver.flat() == resolved.flat
            &&& built.resolver.layout() == resolved.layout
            &&& built.resolver.container_header_bytes@ == resolved.container_header
        }),
{
    if !str_eq(file_name(toc_path), TARGET_TOC) {
        return None;
    }
    match root {
        Some(tree) => match build_table_of_contents_inner(tree, toc_path, contents) {
            Ok(built) => Some(built),
            Err(_) => None,
        },
        None => None,
    }
}

/// The source paths of the files whose contents a build for `toc_path`
/// wants, in the order in which it wants them. Nothing where `toc_path` does
/// not name the emulated table of contents, where no tree was collected, or
/// where the tree is too large to be flattened.
pub fn requested_paths(root: Option<&TocDirectory>, toc_path: &str) -> (r: Option<Vec<String>>)
    ensures
        r is Some <==> file_name_of(toc_path@) == TARGET_TOC@ && root is Some && flat_tree(
            root->0@,
        ).fits(),
        r is Some ==> string_views(r->0@) == source_paths_of(flat_tree(root->0@)),
{
    if !str_eq(file_name(toc_path), TARGET_TOC) {
        return None;
    }
    match root {
        Some(tree) => match source_paths(tree) {
            Ok(paths) => Some(paths),
            Err(_) => None,
        },
        None => None,
    }
}

/// The bytes that a package contributes to the partition. Where merging is
/// asked for and the package has export data of at least four bytes, they are
/// the package's own bytes followed by the export data without its last four
/// bytes; otherwise the package's own bytes.
pub open spec fn effective_bytes(content: Seq<u8>, companion: Option<Seq<u8>>, merge: bool) -> Seq<
    u8,
> {
    match companion {
        Some(data) => if merge && data.len() >= 4 {
            content + data.take(data.len() - 4)
        } else {
            content
        },
        None => content,
    }
}

/// The bytes that a package contributes to the partition.
pub fn effective_content(content: Vec<u8>, companion: Option<&Vec<u8>>, merge: bool) -> (r: Vec<u8>)
    ensures
        r@ == effective_bytes(
            content@,
            match companion {
                Some(data) => Some(data@),
                None => None,
            },
            merge,
        ),
{
    match companion {
        Some(data) => {
            if merge && data.len() >= 4 {
                let mut all = content;
                let kept = slice_subrange(data.as_slice(), 0, data.len() - 4);
                write_bytes(&mut all, kept);
                proof {
                    assert(kept@ =~= data@.take(data@.len() - 4));
                }
                all
            } else {
                content
            }
        },
        None => content,
    }
}

/// The path of the export data that belongs to the package at `os_path`: the
/// same path with the extension `uexp`. A file that is no package has none.
pub open spec fn companion_path_of(os_path: Seq<char>) -> Option<Seq<char>> {
    if chunk_type_of(os_path) == Some(IoChunkType4::ExportBundleData) {
        Some(os_path.take(os_path.len() - 6) + "uexp"@)
    } else {
        None
    }
}

/// The path of the export data that belongs to the package at `os_path`.
pub fn companion_path(os_path: &str) -> (r: Option<String>)
    ensures
        match r {
            Some(path) => companion_path_of(os_path@) == Some(path@),
            None => companion_path_of(os_path@) is None,
        },
{
    match chunk_type_for(os_path) {
        Some(IoChunkType4::ExportBundleData) => {
            let chars = to_chars(os_path);
            let n = chars.len();
            proof {
                reveal_strlit("uasset");
                let name = file_name_of(os_path@);
                name.index_of_last_ensures('.');
                lemma_last_separator_range(os_path@);
                assert(extension_of(name)->0.len() == 6);
                assert(n >= 6);
            }
            if n < 6 {
                return None;
            }
            let stem = os_path.substring_char(0, n - 6);
            let mut path = String::from_str(stem);
            path.append("uexp");
            proof {
                assert(os_path@.subrange(0, n - 6) =~= os_path@.take(n - 6));
            }
            Some(path)
        },
        _ => None,
    }
}

/// What became of a request for the layout of the partition.
#[derive(Debug, Clone, Copy, PartialEq, Eq, Structural)]
pub enum PartitionStatus {
    /// The layout was handed out.
    Successful,
    /// The path does not name the emulated partition.
    IncorrectFile,
    /// No table of contents was built yet.
    CalledBeforeToc,
}

impl PartitionStatus {
    /// The number that the host knows the status by.
    pub open spec fn code(self) -> u32 {
        match self {
            PartitionStatus::Successful => 0,
            PartitionStatus::IncorrectFile => 1,
            PartitionStatus::CalledBeforeToc => 2,
        }
    }
}

impl From<PartitionStatus> for u32 {
    fn from(value: PartitionStatus) -> (r: u32) {
        match value {
            PartitionStatus::Successful => 0,
            PartitionStatus::IncorrectFile => 1,
            PartitionStatus::CalledBeforeToc => 2,
        }
    }
}

impl FromSpecImpl<PartitionStatus> for u32 {
    open spec fn obeys_from_spec() -> bool {
        true
    }

    open spec fn from_spec(value: PartitionStatus) -> u32 {
        value.code()
    }
}

/// The layout of the emulated partition, as the last build left it: one
/// block for each chunk, in the order of the chunks. Nothing is handed out
/// where `cas_path` names another file or no build was made.
pub fn get_virtual_partition(cas_path: &str, built: Option<&TocResolver>) -> (r: (
    Vec<PartitionBlock>,
    PartitionStatus,
))
    ensures
        r.1 == if file_name_of(cas_path@) != TARGET_CAS@ {
            PartitionStatus::IncorrectFile
        } else if built is None {
            PartitionStatus::CalledBeforeToc
        } else {
            PartitionStatus::Successful
        },
        partition_views(r.0@) == if r.1 == PartitionStatus::Successful {
            partition_views(built->0.partition_blocks@)
        } else {
            Seq::<PartitionBlockView>::empty()
        },
{
    let mut blocks: Vec<PartitionBlock> = Vec::new();
    proof {
        assert(partition_views(blocks@) =~= Seq::<PartitionBlockView>::empty());
    }
    if !str_eq(file_name(cas_path), TARGET_CAS) {
        return (blocks, PartitionStatus::IncorrectFile);
    }
    match built {
        Some(resolver) => {
            let ghost wanted = partition_views(resolver.partition_blocks@);
            let n = resolver.partition_blocks.len();
            let mut i: usize = 0;
            while i < n
                invariant
                    n == resolver.partition_blocks@.len(),
                    wanted == partition_views(resolver.partition_blocks@),
                    i <= n,
                    partition_views(blocks@) == wanted.take(i as int),
                decreases n - i,
            {
                let block = &resolver.partition_blocks[i];
                let ghost before = partition_views(blocks@);
                blocks.push(
                    PartitionBlock {
                        source_path: block.source_path.clone(),
                        source_start: block.source_start,
                        length: block.length,
                        virtual_offset: block.virtual_offset,
                    },
                );
                proof {
                    assert(wanted[i as int] == block@);
                    assert(partition_views(blocks@) =~= before.push(block@));
                    assert(wanted.take(i + 1) =~= wanted.take(i as int).push(wanted[i as int]));
                }
                i = i + 1;
            }
            proof {
                assert(wanted.take(n as int) =~= wanted);
            }
            (blocks, PartitionStatus::Successful)
        },
        None => (blocks, PartitionStatus::CalledBeforeToc),
    }
}

/// Two trees with the same directories and files, however they were put
/// together, have the same table of contents, byte for byte.
pub proof fn lemma_same_tree_same_toc(
    first: TocDirectory,
    second: TocDirectory,
    contents: Seq<Option<Seq<u8>>>,
)
    requires
        first@ == second@,
    ensures
        tree_toc(first@, contents) == tree_toc(second@, contents),
        tree_toc(first@, contents) is Ok ==> tree_toc(first@, contents)->Ok_0.toc == tree_toc(
            second@,
            contents,
        )->Ok_0.toc,
{
}

/// The fields of the header of a table of contents that tell the number of
/// chunks and the number of compression blocks.
pub proof fn lemma_toc_header_counts(
    container_id: u64,
    entries: u32,
    blocks: u32,
    dir_index_size: u32,
)
    ensures
        toc_header_bytes(container_id, entries, blocks, dir_index_size).len() == 144,
        toc_header_bytes(container_id, entries, blocks, dir_index_size).subrange(24, 28)
            == uint_le_bytes(entries as nat, 4),
        toc_header_bytes(container_id, entries, blocks, dir_index_size).subrange(28, 32)
            == uint_le_bytes(blocks as nat, 4),
        toc_header_bytes(container_id, entries, blocks, dir_index_size).subrange(88, 96)
            == uint_le_bytes(u64::MAX as nat, 8),
{
    let all = toc_header_bytes(container_id, entries, blocks, dir_index_size);
    lemma_uint_bytes_len(3, 1);
    lemma_uint_bytes_len(144, 4);
    lemma_uint_bytes_len(entries as nat, 4);
    lemma_uint_bytes_len(blocks as nat, 4);
    lemma_uint_bytes_len(12, 4);
    lemma_uint_bytes_len(0, 4);
    lemma_uint_bytes_len(COMPRESSION_BLOCK_SIZE as nat, 4);
    lemma_uint_bytes_len(dir_index_size as nat, 4);
    lemma_uint_bytes_len(1, 4);
    lemma_uint_bytes_len(container_id as nat, 8);
    lemma_uint_bytes_len(0, 8);
    lemma_uint_bytes_len(8, 1);
    lemma_uint_bytes_len(u64::MAX as nat, 8);
    assert(all.subrange(24, 28) =~= uint_le_bytes(entries as nat, 4));
    assert(all.subrange(28, 32) =~= uint_le_bytes(blocks as nat, 4));
    assert(all.subrange(88, 96) =~= uint_le_bytes(u64::MAX as nat, 8));
}

/// In every table of contents that is built, the lists of chunk identities,
/// of offsets and lengths, of metas and of partition blocks have one entry
/// for each file and one for the container header, and the header of the
/// table tells that number as its count of chunks. The list of compression
/// blocks has as many entries as the chunks take blocks, which the header
/// tells as well.
pub proof fn lemma_chunk_counts(
    flat: FlatToc,
    contents: Seq<Option<Seq<u8>>>,
    project: Seq<char>,
    container_id: u64,
)
    requires
        resolve(flat, contents, project, container_id) is Ok,
    ensures
        ({
            let r = resolve(flat, contents, project, container_id)->Ok_0;
            let chunks = r.flat.files.len() + 1;
            &&& r.layout.chunk_ids.len() == chunks
            &&& r.layout.offsets_and_lengths.len() == chunks
            &&& r.layout.metas.len() == chunks
            &&& r.layout.partition.len() == chunks
            &&& chunks <= u32::MAX
            &&& r.toc.subrange(24, 28) == uint_le_bytes(chunks as nat, 4)
            &&& r.layout.compression_blocks.len() == blocks_before(
                kept_contents(contents, flat.files.len() as int),
                r.flat.files.len() as int,
            ) + 1
            &&& r.layout.compression_blocks.len() <= u32::MAX
            &&& r.toc.subrange(28, 32) == uint_le_bytes(r.layout.compression_blocks.len(), 4)
        }),
{
    let r = resolve(flat, contents, project, container_id)->Ok_0;
    let pruned = prune(flat, contents);
    let kept = kept_contents(contents, flat.files.len() as int);
    lemma_layout_files(pruned.files, kept, project, pruned.files.len() as int);
    let header = toc_header_bytes(
        container_id,
        r.layout.chunk_ids.len() as u32,
        r.layout.compression_blocks.len() as u32,
        directory_index_bytes(pruned).len() as u32,
    );
    lemma_toc_header_counts(
        container_id,
        r.layout.chunk_ids.len() as u32,
        r.layout.compression_blocks.len() as u32,
        directory_index_bytes(pruned).len() as u32,
    );
    assert(r.toc.subrange(24, 28) =~= header.subrange(24, 28));
    assert(r.toc.subrange(28, 32) =~= header.subrange(28, 32));
}

/// Where no file is longer than a compression block, the list of compression
/// blocks is as long as the other lists.
pub proof fn lemma_chunk_counts_single_blocks(
    flat: FlatToc,
    contents: Seq<Option<Seq<u8>>>,
    project: Seq<char>,
    container_id: u64,
)
    requires
        resolve(flat, contents, project, container_id) is Ok,
        forall|i: int|
            0 <= i < flat.files.len() && is_usable(contents, i) ==> (#[trigger] content_at(
                contents,
                i,
            ))->0.len() <= COMPRESSION_BLOCK_SIZE,
    ensures
        ({
            let r = resolve(flat, contents, project, container_id)->Ok_0;
            r.layout.compression_blocks.len() == r.layout.chunk_ids.len()
        }),
{
    let r = resolve(flat, contents, project, container_id)->Ok_0;
    let n = flat.files.len() as int;
    let kept = kept_contents(contents, n);
    lemma_chunk_counts(flat, contents, project, container_id);
    lemma_pruned_len(flat.files, contents, n);
    lemma_kept_contents_bound(contents, n, COMPRESSION_BLOCK_SIZE as nat);
    lemma_blocks_before_single(kept, kept.len() as int);
}

/// In every table of contents that is built, the chunk of file `k` starts
/// on a multiple of the compression block size: on the block that follows
/// the blocks of the files before it. It takes as many blocks as its length
/// needs, at least one, and the next chunk starts on the block after them.
pub proof fn lemma_chunk_offsets(
    flat: FlatToc,
    contents: Seq<Option<Seq<u8>>>,
    project: Seq<char>,
    container_id: u64,
    k: int,
)
    requires
        resolve(flat, contents, project, container_id) is Ok,
        0 <= k < resolve(flat, contents, project, container_id)->Ok_0.flat.files.len(),
    ensures
        ({
            let r = resolve(flat, contents, project, container_id)->Ok_0;
            let this = r.layout.offsets_and_lengths[k];
            let next = r.layout.offsets_and_lengths[k + 1];
            &&& this.offset % COMPRESSION_BLOCK_SIZE as u64 == 0
            &&& this.length == kept_contents(contents, flat.files.len() as int)[k].len()
            &&& next.offset == this.offset + block_count(this.length as nat)
                * COMPRESSION_BLOCK_SIZE
            &&& this.length > 0 ==> block_count(this.length as nat) == (this.length
                + COMPRESSION_BLOCK_SIZE - 1) / COMPRESSION_BLOCK_SIZE as int
            &&& this.length == 0 ==> block_count(this.length as nat) == 1
            &&& this.offset / COMPRESSION_BLOCK_SIZE as u64 + block_count(this.length as nat)
                <= r.layout.compression_blocks.len()
        }),
{
    let r = resolve(flat, contents, project, container_id)->Ok_0;
    let pruned = prune(flat, contents);
    let kept = kept_contents(contents, flat.files.len() as int);
    let n = pruned.files.len() as int;
    lemma_layout_files(pruned.files, kept, project, n);
    let acc = layout_files(pruned.files, kept, project, n)->Ok_0;
    assert(r.layout.offsets_and_lengths[k] == acc.offsets_and_lengths[k]);
    lemma_blocks_before_grows(kept, k + 1, n);
    if k + 1 < n {
        assert(r.layout.offsets_and_lengths[k + 1] == acc.offsets_and_lengths[k + 1]);
    }
    let b = blocks_before(kept, k);
    assert((b * COMPRESSION_BLOCK_SIZE) % (COMPRESSION_BLOCK_SIZE as int) == 0)
        by (nonlinear_arith);
    assert((b * COMPRESSION_BLOCK_SIZE) / (COMPRESSION_BLOCK_SIZE as int) == b)
        by (nonlinear_arith);
}

/// In every table of contents that is built, the compression blocks of file
/// `k` follow one another in the list of compression blocks from the block on
/// which the file's chunk starts. Block `b` lies `b` blocks after the place of
/// the file in the partition and holds a full block, or what is left for the
/// last one.
pub proof fn lemma_chunk_blocks(
    flat: FlatToc,
    contents: Seq<Option<Seq<u8>>>,
    project: Seq<char>,
    container_id: u64,
    k: int,
    b: int,
)
    requires
        resolve(flat, contents, project, container_id) is Ok,
        0 <= k < resolve(flat, contents, project, container_id)->Ok_0.flat.files.len(),
        0 <= b < block_count(
            resolve(
                flat,
                contents,
                project,
                container_id,
            )->Ok_0.layout.offsets_and_lengths[k].length as nat,
        ),
    ensures
        ({
            let r = resolve(flat, contents, project, container_id)->Ok_0;
            let this = r.layout.offsets_and_lengths[k];
            let at = this.offset / COMPRESSION_BLOCK_SIZE as u64 + b;
            &&& at < r.layout.compression_blocks.len()
            &&& r.layout.compression_blocks[at].offset == r.layout.partition[k].virtual_offset + b
                * COMPRESSION_BLOCK_SIZE
            &&& r.layout.compression_blocks[at].size == block_size_at(this.length as nat, b)
        }),
{
    let r = resolve(flat, contents, project, container_id)->Ok_0;
    let pruned = prune(flat, contents);
    let kept = kept_contents(contents, flat.files.len() as int);
    let n = pruned.files.len() as int;
    lemma_chunk_offsets(flat, contents, project, container_id, k);
    lemma_layout_files(pruned.files, kept, project, n);
    let acc = layout_files(pruned.files, kept, project, n)->Ok_0;
    assert(r.layout.offsets_and_lengths[k] == acc.offsets_and_lengths[k]);
    assert(r.layout.partition[k] == acc.partition[k]);
    lemma_layout_blocks(pruned.files, kept, project, n, k, b);
    let before = blocks_before(kept, k);
    assert((before * COMPRESSION_BLOCK_SIZE) / (COMPRESSION_BLOCK_SIZE as int) == before)
        by (nonlinear_arith);
    assert(r.layout.compression_blocks[before + b] == acc.compression_blocks[before + b]);
}

/// In every table of contents that is built, the meta of file `k` holds the
/// SHA-1 of the bytes that the file contributes to the partition, and the
/// partition block of the file tells where those bytes go and where they
/// come from.
pub proof fn lemma_meta_hashes(
    flat: FlatToc,
    contents: Seq<Option<Seq<u8>>>,
    project: Seq<char>,
    container_id: u64,
    k: int,
)
    requires
        resolve(flat, contents, project, container_id) is Ok,
        0 <= k < resolve(flat, contents, project, container_id)->Ok_0.flat.files.len(),
    ensures
        ({
            let r = resolve(flat, contents, project, container_id)->Ok_0;
            let content = kept_contents(contents, flat.files.len() as int)[k];
            &&& r.layout.metas[k].hash == sha1_digest(content) + zero_bytes(12)
            &&& r.layout.metas[k].flags == 0
            &&& r.layout.partition[k].length == content.len()
            &&& r.layout.partition[k].source_path == r.flat.files[k].os_path
            &&& r.layout.partition[k].source_start == 0
        }),
{
    let r = resolve(flat, contents, project, container_id)->Ok_0;
    let pruned = prune(flat, contents);
    let kept = kept_contents(contents, flat.files.len() as int);
    let n = pruned.files.len() as int;
    lemma_layout_files(pruned.files, kept, project, n);
    let acc = layout_files(pruned.files, kept, project, n)->Ok_0;
    assert(r.layout.metas[k] == acc.metas[k]);
    assert(r.layout.partition[k] == acc.partition[k]);
}

} // verus!
