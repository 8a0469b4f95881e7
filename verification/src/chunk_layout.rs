//! The chunk records of a container and the places of the chunks in the
//! partition.
//!
//! Every file becomes a chunk. In the container's uncompressed address space a
//! chunk starts on a multiple of the compression block size; in the partition
//! its content starts on a multiple of the block alignment. The container
//! header is the last chunk.

use crate::io_toc::{
    file_entry_views, meta_views, padding_to, ContainerHeader, ContainerHeaderPackage,
    ContainerHeaderPackageView, ContainerHeaderView, IoChunkId, IoChunkType4, IoFileIndexEntry,
    IoFileIndexEntryView, IoOffsetAndLength, IoStoreTocCompressedBlockEntry, IoStoreTocEntryMeta,
    IoStoreTocEntryMetaView, IO_COMPRESSED_BLOCK_LENGTH_MAX, IO_OFFSET_LENGTH_MAX,
};
use crate::partition::{
    extension_of, file_extension, file_name, file_name_of, split_after, suffix_after,
};
use crate::serialize::zero_bytes;
use crate::string::{name_hash, str_eq};
use crate::toc_factory::{
    partition_views, PartitionBlock, PartitionBlockView, TocBuildError, COMPRESSION_BLOCK_ALIGNMENT,
    COMPRESSION_BLOCK_SIZE,
};
use crate::usable_files::{
    contents_view, kept_before, kept_contents, lemma_kept_before_monotone, lemma_kept_content,
    lemma_pruned_len, usable_content,
};
use vstd::prelude::*;
use vstd::string::StringExecFns;

verus! {

/// The chunk records of a container and the layout of its partition, as
/// mathematical sequences.
pub struct TocLayout {
    pub chunk_ids: Seq<IoChunkId>,
    pub offsets_and_lengths: Seq<IoOffsetAndLength>,
    pub compression_blocks: Seq<IoStoreTocCompressedBlockEntry>,
    pub metas: Seq<IoStoreTocEntryMetaView>,
    pub partition: Seq<PartitionBlockView>,
    /// The store entries of the packages met so far.
    pub packages: Seq<ContainerHeaderPackageView>,
    /// Where the next chunk goes in the partition.
    pub cursor: nat,
}

impl TocLayout {
    /// No chunk yet.
    pub open spec fn empty() -> TocLayout {
        TocLayout {
            chunk_ids: Seq::empty(),
            offsets_and_lengths: Seq::empty(),
            compression_blocks: Seq::empty(),
            metas: Seq::empty(),
            partition: Seq::empty(),
            packages: Seq::empty(),
            cursor: 0,
        }
    }

    /// Every chunk has one record in each list but that of the compression
    /// blocks, where it has at least one, and every number fits its field.
    pub open spec fn records_wf(self) -> bool {
        &&& self.offsets_and_lengths.len() == self.chunk_ids.len()
        &&& self.metas.len() == self.chunk_ids.len()
        &&& self.partition.len() == self.chunk_ids.len()
        &&& self.packages.len() <= self.chunk_ids.len()
        &&& self.compression_blocks.len() >= self.chunk_ids.len()
        &&& forall|i: int|
            0 <= i < self.offsets_and_lengths.len() ==> (
            #[trigger] self.offsets_and_lengths[i]).wf()
        &&& forall|i: int|
            0 <= i < self.compression_blocks.len() ==> (#[trigger] self.compression_blocks[i]).wf()
    }

    /// The records are well-formed and the next chunk goes to an aligned
    /// place.
    pub open spec fn wf(self) -> bool {
        &&& self.records_wf()
        &&& self.cursor % (COMPRESSION_BLOCK_ALIGNMENT as nat) == 0
        &&& self.cursor <= IO_OFFSET_LENGTH_MAX + COMPRESSION_BLOCK_ALIGNMENT
    }
}

/// The number of compression blocks that a chunk of `length` bytes takes: as
/// many as are needed to hold it, and one for an empty chunk.
pub open spec fn block_count(length: nat) -> nat {
    if length == 0 {
        1
    } else {
        ((length + COMPRESSION_BLOCK_SIZE - 1) / (COMPRESSION_BLOCK_SIZE as int)) as nat
    }
}

/// The number of bytes in block `k` of a chunk of `length` bytes: a full
/// block, or what is left for the last one.
pub open spec fn block_size_at(length: nat, k: int) -> nat {
    if length - k * COMPRESSION_BLOCK_SIZE >= COMPRESSION_BLOCK_SIZE {
        COMPRESSION_BLOCK_SIZE as nat
    } else {
        (length - k * COMPRESSION_BLOCK_SIZE) as nat
    }
}

/// The first `upto` compression blocks of a chunk of `length` bytes that
/// stands at `cursor` in the partition. Each block starts where the one
/// before it ends.
pub open spec fn file_blocks(cursor: nat, length: nat, upto: int) -> Seq<
    IoStoreTocCompressedBlockEntry,
>
    decreases upto,
{
    if upto <= 0 {
        Seq::empty()
    } else {
        file_blocks(cursor, length, upto - 1).push(
            IoStoreTocCompressedBlockEntry {
                offset: (cursor + (upto - 1) * COMPRESSION_BLOCK_SIZE) as u64,
                size: block_size_at(length, upto - 1) as u32,
            },
        )
    }
}

/// The least multiple of `align` that is not below `v`.
pub open spec fn align_up(v: nat, align: nat) -> nat {
    (((v + align - 1) / (align as int)) * align) as nat
}

/// The directory under the project's root whose content the game mounts.
pub open spec fn content_dir() -> Seq<char> {
    "/Content"@
}

/// The path under which the game mounts the project's content.
pub open spec fn game_root() -> Seq<char> {
    "/Game"@
}

/// The path under which the game knows the asset with hash path `hash_path`:
/// what follows the first occurrence of the project's content directory, put
/// under the game's root. A path outside the content directory has none.
pub open spec fn game_path(hash_path: Seq<char>, project: Seq<char>) -> Option<Seq<char>> {
    match suffix_after(hash_path, project + content_dir()) {
        Some(rest) => Some(game_root() + rest),
        None => None,
    }
}

/// The chunk type of the file at `os_path`, told by its extension.
pub open spec fn chunk_type_of(os_path: Seq<char>) -> Option<IoChunkType4> {
    match extension_of(file_name_of(os_path)) {
        Some(ext) => if ext == "uasset"@ {
            Some(IoChunkType4::ExportBundleData)
        } else if ext == "ubulk"@ {
            Some(IoChunkType4::BulkData)
        } else if ext == "uptnl"@ {
            Some(IoChunkType4::OptionalBulkData)
        } else {
            None
        },
        None => None,
    }
}

/// The identity of the chunk of a file: the name hash of its game path and
/// the chunk type of its extension.
pub open spec fn chunk_id_of(file: IoFileIndexEntryView, project: Seq<char>) -> Result<
    IoChunkId,
    TocBuildError,
> {
    match chunk_type_of(file.os_path) {
        None => Err(TocBuildError::UnsupportedFileType),
        Some(obj_type) => match game_path(file.hash_path, project) {
            None => Err(TocBuildError::MissingContentRoot),
            Some(path) => Ok(IoChunkId { hash: name_hash(path), index: 0, obj_type }),
        },
    }
}

/// The layout after the chunk of one file was added. The chunk starts on the
/// block after the last one taken and takes as many blocks as its content
/// needs. In the partition the content stands at the cursor, which then moves
/// on to the next aligned place. A package also gets its store entry.
pub open spec fn layout_file(
    acc: TocLayout,
    file: IoFileIndexEntryView,
    content: Seq<u8>,
    project: Seq<char>,
) -> Result<TocLayout, TocBuildError> {
    match chunk_id_of(file, project) {
        Err(e) => Err(e),
        Ok(id) => {
            let offset = acc.compression_blocks.len() * COMPRESSION_BLOCK_SIZE;
            let length = content.len();
            if offset > IO_OFFSET_LENGTH_MAX || acc.cursor + length > IO_OFFSET_LENGTH_MAX {
                Err(TocBuildError::LayoutOverflow)
            } else {
                Ok(
                    TocLayout {
                        chunk_ids: acc.chunk_ids.push(id),
                        offsets_and_lengths: acc.offsets_and_lengths.push(
                            IoOffsetAndLength { offset: offset as u64, length: length as u64 },
                        ),
                        compression_blocks: acc.compression_blocks + file_blocks(
                            acc.cursor,
                            length,
                            block_count(length) as int,
                        ),
                        metas: acc.metas.push(IoStoreTocEntryMetaView::of_content(content)),
                        partition: acc.partition.push(
                            PartitionBlockView {
                                source_path: file.os_path,
                                source_start: 0,
                                length: length as u64,
                                virtual_offset: acc.cursor as u64,
                            },
                        ),
                        packages: if id.obj_type == IoChunkType4::ExportBundleData {
                            acc.packages.push(
                                ContainerHeaderPackageView::from_content(
                                    content,
                                    id.hash,
                                    length as u64,
                                ),
                            )
                        } else {
                            acc.packages
                        },
                        cursor: align_up(
                            acc.cursor + length,
                            COMPRESSION_BLOCK_ALIGNMENT as nat,
                        ),
                    },
                )
            }
        },
    }
}

/// The layout after the chunks of the first `upto` files were added, each
/// with its content.
pub open spec fn layout_files(
    files: Seq<IoFileIndexEntryView>,
    contents: Seq<Seq<u8>>,
    project: Seq<char>,
    upto: int,
) -> Result<TocLayout, TocBuildError>
    decreases upto,
{
    if upto <= 0 {
        Ok(TocLayout::empty())
    } else {
        match layout_files(files, contents, project, upto - 1) {
            Err(e) => Err(e),
            Ok(acc) => layout_file(acc, files[upto - 1], contents[upto - 1], project),
        }
    }
}

/// The layout after the container header was added as the last chunk, and
/// the bytes of that chunk, filled up with zeros to a multiple of 16. The
/// chunk takes a single compression block, whatever its length, and no hash
/// is kept of it.
pub open spec fn layout_header(acc: TocLayout, container_id: u64) -> Result<
    (TocLayout, Seq<u8>),
    TocBuildError,
> {
    let header = ContainerHeaderView { container_id, packages: acc.packages };
    let offset = acc.compression_blocks.len() * COMPRESSION_BLOCK_SIZE;
    if !header.fits() || header.spec_bytes().len() > IO_COMPRESSED_BLOCK_LENGTH_MAX || offset
        > IO_OFFSET_LENGTH_MAX || acc.cursor > IO_OFFSET_LENGTH_MAX {
        Err(TocBuildError::LayoutOverflow)
    } else {
        let bytes = header.spec_bytes();
        let padded = bytes + zero_bytes(padding_to(bytes.len() as int, 16));
        Ok(
            (
                TocLayout {
                    chunk_ids: acc.chunk_ids.push(
                        IoChunkId {
                            hash: container_id,
                            index: 0,
                            obj_type: IoChunkType4::ContainerHeader,
                        },
                    ),
                    offsets_and_lengths: acc.offsets_and_lengths.push(
                        IoOffsetAndLength { offset: offset as u64, length: bytes.len() as u64 },
                    ),
                    compression_blocks: acc.compression_blocks.push(
                        IoStoreTocCompressedBlockEntry {
                            offset: acc.cursor as u64,
                            size: bytes.len() as u32,
                        },
                    ),
                    metas: acc.metas.push(IoStoreTocEntryMetaView::empty()),
                    partition: acc.partition.push(
                        PartitionBlockView {
                            source_path: Seq::empty(),
                            source_start: 0,
                            length: padded.len() as u64,
                            virtual_offset: acc.cursor as u64,
                        },
                    ),
                    packages: acc.packages,
                    cursor: acc.cursor + padded.len(),
                },
                padded,
            ),
        )
    }
}

/// The number of compression blocks that the first `upto` contents take.
pub open spec fn blocks_before(contents: Seq<Seq<u8>>, upto: int) -> nat
    decreases upto,
{
    if upto <= 0 {
        0
    } else {
        blocks_before(contents, upto - 1) + block_count(contents[upto - 1].len())
    }
}

/// A newly laid out chunk keeps the layout well-formed.
pub proof fn lemma_layout_file_wf(
    acc: TocLayout,
    file: IoFileIndexEntryView,
    content: Seq<u8>,
    project: Seq<char>,
)
    requires
        acc.wf(),
        layout_file(acc, file, content, project) is Ok,
    ensures
        layout_file(acc, file, content, project)->Ok_0.wf(),
        layout_file(acc, file, content, project)->Ok_0.chunk_ids.len() == acc.chunk_ids.len() + 1,
        layout_file(acc, file, content, project)->Ok_0.compression_blocks.len()
            == acc.compression_blocks.len() + block_count(content.len()),
{
    let next = layout_file(acc, file, content, project)->Ok_0;
    let length = content.len();
    let count = block_count(length) as int;
    lemma_file_blocks(acc.cursor, length, count);
    let blocks = file_blocks(acc.cursor, length, count);
    assert forall|i: int| 0 <= i < next.compression_blocks.len() implies (
    #[trigger] next.compression_blocks[i]).wf() by {
        if i >= acc.compression_blocks.len() {
            assert(next.compression_blocks[i] == blocks[i - acc.compression_blocks.len()]);
        } else {
            assert(next.compression_blocks[i] == acc.compression_blocks[i]);
        }
    }
    assert forall|i: int| 0 <= i < next.offsets_and_lengths.len() implies (
    #[trigger] next.offsets_and_lengths[i]).wf() by {
        if i < acc.offsets_and_lengths.len() {
            assert(next.offsets_and_lengths[i] == acc.offsets_and_lengths[i]);
        }
    }
    lemma_align_up(acc.cursor + length, COMPRESSION_BLOCK_ALIGNMENT as nat);
}

/// What is known of the least multiple not below a number.
pub proof fn lemma_align_up(v: nat, align: nat)
    requires
        align > 0,
    ensures
        align_up(v, align) % align == 0,
        v <= align_up(v, align) < v + align,
{
    let q = (v + align - 1) / (align as int);
    assert(q * align <= v + align - 1 < q * align + align) by (nonlinear_arith)
        requires
            q == (v + align - 1) / (align as int),
            align > 0,
    ;
    assert((q * align) % (align as int) == 0) by (nonlinear_arith)
        requires
            align > 0,
    ;
}

/// The blocks of a chunk: as many as asked for, each within the chunk and of
/// a size that fits its field.
pub proof fn lemma_file_blocks(cursor: nat, length: nat, upto: int)
    requires
        0 <= upto <= block_count(length),
        cursor + length <= IO_OFFSET_LENGTH_MAX,
    ensures
        file_blocks(cursor, length, upto).len() == upto,
        forall|k: int|
            0 <= k < upto ==> {
                let block = #[trigger] file_blocks(cursor, length, upto)[k];
                &&& block.wf()
                &&& block.offset == cursor + k * COMPRESSION_BLOCK_SIZE
                &&& block.size == block_size_at(length, k)
                &&& block.size <= COMPRESSION_BLOCK_SIZE
                &&& k * COMPRESSION_BLOCK_SIZE <= length
            },
    decreases upto,
{
    if upto > 0 {
        lemma_file_blocks(cursor, length, upto - 1);
        let front = file_blocks(cursor, length, upto - 1);
        let all = file_blocks(cursor, length, upto);
        assert forall|k: int| 0 <= k < upto implies {
            let block = #[trigger] all[k];
            &&& block.wf()
            &&& block.offset == cursor + k * COMPRESSION_BLOCK_SIZE
            &&& block.size == block_size_at(length, k)
            &&& block.size <= COMPRESSION_BLOCK_SIZE
            &&& k * COMPRESSION_BLOCK_SIZE <= length
        } by {
            if k < upto - 1 {
                assert(all[k] == front[k]);
            }
        }
    }
}

/// Once the layout of some files has failed, the layout of more files fails
/// in the same way.
pub proof fn lemma_layout_files_err(
    files: Seq<IoFileIndexEntryView>,
    contents: Seq<Seq<u8>>,
    project: Seq<char>,
    reached: int,
    upto: int,
)
    requires
        reached <= upto,
    ensures
        layout_files(files, contents, project, reached) is Err ==> layout_files(
            files,
            contents,
            project,
            upto,
        ) == layout_files(files, contents, project, reached),
    decreases upto - reached,
{
    if reached < upto {
        lemma_layout_files_err(files, contents, project, reached, upto - 1);
    }
}

/// What the layout of the first `upto` files holds for each of them: the
/// identity of its chunk, the block on which the chunk starts and its length,
/// the hash of its content, and where the content is found.
pub proof fn lemma_layout_files(
    files: Seq<IoFileIndexEntryView>,
    contents: Seq<Seq<u8>>,
    project: Seq<char>,
    upto: int,
)
    requires
        0 <= upto,
        layout_files(files, contents, project, upto) is Ok,
    ensures
        ({
            let l = layout_files(files, contents, project, upto)->Ok_0;
            &&& l.wf()
            &&& l.chunk_ids.len() == upto
            &&& l.compression_blocks.len() == blocks_before(contents, upto)
            &&& forall|k: int|
                0 <= k < upto ==> (#[trigger] l.offsets_and_lengths[k]).offset == blocks_before(
                    contents,
                    k,
                ) * COMPRESSION_BLOCK_SIZE && l.offsets_and_lengths[k].length
                    == contents[k].len()
            &&& forall|k: int|
                0 <= k < upto ==> #[trigger] l.metas[k] == IoStoreTocEntryMetaView::of_content(
                    contents[k],
                )
            &&& forall|k: int|
                0 <= k < upto ==> (#[trigger] l.partition[k]).source_path == files[k].os_path
                    && l.partition[k].source_start == 0 && l.partition[k].length
                    == contents[k].len() && l.partition[k].virtual_offset
                    % COMPRESSION_BLOCK_ALIGNMENT as u64 == 0
            &&& forall|k: int|
                0 <= k < upto ==> Ok::<IoChunkId, TocBuildError>(#[trigger] l.chunk_ids[k])
                    == chunk_id_of(files[k], project)
            &&& forall|k: int|
                0 <= k < upto ==> #[trigger] l.compression_blocks.subrange(
                    blocks_before(contents, k) as int,
                    blocks_before(contents, k + 1) as int,
                ) == file_blocks(
                    l.partition[k].virtual_offset as nat,
                    contents[k].len(),
                    block_count(contents[k].len()) as int,
                )
        }),
    decreases upto,
{
    if upto > 0 {
        let acc = layout_files(files, contents, project, upto - 1)->Ok_0;
        lemma_layout_files(files, contents, project, upto - 1);
        lemma_layout_file_wf(acc, files[upto - 1], contents[upto - 1], project);
        let l = layout_files(files, contents, project, upto)->Ok_0;
        assert forall|k: int| 0 <= k < upto implies #[trigger] l.compression_blocks.subrange(
            blocks_before(contents, k) as int,
            blocks_before(contents, k + 1) as int,
        ) == file_blocks(
            l.partition[k].virtual_offset as nat,
            contents[k].len(),
            block_count(contents[k].len()) as int,
        ) by {
            lemma_blocks_before_grows(contents, k + 1, upto);
            if k < upto - 1 {
                lemma_blocks_before_grows(contents, k + 1, upto - 1);
                assert(l.partition[k] == acc.partition[k]);
                assert(l.compression_blocks.subrange(
                    blocks_before(contents, k) as int,
                    blocks_before(contents, k + 1) as int,
                ) =~= acc.compression_blocks.subrange(
                    blocks_before(contents, k) as int,
                    blocks_before(contents, k + 1) as int,
                ));
            } else {
                lemma_file_blocks(
                    acc.cursor,
                    contents[k].len(),
                    block_count(contents[k].len()) as int,
                );
                assert(l.compression_blocks.subrange(
                    blocks_before(contents, k) as int,
                    blocks_before(contents, k + 1) as int,
                ) =~= file_blocks(
                    acc.cursor,
                    contents[k].len(),
                    block_count(contents[k].len()) as int,
                ));
            }
        }
        assert forall|k: int| 0 <= k < upto implies (#[trigger] l.offsets_and_lengths[k]).offset
            == blocks_before(contents, k) * COMPRESSION_BLOCK_SIZE && l.offsets_and_lengths[k].length
            == contents[k].len() by {
            if k < upto - 1 {
                assert(l.offsets_and_lengths[k] == acc.offsets_and_lengths[k]);
            }
        }
        assert forall|k: int| 0 <= k < upto implies #[trigger] l.metas[k]
            == IoStoreTocEntryMetaView::of_content(contents[k]) by {
            if k < upto - 1 {
                assert(l.metas[k] == acc.metas[k]);
            }
        }
        assert forall|k: int| 0 <= k < upto implies (#[trigger] l.partition[k]).source_path
            == files[k].os_path && l.partition[k].source_start == 0 && l.partition[k].length
            == contents[k].len() && l.partition[k].virtual_offset
            % COMPRESSION_BLOCK_ALIGNMENT as u64 == 0 by {
            if k < upto - 1 {
                assert(l.partition[k] == acc.partition[k]);
            }
        }
        assert forall|k: int| 0 <= k < upto implies Ok::<IoChunkId, TocBuildError>(
            #[trigger] l.chunk_ids[k],
        ) == chunk_id_of(files[k], project) by {
            if k < upto - 1 {
                assert(l.chunk_ids[k] == acc.chunk_ids[k]);
            }
        }
    }
}

/// Contents of at most one block each take one block each.
pub proof fn lemma_blocks_before_single(contents: Seq<Seq<u8>>, upto: int)
    requires
        0 <= upto <= contents.len(),
        forall|k: int| 0 <= k < contents.len() ==> (#[trigger] contents[k]).len()
            <= COMPRESSION_BLOCK_SIZE,
    ensures
        blocks_before(contents, upto) == upto,
    decreases upto,
{
    if upto > 0 {
        lemma_blocks_before_single(contents, upto - 1);
        assert(contents[upto - 1].len() <= COMPRESSION_BLOCK_SIZE);
    }
}

/// In the layout of the first `upto` files, block `b` of file `k` stands in
/// the list of compression blocks after the blocks of the files before: it
/// lies `b` blocks after the place of the file in the partition and holds a
/// full block, or what is left for the last one.
pub proof fn lemma_layout_blocks(
    files: Seq<IoFileIndexEntryView>,
    contents: Seq<Seq<u8>>,
    project: Seq<char>,
    upto: int,
    k: int,
    b: int,
)
    requires
        0 <= k < upto,
        layout_files(files, contents, project, upto) is Ok,
        0 <= b < block_count(contents[k].len()),
    ensures
        ({
            let l = layout_files(files, contents, project, upto)->Ok_0;
            let at = blocks_before(contents, k) + b;
            &&& at < l.compression_blocks.len()
            &&& l.compression_blocks[at].offset == l.partition[k].virtual_offset + b
                * COMPRESSION_BLOCK_SIZE
            &&& l.compression_blocks[at].size == block_size_at(contents[k].len(), b)
        }),
{
    let l = layout_files(files, contents, project, upto)->Ok_0;
    lemma_layout_files(files, contents, project, upto);
    lemma_blocks_before_grows(contents, k + 1, upto);
    let from = blocks_before(contents, k) as int;
    let to = blocks_before(contents, k + 1) as int;
    let own = l.compression_blocks.subrange(from, to);
    let count = block_count(contents[k].len()) as int;
    let start = l.partition[k].virtual_offset as nat;
    assert(own == file_blocks(start, contents[k].len(), count));
    assert(l.partition[k].length == contents[k].len());
    assert(l.offsets_and_lengths[k].wf());
    lemma_partition_fits(files, contents, project, upto, k);
    lemma_file_blocks(start, contents[k].len(), count);
    assert(own[b] == l.compression_blocks[from + b]);
}

/// In the layout of the first `upto` files, every file ends within what the
/// five-byte fields can address.
pub proof fn lemma_partition_fits(
    files: Seq<IoFileIndexEntryView>,
    contents: Seq<Seq<u8>>,
    project: Seq<char>,
    upto: int,
    k: int,
)
    requires
        0 <= k < upto,
        layout_files(files, contents, project, upto) is Ok,
    ensures
        layout_files(files, contents, project, upto)->Ok_0.partition[k].virtual_offset
            + contents[k].len() <= IO_OFFSET_LENGTH_MAX,
    decreases upto,
{
    let acc = layout_files(files, contents, project, upto - 1)->Ok_0;
    let l = layout_files(files, contents, project, upto)->Ok_0;
    lemma_layout_files(files, contents, project, upto - 1);
    if k < upto - 1 {
        lemma_partition_fits(files, contents, project, upto - 1, k);
        assert(l.partition[k] == acc.partition[k]);
    }
}

/// More contents take at least as many blocks.
pub proof fn lemma_blocks_before_grows(contents: Seq<Seq<u8>>, fewer: int, upto: int)
    requires
        fewer <= upto,
    ensures
        blocks_before(contents, fewer) <= blocks_before(contents, upto),
    decreases upto - fewer,
{
    if fewer < upto {
        lemma_blocks_before_grows(contents, fewer, upto - 1);
    }
}

/// The chunk type of the file at `os_path`, told by its extension.
pub fn chunk_type_for(os_path: &str) -> (r: Option<IoChunkType4>)
    ensures
        r == chunk_type_of(os_path@),
{
    match file_extension(file_name(os_path)) {
        Some(ext) => {
            if str_eq(ext, "uasset") {
                Some(IoChunkType4::ExportBundleData)
            } else if str_eq(ext, "ubulk") {
                Some(IoChunkType4::BulkData)
            } else if str_eq(ext, "uptnl") {
                Some(IoChunkType4::OptionalBulkData)
            } else {
                None
            }
        },
        None => None,
    }
}

/// The identity of the chunk of type `chunk_type` whose asset has the hash
/// path `file_path` in the project called `project_name`.
pub fn chunk_id_for_path(project_name: &str, file_path: &str, chunk_type: IoChunkType4) -> (r:
    Result<IoChunkId, TocBuildError>)
    ensures
        r == match game_path(file_path@, project_name@) {
            Some(path) => Ok::<IoChunkId, TocBuildError>(
                IoChunkId { hash: name_hash(path), index: 0, obj_type: chunk_type },
            ),
            None => Err::<IoChunkId, TocBuildError>(TocBuildError::MissingContentRoot),
        },
{
    let mut path_to_replace = String::from_str(project_name);
    path_to_replace.append("/Content");
    match split_after(file_path, path_to_replace.as_str()) {
        Some(suffix) => {
            let mut path_to_hash = String::from_str("/Game");
            path_to_hash.append(suffix);
            Ok(IoChunkId::new(path_to_hash.as_str(), chunk_type))
        },
        None => Err(TocBuildError::MissingContentRoot),
    }
}

/// The chunk records and the partition layout while they are filled.
pub struct ChunkTables {
    pub chunk_ids: Vec<IoChunkId>,
    pub offsets_and_lengths: Vec<IoOffsetAndLength>,
    pub compression_blocks: Vec<IoStoreTocCompressedBlockEntry>,
    pub metas: Vec<IoStoreTocEntryMeta>,
    pub partition: Vec<PartitionBlock>,
    /// The container header, which gets the store entry of every package.
    pub header: ContainerHeader,
    pub cursor: u64,
}

impl View for ChunkTables {
    type V = TocLayout;

    open spec fn view(&self) -> TocLayout {
        TocLayout {
            chunk_ids: self.chunk_ids@,
            offsets_and_lengths: self.offsets_and_lengths@,
            compression_blocks: self.compression_blocks@,
            metas: meta_views(self.metas@),
            partition: partition_views(self.partition@),
            packages: self.header@.packages,
            cursor: self.cursor as nat,
        }
    }
}

impl ChunkTables {
    /// Tables without chunks, for the container with the identity
    /// `container_id`.
    pub fn new(container_id: u64) -> (tables: Self)
        ensures
            tables@ == TocLayout::empty(),
            tables@.wf(),
            tables.header.container_id == container_id,
    {
        let tables = ChunkTables {
            chunk_ids: Vec::new(),
            offsets_and_lengths: Vec::new(),
            compression_blocks: Vec::new(),
            metas: Vec::new(),
            partition: Vec::new(),
            header: ContainerHeader::new(container_id),
            cursor: 0,
        };
        proof {
            assert(tables@.metas =~= Seq::empty());
            assert(tables@.partition =~= Seq::empty());
        }
        tables
    }

    /// Adds the compression blocks of a chunk of `length` bytes that stands at
    /// the cursor.
    fn add_blocks(&mut self, length: u64)
        requires
            old(self).cursor + length <= IO_OFFSET_LENGTH_MAX,
        ensures
            final(self).compression_blocks@ == old(self).compression_blocks@ + file_blocks(
                old(self).cursor as nat,
                length as nat,
                block_count(length as nat) as int,
            ),
            final(self).chunk_ids == old(self).chunk_ids,
            final(self).offsets_and_lengths == old(self).offsets_and_lengths,
            final(self).metas == old(self).metas,
            final(self).partition == old(self).partition,
            final(self).header == old(self).header,
            final(self).cursor == old(self).cursor,
    {
        let block_size = COMPRESSION_BLOCK_SIZE as u64;
        let count: u64 = if length == 0 {
            1
        } else {
            (length + block_size - 1) / block_size
        };
        let cursor = self.cursor;
        let mut k: u64 = 0;
        while k < count
            invariant
                block_size == COMPRESSION_BLOCK_SIZE,
                count == block_count(length as nat),
                cursor + length <= IO_OFFSET_LENGTH_MAX,
                k <= count,
                self.cursor == cursor,
                self.compression_blocks@ == old(self).compression_blocks@ + file_blocks(
                    cursor as nat,
                    length as nat,
                    k as int,
                ),
                self.chunk_ids == old(self).chunk_ids,
                self.offsets_and_lengths == old(self).offsets_and_lengths,
                self.metas == old(self).metas,
                self.partition == old(self).partition,
                self.header == old(self).header,
                self.cursor == old(self).cursor,
            decreases count - k,
        {
            proof {
                lemma_file_blocks(cursor as nat, length as nat, k + 1);
                let block = file_blocks(cursor as nat, length as nat, k + 1)[k as int];
                assert(block.wf());
            }
            let taken = k * block_size;
            let left = length - taken;
            let size: u64 = if left >= block_size {
                block_size
            } else {
                left
            };
            self.compression_blocks.push(
                IoStoreTocCompressedBlockEntry::new(cursor + taken, size as u32),
            );
            proof {
                assert(self.compression_blocks@ =~= old(self).compression_blocks@ + file_blocks(
                    cursor as nat,
                    length as nat,
                    k + 1,
                ));
            }
            k = k + 1;
        }
    }

    /// Adds the chunk of `file`, whose content is `content`.
    pub fn add_file(
        &mut self,
        file: &IoFileIndexEntry,
        content: &Vec<u8>,
        project_name: &str,
    ) -> (r: Result<(), TocBuildError>)
        requires
            old(self)@.wf(),
        ensures
            match layout_file(old(self)@, file@, content@, project_name@) {
                Ok(next) => r is Ok && final(self)@ == next && final(self)@.wf(),
                Err(e) => r == Err::<(), TocBuildError>(e),
            },
            final(self).header.container_id == old(self).header.container_id,
    {
        let obj_type = match chunk_type_for(file.os_path.as_str()) {
            Some(t) => t,
            None => {
                return Err(TocBuildError::UnsupportedFileType);
            },
        };
        let id = match chunk_id_for_path(project_name, file.hash_path.as_str(), obj_type) {
            Ok(id) => id,
            Err(e) => {
                return Err(e);
            },
        };
        let blocks = self.compression_blocks.len();
        if blocks > 0xFF_FFFF {
            return Err(TocBuildError::LayoutOverflow);
        }
        let offset: u64 = (blocks as u64) * (COMPRESSION_BLOCK_SIZE as u64);
        let length = content.len() as u64;
        if length > IO_OFFSET_LENGTH_MAX || self.cursor + length > IO_OFFSET_LENGTH_MAX {
            return Err(TocBuildError::LayoutOverflow);
        }
        proof {
            lemma_layout_file_wf(self@, file@, content@, project_name@);
        }
        let ghost before = self@;
        let cursor = self.cursor;
        self.chunk_ids.push(id);
        self.offsets_and_lengths.push(IoOffsetAndLength::new(offset, length));
        self.add_blocks(length);
        self.metas.push(IoStoreTocEntryMeta::new(content));
        self.partition.push(
            PartitionBlock {
                source_path: file.os_path.clone(),
                source_start: 0,
                length,
                virtual_offset: cursor,
            },
        );
        if obj_type == IoChunkType4::ExportBundleData {
            self.header.packages.push(
                ContainerHeaderPackage::from_header_package(content.as_slice(), id.hash, length),
            );
        }
        let alignment = COMPRESSION_BLOCK_ALIGNMENT as u64;
        self.cursor = ((cursor + length + alignment - 1) / alignment) * alignment;
        proof {
            let next = layout_file(before, file@, content@, project_name@)->Ok_0;
            assert(self@.metas =~= next.metas);
            assert(self@.partition =~= next.partition);
            assert(self@.packages =~= next.packages);
        }
        Ok(())
    }

    /// Adds the container header as the last chunk and gives its bytes,
    /// filled up to a multiple of 16.
    pub fn add_header(&mut self) -> (r: Result<Vec<u8>, TocBuildError>)
        requires
            old(self)@.wf(),
        ensures
            match layout_header(old(self)@, old(self).header.container_id) {
                Ok((next, bytes)) => r is Ok && r->Ok_0@ == bytes && final(self)@ == next
                    && final(self)@.records_wf(),
                Err(e) => r == Err::<Vec<u8>, TocBuildError>(e),
            },
            final(self).header.container_id == old(self).header.container_id,
    {
        let ghost acc = self@;
        let mut padded: Vec<u8> = Vec::new();
        let serialized = match self.header.to_buffer(&mut padded) {
            Some(bytes) => bytes,
            None => {
                return Err(TocBuildError::LayoutOverflow);
            },
        };
        let length = serialized.len();
        let blocks = self.compression_blocks.len();
        if length > IO_COMPRESSED_BLOCK_LENGTH_MAX as usize || blocks > 0xFF_FFFF || self.cursor
            > IO_OFFSET_LENGTH_MAX {
            return Err(TocBuildError::LayoutOverflow);
        }
        proof {
            assert(Seq::<u8>::empty() + self.header@.spec_bytes() =~= self.header@.spec_bytes());
        }
        let offset: u64 = (blocks as u64) * (COMPRESSION_BLOCK_SIZE as u64);
        let cursor = self.cursor;
        let container_id = self.header.container_id;
        self.chunk_ids.push(IoChunkId::new_from_hash(container_id, IoChunkType4::ContainerHeader));
        self.offsets_and_lengths.push(IoOffsetAndLength::new(offset, length as u64));
        self.compression_blocks.push(IoStoreTocCompressedBlockEntry::new(cursor, length as u32));
        self.metas.push(IoStoreTocEntryMeta::new_empty());
        self.partition.push(
            PartitionBlock {
                source_path: String::new(),
                source_start: 0,
                length: padded.len() as u64,
                virtual_offset: cursor,
            },
        );
        self.cursor = cursor + padded.len() as u64;
        proof {
            let next = layout_header(acc, container_id)->Ok_0.0;
            assert(self@.metas =~= next.metas);
            assert(self@.partition =~= next.partition);
            assert(self@.chunk_ids =~= next.chunk_ids);
            assert forall|i: int| 0 <= i < self@.compression_blocks.len() implies (
            #[trigger] self@.compression_blocks[i]).wf() by {
                if i < acc.compression_blocks.len() {
                    assert(self@.compression_blocks[i] == acc.compression_blocks[i]);
                }
            }
            assert forall|i: int| 0 <= i < self@.offsets_and_lengths.len() implies (
            #[trigger] self@.offsets_and_lengths[i]).wf() by {
                if i < acc.offsets_and_lengths.len() {
                    assert(self@.offsets_and_lengths[i] == acc.offsets_and_lengths[i]);
                }
            }
        }
        Ok(padded)
    }

    /// Adds the chunks of `files`, which are the usable ones among `count`
    /// files, with the contents that `contents` holds for them.
    pub fn add_kept_files(
        &mut self,
        files: &Vec<IoFileIndexEntry>,
        contents: &Vec<Option<Vec<u8>>>,
        count: usize,
        project_name: &str,
    ) -> (r: Result<(), TocBuildError>)
        requires
            old(self)@ == TocLayout::empty(),
            files@.len() == kept_before(contents_view(contents@), count as int),
        ensures
            match layout_files(
                file_entry_views(files@),
                kept_contents(contents_view(contents@), count as int),
                project_name@,
                files@.len() as int,
            ) {
                Ok(next) => r is Ok && final(self)@ == next && final(self)@.wf(),
                Err(e) => r == Err::<(), TocBuildError>(e),
            },
            final(self).header.container_id == old(self).header.container_id,
    {
        let ghost views = file_entry_views(files@);
        let ghost given = contents_view(contents@);
        let ghost kept = kept_contents(given, count as int);
        let ghost project = project_name@;
        let mut i: usize = 0;
        let mut j: usize = 0;
        while i < count
            invariant
                views == file_entry_views(files@),
                given == contents_view(contents@),
                kept == kept_contents(given, count as int),
                project == project_name@,
                files@.len() == kept_before(given, count as int),
                i <= count,
                j == kept_before(given, i as int),
                j <= files@.len(),
                layout_files(views, kept, project, j as int) == Ok::<TocLayout, TocBuildError>(
                    self@,
                ),
                self@.wf(),
                self.header.container_id == old(self).header.container_id,
            decreases count - i,
        {
            proof {
                lemma_kept_before_monotone(given, i + 1, count as int);
            }
            if usable_content(contents, i) {
                proof {
                    lemma_kept_content(given, i as int, count as int);
                    lemma_pruned_len(Seq::empty(), given, count as int);
                    lemma_layout_files_err(views, kept, project, j + 1, files@.len() as int);
                    assert(views[j as int] == files@[j as int]@);
                    assert(given[i as int] == Some(contents@[i as int]->0@));
                }
                match &contents[i] {
                    Some(content) => {
                        match self.add_file(&files[j], content, project_name) {
                            Ok(()) => {},
                            Err(e) => {
                                return Err(e);
                            },
                        }
                    },
                    None => {},
                }
                j = j + 1;
            }
            i = i + 1;
        }
        Ok(())
    }
}

} // verus!
