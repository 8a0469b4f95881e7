//! Dropping from the directory index the files that cannot go into the
//! container: those whose content could not be read, and packages cooked for
//! the legacy format.

use crate::flat_index::{FlatToc, FLAT_INDEX_LIMIT};
use crate::io_package::{is_cooked_package, is_valid_asset_type};
use crate::io_toc::{
    file_entry_views, string_views, IoDirectoryIndexEntry, IoFileIndexEntry, IoFileIndexEntryView,
    IO_INDEX_NONE,
};
use crate::toc_factory::TocBuilderProfiler;
use vstd::prelude::*;

verus! {

/// The content that was read for file `i`, if any was.
pub open spec fn content_at(contents: Seq<Option<Seq<u8>>>, i: int) -> Option<Seq<u8>> {
    if 0 <= i < contents.len() {
        contents[i]
    } else {
        None
    }
}

/// Whether file `i` goes into the container: its content was read and is not
/// a package cooked for the legacy format.
pub open spec fn is_usable(contents: Seq<Option<Seq<u8>>>, i: int) -> bool {
    match content_at(contents, i) {
        Some(content) => !is_cooked_package(content),
        None => false,
    }
}

/// The number of usable files among the first `upto`: the index that file
/// `upto` has once the others are dropped.
pub open spec fn kept_before(contents: Seq<Option<Seq<u8>>>, upto: int) -> nat
    decreases upto,
{
    if upto <= 0 {
        0
    } else {
        kept_before(contents, upto - 1) + if is_usable(contents, upto - 1) {
            1nat
        } else {
            0nat
        }
    }
}

/// The first usable file on the chain of files that starts at `i`, or -1
/// where the chain holds none. A chain only leads forward.
pub open spec fn next_kept(
    files: Seq<IoFileIndexEntryView>,
    contents: Seq<Option<Seq<u8>>>,
    i: int,
) -> int
    decreases files.len() - i,
{
    if i < 0 || i >= files.len() {
        -1
    } else if is_usable(contents, i) {
        i
    } else {
        let next = files[i].next_file;
        if next <= i || next >= files.len() || next == IO_INDEX_NONE {
            -1
        } else {
            next_kept(files, contents, next as int)
        }
    }
}

/// What a reference to file `i` becomes once the unusable files are dropped:
/// the new index of the first usable file from `i` on, or
/// [`IO_INDEX_NONE`].
pub open spec fn remap_from(
    files: Seq<IoFileIndexEntryView>,
    contents: Seq<Option<Seq<u8>>>,
    i: int,
) -> u32 {
    let k = next_kept(files, contents, i);
    if k < 0 {
        IO_INDEX_NONE
    } else {
        kept_before(contents, k) as u32
    }
}

/// The usable files among the first `upto`, each pointing to the next usable
/// file of its directory and numbered anew.
pub open spec fn pruned_files(
    files: Seq<IoFileIndexEntryView>,
    contents: Seq<Option<Seq<u8>>>,
    upto: int,
) -> Seq<IoFileIndexEntryView>
    decreases upto,
{
    if upto <= 0 {
        Seq::empty()
    } else {
        let front = pruned_files(files, contents, upto - 1);
        if is_usable(contents, upto - 1) {
            front.push(
                IoFileIndexEntryView {
                    next_file: remap_from(files, contents, files[upto - 1].next_file as int),
                    user_data: front.len() as u32,
                    ..files[upto - 1]
                },
            )
        } else {
            front
        }
    }
}

/// The contents of the usable files among the first `upto`.
pub open spec fn kept_contents(contents: Seq<Option<Seq<u8>>>, upto: int) -> Seq<Seq<u8>>
    decreases upto,
{
    if upto <= 0 {
        Seq::empty()
    } else {
        let front = kept_contents(contents, upto - 1);
        if is_usable(contents, upto - 1) {
            front.push(content_at(contents, upto - 1)->0)
        } else {
            front
        }
    }
}

/// The source paths of those among the first `upto` files whose content
/// could not be read.
pub open spec fn unreadable_paths(
    files: Seq<IoFileIndexEntryView>,
    contents: Seq<Option<Seq<u8>>>,
    upto: int,
) -> Seq<Seq<char>>
    decreases upto,
{
    if upto <= 0 {
        Seq::empty()
    } else {
        let front = unreadable_paths(files, contents, upto - 1);
        if content_at(contents, upto - 1) is None {
            front.push(files[upto - 1].os_path)
        } else {
            front
        }
    }
}

/// The source paths of those among the first `upto` files that are packages
/// cooked for the legacy format.
pub open spec fn cooked_paths(
    files: Seq<IoFileIndexEntryView>,
    contents: Seq<Option<Seq<u8>>>,
    upto: int,
) -> Seq<Seq<char>>
    decreases upto,
{
    if upto <= 0 {
        Seq::empty()
    } else {
        let front = cooked_paths(files, contents, upto - 1);
        if content_at(contents, upto - 1) is Some && !is_usable(contents, upto - 1) {
            front.push(files[upto - 1].os_path)
        } else {
            front
        }
    }
}

/// The directories, each pointing to the first usable file that it holds.
pub open spec fn pruned_directories(
    directories: Seq<IoDirectoryIndexEntry>,
    files: Seq<IoFileIndexEntryView>,
    contents: Seq<Option<Seq<u8>>>,
) -> Seq<IoDirectoryIndexEntry> {
    directories.map_values(
        |d: IoDirectoryIndexEntry|
            IoDirectoryIndexEntry {
                first_file: remap_from(files, contents, d.first_file as int),
                ..d
            },
    )
}

/// The directory index without the files that cannot go into the container.
/// The string pool stays as it is.
pub open spec fn prune(flat: FlatToc, contents: Seq<Option<Seq<u8>>>) -> FlatToc {
    FlatToc {
        directories: pruned_directories(flat.directories, flat.files, contents),
        files: pruned_files(flat.files, contents, flat.files.len() as int),
        strings: flat.strings,
    }
}

/// The contents as mathematical sequences.
pub open spec fn contents_view(contents: Seq<Option<Vec<u8>>>) -> Seq<Option<Seq<u8>>> {
    contents.map_values(
        |c: Option<Vec<u8>>|
            match c {
                Some(bytes) => Some(bytes@),
                None => None,
            },
    )
}

/// The usable files are as many as counted, and so are their contents.
pub proof fn lemma_pruned_len(
    files: Seq<IoFileIndexEntryView>,
    contents: Seq<Option<Seq<u8>>>,
    upto: int,
)
    requires
        0 <= upto,
    ensures
        pruned_files(files, contents, upto).len() == kept_before(contents, upto),
        kept_contents(contents, upto).len() == kept_before(contents, upto),
        kept_before(contents, upto) <= upto,
    decreases upto,
{
    if upto > 0 {
        lemma_pruned_len(files, contents, upto - 1);
    }
}

/// The count of usable files does not fall as more files are looked at.
pub proof fn lemma_kept_before_monotone(contents: Seq<Option<Seq<u8>>>, i: int, j: int)
    requires
        i <= j,
    ensures
        kept_before(contents, i) <= kept_before(contents, j),
    decreases j - i,
{
    if i < j {
        lemma_kept_before_monotone(contents, i, j - 1);
    }
}

/// Whether the content read for file `i` can go into the container.
pub fn usable_content(contents: &Vec<Option<Vec<u8>>>, i: usize) -> (usable: bool)
    ensures
        usable == is_usable(contents_view(contents@), i as int),
{
    if i >= contents.len() {
        return false;
    }
    match &contents[i] {
        Some(bytes) => is_valid_asset_type(bytes.as_slice()),
        None => false,
    }
}

/// What each reference to a file becomes once the unusable files are
/// dropped.
pub fn remap_table(files: &Vec<IoFileIndexEntry>, contents: &Vec<Option<Vec<u8>>>) -> (table: Vec<
    u32,
>)
    requires
        files@.len() <= FLAT_INDEX_LIMIT,
    ensures
        table@.len() == files@.len(),
        forall|i: int|
            0 <= i < files@.len() ==> #[trigger] table@[i] == remap_from(
                file_entry_views(files@),
                contents_view(contents@),
                i,
            ),
{
    let ghost views = file_entry_views(files@);
    let ghost given = contents_view(contents@);
    let n = files.len();
    let mut new_index: Vec<u32> = Vec::new();
    let mut kept: u32 = 0;
    let mut i: usize = 0;
    while i < n
        invariant
            n == files@.len(),
            n <= FLAT_INDEX_LIMIT,
            given == contents_view(contents@),
            i <= n,
            new_index@.len() == i,
            kept == kept_before(given, i as int),
            kept <= i,
            forall|j: int| 0 <= j < i ==> #[trigger] new_index@[j] == kept_before(given, j),
        decreases n - i,
    {
        new_index.push(kept);
        if usable_content(contents, i) {
            kept = kept + 1;
        }
        i = i + 1;
    }
    let mut table: Vec<u32> = Vec::new();
    let mut j: usize = 0;
    while j < n
        invariant
            n == files@.len(),
            j <= n,
            table@.len() == j,
        decreases n - j,
    {
        table.push(IO_INDEX_NONE);
        j = j + 1;
    }
    let mut i: usize = n;
    while i > 0
        invariant
            n == files@.len(),
            n <= FLAT_INDEX_LIMIT,
            views == file_entry_views(files@),
            given == contents_view(contents@),
            i <= n,
            table@.len() == n,
            new_index@.len() == n,
            forall|j: int| 0 <= j < n ==> #[trigger] new_index@[j] == kept_before(given, j),
            forall|j: int| i <= j < n ==> #[trigger] table@[j] == remap_from(views, given, j),
        decreases i,
    {
        i = i - 1;
        assert(views[i as int] == files@[i as int]@);
        let ghost before = table@;
        let value = if usable_content(contents, i) {
            new_index[i]
        } else {
            let next = files[i].next_file;
            if next != IO_INDEX_NONE && (next as usize) > i && (next as usize) < n {
                assert(next_kept(views, given, i as int) == next_kept(views, given, next as int));
                table[next as usize]
            } else {
                IO_INDEX_NONE
            }
        };
        assert(value == remap_from(views, given, i as int));
        table[i] = value;
        assert forall|j: int| i <= j < n implies #[trigger] table@[j] == remap_from(
            views,
            given,
            j,
        ) by {
            if j > i {
                assert(table@[j] == before[j]);
            }
        }
    }
    table
}

/// What the reference `ix` to a file becomes.
fn remapped(table: &Vec<u32>, ix: u32) -> (r: u32)
    ensures
        r == if (ix as int) < table@.len() {
            table@[ix as int]
        } else {
            IO_INDEX_NONE
        },
{
    if (ix as usize) < table.len() {
        table[ix as usize]
    } else {
        IO_INDEX_NONE
    }
}

/// Drops the files that cannot go into the container from the file list and
/// from the chains that lead through it. The dropped files are noted in the
/// profiler.
pub fn prune_index(
    directories: &Vec<IoDirectoryIndexEntry>,
    files: &Vec<IoFileIndexEntry>,
    contents: &Vec<Option<Vec<u8>>>,
    profiler: &mut TocBuilderProfiler,
) -> (r: (Vec<IoDirectoryIndexEntry>, Vec<IoFileIndexEntry>))
    requires
        files@.len() <= FLAT_INDEX_LIMIT,
    ensures
        r.0@ == pruned_directories(
            directories@,
            file_entry_views(files@),
            contents_view(contents@),
        ),
        file_entry_views(r.1@) == pruned_files(
            file_entry_views(files@),
            contents_view(contents@),
            files@.len() as int,
        ),
        string_views(final(profiler).failed_to_read@) == string_views(old(profiler).failed_to_read@)
            + unreadable_paths(
            file_entry_views(files@),
            contents_view(contents@),
            files@.len() as int,
        ),
        string_views(final(profiler).incorrect_asset_format@) == string_views(
            old(profiler).incorrect_asset_format@,
        ) + cooked_paths(file_entry_views(files@), contents_view(contents@), files@.len() as int),
        final(profiler).successful_files == old(profiler).successful_files,
        final(profiler).container_header_hash == old(profiler).container_header_hash,
        final(profiler).compression_block_count == old(profiler).compression_block_count,
        final(profiler).directory_index_size == old(profiler).directory_index_size,
        final(profiler).generated_meta_hashes == old(profiler).generated_meta_hashes,
        final(profiler).time_to_flatten == old(profiler).time_to_flatten,
        final(profiler).time_to_serialize == old(profiler).time_to_serialize,
{
    let ghost views = file_entry_views(files@);
    let ghost given = contents_view(contents@);
    let table = remap_table(files, contents);
    let n = files.len();
    let mut kept: Vec<IoFileIndexEntry> = Vec::new();
    let mut i: usize = 0;
    while i < n
        invariant
            n == files@.len(),
            n <= FLAT_INDEX_LIMIT,
            views == file_entry_views(files@),
            given == contents_view(contents@),
            table@.len() == n,
            forall|j: int| 0 <= j < n ==> #[trigger] table@[j] == remap_from(views, given, j),
            i <= n,
            file_entry_views(kept@) == pruned_files(views, given, i as int),
            kept@.len() <= i,
            string_views(profiler.failed_to_read@) == string_views(old(profiler).failed_to_read@)
                + unreadable_paths(views, given, i as int),
            string_views(profiler.incorrect_asset_format@) == string_views(
                old(profiler).incorrect_asset_format@,
            ) + cooked_paths(views, given, i as int),
            profiler.successful_files == old(profiler).successful_files,
            profiler.container_header_hash == old(profiler).container_header_hash,
            profiler.compression_block_count == old(profiler).compression_block_count,
            profiler.directory_index_size == old(profiler).directory_index_size,
            profiler.generated_meta_hashes == old(profiler).generated_meta_hashes,
            profiler.time_to_flatten == old(profiler).time_to_flatten,
            profiler.time_to_serialize == old(profiler).time_to_serialize,
        decreases n - i,
    {
        let file = &files[i];
        assert(views[i as int] == file@);
        let ghost failed = string_views(profiler.failed_to_read@);
        let ghost cooked = string_views(profiler.incorrect_asset_format@);
        if usable_content(contents, i) {
            let next_file = remapped(&table, file.next_file);
            let entry = IoFileIndexEntry {
                name: file.name,
                next_file,
                user_data: kept.len() as u32,
                file_size: file.file_size,
                os_path: file.os_path.clone(),
                hash_path: file.hash_path.clone(),
            };
            proof {
                assert(next_file == remap_from(views, given, file.next_file as int));
            }
            kept.push(entry);
            proof {
                assert(file_entry_views(kept@) =~= pruned_files(views, given, i + 1));
            }
        } else if i < contents.len() && contents[i].is_some() {
            profiler.incorrect_asset_format.push(file.os_path.clone());
            proof {
                assert(given[i as int] is Some);
                assert(string_views(profiler.incorrect_asset_format@) =~= cooked.push(
                    file@.os_path,
                ));
                assert(string_views(profiler.incorrect_asset_format@) =~= string_views(
                    old(profiler).incorrect_asset_format@,
                ) + cooked_paths(views, given, i + 1));
            }
        } else {
            profiler.failed_to_read.push(file.os_path.clone());
            proof {
                assert(content_at(given, i as int) is None);
                assert(string_views(profiler.failed_to_read@) =~= failed.push(file@.os_path));
                assert(string_views(profiler.failed_to_read@) =~= string_views(
                    old(profiler).failed_to_read@,
                ) + unreadable_paths(views, given, i + 1));
            }
        }
        i = i + 1;
    }
    let m = directories.len();
    let mut repaired: Vec<IoDirectoryIndexEntry> = Vec::new();
    let mut d: usize = 0;
    while d < m
        invariant
            m == directories@.len(),
            table@.len() == n,
            n == views.len(),
            forall|j: int| 0 <= j < n ==> #[trigger] table@[j] == remap_from(views, given, j),
            d <= m,
            repaired@ == pruned_directories(directories@, views, given).take(d as int),
        decreases m - d,
    {
        let mut entry = directories[d];
        entry.first_file = remapped(&table, entry.first_file);
        repaired.push(entry);
        proof {
            let all = pruned_directories(directories@, views, given);
            assert(all.take(d + 1) =~= all.take(d as int).push(all[d as int]));
        }
        d = d + 1;
    }
    proof {
        let all = pruned_directories(directories@, views, given);
        assert(all.take(m as int) =~= all);
    }
    (repaired, kept)
}

/// The content of a usable file keeps its place among the kept contents as
/// more files are looked at.
pub proof fn lemma_kept_content(contents: Seq<Option<Seq<u8>>>, i: int, upto: int)
    requires
        0 <= i < upto,
        is_usable(contents, i),
    ensures
        kept_before(contents, i) < kept_contents(contents, upto).len(),
        kept_contents(contents, upto)[kept_before(contents, i) as int] == content_at(
            contents,
            i,
        )->0,
    decreases upto,
{
    lemma_pruned_len(Seq::empty(), contents, upto - 1);
    lemma_pruned_len(Seq::empty(), contents, upto);
    if i < upto - 1 {
        lemma_kept_content(contents, i, upto - 1);
    }
}

/// Where every usable content among the first `upto` is at most `bound`
/// bytes long, so is every kept content.
pub proof fn lemma_kept_contents_bound(contents: Seq<Option<Seq<u8>>>, upto: int, bound: nat)
    requires
        0 <= upto,
        forall|i: int|
            0 <= i < upto && is_usable(contents, i) ==> (#[trigger] content_at(contents, i))->0.len()
                <= bound,
    ensures
        forall|k: int|
            0 <= k < kept_contents(contents, upto).len() ==> (#[trigger] kept_contents(
                contents,
                upto,
            )[k]).len() <= bound,
    decreases upto,
{
    if upto > 0 {
        lemma_kept_contents_bound(contents, upto - 1, bound);
        let front = kept_contents(contents, upto - 1);
        let all = kept_contents(contents, upto);
        assert forall|k: int| 0 <= k < all.len() implies (#[trigger] all[k]).len() <= bound by {
            if k < front.len() {
                assert(all[k] == front[k]);
            } else {
                assert(all[k] == content_at(contents, upto - 1)->0);
            }
        }
    }
}

} // verus!
