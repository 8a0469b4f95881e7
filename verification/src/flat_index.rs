//! The directory index: the tree of directories and files, flattened into three
//! lists in which every reference is an index.
//!
//! Directories come parents first. A directory points to its first
//! sub-directory, to the next directory under its parent and to its first file;
//! a file points to the next file of its directory. Names are held once in a
//! pool of strings.

use crate::asset_collector::{TocDirectory, TocDirectoryView, TocFileView};
use crate::io_toc::{
    file_entry_views, string_views, IoDirectoryIndexEntry, IoFileIndexEntry, IoFileIndexEntryView,
    IO_INDEX_NONE,
};
use crate::partition::{file_stem, stem_of};
use crate::string::{lemma_first_index, lemma_no_index, str_eq};
use crate::toc_factory::TocBuildError;
use vstd::prelude::*;
use vstd::string::StringExecFns;

verus! {

/// The most entries that a list of the directory index can hold, so that
/// every index stays below [`IO_INDEX_NONE`].
pub const FLAT_INDEX_LIMIT: usize = 0xFFFF_FFFF;

/// The three lists of the directory index, as mathematical sequences.
pub struct FlatToc {
    pub directories: Seq<IoDirectoryIndexEntry>,
    pub files: Seq<IoFileIndexEntryView>,
    pub strings: Seq<Seq<char>>,
}

impl FlatToc {
    /// No directory, no file, no string.
    pub open spec fn empty() -> FlatToc {
        FlatToc { directories: Seq::empty(), files: Seq::empty(), strings: Seq::empty() }
    }

    /// Every list is short enough for its indices to stay below
    /// [`IO_INDEX_NONE`].
    pub open spec fn fits(self) -> bool {
        &&& self.directories.len() <= FLAT_INDEX_LIMIT
        &&& self.files.len() <= FLAT_INDEX_LIMIT
        &&& self.strings.len() <= FLAT_INDEX_LIMIT
    }

    /// Every string stands once in the pool, every entry names a string of
    /// the pool, and every file bears its own index.
    pub open spec fn tidy(self) -> bool {
        &&& self.strings.no_duplicates()
        &&& forall|d: int|
            0 <= d < self.directories.len() ==> (#[trigger] self.directories[d]).name
                < self.strings.len()
        &&& forall|f: int|
            0 <= f < self.files.len() ==> (#[trigger] self.files[f]).name < self.strings.len()
                && self.files[f].user_data == f
    }

    /// Every list is at least as long as in `earlier`.
    pub open spec fn extends(self, earlier: FlatToc) -> bool {
        &&& self.directories.len() >= earlier.directories.len()
        &&& self.files.len() >= earlier.files.len()
        &&& self.strings.len() >= earlier.strings.len()
    }
}

/// The string pool after `text` was looked up in it, and the index under
/// which `text` is found there: a text already present keeps its index, a new
/// one is appended.
pub open spec fn intern(pool: Seq<Seq<char>>, text: Seq<char>) -> (Seq<Seq<char>>, int) {
    match pool.index_of_first(text) {
        Some(i) => (pool, i),
        None => (pool.push(text), pool.len() as int),
    }
}

/// The separator of the components of a hash path.
pub open spec fn slash() -> Seq<char> {
    seq!['/']
}

/// The index after one file was appended. The file's entry points to the
/// entry after it unless it is the `last` of its directory. Its hash path is
/// `prefix` followed by its name without extension.
pub open spec fn flat_file(
    st: FlatToc,
    file: TocFileView,
    prefix: Seq<char>,
    last: bool,
) -> FlatToc {
    let (pool, name_ix) = intern(st.strings, file.name);
    let at = st.files.len();
    FlatToc {
        directories: st.directories,
        files: st.files.push(
            IoFileIndexEntryView {
                name: name_ix as u32,
                next_file: if last {
                    IO_INDEX_NONE
                } else {
                    (at + 1) as u32
                },
                user_data: at as u32,
                file_size: file.file_size,
                os_path: file.os_file_path,
                hash_path: prefix + stem_of(file.name),
            },
        ),
        strings: pool,
    }
}

/// The index after the first `upto` files of a directory were appended.
pub open spec fn flat_files(
    st: FlatToc,
    files: Seq<TocFileView>,
    prefix: Seq<char>,
    upto: int,
) -> FlatToc
    decreases upto,
{
    if upto <= 0 {
        st
    } else {
        flat_file(
            flat_files(st, files, prefix, upto - 1),
            files[upto - 1],
            prefix,
            upto == files.len(),
        )
    }
}

/// The index after a directory was appended with all that it holds: first
/// its own entry, then its files, then each sub-directory in the same way.
/// The entry points to its first file and to its first sub-directory, which
/// directly follows it, and, where `has_next` says that another directory of
/// the same parent follows, to that directory, which comes after everything
/// below this one. The paths of what the directory holds start with `prefix`,
/// the directory's name and a slash.
pub open spec fn flat_dir(
    st: FlatToc,
    dir: TocDirectoryView,
    prefix: Seq<char>,
    has_next: bool,
) -> FlatToc
    decreases dir,
{
    let (pool, name_ix) = intern(st.strings, dir.name);
    let at = st.directories.len() as int;
    let entry = IoDirectoryIndexEntry {
        name: name_ix as u32,
        first_child: if dir.children.len() > 0 {
            (at + 1) as u32
        } else {
            IO_INDEX_NONE
        },
        next_sibling: IO_INDEX_NONE,
        first_file: if dir.files.len() > 0 {
            st.files.len() as u32
        } else {
            IO_INDEX_NONE
        },
    };
    let own = FlatToc { directories: st.directories.push(entry), files: st.files, strings: pool };
    let inner = prefix + dir.name + slash();
    let with_files = flat_files(own, dir.files, inner, dir.files.len() as int);
    let all = flat_children(with_files, dir.children, inner, dir.children.len() as int);
    if has_next {
        FlatToc {
            directories: all.directories.update(
                at,
                IoDirectoryIndexEntry {
                    next_sibling: all.directories.len() as u32,
                    ..all.directories[at]
                },
            ),
            ..all
        }
    } else {
        all
    }
}

/// The index after the first `upto` sub-directories of a directory were
/// appended.
pub open spec fn flat_children(
    st: FlatToc,
    children: Seq<TocDirectoryView>,
    prefix: Seq<char>,
    upto: int,
) -> FlatToc
    decreases children, upto,
{
    if upto <= 0 || upto > children.len() {
        st
    } else {
        flat_dir(
            flat_children(st, children, prefix, upto - 1),
            children[upto - 1],
            prefix,
            upto < children.len(),
        )
    }
}

/// The directory index of a tree.
pub open spec fn flat_tree(root: TocDirectoryView) -> FlatToc {
    flat_dir(FlatToc::empty(), root, Seq::empty(), false)
}

/// The number of directories in a tree, its root included.
pub open spec fn directory_count(dir: TocDirectoryView) -> nat
    decreases dir,
{
    1 + directories_in(dir.children, dir.children.len() as int)
}

/// The number of directories in the trees under the first `upto` of
/// `children`.
pub open spec fn directories_in(children: Seq<TocDirectoryView>, upto: int) -> nat
    decreases children, upto,
{
    if upto <= 0 || upto > children.len() {
        0
    } else {
        directories_in(children, upto - 1) + directory_count(children[upto - 1])
    }
}

/// The number of files in a tree.
pub open spec fn file_count(dir: TocDirectoryView) -> nat
    decreases dir,
{
    dir.files.len() + files_in(dir.children, dir.children.len() as int)
}

/// The number of files in the trees under the first `upto` of `children`.
pub open spec fn files_in(children: Seq<TocDirectoryView>, upto: int) -> nat
    decreases children, upto,
{
    if upto <= 0 || upto > children.len() {
        0
    } else {
        files_in(children, upto - 1) + file_count(children[upto - 1])
    }
}

/// Looking up a text adds at most one string to the pool.
pub proof fn lemma_intern(pool: Seq<Seq<char>>, text: Seq<char>)
    ensures
        ({
            let (after, ix) = intern(pool, text);
            &&& pool.len() <= after.len() <= pool.len() + 1
            &&& 0 <= ix < after.len()
            &&& after[ix] == text
            &&& forall|i: int| 0 <= i < pool.len() ==> after[i] == pool[i]
        }),
{
    pool.index_of_first_ensures(text);
}

/// Appending files leaves the directories as they are and makes no list
/// shorter; the file list grows by the number of files.
pub proof fn lemma_flat_files_extends(
    st: FlatToc,
    files: Seq<TocFileView>,
    prefix: Seq<char>,
    upto: int,
)
    requires
        0 <= upto <= files.len(),
    ensures
        flat_files(st, files, prefix, upto).extends(st),
        flat_files(st, files, prefix, upto).directories == st.directories,
        flat_files(st, files, prefix, upto).files.len() == st.files.len() + upto,
    decreases upto,
{
    if upto > 0 {
        lemma_flat_files_extends(st, files, prefix, upto - 1);
        lemma_intern(flat_files(st, files, prefix, upto - 1).strings, files[upto - 1].name);
    }
}

/// Appending more files makes no list shorter.
pub proof fn lemma_flat_files_prefix(
    st: FlatToc,
    files: Seq<TocFileView>,
    prefix: Seq<char>,
    fewer: int,
    upto: int,
)
    requires
        0 <= fewer <= upto <= files.len(),
    ensures
        flat_files(st, files, prefix, upto).extends(flat_files(st, files, prefix, fewer)),
    decreases upto - fewer,
{
    if fewer < upto {
        lemma_flat_files_prefix(st, files, prefix, fewer, upto - 1);
        lemma_intern(flat_files(st, files, prefix, upto - 1).strings, files[upto - 1].name);
    }
}

/// Appending a directory adds at least its own entry and makes no list
/// shorter.
pub proof fn lemma_flat_dir_extends(
    st: FlatToc,
    dir: TocDirectoryView,
    prefix: Seq<char>,
    has_next: bool,
)
    ensures
        flat_dir(st, dir, prefix, has_next).extends(st),
        flat_dir(st, dir, prefix, has_next).directories.len() > st.directories.len(),
        flat_dir(st, dir, prefix, has_next).strings.len() >= intern(st.strings, dir.name).0.len(),
    decreases dir, 0int,
{
    let (pool, name_ix) = intern(st.strings, dir.name);
    lemma_intern(st.strings, dir.name);
    let at = st.directories.len() as int;
    let entry = IoDirectoryIndexEntry {
        name: name_ix as u32,
        first_child: if dir.children.len() > 0 {
            (at + 1) as u32
        } else {
            IO_INDEX_NONE
        },
        next_sibling: IO_INDEX_NONE,
        first_file: if dir.files.len() > 0 {
            st.files.len() as u32
        } else {
            IO_INDEX_NONE
        },
    };
    let own = FlatToc { directories: st.directories.push(entry), files: st.files, strings: pool };
    let inner = prefix + dir.name + slash();
    lemma_flat_files_extends(own, dir.files, inner, dir.files.len() as int);
    let with_files = flat_files(own, dir.files, inner, dir.files.len() as int);
    lemma_flat_children_extends(with_files, dir.children, inner, dir.children.len() as int);
}

/// Appending sub-directories makes no list shorter.
pub proof fn lemma_flat_children_extends(
    st: FlatToc,
    children: Seq<TocDirectoryView>,
    prefix: Seq<char>,
    upto: int,
)
    ensures
        flat_children(st, children, prefix, upto).extends(st),
    decreases children, upto,
{
    if 0 < upto <= children.len() {
        lemma_flat_children_extends(st, children, prefix, upto - 1);
        lemma_flat_dir_extends(
            flat_children(st, children, prefix, upto - 1),
            children[upto - 1],
            prefix,
            upto < children.len(),
        );
    }
}

/// Appending more sub-directories makes no list shorter.
pub proof fn lemma_flat_children_prefix(
    st: FlatToc,
    children: Seq<TocDirectoryView>,
    prefix: Seq<char>,
    fewer: int,
    upto: int,
)
    requires
        0 <= fewer <= upto <= children.len(),
    ensures
        flat_children(st, children, prefix, upto).extends(
            flat_children(st, children, prefix, fewer),
        ),
    decreases upto - fewer,
{
    if fewer < upto {
        lemma_flat_children_prefix(st, children, prefix, fewer, upto - 1);
        lemma_flat_dir_extends(
            flat_children(st, children, prefix, upto - 1),
            children[upto - 1],
            prefix,
            upto < children.len(),
        );
    }
}

/// Looking up a text in a pool without duplicates leaves it without
/// duplicates.
pub proof fn lemma_intern_distinct(pool: Seq<Seq<char>>, text: Seq<char>)
    requires
        pool.no_duplicates(),
    ensures
        intern(pool, text).0.no_duplicates(),
{
    pool.index_of_first_ensures(text);
}

/// Appending files to a tidy index leaves it tidy, as long as it fits.
pub proof fn lemma_flat_files_tidy(
    st: FlatToc,
    files: Seq<TocFileView>,
    prefix: Seq<char>,
    upto: int,
)
    requires
        st.tidy(),
        0 <= upto <= files.len(),
        flat_files(st, files, prefix, upto).fits(),
    ensures
        flat_files(st, files, prefix, upto).tidy(),
    decreases upto,
{
    if upto > 0 {
        let before = flat_files(st, files, prefix, upto - 1);
        let after = flat_files(st, files, prefix, upto);
        lemma_flat_files_prefix(st, files, prefix, upto - 1, upto);
        lemma_flat_files_tidy(st, files, prefix, upto - 1);
        lemma_intern(before.strings, files[upto - 1].name);
        lemma_intern_distinct(before.strings, files[upto - 1].name);
        assert forall|f: int| 0 <= f < after.files.len() implies (#[trigger] after.files[f]).name
            < after.strings.len() && after.files[f].user_data == f by {
            if f < before.files.len() {
                assert(after.files[f] == before.files[f]);
            }
        }
        assert forall|d: int| 0 <= d < after.directories.len() implies (
        #[trigger] after.directories[d]).name < after.strings.len() by {
            assert(after.directories[d] == before.directories[d]);
        }
    }
}

/// Appending a directory to a tidy index leaves it tidy, as long as it fits.
pub proof fn lemma_flat_dir_tidy(
    st: FlatToc,
    dir: TocDirectoryView,
    prefix: Seq<char>,
    has_next: bool,
)
    requires
        st.tidy(),
        flat_dir(st, dir, prefix, has_next).fits(),
    ensures
        flat_dir(st, dir, prefix, has_next).tidy(),
    decreases dir, 0int,
{
    let (pool, name_ix) = intern(st.strings, dir.name);
    lemma_intern(st.strings, dir.name);
    lemma_intern_distinct(st.strings, dir.name);
    let at = st.directories.len() as int;
    let entry = IoDirectoryIndexEntry {
        name: name_ix as u32,
        first_child: if dir.children.len() > 0 {
            (at + 1) as u32
        } else {
            IO_INDEX_NONE
        },
        next_sibling: IO_INDEX_NONE,
        first_file: if dir.files.len() > 0 {
            st.files.len() as u32
        } else {
            IO_INDEX_NONE
        },
    };
    let own = FlatToc { directories: st.directories.push(entry), files: st.files, strings: pool };
    let inner = prefix + dir.name + slash();
    let with_files = flat_files(own, dir.files, inner, dir.files.len() as int);
    let all = flat_children(with_files, dir.children, inner, dir.children.len() as int);
    lemma_flat_files_extends(own, dir.files, inner, dir.files.len() as int);
    lemma_flat_children_extends(with_files, dir.children, inner, dir.children.len() as int);
    assert(all.fits());
    assert(own.tidy()) by {
        assert forall|d: int| 0 <= d < own.directories.len() implies (
        #[trigger] own.directories[d]).name < own.strings.len() by {
            if d < st.directories.len() {
                assert(own.directories[d] == st.directories[d]);
            }
        }
    }
    lemma_flat_files_tidy(own, dir.files, inner, dir.files.len() as int);
    lemma_flat_children_tidy(with_files, dir.children, inner, dir.children.len() as int);
    let target = flat_dir(st, dir, prefix, has_next);
    if has_next {
        assert forall|d: int| 0 <= d < target.directories.len() implies (
        #[trigger] target.directories[d]).name < target.strings.len() by {
            assert(target.directories[d].name == all.directories[d].name);
        }
    }
}

/// Appending sub-directories to a tidy index leaves it tidy, as long as it
/// fits.
pub proof fn lemma_flat_children_tidy(
    st: FlatToc,
    children: Seq<TocDirectoryView>,
    prefix: Seq<char>,
    upto: int,
)
    requires
        st.tidy(),
        flat_children(st, children, prefix, upto).fits(),
    ensures
        flat_children(st, children, prefix, upto).tidy(),
    decreases children, upto,
{
    if 0 < upto <= children.len() {
        let before = flat_children(st, children, prefix, upto - 1);
        lemma_flat_dir_extends(before, children[upto - 1], prefix, upto < children.len());
        lemma_flat_children_tidy(st, children, prefix, upto - 1);
        lemma_flat_dir_tidy(before, children[upto - 1], prefix, upto < children.len());
    }
}

/// In the directory index of a tree, every string stands once in the pool,
/// every entry names a string of the pool, and every file bears its own
/// index.
pub proof fn lemma_flat_tree_tidy(root: TocDirectoryView)
    requires
        flat_tree(root).fits(),
    ensures
        flat_tree(root).tidy(),
{
    lemma_flat_dir_tidy(FlatToc::empty(), root, Seq::empty(), false);
}

/// Appending files only appends: what the index held stays where it was.
pub proof fn lemma_flat_files_keeps(
    st: FlatToc,
    files: Seq<TocFileView>,
    prefix: Seq<char>,
    upto: int,
)
    requires
        0 <= upto <= files.len(),
    ensures
        flat_files(st, files, prefix, upto).files.take(st.files.len() as int) == st.files,
        flat_files(st, files, prefix, upto).strings.take(st.strings.len() as int) == st.strings,
    decreases upto,
{
    if upto > 0 {
        let before = flat_files(st, files, prefix, upto - 1);
        let after = flat_files(st, files, prefix, upto);
        lemma_flat_files_keeps(st, files, prefix, upto - 1);
        lemma_flat_files_extends(st, files, prefix, upto - 1);
        lemma_intern(before.strings, files[upto - 1].name);
        assert(after.files.take(st.files.len() as int) =~= before.files.take(
            st.files.len() as int,
        ));
        assert(after.strings.take(st.strings.len() as int) =~= before.strings.take(
            st.strings.len() as int,
        ));
    } else {
        assert(st.files.take(st.files.len() as int) =~= st.files);
        assert(st.strings.take(st.strings.len() as int) =~= st.strings);
    }
}

/// Appending a directory only appends: what the index held stays where it
/// was. The lists grow by the directories and the files of the tree under
/// the directory.
pub proof fn lemma_flat_dir_keeps(
    st: FlatToc,
    dir: TocDirectoryView,
    prefix: Seq<char>,
    has_next: bool,
)
    ensures
        flat_dir(st, dir, prefix, has_next).directories.take(st.directories.len() as int)
            == st.directories,
        flat_dir(st, dir, prefix, has_next).files.take(st.files.len() as int) == st.files,
        flat_dir(st, dir, prefix, has_next).strings.take(st.strings.len() as int) == st.strings,
        flat_dir(st, dir, prefix, has_next).directories.len() == st.directories.len()
            + directory_count(dir),
        flat_dir(st, dir, prefix, has_next).files.len() == st.files.len() + file_count(dir),
    decreases dir, 0int,
{
    let (pool, name_ix) = intern(st.strings, dir.name);
    lemma_intern(st.strings, dir.name);
    let at = st.directories.len() as int;
    let entry = IoDirectoryIndexEntry {
        name: name_ix as u32,
        first_child: if dir.children.len() > 0 {
            (at + 1) as u32
        } else {
            IO_INDEX_NONE
        },
        next_sibling: IO_INDEX_NONE,
        first_file: if dir.files.len() > 0 {
            st.files.len() as u32
        } else {
            IO_INDEX_NONE
        },
    };
    let own = FlatToc { directories: st.directories.push(entry), files: st.files, strings: pool };
    let inner = prefix + dir.name + slash();
    let with_files = flat_files(own, dir.files, inner, dir.files.len() as int);
    let all = flat_children(with_files, dir.children, inner, dir.children.len() as int);
    let target = flat_dir(st, dir, prefix, has_next);
    lemma_flat_files_extends(own, dir.files, inner, dir.files.len() as int);
    lemma_flat_files_keeps(own, dir.files, inner, dir.files.len() as int);
    lemma_flat_children_extends(with_files, dir.children, inner, dir.children.len() as int);
    lemma_flat_children_keeps(with_files, dir.children, inner, dir.children.len() as int);
    assert(target.directories.take(at) =~= all.directories.take(own.directories.len() as int).take(
        at,
    ));
    assert(own.directories.take(at) =~= st.directories);
    assert(target.files.take(st.files.len() as int) =~= with_files.files.take(
        st.files.len() as int,
    )) by {
        assert(all.files.take(with_files.files.len() as int).take(st.files.len() as int)
            =~= all.files.take(st.files.len() as int));
    }
    assert(with_files.files.take(st.files.len() as int) =~= st.files);
    assert(target.strings.take(st.strings.len() as int) =~= st.strings) by {
        assert(all.strings.take(with_files.strings.len() as int).take(st.strings.len() as int)
            =~= all.strings.take(st.strings.len() as int));
        assert(with_files.strings.take(own.strings.len() as int).take(st.strings.len() as int)
            =~= with_files.strings.take(st.strings.len() as int));
        assert(own.strings.take(st.strings.len() as int) =~= st.strings);
    }
}

/// Appending sub-directories only appends: what the index held stays where
/// it was. The lists grow by the directories and the files of the trees under
/// the sub-directories.
pub proof fn lemma_flat_children_keeps(
    st: FlatToc,
    children: Seq<TocDirectoryView>,
    prefix: Seq<char>,
    upto: int,
)
    ensures
        flat_children(st, children, prefix, upto).directories.take(st.directories.len() as int)
            == st.directories,
        flat_children(st, children, prefix, upto).files.take(st.files.len() as int) == st.files,
        flat_children(st, children, prefix, upto).strings.take(st.strings.len() as int)
            == st.strings,
        flat_children(st, children, prefix, upto).directories.len() == st.directories.len()
            + directories_in(children, upto),
        flat_children(st, children, prefix, upto).files.len() == st.files.len() + files_in(
            children,
            upto,
        ),
    decreases children, upto,
{
    if 0 < upto <= children.len() {
        let before = flat_children(st, children, prefix, upto - 1);
        let after = flat_children(st, children, prefix, upto);
        lemma_flat_children_keeps(st, children, prefix, upto - 1);
        lemma_flat_children_extends(st, children, prefix, upto - 1);
        lemma_flat_dir_keeps(before, children[upto - 1], prefix, upto < children.len());
        lemma_flat_dir_extends(before, children[upto - 1], prefix, upto < children.len());
        assert(after.directories.take(st.directories.len() as int) =~= after.directories.take(
            before.directories.len() as int,
        ).take(st.directories.len() as int));
        assert(after.files.take(st.files.len() as int) =~= after.files.take(
            before.files.len() as int,
        ).take(st.files.len() as int));
        assert(after.strings.take(st.strings.len() as int) =~= after.strings.take(
            before.strings.len() as int,
        ).take(st.strings.len() as int));
    } else {
        assert(st.directories.take(st.directories.len() as int) =~= st.directories);
        assert(st.files.take(st.files.len() as int) =~= st.files);
        assert(st.strings.take(st.strings.len() as int) =~= st.strings);
    }
}

/// The entry of file `k` of a directory stands `k` entries after where the
/// file list ended before the directory's files were appended. It names the
/// file, points to the entry after it unless the file is the last of its
/// directory, bears its own index, and carries the file's size, its source
/// path and its hash path.
pub proof fn lemma_flat_files_entry(
    st: FlatToc,
    files: Seq<TocFileView>,
    prefix: Seq<char>,
    upto: int,
    k: int,
)
    requires
        0 <= k < upto <= files.len(),
        flat_files(st, files, prefix, upto).fits(),
    ensures
        ({
            let after = flat_files(st, files, prefix, upto);
            let at = st.files.len() + k;
            let entry = after.files[at];
            &&& at < after.files.len()
            &&& entry.name < after.strings.len()
            &&& after.strings[entry.name as int] == files[k].name
            &&& entry.next_file == if k + 1 == files.len() {
                IO_INDEX_NONE
            } else {
                (at + 1) as u32
            }
            &&& entry.user_data == at
            &&& entry.file_size == files[k].file_size
            &&& entry.os_path == files[k].os_file_path
            &&& entry.hash_path == prefix + stem_of(files[k].name)
        }),
    decreases upto,
{
    let before = flat_files(st, files, prefix, upto - 1);
    let after = flat_files(st, files, prefix, upto);
    lemma_flat_files_extends(st, files, prefix, upto - 1);
    lemma_flat_files_extends(st, files, prefix, upto);
    lemma_flat_files_prefix(st, files, prefix, upto - 1, upto);
    lemma_intern(before.strings, files[upto - 1].name);
    if k < upto - 1 {
        lemma_flat_files_entry(st, files, prefix, upto - 1, k);
        assert(after.files[st.files.len() + k] == before.files[st.files.len() + k]);
    }
}

/// The entry of a directory stands where the index ended before the
/// directory was appended. It names the directory. Its first sub-directory,
/// where it has one, directly follows it; the next directory under the same
/// parent, where there is one, follows after all directories of the tree
/// under this one; and its first file, where it has one, is the first that
/// was appended.
pub proof fn lemma_flat_dir_entry(
    st: FlatToc,
    dir: TocDirectoryView,
    prefix: Seq<char>,
    has_next: bool,
)
    requires
        flat_dir(st, dir, prefix, has_next).fits(),
    ensures
        ({
            let target = flat_dir(st, dir, prefix, has_next);
            let at = st.directories.len() as int;
            let entry = target.directories[at];
            &&& at < target.directories.len()
            &&& entry.name < target.strings.len()
            &&& target.strings[entry.name as int] == dir.name
            &&& entry.first_child == if dir.children.len() > 0 {
                (at + 1) as u32
            } else {
                IO_INDEX_NONE
            }
            &&& entry.next_sibling == if has_next {
                (at + directory_count(dir)) as u32
            } else {
                IO_INDEX_NONE
            }
            &&& has_next ==> at + directory_count(dir) == target.directories.len()
            &&& entry.first_file == if dir.files.len() > 0 {
                st.files.len() as u32
            } else {
                IO_INDEX_NONE
            }
            &&& dir.files.len() > 0 ==> st.files.len() < target.files.len()
        }),
{
    let (pool, name_ix) = intern(st.strings, dir.name);
    lemma_intern(st.strings, dir.name);
    let at = st.directories.len() as int;
    let entry = IoDirectoryIndexEntry {
        name: name_ix as u32,
        first_child: if dir.children.len() > 0 {
            (at + 1) as u32
        } else {
            IO_INDEX_NONE
        },
        next_sibling: IO_INDEX_NONE,
        first_file: if dir.files.len() > 0 {
            st.files.len() as u32
        } else {
            IO_INDEX_NONE
        },
    };
    let own = FlatToc { directories: st.directories.push(entry), files: st.files, strings: pool };
    let inner = prefix + dir.name + slash();
    let with_files = flat_files(own, dir.files, inner, dir.files.len() as int);
    let all = flat_children(with_files, dir.children, inner, dir.children.len() as int);
    let target = flat_dir(st, dir, prefix, has_next);
    lemma_flat_dir_keeps(st, dir, prefix, has_next);
    lemma_flat_files_extends(own, dir.files, inner, dir.files.len() as int);
    lemma_flat_files_keeps(own, dir.files, inner, dir.files.len() as int);
    lemma_flat_children_extends(with_files, dir.children, inner, dir.children.len() as int);
    lemma_flat_children_keeps(with_files, dir.children, inner, dir.children.len() as int);
    assert(all.directories.take(with_files.directories.len() as int)[at] == all.directories[at]);
    assert(own.directories[at] == entry);
    assert(all.strings.take(with_files.strings.len() as int)[name_ix] == all.strings[name_ix]);
    assert(with_files.strings.take(own.strings.len() as int)[name_ix]
        == with_files.strings[name_ix]);
}

/// The three lists of the directory index while they are filled.
pub struct FlatIndex {
    pub directories: Vec<IoDirectoryIndexEntry>,
    pub files: Vec<IoFileIndexEntry>,
    pub strings: Vec<String>,
}

impl View for FlatIndex {
    type V = FlatToc;

    open spec fn view(&self) -> FlatToc {
        FlatToc {
            directories: self.directories@,
            files: file_entry_views(self.files@),
            strings: string_views(self.strings@),
        }
    }
}

impl FlatIndex {
    /// An index without entries.
    pub fn new() -> (index: Self)
        ensures
            index@ == FlatToc::empty(),
    {
        let index = FlatIndex { directories: Vec::new(), files: Vec::new(), strings: Vec::new() };
        proof {
            assert(index@.files =~= Seq::empty());
            assert(index@.strings =~= Seq::empty());
        }
        index
    }

    /// Looks `name` up in the string pool, appending it where it is new, and
    /// gives its index. Nothing is appended, and no index given, where the
    /// pool is full.
    pub fn get_string_index(&mut self, name: &str) -> (r: Option<u32>)
        requires
            old(self)@.fits(),
        ensures
            ({
                let (pool, ix) = intern(old(self)@.strings, name@);
                &&& r is Some <==> pool.len() <= FLAT_INDEX_LIMIT
                &&& r is Some ==> r->0 == ix && final(self)@.strings == pool
                &&& r is None ==> final(self)@.strings == old(self)@.strings
            }),
            final(self).directories == old(self).directories,
            final(self).files == old(self).files,
    {
        let ghost pool = self@.strings;
        let n = self.strings.len();
        let mut i: usize = 0;
        while i < n
            invariant
                *self == *old(self),
                pool == self@.strings,
                n == self.strings@.len(),
                n <= FLAT_INDEX_LIMIT,
                i <= n,
                forall|j: int| 0 <= j < i ==> pool[j] != name@,
            decreases n - i,
        {
            assert(pool[i as int] == self.strings@[i as int]@);
            if str_eq(self.strings[i].as_str(), name) {
                proof {
                    lemma_first_index(pool, name@, i as int);
                }
                return Some(i as u32);
            }
            i = i + 1;
        }
        proof {
            lemma_no_index(pool, name@);
        }
        if n >= FLAT_INDEX_LIMIT {
            return None;
        }
        self.strings.push(String::from_str(name));
        proof {
            assert(self@.strings =~= pool.push(name@));
        }
        Some(n as u32)
    }

    /// Appends the files of `node`, in order.
    pub fn add_files(&mut self, node: &TocDirectory, prefix: &str) -> (r: Result<(), TocBuildError>)
        requires
            old(self)@.fits(),
        ensures
            ({
                let target = flat_files(
                    old(self)@,
                    node@.files,
                    prefix@,
                    node@.files.len() as int,
                );
                &&& r is Ok <==> target.fits()
                &&& r is Ok ==> final(self)@ == target
                &&& r is Err ==> r == Err::<(), TocBuildError>(TocBuildError::TooManyEntries)
            }),
    {
        let ghost files = node@.files;
        let ghost start = self@;
        let n = node.files.len();
        proof {
            node.lemma_view();
        }
        let mut i: usize = 0;
        while i < n
            invariant
                start == old(self)@,
                files == node@.files,
                n == node.files@.len(),
                n == files.len(),
                i <= n,
                self@ == flat_files(start, files, prefix@, i as int),
                self@.fits(),
            decreases n - i,
        {
            let file = &node.files[i];
            proof {
                node.lemma_view();
                assert(files[i as int] == file@);
                lemma_flat_files_prefix(start, files, prefix@, i + 1, n as int);
                lemma_intern(self@.strings, file@.name);
            }
            let ghost cur = self@;
            let ghost next = flat_files(start, files, prefix@, i + 1);
            proof {
                assert(next == flat_file(cur, files[i as int], prefix@, i + 1 == n));
            }
            let name_ix = match self.get_string_index(file.name.as_str()) {
                Some(ix) => ix,
                None => {
                    proof {
                        assert(!next.fits());
                    }
                    return Err(TocBuildError::TooManyEntries);
                },
            };
            let at = self.files.len();
            if at >= FLAT_INDEX_LIMIT {
                proof {
                    assert(next.files.len() == at + 1);
                    assert(!next.fits());
                }
                return Err(TocBuildError::TooManyEntries);
            }
            let mut hash_path = String::from_str(prefix);
            hash_path.append(file_stem(file.name.as_str()));
            let entry = IoFileIndexEntry {
                name: name_ix,
                next_file: if i + 1 == n {
                    IO_INDEX_NONE
                } else {
                    (at + 1) as u32
                },
                user_data: at as u32,
                file_size: file.file_size,
                os_path: file.os_file_path.clone(),
                hash_path,
            };
            self.files.push(entry);
            proof {
                assert(self@.files =~= flat_files(start, files, prefix@, i + 1).files);
            }
            i = i + 1;
        }
        Ok(())
    }

    /// Appends `node` with all that it holds.
    pub fn flatten_toc_tree_dir(
        &mut self,
        node: &TocDirectory,
        prefix: &str,
        has_next: bool,
    ) -> (r: Result<(), TocBuildError>)
        requires
            old(self)@.fits(),
        ensures
            ({
                let target = flat_dir(old(self)@, node@, prefix@, has_next);
                &&& r is Ok <==> target.fits()
                &&& r is Ok ==> final(self)@ == target
                &&& r is Err ==> r == Err::<(), TocBuildError>(TocBuildError::TooManyEntries)
            }),
        decreases node,
    {
        let ghost start = self@;
        let ghost dir = node@;
        let ghost inner_path = prefix@ + dir.name + slash();
        proof {
            node.lemma_view();
            lemma_intern(start.strings, dir.name);
            lemma_flat_dir_extends(start, dir, prefix@, has_next);
        }
        let name_ix = match self.get_string_index(node.name.as_str()) {
            Some(ix) => ix,
            None => {
                return Err(TocBuildError::TooManyEntries);
            },
        };
        let at = self.directories.len();
        if at >= FLAT_INDEX_LIMIT {
            return Err(TocBuildError::TooManyEntries);
        }
        let entry = IoDirectoryIndexEntry {
            name: name_ix,
            first_child: if node.children.len() > 0 {
                (at + 1) as u32
            } else {
                IO_INDEX_NONE
            },
            next_sibling: IO_INDEX_NONE,
            first_file: if node.files.len() > 0 {
                self.files.len() as u32
            } else {
                IO_INDEX_NONE
            },
        };
        self.directories.push(entry);
        let ghost own = self@;
        let mut inner = String::from_str(prefix);
        inner.append(node.name.as_str());
        inner.append("/");
        proof {
            reveal_strlit("/");
            assert("/"@ =~= slash());
            assert(inner@ =~= inner_path);
        }
        let ghost with_files = flat_files(own, dir.files, inner_path, dir.files.len() as int);
        proof {
            lemma_flat_children_extends(
                with_files,
                dir.children,
                inner_path,
                dir.children.len() as int,
            );
        }
        match self.add_files(node, inner.as_str()) {
            Ok(()) => {},
            Err(e) => {
                return Err(e);
            },
        }
        let n = node.children.len();
        let ghost all = flat_children(with_files, dir.children, inner_path, n as int);
        let ghost target = flat_dir(start, dir, prefix@, has_next);
        proof {
            lemma_flat_files_extends(own, dir.files, inner_path, dir.files.len() as int);
            assert(own.directories == start.directories.push(entry));
            assert(target.fits() <==> all.fits());
            assert(at < all.directories.len());
        }
        let mut i: usize = 0;
        while i < n
            invariant
                dir == node@,
                n == node.children@.len(),
                n == dir.children.len(),
                inner@ == inner_path,
                i <= n,
                self@ == flat_children(with_files, dir.children, inner_path, i as int),
                self@.fits(),
                all == flat_children(with_files, dir.children, inner_path, n as int),
                target == flat_dir(old(self)@, node@, prefix@, has_next),
                target.fits() <==> all.fits(),
                at < all.directories.len(),
                target == if has_next {
                    FlatToc {
                        directories: all.directories.update(
                            at as int,
                            IoDirectoryIndexEntry {
                                next_sibling: all.directories.len() as u32,
                                ..all.directories[at as int]
                            },
                        ),
                        ..all
                    }
                } else {
                    all
                },
            decreases n - i,
        {
            proof {
                node.lemma_view();
                lemma_flat_children_prefix(with_files, dir.children, inner_path, i + 1, n as int);
            }
            let ghost next = flat_children(with_files, dir.children, inner_path, i + 1);
            proof {
                assert(next == flat_dir(self@, dir.children[i as int], inner_path, i + 1 < n));
            }
            match self.flatten_toc_tree_dir(&node.children[i], inner.as_str(), i + 1 < n) {
                Ok(()) => {},
                Err(e) => {
                    proof {
                        assert(!next.fits());
                        assert(all.extends(next));
                        assert(!all.fits());
                    }
                    return Err(e);
                },
            }
            i = i + 1;
        }
        if has_next {
            let mut patched = self.directories[at];
            patched.next_sibling = self.directories.len() as u32;
            self.directories[at] = patched;
        }
        proof {
            assert(self@.directories =~= target.directories);
        }
        Ok(())
    }
}

} // verus!
