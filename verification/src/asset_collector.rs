//! The asset tree: directories and files gathered from the mods, merged by
//! path. A file that a later mod contributes under a name already present
//! takes the earlier file's place; everything else keeps its insertion order.

use crate::io_package::{is_cooked_package, is_valid_asset_type};
use crate::partition::{extension_of, file_extension};
use crate::string::{lemma_first_index, lemma_no_index, str_eq};
use std::rc::Rc;
use vstd::prelude::*;
use vstd::string::StringExecFns;

verus! {

pub const FILE_EMULATION_FRAMEWORK_FOLDER: &'static str = "FEmulator";

pub const EMULATOR_NAME: &'static str = "UTOC";

pub const PROJECT_NAME: &'static str = "UnrealEssentials";

pub const MOUNT_POINT: &'static str = "../../../";

/// A file of the tree.
#[derive(Debug)]
pub struct TocFile {
    /// File name with its extension.
    pub name: String,
    /// Size on disk when the file was collected.
    pub file_size: u64,
    /// Where the content can be read again.
    pub os_file_path: String,
}

/// The mathematical content of a [`TocFile`].
pub struct TocFileView {
    pub name: Seq<char>,
    pub file_size: u64,
    pub os_file_path: Seq<char>,
}

impl View for TocFile {
    type V = TocFileView;

    open spec fn view(&self) -> TocFileView {
        TocFileView {
            name: self.name@,
            file_size: self.file_size,
            os_file_path: self.os_file_path@,
        }
    }
}

impl TocFile {
    pub fn new(name: &str, file_size: u64, os_path: &str) -> (file: Self)
        ensures
            file@ == (TocFileView { name: name@, file_size, os_file_path: os_path@ }),
    {
        Self { name: String::from_str(name), file_size, os_file_path: String::from_str(os_path) }
    }

    /// A new file behind a reference count.
    pub fn new_rc(name: &str, file_size: u64, os_path: &str) -> (file: Rc<Self>)
        ensures
            file@ == (TocFileView { name: name@, file_size, os_file_path: os_path@ }),
    {
        Rc::new(TocFile::new(name, file_size, os_path))
    }
}

/// What [`TocDirectory::add_or_replace_file`] did with the file it was given.
#[derive(Debug, Clone, Copy, PartialEq, Eq, Structural)]
pub enum TocFileAddType {
    Addition,
    Replacement,
}

/// A directory of the tree, owning its sub-directories and files in the
/// order in which they were first added.
#[derive(Debug)]
pub struct TocDirectory {
    /// The directory's own name, not a path.
    pub name: String,
    pub children: Vec<TocDirectory>,
    pub files: Vec<TocFile>,
}

/// The mathematical content of a [`TocDirectory`].
pub struct TocDirectoryView {
    pub name: Seq<char>,
    pub children: Seq<TocDirectoryView>,
    pub files: Seq<TocFileView>,
}

impl TocDirectoryView {
    /// A directory without content.
    pub open spec fn empty(name: Seq<char>) -> Self {
        TocDirectoryView { name, children: Seq::empty(), files: Seq::empty() }
    }

    pub open spec fn child_names(self) -> Seq<Seq<char>> {
        self.children.map_values(|d: TocDirectoryView| d.name)
    }

    pub open spec fn file_names(self) -> Seq<Seq<char>> {
        self.files.map_values(|f: TocFileView| f.name)
    }

    /// No two sub-directories and no two files of one directory share a name,
    /// anywhere in the tree.
    pub open spec fn wf(self) -> bool
        decreases self,
    {
        &&& self.child_names().no_duplicates()
        &&& self.file_names().no_duplicates()
        &&& forall|i: int| 0 <= i < self.children.len() ==> (#[trigger] self.children[i]).wf()
    }

    /// The slot of the sub-directory called `name`.
    pub open spec fn child_index(self, name: Seq<char>) -> Option<int> {
        self.child_names().index_of_first(name)
    }

    /// The slot of the file called `name`.
    pub open spec fn file_index(self, name: Seq<char>) -> Option<int> {
        self.file_names().index_of_first(name)
    }

    /// The directory after `file` was put into it: in the slot of the file of
    /// that name where there is one, at the end otherwise.
    pub open spec fn upsert_file(self, file: TocFileView) -> Self {
        TocDirectoryView {
            files: match self.file_index(file.name) {
                Some(i) => self.files.update(i, file),
                None => self.files.push(file),
            },
            ..self
        }
    }

    /// The directory with `child` appended to its sub-directories.
    pub open spec fn push_child(self, child: TocDirectoryView) -> Self {
        TocDirectoryView { children: self.children.push(child), ..self }
    }

    /// The directory with sub-directory `i` replaced by `child`.
    pub open spec fn set_child(self, i: int, child: TocDirectoryView) -> Self {
        TocDirectoryView { children: self.children.update(i, child), ..self }
    }

    /// The directory after a sub-directory called `name` was asked for: as it
    /// was where one exists, with an empty one appended otherwise.
    pub open spec fn ensure_child(self, name: Seq<char>) -> Self {
        match self.child_index(name) {
            Some(i) => self,
            None => self.push_child(TocDirectoryView::empty(name)),
        }
    }

    /// The slot in which [`TocDirectoryView::ensure_child`] leaves the
    /// sub-directory called `name`.
    pub open spec fn ensured_index(self, name: Seq<char>) -> int {
        match self.child_index(name) {
            Some(i) => i,
            None => self.children.len() as int,
        }
    }
}

impl View for TocDirectory {
    type V = TocDirectoryView;

    open spec fn view(&self) -> TocDirectoryView
        decreases self,
    {
        TocDirectoryView {
            name: self.name@,
            children: Seq::new(
                self.children@.len(),
                |i: int|
                    if 0 <= i < self.children@.len() {
                        self.children@[i]@
                    } else {
                        TocDirectoryView::empty(Seq::empty())
                    },
            ),
            files: self.files@.map_values(|f: TocFile| f@),
        }
    }
}

impl TocDirectory {
    /// How the view of a directory is made of its fields.
    pub proof fn lemma_view(&self)
        ensures
            self@.name == self.name@,
            self@.children.len() == self.children@.len(),
            forall|i: int|
                0 <= i < self.children@.len() ==> #[trigger] self@.children[i]
                    == self.children@[i]@,
            self@.files.len() == self.files@.len(),
            forall|i: int|
                0 <= i < self.files@.len() ==> #[trigger] self@.files[i] == self.files@[i]@,
    {
    }

    /// An empty directory called `name`.
    pub fn new(name: &str) -> (dir: Self)
        ensures
            dir@ == TocDirectoryView::empty(name@),
            dir@.wf(),
    {
        let dir = Self { name: String::from_str(name), children: Vec::new(), files: Vec::new() };
        proof {
            assert(dir@.children =~= Seq::empty());
            assert(dir@.files =~= Seq::empty());
        }
        dir
    }

    /// An empty directory behind a reference count.
    pub fn new_rc(name: &str) -> (dir: Rc<Self>)
        ensures
            dir@ == TocDirectoryView::empty(name@),
    {
        Rc::new(TocDirectory::new(name))
    }

    /// Whether the directory holds a sub-directory.
    pub fn has_children(dir: &TocDirectory) -> (b: bool)
        ensures
            b == (dir@.children.len() > 0),
    {
        dir.children.len() > 0
    }

    /// Whether the directory holds a file.
    pub fn has_files(dir: &TocDirectory) -> (b: bool)
        ensures
            b == (dir@.files.len() > 0),
    {
        dir.files.len() > 0
    }

    /// Puts `file` into the directory. A file of the same name is replaced in
    /// its slot; otherwise the file is appended.
    pub fn add_or_replace_file(dir: &mut TocDirectory, file: TocFile) -> (how: TocFileAddType)
        ensures
            final(dir)@ == old(dir)@.upsert_file(file@),
            how == TocFileAddType::Replacement <==> old(dir)@.file_names().contains(file@.name),
            how == TocFileAddType::Addition <==> !old(dir)@.file_names().contains(file@.name),
            old(dir)@.wf() ==> final(dir)@.wf(),
    {
        let ghost names = dir@.file_names();
        let n = dir.files.len();
        let mut i: usize = 0;
        while i < n
            invariant
                *dir == *old(dir),
                n == dir.files@.len(),
                names == dir@.file_names(),
                i <= n,
                forall|j: int| 0 <= j < i ==> names[j] != file@.name,
            decreases n - i,
        {
            assert(names[i as int] == dir.files@[i as int].name@);
            if str_eq(dir.files[i].name.as_str(), file.name.as_str()) {
                proof {
                    lemma_first_index(names, file@.name, i as int);
                    assert(names.contains(file@.name));
                    if dir@.wf() {
                        lemma_upsert_keeps_wf(dir@, file@);
                    }
                }
                dir.files[i] = file;
                proof {
                    assert(dir@.files =~= old(dir)@.files.update(i as int, file@));
                    assert(dir@.children =~= old(dir)@.children);
                }
                return TocFileAddType::Replacement;
            }
            i = i + 1;
        }
        proof {
            lemma_no_index(names, file@.name);
            if dir@.wf() {
                lemma_upsert_keeps_wf(dir@, file@);
            }
        }
        dir.files.push(file);
        proof {
            assert(dir@.files =~= old(dir)@.files.push(file@));
            assert(dir@.children =~= old(dir)@.children);
        }
        TocFileAddType::Addition
    }

    /// The slot of the sub-directory called `exist`.
    pub fn get_child_dir(parent: &TocDirectory, exist: &str) -> (slot: Option<usize>)
        ensures
            match slot {
                Some(i) => parent@.child_index(exist@) == Some(i as int) && i
                    < parent.children@.len(),
                None => parent@.child_index(exist@) is None,
            },
    {
        let ghost names = parent@.child_names();
        let n = parent.children.len();
        let mut i: usize = 0;
        while i < n
            invariant
                n == parent.children@.len(),
                names == parent@.child_names(),
                i <= n,
                forall|j: int| 0 <= j < i ==> names[j] != exist@,
            decreases n - i,
        {
            proof {
                parent.children@[i as int].lemma_view();
            }
            if str_eq(parent.children[i].name.as_str(), exist) {
                proof {
                    lemma_first_index(names, exist@, i as int);
                }
                return Some(i);
            }
            i = i + 1;
        }
        proof {
            lemma_no_index(names, exist@);
        }
        None
    }

    /// Appends `child` to the sub-directories of `parent`.
    pub fn add_directory(parent: &mut TocDirectory, child: TocDirectory)
        ensures
            final(parent)@ == old(parent)@.push_child(child@),
            old(parent)@.wf() && child@.wf() && !old(parent)@.child_names().contains(child@.name)
                ==> final(parent)@.wf(),
    {
        proof {
            if parent@.wf() && child@.wf() && !parent@.child_names().contains(child@.name) {
                lemma_push_child_keeps_wf(parent@, child@);
            }
        }
        parent.children.push(child);
        proof {
            assert(parent@.children =~= old(parent)@.children.push(child@));
            assert(parent@.files =~= old(parent)@.files);
        }
    }

    /// Finds the sub-directory called `name`, appending an empty one when
    /// there is none, and gives its slot.
    pub fn ensure_child(parent: &mut TocDirectory, name: &str) -> (slot: usize)
        ensures
            final(parent)@ == old(parent)@.ensure_child(name@),
            slot as int == old(parent)@.ensured_index(name@),
            slot < final(parent).children@.len(),
            final(parent)@.children[slot as int].name == name@,
            old(parent)@.wf() ==> final(parent)@.wf(),
    {
        match TocDirectory::get_child_dir(parent, name) {
            Some(i) => {
                proof {
                    parent@.child_names().index_of_first_ensures(name@);
                    assert(parent@.child_names()[i as int] == parent@.children[i as int].name);
                }
                i
            },
            None => {
                let slot = parent.children.len();
                proof {
                    parent@.child_names().index_of_first_ensures(name@);
                }
                TocDirectory::add_directory(parent, TocDirectory::new(name));
                proof {
                    parent.lemma_view();
                }
                slot
            },
        }
    }
}

/// A count one higher, or the same where it cannot grow.
pub open spec fn count_up(count: u64) -> u64 {
    if count < u64::MAX {
        (count + 1) as u64
    } else {
        count
    }
}

/// A file system object that could not be looked at, and why.
#[derive(Debug)]
pub struct AssetCollectorProfilerFailedFsObject {
    pub os_path: String,
    pub reason: String,
}

/// A file that did not go into the tree, and why.
#[derive(Debug)]
pub struct AssetCollectorSkippedFileCount {
    pub os_path: String,
    pub reason: String,
}

/// A path with the reason for which it was noted.
pub struct NotedPath {
    pub os_path: Seq<char>,
    pub reason: Seq<char>,
}

impl View for AssetCollectorProfilerFailedFsObject {
    type V = NotedPath;

    open spec fn view(&self) -> NotedPath {
        NotedPath { os_path: self.os_path@, reason: self.reason@ }
    }
}

impl View for AssetCollectorSkippedFileCount {
    type V = NotedPath;

    open spec fn view(&self) -> NotedPath {
        NotedPath { os_path: self.os_path@, reason: self.reason@ }
    }
}

/// What the collection of one mod did.
#[derive(Debug)]
pub struct AssetCollectorProfilerModContents {
    pub failed_file_system_objects: Vec<AssetCollectorProfilerFailedFsObject>,
    pub directory_count: u64,
    pub added_files_count: u64,
    pub replaced_files_count: u64,
    pub incorrect_asset_header: Vec<String>,
    pub skipped_files: Vec<AssetCollectorSkippedFileCount>,
    /// Microseconds that the collection took.
    pub time_to_tree: u128,
}

/// The mathematical content of an [`AssetCollectorProfilerModContents`].
pub struct CollectReport {
    pub failed: Seq<NotedPath>,
    pub directory_count: u64,
    pub added_files_count: u64,
    pub replaced_files_count: u64,
    pub incorrect_asset_header: Seq<Seq<char>>,
    pub skipped: Seq<NotedPath>,
    pub time_to_tree: u128,
}

impl View for AssetCollectorProfilerModContents {
    type V = CollectReport;

    open spec fn view(&self) -> CollectReport {
        CollectReport {
            failed: self.failed_file_system_objects@.map_values(
                |f: AssetCollectorProfilerFailedFsObject| f@,
            ),
            directory_count: self.directory_count,
            added_files_count: self.added_files_count,
            replaced_files_count: self.replaced_files_count,
            incorrect_asset_header: self.incorrect_asset_header@.map_values(|s: String| s@),
            skipped: self.skipped_files@.map_values(|f: AssetCollectorSkippedFileCount| f@),
            time_to_tree: self.time_to_tree,
        }
    }
}

impl CollectReport {
    /// Nothing noted.
    pub open spec fn empty() -> CollectReport {
        CollectReport {
            failed: Seq::empty(),
            directory_count: 0,
            added_files_count: 0,
            replaced_files_count: 0,
            incorrect_asset_header: Seq::empty(),
            skipped: Seq::empty(),
            time_to_tree: 0,
        }
    }

    pub open spec fn with_failed(self, os_path: Seq<char>, reason: Seq<char>) -> CollectReport {
        CollectReport { failed: self.failed.push(NotedPath { os_path, reason }), ..self }
    }

    pub open spec fn with_skipped(self, os_path: Seq<char>, reason: Seq<char>) -> CollectReport {
        CollectReport { skipped: self.skipped.push(NotedPath { os_path, reason }), ..self }
    }

    pub open spec fn with_incorrect_header(self, os_path: Seq<char>) -> CollectReport {
        CollectReport {
            incorrect_asset_header: self.incorrect_asset_header.push(os_path),
            ..self
        }
    }

    pub open spec fn with_directory(self) -> CollectReport {
        CollectReport { directory_count: count_up(self.directory_count), ..self }
    }

    pub open spec fn with_added_file(self) -> CollectReport {
        CollectReport { added_files_count: count_up(self.added_files_count), ..self }
    }

    pub open spec fn with_replaced_file(self) -> CollectReport {
        CollectReport { replaced_files_count: count_up(self.replaced_files_count), ..self }
    }
}

impl AssetCollectorProfilerModContents {
    pub fn new() -> (contents: Self)
        ensures
            contents@ == CollectReport::empty(),
    {
        let contents = Self {
            failed_file_system_objects: Vec::new(),
            directory_count: 0,
            added_files_count: 0,
            replaced_files_count: 0,
            incorrect_asset_header: Vec::new(),
            skipped_files: Vec::new(),
            time_to_tree: 0,
        };
        proof {
            assert(contents@.failed =~= Seq::empty());
            assert(contents@.incorrect_asset_header =~= Seq::empty());
            assert(contents@.skipped =~= Seq::empty());
        }
        contents
    }

    /// Notes an object under `parent_dir` that could not be looked at.
    pub fn add_failed_fs_object(&mut self, parent_dir: &str, reason: String)
        ensures
            final(self)@ == old(self)@.with_failed(parent_dir@, reason@),
    {
        self.failed_file_system_objects.push(
            AssetCollectorProfilerFailedFsObject { os_path: String::from_str(parent_dir), reason },
        );
        proof {
            assert(self@.failed =~= old(self)@.failed.push(
                NotedPath { os_path: parent_dir@, reason: reason@ },
            ));
            assert(self@.incorrect_asset_header =~= old(self)@.incorrect_asset_header);
            assert(self@.skipped =~= old(self)@.skipped);
        }
    }

    /// Notes a file that did not go into the tree.
    pub fn add_skipped_file(&mut self, os_path: &str, reason: String)
        ensures
            final(self)@ == old(self)@.with_skipped(os_path@, reason@),
    {
        self.skipped_files.push(
            AssetCollectorSkippedFileCount { os_path: String::from_str(os_path), reason },
        );
        proof {
            assert(self@.skipped =~= old(self)@.skipped.push(
                NotedPath { os_path: os_path@, reason: reason@ },
            ));
            assert(self@.incorrect_asset_header =~= old(self)@.incorrect_asset_header);
            assert(self@.failed =~= old(self)@.failed);
        }
    }

    /// Notes a package that was refused because of its header.
    pub fn add_incorrect_asset_header(&mut self, os_path: &str)
        ensures
            final(self)@ == old(self)@.with_incorrect_header(os_path@),
    {
        self.incorrect_asset_header.push(String::from_str(os_path));
        proof {
            assert(self@.incorrect_asset_header =~= old(self)@.incorrect_asset_header.push(
                os_path@,
            ));
            assert(self@.skipped =~= old(self)@.skipped);
            assert(self@.failed =~= old(self)@.failed);
        }
    }

    /// Counts a directory.
    pub fn add_directory(&mut self)
        ensures
            final(self)@ == old(self)@.with_directory(),
    {
        self.directory_count = self.directory_count.saturating_add(1);
    }

    /// Counts a file that was added.
    pub fn add_added_file(&mut self)
        ensures
            final(self)@ == old(self)@.with_added_file(),
    {
        self.added_files_count = self.added_files_count.saturating_add(1);
    }

    /// Counts a file that took the place of another.
    pub fn add_replaced_file(&mut self)
        ensures
            final(self)@ == old(self)@.with_replaced_file(),
    {
        self.replaced_files_count = self.replaced_files_count.saturating_add(1);
    }

    /// Notes the time that the collection took, as measured by the caller.
    pub fn get_tree_time(&mut self, elapsed_micros: u128)
        ensures
            final(self)@ == (CollectReport { time_to_tree: elapsed_micros, ..old(self)@ }),
    {
        self.time_to_tree = elapsed_micros;
    }
}

/// What is known of the collection of one mod.
#[derive(Debug)]
pub struct AssetCollectorProfilerMod {
    /// Identifier of the mod.
    pub uid: String,
    /// Root directory of the mod.
    pub os_path: String,
    /// What the collection did, where the mod has something to collect.
    pub data: Option<AssetCollectorProfilerModContents>,
}

impl AssetCollectorProfilerMod {
    pub fn new(mod_id: &str, mod_path: &str) -> (profiler: Self)
        ensures
            profiler.uid@ == mod_id@,
            profiler.os_path@ == mod_path@,
            profiler.data is None,
    {
        Self { uid: String::from_str(mod_id), os_path: String::from_str(mod_path), data: None }
    }

    /// Marks the mod as one that has something to collect.
    pub fn valid_mod(&mut self)
        ensures
            final(self).uid == old(self).uid,
            final(self).os_path == old(self).os_path,
            final(self).data is Some,
            final(self).data->0@ == CollectReport::empty(),
    {
        self.data = Some(AssetCollectorProfilerModContents::new());
    }

    /// What the collection did. The mod must have been marked as valid.
    pub fn get_contents_mut(&mut self) -> (contents: &mut AssetCollectorProfilerModContents)
        requires
            old(self).data is Some,
        ensures
            *contents == old(self).data->0,
            final(self).data == Some(*final(contents)),
            final(self).uid == old(self).uid,
            final(self).os_path == old(self).os_path,
    {
        self.data.as_mut().unwrap()
    }
}

/// What is known of the collection of all mods.
#[derive(Debug)]
pub struct AssetCollectorProfiler {
    pub mods_loaded: Vec<AssetCollectorProfilerMod>,
}

impl AssetCollectorProfiler {
    pub fn new() -> (profiler: Self)
        ensures
            profiler.mods_loaded@ == Seq::<AssetCollectorProfilerMod>::empty(),
    {
        Self { mods_loaded: Vec::new() }
    }
}

/// The extensions of the files that become chunks of their own.
pub const SUITABLE_FILE_EXTENSIONS: [&'static str; 3] = ["uasset", "ubulk", "uptnl"];

/// What kind of object a directory listing showed.
#[derive(Debug, Clone, Copy, PartialEq, Eq, Structural)]
pub enum FsKind {
    /// The entry could not be looked at.
    Failed,
    Directory,
    /// A regular file.
    File,
    /// Neither a directory nor a regular file.
    Other,
}

/// One entry of a directory listing, as the caller found it on disk.
#[derive(Debug)]
pub struct FsEntry {
    /// The entry's name, where it is valid Unicode.
    pub name: Option<String>,
    /// The entry's full path.
    pub os_path: String,
    pub kind: FsKind,
    /// For a failed entry, the reason.
    pub reason: String,
    /// For a file, its size.
    pub size: u64,
    /// For a file, its first bytes (four are enough), where they could be
    /// read.
    pub header: Option<Vec<u8>>,
    /// For a directory, its entries.
    pub entries: Vec<FsEntry>,
}

/// The mathematical content of an [`FsEntry`].
pub struct FsEntryView {
    pub name: Option<Seq<char>>,
    pub os_path: Seq<char>,
    pub kind: FsKind,
    pub reason: Seq<char>,
    pub size: u64,
    pub header: Option<Seq<u8>>,
    pub entries: Seq<FsEntryView>,
}

/// The view of a text that may be missing.
pub open spec fn option_text(text: Option<String>) -> Option<Seq<char>> {
    match text {
        Some(t) => Some(t@),
        None => None,
    }
}

/// The view of bytes that may be missing.
pub open spec fn option_bytes(bytes: Option<Vec<u8>>) -> Option<Seq<u8>> {
    match bytes {
        Some(b) => Some(b@),
        None => None,
    }
}

impl View for FsEntry {
    type V = FsEntryView;

    open spec fn view(&self) -> FsEntryView
        decreases self,
    {
        FsEntryView {
            name: option_text(self.name),
            os_path: self.os_path@,
            kind: self.kind,
            reason: self.reason@,
            size: self.size,
            header: option_bytes(self.header),
            entries: listing_view(self.entries@),
        }
    }
}

/// The views of the entries of a listing.
pub open spec fn listing_view(entries: Seq<FsEntry>) -> Seq<FsEntryView>
    decreases entries,
{
    if entries.len() == 0 {
        Seq::empty()
    } else {
        listing_view(entries.drop_last()).push(entries.last()@)
    }
}

/// The view of a listing holds the view of each entry.
pub proof fn lemma_listing_view(entries: Seq<FsEntry>)
    ensures
        listing_view(entries).len() == entries.len(),
        forall|i: int|
            0 <= i < entries.len() ==> #[trigger] listing_view(entries)[i] == entries[i]@,
    decreases entries.len(),
{
    if entries.len() > 0 {
        let front = entries.drop_last();
        lemma_listing_view(front);
        assert(listing_view(entries) == listing_view(front).push(entries.last()@));
        assert forall|i: int| 0 <= i < entries.len() implies #[trigger] listing_view(entries)[i]
            == entries[i]@ by {
            if i < front.len() {
                assert(front[i] == entries[i]);
            }
        }
    }
}

impl FsEntry {
    /// How the view of an entry is made of its fields.
    pub proof fn lemma_view(&self)
        ensures
            self@.name == option_text(self.name),
            self@.os_path == self.os_path@,
            self@.kind == self.kind,
            self@.reason == self.reason@,
            self@.size == self.size,
            self@.header == option_bytes(self.header),
            self@.entries == listing_view(self.entries@),
    {
    }
}

/// What the collector does with a file, told by its name and its first
/// bytes.
#[derive(Debug, Clone, Copy, PartialEq, Eq, Structural)]
pub enum FileVerdict {
    /// The file becomes a chunk.
    Accepted,
    /// The file is the export data of a package: it is taken note of without
    /// becoming a chunk of its own.
    Companion,
    /// The file name has no extension.
    NoExtension,
    /// The extension is none that the container holds.
    Unsupported,
    /// The file is a package cooked for the legacy format.
    Cooked,
    /// The file is a package whose first bytes could not be read.
    Unreadable,
}

/// What the collector does with the file called `name` whose first bytes are
/// `header`. Extensions are told apart by case. Only a package is looked at
/// for its first bytes.
pub open spec fn file_verdict(name: Seq<char>, header: Option<Seq<u8>>) -> FileVerdict {
    match extension_of(name) {
        None => FileVerdict::NoExtension,
        Some(ext) => if ext == "uasset"@ {
            match header {
                None => FileVerdict::Unreadable,
                Some(first) => if is_cooked_package(first) {
                    FileVerdict::Cooked
                } else {
                    FileVerdict::Accepted
                },
            }
        } else if ext == "ubulk"@ || ext == "uptnl"@ {
            FileVerdict::Accepted
        } else if ext == "uexp"@ {
            FileVerdict::Companion
        } else {
            FileVerdict::Unsupported
        },
    }
}

/// The reason noted with a refused file.
pub open spec fn verdict_reason(verdict: FileVerdict) -> Seq<char> {
    match verdict {
        FileVerdict::NoExtension => "No file extension"@,
        FileVerdict::Unsupported => "Unsupported file type"@,
        FileVerdict::Cooked => "Uses cooked package"@,
        _ => Seq::empty(),
    }
}

/// The reason noted with an entry whose name is not valid Unicode.
pub open spec fn reason_bad_name() -> Seq<char> {
    "File name is not valid Unicode"@
}

/// The reason noted with an entry that is neither directory nor file.
pub open spec fn reason_not_a_file() -> Seq<char> {
    "Not a regular file or directory"@
}

/// The reason noted with a package whose first bytes could not be read.
pub open spec fn reason_unreadable() -> Seq<char> {
    "Could not read file header"@
}

/// The tree and the report after one entry of a listing was merged into the
/// directory `dir`.
///
/// A directory is merged into the sub-directory of its name, which is made
/// where it is missing, and counted. An accepted file takes the place of the
/// file of its name or is appended, and is counted as replaced or added.
/// Everything else leaves the tree as it is and is noted with its reason.
pub open spec fn merge_entry(dir: TocDirectoryView, report: CollectReport, entry: FsEntryView) -> (
    TocDirectoryView,
    CollectReport,
)
    decreases entry,
{
    match entry.kind {
        FsKind::Failed => (dir, report.with_failed(entry.os_path, entry.reason)),
        FsKind::Other => (dir, report.with_skipped(entry.os_path, reason_not_a_file())),
        FsKind::Directory => match entry.name {
            None => (dir, report.with_skipped(entry.os_path, reason_bad_name())),
            Some(name) => {
                let with_child = dir.ensure_child(name);
                let slot = dir.ensured_index(name);
                let (child, noted) = merge_entries(
                    with_child.children[slot],
                    report,
                    entry.entries,
                    entry.entries.len() as int,
                );
                (with_child.set_child(slot, child), noted.with_directory())
            },
        },
        FsKind::File => match entry.name {
            None => (dir, report.with_skipped(entry.os_path, reason_bad_name())),
            Some(name) => match file_verdict(name, entry.header) {
                FileVerdict::Accepted => {
                    let file = TocFileView {
                        name,
                        file_size: entry.size,
                        os_file_path: entry.os_path,
                    };
                    (
                        dir.upsert_file(file),
                        if dir.file_names().contains(name) {
                            report.with_replaced_file()
                        } else {
                            report.with_added_file()
                        },
                    )
                },
                FileVerdict::Companion => (dir, report),
                FileVerdict::Unreadable => (
                    dir,
                    report.with_failed(entry.os_path, reason_unreadable()),
                ),
                FileVerdict::Cooked => (
                    dir,
                    report.with_incorrect_header(entry.os_path).with_skipped(
                        entry.os_path,
                        verdict_reason(FileVerdict::Cooked),
                    ),
                ),
                other => (dir, report.with_skipped(entry.os_path, verdict_reason(other))),
            },
        },
    }
}

/// The tree and the report after the first `upto` entries of a listing were
/// merged into the directory `dir`, one after the other.
pub open spec fn merge_entries(
    dir: TocDirectoryView,
    report: CollectReport,
    entries: Seq<FsEntryView>,
    upto: int,
) -> (TocDirectoryView, CollectReport)
    decreases entries, upto,
{
    if upto <= 0 || upto > entries.len() {
        (dir, report)
    } else {
        let (tree, noted) = merge_entries(dir, report, entries, upto - 1);
        merge_entry(tree, noted, entries[upto - 1])
    }
}

/// Replacing a sub-directory by one of the same name keeps names unique.
pub proof fn lemma_set_child_keeps_wf(dir: TocDirectoryView, slot: int, child: TocDirectoryView)
    requires
        dir.wf(),
        0 <= slot < dir.children.len(),
        child.wf(),
        child.name == dir.children[slot].name,
    ensures
        dir.set_child(slot, child).wf(),
{
    let after = dir.set_child(slot, child);
    assert(after.child_names() =~= dir.child_names());
    assert(after.file_names() == dir.file_names());
    assert forall|i: int| 0 <= i < after.children.len() implies (
    #[trigger] after.children[i]).wf() by {
        if i != slot {
            assert(after.children[i] == dir.children[i]);
        }
    }
}

/// Asking for a sub-directory keeps names unique and leaves a sub-directory
/// of that name in the slot that is told.
pub proof fn lemma_ensure_child(dir: TocDirectoryView, name: Seq<char>)
    ensures
        0 <= dir.ensured_index(name) < dir.ensure_child(name).children.len(),
        dir.ensure_child(name).children[dir.ensured_index(name)].name == name,
        dir.ensure_child(name).name == dir.name,
        dir.wf() ==> dir.ensure_child(name).wf(),
{
    dir.child_names().index_of_first_ensures(name);
    match dir.child_index(name) {
        Some(i) => {
            assert(dir.child_names()[i] == dir.children[i].name);
        },
        None => {
            if dir.wf() {
                lemma_push_child_keeps_wf(dir, TocDirectoryView::empty(name));
            }
        },
    }
}

/// Merging an entry keeps the directory's name and keeps names unique.
pub proof fn lemma_merge_entry_wf(dir: TocDirectoryView, report: CollectReport, entry: FsEntryView)
    ensures
        merge_entry(dir, report, entry).0.name == dir.name,
        dir.wf() ==> merge_entry(dir, report, entry).0.wf(),
    decreases entry, 0int,
{
    match entry.kind {
        FsKind::Directory => match entry.name {
            Some(name) => {
                lemma_ensure_child(dir, name);
                let with_child = dir.ensure_child(name);
                let slot = dir.ensured_index(name);
                lemma_merge_entries_wf(
                    with_child.children[slot],
                    report,
                    entry.entries,
                    entry.entries.len() as int,
                );
                if dir.wf() {
                    let (child, noted) = merge_entries(
                        with_child.children[slot],
                        report,
                        entry.entries,
                        entry.entries.len() as int,
                    );
                    assert(with_child.children[slot].wf());
                    lemma_set_child_keeps_wf(with_child, slot, child);
                }
            },
            None => {},
        },
        FsKind::File => match entry.name {
            Some(name) => {
                if dir.wf() {
                    lemma_upsert_keeps_wf(
                        dir,
                        TocFileView { name, file_size: entry.size, os_file_path: entry.os_path },
                    );
                }
            },
            None => {},
        },
        _ => {},
    }
}

/// Merging a listing keeps the directory's name and keeps names unique.
pub proof fn lemma_merge_entries_wf(
    dir: TocDirectoryView,
    report: CollectReport,
    entries: Seq<FsEntryView>,
    upto: int,
)
    ensures
        merge_entries(dir, report, entries, upto).0.name == dir.name,
        dir.wf() ==> merge_entries(dir, report, entries, upto).0.wf(),
    decreases entries, upto,
{
    if 0 < upto <= entries.len() {
        lemma_merge_entries_wf(dir, report, entries, upto - 1);
        let (tree, noted) = merge_entries(dir, report, entries, upto - 1);
        lemma_merge_entry_wf(tree, noted, entries[upto - 1]);
    }
}

/// What the collector does with the file called `name` whose first bytes are
/// `header`.
pub fn judge_file(name: &str, header: &Option<Vec<u8>>) -> (verdict: FileVerdict)
    ensures
        verdict == file_verdict(name@, option_bytes(*header)),
{
    match file_extension(name) {
        None => FileVerdict::NoExtension,
        Some(ext) => {
            if str_eq(ext, "uasset") {
                match header {
                    None => FileVerdict::Unreadable,
                    Some(first) => {
                        if is_valid_asset_type(first.as_slice()) {
                            FileVerdict::Accepted
                        } else {
                            FileVerdict::Cooked
                        }
                    },
                }
            } else if str_eq(ext, "ubulk") || str_eq(ext, "uptnl") {
                FileVerdict::Accepted
            } else if str_eq(ext, "uexp") {
                FileVerdict::Companion
            } else {
                FileVerdict::Unsupported
            }
        },
    }
}

/// Merges one entry of a listing into the directory `parent`.
pub fn add_entry(
    parent: &mut TocDirectory,
    entry: &FsEntry,
    profiler: &mut AssetCollectorProfilerModContents,
)
    ensures
        (final(parent)@, final(profiler)@) == merge_entry(old(parent)@, old(profiler)@, entry@),
        old(parent)@.wf() ==> final(parent)@.wf(),
    decreases entry, 0int,
{
    proof {
        entry.lemma_view();
        lemma_merge_entry_wf(parent@, profiler@, entry@);
    }
    match entry.kind {
        FsKind::Failed => {
            profiler.add_failed_fs_object(entry.os_path.as_str(), entry.reason.clone());
        },
        FsKind::Other => {
            profiler.add_skipped_file(
                entry.os_path.as_str(),
                String::from_str("Not a regular file or directory"),
            );
        },
        FsKind::Directory => match &entry.name {
            None => {
                profiler.add_skipped_file(
                    entry.os_path.as_str(),
                    String::from_str("File name is not valid Unicode"),
                );
            },
            Some(name) => {
                let slot = TocDirectory::ensure_child(parent, name.as_str());
                let ghost with_child = parent@;
                proof {
                    parent.lemma_view();
                }
                add_from_folders_inner(&mut parent.children[slot], &entry.entries, profiler);
                proof {
                    parent.lemma_view();
                    lemma_listing_view(entry.entries@);
                    assert(parent@.children =~= with_child.children.update(
                        slot as int,
                        parent.children@[slot as int]@,
                    ));
                    assert(parent@.files =~= with_child.files);
                }
                profiler.add_directory();
                },
        },
        FsKind::File => match &entry.name {
            None => {
                profiler.add_skipped_file(
                    entry.os_path.as_str(),
                    String::from_str("File name is not valid Unicode"),
                );
            },
            Some(name) => {
                match judge_file(name.as_str(), &entry.header) {
                    FileVerdict::Accepted => {
                        let new_file = TocFile::new(
                            name.as_str(),
                            entry.size,
                            entry.os_path.as_str(),
                        );
                        match TocDirectory::add_or_replace_file(parent, new_file) {
                            TocFileAddType::Addition => profiler.add_added_file(),
                            TocFileAddType::Replacement => profiler.add_replaced_file(),
                        }
                    },
                    FileVerdict::Companion => {},
                    FileVerdict::Unreadable => {
                        profiler.add_failed_fs_object(
                            entry.os_path.as_str(),
                            String::from_str("Could not read file header"),
                        );
                    },
                    FileVerdict::Cooked => {
                        profiler.add_incorrect_asset_header(entry.os_path.as_str());
                        profiler.add_skipped_file(
                            entry.os_path.as_str(),
                            String::from_str("Uses cooked package"),
                        );
                    },
                    FileVerdict::NoExtension => {
                        profiler.add_skipped_file(
                            entry.os_path.as_str(),
                            String::from_str("No file extension"),
                        );
                    },
                    FileVerdict::Unsupported => {
                        profiler.add_skipped_file(
                            entry.os_path.as_str(),
                            String::from_str("Unsupported file type"),
                        );
                    },
                }
            },
        },
    }
}

/// Merges the listing of a directory on disk into the directory `parent` of
/// the tree: sub-directories are merged into the sub-directories of their
/// names, the files of a later mod take the place of the files of the same
/// name, and what is refused is noted in the profiler.
pub fn add_from_folders_inner(
    parent: &mut TocDirectory,
    entries: &Vec<FsEntry>,
    profiler: &mut AssetCollectorProfilerModContents,
)
    ensures
        (final(parent)@, final(profiler)@) == merge_entries(
            old(parent)@,
            old(profiler)@,
            listing_view(entries@),
            entries@.len() as int,
        ),
        old(parent)@.wf() ==> final(parent)@.wf(),
    decreases entries, 1int,
{
    let ghost listing = listing_view(entries@);
    let n = entries.len();
    let mut i: usize = 0;
    while i < n
        invariant
            n == entries@.len(),
            listing == listing_view(entries@),
            i <= n,
            (parent@, profiler@) == merge_entries(
                old(parent)@,
                old(profiler)@,
                listing,
                i as int,
            ),
            old(parent)@.wf() ==> parent@.wf(),
        decreases n - i,
    {
        proof {
            lemma_listing_view(entries@);
        }
        add_entry(parent, &entries[i], profiler);
        i = i + 1;
    }
}

/// The tree into which the first mod is merged: an empty directory that
/// bears the project's name.
pub open spec fn fresh_root() -> TocDirectoryView {
    TocDirectoryView::empty(PROJECT_NAME@)
}

/// The tree that a mod is merged into: the one that is there, or a fresh
/// one.
pub open spec fn root_or_fresh(root: Option<TocDirectory>) -> TocDirectoryView {
    match root {
        Some(tree) => tree@,
        None => fresh_root(),
    }
}

/// Merges a mod into the tree. `listing` holds what was found in the mod's
/// directory for this emulator, or nothing where the mod has no such
/// directory. The first mod that has one makes the tree. Every mod is noted
/// in the profiler, with what its collection did where it had something to
/// collect.
pub fn add_from_folders(
    root: &mut Option<TocDirectory>,
    profiler: &mut AssetCollectorProfiler,
    mod_id: &str,
    mod_path: &str,
    listing: Option<&Vec<FsEntry>>,
)
    ensures
        match listing {
            Some(entries) => {
                let merged = merge_entries(
                    root_or_fresh(*old(root)),
                    CollectReport::empty(),
                    listing_view(entries@),
                    entries@.len() as int,
                );
                &&& *final(root) is Some
                &&& final(root)->0@ == merged.0
                &&& final(profiler).mods_loaded@.last().data is Some
                &&& final(profiler).mods_loaded@.last().data->0@ == merged.1
            },
            None => *final(root) == *old(root) && final(profiler).mods_loaded@.last().data is None,
        },
        final(profiler).mods_loaded@.len() == old(profiler).mods_loaded@.len() + 1,
        final(profiler).mods_loaded@.drop_last() == old(profiler).mods_loaded@,
        final(profiler).mods_loaded@.last().uid@ == mod_id@,
        final(profiler).mods_loaded@.last().os_path@ == mod_path@,
{
    let mut profiler_mod = AssetCollectorProfilerMod::new(mod_id, mod_path);
    match listing {
        Some(entries) => {
            if root.is_none() {
                *root = Some(TocDirectory::new(PROJECT_NAME));
            }
            profiler_mod.valid_mod();
            add_from_folders_inner(
                root.as_mut().unwrap(),
                entries,
                profiler_mod.get_contents_mut(),
            );
        },
        None => {},
    }
    let ghost before = profiler.mods_loaded@;
    profiler.mods_loaded.push(profiler_mod);
    proof {
        assert(profiler.mods_loaded@.drop_last() =~= before);
    }
}

/// `middle`, `count` times over.
pub open spec fn repeated(middle: Seq<char>, count: nat) -> Seq<char>
    decreases count,
{
    if count == 0 {
        Seq::empty()
    } else {
        repeated(middle, (count - 1) as nat) + middle
    }
}

/// The upper edge of a box: a corner, `length` times the middle piece, and a
/// corner.
pub fn draw_top_of_box(corner: &str, middle: &str, length: usize) -> (edge: String)
    ensures
        edge@ == corner@ + repeated(middle@, length as nat) + corner@,
{
    let mut edge = String::from_str(corner);
    let mut i: usize = 0;
    while i < length
        invariant
            i <= length,
            edge@ == corner@ + repeated(middle@, i as nat),
        decreases length - i,
    {
        edge.append(middle);
        i = i + 1;
        proof {
            assert(edge@ =~= corner@ + repeated(middle@, i as nat));
        }
    }
    edge.append(corner);
    edge
}

/// When two mods hold a file of one name in the same directory and both
/// files are accepted, the directory holds, after both were merged, a single
/// file of that name: it stands in the slot that the first mod's file took,
/// and it is the second mod's file, with its source path.
pub proof fn lemma_later_mod_replaces_file(
    dir: TocDirectoryView,
    report: CollectReport,
    first: FsEntryView,
    second: FsEntryView,
)
    requires
        dir.wf(),
        first.kind == FsKind::File,
        second.kind == FsKind::File,
        first.name is Some,
        second.name == first.name,
        file_verdict(first.name->0, first.header) == FileVerdict::Accepted,
        file_verdict(second.name->0, second.header) == FileVerdict::Accepted,
    ensures
        ({
            let name = first.name->0;
            let once = merge_entry(dir, report, first);
            let twice = merge_entry(once.0, once.1, second);
            let slot = once.0.file_index(name);
            &&& slot is Some
            &&& 0 <= slot->0 < once.0.files.len()
            &&& twice.0.files == once.0.files.update(
                slot->0,
                TocFileView { name, file_size: second.size, os_file_path: second.os_path },
            )
            &&& twice.0.files[slot->0].os_file_path == second.os_path
            &&& forall|j: int|
                0 <= j < twice.0.files.len() && j != slot->0 ==> (#[trigger] twice.0.files[j]).name
                    != name
            &&& twice.0.children == dir.children
            &&& twice.1.replaced_files_count == count_up(once.1.replaced_files_count)
            &&& twice.1.added_files_count == once.1.added_files_count
        }),
{
    let name = first.name->0;
    let f = TocFileView { name, file_size: first.size, os_file_path: first.os_path };
    let g = TocFileView { name, file_size: second.size, os_file_path: second.os_path };
    lemma_last_writer_wins(dir, f, g);
    let once = dir.upsert_file(f);
    once.file_names().index_of_first_ensures(name);
}

/// Putting a file into a directory keeps names unique.
pub proof fn lemma_upsert_keeps_wf(dir: TocDirectoryView, file: TocFileView)
    requires
        dir.wf(),
    ensures
        dir.upsert_file(file).wf(),
{
    let names = dir.file_names();
    let after = dir.upsert_file(file);
    names.index_of_first_ensures(file.name);
    match dir.file_index(file.name) {
        Some(i) => {
            assert(after.file_names() =~= names);
        },
        None => {
            assert(after.file_names() =~= names.push(file.name));
        },
    }
    assert(after.children == dir.children);
    assert(after.child_names() == dir.child_names());
}

/// Appending a sub-directory under a new name keeps names unique.
pub proof fn lemma_push_child_keeps_wf(dir: TocDirectoryView, child: TocDirectoryView)
    requires
        dir.wf(),
        child.wf(),
        !dir.child_names().contains(child.name),
    ensures
        dir.push_child(child).wf(),
{
    let after = dir.push_child(child);
    assert(after.child_names() =~= dir.child_names().push(child.name));
    assert(after.file_names() == dir.file_names());
    assert forall|i: int| 0 <= i < after.children.len() implies (
    #[trigger] after.children[i]).wf() by {
        if i < dir.children.len() {
            assert(after.children[i] == dir.children[i]);
        }
    }
}

/// When two files of one name are put into a directory one after the other,
/// the directory holds a single file of that name, in the slot that the first
/// one took, and it is the second.
pub proof fn lemma_last_writer_wins(dir: TocDirectoryView, first: TocFileView, second: TocFileView)
    requires
        dir.wf(),
        first.name == second.name,
    ensures
        ({
            let once = dir.upsert_file(first);
            let twice = once.upsert_file(second);
            let slot = once.file_index(first.name);
            &&& slot is Some
            &&& 0 <= slot->0 < once.files.len()
            &&& once.files[slot->0] == first
            &&& twice.files == once.files.update(slot->0, second)
            &&& twice.files[slot->0] == second
            &&& twice.files.len() == once.files.len()
            &&& forall|j: int|
                0 <= j < twice.files.len() && j != slot->0 ==> (#[trigger] twice.files[j]).name
                    != second.name
            &&& twice == dir.upsert_file(second)
            &&& twice.children == dir.children
        }),
{
    let once = dir.upsert_file(first);
    let twice = once.upsert_file(second);
    lemma_upsert_keeps_wf(dir, first);
    let names0 = dir.file_names();
    let names1 = once.file_names();
    names0.index_of_first_ensures(first.name);
    names1.index_of_first_ensures(first.name);
    match dir.file_index(first.name) {
        Some(i) => {
            assert(names1 =~= names0);
            assert(once.files[i] == first);
        },
        None => {
            assert(names1 =~= names0.push(first.name));
            assert(names1[names0.len() as int] == first.name);
            lemma_first_index(names1, first.name, names0.len() as int);
            assert(once.files.update(names0.len() as int, second) =~= dir.files.push(second));
        },
    }
    let slot = once.file_index(first.name)->0;
    assert(once.files.update(slot, second) =~= dir.upsert_file(second).files);
    assert forall|j: int| 0 <= j < twice.files.len() && j != slot implies (
    #[trigger] twice.files[j]).name != second.name by {
        assert(names1[j] == once.files[j].name);
        assert(names1[slot] == first.name);
    }
}

} // verus!
