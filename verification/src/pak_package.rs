//! Parts of packages in the legacy container format: the name map, the
//! import map and the export map.

use crate::io_package::{field_at, FMappedName};
use crate::serialize::{
    as_signed32, as_signed64, read_i32_le, read_i64_le, read_u32_le, read_u64_le,
};
use crate::string::{
    fstring32_parse, utf8_to_string, FString32NoHash, FStringData, FStringDataView,
};
use vstd::prelude::*;
use vstd::utf8::{decode_utf8, valid_utf8};

verus! {

pub type GUID = u128;

/// The four bytes that open a package in the legacy format, read as a
/// big-endian number.
pub const PACKAGE_ASSET_MAGIC: u32 = 0xC1832A9E;

/// Serialized size of an import.
pub const OBJECT_IMPORT_SIZE: usize = 28;

/// Serialized size of an export.
pub const OBJECT_EXPORT_SIZE: usize = 104;

/// Marks the summaries that open a package file.
pub trait PackageFileSummary {
}

/// A custom version of a package: a key and a number.
#[derive(Debug, Copy, Clone, PartialEq, Eq, Structural)]
pub struct CustomVersion {
    pub key: GUID,
    pub version: i32,
}

/// The summary that opens a package file of the fourth engine generation.
#[derive(Debug)]
pub struct PackageFileSummaryType4 {
    pub tag: i32,
    pub legacy_file_version: i32,
    pub legacy_ue3_version: i32,
    pub file_version_ue4: i32,
    pub file_version_licensee_ue4: i32,
    pub custom_versions: Vec<CustomVersion>,
    pub total_header_size: i32,
    pub folder_name: String,
    pub package_flags: u32,
    pub names: Vec<String>,
}

impl PackageFileSummary for PackageFileSummaryType4 {
}

/// The summary that opens a package file of the fifth engine generation.
#[derive(Debug)]
pub struct PackageFileSummaryType5 {
}

impl PackageFileSummary for PackageFileSummaryType5 {
}

/// The names of a package, in the order of the package's name map.
#[derive(Debug)]
pub struct NameMapImpl(pub Vec<String>);

/// The names held by the first `count` serialized strings from `pos` on, with
/// the position after them. A string without text holds no name. Nothing
/// where the buffer ends before, where a string is stored as wide text, or
/// where a text is not valid UTF-8.
pub open spec fn names_parse(buf: Seq<u8>, pos: int, count: nat) -> Option<(Seq<Seq<char>>, int)>
    decreases count,
{
    if count == 0 {
        Some((Seq::empty(), pos))
    } else {
        match names_parse(buf, pos, (count - 1) as nat) {
            Some((names, at)) => match fstring32_parse(buf, at) {
                Some((FStringDataView::Narrow(raw), next)) => if valid_utf8(raw) {
                    Some((names.push(decode_utf8(raw)), next))
                } else {
                    None
                },
                Some((FStringDataView::Empty, next)) => Some((names, next)),
                _ => None,
            },
            None => None,
        }
    }
}

/// Where the names cannot be read up to some count, they cannot be read up to
/// a larger one.
pub proof fn lemma_names_none(buf: Seq<u8>, pos: int, reached: nat, count: nat)
    requires
        reached < count,
        names_parse(buf, pos, reached + 1) is None,
    ensures
        names_parse(buf, pos, count) is None,
    decreases count,
{
    if reached + 1 < count {
        lemma_names_none(buf, pos, reached, (count - 1) as nat);
    }
}

/// The position in a name map that a package index stands for: an index
/// above zero counts from one, an index below zero is the negated position.
/// Zero stands for no name.
pub open spec fn package_position(index: i32) -> Option<int> {
    if index > 0 {
        Some(index - 1)
    } else if index < 0 {
        Some(-index)
    } else {
        None
    }
}

/// The name map of a package.
pub trait NameMap {
    /// The names of the map, in order.
    spec fn names(&self) -> Seq<Seq<char>>;

    /// Appends the names of `count` serialized strings that start at `pos`,
    /// and gives the position after them. Nothing is appended where they
    /// cannot all be read.
    fn add_from_buffer(&mut self, buf: &[u8], pos: usize, count: usize) -> (r: Option<usize>)
        ensures
            match names_parse(buf@, pos as int, count as nat) {
                Some((names, next)) => r == Some(next as usize) && next <= usize::MAX
                    && final(self).names() == old(self).names() + names,
                None => r is None && final(self).names() == old(self).names(),
            },
    ;

    /// The name at position `index`, or the size of the map where it has no
    /// such position.
    fn get_string_from_index(&self, index: usize) -> (r: Result<&str, usize>)
        ensures
            match r {
                Ok(name) => index < self.names().len() && name@ == self.names()[index as int],
                Err(size) => index >= self.names().len() && size == self.names().len(),
            },
    ;

    /// The name that the package index `index` stands for, or nothing where
    /// it stands for none. The position that the index stands for must be one
    /// of the map.
    fn get_string_from_package_index(&self, index: i32) -> (r: Option<&str>)
        requires
            match package_position(index) {
                Some(position) => position < self.names().len(),
                None => true,
            },
        ensures
            match package_position(index) {
                Some(position) => r is Some && r->0@ == self.names()[position],
                None => r is None,
            },
    ;
}

impl NameMap for NameMapImpl {
    open spec fn names(&self) -> Seq<Seq<char>> {
        self.0@.map_values(|s: String| s@)
    }

    fn add_from_buffer(&mut self, buf: &[u8], pos: usize, count: usize) -> (r: Option<usize>) {
        let mut found: Vec<String> = Vec::new();
        let mut at: usize = pos;
        let mut i: usize = 0;
        proof {
            assert(found@.map_values(|s: String| s@) =~= Seq::<Seq<char>>::empty());
        }
        while i < count
            invariant
                i <= count,
                *self == *old(self),
                names_parse(buf@, pos as int, i as nat) == Some(
                    (found@.map_values(|s: String| s@), at as int),
                ),
            decreases count - i,
        {
            let ghost names = found@.map_values(|s: String| s@);
            match FString32NoHash::from_buffer(buf, at) {
                Some((FStringData::Narrow(raw), next)) => {
                    match utf8_to_string(raw.as_slice()) {
                        Some(name) => {
                            proof {
                                assert(found@.push(name).map_values(|s: String| s@) =~= names.push(
                                    name@,
                                ));
                            }
                            found.push(name);
                            at = next;
                        },
                        None => {
                            proof {
                                lemma_names_none(buf@, pos as int, i as nat, count as nat);
                            }
                            return None;
                        },
                    }
                },
                Some((FStringData::Empty, next)) => {
                    at = next;
                },
                _ => {
                    proof {
                        lemma_names_none(buf@, pos as int, i as nat, count as nat);
                    }
                    return None;
                },
            }
            i = i + 1;
        }
        let ghost before = self.names();
        let ghost added = found@.map_values(|s: String| s@);
        self.0.append(&mut found);
        proof {
            assert(self.names() =~= before + added);
        }
        Some(at)
    }

    fn get_string_from_index(&self, index: usize) -> (r: Result<&str, usize>) {
        if index < self.0.len() {
            Ok(self.0[index].as_str())
        } else {
            Err(self.0.len())
        }
    }

    fn get_string_from_package_index(&self, index: i32) -> (r: Option<&str>) {
        if index > 0 {
            Some(self.0[(index - 1) as usize].as_str())
        } else if index < 0 {
            let position: i64 = -(index as i64);
            Some(self.0[position as usize].as_str())
        } else {
            None
        }
    }
}

impl NameMapImpl {
    /// A map without names.
    pub fn new() -> (map: Self)
        ensures
            map.names() == Seq::<Seq<char>>::empty(),
    {
        let map = Self(Vec::new());
        proof {
            assert(map.names() =~= Seq::<Seq<char>>::empty());
        }
        map
    }

    /// The map of the names of `count` serialized strings that start at
    /// `pos`, or nothing where they cannot all be read.
    pub fn new_from_buffer(buf: &[u8], pos: usize, count: usize) -> (r: Option<NameMapImpl>)
        ensures
            match names_parse(buf@, pos as int, count as nat) {
                Some((names, next)) => r is Some && r->0.names() == names,
                None => r is None,
            },
    {
        let mut map = NameMapImpl::new();
        match map.add_from_buffer(buf, pos, count) {
            Some(_) => {
                proof {
                    let parsed = names_parse(buf@, pos as int, count as nat)->0;
                    assert(Seq::<Seq<char>>::empty() + parsed.0 =~= parsed.0);
                }
                Some(map)
            },
            None => None,
        }
    }
}

/// An import of a package in the legacy format: 28 bytes, little-endian.
#[derive(Debug, Copy, Clone, PartialEq, Eq, Structural)]
pub struct FObjectImport {
    pub class_package: u64,
    pub class_name: u64,
    pub outer_index: i32,
    pub object_name: FMappedName,
}

impl FObjectImport {
    /// The import that the 28 bytes at `pos` hold.
    pub open spec fn parse(buf: Seq<u8>, pos: int) -> FObjectImport {
        FObjectImport {
            class_package: field_at(buf, pos, 8) as u64,
            class_name: field_at(buf, pos + 8, 8) as u64,
            outer_index: as_signed32(field_at(buf, pos + 16, 4)) as i32,
            object_name: FMappedName { value: field_at(buf, pos + 20, 8) as u64 },
        }
    }

    /// Reads the import at `pos`, or nothing when fewer than 28 bytes follow.
    pub fn from_buffer(buf: &[u8], pos: usize) -> (r: Option<FObjectImport>)
        ensures
            r is Some <==> pos + OBJECT_IMPORT_SIZE <= buf@.len(),
            r is Some ==> r->0 == FObjectImport::parse(buf@, pos as int),
    {
        if pos > buf.len() || buf.len() - pos < OBJECT_IMPORT_SIZE {
            return None;
        }
        let class_package = read_u64_le(buf, pos).unwrap();
        let class_name = read_u64_le(buf, pos + 8).unwrap();
        let outer_index = read_i32_le(buf, pos + 16).unwrap();
        let object_name = FMappedName::new(read_u64_le(buf, pos + 20).unwrap());
        Some(FObjectImport { class_package, class_name, outer_index, object_name })
    }

    /// Reads `count` imports that follow one another from `pos` on, or
    /// nothing when the buffer ends before.
    pub fn build_import_map(buf: &[u8], pos: usize, count: usize) -> (r: Option<Vec<FObjectImport>>)
        ensures
            r is Some <==> pos + count * OBJECT_IMPORT_SIZE <= buf@.len(),
            r is Some ==> r->0@.len() == count && forall|i: int|
                0 <= i < count ==> #[trigger] r->0@[i] == FObjectImport::parse(
                    buf@,
                    pos + i * OBJECT_IMPORT_SIZE,
                ),
    {
        let total = buf.len();
        if pos > total || count > (total - pos) / OBJECT_IMPORT_SIZE {
            return None;
        }
        let mut import_map: Vec<FObjectImport> = Vec::new();
        let mut i: usize = 0;
        while i < count
            invariant
                total == buf@.len(),
                pos + count * OBJECT_IMPORT_SIZE <= total,
                i <= count,
                import_map@.len() == i,
                forall|j: int|
                    0 <= j < i ==> #[trigger] import_map@[j] == FObjectImport::parse(
                        buf@,
                        pos + j * OBJECT_IMPORT_SIZE,
                    ),
            decreases count - i,
        {
            let import = FObjectImport::from_buffer(buf, pos + i * OBJECT_IMPORT_SIZE).unwrap();
            import_map.push(import);
            i = i + 1;
        }
        Some(import_map)
    }
}

/// A truth value that is stored as a 32-bit number, 0 or 1.
#[derive(Debug, Copy, Clone, PartialEq, Eq, Structural)]
pub struct IntBool(pub i32);

impl IntBool {
    /// Whether the number is one that stands for a truth value.
    pub open spec fn wf(self) -> bool {
        self.0 == 0 || self.0 == 1
    }

    pub fn new(val: i32) -> (r: Self)
        requires
            val == 0 || val == 1,
        ensures
            r.0 == val,
            r.wf(),
    {
        Self(val)
    }

    pub fn value(&self) -> (b: bool)
        requires
            self.wf(),
        ensures
            b == (self.0 == 1),
    {
        self.0 == 1
    }

    /// The truth value that `val` stands for, if it stands for one.
    pub fn checked(val: i32) -> (r: Option<bool>)
        ensures
            r == int_bool(val as int),
    {
        if val == 0 {
            Some(false)
        } else if val == 1 {
            Some(true)
        } else {
            None
        }
    }
}

/// The truth value that a number stands for: 0 for false, 1 for true.
pub open spec fn int_bool(v: int) -> Option<bool> {
    if v == 0 {
        Some(false)
    } else if v == 1 {
        Some(true)
    } else {
        None
    }
}

/// An export of a package in the legacy format: 104 bytes, little-endian.
#[derive(Debug, Copy, Clone, PartialEq, Eq, Structural)]
pub struct FObjectExport {
    pub class_index: i32,
    pub super_index: i32,
    pub template_index: i32,
    pub outer_index: i32,
    pub object_name: FMappedName,
    pub object_flags: u32,
    pub serial_size: i64,
    pub serial_offset: i64,
    pub bool_forced_export: bool,
    pub bool_not_for_client: bool,
    pub bool_not_for_server: bool,
    pub package_flags: u32,
    pub not_always_loaded_for_editor_game: bool,
    pub is_asset: bool,
    pub first_export_dependency: i32,
    pub serialization_before_serialization_dependencies: i32,
    pub create_before_serialization_dependencies: i32,
    pub serialization_before_create_dependencies: i32,
    pub create_before_create_dependencies: i32,
}

/// The signed 32-bit number at `pos`.
pub open spec fn signed_at(buf: Seq<u8>, pos: int) -> int {
    as_signed32(field_at(buf, pos, 4))
}

impl FObjectExport {
    /// Whether the 104 bytes at `pos` hold an export: the three indices that
    /// are stored one too high can be lowered, and the five truth values are
    /// 0 or 1.
    pub open spec fn well_formed(buf: Seq<u8>, pos: int) -> bool {
        &&& signed_at(buf, pos) > i32::MIN
        &&& signed_at(buf, pos + 4) > i32::MIN
        &&& signed_at(buf, pos + 8) > i32::MIN
        &&& int_bool(signed_at(buf, pos + 44)) is Some
        &&& int_bool(signed_at(buf, pos + 48)) is Some
        &&& int_bool(signed_at(buf, pos + 52)) is Some
        &&& int_bool(signed_at(buf, pos + 76)) is Some
        &&& int_bool(signed_at(buf, pos + 80)) is Some
    }

    /// The export that the 104 bytes at `pos` hold. The indices of class,
    /// super class and template are stored one too high. Sixteen bytes that
    /// hold the package's identity are passed over.
    pub open spec fn parse(buf: Seq<u8>, pos: int) -> FObjectExport {
        FObjectExport {
            class_index: (signed_at(buf, pos) - 1) as i32,
            super_index: (signed_at(buf, pos + 4) - 1) as i32,
            template_index: (signed_at(buf, pos + 8) - 1) as i32,
            outer_index: signed_at(buf, pos + 12) as i32,
            object_name: FMappedName { value: field_at(buf, pos + 16, 8) as u64 },
            object_flags: field_at(buf, pos + 24, 4) as u32,
            serial_size: as_signed64(field_at(buf, pos + 28, 8)) as i64,
            serial_offset: as_signed64(field_at(buf, pos + 36, 8)) as i64,
            bool_forced_export: signed_at(buf, pos + 44) == 1,
            bool_not_for_client: signed_at(buf, pos + 48) == 1,
            bool_not_for_server: signed_at(buf, pos + 52) == 1,
            package_flags: field_at(buf, pos + 72, 4) as u32,
            not_always_loaded_for_editor_game: signed_at(buf, pos + 76) == 1,
            is_asset: signed_at(buf, pos + 80) == 1,
            first_export_dependency: signed_at(buf, pos + 84) as i32,
            serialization_before_serialization_dependencies: signed_at(buf, pos + 88) as i32,
            create_before_serialization_dependencies: signed_at(buf, pos + 92) as i32,
            serialization_before_create_dependencies: signed_at(buf, pos + 96) as i32,
            create_before_create_dependencies: signed_at(buf, pos + 100) as i32,
        }
    }

    /// Reads the export at `pos`, or nothing when fewer than 104 bytes follow
    /// or they do not hold an export.
    pub fn from_buffer(buf: &[u8], pos: usize) -> (r: Option<FObjectExport>)
        ensures
            r is Some <==> pos + OBJECT_EXPORT_SIZE <= buf@.len() && FObjectExport::well_formed(
                buf@,
                pos as int,
            ),
            r is Some ==> r->0 == FObjectExport::parse(buf@, pos as int),
    {
        if pos > buf.len() || buf.len() - pos < OBJECT_EXPORT_SIZE {
            return None;
        }
        let class_raw = read_i32_le(buf, pos).unwrap();
        let super_raw = read_i32_le(buf, pos + 4).unwrap();
        let template_raw = read_i32_le(buf, pos + 8).unwrap();
        if class_raw == i32::MIN || super_raw == i32::MIN || template_raw == i32::MIN {
            return None;
        }
        let outer_index = read_i32_le(buf, pos + 12).unwrap();
        let object_name = FMappedName::new(read_u64_le(buf, pos + 16).unwrap());
        let object_flags = read_u32_le(buf, pos + 24).unwrap();
        let serial_size = read_i64_le(buf, pos + 28).unwrap();
        let serial_offset = read_i64_le(buf, pos + 36).unwrap();
        let forced = IntBool::checked(read_i32_le(buf, pos + 44).unwrap());
        let not_client = IntBool::checked(read_i32_le(buf, pos + 48).unwrap());
        let not_server = IntBool::checked(read_i32_le(buf, pos + 52).unwrap());
        let package_flags = read_u32_le(buf, pos + 72).unwrap();
        let not_always = IntBool::checked(read_i32_le(buf, pos + 76).unwrap());
        let asset = IntBool::checked(read_i32_le(buf, pos + 80).unwrap());
        if forced.is_none() || not_client.is_none() || not_server.is_none() || not_always.is_none()
            || asset.is_none() {
            return None;
        }
        let first_export_dependency = read_i32_le(buf, pos + 84).unwrap();
        let serialization_before_serialization_dependencies = read_i32_le(buf, pos + 88).unwrap();
        let create_before_serialization_dependencies = read_i32_le(buf, pos + 92).unwrap();
        let serialization_before_create_dependencies = read_i32_le(buf, pos + 96).unwrap();
        let create_before_create_dependencies = read_i32_le(buf, pos + 100).unwrap();
        Some(
            FObjectExport {
                class_index: class_raw - 1,
                super_index: super_raw - 1,
                template_index: template_raw - 1,
                outer_index,
                object_name,
                object_flags,
                serial_size,
                serial_offset,
                bool_forced_export: forced.unwrap(),
                bool_not_for_client: not_client.unwrap(),
                bool_not_for_server: not_server.unwrap(),
                package_flags,
                not_always_loaded_for_editor_game: not_always.unwrap(),
                is_asset: asset.unwrap(),
                first_export_dependency,
                serialization_before_serialization_dependencies,
                create_before_serialization_dependencies,
                serialization_before_create_dependencies,
                create_before_create_dependencies,
            },
        )
    }
}

/// An entry of an export bundle.
#[derive(Debug)]
pub struct FExportBundleEntry {
}

/// A node of the load graph of a package.
#[derive(Debug)]
pub struct FGraphPackage {
}

} // verus!
