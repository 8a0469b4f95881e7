//! Headers of packages as they are stored inside an IO Store container.

use crate::serialize::{
    as_signed32, concat_bytes, lemma_concat_bytes_push, read_i32_le, read_u32_le, read_u64_le,
    uint_from_le, uint_le_bytes, write_u32_le, write_u64_le,
};
use crate::string::{name_hash, Hasher16};
use vstd::prelude::*;
use vstd::string::StringExecFns;

verus! {

/// The four bytes that open a package cooked for the legacy container
/// format, read as a little-endian number.
pub const UASSET_MAGIC: u32 = 0x9E2A83C1;

/// Two to the power 62: the weight of the tag in an object index.
pub const OBJECT_INDEX_TAG_UNIT: u64 = 0x4000_0000_0000_0000;

/// Whether the bytes at the start of a file open a package cooked for the
/// legacy container format.
pub open spec fn is_cooked_package(header: Seq<u8>) -> bool {
    header.len() >= 4 && uint_from_le(header.subrange(0, 4)) == UASSET_MAGIC
}

/// Whether a file that starts with `header` can go into an IO Store
/// container: it can unless it opens with the legacy magic.
pub fn is_valid_asset_type(header: &[u8]) -> (valid: bool)
    ensures
        valid == !is_cooked_package(header@),
{
    match read_u32_le(header, 0) {
        Some(magic) => magic != UASSET_MAGIC,
        None => true,
    }
}

/// A name of a package's name map: an index with a number.
#[derive(Debug, Copy, Clone, PartialEq, Eq, Structural)]
pub struct FMappedName {
    pub value: u64,
}

impl FMappedName {
    /// The name held by the eight bytes read as `value`.
    pub fn new(value: u64) -> (name: Self)
        ensures
            name.value == value,
    {
        Self { value }
    }

    /// The position in the name map: the low 30 bits.
    pub fn get_name_index(&self) -> (index: u32)
        ensures
            index == self.value % 0x4000_0000,
    {
        (self.value % 0x4000_0000) as u32
    }
}

/// A reference to an object, as a package stores it in eight bytes: a tag in
/// the two high bits and a payload in the 62 bits below.
#[derive(Debug)]
pub enum IoStoreObjectIndex {
    /// Tag 0: the position of an export of the same package.
    Export(u64),
    /// Tag 1: an object of a script package, known by its name.
    ScriptImport(String),
    /// Tag 2: an object of another package, known by its name.
    PackageImport(String),
    /// Tag 3: no object.
    Empty,
}

/// The mathematical content of an [`IoStoreObjectIndex`].
pub enum IoStoreObjectIndexView {
    Export(u64),
    ScriptImport(Seq<char>),
    PackageImport(Seq<char>),
    Empty,
}

impl View for IoStoreObjectIndex {
    type V = IoStoreObjectIndexView;

    open spec fn view(&self) -> IoStoreObjectIndexView {
        match self {
            IoStoreObjectIndex::Export(i) => IoStoreObjectIndexView::Export(*i),
            IoStoreObjectIndex::ScriptImport(s) => IoStoreObjectIndexView::ScriptImport(s@),
            IoStoreObjectIndex::PackageImport(s) => IoStoreObjectIndexView::PackageImport(s@),
            IoStoreObjectIndex::Empty => IoStoreObjectIndexView::Empty,
        }
    }
}

/// The 62 low bits of `hash` under the tag `obj_type`.
pub open spec fn tagged_hash(hash: u64, obj_type: u64) -> u64 {
    ((hash % OBJECT_INDEX_TAG_UNIT) + (obj_type % 4) * OBJECT_INDEX_TAG_UNIT) as u64
}

impl IoStoreObjectIndexView {
    /// The eight-byte number that stands for the reference.
    pub open spec fn raw(self) -> u64 {
        match self {
            IoStoreObjectIndexView::Export(i) => i,
            IoStoreObjectIndexView::ScriptImport(s) => tagged_hash(name_hash(s), 1),
            IoStoreObjectIndexView::PackageImport(s) => tagged_hash(name_hash(s), 2),
            IoStoreObjectIndexView::Empty => u64::MAX,
        }
    }

    /// The serialized reference.
    pub open spec fn spec_bytes(self) -> Seq<u8> {
        uint_le_bytes(self.raw() as nat, 8)
    }
}

/// The views of a list of references.
pub open spec fn object_index_views(list: Seq<IoStoreObjectIndex>) -> Seq<IoStoreObjectIndexView> {
    list.map_values(|o: IoStoreObjectIndex| o@)
}

/// Puts the tag `obj_type` over the 62 low bits of `hash`.
pub fn tag_hash(hash: u64, obj_type: u64) -> (tagged: u64)
    ensures
        tagged == tagged_hash(hash, obj_type),
{
    let low: u64 = hash % OBJECT_INDEX_TAG_UNIT;
    let tag: u64 = obj_type % 4;
    low + tag * OBJECT_INDEX_TAG_UNIT
}

impl IoStoreObjectIndex {
    /// The tag that the two high bits of `raw` hold.
    pub open spec fn tag_of(raw: u64) -> u64 {
        raw / OBJECT_INDEX_TAG_UNIT
    }

    /// Reads a reference at `pos`. A name cannot be had back from its hash,
    /// so an import comes with an empty name and an export with position 0.
    pub fn from_buffer(buf: &[u8], pos: usize) -> (r: Option<IoStoreObjectIndex>)
        ensures
            r is Some <==> pos + 8 <= buf@.len(),
            r is Some ==> ({
                let tag = IoStoreObjectIndex::tag_of(
                    uint_from_le(buf@.subrange(pos as int, pos + 8)) as u64,
                );
                r->0@ == match tag {
                    0 => IoStoreObjectIndexView::Export(0),
                    1 => IoStoreObjectIndexView::ScriptImport(Seq::empty()),
                    2 => IoStoreObjectIndexView::PackageImport(Seq::empty()),
                    _ => IoStoreObjectIndexView::Empty,
                }
            }),
    {
        match read_u64_le(buf, pos) {
            Some(raw_value) => {
                let obj_type = raw_value / OBJECT_INDEX_TAG_UNIT;
                if obj_type == 0 {
                    Some(IoStoreObjectIndex::Export(0))
                } else if obj_type == 1 {
                    Some(IoStoreObjectIndex::ScriptImport(String::new()))
                } else if obj_type == 2 {
                    Some(IoStoreObjectIndex::PackageImport(String::new()))
                } else {
                    Some(IoStoreObjectIndex::Empty)
                }
            },
            None => None,
        }
    }

    /// Appends the eight bytes of the reference.
    pub fn to_buffer(&self, writer: &mut Vec<u8>)
        ensures
            final(writer)@ == old(writer)@ + self@.spec_bytes(),
    {
        match self {
            IoStoreObjectIndex::Export(i) => write_u64_le(writer, *i),
            IoStoreObjectIndex::ScriptImport(v) => write_u64_le(
                writer,
                IoStoreObjectIndex::generate_hash(v.as_str(), 1),
            ),
            IoStoreObjectIndex::PackageImport(v) => write_u64_le(
                writer,
                IoStoreObjectIndex::generate_hash(v.as_str(), 2),
            ),
            IoStoreObjectIndex::Empty => write_u64_le(writer, u64::MAX),
        }
    }

    /// The name hash of `import` under the tag `obj_type`.
    pub fn generate_hash(import: &str, obj_type: u64) -> (hash: u64)
        ensures
            hash == tagged_hash(name_hash(import@), obj_type),
    {
        tag_hash(Hasher16::get_cityhash64(import), obj_type)
    }
}

/// The import map of a package.
pub struct ObjectImport;

impl ObjectImport {
    /// The serialized form of an import map.
    pub open spec fn map_bytes(map: Seq<IoStoreObjectIndexView>) -> Seq<u8> {
        concat_bytes(map, |o: IoStoreObjectIndexView| o.spec_bytes())
    }

    /// Appends every reference of `map`, in order.
    pub fn map_to_buffer(map: &Vec<IoStoreObjectIndex>, writer: &mut Vec<u8>)
        ensures
            final(writer)@ == old(writer)@ + ObjectImport::map_bytes(object_index_views(map@)),
    {
        let n = map.len();
        let ghost views = object_index_views(map@);
        let mut i: usize = 0;
        while i < n
            invariant
                n == map@.len(),
                views == object_index_views(map@),
                i <= n,
                writer@ == old(writer)@ + ObjectImport::map_bytes(views.take(i as int)),
            decreases n - i,
        {
            map[i].to_buffer(writer);
            proof {
                lemma_concat_bytes_push(
                    views.take(i as int),
                    views[i as int],
                    |o: IoStoreObjectIndexView| o.spec_bytes(),
                );
                assert(views.take(i + 1) =~= views.take(i as int).push(views[i as int]));
                assert(writer@ =~= old(writer)@ + ObjectImport::map_bytes(views.take(i + 1)));
            }
            i = i + 1;
        }
        assert(views.take(n as int) =~= views);
    }
}

/// Package header of the earliest IO Store layout.
#[derive(Debug, Copy, Clone, PartialEq, Eq, Structural)]
pub struct FPackageSummary1 {
    pub package_flags: u32,
    pub name_map_offset: i32,
    pub import_map_offset: i32,
    pub export_map_offset: i32,
    pub export_bundles_offset: i32,
    pub graph_data_offset: i32,
    pub graph_data_size: i32,
    pub bulk_data_start_offset: i32,
    pub global_import_index: i32,
    pub padding: i32,
}

/// Package header of the 4.25+ to 4.27 layouts: 60 bytes, little-endian.
#[derive(Debug, Copy, Clone, PartialEq, Eq, Structural)]
pub struct FPackageSummary2 {
    pub name: FMappedName,
    pub source_name: FMappedName,
    pub package_flags: u32,
    pub cooked_header_size: u32,
    pub name_map_names_offset: i32,
    pub name_map_names_size: i32,
    pub name_map_hashes_offset: i32,
    pub name_map_hashes_size: i32,
    pub import_map_offset: i32,
    pub export_map_offset: i32,
    pub export_bundles_offset: i32,
    pub graph_data_offset: i32,
    pub graph_data_size: i32,
}

/// Serialized size of an [`FPackageSummary2`].
pub const PACKAGE_SUMMARY2_SIZE: usize = 60;

/// The unsigned number in the `width` bytes at `pos`.
pub open spec fn field_at(buf: Seq<u8>, pos: int, width: int) -> nat {
    uint_from_le(buf.subrange(pos, pos + width))
}

impl FPackageSummary2 {
    /// The header that the 60 bytes at `pos` hold.
    pub open spec fn parse(buf: Seq<u8>, pos: int) -> FPackageSummary2 {
        FPackageSummary2 {
            name: FMappedName { value: field_at(buf, pos, 8) as u64 },
            source_name: FMappedName { value: field_at(buf, pos + 8, 8) as u64 },
            package_flags: field_at(buf, pos + 16, 4) as u32,
            cooked_header_size: field_at(buf, pos + 20, 4) as u32,
            name_map_names_offset: as_signed32(field_at(buf, pos + 24, 4)) as i32,
            name_map_names_size: as_signed32(field_at(buf, pos + 28, 4)) as i32,
            name_map_hashes_offset: as_signed32(field_at(buf, pos + 32, 4)) as i32,
            name_map_hashes_size: as_signed32(field_at(buf, pos + 36, 4)) as i32,
            import_map_offset: as_signed32(field_at(buf, pos + 40, 4)) as i32,
            export_map_offset: as_signed32(field_at(buf, pos + 44, 4)) as i32,
            export_bundles_offset: as_signed32(field_at(buf, pos + 48, 4)) as i32,
            graph_data_offset: as_signed32(field_at(buf, pos + 52, 4)) as i32,
            graph_data_size: as_signed32(field_at(buf, pos + 56, 4)) as i32,
        }
    }

    /// Reads the header at `pos`, or nothing when fewer than 60 bytes follow.
    pub fn from_buffer(buf: &[u8], pos: usize) -> (r: Option<FPackageSummary2>)
        ensures
            r is Some <==> pos + PACKAGE_SUMMARY2_SIZE <= buf@.len(),
            r is Some ==> r->0 == FPackageSummary2::parse(buf@, pos as int),
    {
        if pos > buf.len() || buf.len() - pos < PACKAGE_SUMMARY2_SIZE {
            return None;
        }
        let name = read_u64_le(buf, pos).unwrap();
        let source_name = read_u64_le(buf, pos + 8).unwrap();
        let package_flags = read_u32_le(buf, pos + 16).unwrap();
        let cooked_header_size = read_u32_le(buf, pos + 20).unwrap();
        let name_map_names_offset = read_i32_le(buf, pos + 24).unwrap();
        let name_map_names_size = read_i32_le(buf, pos + 28).unwrap();
        let name_map_hashes_offset = read_i32_le(buf, pos + 32).unwrap();
        let name_map_hashes_size = read_i32_le(buf, pos + 36).unwrap();
        let import_map_offset = read_i32_le(buf, pos + 40).unwrap();
        let export_map_offset = read_i32_le(buf, pos + 44).unwrap();
        let export_bundles_offset = read_i32_le(buf, pos + 48).unwrap();
        let graph_data_offset = read_i32_le(buf, pos + 52).unwrap();
        let graph_data_size = read_i32_le(buf, pos + 56).unwrap();
        Some(
            FPackageSummary2 {
                name: FMappedName::new(name),
                source_name: FMappedName::new(source_name),
                package_flags,
                cooked_header_size,
                name_map_names_offset,
                name_map_names_size,
                name_map_hashes_offset,
                name_map_hashes_size,
                import_map_offset,
                export_map_offset,
                export_bundles_offset,
                graph_data_offset,
                graph_data_size,
            },
        )
    }
}

/// Why a cooked package could not be turned into an IO Store package.
#[derive(Debug)]
pub struct ConvertPAKAssetError(pub &'static str);

impl ConvertPAKAssetError {
    /// The message, for display.
    pub fn message(&self) -> (text: String)
        ensures
            text@ == "Error converting PAK Asset: "@ + self.0@,
    {
        let mut text = String::from_str("Error converting PAK Asset: ");
        text.append(self.0);
        text
    }
}

/// An export of a package in the 4.25+ to 4.27 layouts.
#[derive(Debug)]
pub struct ObjectExport2 {
    pub cooked_serial_offset: i64,
    pub cooked_serial_size: i64,
    pub object_name: FMappedName,
    pub outer_index: IoStoreObjectIndex,
    pub class_name: IoStoreObjectIndex,
    pub super_name: IoStoreObjectIndex,
    pub template_name: IoStoreObjectIndex,
    pub global_import_name: IoStoreObjectIndex,
    pub object_flags: u32,
    pub filter_flags: u8,
}

/// The mathematical content of an [`ObjectExport2`].
pub struct ObjectExport2View {
    pub cooked_serial_offset: i64,
    pub cooked_serial_size: i64,
    pub object_name: FMappedName,
    pub outer_index: IoStoreObjectIndexView,
    pub class_name: IoStoreObjectIndexView,
    pub super_name: IoStoreObjectIndexView,
    pub template_name: IoStoreObjectIndexView,
    pub global_import_name: IoStoreObjectIndexView,
    pub object_flags: u32,
    pub filter_flags: u8,
}

impl View for ObjectExport2 {
    type V = ObjectExport2View;

    open spec fn view(&self) -> ObjectExport2View {
        ObjectExport2View {
            cooked_serial_offset: self.cooked_serial_offset,
            cooked_serial_size: self.cooked_serial_size,
            object_name: self.object_name,
            outer_index: self.outer_index@,
            class_name: self.class_name@,
            super_name: self.super_name@,
            template_name: self.template_name@,
            global_import_name: self.global_import_name@,
            object_flags: self.object_flags,
            filter_flags: self.filter_flags,
        }
    }
}

/// The 64-bit pattern of a signed value.
pub open spec fn as_unsigned64(v: int) -> nat {
    if v >= 0 {
        v as nat
    } else {
        (v + 0x1_0000_0000_0000_0000) as nat
    }
}

/// Appends `v` as eight little-endian two's-complement bytes.
pub fn write_i64_le(writer: &mut Vec<u8>, v: i64)
    ensures
        final(writer)@ == old(writer)@ + uint_le_bytes(as_unsigned64(v as int), 8),
{
    if v >= 0 {
        write_u64_le(writer, v as u64);
    } else {
        let low: u64 = (v - i64::MIN) as u64;
        write_u64_le(writer, low + 0x8000_0000_0000_0000);
    }
}

impl ObjectExport2View {
    /// The 72 serialized bytes. The filter flags are written as a zero word.
    pub open spec fn spec_bytes(self) -> Seq<u8> {
        uint_le_bytes(as_unsigned64(self.cooked_serial_offset as int), 8) + uint_le_bytes(
            as_unsigned64(self.cooked_serial_size as int),
            8,
        ) + uint_le_bytes(self.object_name.value as nat, 8) + self.outer_index.spec_bytes()
            + self.class_name.spec_bytes() + self.super_name.spec_bytes()
            + self.template_name.spec_bytes() + self.global_import_name.spec_bytes()
            + uint_le_bytes(self.object_flags as nat, 4) + uint_le_bytes(0, 4)
    }
}

/// The views of a list of exports.
pub open spec fn object_export_views(list: Seq<ObjectExport2>) -> Seq<ObjectExport2View> {
    list.map_values(|o: ObjectExport2| o@)
}

impl ObjectExport2 {
    /// The serialized form of an export map.
    pub open spec fn map_bytes(map: Seq<ObjectExport2View>) -> Seq<u8> {
        concat_bytes(map, |o: ObjectExport2View| o.spec_bytes())
    }

    /// Appends every export of `map`, in order.
    pub fn map_to_buffer(map: &Vec<ObjectExport2>, writer: &mut Vec<u8>)
        ensures
            final(writer)@ == old(writer)@ + ObjectExport2::map_bytes(object_export_views(map@)),
    {
        let n = map.len();
        let ghost views = object_export_views(map@);
        let mut i: usize = 0;
        while i < n
            invariant
                n == map@.len(),
                views == object_export_views(map@),
                i <= n,
                writer@ == old(writer)@ + ObjectExport2::map_bytes(views.take(i as int)),
            decreases n - i,
        {
            map[i].to_buffer(writer);
            proof {
                lemma_concat_bytes_push(
                    views.take(i as int),
                    views[i as int],
                    |o: ObjectExport2View| o.spec_bytes(),
                );
                assert(views.take(i + 1) =~= views.take(i as int).push(views[i as int]));
                assert(writer@ =~= old(writer)@ + ObjectExport2::map_bytes(views.take(i + 1)));
            }
            i = i + 1;
        }
        assert(views.take(n as int) =~= views);
    }

    /// Appends the 72 bytes of the export.
    pub fn to_buffer(&self, writer: &mut Vec<u8>)
        ensures
            final(writer)@ == old(writer)@ + self@.spec_bytes(),
    {
        write_i64_le(writer, self.cooked_serial_offset);
        write_i64_le(writer, self.cooked_serial_size);
        write_u64_le(writer, self.object_name.value);
        self.outer_index.to_buffer(writer);
        self.class_name.to_buffer(writer);
        self.super_name.to_buffer(writer);
        self.template_name.to_buffer(writer);
        self.global_import_name.to_buffer(writer);
        write_u32_le(writer, self.object_flags);
        write_u32_le(writer, 0);
        proof {
            assert(writer@ =~= old(writer)@ + self@.spec_bytes());
        }
    }
}

/// An arc of the load graph between export bundles of two packages.
#[derive(Debug, Copy, Clone, PartialEq, Eq, Structural)]
pub struct FGraphExternalArc {
    pub from_export_bundle_index: u32,
    pub to_export_bundle_index: u32,
}

impl FGraphExternalArc {
    /// The arc that the eight bytes at `pos` hold.
    pub open spec fn parse(buf: Seq<u8>, pos: int) -> FGraphExternalArc {
        FGraphExternalArc {
            from_export_bundle_index: field_at(buf, pos, 4) as u32,
            to_export_bundle_index: field_at(buf, pos + 4, 4) as u32,
        }
    }

    /// Reads the arc at `pos`, or nothing when fewer than eight bytes follow.
    pub fn from_buffer(buf: &[u8], pos: usize) -> (r: Option<FGraphExternalArc>)
        ensures
            r is Some <==> pos + 8 <= buf@.len(),
            r is Some ==> r->0 == FGraphExternalArc::parse(buf@, pos as int),
    {
        if pos > buf.len() || buf.len() - pos < 8 {
            return None;
        }
        let from_export_bundle_index = read_u32_le(buf, pos).unwrap();
        let to_export_bundle_index = read_u32_le(buf, pos + 4).unwrap();
        Some(FGraphExternalArc { from_export_bundle_index, to_export_bundle_index })
    }
}

/// A package that another package imports, with the arcs that lead to it.
#[derive(Debug)]
pub struct FGraphPackage {
    /// Name hash of the imported package.
    pub imported_package_id: u64,
    pub external_arcs: Vec<FGraphExternalArc>,
}

/// The mathematical content of an [`FGraphPackage`].
pub struct FGraphPackageView {
    pub imported_package_id: u64,
    pub external_arcs: Seq<FGraphExternalArc>,
}

impl View for FGraphPackage {
    type V = FGraphPackageView;

    open spec fn view(&self) -> FGraphPackageView {
        FGraphPackageView {
            imported_package_id: self.imported_package_id,
            external_arcs: self.external_arcs@,
        }
    }
}

impl FGraphPackage {
    /// The number of arcs announced by the record at `pos`.
    pub open spec fn arc_count(buf: Seq<u8>, pos: int) -> nat {
        field_at(buf, pos + 8, 4)
    }

    /// Whether a whole record stands at `pos`.
    pub open spec fn present(buf: Seq<u8>, pos: int) -> bool {
        &&& 0 <= pos
        &&& pos + 12 <= buf.len()
        &&& pos + 12 + 8 * FGraphPackage::arc_count(buf, pos) <= buf.len()
    }

    /// The position after the record at `pos`.
    pub open spec fn end(buf: Seq<u8>, pos: int) -> int {
        pos + 12 + 8 * FGraphPackage::arc_count(buf, pos)
    }

    /// The record that stands at `pos`: the package's identity, the number of
    /// arcs, and the arcs.
    pub open spec fn parse(buf: Seq<u8>, pos: int) -> FGraphPackageView {
        FGraphPackageView {
            imported_package_id: field_at(buf, pos, 8) as u64,
            external_arcs: Seq::new(
                FGraphPackage::arc_count(buf, pos),
                |i: int| FGraphExternalArc::parse(buf, pos + 12 + 8 * i),
            ),
        }
    }

    /// Reads the record at `pos` and gives the position after it, or nothing
    /// when the buffer ends inside the record.
    pub fn from_buffer(buf: &[u8], pos: usize) -> (r: Option<(FGraphPackage, usize)>)
        ensures
            r is Some <==> FGraphPackage::present(buf@, pos as int),
            r is Some ==> ({
                let (package, next) = r->0;
                &&& package@ == FGraphPackage::parse(buf@, pos as int)
                &&& next as int == FGraphPackage::end(buf@, pos as int)
            }),
    {
        let total = buf.len();
        if pos > total || total - pos < 12 {
            return None;
        }
        let imported_package_id = read_u64_le(buf, pos).unwrap();
        let external_arc_count = read_u32_le(buf, pos + 8).unwrap();
        let start = pos + 12;
        if (external_arc_count as usize) > (total - start) / 8 {
            return None;
        }
        let count = external_arc_count as usize;
        let mut external_arcs: Vec<FGraphExternalArc> = Vec::new();
        let mut i: usize = 0;
        while i < count
            invariant
                total == buf@.len(),
                start == pos + 12,
                start + 8 * count <= total,
                count == FGraphPackage::arc_count(buf@, pos as int),
                i <= count,
                external_arcs@.len() == i,
                forall|j: int|
                    0 <= j < i ==> external_arcs@[j] == FGraphExternalArc::parse(
                        buf@,
                        pos + 12 + 8 * j,
                    ),
            decreases count - i,
        {
            let arc = FGraphExternalArc::from_buffer(buf, start + 8 * i).unwrap();
            external_arcs.push(arc);
            i = i + 1;
        }
        let package = FGraphPackage { imported_package_id, external_arcs };
        proof {
            assert(package@.external_arcs =~= FGraphPackage::parse(buf@, pos as int).external_arcs);
        }
        Some((package, start + 8 * count))
    }
}

} // verus!
