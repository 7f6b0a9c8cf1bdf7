//! The binary map format: header, lump directory, fixed-stride record lumps
//! and the entity text lump.
//!
//! Coordinates in the file are 32-bit IEEE floats; the loader keeps each as
//! its bit pattern (`u32`), which the caller reinterprets.
use vstd::prelude::*;

use crate::bytes_util::{bytes_eq, starts_with, copy_range, le_u16_at, le_u32_at, read_i16_le, read_i32_le, read_u16_le, read_u32_le};

use crate::entity_text::{
    entities_view, key_index, parse_entities, parse_entity_lump, BspEntity, EntityView,
};

verus! {

/// Magic number at the start of a map file: "VBSP" read as a little-endian `u32`.
pub const BSP_MAGIC: u32 = 0x50534256;

/// Lowest supported format version.
pub const BSP_VERSION_MIN: u32 = 19;

/// Highest supported format version.
pub const BSP_VERSION_MAX: u32 = 21;

/// Number of lump descriptors in the header.
pub const HEADER_LUMPS: usize = 64;

/// Size of the header in bytes: magic, version, the lump directory, revision.
pub const HEADER_SIZE: usize = 1036;

/// Indices of the lumps that the loader reads, among others of the format.
#[derive(Debug, Clone, Copy, PartialEq, Eq, Structural)]
pub enum LumpIndex {
    Entities,
    Planes,
    TexData,
    Vertices,
    Nodes,
    TexInfo,
    Faces,
    Leaves,
    Edges,
    SurfEdges,
    Models,
    Brushes,
    BrushSides,
    GameLump,
    PakFile,
}

impl LumpIndex {
    /// Position of the lump in the header's directory.
    pub open spec fn spec_index(self) -> nat {
        match self {
            LumpIndex::Entities => 0,
            LumpIndex::Planes => 1,
            LumpIndex::TexData => 2,
            LumpIndex::Vertices => 3,
            LumpIndex::Nodes => 5,
            LumpIndex::TexInfo => 6,
            LumpIndex::Faces => 7,
            LumpIndex::Leaves => 10,
            LumpIndex::Edges => 12,
            LumpIndex::SurfEdges => 13,
            LumpIndex::Models => 14,
            LumpIndex::Brushes => 18,
            LumpIndex::BrushSides => 19,
            LumpIndex::GameLump => 35,
            LumpIndex::PakFile => 40,
        }
    }

    /// Position of the lump in the header's directory.
    pub fn index(self) -> (r: usize)
        ensures
            r == self.spec_index(),
            r < HEADER_LUMPS,
    {
        match self {
            LumpIndex::Entities => 0,
            LumpIndex::Planes => 1,
            LumpIndex::TexData => 2,
            LumpIndex::Vertices => 3,
            LumpIndex::Nodes => 5,
            LumpIndex::TexInfo => 6,
            LumpIndex::Faces => 7,
            LumpIndex::Leaves => 10,
            LumpIndex::Edges => 12,
            LumpIndex::SurfEdges => 13,
            LumpIndex::Models => 14,
            LumpIndex::Brushes => 18,
            LumpIndex::BrushSides => 19,
            LumpIndex::GameLump => 35,
            LumpIndex::PakFile => 40,
        }
    }
}

/// One lump descriptor of the header.
#[derive(Debug, Clone, Copy)]
pub struct LumpEntry {
    pub offset: u32,
    pub length: u32,
    pub version: u32,
    pub fourcc: [u8; 4],
}

/// The header of a map file.
#[derive(Debug, Clone)]
pub struct BspHeader {
    pub version: u32,
    pub lumps: Vec<LumpEntry>,
    pub map_revision: u32,
}

/// Why a map file was refused.
#[derive(Debug, Clone, Copy, PartialEq, Eq, Structural)]
pub enum BspError {
    /// The file ends inside its header.
    Truncated,
    /// The first four bytes are not the format's magic number.
    BadMagic(u32),
    /// The version lies outside the supported range.
    UnsupportedVersion(u32),
    /// A lump's offset and length reach past the end of the file.
    LumpOutOfBounds(u32),
}

/// Descriptor `i` of the directory, as the file's bytes spell it.
pub open spec fn lump_matches(l: LumpEntry, d: Seq<u8>, i: int) -> bool {
    &&& l.offset == le_u32_at(d, 8 + 16 * i)
    &&& l.length == le_u32_at(d, 12 + 16 * i)
    &&& l.version == le_u32_at(d, 16 + 16 * i)
    &&& l.fourcc@ == d.subrange(20 + 16 * i, 24 + 16 * i)
}

/// The header that the bytes `d` spell, when it is accepted.
pub open spec fn header_matches(h: BspHeader, d: Seq<u8>) -> bool {
    &&& h.version == le_u32_at(d, 4)
    &&& h.lumps@.len() == HEADER_LUMPS
    &&& forall|i: int| 0 <= i < HEADER_LUMPS ==> lump_matches(#[trigger] h.lumps@[i], d, i)
    &&& h.map_revision == le_u32_at(d, 1032)
}

/// Whether `v` is a supported version.
pub open spec fn version_supported(v: u32) -> bool {
    BSP_VERSION_MIN <= v <= BSP_VERSION_MAX
}

/// The outcome of reading the header of `d`.
pub open spec fn read_header_spec(d: Seq<u8>) -> Result<BspHeader, BspError> {
    if d.len() < 4 {
        Err(BspError::Truncated)
    } else if le_u32_at(d, 0) != BSP_MAGIC {
        Err(BspError::BadMagic(le_u32_at(d, 0)))
    } else if d.len() < 8 {
        Err(BspError::Truncated)
    } else if !version_supported(le_u32_at(d, 4)) {
        Err(BspError::UnsupportedVersion(le_u32_at(d, 4)))
    } else if d.len() < HEADER_SIZE {
        Err(BspError::Truncated)
    } else {
        Ok(header_of(d))
    }
}

/// The header that the bytes `d` spell (meaningful when it is accepted).
pub closed spec fn header_of(d: Seq<u8>) -> BspHeader {
    choose|h: BspHeader| header_matches(h, d)
}

/// Two headers that match the same bytes hold the same values.
proof fn lemma_header_determined(d: Seq<u8>, h: BspHeader)
    requires
        header_matches(h, d),
    ensures
        header_matches(header_of(d), d),
        header_of(d).version == h.version,
        header_of(d).map_revision == h.map_revision,
        header_of(d).lumps@ == h.lumps@,
{
    let g = header_of(d);
    assert(header_matches(g, d));
    assert forall|i: int| 0 <= i < HEADER_LUMPS implies g.lumps@[i] == h.lumps@[i] by {
        assert(lump_matches(g.lumps@[i], d, i));
        assert(lump_matches(h.lumps@[i], d, i));
        let (a, b) = (g.lumps@[i].fourcc, h.lumps@[i].fourcc);
        assert(a@ =~= b@);
        assert forall|k: int| 0 <= k < 4 implies a[k] == b[k] by {
            assert(a@[k] == b@[k]);
        }
        assert(a =~= b);
    }
    assert(g.lumps@ =~= h.lumps@);
}

/// Reads and checks the header. The magic number is checked first, then the
/// version; no lump is read.
pub fn read_header(d: &[u8]) -> (r: Result<BspHeader, BspError>)
    ensures
        d@.len() < 4 ==> r == Err::<BspHeader, BspError>(BspError::Truncated),
        d@.len() >= 4 && le_u32_at(d@, 0) != BSP_MAGIC ==> r == Err::<BspHeader, BspError>(
            BspError::BadMagic(le_u32_at(d@, 0)),
        ),
        d@.len() >= 4 && le_u32_at(d@, 0) == BSP_MAGIC && d@.len() < 8 ==> r == Err::<
            BspHeader,
            BspError,
        >(BspError::Truncated),
        d@.len() >= 8 && le_u32_at(d@, 0) == BSP_MAGIC && !version_supported(le_u32_at(d@, 4))
            ==> r == Err::<BspHeader, BspError>(BspError::UnsupportedVersion(le_u32_at(d@, 4))),
        d@.len() >= 8 && le_u32_at(d@, 0) == BSP_MAGIC && version_supported(le_u32_at(d@, 4))
            ==> if d@.len() < HEADER_SIZE {
            r == Err::<BspHeader, BspError>(BspError::Truncated)
        } else {
            r matches Ok(h) && header_matches(h, d@)
        },
{
    if d.len() < 4 {
        return Err(BspError::Truncated);
    }
    let magic = read_u32_le(d, 0);
    if magic != BSP_MAGIC {
        return Err(BspError::BadMagic(magic));
    }
    if d.len() < 8 {
        return Err(BspError::Truncated);
    }
    let version = read_u32_le(d, 4);
    if version < BSP_VERSION_MIN || version > BSP_VERSION_MAX {
        return Err(BspError::UnsupportedVersion(version));
    }
    if d.len() < HEADER_SIZE {
        return Err(BspError::Truncated);
    }
    let mut lumps: Vec<LumpEntry> = Vec::new();
    let mut i: usize = 0;
    while i < HEADER_LUMPS
        invariant
            i <= HEADER_LUMPS,
            d@.len() >= HEADER_SIZE,
            lumps@.len() == i,
            forall|k: int| 0 <= k < i ==> lump_matches(#[trigger] lumps@[k], d@, k),
        decreases HEADER_LUMPS - i,
    {
        let base: usize = 8 + 16 * i;
        let fourcc: [u8; 4] = [d[base + 12], d[base + 13], d[base + 14], d[base + 15]];
        let entry = LumpEntry {
            offset: read_u32_le(d, base),
            length: read_u32_le(d, base + 4),
            version: read_u32_le(d, base + 8),
            fourcc,
        };
        assert(entry.fourcc@ =~= d@.subrange(20 + 16 * i, 24 + 16 * i));
        lumps.push(entry);
        i = i + 1;
    }
    let map_revision = read_u32_le(d, 1032);
    Ok(BspHeader { version, lumps, map_revision })
}

/// Whether descriptor `l` lies inside a file of `n` bytes.
pub open spec fn lump_in_file(l: LumpEntry, n: nat) -> bool {
    l.length == 0 || l.offset + l.length <= n
}

/// The bytes of lump `idx`: empty when its length is zero, else exactly
/// `length` bytes from `offset`. A lump that reaches past the end of the
/// file is refused.
pub fn lump_bytes(d: &[u8], h: &BspHeader, idx: LumpIndex) -> (r: Result<Vec<u8>, BspError>)
    requires
        h.lumps@.len() == HEADER_LUMPS,
    ensures
        ({
            let l = h.lumps@[idx.spec_index() as int];
            &&& l.length == 0 ==> (r matches Ok(v) && v@.len() == 0)
            &&& l.length != 0 && l.offset + l.length <= d@.len() ==> (r matches Ok(v) && v@
                == d@.subrange(l.offset as int, l.offset + l.length))
            &&& !lump_in_file(l, d@.len()) ==> r == Err::<Vec<u8>, BspError>(
                BspError::LumpOutOfBounds(idx.spec_index() as u32),
            )
        }),
{
    let k = idx.index();
    let l = h.lumps[k];
    if l.length == 0 {
        return Ok(Vec::new());
    }
    let off = l.offset as usize;
    let len = l.length as usize;
    if off > d.len() || len > d.len() - off {
        return Err(BspError::LumpOutOfBounds(k as u32));
    }
    Ok(copy_range(d, off, off + len))
}

/// The bit patterns of a vector of three 32-bit floats.
#[derive(Debug, Clone, Copy, PartialEq, Eq, Structural)]
pub struct Vec3Bits {
    pub x: u32,
    pub y: u32,
    pub z: u32,
}

/// A vertex: the bit patterns of its position.
pub type Vertex = Vec3Bits;

/// A plane: normal and distance as float bit patterns, and its type.
#[derive(Debug, Clone, Copy, PartialEq, Eq, Structural)]
pub struct Plane {
    pub normal: Vec3Bits,
    pub dist_bits: u32,
    pub plane_type: i32,
}

/// An edge: two vertex indices.
#[derive(Debug, Clone, Copy)]
pub struct Edge {
    pub v: [u16; 2],
}

/// A brush (convex solid).
#[derive(Debug, Clone, Copy, PartialEq, Eq, Structural)]
pub struct Brush {
    pub first_side: i32,
    pub num_sides: i32,
    pub contents: i32,
}

/// A brush side.
#[derive(Debug, Clone, Copy, PartialEq, Eq, Structural)]
pub struct BrushSide {
    pub plane_num: u16,
    pub tex_info: i16,
    pub disp_info: i16,
    pub bevel: i16,
}

/// A model's bounds and origin (float bit patterns) and its node and faces.
#[derive(Debug, Clone, Copy, PartialEq, Eq, Structural)]
pub struct Model {
    pub mins: Vec3Bits,
    pub maxs: Vec3Bits,
    pub origin: Vec3Bits,
    pub head_node: i32,
    pub first_face: i32,
    pub num_faces: i32,
}

proof fn lemma_record_fits(i: int, n: int, stride: int)
    requires
        0 <= i < n / stride,
        stride > 0,
        n >= 0,
    ensures
        i * stride + stride <= n,
{
    vstd::arithmetic::div_mod::lemma_fundamental_div_mod(n, stride);
    assert(i * stride + stride <= (n / stride) * stride) by (nonlinear_arith)
        requires
            0 <= i < n / stride,
            stride > 0,
    ;
}

/// Three little-endian float bit patterns at `off`.
pub open spec fn vec3_at(d: Seq<u8>, off: int) -> Vec3Bits {
    Vec3Bits { x: le_u32_at(d, off), y: le_u32_at(d, off + 4), z: le_u32_at(d, off + 8) }
}

fn read_vec3(d: &[u8], off: usize) -> (r: Vec3Bits)
    requires
        off + 12 <= d@.len() <= usize::MAX,
    ensures
        r == vec3_at(d@, off as int),
{
    Vec3Bits { x: read_u32_le(d, off), y: read_u32_le(d, off + 4), z: read_u32_le(d, off + 8) }
}

/// The plane record at `off` (20 bytes).
pub open spec fn plane_at(d: Seq<u8>, off: int) -> Plane {
    Plane {
        normal: vec3_at(d, off),
        dist_bits: le_u32_at(d, off + 12),
        plane_type: le_u32_at(d, off + 16) as i32,
    }
}

/// The brush record at `off` (12 bytes).
pub open spec fn brush_at(d: Seq<u8>, off: int) -> Brush {
    Brush {
        first_side: le_u32_at(d, off) as i32,
        num_sides: le_u32_at(d, off + 4) as i32,
        contents: le_u32_at(d, off + 8) as i32,
    }
}

/// The brush-side record at `off` (8 bytes).
pub open spec fn brush_side_at(d: Seq<u8>, off: int) -> BrushSide {
    BrushSide {
        plane_num: le_u16_at(d, off),
        tex_info: le_u16_at(d, off + 2) as i16,
        disp_info: le_u16_at(d, off + 4) as i16,
        bevel: le_u16_at(d, off + 6) as i16,
    }
}

/// The model record at `off` (48 bytes).
pub open spec fn model_at(d: Seq<u8>, off: int) -> Model {
    Model {
        mins: vec3_at(d, off),
        maxs: vec3_at(d, off + 12),
        origin: vec3_at(d, off + 24),
        head_node: le_u32_at(d, off + 36) as i32,
        first_face: le_u32_at(d, off + 40) as i32,
        num_faces: le_u32_at(d, off + 44) as i32,
    }
}

/// Reads `len / 20` plane records.
pub fn read_planes(d: &[u8]) -> (r: Vec<Plane>)
    ensures
        r@.len() == d@.len() / 20,
        forall|i: int| 0 <= i < r@.len() ==> #[trigger] r@[i] == plane_at(d@, i * 20),
{
    let count = d.len() / 20;
    let mut out: Vec<Plane> = Vec::new();
    let mut i: usize = 0;
    while i < count
        invariant
            i <= count == d@.len() / 20,
            d@.len() <= usize::MAX,
            out@.len() == i,
            forall|k: int| 0 <= k < i ==> #[trigger] out@[k] == plane_at(d@, k * 20),
        decreases count - i,
    {
        proof { lemma_record_fits(i as int, d@.len() as int, 20); }
        let off = i * 20;
        out.push(Plane {
            normal: read_vec3(d, off),
            dist_bits: read_u32_le(d, off + 12),
            plane_type: read_i32_le(d, off + 16),
        });
        i = i + 1;
    }
    out
}

/// Reads `len / 12` vertex records.
pub fn read_vertices(d: &[u8]) -> (r: Vec<Vertex>)
    ensures
        r@.len() == d@.len() / 12,
        forall|i: int| 0 <= i < r@.len() ==> #[trigger] r@[i] == vec3_at(d@, i * 12),
{
    let count = d.len() / 12;
    let mut out: Vec<Vertex> = Vec::new();
    let mut i: usize = 0;
    while i < count
        invariant
            i <= count == d@.len() / 12,
            d@.len() <= usize::MAX,
            out@.len() == i,
            forall|k: int| 0 <= k < i ==> #[trigger] out@[k] == vec3_at(d@, k * 12),
        decreases count - i,
    {
        proof { lemma_record_fits(i as int, d@.len() as int, 12); }
        out.push(read_vec3(d, i * 12));
        i = i + 1;
    }
    out
}

/// Reads `len / 4` edge records.
pub fn read_edges(d: &[u8]) -> (r: Vec<Edge>)
    ensures
        r@.len() == d@.len() / 4,
        forall|i: int|
            0 <= i < r@.len() ==> #[trigger] r@[i].v@ == seq![le_u16_at(d@, i * 4), le_u16_at(d@, i * 4 + 2)],
{
    let count = d.len() / 4;
    let mut out: Vec<Edge> = Vec::new();
    let mut i: usize = 0;
    while i < count
        invariant
            i <= count == d@.len() / 4,
            d@.len() <= usize::MAX,
            out@.len() == i,
            forall|k: int|
                0 <= k < i ==> #[trigger] out@[k].v@ == seq![le_u16_at(d@, k * 4), le_u16_at(d@, k * 4 + 2)],
        decreases count - i,
    {
        proof { lemma_record_fits(i as int, d@.len() as int, 4); }
        let off = i * 4;
        let e = Edge { v: [read_u16_le(d, off), read_u16_le(d, off + 2)] };
        assert(e.v@ =~= seq![le_u16_at(d@, i * 4), le_u16_at(d@, i * 4 + 2)]);
        out.push(e);
        i = i + 1;
    }
    out
}

/// Reads `len / 4` surface-edge indices.
pub fn read_surf_edges(d: &[u8]) -> (r: Vec<i32>)
    ensures
        r@.len() == d@.len() / 4,
        forall|i: int| 0 <= i < r@.len() ==> #[trigger] r@[i] == le_u32_at(d@, i * 4) as i32,
{
    let count = d.len() / 4;
    let mut out: Vec<i32> = Vec::new();
    let mut i: usize = 0;
    while i < count
        invariant
            i <= count == d@.len() / 4,
            d@.len() <= usize::MAX,
            out@.len() == i,
            forall|k: int| 0 <= k < i ==> #[trigger] out@[k] == le_u32_at(d@, k * 4) as i32,
        decreases count - i,
    {
        proof { lemma_record_fits(i as int, d@.len() as int, 4); }
        out.push(read_i32_le(d, i * 4));
        i = i + 1;
    }
    out
}

/// Reads `len / 12` brush records.
pub fn read_brushes(d: &[u8]) -> (r: Vec<Brush>)
    ensures
        r@.len() == d@.len() / 12,
        forall|i: int| 0 <= i < r@.len() ==> #[trigger] r@[i] == brush_at(d@, i * 12),
{
    let count = d.len() / 12;
    let mut out: Vec<Brush> = Vec::new();
    let mut i: usize = 0;
    while i < count
        invariant
            i <= count == d@.len() / 12,
            d@.len() <= usize::MAX,
            out@.len() == i,
            forall|k: int| 0 <= k < i ==> #[trigger] out@[k] == brush_at(d@, k * 12),
        decreases count - i,
    {
        proof { lemma_record_fits(i as int, d@.len() as int, 12); }
        let off = i * 12;
        out.push(Brush {
            first_side: read_i32_le(d, off),
            num_sides: read_i32_le(d, off + 4),
            contents: read_i32_le(d, off + 8),
        });
        i = i + 1;
    }
    out
}

/// Reads `len / 8` brush-side records.
pub fn read_brush_sides(d: &[u8]) -> (r: Vec<BrushSide>)
    ensures
        r@.len() == d@.len() / 8,
        forall|i: int| 0 <= i < r@.len() ==> #[trigger] r@[i] == brush_side_at(d@, i * 8),
{
    let count = d.len() / 8;
    let mut out: Vec<BrushSide> = Vec::new();
    let mut i: usize = 0;
    while i < count
        invariant
            i <= count == d@.len() / 8,
            d@.len() <= usize::MAX,
            out@.len() == i,
            forall|k: int| 0 <= k < i ==> #[trigger] out@[k] == brush_side_at(d@, k * 8),
        decreases count - i,
    {
        proof { lemma_record_fits(i as int, d@.len() as int, 8); }
        let off = i * 8;
        out.push(BrushSide {
            plane_num: read_u16_le(d, off),
            tex_info: read_i16_le(d, off + 2),
            disp_info: read_i16_le(d, off + 4),
            bevel: read_i16_le(d, off + 6),
        });
        i = i + 1;
    }
    out
}

/// Reads `len / 48` model records.
pub fn read_models(d: &[u8]) -> (r: Vec<Model>)
    ensures
        r@.len() == d@.len() / 48,
        forall|i: int| 0 <= i < r@.len() ==> #[trigger] r@[i] == model_at(d@, i * 48),
{
    let count = d.len() / 48;
    let mut out: Vec<Model> = Vec::new();
    let mut i: usize = 0;
    while i < count
        invariant
            i <= count == d@.len() / 48,
            d@.len() <= usize::MAX,
            out@.len() == i,
            forall|k: int| 0 <= k < i ==> #[trigger] out@[k] == model_at(d@, k * 48),
        decreases count - i,
    {
        proof { lemma_record_fits(i as int, d@.len() as int, 48); }
        let off = i * 48;
        out.push(Model {
            mins: read_vec3(d, off),
            maxs: read_vec3(d, off + 12),
            origin: read_vec3(d, off + 24),
            head_node: read_i32_le(d, off + 36),
            first_face: read_i32_le(d, off + 40),
            num_faces: read_i32_le(d, off + 44),
        });
        i = i + 1;
    }
    out
}

/// A face (polygon); `area_bits` is the bit pattern of its area.
#[derive(Debug, Clone, Copy)]
pub struct Face {
    pub plane_num: u16,
    pub side: u8,
    pub on_node: u8,
    pub first_edge: i32,
    pub num_edges: i16,
    pub tex_info: i16,
    pub disp_info: i16,
    pub surface_fog_volume_id: i16,
    pub styles: u32,
    pub light_ofs: i32,
    pub area_bits: u32,
    pub lightmap_mins: (i32, i32),
    pub lightmap_size: (i32, i32),
    pub orig_face: i32,
    pub num_prims: u16,
    pub first_prim_id: u16,
    pub smoothing_groups: u32,
}

/// The face record at `off` (56 bytes). `styles` holds the four style bytes
/// in file order, the first in the lowest byte.
pub open spec fn face_at(d: Seq<u8>, off: int) -> Face {
    Face {
        plane_num: le_u16_at(d, off),
        side: d[off + 2],
        on_node: d[off + 3],
        first_edge: le_u32_at(d, off + 4) as i32,
        num_edges: le_u16_at(d, off + 8) as i16,
        tex_info: le_u16_at(d, off + 10) as i16,
        disp_info: le_u16_at(d, off + 12) as i16,
        surface_fog_volume_id: le_u16_at(d, off + 14) as i16,
        styles: le_u32_at(d, off + 16),
        light_ofs: le_u32_at(d, off + 20) as i32,
        area_bits: le_u32_at(d, off + 24),
        lightmap_mins: (le_u32_at(d, off + 28) as i32, le_u32_at(d, off + 32) as i32),
        lightmap_size: (le_u32_at(d, off + 36) as i32, le_u32_at(d, off + 40) as i32),
        orig_face: le_u32_at(d, off + 44) as i32,
        num_prims: le_u16_at(d, off + 48),
        first_prim_id: le_u16_at(d, off + 50),
        smoothing_groups: le_u32_at(d, off + 52),
    }
}

/// Reads `len / 56` face records.
pub fn read_faces(d: &[u8]) -> (r: Vec<Face>)
    ensures
        r@.len() == d@.len() / 56,
        forall|i: int| 0 <= i < r@.len() ==> #[trigger] r@[i] == face_at(d@, i * 56),
{
    let count = d.len() / 56;
    let mut out: Vec<Face> = Vec::new();
    let mut i: usize = 0;
    while i < count
        invariant
            i <= count == d@.len() / 56,
            d@.len() <= usize::MAX,
            out@.len() == i,
            forall|k: int| 0 <= k < i ==> #[trigger] out@[k] == face_at(d@, k * 56),
        decreases count - i,
    {
        proof { lemma_record_fits(i as int, d@.len() as int, 56); }
        let off = i * 56;
        out.push(Face {
            plane_num: read_u16_le(d, off),
            side: d[off + 2],
            on_node: d[off + 3],
            first_edge: read_i32_le(d, off + 4),
            num_edges: read_i16_le(d, off + 8),
            tex_info: read_i16_le(d, off + 10),
            disp_info: read_i16_le(d, off + 12),
            surface_fog_volume_id: read_i16_le(d, off + 14),
            styles: read_u32_le(d, off + 16),
            light_ofs: read_i32_le(d, off + 20),
            area_bits: read_u32_le(d, off + 24),
            lightmap_mins: (read_i32_le(d, off + 28), read_i32_le(d, off + 32)),
            lightmap_size: (read_i32_le(d, off + 36), read_i32_le(d, off + 40)),
            orig_face: read_i32_le(d, off + 44),
            num_prims: read_u16_le(d, off + 48),
            first_prim_id: read_u16_le(d, off + 50),
            smoothing_groups: read_u32_le(d, off + 52),
        });
        i = i + 1;
    }
    out
}

/// The bytes of `info_player`.
pub open spec fn info_player() -> Seq<u8> {
    seq![105u8, 110u8, 102u8, 111u8, 95u8, 112u8, 108u8, 97u8, 121u8, 101u8, 114u8]
}

/// The bytes of `info_target`.
pub open spec fn info_target() -> Seq<u8> {
    seq![105u8, 110u8, 102u8, 111u8, 95u8, 116u8, 97u8, 114u8, 103u8, 101u8, 116u8]
}

/// The bytes of `origin`.
pub open spec fn origin_key() -> Seq<u8> {
    seq![111u8, 114u8, 105u8, 103u8, 105u8, 110u8]
}

/// The bytes of `worldspawn`.
pub open spec fn worldspawn_class() -> Seq<u8> {
    seq![119u8, 111u8, 114u8, 108u8, 100u8, 115u8, 112u8, 97u8, 119u8, 110u8]
}

/// A class that marks a spawn point: it begins with `info_player` or is
/// `info_target`.
pub open spec fn is_spawn_class(c: Seq<u8>) -> bool {
    (c.len() >= info_player().len() && c.subrange(0, info_player().len() as int) == info_player())
        || c == info_target()
}

/// The value of property `k` of `e`, if present.
pub open spec fn property_of(e: EntityView, k: Seq<u8>) -> Option<Seq<u8>> {
    let i = key_index(e.properties, k, 0);
    if i < 0 {
        None
    } else {
        Some(e.properties[i].1)
    }
}

/// The origin text of `e` when it is a spawn point that has one.
pub open spec fn spawn_origin_of(e: EntityView) -> Option<Seq<u8>> {
    if is_spawn_class(e.classname) {
        property_of(e, origin_key())
    } else {
        None
    }
}

/// The origin texts of the spawn points among `ents`, in order.
pub open spec fn spawn_origins_of(ents: Seq<EntityView>) -> Seq<Seq<u8>> {
    ents.filter_map(|e: EntityView| spawn_origin_of(e))
}

/// Whether `c` is the class of a spawn point.
pub fn is_spawn_classname(c: &[u8]) -> (r: bool)
    ensures
        r <==> is_spawn_class(c@),
{
    let player: [u8; 11] = [105u8, 110u8, 102u8, 111u8, 95u8, 112u8, 108u8, 97u8, 121u8, 101u8, 114u8];
    let target: [u8; 11] = [105u8, 110u8, 102u8, 111u8, 95u8, 116u8, 97u8, 114u8, 103u8, 101u8, 116u8];
    assert(player@ =~= info_player());
    assert(target@ =~= info_target());
    starts_with(c, player.as_slice()) || bytes_eq(c, target.as_slice())
}

/// A loaded map.
#[derive(Debug, Clone)]
pub struct BspMap {
    pub name: String,
    pub version: u32,
    pub map_revision: u32,
    pub entities: Vec<BspEntity>,
    pub planes: Vec<Plane>,
    pub vertices: Vec<Vertex>,
    pub edges: Vec<Edge>,
    pub surf_edges: Vec<i32>,
    pub faces: Vec<Face>,
    pub brushes: Vec<Brush>,
    pub brush_sides: Vec<BrushSide>,
    pub models: Vec<Model>,
}

/// The bytes of lump `idx` of a file `d` with header `h`.
pub open spec fn lump_of(d: Seq<u8>, h: BspHeader, idx: LumpIndex) -> Seq<u8> {
    let l = h.lumps@[idx.spec_index() as int];
    if l.length == 0 {
        Seq::empty()
    } else {
        d.subrange(l.offset as int, l.offset + l.length)
    }
}

/// The lumps that a load reads, in the order it reads them.
pub open spec fn load_order() -> Seq<LumpIndex> {
    seq![
        LumpIndex::Entities,
        LumpIndex::Planes,
        LumpIndex::Vertices,
        LumpIndex::Edges,
        LumpIndex::SurfEdges,
        LumpIndex::Faces,
        LumpIndex::Brushes,
        LumpIndex::BrushSides,
        LumpIndex::Models,
    ]
}

/// Every lump that a load reads lies inside the file.
pub open spec fn lumps_in_file(d: Seq<u8>, h: BspHeader) -> bool {
    forall|i: int| 0 <= i < 9 ==> lump_in_file(h.lumps@[(#[trigger] load_order()[i]).spec_index() as int], d.len())
}

impl BspMap {
    /// Parses a whole map file held in memory. Header errors come first;
    /// then the first lump, in reading order, that reaches past the end of
    /// the file is reported.
    pub fn load_from_bytes(name: String, d: &[u8]) -> (r: Result<BspMap, BspError>)
        ensures
            match read_header_spec(d@) {
                Err(e) => r == Err::<BspMap, BspError>(e),
                Ok(h) => match r {
                    Ok(m) => lumps_in_file(d@, h) && m.name@ == name@ && m.version == h.version
                        && m.map_revision == h.map_revision
                        && entities_view(m.entities@) == parse_entities(lump_of(d@, h, LumpIndex::Entities))
                        && m.planes@.len() == lump_of(d@, h, LumpIndex::Planes).len() / 20
                        && m.vertices@.len() == lump_of(d@, h, LumpIndex::Vertices).len() / 12
                        && m.edges@.len() == lump_of(d@, h, LumpIndex::Edges).len() / 4
                        && m.surf_edges@.len() == lump_of(d@, h, LumpIndex::SurfEdges).len() / 4
                        && m.faces@.len() == lump_of(d@, h, LumpIndex::Faces).len() / 56
                        && m.brushes@.len() == lump_of(d@, h, LumpIndex::Brushes).len() / 12
                        && m.brush_sides@.len() == lump_of(d@, h, LumpIndex::BrushSides).len() / 8
                        && m.models@.len() == lump_of(d@, h, LumpIndex::Models).len() / 48
                        && (forall|i: int| 0 <= i < m.planes@.len() ==> #[trigger] m.planes@[i] == plane_at(lump_of(d@, h, LumpIndex::Planes), i * 20))
                        && (forall|i: int| 0 <= i < m.vertices@.len() ==> #[trigger] m.vertices@[i] == vec3_at(lump_of(d@, h, LumpIndex::Vertices), i * 12))
                        && (forall|i: int| 0 <= i < m.edges@.len() ==> #[trigger] m.edges@[i].v@ == seq![
                            le_u16_at(lump_of(d@, h, LumpIndex::Edges), i * 4),
                            le_u16_at(lump_of(d@, h, LumpIndex::Edges), i * 4 + 2),
                        ])
                        && (forall|i: int| 0 <= i < m.surf_edges@.len() ==> #[trigger] m.surf_edges@[i] == le_u32_at(lump_of(d@, h, LumpIndex::SurfEdges), i * 4) as i32)
                        && (forall|i: int| 0 <= i < m.faces@.len() ==> #[trigger] m.faces@[i] == face_at(lump_of(d@, h, LumpIndex::Faces), i * 56))
                        && (forall|i: int| 0 <= i < m.brushes@.len() ==> #[trigger] m.brushes@[i] == brush_at(lump_of(d@, h, LumpIndex::Brushes), i * 12))
                        && (forall|i: int| 0 <= i < m.brush_sides@.len() ==> #[trigger] m.brush_sides@[i] == brush_side_at(lump_of(d@, h, LumpIndex::BrushSides), i * 8))
                        && (forall|i: int| 0 <= i < m.models@.len() ==> #[trigger] m.models@[i] == model_at(lump_of(d@, h, LumpIndex::Models), i * 48)),
                    Err(e) => !lumps_in_file(d@, h) && exists|i: int| 0 <= i < 9 && e == BspError::LumpOutOfBounds(
                        load_order()[i].spec_index() as u32) && !lump_in_file(h.lumps@[load_order()[i].spec_index() as int], d@.len())
                        && forall|j: int| 0 <= j < i ==> lump_in_file(h.lumps@[load_order()[j].spec_index() as int], d@.len()),
                },
            },
    {
        let h = match read_header(d) {
            Ok(h) => h,
            Err(e) => return Err(e),
        };
        proof { lemma_header_determined(d@, h); }
        let ent = match lump_bytes(d, &h, LumpIndex::Entities) {
            Ok(b) => b,
            Err(e) => { proof { assert(load_order()[0] == LumpIndex::Entities); } return Err(e); },
        };
        let pl = match lump_bytes(d, &h, LumpIndex::Planes) {
            Ok(b) => b,
            Err(e) => { proof { assert(load_order()[1] == LumpIndex::Planes); } return Err(e); },
        };
        let ve = match lump_bytes(d, &h, LumpIndex::Vertices) {
            Ok(b) => b,
            Err(e) => { proof { assert(load_order()[2] == LumpIndex::Vertices); } return Err(e); },
        };
        let ed = match lump_bytes(d, &h, LumpIndex::Edges) {
            Ok(b) => b,
            Err(e) => { proof { assert(load_order()[3] == LumpIndex::Edges); } return Err(e); },
        };
        let se = match lump_bytes(d, &h, LumpIndex::SurfEdges) {
            Ok(b) => b,
            Err(e) => { proof { assert(load_order()[4] == LumpIndex::SurfEdges); } return Err(e); },
        };
        let fa = match lump_bytes(d, &h, LumpIndex::Faces) {
            Ok(b) => b,
            Err(e) => { proof { assert(load_order()[5] == LumpIndex::Faces); } return Err(e); },
        };
        let br = match lump_bytes(d, &h, LumpIndex::Brushes) {
            Ok(b) => b,
            Err(e) => { proof { assert(load_order()[6] == LumpIndex::Brushes); } return Err(e); },
        };
        let bs = match lump_bytes(d, &h, LumpIndex::BrushSides) {
            Ok(b) => b,
            Err(e) => { proof { assert(load_order()[7] == LumpIndex::BrushSides); } return Err(e); },
        };
        let mo = match lump_bytes(d, &h, LumpIndex::Models) {
            Ok(b) => b,
            Err(e) => { proof { assert(load_order()[8] == LumpIndex::Models); } return Err(e); },
        };
        proof {
            assert forall|i: int| 0 <= i < 9 implies lump_in_file(h.lumps@[(#[trigger] load_order()[i]).spec_index() as int], d@.len()) by {
                if i == 0 {} else if i == 1 {} else if i == 2 {} else if i == 3 {} else if i == 4 {}
                else if i == 5 {} else if i == 6 {} else if i == 7 {} else {}
            }
        }
        Ok(BspMap {
            name,
            version: h.version,
            map_revision: h.map_revision,
            entities: parse_entity_lump(ent.as_slice()),
            planes: read_planes(pl.as_slice()),
            vertices: read_vertices(ve.as_slice()),
            edges: read_edges(ed.as_slice()),
            surf_edges: read_surf_edges(se.as_slice()),
            faces: read_faces(fa.as_slice()),
            brushes: read_brushes(br.as_slice()),
            brush_sides: read_brush_sides(bs.as_slice()),
            models: read_models(mo.as_slice()),
        })
    }

    /// The origin texts of the spawn points, in map order: entities whose
    /// class begins with `info_player` or is `info_target`, and that have
    /// an `origin` property.
    pub fn spawn_origins(&self) -> (r: Vec<Vec<u8>>)
        ensures
            r@.map_values(|v: Vec<u8>| v@) == spawn_origins_of(entities_view(self.entities@)),
    {
        let ghost ev = entities_view(self.entities@);
        let ghost f = |e: EntityView| spawn_origin_of(e);
        let origin: [u8; 6] = [111u8, 114u8, 105u8, 103u8, 105u8, 110u8];
        assert(origin@ =~= origin_key());
        let mut out: Vec<Vec<u8>> = Vec::new();
        let mut i: usize = 0;
        assert(out@.map_values(|v: Vec<u8>| v@) =~= ev.take(0).filter_map(f));
        while i < self.entities.len()
            invariant
                i <= self.entities@.len(),
                ev == entities_view(self.entities@),
                f == (|e: EntityView| spawn_origin_of(e)),
                origin@ == origin_key(),
                out@.map_values(|v: Vec<u8>| v@) == ev.take(i as int).filter_map(f),
            decreases self.entities@.len() - i,
        {
            let e = &self.entities[i];
            proof { ev.lemma_filter_map_take_succ(f, i as int); }
            if is_spawn_classname(e.classname.as_slice()) {
                match e.get(origin.as_slice()) {
                    Some(v) => {
                        let ghost before = out@;
                        out.push(copy_range(v.as_slice(), 0, v.len()));
                        assert(v@.subrange(0, v@.len() as int) =~= v@);
                        assert(out@.map_values(|v: Vec<u8>| v@) =~= before.map_values(|v: Vec<u8>| v@) + seq![v@]);
                    },
                    None => {},
                }
            }
            i = i + 1;
        }
        assert(ev.take(ev.len() as int) =~= ev);
        out
    }

    /// The first entity whose class is `worldspawn`.
    pub fn worldspawn(&self) -> (r: Option<&BspEntity>)
        ensures
            match r {
                Some(e) => exists|i: int| 0 <= i < self.entities@.len() && self.entities@[i] == *e
                    && e.classname@ == worldspawn_class()
                    && forall|j: int| 0 <= j < i ==> self.entities@[j].classname@ != worldspawn_class(),
                None => forall|i: int| 0 <= i < self.entities@.len() ==> self.entities@[i].classname@ != worldspawn_class(),
            },
    {
        let ws: [u8; 10] = [119u8, 111u8, 114u8, 108u8, 100u8, 115u8, 112u8, 97u8, 119u8, 110u8];
        assert(ws@ =~= worldspawn_class());
        let mut i: usize = 0;
        while i < self.entities.len()
            invariant
                i <= self.entities@.len(),
                ws@ == worldspawn_class(),
                forall|j: int| 0 <= j < i ==> self.entities@[j].classname@ != worldspawn_class(),
            decreases self.entities@.len() - i,
        {
            if bytes_eq(self.entities[i].classname.as_slice(), ws.as_slice()) {
                return Some(&self.entities[i]);
            }
            i = i + 1;
        }
        None
    }
}

} // verus!
