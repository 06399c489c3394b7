//! The decoded model: its header, sections and records, and the decoders that
//! read each of them from the bytes of a model file.
//!
//! Every single-precision value is kept as its raw IEEE-754 bit pattern, exactly
//! as stored; positional quantities are in file units, and the consumer divides
//! them by the engine's world scale.
use vstd::prelude::*;
use crate::bytes::{
    fits, i16_le, i32_le, is_name_of, max_bits, max_of, min_bits, min_of, order_key, read_i16,
    read_i32, read_name, read_u16, read_u32, read_u8, read_vec2, read_vec3, u16_le, u32_le,
    vec2_le, vec3_le, Vec2Bits, Vec3Bits, lemma_min_below_max,
};

verus! {

/// Why a model could not be decoded.
#[derive(Clone, Copy, Debug, PartialEq, Eq, Structural)]
pub enum DecodeError {
    /// A header invariant does not hold: the extended-material size is below 8,
    /// or the attachment points are laid out before the UVs.
    MalformedHeader,
    /// A material's type byte is neither 0 (texture-mapped) nor 1 (colour fill).
    UnknownMaterialType(u8),
    /// An attachment point's type tag is outside the enumerated kinds.
    UnknownAttachmentType(u32),
    /// A record lies (partly) past the end of the bytes.
    TruncatedStream,
}

/// Axis-aligned box, corners ordered component-wise.
#[derive(Clone, Copy, Debug, PartialEq, Eq, Structural)]
pub struct BoundingBox {
    pub min: Vec3Bits,
    pub max: Vec3Bits,
}

/// The fixed-layout model header, with the offsets and counts of every section.
#[derive(Clone, Debug)]
pub struct ObjBinHeader {
    pub bbox_min: Vec3Bits,
    pub bbox_max: Vec3Bits,
    pub obj_name: Vec<u8>,
    pub num_mats: u8,
    pub num_objs: u8,
    pub num_polygons: u16,
    pub num_verts: u16,
    pub num_vhots: u8,
    pub offset_mats: u32,
    pub offset_mat_extra: u32,
    pub offset_objs: u32,
    pub mat_flags: u32,
    pub size_mat_extra: u32,
    pub offset_polygons: u32,
    pub offset_verts: u32,
    pub offset_vhots: u32,
    pub offset_uvs: u32,
}

/// Bytes taken by the header of a model of the given format version.
pub open spec fn header_len(version: u32) -> int {
    if version > 3 {
        114
    } else {
        102
    }
}

/// Corner of the bounding box as stored second (its nominal minimum).
pub open spec fn raw_corner_min(b: Seq<u8>, s: int) -> Vec3Bits {
    vec3_le(b, s + 28)
}

/// Corner of the bounding box as stored first (its nominal maximum).
pub open spec fn raw_corner_max(b: Seq<u8>, s: int) -> Vec3Bits {
    vec3_le(b, s + 16)
}

/// Component-wise minimum of two corners.
pub open spec fn corner_min(a: Vec3Bits, c: Vec3Bits) -> Vec3Bits {
    Vec3Bits { x: min_bits(a.x, c.x), y: min_bits(a.y, c.y), z: min_bits(a.z, c.z) }
}

/// Component-wise maximum of two corners.
pub open spec fn corner_max(a: Vec3Bits, c: Vec3Bits) -> Vec3Bits {
    Vec3Bits { x: max_bits(a.x, c.x), y: max_bits(a.y, c.y), z: max_bits(a.z, c.z) }
}

/// Extended-material size field, as stored (only read for versions above 3).
pub open spec fn raw_size_mat_extra(b: Seq<u8>, s: int) -> u32 {
    u32_le(b, s + 110)
}

/// What reading the header at `s` fails with, if anything.
pub open spec fn header_status(b: Seq<u8>, s: int, version: u32) -> Option<DecodeError> {
    if !fits(b, s, header_len(version)) {
        Some(DecodeError::TruncatedStream)
    } else if version > 3 && raw_size_mat_extra(b, s) < 8 {
        Some(DecodeError::MalformedHeader)
    } else {
        None
    }
}

/// `h` holds the fields of the header stored at `s`.
pub open spec fn header_matches(h: ObjBinHeader, b: Seq<u8>, s: int, version: u32) -> bool {
    &&& is_name_of(h.obj_name@, b.subrange(s, s + 8))
    &&& h.bbox_min == corner_min(raw_corner_min(b, s), raw_corner_max(b, s))
    &&& h.bbox_max == corner_max(raw_corner_min(b, s), raw_corner_max(b, s))
    &&& h.num_polygons == u16_le(b, s + 52)
    &&& h.num_verts == u16_le(b, s + 54)
    &&& h.num_mats == b[s + 58]
    &&& h.num_vhots == b[s + 60]
    &&& h.num_objs == b[s + 61]
    &&& h.offset_objs == u32_le(b, s + 62)
    &&& h.offset_mats == u32_le(b, s + 66)
    &&& h.offset_uvs == u32_le(b, s + 70)
    &&& h.offset_vhots == u32_le(b, s + 74)
    &&& h.offset_verts == u32_le(b, s + 78)
    &&& h.offset_polygons == u32_le(b, s + 90)
    &&& if version > 3 {
        &&& h.mat_flags == u32_le(b, s + 102)
        &&& h.offset_mat_extra == u32_le(b, s + 106)
        &&& h.size_mat_extra == raw_size_mat_extra(b, s)
    } else {
        &&& h.mat_flags == 0
        &&& h.offset_mat_extra == 0
        &&& h.size_mat_extra == 0
    }
}

/// Reads the model header stored at `start`; `version` comes from the file's
/// outer container header.
pub fn read_header(b: &[u8], start: usize, version: u32) -> (r: Result<ObjBinHeader, DecodeError>)
    ensures
        match r {
            Ok(h) => header_status(b@, start as int, version) is None && header_matches(
                h,
                b@,
                start as int,
                version,
            ),
            Err(e) => header_status(b@, start as int, version) == Some(e),
        },
{
    let len = b.len();
    let need: usize = if version > 3 {
        114
    } else {
        102
    };
    if start > len || len - start < need {
        return Err(DecodeError::TruncatedStream);
    }
    let s = start;
    let obj_name = read_name(b, s, 8);
    let max0 = read_vec3(b, s + 16);
    let min0 = read_vec3(b, s + 28);
    let bbox_min = Vec3Bits { x: min_of(min0.x, max0.x), y: min_of(min0.y, max0.y), z: min_of(min0.z, max0.z) };
    let bbox_max = Vec3Bits { x: max_of(min0.x, max0.x), y: max_of(min0.y, max0.y), z: max_of(min0.z, max0.z) };
    let num_polygons = read_u16(b, s + 52);
    let num_verts = read_u16(b, s + 54);
    let num_mats = read_u8(b, s + 58);
    let num_vhots = read_u8(b, s + 60);
    let num_objs = read_u8(b, s + 61);
    let offset_objs = read_u32(b, s + 62);
    let offset_mats = read_u32(b, s + 66);
    let offset_uvs = read_u32(b, s + 70);
    let offset_vhots = read_u32(b, s + 74);
    let offset_verts = read_u32(b, s + 78);
    let offset_polygons = read_u32(b, s + 90);
    let mut mat_flags: u32 = 0;
    let mut offset_mat_extra: u32 = 0;
    let mut size_mat_extra: u32 = 0;
    if version > 3 {
        mat_flags = read_u32(b, s + 102);
        offset_mat_extra = read_u32(b, s + 106);
        size_mat_extra = read_u32(b, s + 110);
        if size_mat_extra < 8 {
            return Err(DecodeError::MalformedHeader);
        }
    }
    Ok(
        ObjBinHeader {
            bbox_min,
            bbox_max,
            obj_name,
            num_mats,
            num_objs,
            num_polygons,
            num_verts,
            num_vhots,
            offset_mats,
            offset_mat_extra,
            offset_objs,
            mat_flags,
            size_mat_extra,
            offset_polygons,
            offset_verts,
            offset_vhots,
            offset_uvs,
        },
    )
}

/// Every decoded bounding box is ordered: on each axis its minimum lies at or
/// below its maximum.
pub proof fn lemma_bounding_box_ordered(h: ObjBinHeader, b: Seq<u8>, s: int, version: u32)
    requires
        header_matches(h, b, s, version),
    ensures
        order_key(h.bbox_min.x) <= order_key(h.bbox_max.x),
        order_key(h.bbox_min.y) <= order_key(h.bbox_max.y),
        order_key(h.bbox_min.z) <= order_key(h.bbox_max.z),
{
    let lo = raw_corner_min(b, s);
    let hi = raw_corner_max(b, s);
    lemma_min_below_max(lo.x, hi.x);
    lemma_min_below_max(lo.y, hi.y);
    lemma_min_below_max(lo.z, hi.z);
}

/// The `n` vectors stored back to back at `off`.
pub open spec fn vec3_array(b: Seq<u8>, off: int, n: int) -> Seq<Vec3Bits> {
    Seq::new(n as nat, |i: int| vec3_le(b, off + 12 * i))
}

/// What reading the vertex section fails with, if anything.
pub open spec fn vertices_status(b: Seq<u8>, off: u32, n: u16) -> Option<DecodeError> {
    if fits(b, off as int, 12 * n) {
        None
    } else {
        Some(DecodeError::TruncatedStream)
    }
}

/// Reads the `num_verts` vertex positions at `offset_verts`.
pub fn read_vertices(h: &ObjBinHeader, b: &[u8]) -> (r: Result<Vec<Vec3Bits>, DecodeError>)
    ensures
        match r {
            Ok(v) => vertices_status(b@, h.offset_verts, h.num_verts) is None && v@ == vec3_array(
                b@,
                h.offset_verts as int,
                h.num_verts as int,
            ),
            Err(e) => vertices_status(b@, h.offset_verts, h.num_verts) == Some(e),
        },
{
    let len = b.len();
    let off = h.offset_verts as usize;
    let n = h.num_verts as usize;
    if off > len || (len - off) / 12 < n {
        return Err(DecodeError::TruncatedStream);
    }
    let mut v: Vec<Vec3Bits> = Vec::new();
    let mut i: usize = 0;
    while i < n
        invariant
            i <= n,
            n == h.num_verts,
            off == h.offset_verts,
            off + 12 * n <= len,
            len == b@.len(),
            v@ == vec3_array(b@, off as int, i as int),
        decreases n - i,
    {
        v.push(read_vec3(b, off + 12 * i));
        i = i + 1;
        assert(v@ =~= vec3_array(b@, off as int, i as int));
    }
    Ok(v)
}

/// Texture coordinates: their number is not stored. The format lays the
/// attachment-point section out right after the UV section in every known
/// asset, so the count is the gap between the two, in 8-byte pairs; a model
/// whose attachment points come before its UVs breaks that layout and is
/// rejected (see `uvs_status`).
pub open spec fn uv_count(offset_uvs: u32, offset_vhots: u32) -> int {
    if offset_vhots >= offset_uvs {
        (offset_vhots - offset_uvs) / 8
    } else {
        0
    }
}

/// The `n` coordinate pairs stored back to back at `off`.
pub open spec fn vec2_array(b: Seq<u8>, off: int, n: int) -> Seq<Vec2Bits> {
    Seq::new(n as nat, |i: int| vec2_le(b, off + 8 * i))
}

/// What reading the UV section fails with, if anything.
pub open spec fn uvs_status(b: Seq<u8>, offset_uvs: u32, offset_vhots: u32) -> Option<DecodeError> {
    let n = uv_count(offset_uvs, offset_vhots);
    if offset_vhots < offset_uvs {
        Some(DecodeError::MalformedHeader)
    } else if n == 0 || fits(b, offset_uvs as int, 8 * n) {
        None
    } else {
        Some(DecodeError::TruncatedStream)
    }
}

/// Reads the texture coordinates at `offset_uvs`.
pub fn read_uvs(h: &ObjBinHeader, b: &[u8]) -> (r: Result<Vec<Vec2Bits>, DecodeError>)
    ensures
        match r {
            Ok(v) => uvs_status(b@, h.offset_uvs, h.offset_vhots) is None && v@ == vec2_array(
                b@,
                h.offset_uvs as int,
                uv_count(h.offset_uvs, h.offset_vhots),
            ),
            Err(e) => uvs_status(b@, h.offset_uvs, h.offset_vhots) == Some(e),
        },
{
    let len = b.len();
    let off = h.offset_uvs as usize;
    if h.offset_vhots < h.offset_uvs {
        return Err(DecodeError::MalformedHeader);
    }
    let n = ((h.offset_vhots - h.offset_uvs) / 8) as usize;
    if n > 0 && (off > len || (len - off) / 8 < n) {
        return Err(DecodeError::TruncatedStream);
    }
    let mut v: Vec<Vec2Bits> = Vec::new();
    let mut i: usize = 0;
    while i < n
        invariant
            i <= n,
            n == uv_count(h.offset_uvs, h.offset_vhots),
            off == h.offset_uvs,
            n > 0 ==> off + 8 * n <= len,
            len == b@.len(),
            v@ == vec2_array(b@, off as int, i as int),
        decreases n - i,
    {
        v.push(read_vec2(b, off + 8 * i));
        i = i + 1;
        assert(v@ =~= vec2_array(b@, off as int, i as int));
    }
    Ok(v)
}

/// Kind of an attachment point.
#[derive(Clone, Copy, Debug, PartialEq, Eq, Structural)]
pub enum VhotType {
    Unknown,
    LightSource,
    Anchor,
    Particle1,
    Particle2,
    Particle3,
    Particle4,
    Particle5,
    LightSource2,
}

/// The stored tag of each kind.
pub open spec fn vhot_tag(t: VhotType) -> u32 {
    match t {
        VhotType::Unknown => 0,
        VhotType::LightSource => 1,
        VhotType::Anchor => 2,
        VhotType::Particle1 => 3,
        VhotType::Particle2 => 4,
        VhotType::Particle3 => 5,
        VhotType::Particle4 => 6,
        VhotType::Particle5 => 7,
        VhotType::LightSource2 => 8,
    }
}

/// The largest tag that names a kind.
pub const MAX_VHOT_TAG: u32 = 8;

impl VhotType {
    /// The kind stored as `tag`, if any.
    pub fn from_u32(tag: u32) -> (r: Option<VhotType>)
        ensures
            tag <= MAX_VHOT_TAG <==> r is Some,
            r matches Some(t) ==> vhot_tag(t) == tag,
    {
        match tag {
            0 => Some(VhotType::Unknown),
            1 => Some(VhotType::LightSource),
            2 => Some(VhotType::Anchor),
            3 => Some(VhotType::Particle1),
            4 => Some(VhotType::Particle2),
            5 => Some(VhotType::Particle3),
            6 => Some(VhotType::Particle4),
            7 => Some(VhotType::Particle5),
            8 => Some(VhotType::LightSource2),
            _ => None,
        }
    }

    /// The stored tag of this kind.
    pub fn tag(&self) -> (r: u32)
        ensures
            r == vhot_tag(*self),
    {
        match self {
            VhotType::Unknown => 0,
            VhotType::LightSource => 1,
            VhotType::Anchor => 2,
            VhotType::Particle1 => 3,
            VhotType::Particle2 => 4,
            VhotType::Particle3 => 5,
            VhotType::Particle4 => 6,
            VhotType::Particle5 => 7,
            VhotType::LightSource2 => 8,
        }
    }
}

/// A typed attachment point ("vhot") of a model.
#[derive(Clone, Copy, Debug, PartialEq, Eq, Structural)]
pub struct Vhot {
    pub vhot_type: VhotType,
    pub point: Vec3Bits,
}

/// Bytes taken by one attachment-point record.
pub open spec fn vhot_size() -> int {
    16
}

/// `v` is the attachment point stored at `p`.
pub open spec fn vhot_matches(v: Vhot, b: Seq<u8>, p: int) -> bool {
    vhot_tag(v.vhot_type) == u32_le(b, p) && v.point == vec3_le(b, p + 4)
}

impl Vhot {
    /// Reads the attachment point stored at `p`.
    pub fn read(b: &[u8], p: usize) -> (r: Result<Vhot, DecodeError>)
        requires
            fits(b@, p as int, vhot_size()),
        ensures
            match r {
                Ok(v) => vhot_matches(v, b@, p as int),
                Err(e) => u32_le(b@, p as int) > MAX_VHOT_TAG && e
                    == DecodeError::UnknownAttachmentType(u32_le(b@, p as int)),
            },
    {
        let _len = b.len();
        let tag = read_u32(b, p);
        match VhotType::from_u32(tag) {
            Some(vhot_type) => Ok(Vhot { vhot_type, point: read_vec3(b, p + 4) }),
            None => Err(DecodeError::UnknownAttachmentType(tag)),
        }
    }
}

/// The first tag, from record `i` on, that names no kind.
pub open spec fn first_bad_vhot_tag(b: Seq<u8>, off: int, i: int, n: int) -> Option<u32>
    decreases n - i,
{
    if i >= n {
        None
    } else if u32_le(b, off + 16 * i) > MAX_VHOT_TAG {
        Some(u32_le(b, off + 16 * i))
    } else {
        first_bad_vhot_tag(b, off, i + 1, n)
    }
}

/// What reading the attachment-point section fails with, if anything.
pub open spec fn vhots_status(b: Seq<u8>, off: u32, n: u8) -> Option<DecodeError> {
    if n == 0 {
        None
    } else if !fits(b, off as int, 16 * n) {
        Some(DecodeError::TruncatedStream)
    } else {
        match first_bad_vhot_tag(b, off as int, 0, n as int) {
            Some(t) => Some(DecodeError::UnknownAttachmentType(t)),
            None => None,
        }
    }
}

/// The points of `s` of the kind tagged `t`, in their order in `s`.
pub open spec fn vhots_tagged(s: Seq<Vhot>, t: int) -> Seq<Vhot> {
    s.filter(|v: Vhot| vhot_tag(v.vhot_type) == t)
}

/// The points of `s` with tags from `t` on, grouped by ascending tag; within a
/// tag they keep their order in `s`.
pub open spec fn vhots_by_tag_from(s: Seq<Vhot>, t: int) -> Seq<Vhot>
    decreases MAX_VHOT_TAG + 1 - t,
{
    if t > MAX_VHOT_TAG {
        Seq::empty()
    } else {
        vhots_tagged(s, t) + vhots_by_tag_from(s, t + 1)
    }
}

/// `s` sorted by tag, with a stable order among points of one kind.
pub open spec fn vhots_by_tag(s: Seq<Vhot>) -> Seq<Vhot> {
    vhots_by_tag_from(s, 0)
}

/// The attachment points as stored, in file order.
pub open spec fn stored_vhots(b: Seq<u8>, off: int, n: int) -> Seq<Vhot>
    recommends
        first_bad_vhot_tag(b, off, 0, n) is None,
{
    Seq::new(
        n as nat,
        |i: int|
            Vhot {
                vhot_type: choose|t: VhotType| vhot_tag(t) == u32_le(b, off + 16 * i),
                point: vec3_le(b, off + 16 * i + 4),
            },
    )
}

proof fn lemma_first_bad_none(b: Seq<u8>, off: int, i: int, n: int, j: int)
    requires
        first_bad_vhot_tag(b, off, i, n) is None,
        i <= j < n,
    ensures
        u32_le(b, off + 16 * j) <= MAX_VHOT_TAG,
    decreases j - i,
{
    if i < j {
        lemma_first_bad_none(b, off, i + 1, n, j);
    }
}

/// Reads the `num_vhots` attachment points at `offset_vhots`, sorted by tag.
pub fn read_vhots(h: &ObjBinHeader, b: &[u8]) -> (r: Result<Vec<Vhot>, DecodeError>)
    ensures
        match r {
            Ok(v) => vhots_status(b@, h.offset_vhots, h.num_vhots) is None && v@ == vhots_by_tag(
                stored_vhots(b@, h.offset_vhots as int, h.num_vhots as int),
            ),
            Err(e) => vhots_status(b@, h.offset_vhots, h.num_vhots) == Some(e),
        },
{
    let ghost bs = b@;
    let ghost stored = stored_vhots(b@, h.offset_vhots as int, h.num_vhots as int);
    let mut decoded: Vec<Vhot> = Vec::new();
    let n = h.num_vhots as usize;
    let off = h.offset_vhots as usize;
    if n > 0 {
        let len = b.len();
        if off > len || (len - off) / 16 < n {
            return Err(DecodeError::TruncatedStream);
        }
        let mut i: usize = 0;
        while i < n
            invariant
                i <= n,
                n == h.num_vhots,
                off == h.offset_vhots,
                off + 16 * n <= len,
                len == b@.len(),
                bs == b@,
                stored == stored_vhots(bs, off as int, n as int),
                first_bad_vhot_tag(bs, off as int, 0, n as int) == first_bad_vhot_tag(
                    bs,
                    off as int,
                    i as int,
                    n as int,
                ),
                decoded@ == stored.take(i as int),
            decreases n - i,
        {
            match Vhot::read(b, off + 16 * i) {
                Ok(v) => {
                    decoded.push(v);
                },
                Err(e) => {
                    return Err(e);
                },
            }
            i = i + 1;
            assert(decoded@ =~= stored.take(i as int));
        }
        assert(decoded@ =~= stored);
    } else {
        assert(decoded@ =~= stored);
    }
    Ok(sort_by_tag(&decoded))
}

/// Groups attachment points by ascending tag, keeping their order within a tag.
pub fn sort_by_tag(s: &Vec<Vhot>) -> (r: Vec<Vhot>)
    ensures
        r@ == vhots_by_tag(s@),
{
    let mut out: Vec<Vhot> = Vec::new();
    let mut t: u32 = 0;
    while t <= MAX_VHOT_TAG
        invariant
            t <= MAX_VHOT_TAG + 1,
            out@ + vhots_by_tag_from(s@, t as int) == vhots_by_tag(s@),
        decreases MAX_VHOT_TAG + 1 - t,
    {
        let ghost before = out@;
        let mut i: usize = 0;
        while i < s.len()
            invariant
                t <= MAX_VHOT_TAG,
                i <= s@.len(),
                out@ == before + vhots_tagged(s@.take(i as int), t as int),
            decreases s@.len() - i,
        {
            let v = s[i];
            proof {
                let p = |x: Vhot| vhot_tag(x.vhot_type) == t as int;
                assert(s@.take(i as int + 1) =~= s@.take(i as int).push(v));
                Seq::filter_distributes_over_add(s@.take(i as int), seq![v], p);
                assert(s@.take(i as int).push(v) =~= s@.take(i as int) + seq![v]);
                reveal_with_fuel(Seq::filter, 2);
            }
            if v.vhot_type.tag() == t {
                out.push(v);
            }
            proof {
                assert(out@ =~= before + vhots_tagged(s@.take(i as int + 1), t as int));
            }
            i = i + 1;
        }
        assert(s@.take(s@.len() as int) =~= s@);
        t = t + 1;
        assert(out@ + vhots_by_tag_from(s@, t as int) =~= vhots_by_tag(s@));
    }
    assert(out@ =~= out@ + vhots_by_tag_from(s@, t as int));
    out
}

proof fn lemma_by_tag_from_bounds(s: Seq<Vhot>, t: int)
    ensures
        forall|i: int|
            0 <= i < vhots_by_tag_from(s, t).len() ==> vhot_tag(vhots_by_tag_from(s, t)[i].vhot_type)
                >= t,
        forall|i: int, j: int|
            0 <= i <= j < vhots_by_tag_from(s, t).len() ==> vhot_tag(
                vhots_by_tag_from(s, t)[i].vhot_type,
            ) <= vhot_tag(vhots_by_tag_from(s, t)[j].vhot_type),
    decreases MAX_VHOT_TAG + 1 - t,
{
    if t <= MAX_VHOT_TAG {
        lemma_by_tag_from_bounds(s, t + 1);
        let a = vhots_tagged(s, t);
        let rest = vhots_by_tag_from(s, t + 1);
        let p = |v: Vhot| vhot_tag(v.vhot_type) == t;
        broadcast use vstd::seq_lib::group_filter_ensures;
        assert(vhots_by_tag_from(s, t) == a + rest);
        assert forall|i: int| 0 <= i < a.len() implies vhot_tag(a[i].vhot_type) == t by {
            assert(p(a[i]));
        }
    }
}

/// Attachment points sorted by tag come out in non-decreasing tag order.
pub proof fn lemma_vhots_sorted(s: Seq<Vhot>)
    ensures
        forall|i: int, j: int|
            0 <= i <= j < vhots_by_tag(s).len() ==> vhot_tag(vhots_by_tag(s)[i].vhot_type)
                <= vhot_tag(vhots_by_tag(s)[j].vhot_type),
{
    lemma_by_tag_from_bounds(s, 0);
}

/// What a material draws with.
#[derive(Clone, Copy, Debug, PartialEq, Eq, Structural)]
pub enum MaterialKind {
    /// Type byte 0: a texture, with an implicit opaque white tint.
    TextureMapped { handle: u32, uv_scale: u32 },
    /// Type byte 1: a flat colour (each channel 0 to 255) and a palette index.
    ColorFill { red: u8, green: u8, blue: u8, alpha: u8, palette_index: u32 },
}

/// A material of the model; polygons refer to it by its slot number.
#[derive(Clone, Debug)]
pub struct SystemShock2MeshMaterial {
    pub name: Vec<u8>,
    pub slot_num: u8,
    pub kind: MaterialKind,
    pub transparency: u32,
    pub emissivity: u32,
}

/// Bytes taken by one material record.
pub open spec fn material_size() -> int {
    26
}

/// The kind stored by the material record at `p`, if its type byte names one.
pub open spec fn material_kind_at(b: Seq<u8>, p: int) -> Option<MaterialKind> {
    if b[p + 16] == 0 {
        Some(MaterialKind::TextureMapped { handle: u32_le(b, p + 18), uv_scale: u32_le(b, p + 22) })
    } else if b[p + 16] == 1 {
        Some(
            MaterialKind::ColorFill {
                red: b[p + 18],
                green: b[p + 19],
                blue: b[p + 20],
                alpha: b[p + 21],
                palette_index: u32_le(b, p + 22),
            },
        )
    } else {
        None
    }
}

/// `m` has the name, slot and kind of the material stored at `p`.
pub open spec fn material_base_matches(m: SystemShock2MeshMaterial, b: Seq<u8>, p: int) -> bool {
    &&& is_name_of(m.name@, b.subrange(p, p + 16))
    &&& m.slot_num == b[p + 17]
    &&& material_kind_at(b, p) == Some(m.kind)
}

/// `m` is the material stored at `p`, before any extended data is applied.
pub open spec fn material_matches(m: SystemShock2MeshMaterial, b: Seq<u8>, p: int) -> bool {
    &&& material_base_matches(m, b, p)
    &&& m.transparency == 0
    &&& m.emissivity == 0
}

fn read_material(b: &[u8], p: usize) -> (r: Result<SystemShock2MeshMaterial, DecodeError>)
    requires
        fits(b@, p as int, material_size()),
    ensures
        match r {
            Ok(m) => material_matches(m, b@, p as int),
            Err(e) => material_kind_at(b@, p as int) is None && e
                == DecodeError::UnknownMaterialType(b@[p + 16]),
        },
{
    let _len = b.len();
    let material_type = read_u8(b, p + 16);
    let kind = if material_type == 1 {
        MaterialKind::ColorFill {
            red: read_u8(b, p + 18),
            green: read_u8(b, p + 19),
            blue: read_u8(b, p + 20),
            alpha: read_u8(b, p + 21),
            palette_index: read_u32(b, p + 22),
        }
    } else if material_type == 0 {
        MaterialKind::TextureMapped { handle: read_u32(b, p + 18), uv_scale: read_u32(b, p + 22) }
    } else {
        return Err(DecodeError::UnknownMaterialType(material_type));
    };
    Ok(
        SystemShock2MeshMaterial {
            name: read_name(b, p, 16),
            slot_num: read_u8(b, p + 17),
            kind,
            transparency: 0,
            emissivity: 0,
        },
    )
}

/// The first type byte, from record `i` on, that names no material kind.
pub open spec fn first_bad_material_type(b: Seq<u8>, off: int, i: int, n: int) -> Option<u8>
    decreases n - i,
{
    if i >= n {
        None
    } else if material_kind_at(b, off + 26 * i) is None {
        Some(b[off + 26 * i + 16])
    } else {
        first_bad_material_type(b, off, i + 1, n)
    }
}

/// What reading the material section fails with, if anything.
pub open spec fn materials_status(b: Seq<u8>, off: u32, n: u8) -> Option<DecodeError> {
    if !fits(b, off as int, 26 * n) {
        Some(DecodeError::TruncatedStream)
    } else {
        match first_bad_material_type(b, off as int, 0, n as int) {
            Some(t) => Some(DecodeError::UnknownMaterialType(t)),
            None => None,
        }
    }
}

/// Reads the `num_mats` materials at `offset_mats`.
pub fn read_materials(h: &ObjBinHeader, b: &[u8]) -> (r: Result<
    Vec<SystemShock2MeshMaterial>,
    DecodeError,
>)
    ensures
        match r {
            Ok(v) => {
                &&& materials_status(b@, h.offset_mats, h.num_mats) is None
                &&& v@.len() == h.num_mats
                &&& forall|i: int|
                    0 <= i < v@.len() ==> material_matches(
                        #[trigger] v@[i],
                        b@,
                        h.offset_mats + 26 * i,
                    )
            },
            Err(e) => materials_status(b@, h.offset_mats, h.num_mats) == Some(e),
        },
{
    let len = b.len();
    let off = h.offset_mats as usize;
    let n = h.num_mats as usize;
    if off > len || (len - off) / 26 < n {
        return Err(DecodeError::TruncatedStream);
    }
    let mut v: Vec<SystemShock2MeshMaterial> = Vec::new();
    let mut i: usize = 0;
    while i < n
        invariant
            i <= n,
            n == h.num_mats,
            off == h.offset_mats,
            off + 26 * n <= len,
            len == b@.len(),
            first_bad_material_type(b@, off as int, 0, n as int) == first_bad_material_type(
                b@,
                off as int,
                i as int,
                n as int,
            ),
            v@.len() == i,
            forall|k: int| 0 <= k < i ==> material_matches(#[trigger] v@[k], b@, off + 26 * k),
        decreases n - i,
    {
        match read_material(b, off + 26 * i) {
            Ok(m) => {
                v.push(m);
            },
            Err(e) => {
                return Err(e);
            },
        }
        i = i + 1;
    }
    Ok(v)
}

/// What applying the extended-material section fails with, if anything. Only
/// versions above 3 have that section: two values per material, then
/// `size_mat_extra - 8` further bytes that carry nothing used here.
pub open spec fn extended_materials_status(
    b: Seq<u8>,
    offset_mat_extra: u32,
    size_mat_extra: u32,
    n: int,
    version: u32,
) -> Option<DecodeError> {
    if version <= 3 {
        None
    } else if size_mat_extra < 8 {
        Some(DecodeError::MalformedHeader)
    } else if !fits(b, offset_mat_extra as int, 8 * n + size_mat_extra - 8) {
        Some(DecodeError::TruncatedStream)
    } else {
        None
    }
}

/// `m` is `old` with the transparency and emissivity stored at `p`.
pub open spec fn extended_from(
    m: SystemShock2MeshMaterial,
    old: SystemShock2MeshMaterial,
    b: Seq<u8>,
    p: int,
) -> bool {
    &&& m.name@ == old.name@
    &&& m.slot_num == old.slot_num
    &&& m.kind == old.kind
    &&& m.transparency == u32_le(b, p)
    &&& m.emissivity == u32_le(b, p + 4)
}

/// Overlays transparency and emissivity from the extended-material section, in
/// slot order; the bytes are left unread for versions up to 3, and the
/// materials unchanged on failure.
pub fn read_extended_materials(
    h: &ObjBinHeader,
    materials: &mut Vec<SystemShock2MeshMaterial>,
    b: &[u8],
    version: u32,
) -> (r: Result<(), DecodeError>)
    ensures
        match extended_materials_status(
            b@,
            h.offset_mat_extra,
            h.size_mat_extra,
            old(materials)@.len() as int,
            version,
        ) {
            Some(e) => r == Err::<(), DecodeError>(e) && final(materials)@ == old(materials)@,
            None => r is Ok && if version <= 3 {
                final(materials)@ == old(materials)@
            } else {
                &&& final(materials)@.len() == old(materials)@.len()
                &&& forall|i: int|
                    0 <= i < final(materials)@.len() ==> extended_from(
                        #[trigger] final(materials)@[i],
                        old(materials)@[i],
                        b@,
                        h.offset_mat_extra + 8 * i,
                    )
            },
        },
{
    if version <= 3 {
        return Ok(());
    }
    if h.size_mat_extra < 8 {
        return Err(DecodeError::MalformedHeader);
    }
    let len = b.len();
    let off = h.offset_mat_extra as usize;
    let n = materials.len();
    let rest = (h.size_mat_extra - 8) as usize;
    if off > len || (len - off) / 8 < n || len - off - 8 * n < rest {
        return Err(DecodeError::TruncatedStream);
    }
    let mut out: Vec<SystemShock2MeshMaterial> = Vec::new();
    let mut i: usize = 0;
    while i < n
        invariant
            i <= n,
            n == materials@.len(),
            materials@ == old(materials)@,
            off == h.offset_mat_extra,
            off + 8 * n <= len,
            len == b@.len(),
            out@.len() == i,
            forall|k: int|
                0 <= k < i ==> extended_from(#[trigger] out@[k], materials@[k], b@, off + 8 * k),
        decreases n - i,
    {
        let m = &materials[i];
        out.push(
            SystemShock2MeshMaterial {
                name: m.name.clone(),
                slot_num: m.slot_num,
                kind: m.kind,
                transparency: read_u32(b, off + 8 * i),
                emissivity: read_u32(b, off + 8 * i + 4),
            },
        );
        i = i + 1;
    }
    *materials = out;
    Ok(())
}

/// A 3x3 rotation, its nine values in stored order, three at a time.
#[derive(Clone, Copy, Debug, PartialEq, Eq, Structural)]
pub struct Mat3Bits {
    pub r0: Vec3Bits,
    pub r1: Vec3Bits,
    pub r2: Vec3Bits,
}

/// A rigid transform: rotation, then translation (in file units).
#[derive(Clone, Copy, Debug, PartialEq, Eq, Structural)]
pub struct TransformBits {
    pub rotation: Mat3Bits,
    pub translation: Vec3Bits,
}

/// A rigid piece of the model: its place in the sub-object tree, its transform,
/// and the range `[point_start, point_stop)` of vertices it owns.
#[derive(Clone, Debug)]
pub struct SubObjectHeader {
    pub name: Vec<u8>,
    pub parent_idx: i32,
    pub min_range: u32,
    pub max_range: u32,
    pub transform: TransformBits,
    pub child_sub_obj_idx: i16,
    pub next_sub_obj_idx: i16,
    pub point_start: u16,
    pub point_stop: u32,
}

/// Bytes taken by one sub-object record.
pub open spec fn sub_object_size() -> int {
    93
}

/// `o` is the sub-object stored at `p`.
pub open spec fn sub_object_matches(o: SubObjectHeader, b: Seq<u8>, p: int) -> bool {
    &&& is_name_of(o.name@, b.subrange(p, p + 8))
    &&& o.parent_idx == i32_le(b, p + 9)
    &&& o.min_range == u32_le(b, p + 13)
    &&& o.max_range == u32_le(b, p + 17)
    &&& o.transform == (TransformBits {
        rotation: Mat3Bits {
            r0: vec3_le(b, p + 21),
            r1: vec3_le(b, p + 33),
            r2: vec3_le(b, p + 45),
        },
        translation: vec3_le(b, p + 57),
    })
    &&& o.child_sub_obj_idx == i16_le(b, p + 69)
    &&& o.next_sub_obj_idx == i16_le(b, p + 71)
    &&& o.point_start == u16_le(b, p + 77)
    &&& o.point_stop == u16_le(b, p + 77) + u16_le(b, p + 79)
}

fn read_sub_object(b: &[u8], p: usize) -> (r: SubObjectHeader)
    requires
        fits(b@, p as int, sub_object_size()),
    ensures
        sub_object_matches(r, b@, p as int),
{
    let _len = b.len();
    let point_start = read_u16(b, p + 77);
    let num_points = read_u16(b, p + 79);
    SubObjectHeader {
        name: read_name(b, p, 8),
        parent_idx: read_i32(b, p + 9),
        min_range: read_u32(b, p + 13),
        max_range: read_u32(b, p + 17),
        transform: TransformBits {
            rotation: Mat3Bits {
                r0: read_vec3(b, p + 21),
                r1: read_vec3(b, p + 33),
                r2: read_vec3(b, p + 45),
            },
            translation: read_vec3(b, p + 57),
        },
        child_sub_obj_idx: read_i16(b, p + 69),
        next_sub_obj_idx: read_i16(b, p + 71),
        point_start,
        point_stop: point_start as u32 + num_points as u32,
    }
}

/// What reading the sub-object section fails with, if anything.
pub open spec fn sub_objects_status(b: Seq<u8>, off: u32, n: u8) -> Option<DecodeError> {
    if fits(b, off as int, 93 * n) {
        None
    } else {
        Some(DecodeError::TruncatedStream)
    }
}

/// Reads the `num_objs` sub-objects at `offset_objs`.
pub fn read_sub_objects(h: &ObjBinHeader, b: &[u8]) -> (r: Result<
    Vec<SubObjectHeader>,
    DecodeError,
>)
    ensures
        match r {
            Ok(v) => {
                &&& sub_objects_status(b@, h.offset_objs, h.num_objs) is None
                &&& v@.len() == h.num_objs
                &&& forall|i: int|
                    0 <= i < v@.len() ==> sub_object_matches(
                        #[trigger] v@[i],
                        b@,
                        h.offset_objs + 93 * i,
                    )
            },
            Err(e) => sub_objects_status(b@, h.offset_objs, h.num_objs) == Some(e),
        },
{
    let len = b.len();
    let off = h.offset_objs as usize;
    let n = h.num_objs as usize;
    if off > len || (len - off) / 93 < n {
        return Err(DecodeError::TruncatedStream);
    }
    let mut v: Vec<SubObjectHeader> = Vec::new();
    let mut i: usize = 0;
    while i < n
        invariant
            i <= n,
            n == h.num_objs,
            off == h.offset_objs,
            off + 93 * n <= len,
            len == b@.len(),
            v@.len() == i,
            forall|k: int| 0 <= k < i ==> sub_object_matches(#[trigger] v@[k], b@, off + 93 * k),
        decreases n - i,
    {
        v.push(read_sub_object(b, off + 93 * i));
        i = i + 1;
    }
    Ok(v)
}

/// A polygon: its vertex indices, the parallel UV indices (present only when
/// its type has both low bits set), and the slot of its material.
#[derive(Clone, Debug)]
pub struct SystemShock2ObjectPolygon {
    pub vertex_indices: Vec<u16>,
    pub uv_indices: Vec<u16>,
    pub slot_index: u16,
}

/// The `n` indices stored back to back at `p`.
pub open spec fn u16_array(b: Seq<u8>, p: int, n: int) -> Seq<u16> {
    Seq::new(n as nat, |i: int| u16_le(b, p + 2 * i))
}

/// Number of vertices of the polygon record at `p`.
pub open spec fn polygon_verts(b: Seq<u8>, p: int) -> int {
    b[p + 5] as int
}

/// The polygon record at `p` carries UV indices.
pub open spec fn polygon_has_uvs(b: Seq<u8>, p: int) -> bool {
    b[p + 4] & 3 == 3
}

/// Bytes taken by the polygon record at `p`: a 12-byte head, vertex and normal
/// indices, UV indices if present, and one more byte in version 4 only.
pub open spec fn polygon_size(b: Seq<u8>, p: int, version: u32) -> int {
    12 + 4 * polygon_verts(b, p) + (if polygon_has_uvs(b, p) {
        2 * polygon_verts(b, p)
    } else {
        0int
    }) + (if version == 4 {
        1int
    } else {
        0int
    })
}

/// The whole polygon record at `p` lies inside the bytes.
pub open spec fn polygon_fits(b: Seq<u8>, p: int, version: u32) -> bool {
    fits(b, p, 12) && fits(b, p, polygon_size(b, p, version))
}

/// Where polygon `i` of the section at `off` starts, if every earlier record fits.
pub open spec fn polygon_pos(b: Seq<u8>, off: int, i: nat, version: u32) -> Option<int>
    decreases i,
{
    if i == 0 {
        Some(off)
    } else {
        match polygon_pos(b, off, (i - 1) as nat, version) {
            Some(q) => if polygon_fits(b, q, version) {
                Some(q + polygon_size(b, q, version))
            } else {
                None
            },
            None => None,
        }
    }
}

/// `poly` is the polygon stored at `p`.
pub open spec fn polygon_matches(poly: SystemShock2ObjectPolygon, b: Seq<u8>, p: int) -> bool {
    let n = polygon_verts(b, p);
    &&& poly.slot_index == u16_le(b, p + 2)
    &&& poly.vertex_indices@ == u16_array(b, p + 12, n)
    &&& poly.uv_indices@ == if polygon_has_uvs(b, p) {
        u16_array(b, p + 12 + 4 * n, n)
    } else {
        Seq::empty()
    }
}

/// What reading the polygon section fails with, if anything.
pub open spec fn polygons_status(b: Seq<u8>, off: u32, n: u16, version: u32) -> Option<
    DecodeError,
> {
    if fits(b, off as int, 0) && polygon_pos(b, off as int, n as nat, version) is Some {
        None
    } else {
        Some(DecodeError::TruncatedStream)
    }
}

fn read_array_u16(b: &[u8], p: usize, n: usize) -> (r: Vec<u16>)
    requires
        fits(b@, p as int, 2 * n),
    ensures
        r@ == u16_array(b@, p as int, n as int),
{
    let _len = b.len();
    let mut r: Vec<u16> = Vec::new();
    let mut i: usize = 0;
    while i < n
        invariant
            i <= n,
            fits(b@, p as int, 2 * n),
            _len == b@.len(),
            r@ == u16_array(b@, p as int, i as int),
        decreases n - i,
    {
        r.push(read_u16(b, p + 2 * i));
        i = i + 1;
        assert(r@ =~= u16_array(b@, p as int, i as int));
    }
    r
}

/// Reads the polygon at `p`; returns it with the position after its record.
fn read_polygon(b: &[u8], p: usize, version: u32) -> (r: Option<(SystemShock2ObjectPolygon, usize)>)
    requires
        p <= b@.len(),
    ensures
        match r {
            Some((poly, next)) => polygon_fits(b@, p as int, version) && polygon_matches(
                poly,
                b@,
                p as int,
            ) && next == p + polygon_size(b@, p as int, version),
            None => !polygon_fits(b@, p as int, version),
        },
{
    let len = b.len();
    if len - p < 12 {
        return None;
    }
    let slot_index = read_u16(b, p + 2);
    let poly_type = read_u8(b, p + 4);
    let n = read_u8(b, p + 5) as usize;
    let has_uvs = poly_type & 3 == 3;
    let size: usize = 12 + 4 * n + (if has_uvs {
        2 * n
    } else {
        0
    }) + (if version == 4 {
        1
    } else {
        0
    });
    if len - p < size {
        return None;
    }
    let vertex_indices = read_array_u16(b, p + 12, n);
    let uv_indices = if has_uvs {
        read_array_u16(b, p + 12 + 4 * n, n)
    } else {
        Vec::new()
    };
    proof {
        if !has_uvs {
            assert(uv_indices@ =~= Seq::<u16>::empty());
        }
    }
    Some((SystemShock2ObjectPolygon { vertex_indices, uv_indices, slot_index }, p + size))
}

/// Reads the `num_polygons` polygons at `offset_polygons`, one record after another.
pub fn read_polygons(h: &ObjBinHeader, b: &[u8], version: u32) -> (r: Result<
    Vec<SystemShock2ObjectPolygon>,
    DecodeError,
>)
    ensures
        match r {
            Ok(v) => {
                &&& polygons_status(b@, h.offset_polygons, h.num_polygons, version) is None
                &&& v@.len() == h.num_polygons
                &&& forall|i: int|
                    0 <= i < v@.len() ==> polygon_matches(
                        #[trigger] v@[i],
                        b@,
                        polygon_pos(b@, h.offset_polygons as int, i as nat, version)->Some_0,
                    )
            },
            Err(e) => polygons_status(b@, h.offset_polygons, h.num_polygons, version) == Some(e),
        },
{
    let len = b.len();
    let off = h.offset_polygons as usize;
    let n = h.num_polygons as usize;
    if off > len {
        return Err(DecodeError::TruncatedStream);
    }
    let mut v: Vec<SystemShock2ObjectPolygon> = Vec::new();
    let mut pos: usize = off;
    let mut i: usize = 0;
    while i < n
        invariant
            i <= n,
            n == h.num_polygons,
            off == h.offset_polygons,
            off <= len,
            len == b@.len(),
            pos <= len,
            polygon_pos(b@, off as int, i as nat, version) == Some(pos as int),
            v@.len() == i,
            forall|k: int|
                0 <= k < i ==> polygon_matches(
                    #[trigger] v@[k],
                    b@,
                    polygon_pos(b@, off as int, k as nat, version)->Some_0,
                ),
        decreases n - i,
    {
        match read_polygon(b, pos, version) {
            Some((poly, next)) => {
                v.push(poly);
                pos = next;
            },
            None => {
                proof {
                    lemma_polygon_pos_stops(b@, off as int, i as nat, n as nat, version);
                }
                return Err(DecodeError::TruncatedStream);
            },
        }
        i = i + 1;
    }
    Ok(v)
}

proof fn lemma_polygon_pos_stops(b: Seq<u8>, off: int, i: nat, n: nat, version: u32)
    requires
        i < n,
        polygon_pos(b, off, i, version) matches Some(q) && !polygon_fits(b, q, version),
    ensures
        polygon_pos(b, off, n, version) is None,
    decreases n - i,
{
    if i + 1 < n {
        assert(polygon_pos(b, off, (i + 1) as nat, version) is None);
        lemma_polygon_pos_none(b, off, (i + 1) as nat, n, version);
    }
}

proof fn lemma_polygon_pos_none(b: Seq<u8>, off: int, i: nat, n: nat, version: u32)
    requires
        i <= n,
        polygon_pos(b, off, i, version) is None,
    ensures
        polygon_pos(b, off, n, version) is None,
    decreases n - i,
{
    if i < n {
        assert(polygon_pos(b, off, (i + 1) as nat, version) is None);
        lemma_polygon_pos_none(b, off, (i + 1) as nat, n, version);
    }
}

/// A decoded model.
#[derive(Debug)]
pub struct SystemShock2ObjectMesh {
    pub header: ObjBinHeader,
    pub version: u32,
    pub bounding_box: BoundingBox,
    pub materials: Vec<SystemShock2MeshMaterial>,
    pub uvs: Vec<Vec2Bits>,
    pub vertices: Vec<Vec3Bits>,
    pub vhots: Vec<Vhot>,
    pub polygons: Vec<SystemShock2ObjectPolygon>,
    pub sub_objects: Vec<SubObjectHeader>,
}

/// The first of two outcomes that is a failure.
pub open spec fn first_failure(a: Option<DecodeError>, c: Option<DecodeError>) -> Option<
    DecodeError,
> {
    if a is Some {
        a
    } else {
        c
    }
}

/// What decoding the model whose header is at `s` fails with, if anything: the
/// failure of the first section, in the order they are read, that fails.
pub open spec fn mesh_status(b: Seq<u8>, s: int, version: u32) -> Option<DecodeError> {
    let (offset_mat_extra, size_mat_extra) = if version > 3 {
        (u32_le(b, s + 106), raw_size_mat_extra(b, s))
    } else {
        (0u32, 0u32)
    };
    first_failure(
        header_status(b, s, version),
        first_failure(
            vertices_status(b, u32_le(b, s + 78), u16_le(b, s + 54)),
            first_failure(
                polygons_status(b, u32_le(b, s + 90), u16_le(b, s + 52), version),
                first_failure(
                    uvs_status(b, u32_le(b, s + 70), u32_le(b, s + 74)),
                    first_failure(
                        materials_status(b, u32_le(b, s + 66), b[s + 58]),
                        first_failure(
                            extended_materials_status(
                                b,
                                offset_mat_extra,
                                size_mat_extra,
                                b[s + 58] as int,
                                version,
                            ),
                            first_failure(
                                sub_objects_status(b, u32_le(b, s + 62), b[s + 61]),
                                vhots_status(b, u32_le(b, s + 74), b[s + 60]),
                            ),
                        ),
                    ),
                ),
            ),
        ),
    )
}

/// `m` holds every section of the model whose header is at `s`.
pub open spec fn mesh_matches(m: SystemShock2ObjectMesh, b: Seq<u8>, s: int, version: u32) -> bool {
    let h = m.header;
    &&& header_matches(h, b, s, version)
    &&& m.version == version
    &&& m.bounding_box == (BoundingBox { min: h.bbox_min, max: h.bbox_max })
    &&& m.vertices@ == vec3_array(b, h.offset_verts as int, h.num_verts as int)
    &&& m.polygons@.len() == h.num_polygons
    &&& forall|i: int|
        0 <= i < m.polygons@.len() ==> polygon_matches(
            #[trigger] m.polygons@[i],
            b,
            polygon_pos(b, h.offset_polygons as int, i as nat, version)->Some_0,
        )
    &&& m.uvs@ == vec2_array(b, h.offset_uvs as int, uv_count(h.offset_uvs, h.offset_vhots))
    &&& m.materials@.len() == h.num_mats
    &&& forall|i: int|
        0 <= i < m.materials@.len() ==> {
            &&& material_base_matches(#[trigger] m.materials@[i], b, h.offset_mats + 26 * i)
            &&& if version <= 3 {
                m.materials@[i].transparency == 0 && m.materials@[i].emissivity == 0
            } else {
                &&& m.materials@[i].transparency == u32_le(b, h.offset_mat_extra + 8 * i)
                &&& m.materials@[i].emissivity == u32_le(b, h.offset_mat_extra + 8 * i + 4)
            }
        }
    &&& m.sub_objects@.len() == h.num_objs
    &&& forall|i: int|
        0 <= i < m.sub_objects@.len() ==> sub_object_matches(
            #[trigger] m.sub_objects@[i],
            b,
            h.offset_objs + 93 * i,
        )
    &&& m.vhots@ == vhots_by_tag(stored_vhots(b, h.offset_vhots as int, h.num_vhots as int))
}

/// Decodes the model whose header starts at `start`, with the format version
/// of the file's outer container header. Section offsets count from the start
/// of `b`; sections are read in a fixed order, and the first that fails decides
/// the error.
pub fn read(b: &[u8], start: usize, version: u32) -> (r: Result<SystemShock2ObjectMesh, DecodeError>)
    ensures
        match r {
            Ok(m) => mesh_status(b@, start as int, version) is None && mesh_matches(
                m,
                b@,
                start as int,
                version,
            ),
            Err(e) => mesh_status(b@, start as int, version) == Some(e),
        },
{
    let header = match read_header(b, start, version) {
        Ok(h) => h,
        Err(e) => return Err(e),
    };
    let vertices = match read_vertices(&header, b) {
        Ok(v) => v,
        Err(e) => return Err(e),
    };
    let polygons = match read_polygons(&header, b, version) {
        Ok(v) => v,
        Err(e) => return Err(e),
    };
    let uvs = match read_uvs(&header, b) {
        Ok(v) => v,
        Err(e) => return Err(e),
    };
    let mut materials = match read_materials(&header, b) {
        Ok(v) => v,
        Err(e) => return Err(e),
    };
    match read_extended_materials(&header, &mut materials, b, version) {
        Ok(()) => {},
        Err(e) => return Err(e),
    }
    let sub_objects = match read_sub_objects(&header, b) {
        Ok(v) => v,
        Err(e) => return Err(e),
    };
    let vhots = match read_vhots(&header, b) {
        Ok(v) => v,
        Err(e) => return Err(e),
    };
    let bounding_box = BoundingBox { min: header.bbox_min, max: header.bbox_max };
    Ok(
        SystemShock2ObjectMesh {
            header,
            version,
            bounding_box,
            materials,
            uvs,
            vertices,
            vhots,
            polygons,
            sub_objects,
        },
    )
}

/// A model of a version up to 3 has no extended-material data: each of its
/// materials is fully opaque and emits no light.
pub proof fn lemma_plain_materials_before_version_four(
    m: SystemShock2ObjectMesh,
    b: Seq<u8>,
    s: int,
    version: u32,
)
    requires
        mesh_matches(m, b, s, version),
        version <= 3,
    ensures
        forall|i: int|
            0 <= i < m.materials@.len() ==> (#[trigger] m.materials@[i]).transparency == 0
                && m.materials@[i].emissivity == 0,
{
    assert forall|i: int| 0 <= i < m.materials@.len() implies (#[trigger] m.materials@[i]).transparency
        == 0 && m.materials@[i].emissivity == 0 by {
        assert(material_base_matches(m.materials@[i], b, m.header.offset_mats + 26 * i));
    }
}

} // verus!
