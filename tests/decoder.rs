use dark_model::bytes::{Vec2Bits, Vec3Bits};
use dark_model::model::{
    read, read_header, DecodeError, MaterialKind, SystemShock2ObjectMesh, VhotType,
};

struct Buf {
    b: Vec<u8>,
}

impl Buf {
    fn u8(&mut self, v: u8) {
        self.b.push(v);
    }
    fn u16(&mut self, v: u16) {
        self.b.extend_from_slice(&v.to_le_bytes());
    }
    fn i16(&mut self, v: i16) {
        self.b.extend_from_slice(&v.to_le_bytes());
    }
    fn u32(&mut self, v: u32) {
        self.b.extend_from_slice(&v.to_le_bytes());
    }
    fn i32(&mut self, v: i32) {
        self.b.extend_from_slice(&v.to_le_bytes());
    }
    fn f32(&mut self, v: f32) {
        self.u32(v.to_bits());
    }
    fn vec3(&mut self, x: f32, y: f32, z: f32) {
        self.f32(x);
        self.f32(y);
        self.f32(z);
    }
    fn name(&mut self, s: &str, n: usize) {
        let mut bytes = s.as_bytes().to_vec();
        bytes.resize(n, 0);
        self.b.extend_from_slice(&bytes);
    }
    fn set_u32(&mut self, at: usize, v: u32) {
        self.b[at..at + 4].copy_from_slice(&v.to_le_bytes());
    }
}

fn v3(x: f32, y: f32, z: f32) -> Vec3Bits {
    Vec3Bits { x: x.to_bits(), y: y.to_bits(), z: z.to_bits() }
}

const START: usize = 8;

struct Options {
    version: u32,
    material_type: u8,
    vhot_tags: [u32; 3],
    size_mat_extra: u32,
}

fn default_options(version: u32) -> Options {
    Options { version, material_type: 1, vhot_tags: [3, 1, 3], size_mat_extra: 8 }
}

/// A small model: one sub-object, two materials, four vertices and UVs,
/// three attachment points and two polygons.
fn model_bytes(o: &Options) -> Vec<u8> {
    let mut m = Buf { b: Vec::new() };
    m.name("LGMD", 4);
    m.u32(o.version);
    // header
    m.name("cube", 8);
    m.f32(2.0);
    m.f32(1.5);
    m.vec3(1.0, -2.0, 3.0);
    m.vec3(-1.0, 2.0, -3.0);
    m.vec3(0.0, 0.0, 0.0);
    m.u16(2); // polygons
    m.u16(4); // vertices
    m.u16(0); // params
    m.u8(2); // materials
    m.u8(0); // vcalls
    m.u8(3); // vhots
    m.u8(1); // sub-objects
    let offsets_at = m.b.len();
    for _ in 0..10 {
        m.u32(0);
    }
    let extra_at = m.b.len();
    if o.version > 3 {
        m.u32(0);
        m.u32(0);
        m.u32(o.size_mat_extra);
    }
    // sub-objects
    let offset_objs = m.b.len() as u32;
    m.name("body", 8);
    m.u8(0);
    m.i32(-1);
    m.f32(0.0);
    m.f32(4.0);
    m.vec3(1.0, 0.0, 0.0);
    m.vec3(0.0, 1.0, 0.0);
    m.vec3(0.0, 0.0, 1.0);
    m.vec3(0.5, 0.0, 0.0);
    m.i16(-1);
    m.i16(-1);
    m.i16(0);
    m.i16(0);
    m.u16(0);
    m.u16(3);
    for _ in 0..12 {
        m.u8(0);
    }
    // materials
    let offset_mats = m.b.len() as u32;
    m.name("tex.pcx", 16);
    m.u8(0);
    m.u8(0);
    m.u32(7);
    m.f32(1.0);
    m.name("red", 16);
    m.u8(o.material_type);
    m.u8(1);
    m.u8(255);
    m.u8(0);
    m.u8(0);
    m.u8(128);
    m.u32(12);
    // extended materials
    let offset_mat_extra = m.b.len() as u32;
    m.f32(0.25);
    m.f32(0.5);
    m.f32(0.75);
    m.f32(1.0);
    // uvs
    let offset_uvs = m.b.len() as u32;
    for i in 0..4 {
        m.f32(i as f32 * 0.25);
        m.f32(1.0 - i as f32 * 0.25);
    }
    // vhots
    let offset_vhots = m.b.len() as u32;
    for (i, tag) in o.vhot_tags.iter().enumerate() {
        m.u32(*tag);
        m.vec3(i as f32, 0.0, 0.0);
    }
    // vertices
    let offset_verts = m.b.len() as u32;
    m.vec3(0.0, 0.0, 0.0);
    m.vec3(1.0, 0.0, 0.0);
    m.vec3(1.0, 1.0, 0.0);
    m.vec3(0.0, 1.0, 0.0);
    // polygons
    let offset_polygons = m.b.len() as u32;
    m.u16(0);
    m.u16(0);
    m.u8(3);
    m.u8(4);
    m.u16(0);
    m.f32(0.0);
    for i in 0..4 {
        m.u16(i);
    }
    for _ in 0..4 {
        m.u16(0);
    }
    for i in 0..4 {
        m.u16(i);
    }
    if o.version == 4 {
        m.u8(0xee);
    }
    m.u16(1);
    m.u16(1);
    m.u8(1);
    m.u8(3);
    m.u16(0);
    m.f32(0.0);
    for i in 0..3 {
        m.u16(i);
    }
    for _ in 0..3 {
        m.u16(0);
    }
    if o.version == 4 {
        m.u8(0xee);
    }
    let offsets = [
        offset_objs,
        offset_mats,
        offset_uvs,
        offset_vhots,
        offset_verts,
        0,
        0,
        offset_polygons,
        0,
        m.b.len() as u32,
    ];
    for (i, off) in offsets.iter().enumerate() {
        m.set_u32(offsets_at + 4 * i, *off);
    }
    if o.version > 3 {
        m.set_u32(extra_at + 4, offset_mat_extra);
    }
    m.b
}

fn decode(o: &Options) -> Result<SystemShock2ObjectMesh, DecodeError> {
    read(&model_bytes(o), START, o.version)
}

#[test]
fn header_fields_are_read() {
    let bytes = model_bytes(&default_options(3));
    let h = read_header(&bytes, START, 3).unwrap();
    assert_eq!(h.obj_name, b"cube".to_vec());
    assert_eq!(h.num_polygons, 2);
    assert_eq!(h.num_verts, 4);
    assert_eq!(h.num_mats, 2);
    assert_eq!(h.num_vhots, 3);
    assert_eq!(h.num_objs, 1);
    assert_eq!(h.size_mat_extra, 0);
    assert_eq!(h.offset_mat_extra, 0);
    assert_eq!(h.offset_objs, (START + 102) as u32);
}

#[test]
fn bounding_box_is_normalized_per_axis() {
    let mesh = decode(&default_options(3)).unwrap();
    assert_eq!(mesh.bounding_box.min, v3(-1.0, -2.0, -3.0));
    assert_eq!(mesh.bounding_box.max, v3(1.0, 2.0, 3.0));
    for (lo, hi) in [
        (mesh.bounding_box.min.x, mesh.bounding_box.max.x),
        (mesh.bounding_box.min.y, mesh.bounding_box.max.y),
        (mesh.bounding_box.min.z, mesh.bounding_box.max.z),
    ] {
        assert!(f32::from_bits(lo) <= f32::from_bits(hi));
    }
}

#[test]
fn vhots_come_out_sorted_by_tag_and_stable() {
    let mesh = decode(&default_options(3)).unwrap();
    let kinds: Vec<VhotType> = mesh.vhots.iter().map(|v| v.vhot_type).collect();
    assert_eq!(kinds, vec![VhotType::LightSource, VhotType::Particle1, VhotType::Particle1]);
    // the two tag-3 points keep their file order (x = 0, then x = 2)
    assert_eq!(mesh.vhots[0].point, v3(1.0, 0.0, 0.0));
    assert_eq!(mesh.vhots[1].point, v3(0.0, 0.0, 0.0));
    assert_eq!(mesh.vhots[2].point, v3(2.0, 0.0, 0.0));
}

#[test]
fn vertices_uvs_and_sub_objects_are_read() {
    let mesh = decode(&default_options(3)).unwrap();
    assert_eq!(mesh.vertices.len(), 4);
    assert_eq!(mesh.vertices[2], v3(1.0, 1.0, 0.0));
    // four UV pairs: the gap up to the attachment points, in 8-byte steps
    assert_eq!(mesh.uvs.len(), 4);
    assert_eq!(mesh.uvs[1], Vec2Bits { u: 0.25f32.to_bits(), v: 0.75f32.to_bits() });
    assert_eq!(mesh.sub_objects.len(), 1);
    let o = &mesh.sub_objects[0];
    assert_eq!(o.name, b"body".to_vec());
    assert_eq!(o.parent_idx, -1);
    assert_eq!(o.point_start, 0);
    assert_eq!(o.point_stop, 3);
    assert_eq!(o.child_sub_obj_idx, -1);
    assert_eq!(o.transform.translation, v3(0.5, 0.0, 0.0));
    assert_eq!(o.transform.rotation.r1, v3(0.0, 1.0, 0.0));
}

#[test]
fn polygons_read_uv_indices_only_when_flagged() {
    for version in [3, 4] {
        let mesh = decode(&default_options(version)).unwrap();
        assert_eq!(mesh.polygons.len(), 2);
        assert_eq!(mesh.polygons[0].vertex_indices, vec![0, 1, 2, 3]);
        assert_eq!(mesh.polygons[0].uv_indices, vec![0, 1, 2, 3]);
        assert_eq!(mesh.polygons[0].slot_index, 0);
        assert_eq!(mesh.polygons[1].vertex_indices, vec![0, 1, 2]);
        assert!(mesh.polygons[1].uv_indices.is_empty());
        assert_eq!(mesh.polygons[1].slot_index, 1);
    }
}

#[test]
fn materials_of_both_kinds_are_read() {
    let mesh = decode(&default_options(3)).unwrap();
    assert_eq!(mesh.materials.len(), 2);
    assert_eq!(mesh.materials[0].name, b"tex.pcx".to_vec());
    assert_eq!(mesh.materials[0].slot_num, 0);
    assert_eq!(
        mesh.materials[0].kind,
        MaterialKind::TextureMapped { handle: 7, uv_scale: 1.0f32.to_bits() }
    );
    assert_eq!(mesh.materials[1].slot_num, 1);
    assert_eq!(
        mesh.materials[1].kind,
        MaterialKind::ColorFill { red: 255, green: 0, blue: 0, alpha: 128, palette_index: 12 }
    );
}

#[test]
fn old_versions_have_no_extended_materials() {
    let mesh = decode(&default_options(3)).unwrap();
    for m in &mesh.materials {
        assert_eq!(m.transparency, 0);
        assert_eq!(m.emissivity, 0);
    }
}

#[test]
fn version_four_reads_extended_materials() {
    let mesh = decode(&default_options(4)).unwrap();
    assert_eq!(mesh.version, 4);
    assert_eq!(mesh.materials[0].transparency, 0.25f32.to_bits());
    assert_eq!(mesh.materials[0].emissivity, 0.5f32.to_bits());
    assert_eq!(mesh.materials[1].transparency, 0.75f32.to_bits());
    assert_eq!(mesh.materials[1].emissivity, 1.0f32.to_bits());
}

#[test]
fn small_extended_material_size_is_a_malformed_header() {
    let mut o = default_options(5);
    o.size_mat_extra = 4;
    assert_eq!(decode(&o).err(), Some(DecodeError::MalformedHeader));
    let bytes = model_bytes(&o);
    assert_eq!(read_header(&bytes, START, 5).err(), Some(DecodeError::MalformedHeader));
}

#[test]
fn unknown_material_type_is_reported() {
    let mut o = default_options(3);
    o.material_type = 2;
    assert_eq!(decode(&o).err(), Some(DecodeError::UnknownMaterialType(2)));
}

#[test]
fn unknown_attachment_type_is_reported() {
    let mut o = default_options(3);
    o.vhot_tags = [1, 9, 12];
    assert_eq!(decode(&o).err(), Some(DecodeError::UnknownAttachmentType(9)));
}

#[test]
fn truncated_streams_are_reported() {
    let bytes = model_bytes(&default_options(3));
    assert_eq!(read_header(&bytes[..START + 50], START, 3).err(), Some(DecodeError::TruncatedStream));
    let cut = &bytes[..bytes.len() - 3];
    assert_eq!(read(cut, START, 3).err(), Some(DecodeError::TruncatedStream));
    assert_eq!(read(&[], 0, 3).err(), Some(DecodeError::TruncatedStream));
}

#[test]
fn vhot_type_tags_round_trip() {
    for tag in 0..=8u32 {
        let kind = VhotType::from_u32(tag).unwrap();
        assert_eq!(kind.tag(), tag);
    }
    assert_eq!(VhotType::from_u32(9), None);
}

#[test]
fn attachment_points_before_uvs_are_a_malformed_header() {
    let mut bytes = model_bytes(&default_options(3));
    let at = START + 74;
    let offset_vhots = u32::from_le_bytes([bytes[at], bytes[at + 1], bytes[at + 2], bytes[at + 3]]);
    let uvs_at = START + 70;
    bytes[uvs_at..uvs_at + 4].copy_from_slice(&(offset_vhots + 8).to_le_bytes());
    assert_eq!(read(&bytes, START, 3).err(), Some(DecodeError::MalformedHeader));
}
