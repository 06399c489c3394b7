use dark_model::bytes::{Vec2Bits, Vec3Bits};
use dark_model::geometry::{get_transform_for_point, indices_in_range, to_vertices, VertexCorner};
use dark_model::model::{
    BoundingBox, Mat3Bits, ObjBinHeader, SubObjectHeader, SystemShock2ObjectMesh,
    SystemShock2ObjectPolygon, TransformBits,
};

fn v3(x: f32, y: f32, z: f32) -> Vec3Bits {
    Vec3Bits { x: x.to_bits(), y: y.to_bits(), z: z.to_bits() }
}

fn uv(u: f32, v: f32) -> Vec2Bits {
    Vec2Bits { u: u.to_bits(), v: v.to_bits() }
}

fn transform(dx: f32) -> TransformBits {
    TransformBits {
        rotation: Mat3Bits { r0: v3(1.0, 0.0, 0.0), r1: v3(0.0, 1.0, 0.0), r2: v3(0.0, 0.0, 1.0) },
        translation: v3(dx, 0.0, 0.0),
    }
}

fn sub_object(start: u16, stop: u32, dx: f32) -> SubObjectHeader {
    SubObjectHeader {
        name: b"part".to_vec(),
        parent_idx: -1,
        min_range: 0,
        max_range: 0,
        transform: transform(dx),
        child_sub_obj_idx: -1,
        next_sub_obj_idx: -1,
        point_start: start,
        point_stop: stop,
    }
}

fn polygon(slot: u16, verts: Vec<u16>, uvs: Vec<u16>) -> SystemShock2ObjectPolygon {
    SystemShock2ObjectPolygon { vertex_indices: verts, uv_indices: uvs, slot_index: slot }
}

fn mesh(polygons: Vec<SystemShock2ObjectPolygon>, sub_objects: Vec<SubObjectHeader>) -> SystemShock2ObjectMesh {
    let header = ObjBinHeader {
        bbox_min: v3(0.0, 0.0, 0.0),
        bbox_max: v3(1.0, 1.0, 0.0),
        obj_name: b"test".to_vec(),
        num_mats: 0,
        num_objs: sub_objects.len() as u8,
        num_polygons: polygons.len() as u16,
        num_verts: 6,
        num_vhots: 0,
        offset_mats: 0,
        offset_mat_extra: 0,
        offset_objs: 0,
        mat_flags: 0,
        size_mat_extra: 0,
        offset_polygons: 0,
        offset_verts: 0,
        offset_vhots: 0,
        offset_uvs: 0,
    };
    SystemShock2ObjectMesh {
        header,
        version: 3,
        bounding_box: BoundingBox { min: v3(0.0, 0.0, 0.0), max: v3(1.0, 1.0, 0.0) },
        materials: Vec::new(),
        uvs: (0..6).map(|i| uv(i as f32 / 8.0, 1.0)).collect(),
        vertices: (0..6).map(|i| v3(i as f32, 0.0, 0.0)).collect(),
        vhots: Vec::new(),
        polygons,
        sub_objects,
    }
}

fn corner(m: &SystemShock2ObjectMesh, vertex: usize, uv_index: usize) -> VertexCorner {
    VertexCorner {
        position: m.vertices[vertex],
        uv: m.uvs[uv_index],
        transform: get_transform_for_point(m, vertex as u16),
    }
}

#[test]
fn pentagon_becomes_three_fan_triangles() {
    let m = mesh(
        vec![polygon(4, vec![0, 1, 2, 3, 4], vec![5, 4, 3, 2, 1])],
        vec![sub_object(0, 6, 2.0)],
    );
    assert!(indices_in_range(&m));
    let groups = to_vertices(&m);
    assert_eq!(groups.len(), 1);
    assert_eq!(groups[0].slot, 4);
    let v = &groups[0].vertices;
    assert_eq!(v.len(), 9);
    let expected = vec![
        corner(&m, 1, 4),
        corner(&m, 2, 3),
        corner(&m, 0, 5),
        corner(&m, 2, 3),
        corner(&m, 3, 2),
        corner(&m, 0, 5),
        corner(&m, 3, 2),
        corner(&m, 4, 1),
        corner(&m, 0, 5),
    ];
    assert_eq!(*v, expected);
    // every triangle ends at the polygon's vertex 0
    for t in 0..3 {
        assert_eq!(v[3 * t + 2].position, m.vertices[0]);
    }
}

#[test]
fn untextured_and_degenerate_polygons_are_skipped() {
    let m = mesh(
        vec![
            polygon(1, vec![0, 1, 2], vec![]),
            polygon(2, vec![0, 1], vec![0, 1]),
            polygon(3, vec![0, 1, 2], vec![0]),
        ],
        vec![],
    );
    assert!(indices_in_range(&m));
    assert!(to_vertices(&m).is_empty());
}

#[test]
fn triangles_are_grouped_by_slot_in_first_use_order() {
    let m = mesh(
        vec![
            polygon(7, vec![0, 1, 2], vec![0, 1, 2]),
            polygon(3, vec![1, 2, 3], vec![1, 2, 3]),
            polygon(7, vec![2, 3, 4], vec![2, 3, 4]),
            polygon(9, vec![0, 1], vec![0, 1]),
        ],
        vec![],
    );
    let groups = to_vertices(&m);
    let slots: Vec<u16> = groups.iter().map(|g| g.slot).collect();
    assert_eq!(slots, vec![7, 3]);
    assert_eq!(groups[0].vertices.len(), 6);
    assert_eq!(groups[1].vertices.len(), 3);
    assert_eq!(groups[0].vertices[3], corner(&m, 3, 3));
}

#[test]
fn each_vertex_takes_its_owner_transform() {
    let m = mesh(vec![], vec![sub_object(0, 2, 1.0), sub_object(2, 4, 2.0)]);
    assert_eq!(get_transform_for_point(&m, 0), Some(transform(1.0)));
    assert_eq!(get_transform_for_point(&m, 1), Some(transform(1.0)));
    assert_eq!(get_transform_for_point(&m, 2), Some(transform(2.0)));
    assert_eq!(get_transform_for_point(&m, 3), Some(transform(2.0)));
    // a gap in the ranges leaves the identity
    assert_eq!(get_transform_for_point(&m, 4), None);
}

#[test]
fn overlapping_ranges_take_the_first_owner() {
    let m = mesh(vec![], vec![sub_object(0, 4, 1.0), sub_object(2, 6, 2.0)]);
    assert_eq!(get_transform_for_point(&m, 3), Some(transform(1.0)));
    assert_eq!(get_transform_for_point(&m, 5), Some(transform(2.0)));
}

#[test]
fn out_of_range_indices_are_detected() {
    let m = mesh(vec![polygon(0, vec![0, 1, 9], vec![0, 1, 2])], vec![]);
    assert!(!indices_in_range(&m));
    let m = mesh(vec![polygon(0, vec![0, 1, 2], vec![0, 1, 6])], vec![]);
    assert!(!indices_in_range(&m));
    let m = mesh(vec![polygon(0, vec![0, 1, 2], vec![0, 1])], vec![]);
    assert!(!indices_in_range(&m));
}

#[test]
fn each_corner_takes_the_transform_of_its_own_vertex() {
    let m = mesh(
        vec![polygon(0, vec![0, 1, 2], vec![0, 1, 2])],
        vec![sub_object(0, 1, 1.0), sub_object(1, 3, 2.0)],
    );
    let groups = to_vertices(&m);
    let v = &groups[0].vertices;
    assert_eq!(v.len(), 3);
    assert_eq!(v[0].transform, Some(transform(2.0)));
    assert_eq!(v[1].transform, Some(transform(2.0)));
    assert_eq!(v[2].position, m.vertices[0]);
    assert_eq!(v[2].transform, Some(transform(1.0)));
}
