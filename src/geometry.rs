//! Assembly of a decoded model into triangle lists grouped by material slot.
use vstd::prelude::*;
use crate::bytes::{Vec2Bits, Vec3Bits};
use crate::model::{SubObjectHeader, SystemShock2ObjectMesh, SystemShock2ObjectPolygon, TransformBits};

verus! {

/// Sub-object `o` owns vertex `idx`.
pub open spec fn owns(o: SubObjectHeader, idx: u16) -> bool {
    o.point_start <= idx && idx < o.point_stop
}

/// The transform of the first sub-object whose range holds `idx`; `None` stands
/// for the identity, where no range holds it.
pub open spec fn transform_for_point(objs: Seq<SubObjectHeader>, idx: u16) -> Option<TransformBits>
    decreases objs.len(),
{
    if objs.len() == 0 {
        None
    } else if owns(objs[0], idx) {
        Some(objs[0].transform)
    } else {
        transform_for_point(objs.drop_first(), idx)
    }
}

/// The transform that applies to vertex `idx` (`None`: the identity).
pub fn get_transform_for_point(mesh: &SystemShock2ObjectMesh, idx: u16) -> (r: Option<TransformBits>)
    ensures
        r == transform_for_point(mesh.sub_objects@, idx),
{
    let objs = &mesh.sub_objects;
    let mut i: usize = 0;
    assert(objs@.skip(0) =~= objs@);
    while i < objs.len()
        invariant
            i <= objs@.len(),
            objs@ == mesh.sub_objects@,
            transform_for_point(objs@, idx) == transform_for_point(objs@.skip(i as int), idx),
        decreases objs@.len() - i,
    {
        let o = &objs[i];
        assert(objs@.skip(i as int)[0] == objs@[i as int]);
        if o.point_start <= idx && (idx as u32) < o.point_stop {
            assert(owns(objs@.skip(i as int)[0], idx));
            assert(transform_for_point(objs@.skip(i as int), idx) == Some(o.transform));
            return Some(o.transform);
        }
        assert(objs@.skip(i as int).drop_first() =~= objs@.skip(i as int + 1));
        i = i + 1;
    }
    None
}

/// Where sub-object `k` holds `idx` and no earlier one does, its transform is the
/// one that applies; where none holds it, the identity applies.
pub proof fn lemma_first_owner(objs: Seq<SubObjectHeader>, idx: u16, k: int)
    requires
        0 <= k < objs.len(),
        owns(objs[k], idx),
        forall|j: int| 0 <= j < k ==> !owns(#[trigger] objs[j], idx),
    ensures
        transform_for_point(objs, idx) == Some(objs[k].transform),
    decreases k,
{
    if k > 0 {
        assert(!owns(objs[0], idx));
        let rest = objs.drop_first();
        assert forall|j: int| 0 <= j < k - 1 implies !owns(#[trigger] rest[j], idx) by {
            assert(rest[j] == objs[j + 1]);
        }
        lemma_first_owner(rest, idx, k - 1);
    }
}

/// With no range holding `idx`, the identity applies.
pub proof fn lemma_no_owner(objs: Seq<SubObjectHeader>, idx: u16)
    requires
        forall|j: int| 0 <= j < objs.len() ==> !owns(#[trigger] objs[j], idx),
    ensures
        transform_for_point(objs, idx) is None,
    decreases objs.len(),
{
    if objs.len() > 0 {
        assert(!owns(objs[0], idx));
        let rest = objs.drop_first();
        assert forall|j: int| 0 <= j < rest.len() implies !owns(#[trigger] rest[j], idx) by {
            assert(rest[j] == objs[j + 1]);
        }
        lemma_no_owner(rest, idx);
    }
}

/// The sub-objects' vertex ranges do not overlap.
pub open spec fn ranges_disjoint(objs: Seq<SubObjectHeader>) -> bool {
    forall|i: int, j: int|
        0 <= i < objs.len() && 0 <= j < objs.len() && i != j ==> {
            let (a, c) = (#[trigger] objs[i], #[trigger] objs[j]);
            a.point_stop <= a.point_start || c.point_stop <= c.point_start || a.point_stop
                <= c.point_start || c.point_stop <= a.point_start
        }
}

/// With ranges that do not overlap, each vertex maps to the transform of the one
/// sub-object that owns it, and to the identity where a gap leaves it unowned.
pub proof fn lemma_point_maps_to_its_owner(objs: Seq<SubObjectHeader>, idx: u16)
    requires
        ranges_disjoint(objs),
    ensures
        forall|k: int|
            0 <= k < objs.len() && owns(#[trigger] objs[k], idx) ==> transform_for_point(objs, idx)
                == Some(objs[k].transform),
        (forall|k: int| 0 <= k < objs.len() ==> !owns(#[trigger] objs[k], idx))
            ==> transform_for_point(objs, idx) is None,
{
    assert forall|k: int| 0 <= k < objs.len() && owns(#[trigger] objs[k], idx) implies transform_for_point(
        objs,
        idx,
    ) == Some(objs[k].transform) by {
        assert forall|j: int| 0 <= j < k implies !owns(#[trigger] objs[j], idx) by {
            assert(owns(objs[k], idx));
            let (a, c) = (objs[j], objs[k]);
            assert(a.point_stop <= a.point_start || c.point_stop <= c.point_start || a.point_stop
                <= c.point_start || c.point_stop <= a.point_start);
        }
        lemma_first_owner(objs, idx, k);
    }
    if forall|k: int| 0 <= k < objs.len() ==> !owns(#[trigger] objs[k], idx) {
        lemma_no_owner(objs, idx);
    }
}

/// One corner of an output triangle: the vertex position and texture
/// coordinate, and the transform of the sub-object that places it (`None`: the
/// identity).
#[derive(Clone, Copy, Debug, PartialEq, Eq, Structural)]
pub struct VertexCorner {
    pub position: Vec3Bits,
    pub uv: Vec2Bits,
    pub transform: Option<TransformBits>,
}

/// The output corner built from polygon corner `c`: its vertex, its texture
/// coordinate, and the transform of the sub-object that owns its vertex.
pub open spec fn fan_corner(mesh: SystemShock2ObjectMesh, poly: SystemShock2ObjectPolygon, c: int) -> VertexCorner {
    VertexCorner {
        position: mesh.vertices@[poly.vertex_indices@[c] as int],
        uv: mesh.uvs@[poly.uv_indices@[c] as int],
        transform: transform_for_point(mesh.sub_objects@, poly.vertex_indices@[c]),
    }
}

/// Fan triangle `t`: polygon vertices `t`, `t + 1` and `0`.
pub open spec fn fan_triangle(mesh: SystemShock2ObjectMesh, poly: SystemShock2ObjectPolygon, t: int) -> Seq<VertexCorner> {
    seq![fan_corner(mesh, poly, t), fan_corner(mesh, poly, t + 1), fan_corner(mesh, poly, 0)]
}

/// Fan triangles `1 .. k`, three corners each.
pub open spec fn fan_upto(mesh: SystemShock2ObjectMesh, poly: SystemShock2ObjectPolygon, k: int) -> Seq<VertexCorner>
    decreases k,
{
    if k <= 1 {
        Seq::empty()
    } else {
        fan_upto(mesh, poly, k - 1) + fan_triangle(mesh, poly, k - 1)
    }
}

/// The polygon takes part in the output: at least 2 vertex and 2 UV indices.
pub open spec fn is_textured(poly: SystemShock2ObjectPolygon) -> bool {
    poly.vertex_indices@.len() > 1 && poly.uv_indices@.len() > 1
}

/// The corners that the polygon contributes, as a triangle list.
pub open spec fn polygon_fan(mesh: SystemShock2ObjectMesh, poly: SystemShock2ObjectPolygon) -> Seq<VertexCorner> {
    if is_textured(poly) {
        fan_upto(mesh, poly, poly.vertex_indices@.len() - 1)
    } else {
        Seq::empty()
    }
}

/// The corners that the polygons of `polys` with material slot `slot`
/// contribute, in polygon order.
pub open spec fn slot_fan(mesh: SystemShock2ObjectMesh, polys: Seq<SystemShock2ObjectPolygon>, slot: u16) -> Seq<VertexCorner>
    decreases polys.len(),
{
    if polys.len() == 0 {
        Seq::empty()
    } else {
        slot_fan(mesh, polys.drop_last(), slot) + if polys.last().slot_index == slot {
            polygon_fan(mesh, polys.last())
        } else {
            Seq::empty()
        }
    }
}

/// Every index that triangulating `poly` looks up exists.
pub open spec fn polygon_indices_valid(mesh: SystemShock2ObjectMesh, poly: SystemShock2ObjectPolygon) -> bool {
    is_textured(poly) ==> {
        &&& poly.uv_indices@.len() >= poly.vertex_indices@.len()
        &&& forall|i: int|
            0 <= i < poly.vertex_indices@.len() ==> (#[trigger] poly.vertex_indices@[i] as int)
                < mesh.vertices@.len() && (poly.uv_indices@[i] as int) < mesh.uvs@.len()
    }
}

/// Every index that triangulating the model looks up exists.
pub open spec fn mesh_indices_valid(mesh: SystemShock2ObjectMesh) -> bool {
    forall|i: int|
        0 <= i < mesh.polygons@.len() ==> polygon_indices_valid(mesh, #[trigger] mesh.polygons@[i])
}

/// Whether every index that triangulating the model looks up exists.
pub fn indices_in_range(mesh: &SystemShock2ObjectMesh) -> (r: bool)
    ensures
        r == mesh_indices_valid(*mesh),
{
    let mut i: usize = 0;
    while i < mesh.polygons.len()
        invariant
            i <= mesh.polygons@.len(),
            forall|k: int|
                0 <= k < i ==> polygon_indices_valid(*mesh, #[trigger] mesh.polygons@[k]),
        decreases mesh.polygons@.len() - i,
    {
        let poly = &mesh.polygons[i];
        let n = poly.vertex_indices.len();
        if n > 1 && poly.uv_indices.len() > 1 {
            if poly.uv_indices.len() < n {
                assert(!polygon_indices_valid(*mesh, mesh.polygons@[i as int]));
                return false;
            }
            let mut j: usize = 0;
            while j < n
                invariant
                    j <= n,
                    i < mesh.polygons@.len(),
                    *poly == mesh.polygons@[i as int],
                    is_textured(*poly),
                    n == poly.vertex_indices@.len(),
                    n <= poly.uv_indices@.len(),
                    forall|k: int|
                        0 <= k < j ==> (#[trigger] poly.vertex_indices@[k] as int)
                            < mesh.vertices@.len() && (poly.uv_indices@[k] as int)
                            < mesh.uvs@.len(),
                decreases n - j,
            {
                if poly.vertex_indices[j] as usize >= mesh.vertices.len() || poly.uv_indices[j] as usize
                    >= mesh.uvs.len() {
                    assert(!((poly.vertex_indices@[j as int] as int) < mesh.vertices@.len() && (
                    poly.uv_indices@[j as int] as int) < mesh.uvs@.len()));
                    assert(!polygon_indices_valid(*mesh, mesh.polygons@[i as int]));
                    return false;
                }
                j = j + 1;
            }
        }
        i = i + 1;
    }
    true
}

/// A polygon with `n >= 2` vertex and UV indices becomes exactly `n - 2`
/// triangles; triangle `t` (from 0) is built from polygon corners `t + 1`,
/// `t + 2` and `0`, so that each of them reuses vertex 0.
pub proof fn lemma_fan_shape(mesh: SystemShock2ObjectMesh, poly: SystemShock2ObjectPolygon)
    requires
        is_textured(poly),
    ensures
        polygon_fan(mesh, poly).len() == 3 * (poly.vertex_indices@.len() - 2),
        forall|t: int|
            0 <= t < poly.vertex_indices@.len() - 2 ==> {
                &&& #[trigger] polygon_fan(mesh, poly)[3 * t] == fan_corner(mesh, poly, t + 1)
                &&& polygon_fan(mesh, poly)[3 * t + 1] == fan_corner(mesh, poly, t + 2)
                &&& polygon_fan(mesh, poly)[3 * t + 2] == fan_corner(mesh, poly, 0)
            },
{
    lemma_fan_upto_shape(mesh, poly, poly.vertex_indices@.len() - 1);
}

proof fn lemma_fan_upto_shape(mesh: SystemShock2ObjectMesh, poly: SystemShock2ObjectPolygon, k: int)
    requires
        k >= 1,
    ensures
        fan_upto(mesh, poly, k).len() == 3 * (k - 1),
        forall|t: int|
            0 <= t < k - 1 ==> {
                &&& #[trigger] fan_upto(mesh, poly, k)[3 * t] == fan_corner(mesh, poly, t + 1)
                &&& fan_upto(mesh, poly, k)[3 * t + 1] == fan_corner(mesh, poly, t + 2)
                &&& fan_upto(mesh, poly, k)[3 * t + 2] == fan_corner(mesh, poly, 0)
            },
    decreases k,
{
    if k > 1 {
        lemma_fan_upto_shape(mesh, poly, k - 1);
        let prev = fan_upto(mesh, poly, k - 1);
        let cur = fan_upto(mesh, poly, k);
        assert forall|t: int| 0 <= t < k - 1 implies {
            &&& #[trigger] cur[3 * t] == fan_corner(mesh, poly, t + 1)
            &&& cur[3 * t + 1] == fan_corner(mesh, poly, t + 2)
            &&& cur[3 * t + 2] == fan_corner(mesh, poly, 0)
        } by {
            if t < k - 2 {
                assert(cur[3 * t] == prev[3 * t]);
                assert(cur[3 * t + 1] == prev[3 * t + 1]);
                assert(cur[3 * t + 2] == prev[3 * t + 2]);
            }
        }
    }
}

/// Triangulates one polygon.
fn triangulate(mesh: &SystemShock2ObjectMesh, poly: &SystemShock2ObjectPolygon) -> (r: Vec<VertexCorner>)
    requires
        polygon_indices_valid(*mesh, *poly),
    ensures
        r@ == polygon_fan(*mesh, *poly),
{
    let mut out: Vec<VertexCorner> = Vec::new();
    let n = poly.vertex_indices.len();
    if n > 1 && poly.uv_indices.len() > 1 {
        let mut t: usize = 1;
        while t < n - 1
            invariant
                1 <= t <= n - 1,
                n == poly.vertex_indices@.len(),
                is_textured(*poly),
                polygon_indices_valid(*mesh, *poly),
                out@ == fan_upto(*mesh, *poly, t as int),
            decreases n - 1 - t,
        {
            let corners: [usize; 3] = [t, t + 1, 0];
            let mut c: usize = 0;
            let ghost before = out@;
            while c < 3
                invariant
                    c <= 3,
                    1 <= t < n - 1,
                    n == poly.vertex_indices@.len(),
                    polygon_indices_valid(*mesh, *poly),
                    is_textured(*poly),
                    corners@ == seq![t, (t + 1) as usize, 0usize],
                    out@ == before + fan_triangle(*mesh, *poly, t as int).take(c as int),
                decreases 3 - c,
            {
                let k = corners[c];
                let vi = poly.vertex_indices[k] as usize;
                let ui = poly.uv_indices[k] as usize;
                let transform = get_transform_for_point(mesh, poly.vertex_indices[k]);
                out.push(VertexCorner { position: mesh.vertices[vi], uv: mesh.uvs[ui], transform });
                c = c + 1;
                assert(out@ =~= before + fan_triangle(*mesh, *poly, t as int).take(c as int));
            }
            assert(fan_triangle(*mesh, *poly, t as int).take(3) =~= fan_triangle(*mesh, *poly, t as int));
            t = t + 1;
        }
    } else {
        assert(out@ =~= polygon_fan(*mesh, *poly));
    }
    out
}

/// The triangle list of one material slot.
#[derive(Clone, Debug)]
pub struct SlotVertices {
    pub slot: u16,
    pub vertices: Vec<VertexCorner>,
}

proof fn lemma_slot_fan_step(
    mesh: SystemShock2ObjectMesh,
    polys: Seq<SystemShock2ObjectPolygon>,
    i: int,
    slot: u16,
)
    requires
        0 <= i < polys.len(),
    ensures
        slot_fan(mesh, polys.take(i + 1), slot) == slot_fan(mesh, polys.take(i), slot) + if polys[i].slot_index
            == slot {
            polygon_fan(mesh, polys[i])
        } else {
            Seq::empty()
        },
{
    assert(polys.take(i + 1).drop_last() =~= polys.take(i));
}

/// A polygon with at least 3 vertex and 2 UV indices contributes corners.
proof fn lemma_fan_nonempty(mesh: SystemShock2ObjectMesh, poly: SystemShock2ObjectPolygon)
    ensures
        polygon_fan(mesh, poly).len() > 0 <==> is_textured(poly) && poly.vertex_indices@.len() > 2,
{
    if is_textured(poly) {
        lemma_fan_shape(mesh, poly);
    }
}

/// Triangulates every polygon of the model and groups the corners by material
/// slot: one group for each slot that receives at least one triangle, holding
/// its polygons' triangles in polygon order.
pub fn to_vertices(mesh: &SystemShock2ObjectMesh) -> (r: Vec<SlotVertices>)
    requires
        mesh_indices_valid(*mesh),
    ensures
        forall|g: int|
            0 <= g < r@.len() ==> (#[trigger] r@[g]).vertices@ == slot_fan(
                *mesh,
                mesh.polygons@,
                r@[g].slot,
            ) && r@[g].vertices@.len() > 0,
        forall|g: int, h: int| 0 <= g < h < r@.len() ==> (#[trigger] r@[g]).slot != (#[trigger] r@[h]).slot,
        forall|slot: u16|
            #![trigger slot_fan(*mesh, mesh.polygons@, slot)]
            slot_fan(*mesh, mesh.polygons@, slot).len() > 0 ==> exists|g: int|
                0 <= g < r@.len() && (#[trigger] r@[g]).slot == slot,
{
    let polys = &mesh.polygons;
    let n = polys.len();
    // The slots that receive triangles, in order of their first one.
    let mut slots: Vec<u16> = Vec::new();
    let mut i: usize = 0;
    assert(forall|slot: u16| slot_fan(*mesh, polys@.take(0), slot) =~= Seq::empty());
    while i < n
        invariant
            i <= n,
            n == polys@.len(),
            polys@ == mesh.polygons@,
            forall|slot: u16|
                #![trigger slot_fan(*mesh, polys@.take(i as int), slot)]
                slot_fan(*mesh, polys@.take(i as int), slot).len() > 0 <==> slots@.contains(slot),
            forall|g: int, h: int| 0 <= g < h < slots@.len() ==> slots@[g] != slots@[h],
        decreases n - i,
    {
        let poly = &polys[i];
        let slot = poly.slot_index;
        proof {
            lemma_fan_nonempty(*mesh, *poly);
            assert forall|s: u16| true implies slot_fan(*mesh, polys@.take(i + 1), s) == slot_fan(*mesh, polys@.take(i as int), s) + if polys@[i as int].slot_index == s {
                polygon_fan(*mesh, polys@[i as int])
            } else {
                Seq::empty()
            } by {
                lemma_slot_fan_step(*mesh, polys@, i as int, s);
            }
        }
        let ghost old_slots = slots@;
        let contributes = poly.vertex_indices.len() > 2 && poly.uv_indices.len() > 1;
        if contributes {
            let mut found = false;
            let mut k: usize = 0;
            while k < slots.len()
                invariant
                    k <= slots@.len(),
                    found <==> exists|j: int| 0 <= j < k && slots@[j] == slot,
                decreases slots@.len() - k,
            {
                if slots[k] == slot {
                    found = true;
                }
                k = k + 1;
            }
            if !found {
                slots.push(slot);
                assert(slots@ == old_slots.push(slot));
            } else {
                assert(slots@ == old_slots);
            }
        }
        proof {
            assert forall|s: u16|
                #![trigger slot_fan(*mesh, polys@.take(i + 1), s)]
                slot_fan(*mesh, polys@.take(i + 1), s).len() > 0 <==> slots@.contains(s) by {
                lemma_slot_fan_step(*mesh, polys@, i as int, s);
                if contributes && s == slot {
                    if !old_slots.contains(s) {
                        assert(slots@[slots@.len() - 1] == s);
                    }
                } else if contributes && slots@ != old_slots {
                    assert(slots@ == old_slots.push(slot));
                    if slots@.contains(s) {
                        let j = choose|j: int| 0 <= j < slots@.len() && slots@[j] == s;
                        assert(old_slots[j] == s);
                    }
                    if old_slots.contains(s) {
                        let j = choose|j: int| 0 <= j < old_slots.len() && old_slots[j] == s;
                        assert(slots@[j] == s);
                    }
                }
            }
        }
        i = i + 1;
    }
    assert(polys@.take(n as int) =~= polys@);
    let mut r: Vec<SlotVertices> = Vec::new();
    let mut g: usize = 0;
    while g < slots.len()
        invariant
            g <= slots@.len(),
            n == polys@.len(),
            polys@ == mesh.polygons@,
            mesh_indices_valid(*mesh),
            forall|slot: u16|
                #![trigger slot_fan(*mesh, polys@, slot)]
                slot_fan(*mesh, polys@, slot).len() > 0 <==> slots@.contains(slot),
            forall|a: int, b: int| 0 <= a < b < slots@.len() ==> slots@[a] != slots@[b],
            r@.len() == g,
            forall|a: int|
                0 <= a < g ==> (#[trigger] r@[a]).slot == slots@[a] && r@[a].vertices@
                    == slot_fan(*mesh, mesh.polygons@, r@[a].slot),
        decreases slots@.len() - g,
    {
        let slot = slots[g];
        let mut vertices: Vec<VertexCorner> = Vec::new();
        let mut i: usize = 0;
        assert(slot_fan(*mesh, polys@.take(0), slot) =~= Seq::empty());
        while i < n
            invariant
                i <= n,
                n == polys@.len(),
                polys@ == mesh.polygons@,
                mesh_indices_valid(*mesh),
                vertices@ == slot_fan(*mesh, polys@.take(i as int), slot),
            decreases n - i,
        {
            let poly = &polys[i];
            proof {
                lemma_slot_fan_step(*mesh, polys@, i as int, slot);
            }
            if poly.slot_index == slot {
                let mut fan = triangulate(mesh, poly);
                vertices.append(&mut fan);
            }
            i = i + 1;
        }
        assert(polys@.take(n as int) =~= polys@);
        assert(slots@.contains(slot));
        r.push(SlotVertices { slot, vertices });
        g = g + 1;
    }
    proof {
        assert forall|slot: u16|
            #![trigger slot_fan(*mesh, mesh.polygons@, slot)]
            slot_fan(*mesh, mesh.polygons@, slot).len() > 0 implies exists|g: int|
                0 <= g < r@.len() && (#[trigger] r@[g]).slot == slot by {
            let j = choose|j: int| 0 <= j < slots@.len() && slots@[j] == slot;
            assert(r@[j].slot == slot);
        }
    }
    r
}

} // verus!
