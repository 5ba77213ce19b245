//! Topology snapshots: what is read off native data, entity by entity and bit by bit.

use crate::error::Error;
use crate::error::ErrorView;
use crate::kernel::TopologyData;
use crate::number::Real;
use crate::number::Vec3;
use crate::snapshot::CurveGeometryKind;
use crate::snapshot::EdgeFactsView;
use crate::snapshot::EdgeTopologyFacts;
use crate::snapshot::FaceTopologyFacts;
use crate::snapshot::SnapshotView;
use crate::snapshot::SurfaceGeometryKind;
use crate::snapshot::TopologyOccurrenceToken;
use crate::snapshot::TopologyQueryOptions;
use crate::snapshot::TopologySnapshot;
use crate::snapshot::VertexTopologyFacts;
use vstd::prelude::*;

verus! {

// ==================== Flags and values ====================

/// The bit of the given weight is set.
pub open spec fn is_set(flags: u32, weight: u32) -> bool {
    (flags / weight) % 2 == 1
}

proof fn bits_are_set(flags: u32)
    ensures
        (flags & 1 != 0) == is_set(flags, 1),
        (flags & 2 != 0) == is_set(flags, 2),
        (flags & 4 != 0) == is_set(flags, 4),
        (flags & 8 != 0) == is_set(flags, 8),
        (flags & 16 != 0) == is_set(flags, 16),
        (flags & 32 != 0) == is_set(flags, 32),
        (flags & 64 != 0) == is_set(flags, 64),
{
    assert((flags & 1 != 0) == ((flags / 1) % 2 == 1) && (flags & 2 != 0) == ((flags / 2) % 2 == 1)
        && (flags & 4 != 0) == ((flags / 4) % 2 == 1) && (flags & 8 != 0) == ((flags / 8) % 2 == 1)
        && (flags & 16 != 0) == ((flags / 16) % 2 == 1) && (flags & 32 != 0) == ((flags / 32) % 2
        == 1) && (flags & 64 != 0) == ((flags / 64) % 2 == 1)) by (bit_vector);
}

/// The flags of entity `i`; none where the list ends before it.
pub open spec fn flags_at(flags: Seq<u32>, i: int) -> u32 {
    if i < flags.len() {
        flags[i]
    } else {
        0
    }
}

/// Flat coordinates hold a finite point at place `i`.
pub open spec fn holds_point(values: Seq<Real>, i: int) -> bool {
    &&& 3 * i + 2 < values.len()
    &&& values[3 * i].finite()
    &&& values[3 * i + 1].finite()
    &&& values[3 * i + 2].finite()
}

/// The point is there just if it is announced, and it is the one at place `i`.
pub open spec fn tells_point(
    point: Option<Vec3>,
    announced: bool,
    values: Seq<Real>,
    i: int,
) -> bool {
    match point {
        Some(found) => announced && found.x == values[3 * i] && found.y == values[3 * i + 1]
            && found.z == values[3 * i + 2],
        None => !announced,
    }
}

/// The number is there just if it is announced, and it is the one at place `i`.
pub open spec fn tells_number(
    number: Option<Real>,
    announced: bool,
    values: Seq<Real>,
    i: int,
) -> bool {
    match number {
        Some(found) => announced && found == values[i],
        None => !announced,
    }
}

/// The number of a surface in native data.
pub open spec fn surface_code(kind: SurfaceGeometryKind) -> u32 {
    match kind {
        SurfaceGeometryKind::Plane => 1,
        SurfaceGeometryKind::Cylinder => 2,
        SurfaceGeometryKind::Cone => 3,
        SurfaceGeometryKind::Sphere => 4,
        SurfaceGeometryKind::Torus => 5,
        SurfaceGeometryKind::Bezier => 6,
        SurfaceGeometryKind::BSpline => 7,
        SurfaceGeometryKind::Revolution => 8,
        SurfaceGeometryKind::Extrusion => 9,
        SurfaceGeometryKind::Offset => 10,
        SurfaceGeometryKind::Other => 11,
    }
}

/// The number of a curve in native data.
pub open spec fn curve_code(kind: CurveGeometryKind) -> u32 {
    match kind {
        CurveGeometryKind::Line => 1,
        CurveGeometryKind::Circle => 2,
        CurveGeometryKind::Ellipse => 3,
        CurveGeometryKind::Hyperbola => 4,
        CurveGeometryKind::Parabola => 5,
        CurveGeometryKind::Bezier => 6,
        CurveGeometryKind::BSpline => 7,
        CurveGeometryKind::Offset => 8,
        CurveGeometryKind::Other => 9,
    }
}

/// The surface is that of the native number; zero stands for none.
pub open spec fn tells_surface(geometry: Option<SurfaceGeometryKind>, kinds: Seq<u32>, i: int) -> bool {
    match geometry {
        Some(kind) => i < kinds.len() && kinds[i] == surface_code(kind),
        None => i < kinds.len() ==> kinds[i] == 0,
    }
}

/// The curve is that of the native number; zero stands for none.
pub open spec fn tells_curve(geometry: Option<CurveGeometryKind>, kinds: Seq<u32>, i: int) -> bool {
    match geometry {
        Some(kind) => i < kinds.len() && kinds[i] == curve_code(kind),
        None => i < kinds.len() ==> kinds[i] == 0,
    }
}

/// The numbers of surfaces and curves are read as what they stand for.
pub proof fn geometry_is_read_by_its_number(
    value: u32,
    surface: Result<Option<SurfaceGeometryKind>, Error>,
    curve: Result<Option<CurveGeometryKind>, Error>,
)
    requires
        call_ensures(crate::snapshot::decode_surface_kind, (value,), surface),
        call_ensures(crate::snapshot::decode_curve_kind, (value,), curve),
    ensures
        value <= 11 ==> (surface matches Ok(kind) && tells_surface(kind, seq![value], 0)),
        value > 11 ==> crate::laws::fails(surface, ErrorView::TopologyQueryFailed),
        value <= 9 ==> (curve matches Ok(kind) && tells_curve(kind, seq![value], 0)),
        value > 9 ==> crate::laws::fails(curve, ErrorView::TopologyQueryFailed),
{
}

/// A point is read if the coordinates hold it and it is finite.
pub proof fn points_are_read_in_place(values: &[Real], index: usize, point: Result<Vec3, Error>)
    requires
        call_ensures(crate::snapshot::decode_point, (values, index), point),
    ensures
        holds_point(values@, index as int) ==> (point matches Ok(found) && tells_point(
            Some(found),
            true,
            values@,
            index as int,
        )),
        !holds_point(values@, index as int) ==> crate::laws::fails(
            point,
            ErrorView::TopologyQueryFailed,
        ),
{
}

// ==================== Tokens and adjacency ====================

/// The token is that of entity `i`.
pub open spec fn tells_token(
    token: TopologyOccurrenceToken,
    ids: Seq<u64>,
    locations: Seq<u64>,
    orientations: Seq<u32>,
    i: int,
) -> bool {
    &&& token.tshape_id == ids[i]
    &&& token.location_hash == locations[i]
    &&& token.orientation == orientations[i]
    &&& token.ordinal == i
}

/// Every entity has a location and an orientation, and an ordinal that fits.
pub open spec fn are_entities(ids: Seq<u64>, locations: Seq<u64>, orientations: Seq<u32>) -> bool {
    &&& locations.len() == ids.len()
    &&& orientations.len() == ids.len()
    &&& ids.len() <= 0x1_0000_0000
}

/// Tokens name all entities in their order.
pub proof fn tokens_name_every_entity(
    ids: &[u64],
    locations: &[u64],
    orientations: &[u32],
    tokens: Result<Vec<TopologyOccurrenceToken>, Error>,
    i: int,
)
    requires
        call_ensures(crate::snapshot::decode_tokens, (ids, locations, orientations), tokens),
    ensures
        are_entities(ids@, locations@, orientations@) ==> (tokens matches Ok(list) && list@.len()
            == ids@.len() && (0 <= i < ids@.len() ==> tells_token(
            list@[i],
            ids@,
            locations@,
            orientations@,
            i,
        ))),
        !are_entities(ids@, locations@, orientations@) ==> crate::laws::fails(
            tokens,
            ErrorView::TopologyQueryFailed,
        ),
{
}

/// The offsets cut the indices into one run for each owner, without rest, and every index
/// names a target.
#[verifier::opaque]
pub open spec fn are_runs(
    offsets: Seq<u32>,
    indices: Seq<u32>,
    owners: nat,
    targets: nat,
) -> bool {
    &&& offsets.len() == owners + 1
    &&& offsets[0] == 0
    &&& offsets[owners as int] == indices.len()
    &&& forall|i: int, j: int|
        0 <= i <= j < offsets.len() ==> #[trigger] offsets[i] <= #[trigger] offsets[j]
    &&& forall|i: int| 0 <= i < indices.len() ==> #[trigger] indices[i] < targets
}

/// The list is run `i` of the indices.
#[verifier::opaque]
pub open spec fn tells_run(
    list: Seq<u32>,
    offsets: Seq<u32>,
    indices: Seq<u32>,
    i: int,
) -> bool {
    &&& list.len() == offsets[i + 1] - offsets[i]
    &&& forall|j: int| 0 <= j < list.len() ==> #[trigger] list[j] == indices[offsets[i] + j]
}

/// The lists are the runs of the indices, one for each owner.
pub open spec fn tells_runs(
    lists: Seq<Seq<u32>>,
    offsets: Seq<u32>,
    indices: Seq<u32>,
    owners: nat,
) -> bool {
    &&& lists.len() == owners
    &&& forall|i: int| 0 <= i < owners ==> tells_run(#[trigger] lists[i], offsets, indices, i)
}

proof fn offsets_rise(offsets: Seq<u32>, length: nat, i: int, j: int)
    requires
        forall|k: int|
            #![trigger offsets[k]]
            0 <= k < offsets.len() - 1 ==> offsets[k] <= offsets[k + 1] <= length,
        0 <= i <= j < offsets.len(),
    ensures
        offsets[i] <= offsets[j],
    decreases j - i,
{
    if i < j {
        offsets_rise(offsets, length, i, j - 1);
        assert(offsets[j - 1] <= offsets[j - 1 + 1]);
    }
}

proof fn readable_adjacency_is_runs(
    offsets: Seq<u32>,
    indices: Seq<u32>,
    owners: nat,
    targets: nat,
)
    ensures
        crate::snapshot::adjacency_is_readable(offsets, indices, owners, targets) <==> are_runs(
            offsets,
            indices,
            owners,
            targets,
        ),
{
    reveal(are_runs);
    if crate::snapshot::adjacency_is_readable(offsets, indices, owners, targets) {
        assert forall|i: int, j: int| 0 <= i <= j < offsets.len() implies #[trigger] offsets[i]
            <= #[trigger] offsets[j] by {
            offsets_rise(offsets, indices.len(), i, j);
        }
    }
    if are_runs(offsets, indices, owners, targets) {
        assert forall|i: int| #![trigger offsets[i]] 0 <= i < owners implies offsets[i]
            <= offsets[i + 1] <= indices.len() by {
            assert(offsets[i + 1] <= offsets[owners as int]);
        }
    }
}

proof fn lists_are_runs(offsets: Seq<u32>, indices: Seq<u32>, owners: nat, targets: nat)
    requires
        are_runs(offsets, indices, owners, targets),
    ensures
        tells_runs(
            crate::snapshot::adjacency_lists(offsets, indices),
            offsets,
            indices,
            owners,
        ),
{
    reveal(are_runs);
    reveal(tells_run);
    let lists = crate::snapshot::adjacency_lists(offsets, indices);
    assert forall|i: int| 0 <= i < owners implies tells_run(
        #[trigger] lists[i],
        offsets,
        indices,
        i,
    ) by {
        assert(offsets[i] <= offsets[i + 1]);
        assert(offsets[i + 1] <= offsets[owners as int]);
    }
}

/// Adjacency gives every owner its own run, and all runs together use every index once.
pub proof fn adjacency_is_read_run_by_run(
    offsets: &[u32],
    indices: &[u32],
    owner_count: usize,
    target_count: usize,
    lists: Result<Vec<Vec<u32>>, Error>,
    i: int,
)
    requires
        call_ensures(
            crate::snapshot::decode_adjacency,
            (offsets, indices, owner_count, target_count),
            lists,
        ),
    ensures
        are_runs(offsets@, indices@, owner_count as nat, target_count as nat) ==> (lists matches Ok(
            all,
        ) && all@.len() == owner_count && (0 <= i < owner_count ==> tells_run(
            all@[i]@,
            offsets@,
            indices@,
            i,
        ))),
        !are_runs(offsets@, indices@, owner_count as nat, target_count as nat)
            ==> crate::laws::fails(lists, ErrorView::TopologyQueryFailed),
{
    readable_adjacency_is_runs(offsets@, indices@, owner_count as nat, target_count as nat);
    if are_runs(offsets@, indices@, owner_count as nat, target_count as nat) {
        lists_are_runs(offsets@, indices@, owner_count as nat, target_count as nat);
        let all = lists->Ok_0@;
        assert(crate::snapshot::contents(all).len() == all.len());
        if 0 <= i < owner_count {
            assert(crate::snapshot::contents(all)[i] == all[i]@);
        }
    }
}

// ==================== Facts ====================

/// The facts that native data announce for face `i` are there.
pub open spec fn can_tell_face(data: TopologyData, i: int) -> bool {
    let flags = flags_at(data.face_fact_flags@, i);
    &&& i < data.face_geometry_kinds@.len() ==> data.face_geometry_kinds@[i] <= 11
    &&& is_set(flags, 1) ==> holds_point(data.face_points@, i) && holds_point(data.face_normals@, i)
    &&& is_set(flags, 2) ==> i < data.face_areas@.len()
}

/// The facts are those of face `i`: bit 1 announces point and normal, bit 2 the area, and bit
/// 4 says that the face is closed.
pub open spec fn tells_face(
    facts: FaceTopologyFacts,
    token: TopologyOccurrenceToken,
    data: TopologyData,
    i: int,
) -> bool {
    let flags = flags_at(data.face_fact_flags@, i);
    &&& facts.token == token
    &&& tells_surface(facts.geometry, data.face_geometry_kinds@, i)
    &&& tells_point(facts.representative_point, is_set(flags, 1), data.face_points@, i)
    &&& tells_point(facts.normal, is_set(flags, 1), data.face_normals@, i)
    &&& tells_number(facts.area, is_set(flags, 2), data.face_areas@, i)
    &&& facts.closed == is_set(flags, 4)
}

/// The facts that native data announce for edge `i` are there.
pub open spec fn can_tell_edge(data: TopologyData, i: int) -> bool {
    let flags = flags_at(data.edge_fact_flags@, i);
    &&& i < data.edge_geometry_kinds@.len() ==> data.edge_geometry_kinds@[i] <= 9
    &&& is_set(flags, 1) ==> holds_point(data.edge_points@, i) && holds_point(
        data.edge_tangents@,
        i,
    )
    &&& is_set(flags, 64) ==> holds_point(data.edge_directions@, i)
    &&& is_set(flags, 2) ==> i < data.edge_lengths@.len()
}

/// The facts are those of edge `i`. Bit 1 announces midpoint and tangent, bit 2 the length
/// and bit 64 the outward direction. The edge is closed if bit 4 is set, degenerate if bit 8
/// is, a seam if bit 16 is, and manifold if bit 32 is: each fact has its one bit.
pub open spec fn tells_edge(
    facts: EdgeFactsView,
    token: TopologyOccurrenceToken,
    vertices: Seq<u32>,
    data: TopologyData,
    i: int,
) -> bool {
    let flags = flags_at(data.edge_fact_flags@, i);
    &&& facts.token == token
    &&& tells_curve(facts.geometry, data.edge_geometry_kinds@, i)
    &&& tells_point(facts.midpoint, is_set(flags, 1), data.edge_points@, i)
    &&& tells_point(facts.tangent, is_set(flags, 1), data.edge_tangents@, i)
    &&& tells_point(facts.outward_direction, is_set(flags, 64), data.edge_directions@, i)
    &&& tells_number(facts.length, is_set(flags, 2), data.edge_lengths@, i)
    &&& facts.vertices == vertices
    &&& facts.closed == is_set(flags, 4)
    &&& facts.degenerate == is_set(flags, 8)
    &&& facts.seam == is_set(flags, 16)
    &&& facts.manifold == is_set(flags, 32)
}

/// The facts that native data announce for vertex `i` are there.
pub open spec fn can_tell_vertex(data: TopologyData, i: int) -> bool {
    is_set(flags_at(data.vertex_fact_flags@, i), 1) ==> holds_point(data.vertex_points@, i)
}

/// The facts are those of vertex `i`: bit 1 announces the point.
pub open spec fn tells_vertex(
    facts: VertexTopologyFacts,
    token: TopologyOccurrenceToken,
    data: TopologyData,
    i: int,
) -> bool {
    &&& facts.token == token
    &&& tells_point(
        facts.point,
        is_set(flags_at(data.vertex_fact_flags@, i), 1),
        data.vertex_points@,
        i,
    )
}

proof fn faces_are_told(data: TopologyData, token: TopologyOccurrenceToken, i: int)
    requires
        0 <= i,
    ensures
        crate::snapshot::face_facts_at(data, token, i) is Some <==> can_tell_face(data, i),
        crate::snapshot::face_facts_at(data, token, i) matches Some(facts) ==> tells_face(
            facts,
            token,
            data,
            i,
        ),
{
    bits_are_set(flags_at(data.face_fact_flags@, i));
}

proof fn edges_are_told(
    data: TopologyData,
    token: TopologyOccurrenceToken,
    vertices: Seq<u32>,
    i: int,
)
    requires
        0 <= i,
    ensures
        crate::snapshot::edge_facts_at(data, token, vertices, i) is Some <==> can_tell_edge(
            data,
            i,
        ),
        crate::snapshot::edge_facts_at(data, token, vertices, i) matches Some(facts) ==> tells_edge(
            facts,
            token,
            vertices,
            data,
            i,
        ),
{
    bits_are_set(flags_at(data.edge_fact_flags@, i));
}

proof fn vertices_are_told(data: TopologyData, token: TopologyOccurrenceToken, i: int)
    requires
        0 <= i,
    ensures
        crate::snapshot::vertex_facts_at(data, token, i) is Some <==> can_tell_vertex(data, i),
        crate::snapshot::vertex_facts_at(data, token, i) matches Some(facts) ==> tells_vertex(
            facts,
            token,
            data,
            i,
        ),
{
    bits_are_set(flags_at(data.vertex_fact_flags@, i));
}

/// Some facts were asked for.
pub open spec fn asks(options: TopologyQueryOptions) -> bool {
    options.frames || options.measurements || options.geometry
}

/// The facts of `count` faces can be told: whoever asked gets whole lists, and what is
/// announced is there.
pub open spec fn can_tell_faces(
    data: TopologyData,
    count: nat,
    options: TopologyQueryOptions,
) -> bool {
    &&& asks(options) ==> {
        &&& data.face_geometry_kinds@.len() == count
        &&& data.face_fact_flags@.len() == count
        &&& data.face_points@.len() == 3 * count
        &&& data.face_normals@.len() == 3 * count
        &&& data.face_areas@.len() == count
    }
    &&& forall|i: int| 0 <= i < count ==> #[trigger] can_tell_face(data, i)
}

/// The facts of `count` edges can be told.
pub open spec fn can_tell_edges(
    data: TopologyData,
    count: nat,
    options: TopologyQueryOptions,
) -> bool {
    &&& asks(options) ==> {
        &&& data.edge_geometry_kinds@.len() == count
        &&& data.edge_fact_flags@.len() == count
        &&& data.edge_points@.len() == 3 * count
        &&& data.edge_tangents@.len() == 3 * count
        &&& data.edge_directions@.len() == 3 * count
        &&& data.edge_lengths@.len() == count
    }
    &&& forall|i: int| 0 <= i < count ==> #[trigger] can_tell_edge(data, i)
}

/// The facts of `count` vertices can be told.
pub open spec fn can_tell_vertices(
    data: TopologyData,
    count: nat,
    options: TopologyQueryOptions,
) -> bool {
    &&& options.frames ==> {
        &&& data.vertex_fact_flags@.len() == count
        &&& data.vertex_points@.len() == 3 * count
    }
    &&& forall|i: int| 0 <= i < count ==> #[trigger] can_tell_vertex(data, i)
}

proof fn facts_are_readable_if_told(
    data: TopologyData,
    faces: Seq<TopologyOccurrenceToken>,
    edges: Seq<TopologyOccurrenceToken>,
    edge_vertices: Seq<Seq<u32>>,
    vertices: Seq<TopologyOccurrenceToken>,
    options: TopologyQueryOptions,
)
    ensures
        crate::snapshot::face_facts_are_readable(data, faces, options) <==> can_tell_faces(
            data,
            faces.len(),
            options,
        ),
        crate::snapshot::edge_facts_are_readable(data, edges, edge_vertices, options)
            <==> can_tell_edges(data, edges.len(), options),
        crate::snapshot::vertex_facts_are_readable(data, vertices, options) <==> can_tell_vertices(
            data,
            vertices.len(),
            options,
        ),
{
    assert forall|i: int| 0 <= i < faces.len() implies #[trigger] can_tell_face(data, i) == (
    crate::snapshot::face_facts_at(data, faces[i], i) is Some) by {
        faces_are_told(data, faces[i], i);
    }
    assert forall|i: int| 0 <= i < faces.len() implies can_tell_face(data, i) == (
    #[trigger] crate::snapshot::face_facts_at(data, faces[i], i) is Some) by {
        faces_are_told(data, faces[i], i);
    }
    assert forall|i: int| 0 <= i < edges.len() implies #[trigger] can_tell_edge(data, i) == (
    crate::snapshot::edge_facts_at(data, edges[i], edge_vertices[i], i) is Some) by {
        edges_are_told(data, edges[i], edge_vertices[i], i);
    }
    assert forall|i: int| 0 <= i < edges.len() implies can_tell_edge(data, i) == (
    #[trigger] crate::snapshot::edge_facts_at(data, edges[i], edge_vertices[i], i) is Some) by {
        edges_are_told(data, edges[i], edge_vertices[i], i);
    }
    assert forall|i: int| 0 <= i < vertices.len() implies #[trigger] can_tell_vertex(data, i) == (
    crate::snapshot::vertex_facts_at(data, vertices[i], i) is Some) by {
        vertices_are_told(data, vertices[i], i);
    }
    assert forall|i: int| 0 <= i < vertices.len() implies can_tell_vertex(data, i) == (
    #[trigger] crate::snapshot::vertex_facts_at(data, vertices[i], i) is Some) by {
        vertices_are_told(data, vertices[i], i);
    }
}

/// Every face has its facts, each read off its own bit and its own place.
pub proof fn face_facts_are_read_bit_by_bit(
    data: TopologyData,
    tokens: &[TopologyOccurrenceToken],
    options: TopologyQueryOptions,
    facts: Result<Vec<FaceTopologyFacts>, Error>,
    i: int,
)
    requires
        call_ensures(crate::snapshot::decode_face_facts, (&data, tokens, options), facts),
    ensures
        can_tell_faces(data, tokens@.len(), options) ==> (facts matches Ok(list) && list@.len()
            == tokens@.len() && (0 <= i < tokens@.len() ==> tells_face(
            list@[i],
            tokens@[i],
            data,
            i,
        ))),
        !can_tell_faces(data, tokens@.len(), options) ==> crate::laws::fails(
            facts,
            ErrorView::TopologyQueryFailed,
        ),
{
    facts_are_readable_if_told(data, tokens@, seq![], seq![], seq![], options);
    if 0 <= i < tokens@.len() {
        faces_are_told(data, tokens@[i], i);
    }
}

/// Every edge has its facts: closed, degenerate, seam and manifold are each true just if the
/// one bit of that fact is set, whatever the others are.
pub proof fn edge_facts_are_read_bit_by_bit(
    data: TopologyData,
    tokens: &[TopologyOccurrenceToken],
    edge_vertices: &[Vec<u32>],
    options: TopologyQueryOptions,
    facts: Result<Vec<EdgeTopologyFacts>, Error>,
    i: int,
)
    requires
        call_ensures(
            crate::snapshot::decode_edge_facts,
            (&data, tokens, edge_vertices, options),
            facts,
        ),
        edge_vertices@.len() >= tokens@.len(),
    ensures
        can_tell_edges(data, tokens@.len(), options) ==> (facts matches Ok(list) && list@.len()
            == tokens@.len() && (0 <= i < tokens@.len() ==> {
            let flags = flags_at(data.edge_fact_flags@, i);
            &&& tells_edge(list@[i]@, tokens@[i], edge_vertices@[i]@, data, i)
            &&& list@[i].closed <==> (flags / 4) % 2 == 1
            &&& list@[i].degenerate <==> (flags / 8) % 2 == 1
            &&& list@[i].seam <==> (flags / 16) % 2 == 1
            &&& list@[i].manifold <==> (flags / 32) % 2 == 1
        })),
        !can_tell_edges(data, tokens@.len(), options) ==> crate::laws::fails(
            facts,
            ErrorView::TopologyQueryFailed,
        ),
{
    let all_vertices = crate::snapshot::contents(edge_vertices@);
    facts_are_readable_if_told(data, seq![], tokens@, all_vertices, seq![], options);
    if can_tell_edges(data, tokens@.len(), options) {
        let list = facts->Ok_0@;
        assert(crate::snapshot::edge_facts_contents(list).len() == list.len());
        if 0 <= i < tokens@.len() {
            edges_are_told(data, tokens@[i], all_vertices[i], i);
            assert(crate::snapshot::edge_facts_contents(list)[i] == list[i]@);
            assert(all_vertices[i] == edge_vertices@[i]@);
        }
    }
}

/// Every vertex has its facts.
pub proof fn vertex_facts_are_read_in_place(
    data: TopologyData,
    tokens: &[TopologyOccurrenceToken],
    options: TopologyQueryOptions,
    facts: Result<Vec<VertexTopologyFacts>, Error>,
    i: int,
)
    requires
        call_ensures(crate::snapshot::decode_vertex_facts, (&data, tokens, options), facts),
    ensures
        can_tell_vertices(data, tokens@.len(), options) ==> (facts matches Ok(list) && list@.len()
            == tokens@.len() && (0 <= i < tokens@.len() ==> tells_vertex(
            list@[i],
            tokens@[i],
            data,
            i,
        ))),
        !can_tell_vertices(data, tokens@.len(), options) ==> crate::laws::fails(
            facts,
            ErrorView::TopologyQueryFailed,
        ),
{
    facts_are_readable_if_told(data, seq![], seq![], seq![], tokens@, options);
    if 0 <= i < tokens@.len() {
        vertices_are_told(data, tokens@[i], i);
    }
}

// ==================== Snapshots ====================

/// Native data tell a whole topology with the facts that were asked for.
pub open spec fn can_tell(data: TopologyData, options: TopologyQueryOptions) -> bool {
    let faces = data.face_tshape_ids@.len();
    let edges = data.edge_tshape_ids@.len();
    let vertices = data.vertex_tshape_ids@.len();
    &&& are_runs(data.face_edge_offsets@, data.face_edge_indices@, faces, edges)
    &&& are_runs(data.edge_face_offsets@, data.edge_face_indices@, edges, faces)
    &&& are_runs(data.edge_vertex_offsets@, data.edge_vertex_indices@, edges, vertices)
    &&& are_entities(data.face_tshape_ids@, data.face_location_hashes@, data.face_orientations@)
    &&& are_entities(data.edge_tshape_ids@, data.edge_location_hashes@, data.edge_orientations@)
    &&& are_entities(
        data.vertex_tshape_ids@,
        data.vertex_location_hashes@,
        data.vertex_orientations@,
    )
    &&& can_tell_faces(data, faces, options)
    &&& can_tell_edges(data, edges, options)
    &&& can_tell_vertices(data, vertices, options)
}

/// The facts of face `i` are those of the native data, token and all.
pub open spec fn tells_face_in_full(facts: FaceTopologyFacts, data: TopologyData, i: int) -> bool {
    &&& tells_token(
        facts.token,
        data.face_tshape_ids@,
        data.face_location_hashes@,
        data.face_orientations@,
        i,
    )
    &&& tells_face(facts, facts.token, data, i)
}

/// The facts of edge `i` are those of the native data, token, vertices and all.
pub open spec fn tells_edge_in_full(facts: EdgeFactsView, data: TopologyData, i: int) -> bool {
    &&& tells_token(
        facts.token,
        data.edge_tshape_ids@,
        data.edge_location_hashes@,
        data.edge_orientations@,
        i,
    )
    &&& tells_run(facts.vertices, data.edge_vertex_offsets@, data.edge_vertex_indices@, i)
    &&& tells_edge(facts, facts.token, facts.vertices, data, i)
}

/// The facts of vertex `i` are those of the native data, token and all.
pub open spec fn tells_vertex_in_full(
    facts: VertexTopologyFacts,
    data: TopologyData,
    i: int,
) -> bool {
    &&& tells_token(
        facts.token,
        data.vertex_tshape_ids@,
        data.vertex_location_hashes@,
        data.vertex_orientations@,
        i,
    )
    &&& tells_vertex(facts, facts.token, data, i)
}

/// The snapshot is that of the native data.
pub open spec fn tells(snapshot: SnapshotView, data: TopologyData) -> bool {
    let faces = data.face_tshape_ids@.len();
    let edges = data.edge_tshape_ids@.len();
    let vertices = data.vertex_tshape_ids@.len();
    &&& snapshot.face_ids == data.face_tshape_ids@
    &&& snapshot.edge_ids == data.edge_tshape_ids@
    &&& snapshot.vertex_ids == data.vertex_tshape_ids@
    &&& tells_runs(snapshot.face_edges, data.face_edge_offsets@, data.face_edge_indices@, faces)
    &&& tells_runs(snapshot.edge_faces, data.edge_face_offsets@, data.edge_face_indices@, edges)
    &&& tells_runs(
        snapshot.edge_vertices,
        data.edge_vertex_offsets@,
        data.edge_vertex_indices@,
        edges,
    )
    &&& snapshot.face_facts.len() == faces
    &&& snapshot.edge_facts.len() == edges
    &&& snapshot.vertex_facts.len() == vertices
    &&& forall|i: int|
        0 <= i < faces ==> tells_face_in_full(#[trigger] snapshot.face_facts[i], data, i)
    &&& forall|i: int|
        0 <= i < edges ==> tells_edge_in_full(#[trigger] snapshot.edge_facts[i], data, i)
    &&& forall|i: int|
        0 <= i < vertices ==> tells_vertex_in_full(#[trigger] snapshot.vertex_facts[i], data, i)
}

pub(crate) proof fn readable_snapshots_are_told(data: TopologyData, options: TopologyQueryOptions)
    ensures
        crate::snapshot::snapshot_is_readable(data, options) <==> can_tell(data, options),
        can_tell(data, options) ==> tells(crate::snapshot::snapshot_of(data), data),
{
    let faces = data.face_tshape_ids@.len();
    let edges = data.edge_tshape_ids@.len();
    let vertices = data.vertex_tshape_ids@.len();
    let face_tokens = crate::snapshot::face_tokens(data);
    let edge_tokens = crate::snapshot::edge_tokens(data);
    let vertex_tokens = crate::snapshot::vertex_tokens(data);
    let edge_vertices = crate::snapshot::vertices_of_edges(data);
    readable_adjacency_is_runs(data.face_edge_offsets@, data.face_edge_indices@, faces, edges);
    readable_adjacency_is_runs(data.edge_face_offsets@, data.edge_face_indices@, edges, faces);
    readable_adjacency_is_runs(
        data.edge_vertex_offsets@,
        data.edge_vertex_indices@,
        edges,
        vertices,
    );
    facts_are_readable_if_told(
        data,
        face_tokens,
        edge_tokens,
        edge_vertices,
        vertex_tokens,
        options,
    );
    if can_tell(data, options) {
        let snapshot = crate::snapshot::snapshot_of(data);
        lists_are_runs(data.face_edge_offsets@, data.face_edge_indices@, faces, edges);
        lists_are_runs(data.edge_face_offsets@, data.edge_face_indices@, edges, faces);
        lists_are_runs(data.edge_vertex_offsets@, data.edge_vertex_indices@, edges, vertices);
        assert forall|i: int| 0 <= i < faces implies tells_face_in_full(
            #[trigger] snapshot.face_facts[i],
            data,
            i,
        ) by {
            faces_are_told(data, face_tokens[i], i);
            assert(can_tell_face(data, i));
        }
        assert forall|i: int| 0 <= i < edges implies tells_edge_in_full(
            #[trigger] snapshot.edge_facts[i],
            data,
            i,
        ) by {
            edges_are_told(data, edge_tokens[i], edge_vertices[i], i);
            assert(can_tell_edge(data, i));
            assert(tells_run(
                edge_vertices[i],
                data.edge_vertex_offsets@,
                data.edge_vertex_indices@,
                i,
            ));
        }
        assert forall|i: int| 0 <= i < vertices implies tells_vertex_in_full(
            #[trigger] snapshot.vertex_facts[i],
            data,
            i,
        ) by {
            vertices_are_told(data, vertex_tokens[i], i);
            assert(can_tell_vertex(data, i));
        }
    }
}

/// A snapshot is made of all native data that tell one, and it tells the same.
pub proof fn snapshots_tell_the_native_data(
    data: TopologyData,
    options: TopologyQueryOptions,
    snapshot: Result<TopologySnapshot, Error>,
)
    requires
        call_ensures(crate::snapshot::decode_snapshot, (data, options), snapshot),
    ensures
        can_tell(data, options) ==> (snapshot matches Ok(made) && tells(made@, data)),
        !can_tell(data, options) ==> crate::laws::fails(snapshot, ErrorView::TopologyQueryFailed),
{
    readable_snapshots_are_told(data, options);
}

/// The request holds one bit for each thing that was asked for.
pub open spec fn requests(bits: u32, options: TopologyQueryOptions) -> bool {
    &&& bits < 8
    &&& options.frames <==> is_set(bits, 1)
    &&& options.measurements <==> is_set(bits, 2)
    &&& options.geometry <==> is_set(bits, 4)
}

/// What the answer of a native traversal comes to.
pub open spec fn comes_of_traversal<D: FnOnce(Error, &'static str, &'static str) -> Error>(
    snapshot: Result<TopologySnapshot, Error>,
    data: TopologyData,
    options: TopologyQueryOptions,
    diagnose: D,
) -> bool {
    if !data.success {
        crate::laws::fails_natively(
            snapshot,
            diagnose,
            ErrorView::TopologyQueryFailed,
            "topology snapshot",
            "topology_snapshot",
        )
    } else if can_tell(data, options) {
        snapshot matches Ok(made) && tells(made@, data)
    } else {
        crate::laws::fails(snapshot, ErrorView::TopologyQueryFailed)
    }
}

pub(crate) proof fn requests_are_sums(options: TopologyQueryOptions)
    ensures
        0 <= options.flag_sum() < 8,
        requests(options.flag_sum() as u32, options),
{
}

pub(crate) proof fn answers_come_of_traversals<
    D: FnOnce(Error, &'static str, &'static str) -> Error,
>(
    snapshot: Result<TopologySnapshot, Error>,
    data: TopologyData,
    options: TopologyQueryOptions,
    diagnose: D,
)
    requires
        crate::snapshot::snapshot_answer(snapshot, data, options, diagnose),
    ensures
        comes_of_traversal(snapshot, data, options, diagnose),
{
    readable_snapshots_are_told(data, options);
}

/// A traversal asks the native side for just what was requested, and its snapshot tells what
/// the native side answered.
pub proof fn traversals_ask_for_what_is_requested<
    H,
    Q: FnOnce(&H, u32) -> TopologyData,
    D: FnOnce(Error, &'static str, &'static str) -> Error,
>(
    shape: &H,
    options: TopologyQueryOptions,
    query: Q,
    diagnose: D,
    snapshot: Result<TopologySnapshot, Error>,
)
    requires
        call_ensures(
            crate::snapshot::topology_snapshot_from_shape_with_options::<H, Q, D>,
            (shape, options, query, diagnose),
            snapshot,
        ),
    ensures
        exists|bits: u32, data: TopologyData|
            requests(bits, options) && #[trigger] call_ensures(query, (shape, bits), data)
                && comes_of_traversal(snapshot, data, options, diagnose),
{
    requests_are_sums(options);
    let bits = options.flag_sum() as u32;
    let data = choose|data: TopologyData| #[trigger]
        call_ensures(query, (shape, bits), data) && crate::snapshot::snapshot_answer(
            snapshot,
            data,
            options,
            diagnose,
        );
    answers_come_of_traversals(snapshot, data, options, diagnose);
    assert(call_ensures(query, (shape, bits), data));
}

/// Without options a traversal asks for identities and adjacency alone.
pub proof fn plain_traversals_ask_for_no_facts<
    H,
    Q: FnOnce(&H, u32) -> TopologyData,
    D: FnOnce(Error, &'static str, &'static str) -> Error,
>(shape: &H, query: Q, diagnose: D, snapshot: Result<TopologySnapshot, Error>)
    requires
        call_ensures(
            crate::snapshot::topology_snapshot_from_shape::<H, Q, D>,
            (shape, query, diagnose),
            snapshot,
        ),
    ensures
        exists|options: TopologyQueryOptions, data: TopologyData|
            !asks(options) && #[trigger] call_ensures(query, (shape, 0u32), data)
                && #[trigger] comes_of_traversal(snapshot, data, options, diagnose),
{
    let options = TopologyQueryOptions { frames: false, measurements: false, geometry: false };
    let data = choose|data: TopologyData| #[trigger]
        call_ensures(query, (shape, 0u32), data) && crate::snapshot::snapshot_answer(
            snapshot,
            data,
            options,
            diagnose,
        );
    answers_come_of_traversals(snapshot, data, options, diagnose);
    assert(call_ensures(query, (shape, 0u32), data));
}

} // verus!
