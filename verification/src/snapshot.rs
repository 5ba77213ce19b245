//! Artifact-local topology: identities, adjacency and requested facts of one traversal.

use crate::error::Error;
use crate::error::ErrorView;
use crate::kernel::TopologyData;
use crate::number::Real;
use crate::number::Vec3;
use crate::topology::TopologyKind;
use vstd::prelude::*;

verus! {

/// Request flags for an artifact-local topology traversal.
#[derive(Clone, Copy, Debug, PartialEq, Eq, Structural)]
pub struct TopologyQueryOptions {
    pub frames: bool,
    pub measurements: bool,
    pub geometry: bool,
}

impl TopologyQueryOptions {
    /// Some facts are requested.
    pub open spec fn any(self) -> bool {
        self.frames || self.measurements || self.geometry
    }

    /// The request as the native traversal takes it: one bit a flag.
    pub open spec fn flag_sum(self) -> int {
        (if self.frames {
            1int
        } else {
            0
        }) + (if self.measurements {
            2int
        } else {
            0
        }) + (if self.geometry {
            4int
        } else {
            0
        })
    }

    /// What direct manipulation needs: frames and geometry.
    pub fn interaction() -> (options: TopologyQueryOptions)
        ensures
            options == (TopologyQueryOptions { frames: true, measurements: false, geometry: true }),
    {
        TopologyQueryOptions { frames: true, measurements: false, geometry: true }
    }

    /// What measuring needs: everything.
    pub fn measurement() -> (options: TopologyQueryOptions)
        ensures
            options == (TopologyQueryOptions { frames: true, measurements: true, geometry: true }),
    {
        TopologyQueryOptions { frames: true, measurements: true, geometry: true }
    }

    /// The request as the native traversal takes it: one bit a flag.
    pub fn bits(self) -> (bits: u32)
        ensures
            bits == self.flag_sum(),
    {
        let frames: u32 = if self.frames {
            1
        } else {
            0
        };
        let measurements: u32 = if self.measurements {
            2
        } else {
            0
        };
        let geometry: u32 = if self.geometry {
            4
        } else {
            0
        };
        frames + measurements + geometry
    }
}

impl Default for TopologyQueryOptions {
    /// Identities and adjacency alone.
    fn default() -> (options: TopologyQueryOptions)
        ensures
            !options.any(),
    {
        TopologyQueryOptions { frames: false, measurements: false, geometry: false }
    }
}

/// An occurrence-aware token scoped to one exact artifact.
#[derive(Clone, Copy, Debug, PartialEq, Eq, Hash, Structural)]
pub struct TopologyOccurrenceToken {
    pub tshape_id: u64,
    pub location_hash: u64,
    pub orientation: u32,
    pub ordinal: u32,
}

#[derive(Clone, Copy, Debug, PartialEq, Eq, Structural)]
pub enum SurfaceGeometryKind {
    Plane,
    Cylinder,
    Cone,
    Sphere,
    Torus,
    Bezier,
    BSpline,
    Revolution,
    Extrusion,
    Offset,
    Other,
}

#[derive(Clone, Copy, Debug, PartialEq, Eq, Structural)]
pub enum CurveGeometryKind {
    Line,
    Circle,
    Ellipse,
    Hyperbola,
    Parabola,
    Bezier,
    BSpline,
    Offset,
    Other,
}

#[derive(Clone, Copy, Debug, PartialEq, Eq)]
pub struct FaceTopologyFacts {
    pub token: TopologyOccurrenceToken,
    pub geometry: Option<SurfaceGeometryKind>,
    pub representative_point: Option<Vec3>,
    pub normal: Option<Vec3>,
    pub area: Option<Real>,
    pub closed: bool,
}

#[derive(Debug, PartialEq, Eq)]
pub struct EdgeTopologyFacts {
    pub token: TopologyOccurrenceToken,
    pub geometry: Option<CurveGeometryKind>,
    pub midpoint: Option<Vec3>,
    pub tangent: Option<Vec3>,
    pub outward_direction: Option<Vec3>,
    pub length: Option<Real>,
    pub vertices: Vec<u32>,
    pub closed: bool,
    pub degenerate: bool,
    pub seam: bool,
    pub manifold: bool,
}

#[derive(Clone, Copy, Debug, PartialEq, Eq)]
pub struct VertexTopologyFacts {
    pub token: TopologyOccurrenceToken,
    pub point: Option<Vec3>,
}

/// What [`EdgeTopologyFacts`] say.
pub struct EdgeFactsView {
    pub token: TopologyOccurrenceToken,
    pub geometry: Option<CurveGeometryKind>,
    pub midpoint: Option<Vec3>,
    pub tangent: Option<Vec3>,
    pub outward_direction: Option<Vec3>,
    pub length: Option<Real>,
    pub vertices: Seq<u32>,
    pub closed: bool,
    pub degenerate: bool,
    pub seam: bool,
    pub manifold: bool,
}

impl View for EdgeTopologyFacts {
    type V = EdgeFactsView;

    open spec fn view(&self) -> EdgeFactsView {
        EdgeFactsView {
            token: self.token,
            geometry: self.geometry,
            midpoint: self.midpoint,
            tangent: self.tangent,
            outward_direction: self.outward_direction,
            length: self.length,
            vertices: self.vertices@,
            closed: self.closed,
            degenerate: self.degenerate,
            seam: self.seam,
            manifold: self.manifold,
        }
    }
}

impl Clone for EdgeTopologyFacts {
    fn clone(&self) -> (copy: EdgeTopologyFacts)
        ensures
            copy@ == self@,
    {
        EdgeTopologyFacts {
            token: self.token,
            geometry: self.geometry,
            midpoint: self.midpoint,
            tangent: self.tangent,
            outward_direction: self.outward_direction,
            length: self.length,
            vertices: crate::topology::copied(&self.vertices),
            closed: self.closed,
            degenerate: self.degenerate,
            seam: self.seam,
            manifold: self.manifold,
        }
    }
}

// ==================== Occurrence tokens ====================

/// The three lists describe the same entities, and each entity has an ordinal.
pub open spec fn tokens_are_readable(
    ids: Seq<u64>,
    locations: Seq<u64>,
    orientations: Seq<u32>,
) -> bool {
    locations.len() == ids.len() && orientations.len() == ids.len() && ids.len() <= 0x1_0000_0000
}

/// The token of entity `i`.
pub open spec fn token_at(
    ids: Seq<u64>,
    locations: Seq<u64>,
    orientations: Seq<u32>,
    i: int,
) -> TopologyOccurrenceToken {
    TopologyOccurrenceToken {
        tshape_id: ids[i],
        location_hash: locations[i],
        orientation: orientations[i],
        ordinal: i as u32,
    }
}

/// The tokens of the entities, in their order.
pub open spec fn token_list(
    ids: Seq<u64>,
    locations: Seq<u64>,
    orientations: Seq<u32>,
) -> Seq<TopologyOccurrenceToken> {
    Seq::new(ids.len(), |i: int| token_at(ids, locations, orientations, i))
}

/// Give every entity its token.
pub fn decode_tokens(ids: &[u64], locations: &[u64], orientations: &[u32]) -> (tokens: Result<
    Vec<TopologyOccurrenceToken>,
    Error,
>)
    ensures
        tokens is Ok <==> tokens_are_readable(ids@, locations@, orientations@),
        tokens matches Ok(list) ==> list@ == token_list(ids@, locations@, orientations@),
        tokens matches Err(error) ==> error@ == ErrorView::TopologyQueryFailed,
{
    if locations.len() != ids.len() || orientations.len() != ids.len() {
        return Err(Error::TopologyQueryFailed);
    }
    let ghost all = token_list(ids@, locations@, orientations@);
    let mut list: Vec<TopologyOccurrenceToken> = Vec::with_capacity(ids.len());
    let mut next: usize = 0;
    while next < ids.len()
        invariant
            next <= ids.len() == locations.len() == orientations.len(),
            next <= 0x1_0000_0000,
            all == token_list(ids@, locations@, orientations@),
            list@ == all.take(next as int),
        decreases ids.len() - next,
    {
        if next > u32::MAX as usize {
            return Err(Error::TopologyQueryFailed);
        }
        assert(all.take(next + 1) =~= all.take(next as int).push(all[next as int]));
        list.push(
            TopologyOccurrenceToken {
                tshape_id: ids[next],
                location_hash: locations[next],
                orientation: orientations[next],
                ordinal: next as u32,
            },
        );
        next += 1;
    }
    assert(all.take(next as int) =~= all);
    Ok(list)
}

// ==================== Adjacency ====================

/// The flat lists describe, for each of `owners` entities, a run of `indices`: the runs
/// follow one another from the first index to the last, and every index names one of
/// `targets` entities.
pub open spec fn adjacency_is_readable(
    offsets: Seq<u32>,
    indices: Seq<u32>,
    owners: nat,
    targets: nat,
) -> bool {
    &&& offsets.len() == owners + 1
    &&& offsets[0] == 0
    &&& offsets[owners as int] == indices.len()
    &&& forall|i: int|
        #![trigger offsets[i]]
        0 <= i < owners ==> offsets[i] <= offsets[i + 1] <= indices.len()
    &&& forall|i: int| 0 <= i < indices.len() ==> #[trigger] indices[i] < targets
}

/// The neighbours of entity `i`.
pub open spec fn neighbours_of(offsets: Seq<u32>, indices: Seq<u32>, i: int) -> Seq<u32> {
    indices.subrange(offsets[i] as int, offsets[i + 1] as int)
}

/// The neighbours of every entity.
pub open spec fn adjacency_lists(offsets: Seq<u32>, indices: Seq<u32>) -> Seq<Seq<u32>> {
    Seq::new((offsets.len() - 1) as nat, |i: int| neighbours_of(offsets, indices, i))
}

/// The contents of nested lists.
pub open spec fn contents(lists: Seq<Vec<u32>>) -> Seq<Seq<u32>> {
    lists.map_values(|list: Vec<u32>| list@)
}

/// The part of `values` from `start` up to `end`.
pub(crate) fn part<T: Copy>(values: &[T], start: usize, end: usize) -> (run: Vec<T>)
    requires
        start <= end <= values@.len(),
    ensures
        run@ == values@.subrange(start as int, end as int),
{
    let mut run: Vec<T> = Vec::with_capacity(end - start);
    let mut next: usize = start;
    while next < end
        invariant
            start <= next <= end <= values@.len(),
            run@ == values@.subrange(start as int, next as int),
        decreases end - next,
    {
        run.push(values[next]);
        next += 1;
    }
    run
}

/// Whether all of `values` from `start` up to `end` are at least `low` and below `high`.
pub(crate) fn all_between(
    values: &[u32],
    start: usize,
    end: usize,
    low: usize,
    high: usize,
) -> (answer: bool)
    requires
        start <= end <= values@.len(),
    ensures
        answer == (forall|i: int| start <= i < end ==> low <= #[trigger] values@[i] < high),
{
    let mut next: usize = start;
    while next < end
        invariant
            start <= next <= end <= values@.len(),
            forall|i: int| start <= i < next ==> low <= #[trigger] values@[i] < high,
        decreases end - next,
    {
        let value: usize = values[next] as usize;
        if value < low || value >= high {
            assert(!(low <= values@[next as int] < high));
            return false;
        }
        next += 1;
    }
    true
}

/// Read flat adjacency: the neighbours of every entity.
pub fn decode_adjacency(
    offsets: &[u32],
    indices: &[u32],
    owner_count: usize,
    target_count: usize,
) -> (lists: Result<Vec<Vec<u32>>, Error>)
    ensures
        lists is Ok <==> adjacency_is_readable(
            offsets@,
            indices@,
            owner_count as nat,
            target_count as nat,
        ),
        lists matches Ok(all) ==> contents(all@) == adjacency_lists(offsets@, indices@),
        lists matches Err(error) ==> error@ == ErrorView::TopologyQueryFailed,
{
    if offsets.len() == 0 || offsets.len() - 1 != owner_count || offsets[0] != 0
        || offsets[owner_count] as usize != indices.len() {
        return Err(Error::TopologyQueryFailed);
    }
    let ghost expected = adjacency_lists(offsets@, indices@);
    let mut lists: Vec<Vec<u32>> = Vec::with_capacity(owner_count);
    let mut next: usize = 0;
    while next < owner_count
        invariant
            next <= owner_count,
            offsets@.len() == owner_count + 1,
            offsets@[0] == 0,
            expected == adjacency_lists(offsets@, indices@),
            contents(lists@) == expected.take(next as int),
            offsets@[next as int] <= indices@.len(),
            forall|i: int|
                #![trigger offsets@[i]]
                0 <= i < next ==> offsets@[i] <= offsets@[i + 1] <= indices@.len(),
            forall|i: int|
                0 <= i < offsets@[next as int] ==> #[trigger] indices@[i] < target_count,
        decreases owner_count - next,
    {
        let start: usize = offsets[next] as usize;
        let end: usize = offsets[next + 1] as usize;
        if start > end || end > indices.len() || !all_between(
            indices,
            start,
            end,
            0,
            target_count,
        ) {
            proof {
                if adjacency_is_readable(
                    offsets@,
                    indices@,
                    owner_count as nat,
                    target_count as nat,
                ) {
                    assert(offsets@[next as int] <= offsets@[next + 1] <= indices@.len());
                }
            }
            return Err(Error::TopologyQueryFailed);
        }
        let run = part(indices, start, end);
        proof {
            assert(expected.take(next + 1) =~= expected.take(next as int).push(run@));
            assert(contents(lists@.push(run)) =~= contents(lists@).push(run@));
        }
        lists.push(run);
        next += 1;
    }
    assert(expected.take(next as int) =~= expected);
    Ok(lists)
}

/// Reading adjacency loses nothing and repeats nothing: the neighbours of all entities, one
/// after the other, are the flat indices.
pub proof fn adjacency_partitions_indices(
    offsets: Seq<u32>,
    indices: Seq<u32>,
    owners: nat,
    targets: nat,
)
    requires
        adjacency_is_readable(offsets, indices, owners, targets),
    ensures
        adjacency_lists(offsets, indices).flatten() == indices,
{
    let lists = adjacency_lists(offsets, indices);
    runs_concatenate(offsets, indices, owners, targets, owners);
    assert(lists.take(owners as int) =~= lists);
    assert(indices.take(indices.len() as int) =~= indices);
}

proof fn runs_concatenate(
    offsets: Seq<u32>,
    indices: Seq<u32>,
    owners: nat,
    targets: nat,
    count: nat,
)
    requires
        adjacency_is_readable(offsets, indices, owners, targets),
        count <= owners,
    ensures
        0 <= offsets[count as int] <= indices.len(),
        adjacency_lists(offsets, indices).take(count as int).flatten() == indices.take(
            offsets[count as int] as int,
        ),
    decreases count,
{
    let lists = adjacency_lists(offsets, indices);
    if count == 0 {
        assert(lists.take(0) =~= seq![]);
        assert(lists.take(0).flatten() =~= indices.take(0));
    } else {
        let last = count - 1;
        runs_concatenate(offsets, indices, owners, targets, last as nat);
        assert(offsets[last] <= offsets[last + 1]);
        let run = neighbours_of(offsets, indices, last);
        assert(lists.take(count as int) =~= lists.take(last).push(run));
        lists.take(last).lemma_flatten_push(run);
        assert(indices.take(offsets[last] as int) + run =~= indices.take(
            offsets[count as int] as int,
        ));
    }
}

// ==================== Facts ====================

/// The surface that a number of native data stands for; 0 says that none was asked for.
pub open spec fn numbered_surface(value: u32) -> Option<Option<SurfaceGeometryKind>> {
    if value == 0 {
        Some(None)
    } else if value == 1 {
        Some(Some(SurfaceGeometryKind::Plane))
    } else if value == 2 {
        Some(Some(SurfaceGeometryKind::Cylinder))
    } else if value == 3 {
        Some(Some(SurfaceGeometryKind::Cone))
    } else if value == 4 {
        Some(Some(SurfaceGeometryKind::Sphere))
    } else if value == 5 {
        Some(Some(SurfaceGeometryKind::Torus))
    } else if value == 6 {
        Some(Some(SurfaceGeometryKind::Bezier))
    } else if value == 7 {
        Some(Some(SurfaceGeometryKind::BSpline))
    } else if value == 8 {
        Some(Some(SurfaceGeometryKind::Revolution))
    } else if value == 9 {
        Some(Some(SurfaceGeometryKind::Extrusion))
    } else if value == 10 {
        Some(Some(SurfaceGeometryKind::Offset))
    } else if value == 11 {
        Some(Some(SurfaceGeometryKind::Other))
    } else {
        None
    }
}

/// The curve that a number of native data stands for; 0 says that none was asked for.
pub open spec fn numbered_curve(value: u32) -> Option<Option<CurveGeometryKind>> {
    if value == 0 {
        Some(None)
    } else if value == 1 {
        Some(Some(CurveGeometryKind::Line))
    } else if value == 2 {
        Some(Some(CurveGeometryKind::Circle))
    } else if value == 3 {
        Some(Some(CurveGeometryKind::Ellipse))
    } else if value == 4 {
        Some(Some(CurveGeometryKind::Hyperbola))
    } else if value == 5 {
        Some(Some(CurveGeometryKind::Parabola))
    } else if value == 6 {
        Some(Some(CurveGeometryKind::Bezier))
    } else if value == 7 {
        Some(Some(CurveGeometryKind::BSpline))
    } else if value == 8 {
        Some(Some(CurveGeometryKind::Offset))
    } else if value == 9 {
        Some(Some(CurveGeometryKind::Other))
    } else {
        None
    }
}

/// Decode the kind of a surface.
pub fn decode_surface_kind(value: u32) -> (kind: Result<Option<SurfaceGeometryKind>, Error>)
    ensures
        match numbered_surface(value) {
            Some(expected) => kind == Ok::<Option<SurfaceGeometryKind>, Error>(expected),
            None => crate::error::fails_with(kind, ErrorView::TopologyQueryFailed),
        },
{
    match value {
        0 => Ok(None),
        1 => Ok(Some(SurfaceGeometryKind::Plane)),
        2 => Ok(Some(SurfaceGeometryKind::Cylinder)),
        3 => Ok(Some(SurfaceGeometryKind::Cone)),
        4 => Ok(Some(SurfaceGeometryKind::Sphere)),
        5 => Ok(Some(SurfaceGeometryKind::Torus)),
        6 => Ok(Some(SurfaceGeometryKind::Bezier)),
        7 => Ok(Some(SurfaceGeometryKind::BSpline)),
        8 => Ok(Some(SurfaceGeometryKind::Revolution)),
        9 => Ok(Some(SurfaceGeometryKind::Extrusion)),
        10 => Ok(Some(SurfaceGeometryKind::Offset)),
        11 => Ok(Some(SurfaceGeometryKind::Other)),
        _ => Err(Error::TopologyQueryFailed),
    }
}

/// Decode the kind of a curve.
pub fn decode_curve_kind(value: u32) -> (kind: Result<Option<CurveGeometryKind>, Error>)
    ensures
        match numbered_curve(value) {
            Some(expected) => kind == Ok::<Option<CurveGeometryKind>, Error>(expected),
            None => crate::error::fails_with(kind, ErrorView::TopologyQueryFailed),
        },
{
    match value {
        0 => Ok(None),
        1 => Ok(Some(CurveGeometryKind::Line)),
        2 => Ok(Some(CurveGeometryKind::Circle)),
        3 => Ok(Some(CurveGeometryKind::Ellipse)),
        4 => Ok(Some(CurveGeometryKind::Hyperbola)),
        5 => Ok(Some(CurveGeometryKind::Parabola)),
        6 => Ok(Some(CurveGeometryKind::Bezier)),
        7 => Ok(Some(CurveGeometryKind::BSpline)),
        8 => Ok(Some(CurveGeometryKind::Offset)),
        9 => Ok(Some(CurveGeometryKind::Other)),
        _ => Err(Error::TopologyQueryFailed),
    }
}

/// Point `i` of flat coordinates, if they hold it and it is finite.
pub open spec fn point_at(values: Seq<Real>, i: int) -> Option<Vec3> {
    if 3 * i + 3 <= values.len() {
        let point = Vec3 { x: values[3 * i], y: values[3 * i + 1], z: values[3 * i + 2] };
        if point.finite() {
            Some(point)
        } else {
            None
        }
    } else {
        None
    }
}

/// Decode point `index` of flat coordinates.
pub fn decode_point(values: &[Real], index: usize) -> (point: Result<Vec3, Error>)
    ensures
        match point_at(values@, index as int) {
            Some(expected) => point == Ok::<Vec3, Error>(expected),
            None => crate::error::fails_with(point, ErrorView::TopologyQueryFailed),
        },
{
    if index >= values.len() / 3 {
        return Err(Error::TopologyQueryFailed);
    }
    let start: usize = index * 3;
    let point = Vec3 { x: values[start], y: values[start + 1], z: values[start + 2] };
    if point.is_finite() {
        Ok(point)
    } else {
        Err(Error::TopologyQueryFailed)
    }
}

/// The fact flags of entity `i`; an entity without flags has no facts.
pub open spec fn flags_of(flags: Seq<u32>, i: int) -> u32 {
    if 0 <= i < flags.len() {
        flags[i]
    } else {
        0
    }
}

/// A fact that may be absent, or present and unreadable: `None` if it is present and
/// unreadable.
pub open spec fn optional_point(present: bool, values: Seq<Real>, i: int) -> Option<Option<Vec3>> {
    if !present {
        Some(None)
    } else {
        match point_at(values, i) {
            Some(point) => Some(Some(point)),
            None => None,
        }
    }
}

/// As [`optional_point`], for a single number.
pub open spec fn optional_number(present: bool, values: Seq<Real>, i: int) -> Option<Option<Real>> {
    if !present {
        Some(None)
    } else if i < values.len() {
        Some(Some(values[i]))
    } else {
        None
    }
}

fn read_flags(flags: &Vec<u32>, index: usize) -> (found: u32)
    ensures
        found == flags_of(flags@, index as int),
{
    if index < flags.len() {
        flags[index]
    } else {
        0
    }
}

fn read_optional_point(present: bool, values: &Vec<Real>, index: usize) -> (point: Result<
    Option<Vec3>,
    Error,
>)
    ensures
        match optional_point(present, values@, index as int) {
            Some(expected) => point == Ok::<Option<Vec3>, Error>(expected),
            None => crate::error::fails_with(point, ErrorView::TopologyQueryFailed),
        },
{
    if !present {
        return Ok(None);
    }
    match decode_point(values.as_slice(), index) {
        Ok(point) => Ok(Some(point)),
        Err(error) => Err(error),
    }
}

fn read_optional_number(present: bool, values: &Vec<Real>, index: usize) -> (number: Result<
    Option<Real>,
    Error,
>)
    ensures
        match optional_number(present, values@, index as int) {
            Some(expected) => number == Ok::<Option<Real>, Error>(expected),
            None => crate::error::fails_with(number, ErrorView::TopologyQueryFailed),
        },
{
    if !present {
        Ok(None)
    } else if index < values.len() {
        Ok(Some(values[index]))
    } else {
        Err(Error::TopologyQueryFailed)
    }
}

/// The lists of face facts have the lengths that `count` faces ask for.
pub open spec fn face_lists_fit(data: TopologyData, count: nat) -> bool {
    &&& data.face_geometry_kinds@.len() == count
    &&& data.face_fact_flags@.len() == count
    &&& data.face_points@.len() == count * 3
    &&& data.face_normals@.len() == count * 3
    &&& data.face_areas@.len() == count
}

/// The facts of face `i`, if they can be read.
pub open spec fn face_facts_at(
    data: TopologyData,
    token: TopologyOccurrenceToken,
    i: int,
) -> Option<FaceTopologyFacts> {
    let flags = flags_of(data.face_fact_flags@, i);
    let geometry = if i < data.face_geometry_kinds@.len() {
        numbered_surface(data.face_geometry_kinds@[i])
    } else {
        Some(None)
    };
    match (
        geometry,
        optional_point((flags & 1) != 0, data.face_points@, i),
        optional_point((flags & 1) != 0, data.face_normals@, i),
        optional_number((flags & 2) != 0, data.face_areas@, i),
    ) {
        (Some(geometry), Some(representative_point), Some(normal), Some(area)) => Some(
            FaceTopologyFacts {
                token,
                geometry,
                representative_point,
                normal,
                area,
                closed: (flags & 4) != 0,
            },
        ),
        _ => None,
    }
}

/// The facts of all faces can be read.
pub open spec fn face_facts_are_readable(
    data: TopologyData,
    tokens: Seq<TopologyOccurrenceToken>,
    options: TopologyQueryOptions,
) -> bool {
    &&& options.any() ==> face_lists_fit(data, tokens.len())
    &&& forall|i: int|
        0 <= i < tokens.len() ==> #[trigger] face_facts_at(data, tokens[i], i) is Some
}

/// The facts of all faces.
pub open spec fn face_facts_list(
    data: TopologyData,
    tokens: Seq<TopologyOccurrenceToken>,
) -> Seq<FaceTopologyFacts> {
    Seq::new(tokens.len(), |i: int| face_facts_at(data, tokens[i], i).unwrap())
}

/// Whether `values` holds `count` triples.
fn holds_triples(values: &Vec<Real>, count: usize) -> (answer: bool)
    ensures
        answer == (values@.len() == count * 3),
{
    values.len() % 3 == 0 && values.len() / 3 == count
}

/// Decode the facts of face `index`.
fn decode_face(data: &TopologyData, token: TopologyOccurrenceToken, index: usize) -> (facts: Result<
    FaceTopologyFacts,
    Error,
>)
    ensures
        match face_facts_at(*data, token, index as int) {
            Some(expected) => facts == Ok::<FaceTopologyFacts, Error>(expected),
            None => crate::error::fails_with(facts, ErrorView::TopologyQueryFailed),
        },
{
    let flags: u32 = read_flags(&data.face_fact_flags, index);
    let geometry = if index < data.face_geometry_kinds.len() {
        match decode_surface_kind(data.face_geometry_kinds[index]) {
            Ok(kind) => kind,
            Err(error) => return Err(error),
        }
    } else {
        None
    };
    let representative_point = match read_optional_point(
        (flags & 1) != 0,
        &data.face_points,
        index,
    ) {
        Ok(point) => point,
        Err(error) => return Err(error),
    };
    let normal = match read_optional_point((flags & 1) != 0, &data.face_normals, index) {
        Ok(point) => point,
        Err(error) => return Err(error),
    };
    let area = match read_optional_number((flags & 2) != 0, &data.face_areas, index) {
        Ok(number) => number,
        Err(error) => return Err(error),
    };
    Ok(
        FaceTopologyFacts {
            token,
            geometry,
            representative_point,
            normal,
            area,
            closed: (flags & 4) != 0,
        },
    )
}

/// Decode the facts of all faces. Data that announce a fact which they do not hold are
/// inconsistent.
pub fn decode_face_facts(
    data: &TopologyData,
    tokens: &[TopologyOccurrenceToken],
    options: TopologyQueryOptions,
) -> (facts: Result<Vec<FaceTopologyFacts>, Error>)
    ensures
        facts is Ok <==> face_facts_are_readable(*data, tokens@, options),
        facts matches Ok(list) ==> list@ == face_facts_list(*data, tokens@),
        facts matches Err(error) ==> error@ == ErrorView::TopologyQueryFailed,
{
    let count: usize = tokens.len();
    if (options.frames || options.measurements || options.geometry) && (
    data.face_geometry_kinds.len() != count || data.face_fact_flags.len() != count
        || !holds_triples(&data.face_points, count) || !holds_triples(&data.face_normals, count)
        || data.face_areas.len() != count) {
        return Err(Error::TopologyQueryFailed);
    }
    let ghost all = face_facts_list(*data, tokens@);
    let mut list: Vec<FaceTopologyFacts> = Vec::with_capacity(count);
    let mut next: usize = 0;
    while next < count
        invariant
            next <= count == tokens@.len(),
            all == face_facts_list(*data, tokens@),
            list@ == all.take(next as int),
            forall|i: int|
                0 <= i < next ==> #[trigger] face_facts_at(*data, tokens@[i], i) is Some,
        decreases count - next,
    {
        match decode_face(data, tokens[next], next) {
            Ok(facts) => {
                assert(all.take(next + 1) =~= all.take(next as int).push(facts));
                list.push(facts);
            },
            Err(error) => {
                assert(face_facts_at(*data, tokens@[next as int], next as int) is None);
                return Err(error);
            },
        }
        next += 1;
    }
    assert(all.take(next as int) =~= all);
    Ok(list)
}

/// The lists of edge facts have the lengths that `count` edges ask for.
pub open spec fn edge_lists_fit(data: TopologyData, count: nat) -> bool {
    &&& data.edge_geometry_kinds@.len() == count
    &&& data.edge_fact_flags@.len() == count
    &&& data.edge_points@.len() == count * 3
    &&& data.edge_tangents@.len() == count * 3
    &&& data.edge_directions@.len() == count * 3
    &&& data.edge_lengths@.len() == count
}

/// The facts of edge `i` with the given vertices, if they can be read.
pub open spec fn edge_facts_at(
    data: TopologyData,
    token: TopologyOccurrenceToken,
    vertices: Seq<u32>,
    i: int,
) -> Option<EdgeFactsView> {
    let flags = flags_of(data.edge_fact_flags@, i);
    let geometry = if i < data.edge_geometry_kinds@.len() {
        numbered_curve(data.edge_geometry_kinds@[i])
    } else {
        Some(None)
    };
    match (
        geometry,
        optional_point((flags & 1) != 0, data.edge_points@, i),
        optional_point((flags & 1) != 0, data.edge_tangents@, i),
        optional_point((flags & 64) != 0, data.edge_directions@, i),
        optional_number((flags & 2) != 0, data.edge_lengths@, i),
    ) {
        (
            Some(geometry),
            Some(midpoint),
            Some(tangent),
            Some(outward_direction),
            Some(length),
        ) => Some(
            EdgeFactsView {
                token,
                geometry,
                midpoint,
                tangent,
                outward_direction,
                length,
                vertices,
                closed: (flags & 4) != 0,
                degenerate: (flags & 8) != 0,
                seam: (flags & 16) != 0,
                manifold: (flags & 32) != 0,
            },
        ),
        _ => None,
    }
}

/// The facts of all edges can be read.
pub open spec fn edge_facts_are_readable(
    data: TopologyData,
    tokens: Seq<TopologyOccurrenceToken>,
    edge_vertices: Seq<Seq<u32>>,
    options: TopologyQueryOptions,
) -> bool {
    &&& options.any() ==> edge_lists_fit(data, tokens.len())
    &&& forall|i: int|
        0 <= i < tokens.len() ==> #[trigger] edge_facts_at(
            data,
            tokens[i],
            edge_vertices[i],
            i,
        ) is Some
}

/// The facts of all edges.
pub open spec fn edge_facts_list(
    data: TopologyData,
    tokens: Seq<TopologyOccurrenceToken>,
    edge_vertices: Seq<Seq<u32>>,
) -> Seq<EdgeFactsView> {
    Seq::new(
        tokens.len(),
        |i: int| edge_facts_at(data, tokens[i], edge_vertices[i], i).unwrap(),
    )
}

/// What a list of edge facts says.
pub open spec fn edge_facts_contents(facts: Seq<EdgeTopologyFacts>) -> Seq<EdgeFactsView> {
    facts.map_values(|fact: EdgeTopologyFacts| fact@)
}

/// Decode the facts of edge `index`.
fn decode_edge(
    data: &TopologyData,
    token: TopologyOccurrenceToken,
    vertices: &Vec<u32>,
    index: usize,
) -> (facts: Result<EdgeTopologyFacts, Error>)
    ensures
        match edge_facts_at(*data, token, vertices@, index as int) {
            Some(expected) => facts matches Ok(found) && found@ == expected,
            None => crate::error::fails_with(facts, ErrorView::TopologyQueryFailed),
        },
{
    let flags: u32 = read_flags(&data.edge_fact_flags, index);
    let geometry = if index < data.edge_geometry_kinds.len() {
        match decode_curve_kind(data.edge_geometry_kinds[index]) {
            Ok(kind) => kind,
            Err(error) => return Err(error),
        }
    } else {
        None
    };
    let midpoint = match read_optional_point((flags & 1) != 0, &data.edge_points, index) {
        Ok(point) => point,
        Err(error) => return Err(error),
    };
    let tangent = match read_optional_point((flags & 1) != 0, &data.edge_tangents, index) {
        Ok(point) => point,
        Err(error) => return Err(error),
    };
    let outward_direction = match read_optional_point(
        (flags & 64) != 0,
        &data.edge_directions,
        index,
    ) {
        Ok(point) => point,
        Err(error) => return Err(error),
    };
    let length = match read_optional_number((flags & 2) != 0, &data.edge_lengths, index) {
        Ok(number) => number,
        Err(error) => return Err(error),
    };
    Ok(
        EdgeTopologyFacts {
            token,
            geometry,
            midpoint,
            tangent,
            outward_direction,
            length,
            vertices: crate::topology::copied(vertices),
            closed: (flags & 4) != 0,
            degenerate: (flags & 8) != 0,
            seam: (flags & 16) != 0,
            manifold: (flags & 32) != 0,
        },
    )
}

/// Decode the facts of all edges.
pub fn decode_edge_facts(
    data: &TopologyData,
    tokens: &[TopologyOccurrenceToken],
    edge_vertices: &[Vec<u32>],
    options: TopologyQueryOptions,
) -> (facts: Result<Vec<EdgeTopologyFacts>, Error>)
    requires
        edge_vertices@.len() >= tokens@.len(),
    ensures
        facts is Ok <==> edge_facts_are_readable(
            *data,
            tokens@,
            contents(edge_vertices@),
            options,
        ),
        facts matches Ok(list) ==> edge_facts_contents(list@) == edge_facts_list(
            *data,
            tokens@,
            contents(edge_vertices@),
        ),
        facts matches Err(error) ==> error@ == ErrorView::TopologyQueryFailed,
{
    let count: usize = tokens.len();
    if (options.frames || options.measurements || options.geometry) && (
    data.edge_geometry_kinds.len() != count || data.edge_fact_flags.len() != count
        || !holds_triples(&data.edge_points, count) || !holds_triples(&data.edge_tangents, count)
        || !holds_triples(&data.edge_directions, count) || data.edge_lengths.len() != count) {
        return Err(Error::TopologyQueryFailed);
    }
    let ghost vertices = contents(edge_vertices@);
    let ghost all = edge_facts_list(*data, tokens@, vertices);
    let mut list: Vec<EdgeTopologyFacts> = Vec::with_capacity(count);
    let mut next: usize = 0;
    while next < count
        invariant
            next <= count == tokens@.len() <= edge_vertices@.len(),
            vertices == contents(edge_vertices@),
            all == edge_facts_list(*data, tokens@, vertices),
            edge_facts_contents(list@) == all.take(next as int),
            forall|i: int|
                0 <= i < next ==> #[trigger] edge_facts_at(
                    *data,
                    tokens@[i],
                    vertices[i],
                    i,
                ) is Some,
        decreases count - next,
    {
        assert(vertices[next as int] == edge_vertices@[next as int]@);
        match decode_edge(data, tokens[next], &edge_vertices[next], next) {
            Ok(facts) => {
                proof {
                    assert(all.take(next + 1) =~= all.take(next as int).push(facts@));
                    assert(edge_facts_contents(list@.push(facts)) =~= edge_facts_contents(
                        list@,
                    ).push(facts@));
                }
                list.push(facts);
            },
            Err(error) => {
                assert(edge_facts_at(
                    *data,
                    tokens@[next as int],
                    vertices[next as int],
                    next as int,
                ) is None);
                return Err(error);
            },
        }
        next += 1;
    }
    assert(all.take(next as int) =~= all);
    Ok(list)
}

/// The facts of vertex `i`, if they can be read.
pub open spec fn vertex_facts_at(
    data: TopologyData,
    token: TopologyOccurrenceToken,
    i: int,
) -> Option<VertexTopologyFacts> {
    match optional_point(
        (flags_of(data.vertex_fact_flags@, i) & 1) != 0,
        data.vertex_points@,
        i,
    ) {
        Some(point) => Some(VertexTopologyFacts { token, point }),
        None => None,
    }
}

/// The facts of all vertices can be read.
pub open spec fn vertex_facts_are_readable(
    data: TopologyData,
    tokens: Seq<TopologyOccurrenceToken>,
    options: TopologyQueryOptions,
) -> bool {
    &&& options.frames ==> data.vertex_fact_flags@.len() == tokens.len()
        && data.vertex_points@.len() == tokens.len() * 3
    &&& forall|i: int|
        0 <= i < tokens.len() ==> #[trigger] vertex_facts_at(data, tokens[i], i) is Some
}

/// The facts of all vertices.
pub open spec fn vertex_facts_list(
    data: TopologyData,
    tokens: Seq<TopologyOccurrenceToken>,
) -> Seq<VertexTopologyFacts> {
    Seq::new(tokens.len(), |i: int| vertex_facts_at(data, tokens[i], i).unwrap())
}

/// Decode the facts of all vertices.
pub fn decode_vertex_facts(
    data: &TopologyData,
    tokens: &[TopologyOccurrenceToken],
    options: TopologyQueryOptions,
) -> (facts: Result<Vec<VertexTopologyFacts>, Error>)
    ensures
        facts is Ok <==> vertex_facts_are_readable(*data, tokens@, options),
        facts matches Ok(list) ==> list@ == vertex_facts_list(*data, tokens@),
        facts matches Err(error) ==> error@ == ErrorView::TopologyQueryFailed,
{
    let count: usize = tokens.len();
    if options.frames && (data.vertex_fact_flags.len() != count || !holds_triples(
        &data.vertex_points,
        count,
    )) {
        return Err(Error::TopologyQueryFailed);
    }
    let ghost all = vertex_facts_list(*data, tokens@);
    let mut list: Vec<VertexTopologyFacts> = Vec::with_capacity(count);
    let mut next: usize = 0;
    while next < count
        invariant
            next <= count == tokens@.len(),
            all == vertex_facts_list(*data, tokens@),
            list@ == all.take(next as int),
            forall|i: int|
                0 <= i < next ==> #[trigger] vertex_facts_at(*data, tokens@[i], i) is Some,
        decreases count - next,
    {
        let flags: u32 = read_flags(&data.vertex_fact_flags, next);
        match read_optional_point((flags & 1) != 0, &data.vertex_points, next) {
            Ok(point) => {
                let facts = VertexTopologyFacts { token: tokens[next], point };
                assert(all.take(next + 1) =~= all.take(next as int).push(facts));
                list.push(facts);
            },
            Err(error) => {
                assert(vertex_facts_at(*data, tokens@[next as int], next as int) is None);
                return Err(error);
            },
        }
        next += 1;
    }
    assert(all.take(next as int) =~= all);
    Ok(list)
}

// ==================== Snapshots ====================

/// One artifact-local topology index produced in a single native traversal.
#[derive(Debug, PartialEq, Eq)]
pub struct TopologySnapshot {
    face_ids: Vec<u64>,
    edge_ids: Vec<u64>,
    vertex_ids: Vec<u64>,
    face_edges: Vec<Vec<u32>>,
    edge_faces: Vec<Vec<u32>>,
    edge_vertices: Vec<Vec<u32>>,
    face_facts: Vec<FaceTopologyFacts>,
    edge_facts: Vec<EdgeTopologyFacts>,
    vertex_facts: Vec<VertexTopologyFacts>,
}

/// What a [`TopologySnapshot`] holds.
pub struct SnapshotView {
    pub face_ids: Seq<u64>,
    pub edge_ids: Seq<u64>,
    pub vertex_ids: Seq<u64>,
    pub face_edges: Seq<Seq<u32>>,
    pub edge_faces: Seq<Seq<u32>>,
    pub edge_vertices: Seq<Seq<u32>>,
    pub face_facts: Seq<FaceTopologyFacts>,
    pub edge_facts: Seq<EdgeFactsView>,
    pub vertex_facts: Seq<VertexTopologyFacts>,
}

impl View for TopologySnapshot {
    type V = SnapshotView;

    closed spec fn view(&self) -> SnapshotView {
        SnapshotView {
            face_ids: self.face_ids@,
            edge_ids: self.edge_ids@,
            vertex_ids: self.vertex_ids@,
            face_edges: contents(self.face_edges@),
            edge_faces: contents(self.edge_faces@),
            edge_vertices: contents(self.edge_vertices@),
            face_facts: self.face_facts@,
            edge_facts: edge_facts_contents(self.edge_facts@),
            vertex_facts: self.vertex_facts@,
        }
    }
}

/// Each of `owners` entities has a list, and every listed index names one of `targets`.
pub open spec fn lists_name(lists: Seq<Seq<u32>>, owners: nat, targets: nat) -> bool {
    &&& lists.len() == owners
    &&& forall|i: int, j: int|
        0 <= i < lists.len() && 0 <= j < lists[i].len() ==> #[trigger] lists[i][j] < targets
}

/// The token of entity `i` names it by identity and ordinal.
pub open spec fn token_names(token: TopologyOccurrenceToken, ids: Seq<u64>, i: int) -> bool {
    token.tshape_id == ids[i] && token.ordinal == i
}

impl SnapshotView {
    /// Every entity has its adjacency and its facts, every index names an entity, every
    /// token names the entity whose facts it heads, and the vertices among the facts of an
    /// edge are those of its adjacency.
    pub open spec fn coherent(self) -> bool {
        &&& lists_name(self.face_edges, self.face_ids.len(), self.edge_ids.len())
        &&& lists_name(self.edge_faces, self.edge_ids.len(), self.face_ids.len())
        &&& lists_name(self.edge_vertices, self.edge_ids.len(), self.vertex_ids.len())
        &&& self.face_facts.len() == self.face_ids.len()
        &&& self.edge_facts.len() == self.edge_ids.len()
        &&& self.vertex_facts.len() == self.vertex_ids.len()
        &&& forall|i: int|
            0 <= i < self.face_facts.len() ==> token_names(
                (#[trigger] self.face_facts[i]).token,
                self.face_ids,
                i,
            )
        &&& forall|i: int|
            0 <= i < self.edge_facts.len() ==> token_names(
                (#[trigger] self.edge_facts[i]).token,
                self.edge_ids,
                i,
            )
        &&& forall|i: int|
            0 <= i < self.edge_facts.len() ==> (#[trigger] self.edge_facts[i]).vertices
                == self.edge_vertices[i]
        &&& forall|i: int|
            0 <= i < self.vertex_facts.len() ==> token_names(
                (#[trigger] self.vertex_facts[i]).token,
                self.vertex_ids,
                i,
            )
    }

    /// The identities of the entities of one kind.
    pub open spec fn ids(self, kind: TopologyKind) -> Seq<u64> {
        match kind {
            TopologyKind::Face => self.face_ids,
            TopologyKind::Edge => self.edge_ids,
            TopologyKind::Vertex => self.vertex_ids,
        }
    }
}

/// The tokens of the faces in native data.
pub open spec fn face_tokens(data: TopologyData) -> Seq<TopologyOccurrenceToken> {
    token_list(data.face_tshape_ids@, data.face_location_hashes@, data.face_orientations@)
}

/// The tokens of the edges in native data.
pub open spec fn edge_tokens(data: TopologyData) -> Seq<TopologyOccurrenceToken> {
    token_list(data.edge_tshape_ids@, data.edge_location_hashes@, data.edge_orientations@)
}

/// The tokens of the vertices in native data.
pub open spec fn vertex_tokens(data: TopologyData) -> Seq<TopologyOccurrenceToken> {
    token_list(data.vertex_tshape_ids@, data.vertex_location_hashes@, data.vertex_orientations@)
}

/// The vertices of the edges in native data.
pub open spec fn vertices_of_edges(data: TopologyData) -> Seq<Seq<u32>> {
    adjacency_lists(data.edge_vertex_offsets@, data.edge_vertex_indices@)
}

/// Native data from which a snapshot can be made.
pub open spec fn snapshot_is_readable(data: TopologyData, options: TopologyQueryOptions) -> bool {
    let faces = data.face_tshape_ids@.len();
    let edges = data.edge_tshape_ids@.len();
    let vertices = data.vertex_tshape_ids@.len();
    &&& adjacency_is_readable(data.face_edge_offsets@, data.face_edge_indices@, faces, edges)
    &&& adjacency_is_readable(data.edge_face_offsets@, data.edge_face_indices@, edges, faces)
    &&& adjacency_is_readable(
        data.edge_vertex_offsets@,
        data.edge_vertex_indices@,
        edges,
        vertices,
    )
    &&& tokens_are_readable(
        data.face_tshape_ids@,
        data.face_location_hashes@,
        data.face_orientations@,
    )
    &&& tokens_are_readable(
        data.edge_tshape_ids@,
        data.edge_location_hashes@,
        data.edge_orientations@,
    )
    &&& tokens_are_readable(
        data.vertex_tshape_ids@,
        data.vertex_location_hashes@,
        data.vertex_orientations@,
    )
    &&& face_facts_are_readable(data, face_tokens(data), options)
    &&& edge_facts_are_readable(data, edge_tokens(data), vertices_of_edges(data), options)
    &&& vertex_facts_are_readable(data, vertex_tokens(data), options)
}

/// The snapshot that readable native data describe.
pub open spec fn snapshot_of(data: TopologyData) -> SnapshotView {
    SnapshotView {
        face_ids: data.face_tshape_ids@,
        edge_ids: data.edge_tshape_ids@,
        vertex_ids: data.vertex_tshape_ids@,
        face_edges: adjacency_lists(data.face_edge_offsets@, data.face_edge_indices@),
        edge_faces: adjacency_lists(data.edge_face_offsets@, data.edge_face_indices@),
        edge_vertices: vertices_of_edges(data),
        face_facts: face_facts_list(data, face_tokens(data)),
        edge_facts: edge_facts_list(data, edge_tokens(data), vertices_of_edges(data)),
        vertex_facts: vertex_facts_list(data, vertex_tokens(data)),
    }
}

proof fn readable_lists_name(offsets: Seq<u32>, indices: Seq<u32>, owners: nat, targets: nat)
    requires
        adjacency_is_readable(offsets, indices, owners, targets),
    ensures
        lists_name(adjacency_lists(offsets, indices), owners, targets),
{
    let lists = adjacency_lists(offsets, indices);
    assert forall|i: int, j: int|
        0 <= i < lists.len() && 0 <= j < lists[i].len() implies #[trigger] lists[i][j]
        < targets by {
        assert(offsets[i] <= offsets[i + 1] <= indices.len());
        assert(lists[i][j] == indices[offsets[i] + j]);
    }
}

/// A snapshot of readable data is coherent, whatever was requested.
pub proof fn readable_snapshots_are_coherent(data: TopologyData, options: TopologyQueryOptions)
    requires
        snapshot_is_readable(data, options),
    ensures
        snapshot_of(data).coherent(),
{
    let faces = data.face_tshape_ids@.len();
    let edges = data.edge_tshape_ids@.len();
    let vertices = data.vertex_tshape_ids@.len();
    readable_lists_name(data.face_edge_offsets@, data.face_edge_indices@, faces, edges);
    readable_lists_name(data.edge_face_offsets@, data.edge_face_indices@, edges, faces);
    readable_lists_name(data.edge_vertex_offsets@, data.edge_vertex_indices@, edges, vertices);
    let view = snapshot_of(data);
    assert forall|i: int| 0 <= i < view.face_facts.len() implies token_names(
        (#[trigger] view.face_facts[i]).token,
        view.face_ids,
        i,
    ) by {
        assert(face_facts_at(data, face_tokens(data)[i], i) is Some);
    }
    assert forall|i: int| 0 <= i < view.edge_facts.len() implies token_names(
        (#[trigger] view.edge_facts[i]).token,
        view.edge_ids,
        i,
    ) && view.edge_facts[i].vertices == view.edge_vertices[i] by {
        assert(edge_facts_at(
            data,
            edge_tokens(data)[i],
            vertices_of_edges(data)[i],
            i,
        ) is Some);
    }
    assert forall|i: int| 0 <= i < view.vertex_facts.len() implies token_names(
        (#[trigger] view.vertex_facts[i]).token,
        view.vertex_ids,
        i,
    ) by {
        assert(vertex_facts_at(data, vertex_tokens(data)[i], i) is Some);
    }
}

/// Make a snapshot of native data.
pub fn decode_snapshot(data: TopologyData, options: TopologyQueryOptions) -> (snapshot: Result<
    TopologySnapshot,
    Error,
>)
    ensures
        snapshot is Ok <==> snapshot_is_readable(data, options),
        snapshot matches Ok(made) ==> made@ == snapshot_of(data),
        snapshot matches Err(error) ==> error@ == ErrorView::TopologyQueryFailed,
{
    let face_edges = match decode_adjacency(
        data.face_edge_offsets.as_slice(),
        data.face_edge_indices.as_slice(),
        data.face_tshape_ids.len(),
        data.edge_tshape_ids.len(),
    ) {
        Ok(lists) => lists,
        Err(error) => return Err(error),
    };
    let edge_faces = match decode_adjacency(
        data.edge_face_offsets.as_slice(),
        data.edge_face_indices.as_slice(),
        data.edge_tshape_ids.len(),
        data.face_tshape_ids.len(),
    ) {
        Ok(lists) => lists,
        Err(error) => return Err(error),
    };
    let edge_vertices = match decode_adjacency(
        data.edge_vertex_offsets.as_slice(),
        data.edge_vertex_indices.as_slice(),
        data.edge_tshape_ids.len(),
        data.vertex_tshape_ids.len(),
    ) {
        Ok(lists) => lists,
        Err(error) => return Err(error),
    };
    let face_tokens = match decode_tokens(
        data.face_tshape_ids.as_slice(),
        data.face_location_hashes.as_slice(),
        data.face_orientations.as_slice(),
    ) {
        Ok(tokens) => tokens,
        Err(error) => return Err(error),
    };
    let edge_tokens = match decode_tokens(
        data.edge_tshape_ids.as_slice(),
        data.edge_location_hashes.as_slice(),
        data.edge_orientations.as_slice(),
    ) {
        Ok(tokens) => tokens,
        Err(error) => return Err(error),
    };
    let vertex_tokens = match decode_tokens(
        data.vertex_tshape_ids.as_slice(),
        data.vertex_location_hashes.as_slice(),
        data.vertex_orientations.as_slice(),
    ) {
        Ok(tokens) => tokens,
        Err(error) => return Err(error),
    };
    let face_facts = match decode_face_facts(&data, face_tokens.as_slice(), options) {
        Ok(facts) => facts,
        Err(error) => return Err(error),
    };
    assert(contents(edge_vertices@).len() == edge_vertices@.len());
    let edge_facts = match decode_edge_facts(
        &data,
        edge_tokens.as_slice(),
        edge_vertices.as_slice(),
        options,
    ) {
        Ok(facts) => facts,
        Err(error) => return Err(error),
    };
    let vertex_facts = match decode_vertex_facts(&data, vertex_tokens.as_slice(), options) {
        Ok(facts) => facts,
        Err(error) => return Err(error),
    };
    proof {
        readable_snapshots_are_coherent(data, options);
    }
    Ok(
        TopologySnapshot {
            face_ids: data.face_tshape_ids,
            edge_ids: data.edge_tshape_ids,
            vertex_ids: data.vertex_tshape_ids,
            face_edges,
            edge_faces,
            edge_vertices,
            face_facts,
            edge_facts,
            vertex_facts,
        },
    )
}

/// What a traversal whose native answer was `data` comes to.
pub open spec fn snapshot_answer<D: FnOnce(Error, &'static str, &'static str) -> Error>(
    snapshot: Result<TopologySnapshot, Error>,
    data: TopologyData,
    options: TopologyQueryOptions,
    diagnose: D,
) -> bool {
    if !data.success {
        snapshot matches Err(error) && crate::error::diagnosed(
            diagnose,
            ErrorView::TopologyQueryFailed,
            "topology snapshot",
            "topology_snapshot",
            error,
        )
    } else if snapshot_is_readable(data, options) {
        snapshot matches Ok(made) && made@ == snapshot_of(data)
    } else {
        crate::error::fails_with(snapshot, ErrorView::TopologyQueryFailed)
    }
}

/// Traverse `shape` natively and make a snapshot of the answer.
pub fn topology_snapshot_from_shape_with_options<H, Q, D>(
    shape: &H,
    options: TopologyQueryOptions,
    query: Q,
    diagnose: D,
) -> (snapshot: Result<TopologySnapshot, Error>) where
    Q: FnOnce(&H, u32) -> TopologyData,
    D: FnOnce(Error, &'static str, &'static str) -> Error,

    requires
        call_requires(query, (shape, options.flag_sum() as u32)),
        crate::error::diagnoses(diagnose, "topology snapshot", "topology_snapshot"),
    ensures
        exists|data: TopologyData| #[trigger]
            call_ensures(query, (shape, options.flag_sum() as u32), data) && snapshot_answer(
                snapshot,
                data,
                options,
                diagnose,
            ),
{
    let bits: u32 = options.bits();
    let data = query(shape, bits);
    assert(call_ensures(query, (shape, options.flag_sum() as u32), data));
    if !data.success {
        return Err(
            diagnose(Error::TopologyQueryFailed, "topology snapshot", "topology_snapshot"),
        );
    }
    decode_snapshot(data, options)
}

/// Traverse `shape` natively for identities and adjacency alone.
pub fn topology_snapshot_from_shape<H, Q, D>(shape: &H, query: Q, diagnose: D) -> (snapshot: Result<
    TopologySnapshot,
    Error,
>) where
    Q: FnOnce(&H, u32) -> TopologyData,
    D: FnOnce(Error, &'static str, &'static str) -> Error,

    requires
        call_requires(query, (shape, 0u32)),
        crate::error::diagnoses(diagnose, "topology snapshot", "topology_snapshot"),
    ensures
        exists|data: TopologyData| #[trigger]
            call_ensures(query, (shape, 0u32), data) && snapshot_answer(
                snapshot,
                data,
                (TopologyQueryOptions { frames: false, measurements: false, geometry: false }),
                diagnose,
            ),
{
    topology_snapshot_from_shape_with_options(
        shape,
        TopologyQueryOptions::default(),
        query,
        diagnose,
    )
}

impl TopologySnapshot {
    #[verifier::type_invariant]
    spec fn well_formed(self) -> bool {
        self@.coherent()
    }

    /// The identities of the faces.
    pub fn face_ids(&self) -> (ids: &[u64])
        ensures
            ids@ == self@.face_ids,
    {
        self.face_ids.as_slice()
    }

    /// The identities of the edges.
    pub fn edge_ids(&self) -> (ids: &[u64])
        ensures
            ids@ == self@.edge_ids,
    {
        self.edge_ids.as_slice()
    }

    /// The identities of the vertices.
    pub fn vertex_ids(&self) -> (ids: &[u64])
        ensures
            ids@ == self@.vertex_ids,
    {
        self.vertex_ids.as_slice()
    }

    /// The edges around a face, by their indices.
    pub fn face_edges(&self, face: u32) -> (edges: Option<&[u32]>)
        ensures
            edges is Some <==> face < self@.face_ids.len(),
            edges matches Some(list) ==> {
                &&& list@ == self@.face_edges[face as int]
                &&& forall|i: int|
                    0 <= i < list@.len() ==> #[trigger] list@[i] < self@.edge_ids.len()
            },
    {
        proof {
            use_type_invariant(self);
            neighbours_are_named(
                self@.face_edges,
                self@.face_ids.len(),
                self@.edge_ids.len(),
                face as int,
            );
        }
        if (face as usize) < self.face_edges.len() {
            assert(self@.face_edges[face as int] == self.face_edges@[face as int]@);
            Some(self.face_edges[face as usize].as_slice())
        } else {
            None
        }
    }

    /// The faces at an edge, by their indices.
    pub fn edge_faces(&self, edge: u32) -> (faces: Option<&[u32]>)
        ensures
            faces is Some <==> edge < self@.edge_ids.len(),
            faces matches Some(list) ==> {
                &&& list@ == self@.edge_faces[edge as int]
                &&& forall|i: int|
                    0 <= i < list@.len() ==> #[trigger] list@[i] < self@.face_ids.len()
            },
    {
        proof {
            use_type_invariant(self);
            neighbours_are_named(
                self@.edge_faces,
                self@.edge_ids.len(),
                self@.face_ids.len(),
                edge as int,
            );
        }
        if (edge as usize) < self.edge_faces.len() {
            assert(self@.edge_faces[edge as int] == self.edge_faces@[edge as int]@);
            Some(self.edge_faces[edge as usize].as_slice())
        } else {
            None
        }
    }

    /// The vertices of an edge, by their indices.
    pub fn edge_vertices(&self, edge: u32) -> (vertices: Option<&[u32]>)
        ensures
            vertices is Some <==> edge < self@.edge_ids.len(),
            vertices matches Some(list) ==> {
                &&& list@ == self@.edge_vertices[edge as int]
                &&& forall|i: int|
                    0 <= i < list@.len() ==> #[trigger] list@[i] < self@.vertex_ids.len()
            },
    {
        proof {
            use_type_invariant(self);
            neighbours_are_named(
                self@.edge_vertices,
                self@.edge_ids.len(),
                self@.vertex_ids.len(),
                edge as int,
            );
        }
        if (edge as usize) < self.edge_vertices.len() {
            assert(self@.edge_vertices[edge as int] == self.edge_vertices@[edge as int]@);
            Some(self.edge_vertices[edge as usize].as_slice())
        } else {
            None
        }
    }

    /// The facts of a face.
    pub fn face_facts(&self, face: u32) -> (facts: Option<&FaceTopologyFacts>)
        ensures
            facts is Some <==> face < self@.face_ids.len(),
            facts matches Some(found) ==> {
                &&& *found == self@.face_facts[face as int]
                &&& token_names(found.token, self@.face_ids, face as int)
            },
    {
        proof {
            use_type_invariant(self);
        }
        if (face as usize) < self.face_facts.len() {
            Some(&self.face_facts[face as usize])
        } else {
            None
        }
    }

    /// The facts of an edge.
    pub fn edge_facts(&self, edge: u32) -> (facts: Option<&EdgeTopologyFacts>)
        ensures
            facts is Some <==> edge < self@.edge_ids.len(),
            facts matches Some(found) ==> {
                &&& found@ == self@.edge_facts[edge as int]
                &&& token_names(found.token, self@.edge_ids, edge as int)
                &&& found.vertices@ == self@.edge_vertices[edge as int]
            },
    {
        proof {
            use_type_invariant(self);
        }
        if (edge as usize) < self.edge_facts.len() {
            assert(self@.edge_facts[edge as int] == self.edge_facts@[edge as int]@);
            Some(&self.edge_facts[edge as usize])
        } else {
            None
        }
    }

    /// The facts of a vertex.
    pub fn vertex_facts(&self, vertex: u32) -> (facts: Option<&VertexTopologyFacts>)
        ensures
            facts is Some <==> vertex < self@.vertex_ids.len(),
            facts matches Some(found) ==> {
                &&& *found == self@.vertex_facts[vertex as int]
                &&& token_names(found.token, self@.vertex_ids, vertex as int)
            },
    {
        proof {
            use_type_invariant(self);
        }
        if (vertex as usize) < self.vertex_facts.len() {
            Some(&self.vertex_facts[vertex as usize])
        } else {
            None
        }
    }

    /// The identities of the entities of one kind.
    pub fn ids(&self, kind: TopologyKind) -> (ids: &[u64])
        ensures
            ids@ == self@.ids(kind),
    {
        match kind {
            TopologyKind::Face => self.face_ids(),
            TopologyKind::Edge => self.edge_ids(),
            TopologyKind::Vertex => self.vertex_ids(),
        }
    }
}

/// The same nested lists.
fn copied_lists(lists: &Vec<Vec<u32>>) -> (copy: Vec<Vec<u32>>)
    ensures
        contents(copy@) == contents(lists@),
{
    let mut copy: Vec<Vec<u32>> = Vec::with_capacity(lists.len());
    let mut next: usize = 0;
    while next < lists.len()
        invariant
            next <= lists.len(),
            copy@.len() == next,
            forall|i: int| 0 <= i < next ==> #[trigger] copy@[i]@ == lists@[i]@,
        decreases lists.len() - next,
    {
        copy.push(crate::topology::copied(&lists[next]));
        next += 1;
    }
    assert(contents(copy@) =~= contents(lists@));
    copy
}

/// The same facts of edges.
fn copied_edge_facts(facts: &Vec<EdgeTopologyFacts>) -> (copy: Vec<EdgeTopologyFacts>)
    ensures
        edge_facts_contents(copy@) == edge_facts_contents(facts@),
{
    let mut copy: Vec<EdgeTopologyFacts> = Vec::with_capacity(facts.len());
    let mut next: usize = 0;
    while next < facts.len()
        invariant
            next <= facts.len(),
            copy@.len() == next,
            forall|i: int| 0 <= i < next ==> #[trigger] copy@[i]@ == facts@[i]@,
        decreases facts.len() - next,
    {
        copy.push(facts[next].clone());
        next += 1;
    }
    assert(edge_facts_contents(copy@) =~= edge_facts_contents(facts@));
    copy
}

impl Clone for TopologySnapshot {
    fn clone(&self) -> (copy: TopologySnapshot)
        ensures
            copy@ == self@,
    {
        proof {
            use_type_invariant(self);
        }
        let face_ids = crate::topology::copied(&self.face_ids);
        let edge_ids = crate::topology::copied(&self.edge_ids);
        let vertex_ids = crate::topology::copied(&self.vertex_ids);
        let face_edges = copied_lists(&self.face_edges);
        let edge_faces = copied_lists(&self.edge_faces);
        let edge_vertices = copied_lists(&self.edge_vertices);
        let face_facts = crate::topology::copied(&self.face_facts);
        let edge_facts = copied_edge_facts(&self.edge_facts);
        let vertex_facts = crate::topology::copied(&self.vertex_facts);
        TopologySnapshot {
            face_ids,
            edge_ids,
            vertex_ids,
            face_edges,
            edge_faces,
            edge_vertices,
            face_facts,
            edge_facts,
            vertex_facts,
        }
    }
}

proof fn neighbours_are_named(lists: Seq<Seq<u32>>, owners: nat, targets: nat, i: int)
    requires
        lists_name(lists, owners, targets),
    ensures
        0 <= i < owners ==> forall|j: int|
            0 <= j < lists[i].len() ==> #[trigger] lists[i][j] < targets,
{
}

} // verus!
