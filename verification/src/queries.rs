//! Exact queries on solids.

use crate::error::Error;
use crate::error::ErrorView;
use crate::kernel::DistanceData;
use crate::kernel::TopologyData;
use crate::kernel::ValidationData;
use crate::number::Real;
use crate::number::Vec3;
use crate::snapshot::topology_snapshot_from_shape;
use crate::snapshot::topology_snapshot_from_shape_with_options;
use crate::snapshot::TopologyQueryOptions;
use crate::snapshot::TopologySnapshot;
use crate::solid::Solid;
use crate::topology::ResultTopology;
use vstd::prelude::*;

verus! {

/// Exact analysis of one solid.
#[derive(Clone, Copy, Debug, PartialEq, Eq, Structural)]
pub struct ValidationReport {
    pub valid: bool,
    pub invalid_faces: u32,
    pub invalid_edges: u32,
    pub invalid_vertices: u32,
}

/// Exact minimum distance and witness points between two topology entities.
#[derive(Clone, Copy, Debug, PartialEq, Eq, Structural)]
pub struct TopologyDistance {
    pub distance: Real,
    pub first_point: Vec3,
    pub second_point: Vec3,
}

/// A matrix by its columns.
#[derive(Clone, Copy, Debug, PartialEq, Eq, Structural)]
pub struct Mat3 {
    pub x_axis: Vec3,
    pub y_axis: Vec3,
    pub z_axis: Vec3,
}

impl Mat3 {
    /// The matrix with the given rows.
    pub open spec fn of_rows(rows: [Vec3; 3]) -> Mat3 {
        Mat3 {
            x_axis: Vec3 { x: rows@[0].x, y: rows@[1].x, z: rows@[2].x },
            y_axis: Vec3 { x: rows@[0].y, y: rows@[1].y, z: rows@[2].y },
            z_axis: Vec3 { x: rows@[0].z, y: rows@[1].z, z: rows@[2].z },
        }
    }

    /// The matrix with the given rows.
    pub fn from_rows(rows: [Vec3; 3]) -> (matrix: Mat3)
        ensures
            matrix == Mat3::of_rows(rows),
    {
        Mat3 {
            x_axis: Vec3 { x: rows[0].x, y: rows[1].x, z: rows[2].x },
            y_axis: Vec3 { x: rows[0].y, y: rows[1].y, z: rows[2].y },
            z_axis: Vec3 { x: rows[0].z, y: rows[1].z, z: rows[2].z },
        }
    }
}

/// What the answer of a native distance query comes to.
pub open spec fn distance_answer<D: FnOnce(Error, &'static str, &'static str) -> Error>(
    result: Result<TopologyDistance, Error>,
    data: DistanceData,
    diagnose: D,
) -> bool {
    if data.success {
        result == Ok::<TopologyDistance, Error>(
            TopologyDistance {
                distance: data.distance,
                first_point: data.first_point,
                second_point: data.second_point,
            },
        )
    } else {
        result matches Err(error) && crate::error::diagnosed(
            diagnose,
            ErrorView::TopologyQueryFailed,
            "topology distance",
            "native",
            error,
        )
    }
}

/// What the answer of the native analyzer comes to.
pub open spec fn validation_answer<D: FnOnce(Error, &'static str, &'static str) -> Error>(
    result: Result<ValidationReport, Error>,
    data: ValidationData,
    diagnose: D,
) -> bool {
    if data.success {
        result == Ok::<ValidationReport, Error>(
            ValidationReport {
                valid: data.valid,
                invalid_faces: data.invalid_faces,
                invalid_edges: data.invalid_edges,
                invalid_vertices: data.invalid_vertices,
            },
        )
    } else {
        result matches Err(error) && crate::error::diagnosed(
            diagnose,
            ErrorView::TopologyQueryFailed,
            "validate shape",
            "validate_result",
            error,
        )
    }
}

/// The pairs of a flat list; a number short of a pair drops out.
pub open spec fn flat_pairs(values: Seq<u32>) -> Seq<(u32, u32)> {
    Seq::new((values.len() / 2) as nat, |i: int| (values[2 * i], values[2 * i + 1]))
}

/// Read the pairs of a flat list.
pub fn read_pairs(values: &Vec<u32>) -> (pairs: Vec<(u32, u32)>)
    ensures
        pairs@ == flat_pairs(values@),
{
    let count: usize = values.len() / 2;
    let mut pairs: Vec<(u32, u32)> = Vec::with_capacity(count);
    let mut next: usize = 0;
    while next < count
        invariant
            next <= count == values.len() / 2,
            pairs@ == flat_pairs(values@).take(next as int),
        decreases count - next,
    {
        pairs.push((values[2 * next], values[2 * next + 1]));
        assert(pairs@ =~= flat_pairs(values@).take(next + 1));
        next += 1;
    }
    assert(pairs@ =~= flat_pairs(values@));
    pairs
}

impl<H> Solid<H> {
    /// Query identities and adjacency in one traversal.
    pub fn topology_snapshot<Q, D>(&self, query: Q, diagnose: D) -> (snapshot: Result<
        TopologySnapshot,
        Error,
    >) where
        Q: FnOnce(&H, u32) -> TopologyData,
        D: FnOnce(Error, &'static str, &'static str) -> Error,

        requires
            call_requires(query, (&self@.shape.handle, 0u32)),
            crate::error::diagnoses(diagnose, "topology snapshot", "topology_snapshot"),
        ensures
            exists|data: TopologyData| #[trigger]
                call_ensures(query, (&self@.shape.handle, 0u32), data)
                    && crate::snapshot::snapshot_answer(
                    snapshot,
                    data,
                    (TopologyQueryOptions { frames: false, measurements: false, geometry: false }),
                    diagnose,
                ),
    {
        topology_snapshot_from_shape(self.inner(), query, diagnose)
    }

    /// Query occurrence-aware topology and the requested facts in one traversal.
    pub fn topology_snapshot_with_options<Q, D>(
        &self,
        options: TopologyQueryOptions,
        query: Q,
        diagnose: D,
    ) -> (snapshot: Result<TopologySnapshot, Error>) where
        Q: FnOnce(&H, u32) -> TopologyData,
        D: FnOnce(Error, &'static str, &'static str) -> Error,

        requires
            call_requires(query, (&self@.shape.handle, options.flag_sum() as u32)),
            crate::error::diagnoses(diagnose, "topology snapshot", "topology_snapshot"),
        ensures
            exists|data: TopologyData| #[trigger]
                call_ensures(query, (&self@.shape.handle, options.flag_sum() as u32), data)
                    && crate::snapshot::snapshot_answer(snapshot, data, options, diagnose),
    {
        topology_snapshot_from_shape_with_options(self.inner(), options, query, diagnose)
    }

    /// The exact closest points between an entity of this solid and one of another.
    pub fn topology_distance<Q, D>(
        &self,
        first: ResultTopology,
        other: &Solid<H>,
        second: ResultTopology,
        query: Q,
        diagnose: D,
    ) -> (result: Result<TopologyDistance, Error>) where
        Q: FnOnce(&H, u32, u32, &H, u32, u32) -> DistanceData,
        D: FnOnce(Error, &'static str, &'static str) -> Error,

        requires
            call_requires(
                query,
                (
                    &self@.shape.handle,
                    first.kind.number(),
                    first.index,
                    &other@.shape.handle,
                    second.kind.number(),
                    second.index,
                ),
            ),
            crate::error::diagnoses(diagnose, "topology distance", "native"),
        ensures
            exists|data: DistanceData| #[trigger]
                call_ensures(
                    query,
                    (
                        &self@.shape.handle,
                        first.kind.number(),
                        first.index,
                        &other@.shape.handle,
                        second.kind.number(),
                        second.index,
                    ),
                    data,
                ) && distance_answer(result, data, diagnose),
    {
        let first_kind: u32 = first.kind.code();
        let second_kind: u32 = second.kind.code();
        let data = query(
            self.inner(),
            first_kind,
            first.index,
            other.inner(),
            second_kind,
            second.index,
        );
        if !data.success {
            return Err(diagnose(Error::TopologyQueryFailed, "topology distance", "native"));
        }
        Ok(
            TopologyDistance {
                distance: data.distance,
                first_point: data.first_point,
                second_point: data.second_point,
            },
        )
    }

    /// Analyze the solid exactly and report the numbers of invalid entities.
    pub fn validate<Q, D>(&self, analyze: Q, diagnose: D) -> (result: Result<
        ValidationReport,
        Error,
    >) where
        Q: FnOnce(&H) -> ValidationData,
        D: FnOnce(Error, &'static str, &'static str) -> Error,

        requires
            call_requires(analyze, (&self@.shape.handle,)),
            crate::error::diagnoses(diagnose, "validate shape", "validate_result"),
        ensures
            exists|data: ValidationData| #[trigger]
                call_ensures(analyze, (&self@.shape.handle,), data) && validation_answer(
                    result,
                    data,
                    diagnose,
                ),
    {
        let data = analyze(self.inner());
        assert(call_ensures(analyze, (&self@.shape.handle,), data));
        if !data.success {
            return Err(diagnose(Error::TopologyQueryFailed, "validate shape", "validate_result"));
        }
        Ok(
            ValidationReport {
                valid: data.valid,
                invalid_faces: data.invalid_faces,
                invalid_edges: data.invalid_edges,
                invalid_vertices: data.invalid_vertices,
            },
        )
    }

    /// The inertia tensor; the kernel gives it row by row.
    pub fn inertia<Q>(&self, query: Q) -> (tensor: Mat3) where Q: FnOnce(&H) -> [Vec3; 3]
        requires
            call_requires(query, (&self@.shape.handle,)),
        ensures
            exists|rows: [Vec3; 3]| #[trigger]
                call_ensures(query, (&self@.shape.handle,), rows) && tensor == Mat3::of_rows(rows),
    {
        let rows = query(self.inner());
        assert(call_ensures(query, (&self@.shape.handle,), rows));
        Mat3::from_rows(rows)
    }

    /// The pairs of faces of this solid and another that are the same occurrence. These are
    /// process-local, not persistent.
    pub fn shared_face_indices<Q>(&self, other: &Solid<H>, query: Q) -> (pairs: Vec<
        (u32, u32),
    >) where Q: FnOnce(&H, &H) -> Vec<u32>
        requires
            call_requires(query, (&self@.shape.handle, &other@.shape.handle)),
        ensures
            exists|flat: Vec<u32>| #[trigger]
                call_ensures(query, (&self@.shape.handle, &other@.shape.handle), flat) && pairs@
                    == flat_pairs(flat@),
    {
        let flat = query(self.inner(), other.inner());
        assert(call_ensures(query, (&self@.shape.handle, &other@.shape.handle), flat));
        read_pairs(&flat)
    }
}

} // verus!
