//! Queries: what the native side is asked, and how its answer is told.

use crate::error::Error;
use crate::error::ErrorView;
use crate::kernel::DistanceData;
use crate::kernel::TopologyData;
use crate::kernel::ValidationData;
use crate::number::Vec3;
use crate::queries::Mat3;
use crate::queries::TopologyDistance;
use crate::queries::ValidationReport;
use crate::snapshot::TopologyQueryOptions;
use crate::snapshot::TopologySnapshot;
use crate::solid::Solid;
use crate::topology::ResultTopology;
use vstd::prelude::*;

verus! {

/// Snapshots of a solid are those of its shape.
pub proof fn snapshots_are_of_the_solid<
    H,
    Q: FnOnce(&H, u32) -> TopologyData,
    D: FnOnce(Error, &'static str, &'static str) -> Error,
>(
    solid: Solid<H>,
    options: TopologyQueryOptions,
    query: Q,
    diagnose: D,
    snapshot: Result<TopologySnapshot, Error>,
)
    requires
        call_ensures(
            Solid::<H>::topology_snapshot_with_options::<Q, D>,
            (&solid, options, query, diagnose),
            snapshot,
        ) || (!crate::laws::snapshots::asks(options) && call_ensures(
            Solid::<H>::topology_snapshot::<Q, D>,
            (&solid, query, diagnose),
            snapshot,
        )),
    ensures
        exists|bits: u32, data: TopologyData|
            crate::laws::snapshots::requests(bits, options) && #[trigger] call_ensures(
                query,
                (&solid@.shape.handle, bits),
                data,
            ) && crate::laws::snapshots::comes_of_traversal(snapshot, data, options, diagnose),
{
    crate::laws::snapshots::requests_are_sums(options);
    let bits = options.flag_sum() as u32;
    let data = choose|data: TopologyData| #[trigger]
        call_ensures(query, (&solid@.shape.handle, bits), data)
            && crate::snapshot::snapshot_answer(snapshot, data, options, diagnose);
    crate::laws::snapshots::answers_come_of_traversals(snapshot, data, options, diagnose);
    assert(call_ensures(query, (&solid@.shape.handle, bits), data));
}

/// A distance is asked between the two entities, each by the number of its kind and its
/// index behind its own solid, and told as the native side answers.
pub proof fn distances_are_between_the_entities<
    H,
    Q: FnOnce(&H, u32, u32, &H, u32, u32) -> DistanceData,
    D: FnOnce(Error, &'static str, &'static str) -> Error,
>(
    solid: Solid<H>,
    first: ResultTopology,
    other: Solid<H>,
    second: ResultTopology,
    query: Q,
    diagnose: D,
    result: Result<TopologyDistance, Error>,
)
    requires
        call_ensures(
            Solid::<H>::topology_distance::<Q, D>,
            (&solid, first, &other, second, query, diagnose),
            result,
        ),
    ensures
        exists|data: DistanceData| #[trigger]
            call_ensures(
                query,
                (
                    &solid@.shape.handle,
                    crate::laws::histories::kind_code(first.kind),
                    first.index,
                    &other@.shape.handle,
                    crate::laws::histories::kind_code(second.kind),
                    second.index,
                ),
                data,
            ) && {
                &&& data.success ==> (result matches Ok(found) && found.distance == data.distance
                    && found.first_point == data.first_point && found.second_point
                    == data.second_point)
                &&& !data.success ==> crate::laws::fails_natively(
                    result,
                    diagnose,
                    ErrorView::TopologyQueryFailed,
                    "topology distance",
                    "native",
                )
            },
{
    assert(first.kind.number() == crate::laws::histories::kind_code(first.kind));
    assert(second.kind.number() == crate::laws::histories::kind_code(second.kind));
}

/// A validation tells each number that the analyzer gives.
pub proof fn validations_tell_every_number<
    H,
    Q: FnOnce(&H) -> ValidationData,
    D: FnOnce(Error, &'static str, &'static str) -> Error,
>(solid: Solid<H>, analyze: Q, diagnose: D, result: Result<ValidationReport, Error>)
    requires
        call_ensures(Solid::<H>::validate::<Q, D>, (&solid, analyze, diagnose), result),
    ensures
        exists|data: ValidationData| #[trigger]
            call_ensures(analyze, (&solid@.shape.handle,), data) && {
                &&& data.success ==> (result matches Ok(report) && report.valid == data.valid
                    && report.invalid_faces == data.invalid_faces && report.invalid_edges
                    == data.invalid_edges && report.invalid_vertices == data.invalid_vertices)
                &&& !data.success ==> crate::laws::fails_natively(
                    result,
                    diagnose,
                    ErrorView::TopologyQueryFailed,
                    "validate shape",
                    "validate_result",
                )
            },
{
}

/// The matrix has these rows: the columns hold the components of the rows in turn.
pub open spec fn has_rows(matrix: Mat3, rows: [Vec3; 3]) -> bool {
    &&& matrix.x_axis.x == rows@[0].x && matrix.y_axis.x == rows@[0].y && matrix.z_axis.x
        == rows@[0].z
    &&& matrix.x_axis.y == rows@[1].x && matrix.y_axis.y == rows@[1].y && matrix.z_axis.y
        == rows@[1].z
    &&& matrix.x_axis.z == rows@[2].x && matrix.y_axis.z == rows@[2].y && matrix.z_axis.z
        == rows@[2].z
}

/// The inertia tensor has the rows that the native side gives.
pub proof fn inertia_has_the_native_rows<H, Q: FnOnce(&H) -> [Vec3; 3]>(
    solid: Solid<H>,
    query: Q,
    tensor: Mat3,
)
    requires
        call_ensures(Solid::<H>::inertia::<Q>, (&solid, query), tensor),
    ensures
        exists|rows: [Vec3; 3]| #[trigger]
            call_ensures(query, (&solid@.shape.handle,), rows) && has_rows(tensor, rows),
{
}

/// A matrix of rows has these rows.
pub proof fn matrices_have_their_rows(rows: [Vec3; 3], matrix: Mat3)
    requires
        call_ensures(Mat3::from_rows, (rows,), matrix),
    ensures
        has_rows(matrix, rows),
{
}

/// The pairs are all of the list, in order; a number left over is no pair.
pub open spec fn are_pairs_of(pairs: Seq<(u32, u32)>, values: Seq<u32>) -> bool {
    &&& 2 * pairs.len() <= values.len() < 2 * pairs.len() + 2
    &&& forall|i: int|
        0 <= i < pairs.len() ==> (#[trigger] pairs[i]).0 == values[2 * i] && pairs[i].1
            == values[2 * i + 1]
}

/// Shared faces are told pair by pair, for this solid and the other.
pub proof fn shared_faces_are_told_pair_by_pair<H, Q: FnOnce(&H, &H) -> Vec<u32>>(
    solid: Solid<H>,
    other: Solid<H>,
    query: Q,
    pairs: Vec<(u32, u32)>,
)
    requires
        call_ensures(Solid::<H>::shared_face_indices::<Q>, (&solid, &other, query), pairs),
    ensures
        exists|flat: Vec<u32>| #[trigger]
            call_ensures(query, (&solid@.shape.handle, &other@.shape.handle), flat)
                && are_pairs_of(pairs@, flat@),
{
}

/// All pairs of a list are read, in order.
pub proof fn pairs_are_read_in_order(values: Vec<u32>, pairs: Vec<(u32, u32)>)
    requires
        call_ensures(crate::queries::read_pairs, (&values,), pairs),
    ensures
        are_pairs_of(pairs@, values@),
{
}

} // verus!
