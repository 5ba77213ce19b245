//! Boolean combinations of solids.

use crate::builders::refuse;
use crate::color::color_of;
use crate::color::Color;
use crate::compound::CompoundShape;
use crate::compound::CompoundView;
use crate::error::Error;
use crate::error::ErrorView;
use crate::kernel::Built;
use crate::kernel::HistoryData;
use crate::kernel::Shape;
use crate::kernel::ShapeKind;
use crate::kernel::TopologyData;
use crate::solid::Solid;
use crate::solid::SolidView;
use crate::topology::decode_topology_history;
use crate::topology::HistoryView;
use std::collections::HashMap;
use vstd::prelude::*;

verus! {

/// A boolean expression: solids, and clauses over them by their numbers. Each clause ends
/// with a zero.
#[derive(Debug)]
pub struct Boolean<H> {
    solids: Vec<Solid<H>>,
    clauses: Vec<i64>,
}

/// What a [`Boolean`] holds.
#[verifier::ext_equal]
pub struct BooleanView<H> {
    pub solids: Seq<SolidView<H>>,
    pub clauses: Seq<i64>,
}

/// What solids hold.
pub open spec fn solid_views<H>(solids: Seq<Solid<H>>) -> Seq<SolidView<H>> {
    solids.map_values(|solid: Solid<H>| solid@)
}

/// The handles of solids.
pub open spec fn solid_handles<'a, H>(solids: Seq<SolidView<H>>) -> Seq<&'a H> {
    Seq::new(solids.len(), |i: int| &solids[i].shape.handle)
}

/// The colours of solids, solid by solid.
pub open spec fn solid_colors<H>(solids: Seq<SolidView<H>>) -> Seq<Map<u64, Color>> {
    solids.map_values(|solid: SolidView<H>| solid.colormap)
}

impl<H> View for Boolean<H> {
    type V = BooleanView<H>;

    closed spec fn view(&self) -> BooleanView<H> {
        BooleanView { solids: solid_views(self.solids@), clauses: self.clauses@ }
    }
}

impl<H> Boolean<H> {
    /// An expression of the given parts.
    pub fn from_parts(solids: Vec<Solid<H>>, clauses: Vec<i64>) -> (expression: Boolean<H>)
        ensures
            expression@ == (BooleanView { solids: solid_views(solids@), clauses: clauses@ }),
    {
        Boolean { solids, clauses }
    }

    /// The solids.
    pub fn solids(&self) -> (solids: &Vec<Solid<H>>)
        ensures
            solid_views(solids@) == self@.solids,
    {
        &self.solids
    }

    /// The clauses.
    pub fn clauses(&self) -> (clauses: &Vec<i64>)
        ensures
            clauses@ == self@.clauses,
    {
        &self.clauses
    }
}

impl<H> Solid<H> {
    /// An expression of occurrences that share their topology with the given solids, so that
    /// identities in the history of its result are those of the caller's faces.
    pub fn boolean<S>(solids: &Vec<&Solid<H>>, clauses: Vec<i64>, share: S) -> (expression: Boolean<
        H,
    >) where S: Fn(&H) -> H
        requires
            forall|handle: H| #[trigger] call_requires(share, (&handle,)),
        ensures
            expression@.clauses == clauses@,
            expression@.solids.len() == solids@.len(),
            forall|i: int|
                0 <= i < solids@.len() ==> shared_occurrence(
                    #[trigger] expression@.solids[i],
                    solids@[i]@,
                    share,
                ),
    {
        let mut copies: Vec<Solid<H>> = Vec::with_capacity(solids.len());
        let mut next: usize = 0;
        while next < solids.len()
            invariant
                next <= solids@.len(),
                copies@.len() == next,
                forall|handle: H| #[trigger] call_requires(share, (&handle,)),
                forall|i: int|
                    0 <= i < next ==> shared_occurrence(
                        (#[trigger] copies@[i])@,
                        solids@[i]@,
                        share,
                    ),
            decreases solids@.len() - next,
        {
            let solid = solids[next];
            assert(call_requires(share, (&solid@.shape.handle,)));
            let handle = share(solid.inner());
            let copy = solid.copy_behind(handle);
            assert(shared_occurrence(copy@, solids@[next as int]@, share));
            copies.push(copy);
            next += 1;
        }
        Boolean::from_parts(copies, clauses)
    }
}

/// `copy` is an occurrence of `source` behind a handle that `share` gives.
pub open spec fn shared_occurrence<H, S: Fn(&H) -> H>(
    copy: SolidView<H>,
    source: SolidView<H>,
    share: S,
) -> bool {
    exists|handle: H| #[trigger]
        call_ensures(share, (&source.shape.handle,), handle) && copy == source.at_handle(handle)
}

// ==================== Colours of a combination ====================

/// The colour of `source` in the first solid that has one.
fn first_color_of<H>(solids: &Vec<Solid<H>>, source: u64) -> (color: Option<Color>)
    ensures
        color == crate::color::first_color(solid_colors(solid_views(solids@)), source),
{
    let ghost maps = solid_colors(solid_views(solids@));
    let mut next: usize = 0;
    assert(maps.skip(0) =~= maps);
    while next < solids.len()
        invariant
            next <= solids@.len(),
            maps == solid_colors(solid_views(solids@)),
            crate::color::first_color(maps, source) == crate::color::first_color(
                maps.skip(next as int),
                source,
            ),
        decreases solids@.len() - next,
    {
        let ghost rest = maps.skip(next as int);
        assert(rest[0] == solids@[next as int]@.colormap);
        let color = color_of(solids[next].colormap(), source);
        if color.is_some() {
            return color;
        }
        assert(rest.drop_first() =~= maps.skip(next + 1));
        next += 1;
    }
    None
}

/// The colours that operands hand on to a result with the given face derivation.
pub fn inherited_colors<H>(history: &Vec<u64>, solids: &Vec<Solid<H>>) -> (colors: HashMap<
    u64,
    Color,
>)
    ensures
        colors@ == crate::color::inherited(
            crate::color::pair_links(history@),
            solid_colors(solid_views(solids@)),
        ),
{
    broadcast use vstd::std_specs::hash::group_hash_axioms;

    let ghost links = crate::color::pair_links(history@);
    let ghost maps = solid_colors(solid_views(solids@));
    let count: usize = history.len() / 2;
    let mut colors: HashMap<u64, Color> = HashMap::new();
    let mut next: usize = 0;
    assert(links.take(0) =~= seq![]);
    while next < count
        invariant
            next <= count == history.len() / 2,
            links == crate::color::pair_links(history@),
            maps == solid_colors(solid_views(solids@)),
            colors@ == crate::color::inherited(links.take(next as int), maps),
        decreases count - next,
    {
        assert(links.take(next + 1).drop_last() =~= links.take(next as int));
        let result: u64 = history[2 * next];
        if let Some(color) = first_color_of(solids, history[2 * next + 1]) {
            if !colors.contains_key(&result) {
                colors.insert(result, color);
            }
        }
        next += 1;
    }
    assert(links.take(next as int) =~= links);
    colors
}

/// The colour of a solid as a whole.
pub open spec fn own_color<H>(solid: SolidView<H>) -> Option<Color> {
    if solid.colormap.contains_key(solid.shape.id) {
        Some(solid.colormap[solid.shape.id])
    } else {
        None
    }
}

/// A solid with another colour as a whole, if one is given.
pub open spec fn recolored<H>(solid: SolidView<H>, color: Option<Color>) -> SolidView<H> {
    match color {
        Some(given) => SolidView {
            colormap: solid.colormap.insert(solid.shape.id, given),
            ..solid
        },
        None => solid,
    }
}

fn recolor<H>(solid: Solid<H>, color: Option<Color>) -> (result: Solid<H>)
    ensures
        result@ == recolored(solid@, color),
{
    broadcast use vstd::std_specs::hash::group_hash_axioms;

    let mut result = solid;
    if let Some(given) = color {
        let id: u64 = result.id();
        result.colormap_mut().insert(id, given);
    }
    result
}

// ==================== Building ====================

/// The solids of a combination: the parts of the native result, with the colours that the
/// operands hand on. Each has the colour of the first operand as a whole.
pub open spec fn combined<
    H,
    X: FnOnce(&H) -> Vec<Shape<H>>,
    Q: Fn(&H, u32) -> TopologyData,
>(
    output: Seq<Solid<H>>,
    operands: Seq<SolidView<H>>,
    shape: Shape<H>,
    history: Seq<u64>,
    data: HistoryData,
    explode: X,
    query: Q,
) -> bool {
    exists|parts: Seq<Solid<H>>, topology: HistoryView|
        {
            &&& crate::topology::is_history_of(topology, data)
            &&& #[trigger] crate::compound::decomposed(
                parts,
                (CompoundView {
                    handle: shape.handle,
                    colormap: crate::color::inherited(
                        crate::color::pair_links(history),
                        solid_colors(operands),
                    ),
                    history,
                    topology,
                }),
                explode,
                query,
            )
            &&& output.len() == parts.len()
            &&& forall|i: int|
                0 <= i < output.len() ==> (#[trigger] output[i])@ == recolored(
                    parts[i]@,
                    own_color(operands[0]),
                )
        }
}

/// What the answer of the native combination comes to.
pub open spec fn boolean_answer<
    H,
    X: FnOnce(&H) -> Vec<Shape<H>>,
    Q: Fn(&H, u32) -> TopologyData,
    D: FnOnce(Error, &'static str, &'static str) -> Error,
>(
    result: Result<Vec<Solid<H>>, Error>,
    operands: Seq<SolidView<H>>,
    built: Built<H>,
    explode: X,
    query: Q,
    diagnose: D,
) -> bool {
    match built.shape {
        None => crate::builders::refused(
            result,
            built.cancelled,
            ErrorView::BooleanOperationFailed,
            "boolean",
            diagnose,
        ),
        Some(shape) => if crate::topology::history_is_readable(built.topology) {
            result matches Ok(output) && combined(
                output@,
                operands,
                shape,
                built.history@,
                built.topology,
                explode,
                query,
            )
        } else {
            crate::error::fails_with(result, ErrorView::TopologyQueryFailed)
        },
    }
}

/// Take the answer of the native combination.
pub fn take_combined<H, X, Q, D>(
    solids: &Vec<Solid<H>>,
    built: Built<H>,
    explode: X,
    query: Q,
    diagnose: D,
) -> (result: Result<Vec<Solid<H>>, Error>) where
    X: FnOnce(&H) -> Vec<Shape<H>>,
    Q: Fn(&H, u32) -> TopologyData,
    D: FnOnce(Error, &'static str, &'static str) -> Error,

    requires
        solids@.len() > 0,
        forall|handle: H| #[trigger] call_requires(explode, (&handle,)),
        forall|handle: H, shapes: Vec<Shape<H>>, i: int| #[trigger]
            call_ensures(explode, (&handle,), shapes) && 0 <= i < shapes@.len() ==> (
            #[trigger] shapes@[i]).kind != ShapeKind::Other,
        forall|handle: H| #[trigger] call_requires(query, (&handle, 0u32)),
        crate::error::diagnoses(diagnose, "boolean", "occt_build"),
    ensures
        boolean_answer(result, solid_views(solids@), built, explode, query, diagnose),
{
    let shape = match built.shape {
        Some(shape) => shape,
        None => return Err(
            refuse(built.cancelled, Error::BooleanOperationFailed, "boolean", diagnose),
        ),
    };
    let topology_history = match decode_topology_history(built.topology) {
        Ok(topology_history) => topology_history,
        Err(error) => return Err(error),
    };
    let colormap = inherited_colors(&built.history, solids);
    let color = color_of(solids[0].colormap(), solids[0].id());
    let compound = CompoundShape::from_raw(
        shape.handle,
        colormap,
        built.history,
        topology_history,
    );
    assert(call_requires(explode, (&compound@.handle,)));
    let ghost whole = compound@;
    let parts = compound.decompose(explode, query);
    let ghost all = parts@;
    assert(crate::compound::decomposed(all, whole, explode, query));
    let mut output: Vec<Solid<H>> = Vec::new();
    for part in it: parts
        invariant
            it.seq() == all,
            output@.len() == it.index(),
            forall|i: int|
                0 <= i < output@.len() ==> (#[trigger] output@[i])@ == recolored(all[i]@, color),
    {
        assert(part == all[it.index() as int]);
        output.push(recolor(part, color));
    }
    assert(solid_views(solids@)[0] == solids@[0]@);
    Ok(output)
}

/// Build a boolean expression. Without solids or clauses there is nothing to build.
pub fn boolean_build_with_progress<'a, H, B, X, Q, D>(
    expression: &'a Boolean<H>,
    build: B,
    explode: X,
    query: Q,
    diagnose: D,
) -> (result: Result<Vec<Solid<H>>, Error>) where
    B: FnOnce(&Vec<&'a H>, &Vec<i64>) -> Built<H>,
    X: FnOnce(&H) -> Vec<Shape<H>>,
    Q: Fn(&H, u32) -> TopologyData,
    D: FnOnce(Error, &'static str, &'static str) -> Error,

    requires
        expression@.solids.len() > 0 && expression@.clauses.len() > 0
            ==> expression@.clauses.last() == 0,
        expression@.solids.len() > 0 && expression@.clauses.len() > 0 ==> forall|
            handles: Vec<&'a H>,
            clauses: Vec<i64>,
        |
            handles@ == solid_handles(expression@.solids) && clauses@ == expression@.clauses
                ==> #[trigger] call_requires(build, (&handles, &clauses)),
        forall|handle: H| #[trigger] call_requires(explode, (&handle,)),
        forall|handle: H, shapes: Vec<Shape<H>>, i: int| #[trigger]
            call_ensures(explode, (&handle,), shapes) && 0 <= i < shapes@.len() ==> (
            #[trigger] shapes@[i]).kind != ShapeKind::Other,
        forall|handle: H| #[trigger] call_requires(query, (&handle, 0u32)),
        crate::error::diagnoses(diagnose, "boolean", "occt_build"),
    ensures
        boolean_result(result, expression@, build, explode, query, diagnose),
{
    let solids = expression.solids();
    let clauses = expression.clauses();
    if solids.len() == 0 || clauses.len() == 0 {
        return Err(Error::OneFailed(0));
    }
    let mut handles: Vec<&'a H> = Vec::with_capacity(solids.len());
    let mut next: usize = 0;
    while next < solids.len()
        invariant
            next <= solids@.len(),
            handles@ == solid_handles(solid_views(solids@)).take(next as int),
        decreases solids@.len() - next,
    {
        handles.push(solids[next].inner());
        assert(handles@ =~= solid_handles(solid_views(solids@)).take(next + 1));
        next += 1;
    }
    assert(handles@ =~= solid_handles(solid_views(solids@)));
    let built = build(&handles, clauses);
    assert(call_ensures(build, (&handles, clauses), built));
    take_combined(solids, built, explode, query, diagnose)
}

/// What building an expression comes to.
pub open spec fn boolean_result<
    'a,
    H,
    B: FnOnce(&Vec<&'a H>, &Vec<i64>) -> Built<H>,
    X: FnOnce(&H) -> Vec<Shape<H>>,
    Q: Fn(&H, u32) -> TopologyData,
    D: FnOnce(Error, &'static str, &'static str) -> Error,
>(
    result: Result<Vec<Solid<H>>, Error>,
    expression: BooleanView<H>,
    build: B,
    explode: X,
    query: Q,
    diagnose: D,
) -> bool {
    if expression.solids.len() == 0 || expression.clauses.len() == 0 {
        crate::error::fails_with(result, ErrorView::OneFailed(0))
    } else {
        exists|handles: Vec<&'a H>, clauses: Vec<i64>, built: Built<H>|
            {
                &&& handles@ == solid_handles(expression.solids)
                &&& clauses@ == expression.clauses
                &&& #[trigger] call_ensures(build, (&handles, &clauses), built)
                &&& boolean_answer(result, expression.solids, built, explode, query, diagnose)
            }
    }
}

impl<H> Solid<H> {
    /// Build a boolean expression.
    pub fn boolean_build_cancelable<'a, B, X, Q, D>(
        expression: &'a Boolean<H>,
        build: B,
        explode: X,
        query: Q,
        diagnose: D,
    ) -> (result: Result<Vec<Solid<H>>, Error>) where
        B: FnOnce(&Vec<&'a H>, &Vec<i64>) -> Built<H>,
        X: FnOnce(&H) -> Vec<Shape<H>>,
        Q: Fn(&H, u32) -> TopologyData,
        D: FnOnce(Error, &'static str, &'static str) -> Error,

        requires
            expression@.solids.len() > 0 && expression@.clauses.len() > 0
                ==> expression@.clauses.last() == 0,
            expression@.solids.len() > 0 && expression@.clauses.len() > 0 ==> forall|
                handles: Vec<&'a H>,
                clauses: Vec<i64>,
            |
                handles@ == solid_handles(expression@.solids) && clauses@ == expression@.clauses
                    ==> #[trigger] call_requires(build, (&handles, &clauses)),
            forall|handle: H| #[trigger] call_requires(explode, (&handle,)),
            forall|handle: H, shapes: Vec<Shape<H>>, i: int| #[trigger]
                call_ensures(explode, (&handle,), shapes) && 0 <= i < shapes@.len() ==> (
                #[trigger] shapes@[i]).kind != ShapeKind::Other,
            forall|handle: H| #[trigger] call_requires(query, (&handle, 0u32)),
            crate::error::diagnoses(diagnose, "boolean", "occt_build"),
        ensures
            boolean_result(result, expression@, build, explode, query, diagnose),
    {
        boolean_build_with_progress(expression, build, explode, query, diagnose)
    }
}

/// Every solid of a combination has the colour of the first operand as a whole, if that has
/// one, and else keeps its own colours. Other keys keep the colours that the operands hand
/// on.
pub proof fn combinations_take_the_first_color<H>(
    part: SolidView<H>,
    operands: Seq<SolidView<H>>,
    id: u64,
)
    requires
        operands.len() > 0,
    ensures
        own_color(operands[0]) is Some ==> own_color(
            recolored(part, own_color(operands[0])),
        ) == own_color(operands[0]),
        id != part.shape.id || own_color(operands[0]) is None ==> {
            let colors = recolored(part, own_color(operands[0])).colormap;
            &&& colors.contains_key(id) <==> part.colormap.contains_key(id)
            &&& colors.contains_key(id) ==> colors[id] == part.colormap[id]
        },
{
}

} // verus!
