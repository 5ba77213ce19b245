//! Solids: one native solid each, with its colours and its derivation history.

use crate::color::Color;
use crate::error::Error;
use crate::error::ErrorView;
use crate::kernel::Shape;
use crate::kernel::ShapeKind;
use crate::number::Real;
use crate::number::Vec3;
use crate::text::joined;
use crate::topology::HistoryView;
use crate::topology::TopologyHistory;
use std::collections::HashMap;
use vstd::prelude::*;

verus! {

/// A native shape that is a solid or null.
///
/// The field is private, so nothing outside can put another shape in.
#[derive(Debug)]
struct SolidShape<H> {
    shape: Shape<H>,
}

impl<H> SolidShape<H> {
    #[verifier::type_invariant]
    spec fn well_formed(self) -> bool {
        self.shape.kind != ShapeKind::Other
    }
}

/// A single solid.
#[derive(Debug)]
pub struct Solid<H> {
    inner: SolidShape<H>,
    /// Keyed by the identity of a face, or by that of the solid for the solid as a whole.
    /// Keys of other solids may be present.
    colormap: HashMap<u64, Color>,
    /// Face derivation of the most recent operation: result identity and source identity
    /// in turn.
    history: Vec<u64>,
    /// Complete operation-local correspondence of the most recent operation.
    topology_history: TopologyHistory,
}

/// What a [`Solid`] holds.
#[verifier::ext_equal]
pub struct SolidView<H> {
    pub shape: Shape<H>,
    pub colormap: Map<u64, Color>,
    pub history: Seq<u64>,
    pub topology: HistoryView,
}

impl<H> View for Solid<H> {
    type V = SolidView<H>;

    closed spec fn view(&self) -> SolidView<H> {
        SolidView {
            shape: self.inner.shape,
            colormap: self.colormap@,
            history: self.history@,
            topology: self.topology_history@,
        }
    }
}

impl<H> SolidView<H> {
    /// A shape without colours and without history.
    pub open spec fn plain(shape: Shape<H>) -> SolidView<H> {
        SolidView {
            shape,
            colormap: Map::empty(),
            history: seq![],
            topology: HistoryView::empty(),
        }
    }
}

impl<H> Solid<H> {
    /// Hold `shape` as a solid.
    pub fn new(shape: Shape<H>, colormap: HashMap<u64, Color>, history: Vec<u64>) -> (solid: Solid<
        H,
    >)
        requires
            shape.kind != ShapeKind::Other,
        ensures
            solid@ == (SolidView {
                shape,
                colormap: colormap@,
                history: history@,
                topology: HistoryView::empty(),
            }),
    {
        let topology_history = TopologyHistory::default();
        Solid { inner: SolidShape { shape }, colormap, history, topology_history }
    }

    /// Hold `shape` as a solid without colours and without history.
    pub fn plain(shape: Shape<H>) -> (solid: Solid<H>)
        requires
            shape.kind != ShapeKind::Other,
        ensures
            solid@ == SolidView::plain(shape),
    {
        let colormap: HashMap<u64, Color> = HashMap::new();
        let history: Vec<u64> = Vec::new();
        Solid::new(shape, colormap, history)
    }

    /// The same solid with another topology history.
    pub fn with_topology_history(self, topology_history: TopologyHistory) -> (solid: Solid<H>)
        ensures
            solid@ == (SolidView { topology: topology_history@, ..self@ }),
    {
        Solid { inner: self.inner, colormap: self.colormap, history: self.history, topology_history }
    }

    /// The native shape.
    pub fn shape(&self) -> (shape: &Shape<H>)
        ensures
            *shape == self@.shape,
            shape.kind != ShapeKind::Other,
    {
        proof {
            use_type_invariant(&self.inner);
        }
        &self.inner.shape
    }

    /// The native handle.
    pub fn inner(&self) -> (handle: &H)
        ensures
            *handle == self@.shape.handle,
    {
        &self.inner.shape.handle
    }

    /// The process-local identity of the solid.
    pub fn id(&self) -> (id: u64)
        ensures
            id == self@.shape.id,
    {
        self.inner.shape.id
    }

    /// Whether the solid wraps a null shape.
    pub fn is_null(&self) -> (null: bool)
        ensures
            null == (self@.shape.kind == ShapeKind::Null),
            !null ==> self@.shape.kind == ShapeKind::Solid,
    {
        proof {
            use_type_invariant(&self.inner);
        }
        self.inner.shape.kind == ShapeKind::Null
    }

    /// Complete, operand-aware topology correspondence of the most recent operation.
    pub fn topology_history(&self) -> (history: &TopologyHistory)
        ensures
            history@ == self@.topology,
    {
        &self.topology_history
    }

    /// The colours.
    pub fn colormap(&self) -> (colors: &HashMap<u64, Color>)
        ensures
            colors@ == self@.colormap,
    {
        &self.colormap
    }

    /// The colours, to be changed.
    pub fn colormap_mut(&mut self) -> (colors: &mut HashMap<u64, Color>)
        ensures
            colors@ == old(self)@.colormap,
            final(self)@ == (SolidView { colormap: final(colors)@, ..old(self)@ }),
    {
        &mut self.colormap
    }

    /// The parts of the solid.
    pub(crate) fn into_parts(self) -> (parts: (
        Shape<H>,
        HashMap<u64, Color>,
        Vec<u64>,
        TopologyHistory,
    ))
        ensures
            self@ == (SolidView {
                shape: parts.0,
                colormap: parts.1@,
                history: parts.2@,
                topology: parts.3@,
            }),
            parts.0.kind != ShapeKind::Other,
    {
        proof {
            use_type_invariant(&self.inner);
        }
        (self.inner.shape, self.colormap, self.history, self.topology_history)
    }

    /// Face derivation of the most recent operation as flat pairs.
    pub(crate) fn history(&self) -> (history: &Vec<u64>)
        ensures
            history@ == self@.history,
    {
        &self.history
    }

    /// Face derivation of the most recent operation: result and source.
    pub fn iter_history(&self) -> (pairs: Vec<[u64; 2]>)
        ensures
            pairs@.map_values(|pair: [u64; 2]| (pair@[0], pair@[1])) == crate::color::pair_links(
                self@.history,
            ),
    {
        let ghost links = crate::color::pair_links(self@.history);
        let ghost both = |pair: [u64; 2]| (pair@[0], pair@[1]);
        let count: usize = self.history.len() / 2;
        let mut pairs: Vec<[u64; 2]> = Vec::with_capacity(count);
        let mut next: usize = 0;
        while next < count
            invariant
                next <= count == self.history.len() / 2,
                links == crate::color::pair_links(self.history@),
                both == (|pair: [u64; 2]| (pair@[0], pair@[1])),
                pairs@.map_values(both) == links.take(next as int),
            decreases count - next,
        {
            let pair = [self.history[2 * next], self.history[2 * next + 1]];
            proof {
                assert(both(pair) == links[next as int]);
                assert(pairs@.push(pair).map_values(both) =~= pairs@.map_values(both).push(
                    both(pair),
                ));
                assert(links.take(next + 1) =~= links.take(next as int).push(links[next as int]));
            }
            pairs.push(pair);
            next += 1;
        }
        assert(links.take(next as int) =~= links);
        pairs
    }
}

// ==================== Primitives ====================

/// What a native primitive comes to: it must be a solid.
pub open spec fn primitive_answer<H, D: FnOnce(Error, &'static str, &'static str) -> Error>(
    result: Result<Solid<H>, Error>,
    shape: Option<Shape<H>>,
    operation: &'static str,
    diagnose: D,
) -> bool {
    if shape is Some && shape->0.kind == ShapeKind::Solid {
        result matches Ok(solid) && solid@ == SolidView::plain(shape->0)
    } else {
        result matches Err(error) && crate::error::diagnosed(
            diagnose,
            ErrorView::InvalidInput(operation@ + " did not produce a solid"@),
            operation,
            "occt_build",
            error,
        )
    }
}

/// Both corners are finite, and they differ on every axis.
pub open spec fn spans_box(corner0: Vec3, corner1: Vec3) -> bool {
    &&& corner0.finite() && corner1.finite()
    &&& corner0.x.value() != corner1.x.value()
    &&& corner0.y.value() != corner1.y.value()
    &&& corner0.z.value() != corner1.z.value()
}

/// The radii and the height of a cone: one radius may be zero.
pub open spec fn spans_cone(radius0: Real, radius1: Real, height: Vec3) -> bool {
    &&& radius0.finite() && radius1.finite() && height.finite()
    &&& radius0.value() >= 0 && radius1.value() >= 0
    &&& radius0.value() > 0 || radius1.value() > 0
    &&& !height.zero()
}

/// The radii and the axis of a torus that does not meet itself.
pub open spec fn spans_torus(major_radius: Real, minor_radius: Real, axis: Vec3) -> bool {
    &&& major_radius.finite() && minor_radius.finite() && axis.finite()
    &&& 0 < minor_radius.value() < major_radius.value()
    &&& !axis.zero()
}

impl<H> Solid<H> {
    /// Hold a native primitive, which must be a solid.
    pub fn from_primitive_ffi<D>(
        shape: Option<Shape<H>>,
        operation: &'static str,
        diagnose: D,
    ) -> (result: Result<Solid<H>, Error>) where
        D: FnOnce(Error, &'static str, &'static str) -> Error,

        requires
            crate::error::diagnoses(diagnose, operation, "occt_build"),
        ensures
            primitive_answer(result, shape, operation, diagnose),
    {
        match shape {
            Some(found) => {
                if found.kind == ShapeKind::Solid {
                    return Ok(Solid::plain(found));
                }
            },
            None => {},
        }
        let text = joined(operation, " did not produce a solid");
        Err(diagnose(Error::InvalidInput(text), operation, "occt_build"))
    }

    /// Build a box between two corners.
    pub fn try_cube<M, D>(corner0: Vec3, corner1: Vec3, make: M, diagnose: D) -> (result: Result<
        Solid<H>,
        Error,
    >) where
        M: FnOnce(Vec3, Vec3) -> Option<Shape<H>>,
        D: FnOnce(Error, &'static str, &'static str) -> Error,

        requires
            spans_box(corner0, corner1) ==> call_requires(make, (corner0, corner1)),
            crate::error::diagnoses(diagnose, "build box", "occt_build"),
        ensures
            !spans_box(corner0, corner1) ==> crate::error::fails_with(
                result,
                ErrorView::InvalidInput("box corners must be finite and differ on every axis"@),
            ),
            spans_box(corner0, corner1) ==> exists|shape: Option<Shape<H>>| #[trigger]
                call_ensures(make, (corner0, corner1), shape) && primitive_answer(
                    result,
                    shape,
                    "build box",
                    diagnose,
                ),
    {
        if !corner0.is_finite() || !corner1.is_finite() || corner0.x.is_same(corner1.x)
            || corner0.y.is_same(corner1.y) || corner0.z.is_same(corner1.z) {
            return Err(
                Error::InvalidInput(
                    "box corners must be finite and differ on every axis".to_owned(),
                ),
            );
        }
        Solid::from_primitive_ffi(make(corner0, corner1), "build box", diagnose)
    }

    /// Build a sphere around the origin.
    pub fn try_sphere<M, D>(radius: Real, make: M, diagnose: D) -> (result: Result<
        Solid<H>,
        Error,
    >) where
        M: FnOnce(Real) -> Option<Shape<H>>,
        D: FnOnce(Error, &'static str, &'static str) -> Error,

        requires
            radius.finite() && radius.value() > 0 ==> call_requires(make, (radius,)),
            crate::error::diagnoses(diagnose, "build sphere", "occt_build"),
        ensures
            !radius.finite() || radius.value() <= 0 ==> crate::error::fails_with(
                result,
                ErrorView::InvalidInput("sphere radius must be finite and positive"@),
            ),
            radius.finite() && radius.value() > 0 ==> exists|shape: Option<Shape<H>>| #[trigger]
                call_ensures(make, (radius,), shape) && primitive_answer(
                    result,
                    shape,
                    "build sphere",
                    diagnose,
                ),
    {
        if !radius.is_finite() || !radius.is_positive() {
            return Err(
                Error::InvalidInput("sphere radius must be finite and positive".to_owned()),
            );
        }
        Solid::from_primitive_ffi(make(radius), "build sphere", diagnose)
    }

    /// Build a cylinder that stands on the origin.
    pub fn try_cylinder<M, D>(radius: Real, height: Vec3, make: M, diagnose: D) -> (result: Result<
        Solid<H>,
        Error,
    >) where
        M: FnOnce(Real, Vec3) -> Option<Shape<H>>,
        D: FnOnce(Error, &'static str, &'static str) -> Error,

        requires
            radius.finite() && radius.value() > 0 && height.finite() && !height.zero()
                ==> call_requires(make, (radius, height)),
            crate::error::diagnoses(diagnose, "build cylinder", "occt_build"),
        ensures
            !radius.finite() || radius.value() <= 0 || !height.finite() || height.zero()
                ==> crate::error::fails_with(
                result,
                ErrorView::InvalidInput("cylinder radius and height must be finite and nonzero"@),
            ),
            radius.finite() && radius.value() > 0 && height.finite() && !height.zero() ==> exists|
                shape: Option<Shape<H>>,
            | #[trigger]
                call_ensures(make, (radius, height), shape) && primitive_answer(
                    result,
                    shape,
                    "build cylinder",
                    diagnose,
                ),
    {
        if !radius.is_finite() || !radius.is_positive() || !height.is_finite() || height.is_zero() {
            return Err(
                Error::InvalidInput(
                    "cylinder radius and height must be finite and nonzero".to_owned(),
                ),
            );
        }
        Solid::from_primitive_ffi(make(radius, height), "build cylinder", diagnose)
    }

    /// Build a cone or a truncated cone that stands on the origin.
    pub fn try_cone<M, D>(
        radius0: Real,
        radius1: Real,
        height: Vec3,
        make: M,
        diagnose: D,
    ) -> (result: Result<Solid<H>, Error>) where
        M: FnOnce(Real, Real, Vec3) -> Option<Shape<H>>,
        D: FnOnce(Error, &'static str, &'static str) -> Error,

        requires
            spans_cone(radius0, radius1, height) ==> call_requires(
                make,
                (radius0, radius1, height),
            ),
            crate::error::diagnoses(diagnose, "build cone", "occt_build"),
        ensures
            !spans_cone(radius0, radius1, height) ==> crate::error::fails_with(
                result,
                ErrorView::InvalidInput(
                    "cone radii and height must be finite, with a positive radius and nonzero height"@,
                ),
            ),
            spans_cone(radius0, radius1, height) ==> exists|shape: Option<Shape<H>>| #[trigger]
                call_ensures(make, (radius0, radius1, height), shape) && primitive_answer(
                    result,
                    shape,
                    "build cone",
                    diagnose,
                ),
    {
        let zero = Real { bits: 0 };
        assert(zero.value() == 0);
        if !radius0.is_finite() || !radius1.is_finite() || radius0.is_below(zero)
            || radius1.is_below(zero) || !(radius0.is_positive() || radius1.is_positive())
            || !height.is_finite() || height.is_zero() {
            return Err(
                Error::InvalidInput(
                    "cone radii and height must be finite, with a positive radius and nonzero height".to_owned(),
                ),
            );
        }
        Solid::from_primitive_ffi(make(radius0, radius1, height), "build cone", diagnose)
    }

    /// Build a torus around the origin.
    pub fn try_torus<M, D>(
        major_radius: Real,
        minor_radius: Real,
        axis: Vec3,
        make: M,
        diagnose: D,
    ) -> (result: Result<Solid<H>, Error>) where
        M: FnOnce(Real, Real, Vec3) -> Option<Shape<H>>,
        D: FnOnce(Error, &'static str, &'static str) -> Error,

        requires
            spans_torus(major_radius, minor_radius, axis) ==> call_requires(
                make,
                (major_radius, minor_radius, axis),
            ),
            crate::error::diagnoses(diagnose, "build torus", "occt_build"),
        ensures
            !spans_torus(major_radius, minor_radius, axis) ==> crate::error::fails_with(
                result,
                ErrorView::InvalidInput(
                    "torus radii must be finite with 0 < minor < major and the axis nonzero"@,
                ),
            ),
            spans_torus(major_radius, minor_radius, axis) ==> exists|
                shape: Option<Shape<H>>,
            | #[trigger]
                call_ensures(make, (major_radius, minor_radius, axis), shape) && primitive_answer(
                    result,
                    shape,
                    "build torus",
                    diagnose,
                ),
    {
        if !major_radius.is_finite() || !minor_radius.is_finite() || !minor_radius.is_positive()
            || !minor_radius.is_below(major_radius) || !axis.is_finite() || axis.is_zero() {
            return Err(
                Error::InvalidInput(
                    "torus radii must be finite with 0 < minor < major and the axis nonzero".to_owned(),
                ),
            );
        }
        Solid::from_primitive_ffi(make(major_radius, minor_radius, axis), "build torus", diagnose)
    }

    /// Build the half space on one side of a plane.
    pub fn try_half_space<M, D>(
        plane_origin: Vec3,
        plane_normal: Vec3,
        make: M,
        diagnose: D,
    ) -> (result: Result<Solid<H>, Error>) where
        M: FnOnce(Vec3, Vec3) -> Option<Shape<H>>,
        D: FnOnce(Error, &'static str, &'static str) -> Error,

        requires
            plane_origin.finite() && plane_normal.finite() && !plane_normal.zero()
                ==> call_requires(make, (plane_origin, plane_normal)),
            crate::error::diagnoses(diagnose, "build half space", "occt_build"),
        ensures
            !plane_origin.finite() || !plane_normal.finite() || plane_normal.zero()
                ==> crate::error::fails_with(
                result,
                ErrorView::InvalidInput(
                    "half-space origin must be finite and its normal finite and nonzero"@,
                ),
            ),
            plane_origin.finite() && plane_normal.finite() && !plane_normal.zero() ==> exists|
                shape: Option<Shape<H>>,
            | #[trigger]
                call_ensures(make, (plane_origin, plane_normal), shape) && primitive_answer(
                    result,
                    shape,
                    "build half space",
                    diagnose,
                ),
    {
        if !plane_origin.is_finite() || !plane_normal.is_finite() || plane_normal.is_zero() {
            return Err(
                Error::InvalidInput(
                    "half-space origin must be finite and its normal finite and nonzero".to_owned(),
                ),
            );
        }
        Solid::from_primitive_ffi(make(plane_origin, plane_normal), "build half space", diagnose)
    }
}

} // verus!
