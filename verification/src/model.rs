//! The document model: entities addressed by stable indices, each with a tombstone flag.

use vstd::prelude::*;

verus! {

/// Index into [`Document::sketches`].
pub type SketchId = usize;

/// Sign (+1 or -1) recording which side or rotation direction a dimension keeps.
pub type ConstraintSign = i8;

/// The sign a new dimension starts with.
pub open spec fn spec_default_constraint_sign() -> ConstraintSign {
    1
}

pub fn default_constraint_sign() -> (r: ConstraintSign)
    ensures
        r == spec_default_constraint_sign(),
{
    1
}

/// A planar face a sketch can be hosted on.
#[derive(Clone, Copy, Debug, PartialEq, Eq, Hash, Structural)]
pub enum FaceId {
    ConstructionPlane(usize),
    Rect(usize),
    Circle(usize),
}

#[derive(Clone, Copy, Debug, PartialEq, Eq, Hash, Structural)]
pub enum LineEnd {
    Start,
    End,
}

/// One side of a rectangle, in counter-clockwise order from the bottom.
#[derive(Clone, Copy, Debug, PartialEq, Eq, Hash, Structural)]
pub enum RectEdge {
    Bottom,
    Right,
    Top,
    Left,
}

pub open spec fn rect_edge_index(edge: RectEdge) -> nat {
    match edge {
        RectEdge::Bottom => 0,
        RectEdge::Right => 1,
        RectEdge::Top => 2,
        RectEdge::Left => 3,
    }
}

impl RectEdge {
    pub fn index(self) -> (r: usize)
        ensures
            r == rect_edge_index(self),
    {
        match self {
            RectEdge::Bottom => 0,
            RectEdge::Right => 1,
            RectEdge::Top => 2,
            RectEdge::Left => 3,
        }
    }

    /// Stable name used in scripts and labels.
    pub fn script_name(self) -> (r: &'static str)
        ensures
            r@ == spec_rect_edge_script_name(self),
    {
        match self {
            RectEdge::Bottom => "bottom",
            RectEdge::Right => "right",
            RectEdge::Top => "top",
            RectEdge::Left => "left",
        }
    }
}

pub open spec fn spec_rect_edge_script_name(edge: RectEdge) -> Seq<char> {
    match edge {
        RectEdge::Bottom => "bottom"@,
        RectEdge::Right => "right"@,
        RectEdge::Top => "top"@,
        RectEdge::Left => "left"@,
    }
}

/// A sketch point that constraints can reference.
#[derive(Clone, Copy, Debug, PartialEq, Eq, Hash, Structural)]
pub enum ConstraintPoint {
    LineEndpoint { line: usize, end: LineEnd },
    RectCorner { rect: usize, corner: u8 },
    CircleCenter(usize),
}

/// A straight sketch segment that constraints can reference.
#[derive(Clone, Copy, Debug, PartialEq, Eq, Hash, Structural)]
pub enum ConstraintLine {
    Line(usize),
    RectEdge { rect: usize, edge: RectEdge },
}

/// Anything a coincidence constraint can join.
#[derive(Clone, Copy, Debug, PartialEq, Eq, Hash, Structural)]
pub enum ConstraintEntity {
    Point(ConstraintPoint),
    Line(ConstraintLine),
    Circle(usize),
    Origin,
}

/// What a distance dimension measures.
#[derive(Clone, Copy, Debug, PartialEq, Eq, Hash, Structural)]
pub enum DistanceTarget {
    LineLength(usize),
    RectWidth(usize),
    RectHeight(usize),
    CircleDiameter(usize),
    LineLineDistance { line_a: ConstraintLine, line_b: ConstraintLine, side: ConstraintSign },
    PointPointDistance { anchor: ConstraintPoint, mover: ConstraintPoint },
    PointLineDistance { point: ConstraintPoint, line: ConstraintLine, side: ConstraintSign },
}

/// A length or angle dimension target.
#[derive(Clone, Copy, Debug, PartialEq, Eq, Hash, Structural)]
pub enum DimensionTarget {
    Distance(DistanceTarget),
    Angle { line_a: ConstraintLine, line_b: ConstraintLine, rotation_sign: ConstraintSign },
}

#[derive(Clone, Copy, Debug, PartialEq, Eq, Hash, Structural)]
pub enum ConstraintKind {
    Distance { target: DistanceTarget },
    Parallel { line_a: ConstraintLine, line_b: ConstraintLine },
    Perpendicular { line_a: ConstraintLine, line_b: ConstraintLine },
    Equal { line_a: ConstraintLine, line_b: ConstraintLine },
    Coincident { a: ConstraintEntity, b: ConstraintEntity },
    Midpoint { point: ConstraintPoint, line: ConstraintLine },
    Horizontal { line: ConstraintLine },
    Vertical { line: ConstraintLine },
    Angle { line_a: ConstraintLine, line_b: ConstraintLine, rotation_sign: ConstraintSign },
}

/// Kind tag of each entry of the document's creation order.
#[derive(Clone, Copy, Debug, PartialEq, Eq, Hash, Structural)]
pub enum ShapeKind {
    Parameter,
    ConstructionPlane,
    Sketch,
    Rect,
    Line,
    Circle,
    Constraint,
    Extrusion,
    Body,
}

#[derive(Clone, Copy, Debug, PartialEq, Eq, Hash, Structural)]
pub enum ConstructionPlaneParent {
    Root,
    Sketch(SketchId),
}

#[derive(Clone, Copy, Debug, PartialEq, Eq, Hash, Structural)]
pub enum LengthUnit {
    Mm,
    Cm,
    M,
    In,
    Ft,
}

#[derive(Clone, Copy, Debug, PartialEq, Eq, Hash, Structural)]
pub enum AngleUnit {
    Deg,
    Rad,
}

/// Where a computed parameter takes its value from.
#[derive(Clone, Copy, Debug, PartialEq, Eq, Hash, Structural)]
pub enum ParameterSource {
    /// The length of a sketch line.
    LineLength(usize),
}

/// A named document parameter and its defining expression.
#[derive(Clone, Debug)]
pub struct Parameter {
    pub name: String,
    pub expression: String,
    pub deleted: bool,
    pub source: Option<ParameterSource>,
}

#[derive(Clone, Debug)]
pub struct Sketch {
    pub face: FaceId,
    pub name: Option<String>,
    pub length_unit: Option<LengthUnit>,
    pub angle_unit: Option<AngleUnit>,
    pub deleted: bool,
}

#[derive(Clone, Debug)]
pub struct Rect {
    pub sketch: SketchId,
    pub name: Option<String>,
    pub deleted: bool,
    /// Width dimension kept from a document written before dimensions were constraints.
    pub width_locked: bool,
    pub width_expr: Option<String>,
    /// Height dimension kept from a document written before dimensions were constraints.
    pub height_locked: bool,
    pub height_expr: Option<String>,
    /// Construction (reference-only) flags of the four edges.
    pub bottom_construction: bool,
    pub right_construction: bool,
    pub top_construction: bool,
    pub left_construction: bool,
}

/// The construction flag of one edge of `r`.
pub open spec fn spec_rect_edge_construction(r: Rect, edge: RectEdge) -> bool {
    match edge {
        RectEdge::Bottom => r.bottom_construction,
        RectEdge::Right => r.right_construction,
        RectEdge::Top => r.top_construction,
        RectEdge::Left => r.left_construction,
    }
}

/// `r` with the construction flag of `edge` set to `value`.
pub open spec fn rect_with_edge_construction(r: Rect, edge: RectEdge, value: bool) -> Rect {
    match edge {
        RectEdge::Bottom => Rect { bottom_construction: value, ..r },
        RectEdge::Right => Rect { right_construction: value, ..r },
        RectEdge::Top => Rect { top_construction: value, ..r },
        RectEdge::Left => Rect { left_construction: value, ..r },
    }
}

impl Rect {
    /// Whether `edge` is construction geometry.
    pub fn edge_construction(&self, edge: RectEdge) -> (r: bool)
        ensures
            r == spec_rect_edge_construction(*self, edge),
    {
        match edge {
            RectEdge::Bottom => self.bottom_construction,
            RectEdge::Right => self.right_construction,
            RectEdge::Top => self.top_construction,
            RectEdge::Left => self.left_construction,
        }
    }

    /// Mark `edge` as construction geometry or not; the other edges keep their flags.
    pub fn set_edge_construction(&mut self, edge: RectEdge, value: bool)
        ensures
            *final(self) == rect_with_edge_construction(*old(self), edge, value),
    {
        match edge {
            RectEdge::Bottom => self.bottom_construction = value,
            RectEdge::Right => self.right_construction = value,
            RectEdge::Top => self.top_construction = value,
            RectEdge::Left => self.left_construction = value,
        }
    }
}

#[derive(Clone, Debug)]
pub struct Line {
    pub sketch: SketchId,
    pub construction: bool,
    pub name: Option<String>,
    pub deleted: bool,
    /// Length dimension kept from a document written before dimensions were constraints.
    pub length_locked: bool,
    pub length_expr: Option<String>,
}

#[derive(Clone, Debug)]
pub struct Circle {
    pub sketch: SketchId,
    pub construction: bool,
    pub name: Option<String>,
    pub deleted: bool,
    /// Diameter dimension kept from a document written before dimensions were constraints.
    pub diameter_locked: bool,
    pub diameter_expr: Option<String>,
}

#[derive(Clone, Debug)]
pub struct Constraint {
    pub sketch: SketchId,
    pub kind: ConstraintKind,
    pub expression: String,
    pub name: Option<String>,
    pub deleted: bool,
}

#[derive(Clone, Debug)]
pub struct ConstructionPlane {
    pub parent: ConstructionPlaneParent,
    pub name: Option<String>,
    pub deleted: bool,
}

#[derive(Clone, Debug)]
pub struct Extrusion {
    pub name: Option<String>,
    pub deleted: bool,
}

/// A solid built from one or more extrusions.
#[derive(Clone, Debug)]
pub struct Body {
    pub extrusions: Vec<usize>,
    pub name: Option<String>,
    pub deleted: bool,
}

/// The whole editable document. Entities are never removed, only tombstoned, so indices
/// held by constraints and selections stay valid.
#[derive(Clone, Debug)]
pub struct Document {
    pub parameters: Vec<Parameter>,
    pub sketches: Vec<Sketch>,
    pub rects: Vec<Rect>,
    pub lines: Vec<Line>,
    pub circles: Vec<Circle>,
    pub constraints: Vec<Constraint>,
    pub construction_planes: Vec<ConstructionPlane>,
    pub extrusions: Vec<Extrusion>,
    pub bodies: Vec<Body>,
    pub shape_order: Vec<ShapeKind>,
    pub default_length_unit: LengthUnit,
    pub default_angle_unit: AngleUnit,
}

impl Document {
    /// An empty document with millimetre and degree defaults.
    pub fn new() -> (doc: Document)
        ensures
            doc.parameters@.len() == 0,
            doc.sketches@.len() == 0,
            doc.rects@.len() == 0,
            doc.lines@.len() == 0,
            doc.circles@.len() == 0,
            doc.constraints@.len() == 0,
            doc.construction_planes@.len() == 0,
            doc.extrusions@.len() == 0,
            doc.bodies@.len() == 0,
            doc.shape_order@.len() == 0,
            doc.default_length_unit == LengthUnit::Mm,
            doc.default_angle_unit == AngleUnit::Deg,
    {
        Document {
            parameters: Vec::new(),
            sketches: Vec::new(),
            rects: Vec::new(),
            lines: Vec::new(),
            circles: Vec::new(),
            constraints: Vec::new(),
            construction_planes: Vec::new(),
            extrusions: Vec::new(),
            bodies: Vec::new(),
            shape_order: Vec::new(),
            default_length_unit: LengthUnit::Mm,
            default_angle_unit: AngleUnit::Deg,
        }
    }

}

impl Default for Document {
    fn default() -> (doc: Document)
        ensures
            doc.parameters@.len() == 0,
            doc.sketches@.len() == 0,
            doc.rects@.len() == 0,
            doc.lines@.len() == 0,
            doc.circles@.len() == 0,
            doc.constraints@.len() == 0,
            doc.construction_planes@.len() == 0,
            doc.extrusions@.len() == 0,
            doc.bodies@.len() == 0,
            doc.shape_order@.len() == 0,
            doc.default_length_unit == LengthUnit::Mm,
            doc.default_angle_unit == AngleUnit::Deg,
    {
        Document::new()
    }
}

impl Document {
    /// Append a live sketch on `face`; returns its id.
    pub fn add_sketch(&mut self, face: FaceId) -> (id: SketchId)
        requires
            old(self).sketches@.len() < usize::MAX,
        ensures
            id == old(self).sketches@.len(),
            final(self).sketches@.len() == old(self).sketches@.len() + 1,
            forall|i: int| 0 <= i < id ==> final(self).sketches@[i] == old(self).sketches@[i],
            final(self).sketches@[id as int].face == face,
            final(self).sketches@[id as int].name is None,
            final(self).sketches@[id as int].length_unit is None,
            final(self).sketches@[id as int].angle_unit is None,
            !final(self).sketches@[id as int].deleted,
            final(self).shape_order@ == old(self).shape_order@.push(ShapeKind::Sketch),
            final(self).parameters == old(self).parameters,
            final(self).rects == old(self).rects,
            final(self).lines == old(self).lines,
            final(self).circles == old(self).circles,
            final(self).constraints == old(self).constraints,
            final(self).construction_planes == old(self).construction_planes,
            final(self).extrusions == old(self).extrusions,
            final(self).bodies == old(self).bodies,
            final(self).default_length_unit == old(self).default_length_unit,
            final(self).default_angle_unit == old(self).default_angle_unit,
    {
        let id = self.sketches.len();
        self.sketches.push(Sketch {
            face,
            name: None,
            length_unit: None,
            angle_unit: None,
            deleted: false,
        });
        self.shape_order.push(ShapeKind::Sketch);
        id
    }

    /// Ids of the sketches hosted on `face`, in creation order.
    pub fn sketches_on_face(&self, face: FaceId) -> (r: Vec<SketchId>)
        ensures
            r@ == spec_sketches_on_face(self.sketches@, face),
    {
        let mut out: Vec<SketchId> = Vec::new();
        let mut i: usize = 0;
        while i < self.sketches.len()
            invariant
                i <= self.sketches@.len(),
                out@ == spec_sketches_on_face(self.sketches@.take(i as int), face),
            decreases self.sketches@.len() - i,
        {
            assert(self.sketches@.take(i + 1).drop_last() =~= self.sketches@.take(i as int));
            if self.sketches[i].face == face {
                out.push(i);
            }
            i = i + 1;
        }
        assert(self.sketches@.take(i as int) =~= self.sketches@);
        out
    }
}

/// Some rectangle, line or circle, live or tombstoned, was drawn in sketch `s`.
pub open spec fn spec_sketch_has_geometry(doc: Document, s: SketchId) -> bool {
    ||| exists|i: int| 0 <= i < doc.rects@.len() && #[trigger] doc.rects@[i].sketch == s
    ||| exists|i: int| 0 <= i < doc.lines@.len() && #[trigger] doc.lines@[i].sketch == s
    ||| exists|i: int| 0 <= i < doc.circles@.len() && #[trigger] doc.circles@[i].sketch == s
}

/// Some sketch, live or tombstoned, lies on `face`.
pub open spec fn spec_has_children(doc: Document, face: FaceId) -> bool {
    exists|i: int| 0 <= i < doc.sketches@.len() && #[trigger] doc.sketches@[i].face == face
}

/// The face sketch `s` lies on.
pub open spec fn spec_sketch_face(doc: Document, s: SketchId) -> Option<FaceId> {
    if s < doc.sketches@.len() {
        Some(doc.sketches@[s as int].face)
    } else {
        None
    }
}

impl Document {
    /// Whether any geometry was drawn in sketch `s`.
    pub fn sketch_has_geometry(&self, s: SketchId) -> (r: bool)
        ensures
            r == spec_sketch_has_geometry(*self, s),
    {
        let mut i: usize = 0;
        while i < self.rects.len()
            invariant
                i <= self.rects@.len(),
                forall|k: int| 0 <= k < i ==> #[trigger] self.rects@[k].sketch != s,
            decreases self.rects@.len() - i,
        {
            if self.rects[i].sketch == s {
                return true;
            }
            i = i + 1;
        }
        let mut i: usize = 0;
        while i < self.lines.len()
            invariant
                i <= self.lines@.len(),
                forall|k: int| 0 <= k < i ==> #[trigger] self.lines@[k].sketch != s,
            decreases self.lines@.len() - i,
        {
            if self.lines[i].sketch == s {
                return true;
            }
            i = i + 1;
        }
        let mut i: usize = 0;
        while i < self.circles.len()
            invariant
                i <= self.circles@.len(),
                forall|k: int| 0 <= k < i ==> #[trigger] self.circles@[k].sketch != s,
            decreases self.circles@.len() - i,
        {
            if self.circles[i].sketch == s {
                return true;
            }
            i = i + 1;
        }
        false
    }

    /// Whether any sketch lies on `face`.
    pub fn has_children(&self, face: FaceId) -> (r: bool)
        ensures
            r == spec_has_children(*self, face),
    {
        let mut i: usize = 0;
        while i < self.sketches.len()
            invariant
                i <= self.sketches@.len(),
                forall|k: int| 0 <= k < i ==> #[trigger] self.sketches@[k].face != face,
            decreases self.sketches@.len() - i,
        {
            if self.sketches[i].face == face {
                return true;
            }
            i = i + 1;
        }
        false
    }

    /// The face sketch `s` lies on, if it exists.
    pub fn sketch_face(&self, s: SketchId) -> (r: Option<FaceId>)
        ensures
            r == spec_sketch_face(*self, s),
    {
        if s < self.sketches.len() {
            Some(self.sketches[s].face)
        } else {
            None
        }
    }
}

/// Indices (in order) of the sketches in `sketches` whose host face is `face`.
pub open spec fn spec_sketches_on_face(sketches: Seq<Sketch>, face: FaceId) -> Seq<usize>
    decreases sketches.len(),
{
    if sketches.len() == 0 {
        Seq::empty()
    } else {
        let prev = spec_sketches_on_face(sketches.drop_last(), face);
        if sketches.last().face == face {
            prev.push((sketches.len() - 1) as usize)
        } else {
            prev
        }
    }
}

/// Length unit in force for a sketch: its override, else the document default.
pub open spec fn spec_effective_length_unit(doc: Document, sketch: SketchId) -> LengthUnit {
    if sketch < doc.sketches@.len() && doc.sketches@[sketch as int].length_unit is Some {
        doc.sketches@[sketch as int].length_unit->Some_0
    } else {
        doc.default_length_unit
    }
}

/// Angle unit in force for a sketch: its override, else the document default.
pub open spec fn spec_effective_angle_unit(doc: Document, sketch: SketchId) -> AngleUnit {
    if sketch < doc.sketches@.len() && doc.sketches@[sketch as int].angle_unit is Some {
        doc.sketches@[sketch as int].angle_unit->Some_0
    } else {
        doc.default_angle_unit
    }
}

pub fn effective_length_unit(doc: &Document, sketch: SketchId) -> (r: LengthUnit)
    ensures
        r == spec_effective_length_unit(*doc, sketch),
{
    if sketch < doc.sketches.len() {
        match doc.sketches[sketch].length_unit {
            Some(unit) => unit,
            None => doc.default_length_unit,
        }
    } else {
        doc.default_length_unit
    }
}

pub fn effective_angle_unit(doc: &Document, sketch: SketchId) -> (r: AngleUnit)
    ensures
        r == spec_effective_angle_unit(*doc, sketch),
{
    if sketch < doc.sketches.len() {
        match doc.sketches[sketch].angle_unit {
            Some(unit) => unit,
            None => doc.default_angle_unit,
        }
    } else {
        doc.default_angle_unit
    }
}

} // verus!
