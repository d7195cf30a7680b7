//! Tools, panes, dimension-label lookups and status texts of the shared action layer.

use vstd::prelude::*;
use crate::constraints::{
    constraint_expression, find_distance_constraint, is_distance_constraint_on, ConstraintId,
};
use crate::model::{
    ConstraintKind, DimensionTarget, DistanceTarget, Document, SketchId,
    spec_rect_edge_script_name,
};
use crate::selection::{SceneElement, SceneSelection};
use crate::context::{construction_targets_from_selection, is_construction_target, strictly_sorted, target_key_lt};
use crate::document_health::{element_frozen_error, require_element_editable, DocumentHealth};
use crate::text::{
    decimal, labeled_index, lower_char, lower_eq, lower_seq, push_str, string_of,
};

verus! {

/// The active viewport tool.
#[derive(Clone, Copy, PartialEq, Eq, Debug, Structural)]
pub enum Tool {
    /// Orbit/zoom only; no drawing.
    Select,
    /// Click to fix a corner, move to the opposite corner; Enter commits.
    Rectangle,
    /// Click to fix an endpoint, move for direction and length; Enter commits.
    Line,
    /// Click to fix the center, move for the radius; Enter commits.
    Circle,
    /// Click a face or axis/line, then set offset (and angle for axes); Enter commits.
    ConstructionPlane,
    /// Pick a face to enter sketch mode.
    Sketch,
    /// Click a segment to add or edit a distance constraint.
    Dimension,
    /// Select sketch entities and apply geometric constraints.
    Constraint,
    /// Click coplanar faces, then set a distance to extrude a solid.
    Extrude,
}

impl Default for Tool {
    fn default() -> (r: Tool)
        ensures
            r == Tool::Select,
    {
        Tool::Select
    }
}

/// The tool a (lower-cased) name selects.
pub open spec fn tool_named(s: Seq<char>) -> Option<Tool> {
    if s == "select"@ {
        Some(Tool::Select)
    } else if s == "rectangle"@ || s == "rect"@ {
        Some(Tool::Rectangle)
    } else if s == "line"@ {
        Some(Tool::Line)
    } else if s == "circle"@ {
        Some(Tool::Circle)
    } else if s == "plane"@ || s == "construction_plane"@ || s == "constructionplane"@ || s
        == "construction plane"@ {
        Some(Tool::ConstructionPlane)
    } else if s == "sketch"@ {
        Some(Tool::Sketch)
    } else if s == "dimension"@ || s == "dim"@ {
        Some(Tool::Dimension)
    } else if s == "constraint"@ || s == "constraints"@ {
        Some(Tool::Constraint)
    } else if s == "extrude"@ {
        Some(Tool::Extrude)
    } else {
        None
    }
}

pub open spec fn spec_is_sketch_edit_tool(tool: Tool) -> bool {
    tool is Rectangle || tool is Line || tool is Circle || tool is Dimension || tool is Constraint
}

impl Tool {
    pub fn from_name(name: &str) -> (r: Option<Self>)
        ensures
            r == tool_named(lower_seq(name@)),
    {
        if lower_eq(name, "select") {
            Some(Tool::Select)
        } else if lower_eq(name, "rectangle") || lower_eq(name, "rect") {
            Some(Tool::Rectangle)
        } else if lower_eq(name, "line") {
            Some(Tool::Line)
        } else if lower_eq(name, "circle") {
            Some(Tool::Circle)
        } else if lower_eq(name, "plane") || lower_eq(name, "construction_plane") || lower_eq(
            name,
            "constructionplane",
        ) || lower_eq(name, "construction plane") {
            Some(Tool::ConstructionPlane)
        } else if lower_eq(name, "sketch") {
            Some(Tool::Sketch)
        } else if lower_eq(name, "dimension") || lower_eq(name, "dim") {
            Some(Tool::Dimension)
        } else if lower_eq(name, "constraint") || lower_eq(name, "constraints") {
            Some(Tool::Constraint)
        } else if lower_eq(name, "extrude") {
            Some(Tool::Extrude)
        } else {
            None
        }
    }

    pub fn is_sketch_edit_tool(self) -> (r: bool)
        ensures
            r == spec_is_sketch_edit_tool(self),
    {
        match self {
            Tool::Rectangle | Tool::Line | Tool::Circle | Tool::Dimension | Tool::Constraint => true,
            _ => false,
        }
    }
}

proof fn lemma_lower_idempotent(s: Seq<char>)
    ensures
        lower_seq(lower_seq(s)) == lower_seq(s),
{
    assert forall|i: int| 0 <= i < s.len() implies #[trigger] lower_char(lower_char(s[i])) == lower_char(s[i]) by {
        let c = s[i];
        if 'A' <= c && c <= 'Z' {
            assert('a' <= lower_char(c) && lower_char(c) <= 'z');
        }
    }
    assert(lower_seq(lower_seq(s)) =~= lower_seq(s));
}

/// Tool names are case-insensitive: two spellings that differ only in ASCII letter case
/// name the same tool, and lower-casing a name first changes nothing.
pub proof fn law_tool_names_case_insensitive(a: Seq<char>, b: Seq<char>)
    requires
        lower_seq(a) == lower_seq(b),
    ensures
        tool_named(lower_seq(a)) == tool_named(lower_seq(b)),
        tool_named(lower_seq(lower_seq(a))) == tool_named(lower_seq(a)),
{
    lemma_lower_idempotent(a);
}

/// A toggleable UI pane.
#[derive(Clone, Copy, Debug, PartialEq, Eq, Structural)]
pub enum Pane {
    /// The rotating orientation cube in the viewport corner.
    ViewCube,
    /// Scene tree with visibility toggles and sketch editing.
    Hierarchy,
    /// Named parameters and expressions.
    Parameters,
    /// Properties for the current tree selection.
    Context,
}

pub open spec fn spec_pane_label(pane: Pane) -> Seq<char> {
    match pane {
        Pane::ViewCube => "Orientation Cube"@,
        Pane::Hierarchy => "Elements"@,
        Pane::Parameters => "Parameters"@,
        Pane::Context => "Context"@,
    }
}

pub open spec fn spec_pane_script_name(pane: Pane) -> Seq<char> {
    match pane {
        Pane::ViewCube => "view_cube"@,
        Pane::Hierarchy => "hierarchy"@,
        Pane::Parameters => "parameters"@,
        Pane::Context => "context"@,
    }
}

/// The pane a (lower-cased) name selects.
pub open spec fn pane_named(s: Seq<char>) -> Option<Pane> {
    if s == "view_cube"@ || s == "viewcube"@ || s == "cube"@ || s == "hud"@ {
        Some(Pane::ViewCube)
    } else if s == "hierarchy"@ || s == "tree"@ || s == "dag"@ || s == "elements"@ {
        Some(Pane::Hierarchy)
    } else if s == "parameters"@ || s == "params"@ || s == "param"@ {
        Some(Pane::Parameters)
    } else if s == "context"@ || s == "properties"@ || s == "props"@ {
        Some(Pane::Context)
    } else {
        None
    }
}

impl Pane {
    /// Human-readable label for menus.
    pub fn label(self) -> (r: &'static str)
        ensures
            r@ == spec_pane_label(self),
    {
        match self {
            Pane::ViewCube => "Orientation Cube",
            Pane::Hierarchy => "Elements",
            Pane::Parameters => "Parameters",
            Pane::Context => "Context",
        }
    }

    /// Stable name used in instruction scripts.
    pub fn script_name(self) -> (r: &'static str)
        ensures
            r@ == spec_pane_script_name(self),
    {
        match self {
            Pane::ViewCube => "view_cube",
            Pane::Hierarchy => "hierarchy",
            Pane::Parameters => "parameters",
            Pane::Context => "context",
        }
    }

    pub fn from_name(name: &str) -> (r: Option<Self>)
        ensures
            r == pane_named(lower_seq(name@)),
    {
        if lower_eq(name, "view_cube") || lower_eq(name, "viewcube") || lower_eq(name, "cube")
            || lower_eq(name, "hud") {
            Some(Pane::ViewCube)
        } else if lower_eq(name, "hierarchy") || lower_eq(name, "tree") || lower_eq(name, "dag")
            || lower_eq(name, "elements") {
            Some(Pane::Hierarchy)
        } else if lower_eq(name, "parameters") || lower_eq(name, "params") || lower_eq(
            name,
            "param",
        ) {
            Some(Pane::Parameters)
        } else if lower_eq(name, "context") || lower_eq(name, "properties") || lower_eq(
            name,
            "props",
        ) {
            Some(Pane::Context)
        } else {
            None
        }
    }
}

/// A pane's script name, spelled in any ASCII letter case, names that pane again.
pub proof fn law_pane_script_name_round_trip(pane: Pane, name: Seq<char>)
    requires
        lower_seq(name) == spec_pane_script_name(pane),
    ensures
        pane_named(lower_seq(name)) == Some(pane),
        pane_named(lower_seq(spec_pane_script_name(pane))) == Some(pane),
{
    reveal_strlit("view_cube");
    reveal_strlit("hierarchy");
    reveal_strlit("parameters");
    reveal_strlit("context");
    reveal_strlit("viewcube");
    reveal_strlit("cube");
    reveal_strlit("hud");
    reveal_strlit("tree");
    reveal_strlit("dag");
    reveal_strlit("elements");
    reveal_strlit("params");
    reveal_strlit("param");
    reveal_strlit("properties");
    reveal_strlit("props");
    lemma_lower_idempotent(name);
    match pane {
        Pane::ViewCube => {},
        Pane::Hierarchy => {
            assert("hierarchy"@[0] != "view_cube"@[0]);
            assert("hierarchy"@[0] != "viewcube"@[0]);
        },
        Pane::Parameters => {
            assert("parameters"@[0] != "view_cube"@[0]);
            assert("parameters"@[0] != "viewcube"@[0]);
            assert("parameters"@[0] != "hierarchy"@[0]);
            assert("parameters"@[0] != "elements"@[0]);
        },
        Pane::Context => {
            assert("context"@[0] != "view_cube"@[0]);
            assert("context"@[0] != "viewcube"@[0]);
            assert("context"@[0] != "hierarchy"@[0]);
            assert("context"@[0] != "elements"@[0]);
            assert("context"@[0] != "parameters"@[0]);
            assert("context"@[0] != "tree"@[0]);
        },
    }
}

/// Which panes are currently shown.
#[derive(Clone, Copy, Debug, PartialEq, Eq, Structural)]
pub struct PaneVisibility {
    pub view_cube: bool,
    pub hierarchy: bool,
    pub parameters: bool,
    pub context: bool,
}

impl Default for PaneVisibility {
    fn default() -> (r: PaneVisibility)
        ensures
            r == (PaneVisibility { view_cube: true, hierarchy: true, parameters: true, context: true }),
    {
        PaneVisibility { view_cube: true, hierarchy: true, parameters: true, context: true }
    }
}

pub open spec fn spec_is_visible(v: PaneVisibility, pane: Pane) -> bool {
    match pane {
        Pane::ViewCube => v.view_cube,
        Pane::Hierarchy => v.hierarchy,
        Pane::Parameters => v.parameters,
        Pane::Context => v.context,
    }
}

impl PaneVisibility {
    pub fn is_visible(&self, pane: Pane) -> (r: bool)
        ensures
            r == spec_is_visible(*self, pane),
    {
        match pane {
            Pane::ViewCube => self.view_cube,
            Pane::Hierarchy => self.hierarchy,
            Pane::Parameters => self.parameters,
            Pane::Context => self.context,
        }
    }

    /// Show or hide one pane, leaving the others as they are.
    pub fn set(&mut self, pane: Pane, visible: bool)
        ensures
            spec_is_visible(*final(self), pane) == visible,
            forall|other: Pane| other != pane ==> spec_is_visible(*final(self), other)
                == spec_is_visible(*old(self), other),
    {
        match pane {
            Pane::ViewCube => self.view_cube = visible,
            Pane::Hierarchy => self.hierarchy = visible,
            Pane::Parameters => self.parameters = visible,
            Pane::Context => self.context = visible,
        }
    }

    /// Flip one pane's visibility, leaving the others as they are.
    pub fn toggle(&mut self, pane: Pane)
        ensures
            spec_is_visible(*final(self), pane) == !spec_is_visible(*old(self), pane),
            forall|other: Pane| other != pane ==> spec_is_visible(*final(self), other)
                == spec_is_visible(*old(self), other),
    {
        let next = !self.is_visible(pane);
        self.set(pane, next);
    }
}

/// Toggling the same pane twice restores every pane's visibility.
pub proof fn law_toggle_twice_restores(a: PaneVisibility, b: PaneVisibility, c: PaneVisibility, pane: Pane)
    requires
        spec_is_visible(b, pane) == !spec_is_visible(a, pane),
        forall|other: Pane| other != pane ==> spec_is_visible(b, other) == spec_is_visible(a, other),
        spec_is_visible(c, pane) == !spec_is_visible(b, pane),
        forall|other: Pane| other != pane ==> spec_is_visible(c, other) == spec_is_visible(b, other),
    ensures
        forall|other: Pane| spec_is_visible(c, other) == spec_is_visible(a, other),
{
}

#[derive(Clone, Copy, Debug, PartialEq, Eq, Structural)]
pub enum DimLabelAxis {
    Width,
    Height,
    Length,
}

pub open spec fn dim_label_axis_named(s: Seq<char>) -> Option<DimLabelAxis> {
    if s == "width"@ || s == "w"@ {
        Some(DimLabelAxis::Width)
    } else if s == "height"@ || s == "h"@ {
        Some(DimLabelAxis::Height)
    } else if s == "length"@ || s == "len"@ || s == "l"@ {
        Some(DimLabelAxis::Length)
    } else {
        None
    }
}

impl DimLabelAxis {
    pub fn from_name(name: &str) -> (r: Option<Self>)
        ensures
            r == dim_label_axis_named(lower_seq(name@)),
    {
        if lower_eq(name, "width") || lower_eq(name, "w") {
            Some(Self::Width)
        } else if lower_eq(name, "height") || lower_eq(name, "h") {
            Some(Self::Height)
        } else if lower_eq(name, "length") || lower_eq(name, "len") || lower_eq(name, "l") {
            Some(Self::Length)
        } else {
            None
        }
    }
}

/// A committed sketch dimension label the user can reposition.
pub type DimLabelTarget = ConstraintId;

/// The newest rectangle of `sketch`, if any.
pub open spec fn is_last_rect_of(doc: Document, sketch: SketchId, i: int) -> bool {
    &&& 0 <= i < doc.rects@.len()
    &&& doc.rects@[i].sketch == sketch
    &&& forall|j: int| i < j < doc.rects@.len() ==> doc.rects@[j].sketch != sketch
}

/// The newest line of `sketch`, if any.
pub open spec fn is_last_line_of(doc: Document, sketch: SketchId, i: int) -> bool {
    &&& 0 <= i < doc.lines@.len()
    &&& doc.lines@[i].sketch == sketch
    &&& forall|j: int| i < j < doc.lines@.len() ==> doc.lines@[j].sketch != sketch
}

fn last_rect_of(doc: &Document, sketch: SketchId) -> (r: Option<usize>)
    ensures
        r is Some ==> is_last_rect_of(*doc, sketch, r->Some_0 as int),
        r is None ==> forall|j: int| 0 <= j < doc.rects@.len() ==> doc.rects@[j].sketch != sketch,
{
    let mut i: usize = doc.rects.len();
    while i > 0
        invariant
            i <= doc.rects@.len(),
            forall|j: int| i <= j < doc.rects@.len() ==> doc.rects@[j].sketch != sketch,
        decreases i,
    {
        if doc.rects[i - 1].sketch == sketch {
            return Some(i - 1);
        }
        i = i - 1;
    }
    None
}

fn last_line_of(doc: &Document, sketch: SketchId) -> (r: Option<usize>)
    ensures
        r is Some ==> is_last_line_of(*doc, sketch, r->Some_0 as int),
        r is None ==> forall|j: int| 0 <= j < doc.lines@.len() ==> doc.lines@[j].sketch != sketch,
{
    let mut i: usize = doc.lines.len();
    while i > 0
        invariant
            i <= doc.lines@.len(),
            forall|j: int| i <= j < doc.lines@.len() ==> doc.lines@[j].sketch != sketch,
        decreases i,
    {
        if doc.lines[i - 1].sketch == sketch {
            return Some(i - 1);
        }
        i = i - 1;
    }
    None
}

/// The dimension target an axis label of `sketch` refers to: the width or height of its
/// newest rectangle, or the length of its newest line.
pub open spec fn dim_label_distance_target(
    doc: Document,
    sketch: SketchId,
    axis: DimLabelAxis,
    t: DistanceTarget,
) -> bool {
    match axis {
        DimLabelAxis::Width => t is RectWidth && is_last_rect_of(doc, sketch, t->RectWidth_0 as int),
        DimLabelAxis::Height => t is RectHeight && is_last_rect_of(
            doc,
            sketch,
            t->RectHeight_0 as int,
        ),
        DimLabelAxis::Length => t is LineLength && is_last_line_of(
            doc,
            sketch,
            t->LineLength_0 as int,
        ),
    }
}

/// An axis label refers to one dimension target only, and a target has one first live
/// distance constraint: so the constraint behind a label is exactly what looking up the
/// first distance constraint on the label's target (the newest rectangle's width or height,
/// or the newest line's length) finds.
pub proof fn law_dim_label_is_first_constraint_of_its_target(
    doc: Document,
    sketch: SketchId,
    axis: DimLabelAxis,
    t: DistanceTarget,
    u: DistanceTarget,
    i: int,
    k: int,
)
    requires
        dim_label_distance_target(doc, sketch, axis, t),
        dim_label_distance_target(doc, sketch, axis, u),
        is_distance_constraint_on(doc, i, t),
        forall|j: int| 0 <= j < i ==> !#[trigger] is_distance_constraint_on(doc, j, t),
        is_distance_constraint_on(doc, k, u),
        forall|j: int| 0 <= j < k ==> !#[trigger] is_distance_constraint_on(doc, j, u),
    ensures
        t == u,
        i == k,
{
    match axis {
        DimLabelAxis::Width => {
            let a = t->RectWidth_0 as int;
            let b = u->RectWidth_0 as int;
            if a < b {
                assert(doc.rects@[b].sketch != sketch);
            } else if b < a {
                assert(doc.rects@[a].sketch != sketch);
            }
        },
        DimLabelAxis::Height => {
            let a = t->RectHeight_0 as int;
            let b = u->RectHeight_0 as int;
            if a < b {
                assert(doc.rects@[b].sketch != sketch);
            } else if b < a {
                assert(doc.rects@[a].sketch != sketch);
            }
        },
        DimLabelAxis::Length => {
            let a = t->LineLength_0 as int;
            let b = u->LineLength_0 as int;
            if a < b {
                assert(doc.lines@[b].sketch != sketch);
            } else if b < a {
                assert(doc.lines@[a].sketch != sketch);
            }
        },
    }
    if i < k {
        assert(!is_distance_constraint_on(doc, i, u));
    } else if k < i {
        assert(!is_distance_constraint_on(doc, k, t));
    }
}

/// The committed distance constraint behind an axis label of `sketch`, if any.
pub fn dim_label_target_in_sketch(doc: &Document, sketch: SketchId, axis: DimLabelAxis) -> (r:
    Option<DimLabelTarget>)
    ensures
        r is Some ==> exists|t: DistanceTarget|
            dim_label_distance_target(*doc, sketch, axis, t) && {
                let i = r->Some_0 as int;
                &&& is_distance_constraint_on(*doc, i, t)
                &&& forall|j: int| 0 <= j < i ==> !#[trigger] is_distance_constraint_on(*doc, j, t)
            },
        r is None ==> forall|t: DistanceTarget|
            dim_label_distance_target(*doc, sketch, axis, t) ==> forall|j: int|
                !#[trigger] is_distance_constraint_on(*doc, j, t),
{
    let target = match axis {
        DimLabelAxis::Width => match last_rect_of(doc, sketch) {
            Some(index) => DistanceTarget::RectWidth(index),
            None => return None,
        },
        DimLabelAxis::Height => match last_rect_of(doc, sketch) {
            Some(index) => DistanceTarget::RectHeight(index),
            None => return None,
        },
        DimLabelAxis::Length => match last_line_of(doc, sketch) {
            Some(index) => DistanceTarget::LineLength(index),
            None => return None,
        },
    };
    let r = find_distance_constraint(doc, target);
    proof {
        assert(dim_label_distance_target(*doc, sketch, axis, target));
        assert forall|t: DistanceTarget|
            dim_label_distance_target(*doc, sketch, axis, t) implies t == target by {
            match axis {
                DimLabelAxis::Width => {
                    let a = t->RectWidth_0 as int;
                    let b = target->RectWidth_0 as int;
                    if a < b {
                        assert(doc.rects@[b].sketch == sketch);
                    } else if b < a {
                        assert(doc.rects@[a].sketch == sketch);
                    }
                },
                DimLabelAxis::Height => {
                    let a = t->RectHeight_0 as int;
                    let b = target->RectHeight_0 as int;
                    if a < b {
                        assert(doc.rects@[b].sketch == sketch);
                    } else if b < a {
                        assert(doc.rects@[a].sketch == sketch);
                    }
                },
                DimLabelAxis::Length => {
                    let a = t->LineLength_0 as int;
                    let b = target->LineLength_0 as int;
                    if a < b {
                        assert(doc.lines@[b].sketch == sketch);
                    } else if b < a {
                        assert(doc.lines@[a].sketch == sketch);
                    }
                },
            }
        }
    }
    r
}

#[derive(Clone, Copy, Debug, PartialEq, Eq, Structural)]
pub enum RectAxis {
    Width,
    Height,
}

pub open spec fn rect_axis_named(s: Seq<char>) -> Option<RectAxis> {
    if s == "width"@ || s == "w"@ {
        Some(RectAxis::Width)
    } else if s == "height"@ || s == "h"@ {
        Some(RectAxis::Height)
    } else {
        None
    }
}

impl RectAxis {
    pub fn from_name(name: &str) -> (r: Option<Self>)
        ensures
            r == rect_axis_named(lower_seq(name@)),
    {
        if lower_eq(name, "width") || lower_eq(name, "w") {
            Some(RectAxis::Width)
        } else if lower_eq(name, "height") || lower_eq(name, "h") {
            Some(RectAxis::Height)
        } else {
            None
        }
    }

    pub fn index(self) -> (r: usize)
        ensures
            r == (match self {
                RectAxis::Width => 0usize,
                RectAxis::Height => 1usize,
            }),
    {
        match self {
            RectAxis::Width => 0,
            RectAxis::Height => 1,
        }
    }
}

/// Constraint `target` is a live-or-dead distance constraint on a rectangle side of `axis`.
pub open spec fn spec_matches_rect_axis(doc: Document, target: DimLabelTarget, axis: RectAxis) -> bool {
    target < doc.constraints@.len() && match (doc.constraints@[target as int].kind, axis) {
        (ConstraintKind::Distance { target: DistanceTarget::RectWidth(_) }, RectAxis::Width) => true,
        (ConstraintKind::Distance { target: DistanceTarget::RectHeight(_) }, RectAxis::Height) => true,
        _ => false,
    }
}

pub open spec fn spec_is_line_length(doc: Document, target: DimLabelTarget) -> bool {
    target < doc.constraints@.len() && doc.constraints@[target as int].kind matches ConstraintKind::Distance {
        target: DistanceTarget::LineLength(_),
    }
}

pub open spec fn spec_is_circle_diameter(doc: Document, target: DimLabelTarget) -> bool {
    target < doc.constraints@.len() && doc.constraints@[target as int].kind matches ConstraintKind::Distance {
        target: DistanceTarget::CircleDiameter(_),
    }
}

pub open spec fn spec_is_angle(doc: Document, target: DimLabelTarget) -> bool {
    target < doc.constraints@.len() && doc.constraints@[target as int].kind is Angle
}

/// Whether a constraint edit applies to a rectangle axis.
pub fn constraint_matches_rect_axis(doc: &Document, target: DimLabelTarget, axis: RectAxis) -> (r: bool)
    ensures
        r == spec_matches_rect_axis(*doc, target, axis),
{
    if target >= doc.constraints.len() {
        return false;
    }
    match (doc.constraints[target].kind, axis) {
        (ConstraintKind::Distance { target: DistanceTarget::RectWidth(_) }, RectAxis::Width) => true,
        (ConstraintKind::Distance { target: DistanceTarget::RectHeight(_) }, RectAxis::Height) => true,
        _ => false,
    }
}

pub fn constraint_is_line_length(doc: &Document, target: DimLabelTarget) -> (r: bool)
    ensures
        r == spec_is_line_length(*doc, target),
{
    target < doc.constraints.len() && match doc.constraints[target].kind {
        ConstraintKind::Distance { target: DistanceTarget::LineLength(_) } => true,
        _ => false,
    }
}

pub fn constraint_is_circle_diameter(doc: &Document, target: DimLabelTarget) -> (r: bool)
    ensures
        r == spec_is_circle_diameter(*doc, target),
{
    target < doc.constraints.len() && match doc.constraints[target].kind {
        ConstraintKind::Distance { target: DistanceTarget::CircleDiameter(_) } => true,
        _ => false,
    }
}

pub fn constraint_is_angle(doc: &Document, target: DimLabelTarget) -> (r: bool)
    ensures
        r == spec_is_angle(*doc, target),
{
    target < doc.constraints.len() && match doc.constraints[target].kind {
        ConstraintKind::Angle { .. } => true,
        _ => false,
    }
}

/// The label axis a committed constraint is shown on: rectangle width, then height, then
/// line length.
pub open spec fn spec_dim_label_axis_for_target(doc: Document, target: DimLabelTarget) -> Option<
    DimLabelAxis,
> {
    if spec_matches_rect_axis(doc, target, RectAxis::Width) {
        Some(DimLabelAxis::Width)
    } else if spec_matches_rect_axis(doc, target, RectAxis::Height) {
        Some(DimLabelAxis::Height)
    } else if spec_is_line_length(doc, target) {
        Some(DimLabelAxis::Length)
    } else {
        None
    }
}

pub fn dim_label_axis_for_target(doc: &Document, target: DimLabelTarget) -> (r: Option<DimLabelAxis>)
    ensures
        r == spec_dim_label_axis_for_target(*doc, target),
{
    if constraint_matches_rect_axis(doc, target, RectAxis::Width) {
        Some(DimLabelAxis::Width)
    } else if constraint_matches_rect_axis(doc, target, RectAxis::Height) {
        Some(DimLabelAxis::Height)
    } else if constraint_is_line_length(doc, target) {
        Some(DimLabelAxis::Length)
    } else {
        None
    }
}

/// In-progress edit of a sketch dimension.
#[derive(Clone, Copy, Debug, PartialEq, Eq, Structural)]
pub enum DimEditTarget {
    Constraint(ConstraintId),
    New(DimensionTarget),
}

/// The dimension an edit target stands for: a new target as given, or the target of an
/// existing distance or angle constraint.
pub open spec fn spec_dimension_target(t: DimEditTarget, doc: Document) -> Option<DimensionTarget> {
    match t {
        DimEditTarget::New(target) => Some(target),
        DimEditTarget::Constraint(id) => if id < doc.constraints@.len() {
            match doc.constraints@[id as int].kind {
                ConstraintKind::Distance { target } => Some(DimensionTarget::Distance(target)),
                ConstraintKind::Angle { line_a, line_b, rotation_sign } => Some(
                    DimensionTarget::Angle { line_a, line_b, rotation_sign },
                ),
                _ => None,
            }
        } else {
            None
        },
    }
}

impl DimEditTarget {
    pub fn dimension_target(&self, doc: &Document) -> (r: Option<DimensionTarget>)
        ensures
            r == spec_dimension_target(*self, *doc),
    {
        match self {
            DimEditTarget::New(target) => Some(*target),
            DimEditTarget::Constraint(id) => {
                if *id >= doc.constraints.len() {
                    return None;
                }
                match doc.constraints[*id].kind {
                    ConstraintKind::Distance { target } => Some(DimensionTarget::Distance(target)),
                    ConstraintKind::Angle { line_a, line_b, rotation_sign } => Some(
                        DimensionTarget::Angle { line_a, line_b, rotation_sign },
                    ),
                    _ => None,
                }
            },
        }
    }

    pub fn distance_target(&self, doc: &Document) -> (r: Option<DistanceTarget>)
        ensures
            r == (match spec_dimension_target(*self, *doc) {
                Some(DimensionTarget::Distance(target)) => Some(target),
                _ => None::<DistanceTarget>,
            }),
    {
        match self.dimension_target(doc) {
            Some(DimensionTarget::Distance(target)) => Some(target),
            _ => None,
        }
    }

    pub fn is_angle(&self, doc: &Document) -> (r: bool)
        ensures
            r == (spec_dimension_target(*self, *doc) matches Some(DimensionTarget::Angle { .. })),
    {
        match self.dimension_target(doc) {
            Some(DimensionTarget::Angle { .. }) => true,
            _ => false,
        }
    }
}

#[derive(Clone, Debug)]
pub struct EditingCommittedDim {
    pub target: DimEditTarget,
    pub text: String,
    pub pending_focus: bool,
}

/// Committed angle constraint whose gizmo should be visible while its text field is open.
pub fn angle_gizmo_constraint_for_edit(edit: Option<&EditingCommittedDim>, doc: &Document) -> (r:
    Option<ConstraintId>)
    ensures
        r == (match edit {
            Some(e) => if spec_dimension_target(e.target, *doc) matches Some(
                DimensionTarget::Angle { .. },
            ) {
                match e.target {
                    DimEditTarget::Constraint(id) => Some(id),
                    DimEditTarget::New(_) => None::<ConstraintId>,
                }
            } else {
                None::<ConstraintId>
            },
            None => None::<ConstraintId>,
        }),
{
    let edit = match edit {
        Some(e) => e,
        None => return None,
    };
    if !edit.target.is_angle(doc) {
        return None;
    }
    match edit.target {
        DimEditTarget::Constraint(id) => Some(id),
        DimEditTarget::New(_) => None,
    }
}

/// Expression text shown when editing a committed dimension.
pub fn committed_dim_expression(doc: &Document, target: DimLabelTarget) -> (r: Option<String>)
    ensures
        r is Some <==> target < doc.constraints@.len(),
        r is Some ==> r->Some_0@ == doc.constraints@[target as int].expression@,
{
    constraint_expression(doc, target)
}

/// A rectangle being drawn: the typed width and height texts and the construction mode (its
/// corners stay with the viewport).
#[derive(Clone, Debug)]
pub struct RectDraft {
    pub width_text: String,
    pub height_text: String,
    /// 0 = width, 1 = height.
    pub focused: usize,
    pub width_edited: bool,
    pub height_edited: bool,
    /// The focused text field should claim keyboard focus.
    pub pending_focus: bool,
    pub construction: bool,
}

/// A line or circle being drawn: the typed length or diameter text and the construction
/// mode.
#[derive(Clone, Debug)]
pub struct SegmentDraft {
    pub text: String,
    pub user_edited: bool,
    /// The text field should claim keyboard focus.
    pub pending_focus: bool,
    pub construction: bool,
}

impl RectDraft {
    /// A rectangle just started, with nothing typed.
    pub fn new(construction: bool) -> (r: RectDraft)
        ensures
            r.width_text@ == Seq::<char>::empty(),
            r.height_text@ == Seq::<char>::empty(),
            r.focused == 0,
            !r.width_edited,
            !r.height_edited,
            !r.pending_focus,
            r.construction == construction,
    {
        RectDraft {
            width_text: String::new(),
            height_text: String::new(),
            focused: 0,
            width_edited: false,
            height_edited: false,
            pending_focus: false,
            construction,
        }
    }
}

impl SegmentDraft {
    /// A line or circle just started, with nothing typed.
    pub fn new(construction: bool) -> (r: SegmentDraft)
        ensures
            r.text@ == Seq::<char>::empty(),
            !r.user_edited,
            !r.pending_focus,
            r.construction == construction,
    {
        SegmentDraft { text: String::new(), user_edited: false, pending_focus: false, construction }
    }
}

/// Active sketch session: new geometry is parented to this sketch until exit.
#[derive(Clone, Copy, Debug, PartialEq, Eq, Structural)]
pub struct SketchSession {
    pub sketch: SketchId,
}

/// Transient UI state for the command palette.
#[derive(Clone, Debug)]
pub struct CommandPaletteState {
    pub open: bool,
    pub query: String,
    pub selected: usize,
    pub request_focus: bool,
    /// Previous query text; used to reset selection when the filter changes.
    pub prior_query: String,
}

impl Default for CommandPaletteState {
    fn default() -> (r: CommandPaletteState)
        ensures
            !r.open,
            r.query@ == Seq::<char>::empty(),
            r.selected == 0,
            !r.request_focus,
            r.prior_query@ == Seq::<char>::empty(),
    {
        CommandPaletteState {
            open: false,
            query: String::new(),
            selected: 0,
            request_focus: false,
            prior_query: String::new(),
        }
    }
}

impl CommandPaletteState {
    /// Open with an empty query and request keyboard focus.
    pub fn open_palette(&mut self)
        ensures
            final(self).open,
            final(self).query@ == Seq::<char>::empty(),
            final(self).prior_query@ == Seq::<char>::empty(),
            final(self).selected == 0,
            final(self).request_focus,
    {
        self.open = true;
        self.query = String::new();
        self.prior_query = String::new();
        self.selected = 0;
        self.request_focus = true;
    }

    /// Close and reset.
    pub fn close_palette(&mut self)
        ensures
            !final(self).open,
            final(self).query@ == Seq::<char>::empty(),
            final(self).prior_query@ == Seq::<char>::empty(),
            final(self).selected == 0,
            !final(self).request_focus,
    {
        self.open = false;
        self.query = String::new();
        self.prior_query = String::new();
        self.selected = 0;
        self.request_focus = false;
    }
}

/// Result of dispatching an action.
#[derive(Clone, Debug, PartialEq, Eq)]
pub enum ActionResult {
    /// The action was applied.
    Applied,
    /// Action needs a file path from a dialog (GUI-only).
    NeedsDialog,
    /// The action was refused, with the reason.
    Failed(String),
}

/// A face of a profile that can be extruded.
#[derive(Clone, Copy, Debug, PartialEq, Eq, Hash, Structural)]
pub enum ExtrudeFace {
    Rect(usize),
    Circle(usize),
}

/// The sketch a profile face belongs to.
pub fn extrude_face_sketch(doc: &Document, face: ExtrudeFace) -> (r: Option<SketchId>)
    ensures
        r == (match face {
            ExtrudeFace::Rect(i) => if i < doc.rects@.len() {
                Some(doc.rects@[i as int].sketch)
            } else {
                None::<SketchId>
            },
            ExtrudeFace::Circle(i) => if i < doc.circles@.len() {
                Some(doc.circles@[i as int].sketch)
            } else {
                None::<SketchId>
            },
        }),
{
    match face {
        ExtrudeFace::Rect(i) => if i < doc.rects.len() {
            Some(doc.rects[i].sketch)
        } else {
            None
        },
        ExtrudeFace::Circle(i) => if i < doc.circles.len() {
            Some(doc.circles[i].sketch)
        } else {
            None
        },
    }
}

} // verus!

verus! {

pub open spec fn spec_pane_status(pane: Pane, visible: bool) -> Seq<char> {
    spec_pane_label(pane) + " "@ + if visible {
        "shown"@
    } else {
        "hidden"@
    }
}

/// Status line after showing or hiding a pane.
pub fn pane_status(pane: Pane, visible: bool) -> (r: String)
    ensures
        r@ == spec_pane_status(pane, visible),
{
    let mut s = string_of(pane.label());
    push_str(&mut s, " ");
    push_str(&mut s, if visible { "shown" } else { "hidden" });
    s
}

pub open spec fn spec_draw_mode_status(tool: Seq<char>, construction: bool) -> Seq<char> {
    tool + " draw mode: "@ + if construction {
        "construction"@
    } else {
        "substantial"@
    }
}

/// Status line after switching a drawing tool between construction and substantial.
pub fn draw_mode_status(tool: &str, construction: bool) -> (r: String)
    ensures
        r@ == spec_draw_mode_status(tool@, construction),
{
    let mut s = string_of(tool);
    push_str(&mut s, " draw mode: ");
    push_str(&mut s, if construction { "construction" } else { "substantial" });
    s
}

pub open spec fn spec_distance_target_status_label(target: DistanceTarget) -> Seq<char> {
    match target {
        DistanceTarget::LineLength(i) => "line "@ + decimal(i as nat),
        DistanceTarget::RectWidth(i) => "rectangle "@ + decimal(i as nat) + " width"@,
        DistanceTarget::RectHeight(i) => "rectangle "@ + decimal(i as nat) + " height"@,
        DistanceTarget::CircleDiameter(i) => "circle "@ + decimal(i as nat) + " diameter"@,
        DistanceTarget::LineLineDistance { .. } => "parallel line spacing"@,
        DistanceTarget::PointPointDistance { .. } => "point distance"@,
        DistanceTarget::PointLineDistance { .. } => "point-line distance"@,
    }
}

pub fn distance_target_status_label(target: DistanceTarget) -> (r: String)
    ensures
        r@ == spec_distance_target_status_label(target),
{
    match target {
        DistanceTarget::LineLength(i) => {
            let r = labeled_index("line ", i, "");
            proof {
                reveal_strlit("");
                assert(r@ =~= "line "@ + decimal(i as nat));
            }
            r
        },
        DistanceTarget::RectWidth(i) => labeled_index("rectangle ", i, " width"),
        DistanceTarget::RectHeight(i) => labeled_index("rectangle ", i, " height"),
        DistanceTarget::CircleDiameter(i) => labeled_index("circle ", i, " diameter"),
        DistanceTarget::LineLineDistance { .. } => string_of("parallel line spacing"),
        DistanceTarget::PointPointDistance { .. } => string_of("point distance"),
        DistanceTarget::PointLineDistance { .. } => string_of("point-line distance"),
    }
}

pub open spec fn spec_dimension_target_status_label(target: DimensionTarget) -> Seq<char> {
    match target {
        DimensionTarget::Distance(distance) => spec_distance_target_status_label(distance),
        DimensionTarget::Angle { .. } => "angle"@,
    }
}

pub fn dimension_target_status_label(target: DimensionTarget) -> (r: String)
    ensures
        r@ == spec_dimension_target_status_label(target),
{
    match target {
        DimensionTarget::Distance(distance) => distance_target_status_label(distance),
        DimensionTarget::Angle { .. } => string_of("angle"),
    }
}

pub open spec fn spec_element_label(element: SceneElement) -> Seq<char> {
    match element {
        SceneElement::ConstructionPlane(i) => "Construction plane "@ + decimal(i as nat),
        SceneElement::Sketch(i) => "Sketch "@ + decimal(i as nat),
        SceneElement::Rect(i) => "Rectangle "@ + decimal(i as nat),
        SceneElement::Line(i) => "Line "@ + decimal(i as nat),
        SceneElement::Circle(i) => "Circle "@ + decimal(i as nat),
        SceneElement::RectEdge(i, edge) => "Rectangle "@ + decimal(i as nat) + " "@
            + spec_rect_edge_script_name(edge) + " edge"@,
        SceneElement::Constraint(i) => "Constraint "@ + decimal(i as nat),
        SceneElement::Point(_) => "Point"@,
        SceneElement::Extrusion(i) => "Extrusion "@ + decimal(i as nat),
        SceneElement::Body(i) => "Body "@ + decimal(i as nat),
    }
}

/// Human-readable name of a scene element for status messages.
pub fn element_label(element: SceneElement) -> (r: String)
    ensures
        r@ == spec_element_label(element),
{
    let r = match element {
        SceneElement::ConstructionPlane(i) => labeled_index("Construction plane ", i, ""),
        SceneElement::Sketch(i) => labeled_index("Sketch ", i, ""),
        SceneElement::Rect(i) => labeled_index("Rectangle ", i, ""),
        SceneElement::Line(i) => labeled_index("Line ", i, ""),
        SceneElement::Circle(i) => labeled_index("Circle ", i, ""),
        SceneElement::RectEdge(i, edge) => {
            let mut s = labeled_index("Rectangle ", i, " ");
            push_str(&mut s, edge.script_name());
            push_str(&mut s, " edge");
            s
        },
        SceneElement::Constraint(i) => labeled_index("Constraint ", i, ""),
        SceneElement::Point(_) => string_of("Point"),
        SceneElement::Extrusion(i) => labeled_index("Extrusion ", i, ""),
        SceneElement::Body(i) => labeled_index("Body ", i, ""),
    };
    proof {
        reveal_strlit("");
        assert(forall|x: Seq<char>| x + ""@ =~= x);
    }
    r
}


/// Refuse a construction change when one of the selected lines or circles is frozen: the
/// error of the first one, in line-then-circle index order.
pub fn require_construction_targets_editable(health: &DocumentHealth, selection: &SceneSelection) -> (r: Result<(), String>)
    ensures
        r is Ok <==> forall|e: SceneElement|
            selection@.contains(e) && is_construction_target(e) ==> #[trigger] element_frozen_error(*health, e) is None,
        r is Err ==> exists|e: SceneElement|
            selection@.contains(e) && is_construction_target(e) && #[trigger] element_frozen_error(*health, e)
                == Some(r->Err_0@) && forall|f: SceneElement|
                selection@.contains(f) && is_construction_target(f) && target_key_lt(f, e)
                    ==> #[trigger] element_frozen_error(*health, f) is None,
{
    let targets = construction_targets_from_selection(selection);
    let mut i: usize = 0;
    while i < targets.len()
        invariant
            i <= targets@.len(),
            strictly_sorted(targets@),
            forall|e: SceneElement|
                #![trigger targets@.contains(e)]
                targets@.contains(e) <==> (selection@.contains(e) && is_construction_target(e)),
            forall|k: int| 0 <= k < i ==> element_frozen_error(*health, #[trigger] targets@[k]) is None,
        decreases targets@.len() - i,
    {
        match require_element_editable(health, targets[i]) {
            Err(m) => {
                proof {
                    let e = targets@[i as int];
                    assert(targets@.contains(e));
                    assert forall|f: SceneElement|
                        selection@.contains(f) && is_construction_target(f) && target_key_lt(f, e)
                            implies #[trigger] element_frozen_error(*health, f) is None by {
                        assert(targets@.contains(f));
                        let k = choose|k: int| 0 <= k < targets@.len() && targets@[k] == f;
                        if k >= i {
                            if k > i {
                                assert(target_key_lt(targets@[i as int], targets@[k]));
                            }
                        }
                    }
                }
                return Err(m);
            },
            Ok(()) => {},
        }
        i = i + 1;
    }
    proof {
        assert forall|e: SceneElement|
            selection@.contains(e) && is_construction_target(e) implies #[trigger] element_frozen_error(*health, e) is None by {
            assert(targets@.contains(e));
            let k = choose|k: int| 0 <= k < targets@.len() && targets@[k] == e;
        }
    }
    Ok(())
}

} // verus!
