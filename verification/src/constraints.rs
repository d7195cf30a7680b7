//! Sketch constraints: lookup, normalisation of dimension targets, and bookkeeping rules.

use vstd::prelude::*;
use crate::model::{
    Constraint, ConstraintEntity, ConstraintKind, ConstraintLine, ConstraintPoint, ConstraintSign,
    DimensionTarget, DistanceTarget, Document, RectEdge, ShapeKind, SketchId, rect_edge_index,
    default_constraint_sign, spec_default_constraint_sign,
};
use crate::selection::{SceneElement, SceneSelection};
use crate::geometric_constraints::{ConstraintRef, selected_constraint_refs, spec_constraint_refs};
use crate::construction::PickTargetKind;
use crate::text::{decimal, labeled_index, push_decimal, push_str, string_of, trimmed, trimmed_string};
use crate::expression_input::{renamed_from, str_eq, substitute_parameter_name};
use crate::legacy_dimensions::{
    dimension_lock, geometry_but_locks, has_lock_flag, lemma_last_constraint_locks, locks_in_sync,
    refresh_dimension_locks,
};
use crate::document_lifecycle::spec_distance_target_alive;

verus! {

/// Index into [`Document::constraints`].
pub type ConstraintId = usize;

/// Ordering key of a constraint line: plain lines before rectangle edges, then by index.
pub open spec fn line_key_le(a: ConstraintLine, b: ConstraintLine) -> bool {
    match (a, b) {
        (ConstraintLine::Line(i), ConstraintLine::Line(j)) => i <= j,
        (ConstraintLine::Line(_), ConstraintLine::RectEdge { .. }) => true,
        (ConstraintLine::RectEdge { .. }, ConstraintLine::Line(_)) => false,
        (
            ConstraintLine::RectEdge { rect: r1, edge: e1 },
            ConstraintLine::RectEdge { rect: r2, edge: e2 },
        ) => r1 < r2 || (r1 == r2 && rect_edge_index(e1) <= rect_edge_index(e2)),
    }
}

/// The pair in canonical order.
pub open spec fn spec_normalize_line_pair(a: ConstraintLine, b: ConstraintLine) -> (
    ConstraintLine,
    ConstraintLine,
) {
    if line_key_le(a, b) {
        (a, b)
    } else {
        (b, a)
    }
}

fn line_key_le_exec(a: ConstraintLine, b: ConstraintLine) -> (r: bool)
    ensures
        r == line_key_le(a, b),
{
    match (a, b) {
        (ConstraintLine::Line(i), ConstraintLine::Line(j)) => i <= j,
        (ConstraintLine::Line(_), ConstraintLine::RectEdge { .. }) => true,
        (ConstraintLine::RectEdge { .. }, ConstraintLine::Line(_)) => false,
        (
            ConstraintLine::RectEdge { rect: r1, edge: e1 },
            ConstraintLine::RectEdge { rect: r2, edge: e2 },
        ) => r1 < r2 || (r1 == r2 && e1.index() <= e2.index()),
    }
}

pub fn normalize_line_pair(a: ConstraintLine, b: ConstraintLine) -> (r: (
    ConstraintLine,
    ConstraintLine,
))
    ensures
        r == spec_normalize_line_pair(a, b),
{
    if line_key_le_exec(a, b) {
        (a, b)
    } else {
        (b, a)
    }
}

/// A distance target in canonical form: line-spacing pairs are ordered.
pub open spec fn spec_normalize_distance_target(target: DistanceTarget) -> DistanceTarget {
    match target {
        DistanceTarget::LineLineDistance { line_a, line_b, side } => {
            let (a, b) = spec_normalize_line_pair(line_a, line_b);
            DistanceTarget::LineLineDistance { line_a: a, line_b: b, side }
        },
        other => other,
    }
}

pub fn normalize_distance_target(target: DistanceTarget) -> (r: DistanceTarget)
    ensures
        r == spec_normalize_distance_target(target),
{
    match target {
        DistanceTarget::LineLineDistance { line_a, line_b, side } => {
            let (line_a, line_b) = normalize_line_pair(line_a, line_b);
            DistanceTarget::LineLineDistance { line_a, line_b, side }
        },
        other => other,
    }
}

/// Constraint `i` is a live distance constraint on `target` (up to normalisation).
pub open spec fn is_distance_constraint_on(doc: Document, i: int, target: DistanceTarget) -> bool {
    &&& 0 <= i < doc.constraints@.len()
    &&& !doc.constraints@[i].deleted
    &&& doc.constraints@[i].kind matches ConstraintKind::Distance { target: t }
        && spec_normalize_distance_target(t) == spec_normalize_distance_target(target)
}

pub fn find_distance_constraint(doc: &Document, target: DistanceTarget) -> (r: Option<ConstraintId>)
    ensures
        r is Some ==> {
            let i = r->Some_0 as int;
            &&& is_distance_constraint_on(*doc, i, target)
            &&& forall|j: int| 0 <= j < i ==> !#[trigger] is_distance_constraint_on(*doc, j, target)
        },
        r is None ==> forall|j: int| !#[trigger] is_distance_constraint_on(*doc, j, target),
{
    let normalized = normalize_distance_target(target);
    let mut i: usize = 0;
    while i < doc.constraints.len()
        invariant
            i <= doc.constraints@.len(),
            normalized == spec_normalize_distance_target(target),
            forall|j: int| 0 <= j < i ==> !is_distance_constraint_on(*doc, j, target),
        decreases doc.constraints@.len() - i,
    {
        let c = &doc.constraints[i];
        if !c.deleted {
            match c.kind {
                ConstraintKind::Distance { target: t } => {
                    if normalize_distance_target(t) == normalized {
                        return Some(i);
                    }
                },
                _ => {},
            }
        }
        i = i + 1;
    }
    None
}

/// Constraint `i` is a live angle constraint between exactly `line_a` and `line_b` as stored.
pub open spec fn is_angle_constraint_on(
    doc: Document,
    i: int,
    line_a: ConstraintLine,
    line_b: ConstraintLine,
) -> bool {
    &&& 0 <= i < doc.constraints@.len()
    &&& !doc.constraints@[i].deleted
    &&& doc.constraints@[i].kind matches ConstraintKind::Angle { line_a: a, line_b: b, .. }
        && a == line_a && b == line_b
}

/// Constraint `i` is a live angle constraint on the (normalised) pair `line_a`, `line_b`.
pub open spec fn angle_matches(doc: Document, i: int, line_a: ConstraintLine, line_b: ConstraintLine) -> bool {
    is_angle_constraint_on(
        doc,
        i,
        spec_normalize_line_pair(line_a, line_b).0,
        spec_normalize_line_pair(line_a, line_b).1,
    )
}

pub fn find_angle_constraint(
    doc: &Document,
    line_a: ConstraintLine,
    line_b: ConstraintLine,
) -> (r: Option<ConstraintId>)
    ensures
        r is Some ==> {
            let i = r->Some_0 as int;
            &&& angle_matches(*doc, i, line_a, line_b)
            &&& forall|j: int| 0 <= j < i ==> !#[trigger] angle_matches(*doc, j, line_a, line_b)
        },
        r is None ==> forall|j: int| !#[trigger] angle_matches(*doc, j, line_a, line_b),
{
    let pair = normalize_line_pair(line_a, line_b);
    let na = pair.0;
    let nb = pair.1;
    let mut i: usize = 0;
    while i < doc.constraints.len()
        invariant
            i <= doc.constraints@.len(),
            na == spec_normalize_line_pair(line_a, line_b).0,
            nb == spec_normalize_line_pair(line_a, line_b).1,
            forall|j: int| 0 <= j < i ==> !#[trigger] angle_matches(*doc, j, line_a, line_b),
        decreases doc.constraints@.len() - i,
    {
        let c = &doc.constraints[i];
        if !c.deleted {
            match c.kind {
                ConstraintKind::Angle { line_a: a, line_b: b, .. } => {
                    if a == na && b == nb {
                        return Some(i);
                    }
                },
                _ => {},
            }
        }
        i = i + 1;
    }
    None
}

/// The live constraint already dimensioning `target`, if any.
pub open spec fn dimension_constraint_matches(doc: Document, target: DimensionTarget, i: int) -> bool {
    match target {
        DimensionTarget::Distance(distance) => is_distance_constraint_on(doc, i, distance),
        DimensionTarget::Angle { line_a, line_b, .. } => angle_matches(doc, i, line_a, line_b),
    }
}

pub fn find_dimension_constraint(doc: &Document, target: DimensionTarget) -> (r: Option<ConstraintId>)
    ensures
        r is Some ==> {
            let i = r->Some_0 as int;
            &&& dimension_constraint_matches(*doc, target, i)
            &&& forall|j: int| 0 <= j < i ==> !#[trigger] dimension_constraint_matches(*doc, target, j)
        },
        r is None ==> forall|j: int| !#[trigger] dimension_constraint_matches(*doc, target, j),
{
    match target {
        DimensionTarget::Distance(distance) => find_distance_constraint(doc, distance),
        DimensionTarget::Angle { line_a, line_b, rotation_sign: _ } => find_angle_constraint(
            doc,
            line_a,
            line_b,
        ),
    }
}

/// The expression text of constraint `index`, if it exists.
pub fn constraint_expression(doc: &Document, index: ConstraintId) -> (r: Option<String>)
    ensures
        r is Some <==> index < doc.constraints@.len(),
        r is Some ==> r->Some_0@ == doc.constraints@[index as int].expression@,
{
    if index < doc.constraints.len() {
        Some(doc.constraints[index].expression.clone())
    } else {
        None
    }
}

/// The distance target a scene element stands for in `sketch`: a line's length, a
/// rectangle's width (bottom/top edge) or height (left/right edge), a circle's diameter.
pub open spec fn spec_distance_target_from_element(
    doc: Document,
    sketch: SketchId,
    element: SceneElement,
) -> Option<DistanceTarget> {
    match element {
        SceneElement::Line(i) => if i < doc.lines@.len() && doc.lines@[i as int].sketch == sketch {
            Some(DistanceTarget::LineLength(i))
        } else {
            None
        },
        SceneElement::RectEdge(r, edge) => if r < doc.rects@.len() && doc.rects@[r as int].sketch
            == sketch {
            match edge {
                RectEdge::Bottom | RectEdge::Top => Some(DistanceTarget::RectWidth(r)),
                RectEdge::Left | RectEdge::Right => Some(DistanceTarget::RectHeight(r)),
            }
        } else {
            None
        },
        SceneElement::Circle(i) => if i < doc.circles@.len() && doc.circles@[i as int].sketch
            == sketch {
            Some(DistanceTarget::CircleDiameter(i))
        } else {
            None
        },
        _ => None,
    }
}

/// Map a scene element to a distance target in the active sketch.
pub fn distance_target_from_scene_element(
    doc: &Document,
    sketch: SketchId,
    element: SceneElement,
) -> (r: Option<DistanceTarget>)
    ensures
        r == spec_distance_target_from_element(*doc, sketch, element),
{
    match element {
        SceneElement::Line(index) => {
            if index < doc.lines.len() && doc.lines[index].sketch == sketch {
                Some(DistanceTarget::LineLength(index))
            } else {
                None
            }
        },
        SceneElement::RectEdge(rect_index, edge) => {
            if rect_index >= doc.rects.len() || doc.rects[rect_index].sketch != sketch {
                return None;
            }
            match edge {
                RectEdge::Bottom | RectEdge::Top => Some(DistanceTarget::RectWidth(rect_index)),
                RectEdge::Left | RectEdge::Right => Some(DistanceTarget::RectHeight(rect_index)),
            }
        },
        SceneElement::Circle(index) => {
            if index < doc.circles.len() && doc.circles[index].sketch == sketch {
                Some(DistanceTarget::CircleDiameter(index))
            } else {
                None
            }
        },
        _ => None,
    }
}

/// Map a single scene selection to a distance target in the active sketch.
pub fn distance_target_from_selection(
    doc: &Document,
    sketch: SketchId,
    selection: &SceneSelection,
) -> (r: Option<DistanceTarget>)
    ensures
        r == (if selection@.len() == 1 {
            spec_distance_target_from_element(*doc, sketch, selection@[0])
        } else {
            None
        }),
{
    match selection.single() {
        Some(element) => distance_target_from_scene_element(doc, sketch, element),
        None => None,
    }
}

/// The distance target a viewport pick stands for in `sketch`: a picked line's length or a
/// picked circle's diameter, when the entity lies in the sketch.
pub open spec fn spec_distance_target_from_pick(doc: Document, sketch: SketchId, kind: PickTargetKind) -> Option<DistanceTarget> {
    match kind {
        PickTargetKind::Line(i) => if i < doc.lines@.len() && doc.lines@[i as int].sketch == sketch {
            Some(DistanceTarget::LineLength(i))
        } else {
            None
        },
        PickTargetKind::Circle(i) => if i < doc.circles@.len() && doc.circles@[i as int].sketch == sketch {
            Some(DistanceTarget::CircleDiameter(i))
        } else {
            None
        },
        _ => None,
    }
}

/// Map a viewport pick to a distance target in the active sketch.
pub fn distance_target_from_pick(doc: &Document, sketch: SketchId, kind: &PickTargetKind) -> (r: Option<DistanceTarget>)
    ensures
        r == spec_distance_target_from_pick(*doc, sketch, *kind),
{
    match kind {
        PickTargetKind::Line(i) => if *i < doc.lines.len() && doc.lines[*i].sketch == sketch {
            Some(DistanceTarget::LineLength(*i))
        } else {
            None
        },
        PickTargetKind::Circle(i) => if *i < doc.circles.len() && doc.circles[*i].sketch == sketch {
            Some(DistanceTarget::CircleDiameter(*i))
        } else {
            None
        },
        _ => None,
    }
}

/// The line a point lies on by virtue of being one of its endpoints, if any.
pub open spec fn spec_endpoint_line(point: ConstraintPoint) -> Option<ConstraintLine> {
    match point {
        ConstraintPoint::LineEndpoint { line, .. } => Some(ConstraintLine::Line(line)),
        _ => None,
    }
}

/// `(point, line)` pairs a constraint pins to a specific spot on a line: a midpoint, or a
/// coincidence between a point and a line's endpoint.
pub open spec fn pins(kind: ConstraintKind, point: ConstraintPoint, line: ConstraintLine) -> bool {
    match kind {
        ConstraintKind::Midpoint { point: p, line: l } => p == point && l == line,
        ConstraintKind::Coincident {
            a: ConstraintEntity::Point(pa),
            b: ConstraintEntity::Point(pb),
        } => (pa == point && spec_endpoint_line(pb) == Some(line)) || (pb == point
            && spec_endpoint_line(pa) == Some(line)),
        _ => false,
    }
}

/// A generic point-on-line coincidence between `point` and `line` (either order).
pub open spec fn is_point_on_line(kind: ConstraintKind, point: ConstraintPoint, line: ConstraintLine) -> bool {
    match kind {
        ConstraintKind::Coincident { a, b } => (a == ConstraintEntity::Point(point) && b
            == ConstraintEntity::Line(line)) || (a == ConstraintEntity::Line(line) && b
            == ConstraintEntity::Point(point)),
        _ => false,
    }
}

/// Constraint `i` is an earlier generic point-on-line that constraint `new_index` subsumes.
pub open spec fn subsumed_by(doc: Document, sketch: SketchId, new_index: int, i: int) -> bool {
    &&& 0 <= i < doc.constraints@.len()
    &&& i != new_index
    &&& !doc.constraints@[i].deleted
    &&& doc.constraints@[i].sketch == sketch
    &&& exists|p: ConstraintPoint, l: ConstraintLine|
        pins(doc.constraints@[new_index].kind, p, l) && #[trigger] is_point_on_line(
            doc.constraints@[i].kind,
            p,
            l,
        )
}

/// Whether the new constraint is live in `sketch` (the only case the rule applies to).
pub open spec fn subsumption_applies(doc: Document, sketch: SketchId, new_index: int) -> bool {
    0 <= new_index < doc.constraints@.len() && !doc.constraints@[new_index].deleted
        && doc.constraints@[new_index].sketch == sketch
}

fn endpoint_line(point: ConstraintPoint) -> (r: Option<ConstraintLine>)
    ensures
        r == spec_endpoint_line(point),
{
    match point {
        ConstraintPoint::LineEndpoint { line, .. } => Some(ConstraintLine::Line(line)),
        _ => None,
    }
}

/// The `(point, line)` pins of a constraint kind, as a list.
fn point_line_pins(kind: ConstraintKind) -> (r: Vec<(ConstraintPoint, ConstraintLine)>)
    ensures
        forall|p: ConstraintPoint, l: ConstraintLine| pins(kind, p, l) <==> r@.contains((p, l)),
{
    let mut out: Vec<(ConstraintPoint, ConstraintLine)> = Vec::new();
    match kind {
        ConstraintKind::Midpoint { point, line } => {
            out.push((point, line));
            assert(out@[0] == (point, line));
        },
        ConstraintKind::Coincident {
            a: ConstraintEntity::Point(pa),
            b: ConstraintEntity::Point(pb),
        } => {
            if let Some(line) = endpoint_line(pb) {
                out.push((pa, line));
            }
            if let Some(line) = endpoint_line(pa) {
                out.push((pb, line));
            }
            assert forall|p: ConstraintPoint, l: ConstraintLine| pins(kind, p, l) <==> out@.contains(
                (p, l),
            ) by {
                if pins(kind, p, l) {
                    if pa == p && spec_endpoint_line(pb) == Some(l) {
                        assert(out@[0] == (p, l));
                    } else {
                        assert(out@[out@.len() - 1] == (p, l));
                    }
                }
            }
        },
        _ => {},
    }
    out
}

fn is_point_on_line_exec(kind: ConstraintKind, point: ConstraintPoint, line: ConstraintLine) -> (r: bool)
    ensures
        r == is_point_on_line(kind, point, line),
{
    match kind {
        ConstraintKind::Coincident { a, b } => (a == ConstraintEntity::Point(point) && b
            == ConstraintEntity::Line(line)) || (a == ConstraintEntity::Line(line) && b
            == ConstraintEntity::Point(point)),
        _ => false,
    }
}

/// A point constrained coincident with a specific point on a line (its endpoint or
/// midpoint) makes an earlier generic point-on-line coincidence for that same point and
/// line redundant. Such constraints are tombstoned so the more specific one wins.
/// `new_index` is the just-added constraint that is kept.
pub fn remove_subsumed_point_on_line(doc: &mut Document, sketch: SketchId, new_index: usize)
    ensures
        final(doc).constraints@.len() == old(doc).constraints@.len(),
        forall|i: int|
            0 <= i < old(doc).constraints@.len() ==> {
                let before = #[trigger] old(doc).constraints@[i];
                let after = final(doc).constraints@[i];
                &&& after.sketch == before.sketch
                &&& after.kind == before.kind
                &&& after.expression == before.expression
                &&& after.name == before.name
                &&& after.deleted == (before.deleted || (subsumption_applies(
                    *old(doc),
                    sketch,
                    new_index as int,
                ) && subsumed_by(*old(doc), sketch, new_index as int, i)))
            },
        final(doc).parameters == old(doc).parameters,
        final(doc).sketches == old(doc).sketches,
        final(doc).rects == old(doc).rects,
        final(doc).lines == old(doc).lines,
        final(doc).circles == old(doc).circles,
        final(doc).construction_planes == old(doc).construction_planes,
        final(doc).extrusions == old(doc).extrusions,
        final(doc).bodies == old(doc).bodies,
        final(doc).shape_order == old(doc).shape_order,
        final(doc).default_length_unit == old(doc).default_length_unit,
        final(doc).default_angle_unit == old(doc).default_angle_unit,
{
    let ghost d0 = *doc;
    if new_index >= doc.constraints.len() || doc.constraints[new_index].deleted
        || doc.constraints[new_index].sketch != sketch {
        return;
    }
    let new_kind = doc.constraints[new_index].kind;
    let pin_list = point_line_pins(new_kind);
    if pin_list.len() == 0 {
        proof {
            assert forall|i: int| 0 <= i < d0.constraints@.len() implies !subsumed_by(
                d0,
                sketch,
                new_index as int,
                i,
            ) by {
                if subsumed_by(d0, sketch, new_index as int, i) {
                    let (p, l) = choose|p: ConstraintPoint, l: ConstraintLine|
                        pins(new_kind, p, l) && #[trigger] is_point_on_line(
                            d0.constraints@[i].kind,
                            p,
                            l,
                        );
                    assert(pin_list@.contains((p, l)));
                }
            }
        }
        return;
    }
    let mut i: usize = 0;
    while i < doc.constraints.len()
        invariant
            d0.constraints@.len() == doc.constraints@.len(),
            subsumption_applies(d0, sketch, new_index as int),
            new_kind == d0.constraints@[new_index as int].kind,
            forall|p: ConstraintPoint, l: ConstraintLine| pins(new_kind, p, l) <==> pin_list@.contains((p, l)),
            i <= doc.constraints@.len(),
            forall|j: int|
                0 <= j < doc.constraints@.len() ==> {
                    let before = #[trigger] d0.constraints@[j];
                    let after = doc.constraints@[j];
                    &&& after.sketch == before.sketch
                    &&& after.kind == before.kind
                    &&& after.expression == before.expression
                    &&& after.name == before.name
                    &&& after.deleted == (before.deleted || (j < i && subsumed_by(
                        d0,
                        sketch,
                        new_index as int,
                        j,
                    )))
                },
            doc.parameters == d0.parameters,
            doc.sketches == d0.sketches,
            doc.rects == d0.rects,
            doc.lines == d0.lines,
            doc.circles == d0.circles,
            doc.construction_planes == d0.construction_planes,
            doc.extrusions == d0.extrusions,
            doc.bodies == d0.bodies,
            doc.shape_order == d0.shape_order,
            doc.default_length_unit == d0.default_length_unit,
            doc.default_angle_unit == d0.default_angle_unit,
        decreases doc.constraints@.len() - i,
    {
        if i != new_index && !doc.constraints[i].deleted && doc.constraints[i].sketch == sketch {
            let kind = doc.constraints[i].kind;
            let mut hit = false;
            let mut k: usize = 0;
            while k < pin_list.len()
                invariant
                    k <= pin_list@.len(),
                    hit == exists|m: int|
                        0 <= m < k && #[trigger] is_point_on_line(kind, pin_list@[m].0, pin_list@[m].1),
                decreases pin_list@.len() - k,
            {
                let (p, l) = pin_list[k];
                if is_point_on_line_exec(kind, p, l) {
                    hit = true;
                }
                k = k + 1;
            }
            proof {
                if hit {
                    let m = choose|m: int|
                        0 <= m < k && #[trigger] is_point_on_line(kind, pin_list@[m].0, pin_list@[m].1);
                    let (p, l) = pin_list@[m];
                    assert(pin_list@.contains((p, l)));
                    assert(pins(new_kind, p, l));
                    assert(subsumed_by(d0, sketch, new_index as int, i as int));
                } else {
                    if subsumed_by(d0, sketch, new_index as int, i as int) {
                        let (p, l) = choose|p: ConstraintPoint, l: ConstraintLine|
                            pins(new_kind, p, l) && #[trigger] is_point_on_line(
                                d0.constraints@[i as int].kind,
                                p,
                                l,
                            );
                        assert(pin_list@.contains((p, l)));
                        let m = choose|m: int| 0 <= m < pin_list@.len() && pin_list@[m] == (p, l);
                        assert(is_point_on_line(kind, pin_list@[m].0, pin_list@[m].1));
                    }
                }
            }
            if hit {
                doc.constraints[i].deleted = true;
            }
        }
        i = i + 1;
    }
}


/// `"{what} {i} not found"`.
pub open spec fn not_found_message(what: Seq<char>, i: nat) -> Seq<char> {
    what + " "@ + decimal(i) + " not found"@
}

/// `"{what} {i} is not in sketch {sketch}"`.
pub open spec fn wrong_sketch_message(what: Seq<char>, i: nat, sketch: nat) -> Seq<char> {
    what + " "@ + decimal(i) + " is not in sketch "@ + decimal(sketch)
}

/// Why entity `i` of a list of `len` entities, drawn in sketch `owner`, cannot be
/// dimensioned in `sketch`; `None` when it can.
pub open spec fn entity_in_sketch_error(what: Seq<char>, i: nat, len: nat, owner: nat, sketch: nat) -> Option<Seq<char>> {
    if i >= len {
        Some(not_found_message(what, i))
    } else if owner != sketch {
        Some(wrong_sketch_message(what, i, sketch))
    } else {
        None
    }
}

pub open spec fn line_in_sketch_error(doc: Document, sketch: SketchId, line: ConstraintLine) -> Option<Seq<char>> {
    match line {
        ConstraintLine::Line(i) => entity_in_sketch_error(
            "Line"@,
            i as nat,
            doc.lines@.len(),
            if i < doc.lines@.len() { doc.lines@[i as int].sketch as nat } else { 0 },
            sketch as nat,
        ),
        ConstraintLine::RectEdge { rect, .. } => entity_in_sketch_error(
            "Rectangle"@,
            rect as nat,
            doc.rects@.len(),
            if rect < doc.rects@.len() { doc.rects@[rect as int].sketch as nat } else { 0 },
            sketch as nat,
        ),
    }
}

pub open spec fn circle_in_sketch_error(doc: Document, sketch: SketchId, circle: usize) -> Option<Seq<char>> {
    entity_in_sketch_error(
        "Circle"@,
        circle as nat,
        doc.circles@.len(),
        if circle < doc.circles@.len() { doc.circles@[circle as int].sketch as nat } else { 0 },
        sketch as nat,
    )
}

pub open spec fn point_in_sketch_error(doc: Document, sketch: SketchId, point: ConstraintPoint) -> Option<Seq<char>> {
    match point {
        ConstraintPoint::LineEndpoint { line, .. } => line_in_sketch_error(doc, sketch, ConstraintLine::Line(line)),
        ConstraintPoint::RectCorner { rect, .. } => line_in_sketch_error(
            doc,
            sketch,
            ConstraintLine::RectEdge { rect, edge: RectEdge::Bottom },
        ),
        ConstraintPoint::CircleCenter(circle) => circle_in_sketch_error(doc, sketch, circle),
    }
}

/// The first of two checks that fails.
pub open spec fn first_error(a: Option<Seq<char>>, b: Option<Seq<char>>) -> Option<Seq<char>> {
    if a is Some {
        a
    } else {
        b
    }
}

/// Why `target` cannot be dimensioned in `sketch`; `None` when it can. `lines_parallel` says
/// whether the two lines of a line spacing run parallel in the sketch's geometry.
pub open spec fn distance_target_error(doc: Document, sketch: SketchId, target: DistanceTarget, lines_parallel: bool) -> Option<Seq<char>> {
    match target {
        DistanceTarget::LineLength(i) => line_in_sketch_error(doc, sketch, ConstraintLine::Line(i)),
        DistanceTarget::RectWidth(i) => line_in_sketch_error(
            doc,
            sketch,
            ConstraintLine::RectEdge { rect: i, edge: RectEdge::Bottom },
        ),
        DistanceTarget::RectHeight(i) => line_in_sketch_error(
            doc,
            sketch,
            ConstraintLine::RectEdge { rect: i, edge: RectEdge::Bottom },
        ),
        DistanceTarget::CircleDiameter(i) => circle_in_sketch_error(doc, sketch, i),
        DistanceTarget::LineLineDistance { line_a, line_b, .. } => first_error(
            line_in_sketch_error(doc, sketch, line_a),
            first_error(
                line_in_sketch_error(doc, sketch, line_b),
                if line_a == line_b {
                    Some("Line spacing requires two different lines"@)
                } else if !lines_parallel {
                    Some("Line spacing requires parallel lines"@)
                } else {
                    None
                },
            ),
        ),
        DistanceTarget::PointPointDistance { anchor, mover } => first_error(
            point_in_sketch_error(doc, sketch, anchor),
            first_error(
                point_in_sketch_error(doc, sketch, mover),
                if anchor == mover {
                    Some("Point distance requires two different points"@)
                } else {
                    None
                },
            ),
        ),
        DistanceTarget::PointLineDistance { point, line, .. } => first_error(
            point_in_sketch_error(doc, sketch, point),
            line_in_sketch_error(doc, sketch, line),
        ),
    }
}

pub open spec fn result_matches(r: Result<(), String>, err: Option<Seq<char>>) -> bool {
    match err {
        None => r is Ok,
        Some(m) => r is Err && r->Err_0@ == m,
    }
}

fn entity_in_sketch(what: &str, i: usize, len: usize, owner: usize, sketch: SketchId) -> (r: Result<(), String>)
    ensures
        result_matches(r, entity_in_sketch_error(what@, i as nat, len as nat, owner as nat, sketch as nat)),
{
    if i >= len {
        let mut m = string_of(what);
        push_str(&mut m, " ");
        push_decimal(&mut m, i);
        push_str(&mut m, " not found");
        proof {
            assert(m@ =~= not_found_message(what@, i as nat));
        }
        return Err(m);
    }
    if owner != sketch {
        let mut m = string_of(what);
        push_str(&mut m, " ");
        push_decimal(&mut m, i);
        push_str(&mut m, " is not in sketch ");
        push_decimal(&mut m, sketch);
        proof {
            assert(m@ =~= wrong_sketch_message(what@, i as nat, sketch as nat));
        }
        return Err(m);
    }
    Ok(())
}

fn validate_line_in_sketch(doc: &Document, sketch: SketchId, line: ConstraintLine) -> (r: Result<(), String>)
    ensures
        result_matches(r, line_in_sketch_error(*doc, sketch, line)),
{
    match line {
        ConstraintLine::Line(i) => {
            let owner = if i < doc.lines.len() { doc.lines[i].sketch } else { 0 };
            entity_in_sketch("Line", i, doc.lines.len(), owner, sketch)
        },
        ConstraintLine::RectEdge { rect, .. } => {
            let owner = if rect < doc.rects.len() { doc.rects[rect].sketch } else { 0 };
            entity_in_sketch("Rectangle", rect, doc.rects.len(), owner, sketch)
        },
    }
}

fn validate_circle_in_sketch(doc: &Document, sketch: SketchId, circle: usize) -> (r: Result<(), String>)
    ensures
        result_matches(r, circle_in_sketch_error(*doc, sketch, circle)),
{
    let owner = if circle < doc.circles.len() { doc.circles[circle].sketch } else { 0 };
    entity_in_sketch("Circle", circle, doc.circles.len(), owner, sketch)
}

fn validate_point_in_sketch(doc: &Document, sketch: SketchId, point: ConstraintPoint) -> (r: Result<(), String>)
    ensures
        result_matches(r, point_in_sketch_error(*doc, sketch, point)),
{
    match point {
        ConstraintPoint::LineEndpoint { line, .. } => validate_line_in_sketch(doc, sketch, ConstraintLine::Line(line)),
        ConstraintPoint::RectCorner { rect, .. } => validate_line_in_sketch(
            doc,
            sketch,
            ConstraintLine::RectEdge { rect, edge: RectEdge::Bottom },
        ),
        ConstraintPoint::CircleCenter(circle) => validate_circle_in_sketch(doc, sketch, circle),
    }
}

/// Check that `target` can be dimensioned in `sketch`: its entities exist and belong to the
/// sketch, a line spacing joins two different parallel lines (`lines_parallel` reports the
/// geometry) and a point distance two different points.
pub fn validate_distance_target(
    doc: &Document,
    sketch: SketchId,
    target: DistanceTarget,
    lines_parallel: bool,
) -> (r: Result<(), String>)
    ensures
        result_matches(r, distance_target_error(*doc, sketch, target, lines_parallel)),
{
    match target {
        DistanceTarget::LineLength(i) => validate_line_in_sketch(doc, sketch, ConstraintLine::Line(i)),
        DistanceTarget::RectWidth(i) => validate_line_in_sketch(
            doc,
            sketch,
            ConstraintLine::RectEdge { rect: i, edge: RectEdge::Bottom },
        ),
        DistanceTarget::RectHeight(i) => validate_line_in_sketch(
            doc,
            sketch,
            ConstraintLine::RectEdge { rect: i, edge: RectEdge::Bottom },
        ),
        DistanceTarget::CircleDiameter(i) => validate_circle_in_sketch(doc, sketch, i),
        DistanceTarget::LineLineDistance { line_a, line_b, .. } => {
            match validate_line_in_sketch(doc, sketch, line_a) {
                Err(e) => return Err(e),
                Ok(()) => {},
            }
            match validate_line_in_sketch(doc, sketch, line_b) {
                Err(e) => return Err(e),
                Ok(()) => {},
            }
            if line_a == line_b {
                return Err(string_of("Line spacing requires two different lines"));
            }
            if !lines_parallel {
                return Err(string_of("Line spacing requires parallel lines"));
            }
            Ok(())
        },
        DistanceTarget::PointPointDistance { anchor, mover } => {
            match validate_point_in_sketch(doc, sketch, anchor) {
                Err(e) => return Err(e),
                Ok(()) => {},
            }
            match validate_point_in_sketch(doc, sketch, mover) {
                Err(e) => return Err(e),
                Ok(()) => {},
            }
            if anchor == mover {
                return Err(string_of("Point distance requires two different points"));
            }
            Ok(())
        },
        DistanceTarget::PointLineDistance { point, line, .. } => {
            match validate_point_in_sketch(doc, sketch, point) {
                Err(e) => return Err(e),
                Ok(()) => {},
            }
            validate_line_in_sketch(doc, sketch, line)
        },
    }
}

/// What a distance dimension measures, for labels.
pub open spec fn spec_distance_target_label(target: DistanceTarget) -> Seq<char> {
    match target {
        DistanceTarget::LineLength(i) => "Line "@ + decimal(i as nat) + " length"@,
        DistanceTarget::RectWidth(i) => "Rectangle "@ + decimal(i as nat) + " width"@,
        DistanceTarget::RectHeight(i) => "Rectangle "@ + decimal(i as nat) + " height"@,
        DistanceTarget::CircleDiameter(i) => "Circle "@ + decimal(i as nat) + " diameter"@,
        DistanceTarget::LineLineDistance { .. } => "Line spacing"@,
        DistanceTarget::PointPointDistance { .. } => "Point distance"@,
        DistanceTarget::PointLineDistance { .. } => "Point-line distance"@,
    }
}

fn distance_target_label(target: DistanceTarget) -> (r: String)
    ensures
        r@ == spec_distance_target_label(target),
{
    match target {
        DistanceTarget::LineLength(i) => labeled_index("Line ", i, " length"),
        DistanceTarget::RectWidth(i) => labeled_index("Rectangle ", i, " width"),
        DistanceTarget::RectHeight(i) => labeled_index("Rectangle ", i, " height"),
        DistanceTarget::CircleDiameter(i) => labeled_index("Circle ", i, " diameter"),
        DistanceTarget::LineLineDistance { .. } => string_of("Line spacing"),
        DistanceTarget::PointPointDistance { .. } => string_of("Point distance"),
        DistanceTarget::PointLineDistance { .. } => string_of("Point-line distance"),
    }
}

/// The kind's name in a constraint label.
pub open spec fn spec_kind_label(kind: ConstraintKind) -> Seq<char> {
    match kind {
        ConstraintKind::Distance { target } => spec_distance_target_label(target),
        ConstraintKind::Parallel { .. } => "Parallel"@,
        ConstraintKind::Perpendicular { .. } => "Perpendicular"@,
        ConstraintKind::Equal { .. } => "Equal"@,
        ConstraintKind::Coincident { .. } => "Coincident"@,
        ConstraintKind::Midpoint { .. } => "Midpoint"@,
        ConstraintKind::Horizontal { .. } => "Horizontal"@,
        ConstraintKind::Vertical { .. } => "Vertical"@,
        ConstraintKind::Angle { .. } => "Angle"@,
    }
}

/// Label of constraint `index`: `Constraint {index} ({what})`, with the displayed value
/// after the name for dimensions (`value_display`, the formatted measurement or `?`).
pub open spec fn spec_constraint_label(doc: Document, index: usize, value_display: Seq<char>) -> Seq<char> {
    let head = "Constraint "@ + decimal(index as nat);
    if index >= doc.constraints@.len() {
        head
    } else {
        let kind = doc.constraints@[index as int].kind;
        if kind is Distance || kind is Angle {
            head + " ("@ + spec_kind_label(kind) + ", "@ + value_display + ")"@
        } else {
            head + " ("@ + spec_kind_label(kind) + ")"@
        }
    }
}

pub fn constraint_label(doc: &Document, index: ConstraintId, value_display: &str) -> (r: String)
    ensures
        r@ == spec_constraint_label(*doc, index, value_display@),
{
    let mut out = string_of("Constraint ");
    push_decimal(&mut out, index);
    if index >= doc.constraints.len() {
        return out;
    }
    let kind = doc.constraints[index].kind;
    let what = match kind {
        ConstraintKind::Distance { target } => distance_target_label(target),
        ConstraintKind::Parallel { .. } => string_of("Parallel"),
        ConstraintKind::Perpendicular { .. } => string_of("Perpendicular"),
        ConstraintKind::Equal { .. } => string_of("Equal"),
        ConstraintKind::Coincident { .. } => string_of("Coincident"),
        ConstraintKind::Midpoint { .. } => string_of("Midpoint"),
        ConstraintKind::Horizontal { .. } => string_of("Horizontal"),
        ConstraintKind::Vertical { .. } => string_of("Vertical"),
        ConstraintKind::Angle { .. } => string_of("Angle"),
    };
    push_str(&mut out, " (");
    push_str(&mut out, what.as_str());
    match kind {
        ConstraintKind::Distance { .. } | ConstraintKind::Angle { .. } => {
            push_str(&mut out, ", ");
            push_str(&mut out, value_display);
        },
        _ => {},
    }
    push_str(&mut out, ")");
    proof {
        assert(out@ =~= spec_constraint_label(*doc, index, value_display@));
    }
    out
}


/// Rewrite every constraint expression after parameter `old_name` was renamed to `new_name`.
pub fn propagate_parameter_rename_to_constraints(doc: &mut Document, old_name: &str, new_name: &str)
    ensures
        final(doc).constraints@.len() == old(doc).constraints@.len(),
        forall|i: int|
            0 <= i < old(doc).constraints@.len() ==> {
                let before = #[trigger] old(doc).constraints@[i];
                let after = final(doc).constraints@[i];
                &&& after.expression@ == if old_name@ == new_name@ {
                    before.expression@
                } else {
                    renamed_from(before.expression@, 0, old_name@, new_name@)
                }
                &&& after.sketch == before.sketch
                &&& after.kind == before.kind
                &&& after.name == before.name
                &&& after.deleted == before.deleted
            },
        final(doc).parameters == old(doc).parameters,
        final(doc).sketches == old(doc).sketches,
        final(doc).rects == old(doc).rects,
        final(doc).lines == old(doc).lines,
        final(doc).circles == old(doc).circles,
        final(doc).construction_planes == old(doc).construction_planes,
        final(doc).extrusions == old(doc).extrusions,
        final(doc).bodies == old(doc).bodies,
        final(doc).shape_order == old(doc).shape_order,
        final(doc).default_length_unit == old(doc).default_length_unit,
        final(doc).default_angle_unit == old(doc).default_angle_unit,
{
    if str_eq(old_name, new_name) {
        return;
    }
    let ghost d0 = *doc;
    let mut i: usize = 0;
    while i < doc.constraints.len()
        invariant
            old_name@ != new_name@,
            i <= doc.constraints@.len(),
            doc.constraints@.len() == d0.constraints@.len(),
            d0 == *old(doc),
            forall|k: int|
                0 <= k < d0.constraints@.len() ==> {
                    let before = #[trigger] d0.constraints@[k];
                    let after = doc.constraints@[k];
                    &&& after.expression@ == if k < i {
                        renamed_from(before.expression@, 0, old_name@, new_name@)
                    } else {
                        before.expression@
                    }
                    &&& after.sketch == before.sketch
                    &&& after.kind == before.kind
                    &&& after.name == before.name
                    &&& after.deleted == before.deleted
                },
            doc.parameters == d0.parameters,
            doc.sketches == d0.sketches,
            doc.rects == d0.rects,
            doc.lines == d0.lines,
            doc.circles == d0.circles,
            doc.construction_planes == d0.construction_planes,
            doc.extrusions == d0.extrusions,
            doc.bodies == d0.bodies,
            doc.shape_order == d0.shape_order,
            doc.default_length_unit == d0.default_length_unit,
            doc.default_angle_unit == d0.default_angle_unit,
        decreases doc.constraints@.len() - i,
    {
        let renamed = substitute_parameter_name(doc.constraints[i].expression.as_str(), old_name, new_name);
        doc.constraints[i].expression = renamed;
        i = i + 1;
    }
}


/// What the sketch geometry and the expression evaluator report for one dimension edit.
/// The library decides what the edit does from these facts; measuring them is numeric work
/// done on the sketch's coordinates.
#[derive(Debug)]
pub struct DimensionFacts {
    /// The distance target with its side captured from the geometry, or why that failed.
    pub finalized: Result<DistanceTarget, String>,
    /// The two lines the dimension joins run parallel.
    pub lines_parallel: bool,
    /// The rotation direction from the reference line to the other line, or why it could not
    /// be read.
    pub rotation_sign: Result<ConstraintSign, String>,
    /// The trimmed expression evaluates to an admissible value: a positive length for a
    /// distance, an angle strictly between 0 and π for an angle.
    pub value_ok: bool,
}

/// Why a new expression for a constraint of `kind` is refused; `None` when it is accepted.
pub open spec fn expression_error(kind: ConstraintKind, expression: Seq<char>, value_ok: bool) -> Option<Seq<char>> {
    match kind {
        ConstraintKind::Distance { .. } => if value_ok {
            None
        } else {
            Some("Invalid constraint expression '"@ + expression + "'"@)
        },
        ConstraintKind::Angle { .. } => if value_ok {
            None
        } else {
            Some("Invalid angle expression '"@ + expression + "'"@)
        },
        _ => Some("Constraint expression is not editable"@),
    }
}

/// Why setting the expression of constraint `index` to `expression` fails; `None` when it
/// succeeds.
pub open spec fn set_expression_error(doc: Document, index: usize, expression: Seq<char>, value_ok: bool) -> Option<Seq<char>> {
    let t = trimmed(expression);
    if t.len() == 0 {
        Some("Constraint expression cannot be empty"@)
    } else if index >= doc.constraints@.len() {
        Some(not_found_message("Constraint"@, index as nat))
    } else {
        expression_error(doc.constraints@[index as int].kind, t, value_ok)
    }
}

/// `e` is `d` with the expression of constraint `index` replaced by `expression`, and the
/// legacy dimension flags refreshed from the constraints.
pub open spec fn expression_replaced(d: Document, e: Document, index: int, expression: Seq<char>) -> bool {
    &&& 0 <= index < d.constraints@.len()
    &&& e.constraints@.len() == d.constraints@.len()
    &&& forall|j: int| 0 <= j < d.constraints@.len() && j != index ==> #[trigger] e.constraints@[j] == d.constraints@[j]
    &&& e.constraints@[index].expression@ == expression
    &&& e.constraints@[index].sketch == d.constraints@[index].sketch
    &&& e.constraints@[index].kind == d.constraints@[index].kind
    &&& e.constraints@[index].name == d.constraints@[index].name
    &&& e.constraints@[index].deleted == d.constraints@[index].deleted
    &&& e.parameters == d.parameters
    &&& e.sketches == d.sketches
    &&& geometry_but_locks(d, e)
    &&& locks_in_sync(e)
    &&& e.construction_planes == d.construction_planes
    &&& e.extrusions == d.extrusions
    &&& e.bodies == d.bodies
    &&& e.shape_order == d.shape_order
    &&& e.default_length_unit == d.default_length_unit
    &&& e.default_angle_unit == d.default_angle_unit
}

/// `e` is `d` with one live constraint of `kind` in `sketch`, carrying `expression`, appended
/// to the constraints and to the creation order, and the legacy dimension flags refreshed
/// from the constraints.
pub open spec fn constraint_appended(
    d: Document,
    e: Document,
    sketch: SketchId,
    kind: ConstraintKind,
    expression: Seq<char>,
) -> bool {
    let n = d.constraints@.len() as int;
    &&& e.constraints@.len() == n + 1
    &&& forall|j: int| 0 <= j < n ==> #[trigger] e.constraints@[j] == d.constraints@[j]
    &&& e.constraints@[n].sketch == sketch
    &&& e.constraints@[n].kind == kind
    &&& e.constraints@[n].expression@ == expression
    &&& e.constraints@[n].name is None
    &&& !e.constraints@[n].deleted
    &&& e.shape_order@ == d.shape_order@.push(ShapeKind::Constraint)
    &&& e.parameters == d.parameters
    &&& e.sketches == d.sketches
    &&& geometry_but_locks(d, e)
    &&& locks_in_sync(e)
    &&& e.construction_planes == d.construction_planes
    &&& e.extrusions == d.extrusions
    &&& e.bodies == d.bodies
    &&& e.default_length_unit == d.default_length_unit
    &&& e.default_angle_unit == d.default_angle_unit
}

/// Set the expression of constraint `index` (a distance or an angle) to `expression`,
/// trimmed. `value_ok` reports whether the trimmed expression evaluates to an admissible
/// value for the constraint's kind. The legacy dimension flags are then refreshed from the
/// constraints (the geometry itself is solved in floating point, outside this library).
pub fn set_constraint_expression(doc: &mut Document, index: ConstraintId, expression: &str, value_ok: bool) -> (r: Result<(), String>)
    ensures
        result_matches(r, set_expression_error(*old(doc), index, expression@, value_ok)),
        r is Ok ==> expression_replaced(*old(doc), *final(doc), index as int, trimmed(expression@)),
        r is Err ==> *final(doc) == *old(doc),
{
    let t = trimmed_string(expression);
    if t.as_str().unicode_len() == 0 {
        return Err(string_of("Constraint expression cannot be empty"));
    }
    if index >= doc.constraints.len() {
        let mut m = string_of("Constraint");
        push_str(&mut m, " ");
        push_decimal(&mut m, index);
        push_str(&mut m, " not found");
        proof {
            assert(m@ =~= not_found_message("Constraint"@, index as nat));
        }
        return Err(m);
    }
    match doc.constraints[index].kind {
        ConstraintKind::Distance { .. } => {
            if !value_ok {
                return Err(quoted_invalid("Invalid constraint expression '", t.as_str()));
            }
        },
        ConstraintKind::Angle { .. } => {
            if !value_ok {
                return Err(quoted_invalid("Invalid angle expression '", t.as_str()));
            }
        },
        _ => {
            return Err(string_of("Constraint expression is not editable"));
        },
    }
    doc.constraints[index].expression = t;
    let ghost mid = *doc;
    refresh_dimension_locks(doc);
    proof {
        assert(mid.constraints == doc.constraints);
    }
    Ok(())
}

/// `{head}{expression}'`.
fn quoted_invalid(head: &str, expression: &str) -> (r: String)
    ensures
        r@ == head@ + expression@ + "'"@,
{
    let mut m = string_of(head);
    push_str(&mut m, expression);
    push_str(&mut m, "'");
    m
}

/// Some live distance constraint dimensions `target`.
pub open spec fn has_distance_constraint(doc: Document, target: DistanceTarget) -> bool {
    exists|i: int| #[trigger] is_distance_constraint_on(doc, i, target)
}

/// The first live distance constraint on `target`.
pub open spec fn first_distance_constraint(doc: Document, target: DistanceTarget) -> int {
    choose|i: int|
        #[trigger] is_distance_constraint_on(doc, i, target) && forall|j: int|
            0 <= j < i ==> !#[trigger] is_distance_constraint_on(doc, j, target)
}

/// Why adding a distance dimension with `expression` fails; `None` when it succeeds.
pub open spec fn add_distance_error(doc: Document, sketch: SketchId, expression: Seq<char>, facts: DimensionFacts) -> Option<Seq<char>> {
    let t = trimmed(expression);
    if t.len() == 0 {
        Some("Constraint expression cannot be empty"@)
    } else {
        match facts.finalized {
            Err(e) => Some(e@),
            Ok(target) => if distance_target_error(doc, sketch, target, facts.lines_parallel) is Some {
                distance_target_error(doc, sketch, target, facts.lines_parallel)
            } else if has_distance_constraint(doc, target) {
                Some(
                    "Constraint already exists for "@ + spec_distance_target_label(target) + " (index "@
                        + decimal(first_distance_constraint(doc, target) as nat) + ")"@,
                )
            } else if !facts.value_ok {
                Some("Invalid constraint expression '"@ + t + "'"@)
            } else {
                None
            },
        }
    }
}

/// Add a distance dimension in `sketch` on the target `facts.finalized` (the target with its
/// side captured from the geometry), with `expression` trimmed; returns the new constraint's
/// index. The new constraint is then the only live one on its target, and the legacy
/// dimension flags are refreshed from the constraints, so a live rectangle width or height,
/// line length or circle diameter it dimensions is locked with its expression (the geometry
/// itself is solved in floating point, outside this library).
pub fn add_distance_constraint(
    doc: &mut Document,
    sketch: SketchId,
    expression: &str,
    facts: &DimensionFacts,
) -> (r: Result<ConstraintId, String>)
    ensures
        match r {
            Ok(id) => {
                let target = facts.finalized->Ok_0;
                &&& add_distance_error(*old(doc), sketch, expression@, *facts) is None
                &&& id == old(doc).constraints@.len()
                &&& constraint_appended(
                    *old(doc),
                    *final(doc),
                    sketch,
                    ConstraintKind::Distance { target },
                    trimmed(expression@),
                )
                &&& forall|j: int| #[trigger]
                    is_distance_constraint_on(*final(doc), j, target) <==> j == id
                &&& has_lock_flag(target) && spec_distance_target_alive(*old(doc), target) ==> dimension_lock(
                    *final(doc),
                    target,
                ) == Some(trimmed(expression@))
            },
            Err(e) => {
                &&& add_distance_error(*old(doc), sketch, expression@, *facts) == Some(e@)
                &&& *final(doc) == *old(doc)
            },
        },
{
    let t = trimmed_string(expression);
    if t.as_str().unicode_len() == 0 {
        return Err(string_of("Constraint expression cannot be empty"));
    }
    let target = match &facts.finalized {
        Err(e) => {
            return Err(e.clone());
        },
        Ok(target) => *target,
    };
    match validate_distance_target(doc, sketch, target, facts.lines_parallel) {
        Err(e) => {
            return Err(e);
        },
        Ok(()) => {},
    }
    match find_distance_constraint(doc, target) {
        Some(index) => {
            let mut m = string_of("Constraint already exists for ");
            let what = distance_target_label(target);
            push_str(&mut m, what.as_str());
            push_str(&mut m, " (index ");
            push_decimal(&mut m, index);
            push_str(&mut m, ")");
            return Err(m);
        },
        None => {},
    }
    if !facts.value_ok {
        return Err(quoted_invalid("Invalid constraint expression '", t.as_str()));
    }
    let id = doc.constraints.len();
    let ghost d0 = *doc;
    doc.constraints.push(
        Constraint { sketch, kind: ConstraintKind::Distance { target }, expression: t, name: None, deleted: false },
    );
    doc.shape_order.push(ShapeKind::Constraint);
    let ghost mid = *doc;
    refresh_dimension_locks(doc);
    proof {
        assert(mid.constraints == doc.constraints);
        assert forall|j: int| #[trigger] is_distance_constraint_on(*doc, j, target) implies j == id by {
            if j != id {
                assert(is_distance_constraint_on(d0, j, target));
            }
        }
        assert(spec_distance_target_alive(*doc, target) == spec_distance_target_alive(d0, target));
        if has_lock_flag(target) && spec_distance_target_alive(d0, target) {
            lemma_last_constraint_locks(*doc, target);
        }
    }
    Ok(id)
}


/// Some live angle constraint joins the pair `line_a`, `line_b`.
pub open spec fn has_angle_constraint(doc: Document, line_a: ConstraintLine, line_b: ConstraintLine) -> bool {
    exists|i: int| #[trigger] angle_matches(doc, i, line_a, line_b)
}

/// The first live angle constraint on the pair `line_a`, `line_b`.
pub open spec fn first_angle_constraint(doc: Document, line_a: ConstraintLine, line_b: ConstraintLine) -> int {
    choose|i: int|
        #[trigger] angle_matches(doc, i, line_a, line_b) && forall|j: int|
            0 <= j < i ==> !#[trigger] angle_matches(doc, j, line_a, line_b)
}

/// Normalising a normalised pair changes nothing, so a lookup by the stored pair and by the
/// pair as given agree.
proof fn lemma_normalize_line_pair_idempotent(line_a: ConstraintLine, line_b: ConstraintLine)
    ensures
        spec_normalize_line_pair(
            spec_normalize_line_pair(line_a, line_b).0,
            spec_normalize_line_pair(line_a, line_b).1,
        ) == spec_normalize_line_pair(line_a, line_b),
{
    if !line_key_le(line_a, line_b) {
        assert(line_key_le(line_b, line_a));
        if line_key_le(line_a, line_b) {
            assert(line_a == line_b);
        }
    }
}

/// Looking up an angle by its canonical pair or by the pair as given finds the same
/// constraints.
proof fn lemma_angle_matches_normalized(doc: Document, line_a: ConstraintLine, line_b: ConstraintLine)
    ensures
        forall|j: int|
            #[trigger] angle_matches(
                doc,
                j,
                spec_normalize_line_pair(line_a, line_b).0,
                spec_normalize_line_pair(line_a, line_b).1,
            ) == angle_matches(doc, j, line_a, line_b),
{
    lemma_normalize_line_pair_idempotent(line_a, line_b);
}

/// Why the pair `line_a`, `line_b` cannot take a new angle dimension in `sketch`: a line is
/// missing or outside the sketch, the lines coincide or run parallel, or the pair already
/// has an angle. `None` when it can.
pub open spec fn angle_pair_error(
    doc: Document,
    sketch: SketchId,
    line_a: ConstraintLine,
    line_b: ConstraintLine,
    lines_parallel: bool,
) -> Option<Seq<char>> {
    let (a, b) = spec_normalize_line_pair(line_a, line_b);
    first_error(
        line_in_sketch_error(doc, sketch, a),
        first_error(
            line_in_sketch_error(doc, sketch, b),
            if a == b {
                Some("Angle constraint requires two different lines"@)
            } else if lines_parallel {
                Some("Angle constraint requires non-parallel lines"@)
            } else if has_angle_constraint(doc, line_a, line_b) {
                Some(
                    "Angle constraint already exists (index "@ + decimal(
                        first_angle_constraint(doc, line_a, line_b) as nat,
                    ) + ")"@,
                )
            } else {
                None
            },
        ),
    )
}

/// Why adding an angle dimension between `line_a` and `line_b` fails; `None` when it
/// succeeds.
pub open spec fn add_angle_error(
    doc: Document,
    sketch: SketchId,
    line_a: ConstraintLine,
    line_b: ConstraintLine,
    expression: Seq<char>,
    facts: DimensionFacts,
) -> Option<Seq<char>> {
    let t = trimmed(expression);
    if t.len() == 0 {
        Some("Constraint expression cannot be empty"@)
    } else if angle_pair_error(doc, sketch, line_a, line_b, facts.lines_parallel) is Some {
        angle_pair_error(doc, sketch, line_a, line_b, facts.lines_parallel)
    } else if facts.rotation_sign is Err {
        Some(facts.rotation_sign->Err_0@)
    } else if !facts.value_ok {
        Some("Invalid angle expression '"@ + t + "'"@)
    } else {
        None
    }
}

fn check_angle_pair(
    doc: &Document,
    sketch: SketchId,
    line_a: ConstraintLine,
    line_b: ConstraintLine,
    lines_parallel: bool,
) -> (r: Result<(), String>)
    ensures
        result_matches(r, angle_pair_error(*doc, sketch, line_a, line_b, lines_parallel)),
{
    let (a, b) = normalize_line_pair(line_a, line_b);
    match validate_line_in_sketch(doc, sketch, a) {
        Err(e) => {
            return Err(e);
        },
        Ok(()) => {},
    }
    match validate_line_in_sketch(doc, sketch, b) {
        Err(e) => {
            return Err(e);
        },
        Ok(()) => {},
    }
    if a == b {
        return Err(string_of("Angle constraint requires two different lines"));
    }
    if lines_parallel {
        return Err(string_of("Angle constraint requires non-parallel lines"));
    }
    proof {
        lemma_angle_matches_normalized(*doc, line_a, line_b);
    }
    match find_angle_constraint(doc, a, b) {
        Some(index) => {
            proof {
                assert forall|j: int| 0 <= j < index implies !#[trigger] angle_matches(*doc, j, line_a, line_b) by {
                    assert(!angle_matches(*doc, j, a, b));
                }
                lemma_first_angle_constraint(*doc, line_a, line_b, index as int);
            }
            Err(labeled_index("Angle constraint already exists (index ", index, ")"))
        },
        None => {
            proof {
                assert forall|j: int| !#[trigger] angle_matches(*doc, j, line_a, line_b) by {
                    assert(!angle_matches(*doc, j, a, b));
                }
            }
            Ok(())
        },
    }
}

/// Add an angle dimension in `sketch` between `line_a` and `line_b` (stored in canonical
/// order, with the rotation sign `facts.rotation_sign` read from the geometry), with
/// `expression` trimmed; returns the new constraint's index. The new constraint is then the
/// only live angle on the pair, and the legacy dimension flags are refreshed from the
/// constraints (the geometry itself is solved in floating point, outside this library).
pub fn add_angle_constraint(
    doc: &mut Document,
    sketch: SketchId,
    line_a: ConstraintLine,
    line_b: ConstraintLine,
    expression: &str,
    facts: &DimensionFacts,
) -> (r: Result<ConstraintId, String>)
    ensures
        match r {
            Ok(id) => {
                let (a, b) = spec_normalize_line_pair(line_a, line_b);
                &&& add_angle_error(*old(doc), sketch, line_a, line_b, expression@, *facts) is None
                &&& id == old(doc).constraints@.len()
                &&& constraint_appended(
                    *old(doc),
                    *final(doc),
                    sketch,
                    ConstraintKind::Angle { line_a: a, line_b: b, rotation_sign: facts.rotation_sign->Ok_0 },
                    trimmed(expression@),
                )
                &&& forall|j: int| #[trigger] angle_matches(*final(doc), j, line_a, line_b) <==> j == id
            },
            Err(e) => {
                &&& add_angle_error(*old(doc), sketch, line_a, line_b, expression@, *facts) == Some(e@)
                &&& *final(doc) == *old(doc)
            },
        },
{
    let t = trimmed_string(expression);
    if t.as_str().unicode_len() == 0 {
        return Err(string_of("Constraint expression cannot be empty"));
    }
    match check_angle_pair(doc, sketch, line_a, line_b, facts.lines_parallel) {
        Err(e) => {
            return Err(e);
        },
        Ok(()) => {},
    }
    let rotation_sign = match &facts.rotation_sign {
        Err(e) => {
            return Err(e.clone());
        },
        Ok(sign) => *sign,
    };
    if !facts.value_ok {
        return Err(quoted_invalid("Invalid angle expression '", t.as_str()));
    }
    let (a, b) = normalize_line_pair(line_a, line_b);
    let id = doc.constraints.len();
    let ghost d0 = *doc;
    doc.constraints.push(
        Constraint { sketch, kind: ConstraintKind::Angle { line_a: a, line_b: b, rotation_sign }, expression: t, name: None, deleted: false },
    );
    doc.shape_order.push(ShapeKind::Constraint);
    let ghost mid = *doc;
    refresh_dimension_locks(doc);
    proof {
        assert(mid.constraints == doc.constraints);
        lemma_angle_matches_normalized(*doc, line_a, line_b);
        assert forall|j: int| #[trigger] angle_matches(*doc, j, line_a, line_b) implies j == id by {
            if j != id {
                assert(angle_matches(d0, j, line_a, line_b));
            }
        }
    }
    Ok(id)
}


/// A live distance constraint on `target` at index `i` means there is a first one.
proof fn lemma_distance_first_exists(doc: Document, target: DistanceTarget, i: int)
    requires
        is_distance_constraint_on(doc, i, target),
    ensures
        is_distance_constraint_on(doc, first_distance_constraint(doc, target), target),
        forall|j: int|
            0 <= j < first_distance_constraint(doc, target) ==> !#[trigger] is_distance_constraint_on(doc, j, target),
    decreases i,
{
    if exists|j: int| 0 <= j < i && #[trigger] is_distance_constraint_on(doc, j, target) {
        let j = choose|j: int| 0 <= j < i && #[trigger] is_distance_constraint_on(doc, j, target);
        lemma_distance_first_exists(doc, target, j);
    } else {
        assert(is_distance_constraint_on(doc, i, target) && forall|j: int|
            0 <= j < i ==> !#[trigger] is_distance_constraint_on(doc, j, target));
    }
}

/// A live angle constraint on the pair at index `i` means there is a first one.
proof fn lemma_angle_first_exists(doc: Document, line_a: ConstraintLine, line_b: ConstraintLine, i: int)
    requires
        angle_matches(doc, i, line_a, line_b),
    ensures
        angle_matches(doc, first_angle_constraint(doc, line_a, line_b), line_a, line_b),
        forall|j: int|
            0 <= j < first_angle_constraint(doc, line_a, line_b) ==> !#[trigger] angle_matches(doc, j, line_a, line_b),
    decreases i,
{
    if exists|j: int| 0 <= j < i && #[trigger] angle_matches(doc, j, line_a, line_b) {
        let j = choose|j: int| 0 <= j < i && #[trigger] angle_matches(doc, j, line_a, line_b);
        lemma_angle_first_exists(doc, line_a, line_b, j);
    } else {
        assert(angle_matches(doc, i, line_a, line_b) && forall|j: int|
            0 <= j < i ==> !#[trigger] angle_matches(doc, j, line_a, line_b));
    }
}

proof fn lemma_first_distance_constraint(doc: Document, target: DistanceTarget, i: int)
    requires
        is_distance_constraint_on(doc, i, target),
        forall|j: int| 0 <= j < i ==> !#[trigger] is_distance_constraint_on(doc, j, target),
    ensures
        has_distance_constraint(doc, target),
        first_distance_constraint(doc, target) == i,
{
    let f = first_distance_constraint(doc, target);
    assert(is_distance_constraint_on(doc, f, target));
    if f < i {
        assert(!is_distance_constraint_on(doc, f, target));
    }
    if i < f {
        assert(!is_distance_constraint_on(doc, i, target));
    }
}

proof fn lemma_first_angle_constraint(doc: Document, line_a: ConstraintLine, line_b: ConstraintLine, i: int)
    requires
        angle_matches(doc, i, line_a, line_b),
        forall|j: int| 0 <= j < i ==> !#[trigger] angle_matches(doc, j, line_a, line_b),
    ensures
        has_angle_constraint(doc, line_a, line_b),
        first_angle_constraint(doc, line_a, line_b) == i,
{
    let f = first_angle_constraint(doc, line_a, line_b);
    assert(angle_matches(doc, f, line_a, line_b));
    if f < i {
        assert(!angle_matches(doc, f, line_a, line_b));
    }
    if i < f {
        assert(!angle_matches(doc, i, line_a, line_b));
    }
}

/// What applying `expression` to the dimension `target` does: the live constraint already on
/// the target (the first one) gets the new expression; without one, a new dimension is added
/// from `facts`.
pub open spec fn dimension_applied(
    d: Document,
    e: Document,
    sketch: SketchId,
    target: DimensionTarget,
    expression: Seq<char>,
    facts: DimensionFacts,
    r: Result<(), String>,
) -> bool {
    let t = trimmed(expression);
    match target {
        DimensionTarget::Distance(distance) => if has_distance_constraint(d, distance) {
            let id = first_distance_constraint(d, distance);
            &&& result_matches(r, set_expression_error(d, id as usize, expression, facts.value_ok))
            &&& r is Ok ==> expression_replaced(d, e, id, t)
            &&& r is Err ==> e == d
        } else {
            &&& result_matches(r, add_distance_error(d, sketch, expression, facts))
            &&& r is Ok ==> constraint_appended(
                d,
                e,
                sketch,
                ConstraintKind::Distance { target: facts.finalized->Ok_0 },
                t,
            )
            &&& r is Err ==> e == d
        },
        DimensionTarget::Angle { line_a, line_b, .. } => if has_angle_constraint(d, line_a, line_b) {
            let id = first_angle_constraint(d, line_a, line_b);
            &&& result_matches(r, set_expression_error(d, id as usize, expression, facts.value_ok))
            &&& r is Ok ==> expression_replaced(d, e, id, t)
            &&& r is Err ==> e == d
        } else {
            let (a, b) = spec_normalize_line_pair(line_a, line_b);
            &&& result_matches(r, add_angle_error(d, sketch, line_a, line_b, expression, facts))
            &&& r is Ok ==> constraint_appended(
                d,
                e,
                sketch,
                ConstraintKind::Angle { line_a: a, line_b: b, rotation_sign: facts.rotation_sign->Ok_0 },
                t,
            )
            &&& r is Err ==> e == d
        },
    }
}

/// Why applying `expression` to the dimension `target` fails; `None` when it succeeds.
pub open spec fn dimension_applied_error(
    d: Document,
    sketch: SketchId,
    target: DimensionTarget,
    expression: Seq<char>,
    facts: DimensionFacts,
) -> Option<Seq<char>> {
    match target {
        DimensionTarget::Distance(distance) => if has_distance_constraint(d, distance) {
            set_expression_error(d, first_distance_constraint(d, distance) as usize, expression, facts.value_ok)
        } else {
            add_distance_error(d, sketch, expression, facts)
        },
        DimensionTarget::Angle { line_a, line_b, .. } => if has_angle_constraint(d, line_a, line_b) {
            set_expression_error(d, first_angle_constraint(d, line_a, line_b) as usize, expression, facts.value_ok)
        } else {
            add_angle_error(d, sketch, line_a, line_b, expression, facts)
        },
    }
}

/// Apply `expression` to the dimension `target` in `sketch`: edit the constraint already on
/// it, or add a new one. Either way the legacy dimension flags are then refreshed from the
/// constraints.
pub fn apply_dimension_expression(
    doc: &mut Document,
    sketch: SketchId,
    target: DimensionTarget,
    expression: &str,
    facts: &DimensionFacts,
) -> (r: Result<(), String>)
    ensures
        dimension_applied(*old(doc), *final(doc), sketch, target, expression@, *facts, r),
{
    match target {
        DimensionTarget::Distance(distance) => match find_distance_constraint(doc, distance) {
            Some(id) => {
                proof {
                    lemma_first_distance_constraint(*doc, distance, id as int);
                }
                set_constraint_expression(doc, id, expression, facts.value_ok)
            },
            None => match add_distance_constraint(doc, sketch, expression, facts) {
                Ok(_) => Ok(()),
                Err(e) => Err(e),
            },
        },
        DimensionTarget::Angle { line_a, line_b, rotation_sign: _ } => match find_angle_constraint(doc, line_a, line_b) {
            Some(id) => {
                proof {
                    lemma_first_angle_constraint(*doc, line_a, line_b, id as int);
                }
                set_constraint_expression(doc, id, expression, facts.value_ok)
            },
            None => match add_angle_constraint(doc, sketch, line_a, line_b, expression, facts) {
                Ok(_) => Ok(()),
                Err(e) => Err(e),
            },
        },
    }
}


proof fn lemma_distance_edit_read_back(d: Document, e: Document, t: DistanceTarget, expression: Seq<char>)
    requires
        has_distance_constraint(d, t),
        expression_replaced(d, e, first_distance_constraint(d, t), expression),
    ensures
        has_distance_constraint(e, t),
        e.constraints@[first_distance_constraint(e, t)].expression@ == expression,
{
    let id = first_distance_constraint(d, t);
    lemma_distance_first_exists(d, t, choose|i: int| #[trigger] is_distance_constraint_on(d, i, t));
    assert forall|j: int| #[trigger] is_distance_constraint_on(e, j, t) == is_distance_constraint_on(d, j, t) by {
        if 0 <= j < d.constraints@.len() && j != id {
            assert(e.constraints@[j] == d.constraints@[j]);
        }
    }
    lemma_first_distance_constraint(e, t, id);
}

proof fn lemma_distance_add_read_back(d: Document, e: Document, sketch: SketchId, t: DistanceTarget, expression: Seq<char>)
    requires
        !has_distance_constraint(d, t),
        constraint_appended(d, e, sketch, ConstraintKind::Distance { target: t }, expression),
    ensures
        has_distance_constraint(e, t),
        e.constraints@[first_distance_constraint(e, t)].expression@ == expression,
{
    let n = d.constraints@.len() as int;
    assert(is_distance_constraint_on(e, n, t));
    assert forall|j: int| 0 <= j < n implies !#[trigger] is_distance_constraint_on(e, j, t) by {
        assert(e.constraints@[j] == d.constraints@[j]);
        assert(!is_distance_constraint_on(d, j, t));
    }
    lemma_first_distance_constraint(e, t, n);
}

proof fn lemma_angle_edit_read_back(d: Document, e: Document, line_a: ConstraintLine, line_b: ConstraintLine, expression: Seq<char>)
    requires
        has_angle_constraint(d, line_a, line_b),
        expression_replaced(d, e, first_angle_constraint(d, line_a, line_b), expression),
    ensures
        has_angle_constraint(e, line_a, line_b),
        e.constraints@[first_angle_constraint(e, line_a, line_b)].expression@ == expression,
{
    let id = first_angle_constraint(d, line_a, line_b);
    lemma_angle_first_exists(d, line_a, line_b, choose|i: int| #[trigger] angle_matches(d, i, line_a, line_b));
    assert forall|j: int| #[trigger] angle_matches(e, j, line_a, line_b) == angle_matches(d, j, line_a, line_b) by {
        if 0 <= j < d.constraints@.len() && j != id {
            assert(e.constraints@[j] == d.constraints@[j]);
        }
    }
    lemma_first_angle_constraint(e, line_a, line_b, id);
}

proof fn lemma_angle_add_read_back(
    d: Document,
    e: Document,
    sketch: SketchId,
    line_a: ConstraintLine,
    line_b: ConstraintLine,
    sign: ConstraintSign,
    expression: Seq<char>,
)
    requires
        !has_angle_constraint(d, line_a, line_b),
        constraint_appended(
            d,
            e,
            sketch,
            ConstraintKind::Angle {
                line_a: spec_normalize_line_pair(line_a, line_b).0,
                line_b: spec_normalize_line_pair(line_a, line_b).1,
                rotation_sign: sign,
            },
            expression,
        ),
    ensures
        has_angle_constraint(e, line_a, line_b),
        e.constraints@[first_angle_constraint(e, line_a, line_b)].expression@ == expression,
{
    let n = d.constraints@.len() as int;
    lemma_normalize_line_pair_idempotent(line_a, line_b);
    assert(angle_matches(e, n, line_a, line_b));
    assert forall|j: int| 0 <= j < n implies !#[trigger] angle_matches(e, j, line_a, line_b) by {
        assert(e.constraints@[j] == d.constraints@[j]);
        assert(!angle_matches(d, j, line_a, line_b));
    }
    lemma_first_angle_constraint(e, line_a, line_b, n);
}

/// A target that already has a dimension is edited, never given a second one: applying an
/// expression to it leaves the number of constraints unchanged, whether it succeeds or not.
pub proof fn law_dimensioned_target_is_edited(
    d: Document,
    e: Document,
    sketch: SketchId,
    target: DimensionTarget,
    expression: Seq<char>,
    facts: DimensionFacts,
    r: Result<(), String>,
)
    requires
        dimension_applied(d, e, sketch, target, expression, facts, r),
        match target {
            DimensionTarget::Distance(t) => has_distance_constraint(d, t),
            DimensionTarget::Angle { line_a, line_b, .. } => has_angle_constraint(d, line_a, line_b),
        },
    ensures
        e.constraints@.len() == d.constraints@.len(),
        e.shape_order == d.shape_order,
{
}

/// Reading a dimension back after a successful edit gives the expression just applied: the
/// first live constraint on the target carries the trimmed expression, whether the edit
/// changed an existing constraint or added one (for a distance, when the geometry kept the
/// target as given).
pub proof fn law_applied_dimension_reads_back(
    d: Document,
    e: Document,
    sketch: SketchId,
    target: DimensionTarget,
    expression: Seq<char>,
    facts: DimensionFacts,
)
    requires
        dimension_applied(d, e, sketch, target, expression, facts, Ok(())),
        target matches DimensionTarget::Distance(t) ==> facts.finalized == Ok::<DistanceTarget, String>(t),
    ensures
        match target {
            DimensionTarget::Distance(t) => {
                &&& has_distance_constraint(e, t)
                &&& e.constraints@[first_distance_constraint(e, t)].expression@ == trimmed(expression)
            },
            DimensionTarget::Angle { line_a, line_b, .. } => {
                &&& has_angle_constraint(e, line_a, line_b)
                &&& e.constraints@[first_angle_constraint(e, line_a, line_b)].expression@ == trimmed(expression)
            },
        },
{
    match target {
        DimensionTarget::Distance(t) => {
            if has_distance_constraint(d, t) {
                lemma_distance_edit_read_back(d, e, t, trimmed(expression));
            } else {
                lemma_distance_add_read_back(d, e, sketch, t, trimmed(expression));
            }
        },
        DimensionTarget::Angle { line_a, line_b, .. } => {
            if has_angle_constraint(d, line_a, line_b) {
                lemma_angle_edit_read_back(d, e, line_a, line_b, trimmed(expression));
            } else {
                lemma_angle_add_read_back(d, e, sketch, line_a, line_b, facts.rotation_sign->Ok_0, trimmed(expression));
            }
        },
    }
}


/// The lines among `refs`, in order.
pub open spec fn ref_lines(refs: Seq<ConstraintRef>) -> Seq<ConstraintLine>
    decreases refs.len(),
{
    if refs.len() == 0 {
        Seq::empty()
    } else {
        let rest = ref_lines(refs.drop_last());
        match refs.last() {
            ConstraintRef::Line(l) => rest.push(l),
            _ => rest,
        }
    }
}

/// The points among `refs`, in order.
pub open spec fn ref_points(refs: Seq<ConstraintRef>) -> Seq<ConstraintPoint>
    decreases refs.len(),
{
    if refs.len() == 0 {
        Seq::empty()
    } else {
        let rest = ref_points(refs.drop_last());
        match refs.last() {
            ConstraintRef::Point(p) => rest.push(p),
            _ => rest,
        }
    }
}

/// The dimension two selected references call for in `sketch`: two lines get a spacing when
/// parallel and an angle otherwise, two points their distance (as finalized against the
/// geometry), a point and a line their distance. `None` when an entity lies outside the
/// sketch or the pair calls for no dimension.
pub open spec fn spec_two_ref_dimension(
    doc: Document,
    sketch: SketchId,
    refs: Seq<ConstraintRef>,
    facts: DimensionFacts,
) -> Option<DimensionTarget> {
    let lines = ref_lines(refs);
    let points = ref_points(refs);
    if lines.len() == 2 {
        if line_in_sketch_error(doc, sketch, lines[0]) is Some || line_in_sketch_error(doc, sketch, lines[1]) is Some {
            None
        } else {
            let (a, b) = spec_normalize_line_pair(lines[0], lines[1]);
            if facts.lines_parallel {
                Some(
                    DimensionTarget::Distance(
                        DistanceTarget::LineLineDistance { line_a: a, line_b: b, side: spec_default_constraint_sign() },
                    ),
                )
            } else {
                Some(DimensionTarget::Angle { line_a: a, line_b: b, rotation_sign: spec_default_constraint_sign() })
            }
        }
    } else if points.len() == 2 {
        if point_in_sketch_error(doc, sketch, points[0]) is Some || point_in_sketch_error(doc, sketch, points[1]) is Some {
            None
        } else {
            match facts.finalized {
                Ok(t) => Some(DimensionTarget::Distance(t)),
                Err(_) => None,
            }
        }
    } else if points.len() == 1 && lines.len() == 1 {
        if point_in_sketch_error(doc, sketch, points[0]) is Some || line_in_sketch_error(doc, sketch, lines[0]) is Some {
            None
        } else {
            Some(
                DimensionTarget::Distance(
                    DistanceTarget::PointLineDistance { point: points[0], line: lines[0], side: spec_default_constraint_sign() },
                ),
            )
        }
    } else {
        None
    }
}

/// The dimension the selection `selection` calls for in `sketch`: one referenced entity its
/// own measure, two referenced entities the dimension between them.
pub open spec fn spec_dimension_edit_from_selection(
    doc: Document,
    sketch: SketchId,
    selection: Seq<SceneElement>,
    facts: DimensionFacts,
) -> Option<DimensionTarget> {
    let refs = spec_constraint_refs(selection);
    if refs.len() == 1 {
        if selection.len() == 1 {
            match spec_distance_target_from_element(doc, sketch, selection[0]) {
                Some(t) => Some(DimensionTarget::Distance(t)),
                None => None,
            }
        } else {
            None
        }
    } else if refs.len() == 2 {
        spec_two_ref_dimension(doc, sketch, refs, facts)
    } else {
        None
    }
}

fn split_refs(refs: &Vec<ConstraintRef>) -> (r: (Vec<ConstraintLine>, Vec<ConstraintPoint>))
    ensures
        r.0@ == ref_lines(refs@),
        r.1@ == ref_points(refs@),
{
    let mut lines: Vec<ConstraintLine> = Vec::new();
    let mut points: Vec<ConstraintPoint> = Vec::new();
    let mut i: usize = 0;
    while i < refs.len()
        invariant
            i <= refs@.len(),
            lines@ == ref_lines(refs@.subrange(0, i as int)),
            points@ == ref_points(refs@.subrange(0, i as int)),
        decreases refs@.len() - i,
    {
        proof {
            assert(refs@.subrange(0, i + 1).drop_last() =~= refs@.subrange(0, i as int));
        }
        match refs[i] {
            ConstraintRef::Line(l) => lines.push(l),
            ConstraintRef::Point(p) => points.push(p),
            ConstraintRef::Circle(_) => {},
        }
        i = i + 1;
    }
    proof {
        assert(refs@.subrange(0, refs@.len() as int) =~= refs@);
    }
    (lines, points)
}

fn two_ref_dimension(
    doc: &Document,
    sketch: SketchId,
    refs: &Vec<ConstraintRef>,
    facts: &DimensionFacts,
) -> (r: Option<DimensionTarget>)
    ensures
        r == spec_two_ref_dimension(*doc, sketch, refs@, *facts),
{
    let (lines, points) = split_refs(refs);
    if lines.len() == 2 {
        if validate_line_in_sketch(doc, sketch, lines[0]).is_err() || validate_line_in_sketch(doc, sketch, lines[1]).is_err() {
            return None;
        }
        let (a, b) = normalize_line_pair(lines[0], lines[1]);
        if facts.lines_parallel {
            Some(
                DimensionTarget::Distance(
                    DistanceTarget::LineLineDistance { line_a: a, line_b: b, side: default_constraint_sign() },
                ),
            )
        } else {
            Some(DimensionTarget::Angle { line_a: a, line_b: b, rotation_sign: default_constraint_sign() })
        }
    } else if points.len() == 2 {
        if validate_point_in_sketch(doc, sketch, points[0]).is_err() || validate_point_in_sketch(doc, sketch, points[1]).is_err() {
            return None;
        }
        match &facts.finalized {
            Ok(t) => Some(DimensionTarget::Distance(*t)),
            Err(_) => None,
        }
    } else if points.len() == 1 && lines.len() == 1 {
        if validate_point_in_sketch(doc, sketch, points[0]).is_err() || validate_line_in_sketch(doc, sketch, lines[0]).is_err() {
            return None;
        }
        Some(
            DimensionTarget::Distance(
                DistanceTarget::PointLineDistance { point: points[0], line: lines[0], side: default_constraint_sign() },
            ),
        )
    } else {
        None
    }
}

/// Map the current selection to a dimension target in the active sketch. `facts` reports the
/// geometry of a selected pair: whether two lines run parallel, and the distance target of
/// two points (the first as anchor) as finalized against the geometry.
pub fn dimension_edit_from_selection(
    doc: &Document,
    sketch: SketchId,
    selection: &SceneSelection,
    facts: &DimensionFacts,
) -> (r: Option<DimensionTarget>)
    ensures
        r == spec_dimension_edit_from_selection(*doc, sketch, selection@, *facts),
{
    let refs = selected_constraint_refs(selection);
    if refs.len() == 1 {
        match distance_target_from_selection(doc, sketch, selection) {
            Some(t) => Some(DimensionTarget::Distance(t)),
            None => None,
        }
    } else if refs.len() == 2 {
        two_ref_dimension(doc, sketch, &refs, facts)
    } else {
        None
    }
}


/// For a rectangle width or height, line length or circle diameter, whether the entity it
/// measures exists in `doc`; `None` for the targets whose measurement the geometry decides
/// (spacings and point distances).
pub open spec fn measured_entity_exists(doc: Document, target: DistanceTarget) -> Option<bool> {
    match target {
        DistanceTarget::LineLength(i) => Some(i < doc.lines@.len()),
        DistanceTarget::RectWidth(i) => Some(i < doc.rects@.len()),
        DistanceTarget::RectHeight(i) => Some(i < doc.rects@.len()),
        DistanceTarget::CircleDiameter(i) => Some(i < doc.circles@.len()),
        _ => None,
    }
}

/// The starting text of a new length dimension on `target`: `measured` (the formatted
/// measurement of the geometry, when it gives one), else ten millimetres.
pub open spec fn spec_default_distance_expression(doc: Document, target: DistanceTarget, measured: Option<Seq<char>>) -> Seq<char> {
    match (measured_entity_exists(doc, target), measured) {
        (Some(false), _) => "10mm"@,
        (_, Some(m)) => m,
        (_, None) => "10mm"@,
    }
}

pub open spec fn opt_view(s: Option<&str>) -> Option<Seq<char>> {
    match s {
        Some(m) => Some(m@),
        None => None,
    }
}

/// Starting text of a new length dimension on `target`: the formatted measurement of its
/// geometry (`measured`, read by the caller from the floating-point geometry), else ten
/// millimetres; always ten millimetres when the rectangle, line or circle it measures does
/// not exist.
pub fn default_distance_expression(doc: &Document, target: DistanceTarget, measured: Option<&str>) -> (r: String)
    ensures
        r@ == spec_default_distance_expression(*doc, target, opt_view(measured)),
{
    let exists = match target {
        DistanceTarget::LineLength(i) => i < doc.lines.len(),
        DistanceTarget::RectWidth(i) => i < doc.rects.len(),
        DistanceTarget::RectHeight(i) => i < doc.rects.len(),
        DistanceTarget::CircleDiameter(i) => i < doc.circles.len(),
        _ => true,
    };
    if !exists {
        return string_of("10mm");
    }
    match measured {
        Some(m) => string_of(m),
        None => string_of("10mm"),
    }
}

/// Starting text of a new angle dimension: the formatted measured angle, else 45 degrees.
pub fn default_angle_expression(measured: Option<&str>) -> (r: String)
    ensures
        r@ == (match measured {
            Some(m) => m@,
            None => "45 deg"@,
        }),
{
    match measured {
        Some(m) => string_of(m),
        None => string_of("45 deg"),
    }
}

/// Starting text of a new dimension on `target`, from the formatted measurement of its
/// geometry when there is one.
pub fn default_dimension_expression(doc: &Document, target: DimensionTarget, measured: Option<&str>) -> (r: String)
    ensures
        r@ == (match target {
            DimensionTarget::Distance(t) => spec_default_distance_expression(*doc, t, opt_view(measured)),
            DimensionTarget::Angle { .. } => match measured {
                Some(m) => m@,
                None => "45 deg"@,
            },
        }),
{
    match target {
        DimensionTarget::Distance(t) => default_distance_expression(doc, t, measured),
        DimensionTarget::Angle { .. } => default_angle_expression(measured),
    }
}

} // verus!
