//! Tombstone deletion: entities are marked deleted but keep their indices so references stay valid.

use vstd::prelude::*;
use crate::model::{
    ConstraintEntity, ConstraintKind, ConstraintLine, ConstraintPoint, DistanceTarget, Document,
    Body, Constraint, ConstructionPlaneParent, Extrusion, FaceId, Line, Parameter, ShapeKind,
    SketchId,
};
use crate::selection::{SceneElement, SceneSelection};
use crate::cascade::{is_live_path, 
    cascade_post, closed_growth, grows, others_same, lemma_child_call, lemma_finish, lemma_grows_nodes,
    lemma_grows_refl, lemma_grows_trans, lemma_leaf_reach, lemma_measure_grows,
    lemma_order_trans, lemma_reach_mono, lemma_reach_self, lemma_reach_start_alive, lemma_split, lemma_step, live_measure, node_alive,
    node_deleted, order_trimmed, owns, reaches,
};

verus! {

// ---------------------------------------------------------------------------------------
// Liveness
// ---------------------------------------------------------------------------------------

pub open spec fn spec_parameter_alive(doc: Document, index: usize) -> bool {
    index < doc.parameters@.len() && !doc.parameters@[index as int].deleted
}

pub open spec fn spec_sketch_alive(doc: Document, index: usize) -> bool {
    index < doc.sketches@.len() && !doc.sketches@[index as int].deleted
}

pub open spec fn spec_rect_alive(doc: Document, index: usize) -> bool {
    index < doc.rects@.len() && !doc.rects@[index as int].deleted
}

pub open spec fn spec_line_alive(doc: Document, index: usize) -> bool {
    index < doc.lines@.len() && !doc.lines@[index as int].deleted
}

pub open spec fn spec_circle_alive(doc: Document, index: usize) -> bool {
    index < doc.circles@.len() && !doc.circles@[index as int].deleted
}

pub open spec fn spec_constraint_alive(doc: Document, index: usize) -> bool {
    index < doc.constraints@.len() && !doc.constraints@[index as int].deleted
}

pub open spec fn spec_construction_plane_alive(doc: Document, index: usize) -> bool {
    index < doc.construction_planes@.len() && !doc.construction_planes@[index as int].deleted
}

pub open spec fn spec_extrusion_alive(doc: Document, index: usize) -> bool {
    index < doc.extrusions@.len() && !doc.extrusions@[index as int].deleted
}

pub open spec fn spec_body_alive(doc: Document, index: usize) -> bool {
    index < doc.bodies@.len() && !doc.bodies@[index as int].deleted
}

/// Whether a stored parameter at `index` is still active (not tombstoned).
pub fn parameter_alive(doc: &Document, index: usize) -> (r: bool)
    ensures
        r == spec_parameter_alive(*doc, index),
{
    index < doc.parameters.len() && !doc.parameters[index].deleted
}

pub fn sketch_alive(doc: &Document, sketch: SketchId) -> (r: bool)
    ensures
        r == spec_sketch_alive(*doc, sketch),
{
    sketch < doc.sketches.len() && !doc.sketches[sketch].deleted
}

pub fn rect_alive(doc: &Document, index: usize) -> (r: bool)
    ensures
        r == spec_rect_alive(*doc, index),
{
    index < doc.rects.len() && !doc.rects[index].deleted
}

pub fn line_alive(doc: &Document, index: usize) -> (r: bool)
    ensures
        r == spec_line_alive(*doc, index),
{
    index < doc.lines.len() && !doc.lines[index].deleted
}

pub fn circle_alive(doc: &Document, index: usize) -> (r: bool)
    ensures
        r == spec_circle_alive(*doc, index),
{
    index < doc.circles.len() && !doc.circles[index].deleted
}

pub fn constraint_alive(doc: &Document, index: usize) -> (r: bool)
    ensures
        r == spec_constraint_alive(*doc, index),
{
    index < doc.constraints.len() && !doc.constraints[index].deleted
}

pub fn construction_plane_alive(doc: &Document, index: usize) -> (r: bool)
    ensures
        r == spec_construction_plane_alive(*doc, index),
{
    index < doc.construction_planes.len() && !doc.construction_planes[index].deleted
}

pub fn extrusion_alive(doc: &Document, index: usize) -> (r: bool)
    ensures
        r == spec_extrusion_alive(*doc, index),
{
    index < doc.extrusions.len() && !doc.extrusions[index].deleted
}

pub fn body_alive(doc: &Document, index: usize) -> (r: bool)
    ensures
        r == spec_body_alive(*doc, index),
{
    index < doc.bodies.len() && !doc.bodies[index].deleted
}

/// A point is alive exactly when the entity that owns it is.
pub open spec fn spec_constraint_point_alive(doc: Document, point: ConstraintPoint) -> bool {
    match point {
        ConstraintPoint::LineEndpoint { line, .. } => spec_line_alive(doc, line),
        ConstraintPoint::RectCorner { rect, .. } => spec_rect_alive(doc, rect),
        ConstraintPoint::CircleCenter(circle) => spec_circle_alive(doc, circle),
    }
}

pub open spec fn spec_constraint_line_alive(doc: Document, line: ConstraintLine) -> bool {
    match line {
        ConstraintLine::Line(index) => spec_line_alive(doc, index),
        ConstraintLine::RectEdge { rect, .. } => spec_rect_alive(doc, rect),
    }
}

pub open spec fn spec_constraint_entity_alive(doc: Document, entity: ConstraintEntity) -> bool {
    match entity {
        ConstraintEntity::Point(point) => spec_constraint_point_alive(doc, point),
        ConstraintEntity::Line(line) => spec_constraint_line_alive(doc, line),
        ConstraintEntity::Circle(circle) => spec_circle_alive(doc, circle),
        ConstraintEntity::Origin => true,
    }
}

/// Whether a scene element is present and not tombstoned.
pub open spec fn spec_element_alive(doc: Document, element: SceneElement) -> bool {
    match element {
        SceneElement::ConstructionPlane(index) => spec_construction_plane_alive(doc, index),
        SceneElement::Sketch(sketch) => spec_sketch_alive(doc, sketch),
        SceneElement::Rect(index) => spec_rect_alive(doc, index),
        SceneElement::Line(index) => spec_line_alive(doc, index),
        SceneElement::Circle(index) => spec_circle_alive(doc, index),
        SceneElement::RectEdge(index, _) => spec_rect_alive(doc, index),
        SceneElement::Point(point) => spec_constraint_point_alive(doc, point),
        SceneElement::Constraint(index) => spec_constraint_alive(doc, index),
        SceneElement::Extrusion(index) => spec_extrusion_alive(doc, index),
        SceneElement::Body(index) => spec_body_alive(doc, index),
    }
}

pub fn element_alive(doc: &Document, element: SceneElement) -> (r: bool)
    ensures
        r == spec_element_alive(*doc, element),
{
    match element {
        SceneElement::ConstructionPlane(index) => construction_plane_alive(doc, index),
        SceneElement::Sketch(sketch) => sketch_alive(doc, sketch),
        SceneElement::Rect(index) => rect_alive(doc, index),
        SceneElement::Line(index) => line_alive(doc, index),
        SceneElement::Circle(index) => circle_alive(doc, index),
        SceneElement::RectEdge(index, _) => rect_alive(doc, index),
        SceneElement::Point(point) => constraint_point_alive(doc, &point),
        SceneElement::Constraint(index) => constraint_alive(doc, index),
        SceneElement::Extrusion(index) => extrusion_alive(doc, index),
        SceneElement::Body(index) => body_alive(doc, index),
    }
}

pub fn constraint_point_alive(doc: &Document, point: &ConstraintPoint) -> (r: bool)
    ensures
        r == spec_constraint_point_alive(*doc, *point),
{
    match point {
        ConstraintPoint::LineEndpoint { line, .. } => line_alive(doc, *line),
        ConstraintPoint::RectCorner { rect, .. } => rect_alive(doc, *rect),
        ConstraintPoint::CircleCenter(circle) => circle_alive(doc, *circle),
    }
}

pub fn constraint_line_alive(doc: &Document, line: &ConstraintLine) -> (r: bool)
    ensures
        r == spec_constraint_line_alive(*doc, *line),
{
    match line {
        ConstraintLine::Line(index) => line_alive(doc, *index),
        ConstraintLine::RectEdge { rect, .. } => rect_alive(doc, *rect),
    }
}

pub fn constraint_entity_alive(doc: &Document, entity: &ConstraintEntity) -> (r: bool)
    ensures
        r == spec_constraint_entity_alive(*doc, *entity),
{
    match entity {
        ConstraintEntity::Point(point) => constraint_point_alive(doc, point),
        ConstraintEntity::Line(line) => constraint_line_alive(doc, line),
        ConstraintEntity::Circle(circle) => circle_alive(doc, *circle),
        ConstraintEntity::Origin => true,
    }
}

pub open spec fn spec_distance_target_alive(doc: Document, target: DistanceTarget) -> bool {
    match target {
        DistanceTarget::LineLength(index) => spec_line_alive(doc, index),
        DistanceTarget::RectWidth(index) => spec_rect_alive(doc, index),
        DistanceTarget::RectHeight(index) => spec_rect_alive(doc, index),
        DistanceTarget::CircleDiameter(index) => spec_circle_alive(doc, index),
        DistanceTarget::LineLineDistance { line_a, line_b, .. } => spec_constraint_line_alive(
            doc,
            line_a,
        ) && spec_constraint_line_alive(doc, line_b),
        DistanceTarget::PointPointDistance { anchor, mover } => spec_constraint_point_alive(
            doc,
            anchor,
        ) && spec_constraint_point_alive(doc, mover),
        DistanceTarget::PointLineDistance { point, line, .. } => spec_constraint_point_alive(
            doc,
            point,
        ) && spec_constraint_line_alive(doc, line),
    }
}

pub fn distance_target_alive(doc: &Document, target: &DistanceTarget) -> (r: bool)
    ensures
        r == spec_distance_target_alive(*doc, *target),
{
    match target {
        DistanceTarget::LineLength(index) => line_alive(doc, *index),
        DistanceTarget::RectWidth(index) | DistanceTarget::RectHeight(index) => rect_alive(
            doc,
            *index,
        ),
        DistanceTarget::CircleDiameter(index) => circle_alive(doc, *index),
        DistanceTarget::LineLineDistance { line_a, line_b, side: _ } => constraint_line_alive(
            doc,
            line_a,
        ) && constraint_line_alive(doc, line_b),
        DistanceTarget::PointPointDistance { anchor, mover } => constraint_point_alive(
            doc,
            anchor,
        ) && constraint_point_alive(doc, mover),
        DistanceTarget::PointLineDistance { point, line, .. } => constraint_point_alive(
            doc,
            point,
        ) && constraint_line_alive(doc, line),
    }
}

/// Whether a constraint can still be applied: all geometry it references is alive.
pub open spec fn spec_constraint_kind_applicable(doc: Document, kind: ConstraintKind) -> bool {
    match kind {
        ConstraintKind::Distance { target } => spec_distance_target_alive(doc, target),
        ConstraintKind::Parallel { line_a, line_b } => spec_constraint_line_alive(doc, line_a)
            && spec_constraint_line_alive(doc, line_b),
        ConstraintKind::Perpendicular { line_a, line_b } => spec_constraint_line_alive(
            doc,
            line_a,
        ) && spec_constraint_line_alive(doc, line_b),
        ConstraintKind::Equal { line_a, line_b } => spec_constraint_line_alive(doc, line_a)
            && spec_constraint_line_alive(doc, line_b),
        ConstraintKind::Coincident { a, b } => spec_constraint_entity_alive(doc, a)
            && spec_constraint_entity_alive(doc, b),
        ConstraintKind::Midpoint { point, line } => spec_constraint_point_alive(doc, point)
            && spec_constraint_line_alive(doc, line),
        ConstraintKind::Horizontal { line } => spec_constraint_line_alive(doc, line),
        ConstraintKind::Vertical { line } => spec_constraint_line_alive(doc, line),
        ConstraintKind::Angle { line_a, line_b, .. } => spec_constraint_line_alive(doc, line_a)
            && spec_constraint_line_alive(doc, line_b),
    }
}

pub fn constraint_kind_applicable(doc: &Document, kind: &ConstraintKind) -> (r: bool)
    ensures
        r == spec_constraint_kind_applicable(*doc, *kind),
{
    match kind {
        ConstraintKind::Distance { target } => distance_target_alive(doc, target),
        ConstraintKind::Parallel { line_a, line_b }
        | ConstraintKind::Perpendicular { line_a, line_b }
        | ConstraintKind::Equal { line_a, line_b } => {
            constraint_line_alive(doc, line_a) && constraint_line_alive(doc, line_b)
        },
        ConstraintKind::Coincident { a, b } => {
            constraint_entity_alive(doc, a) && constraint_entity_alive(doc, b)
        },
        ConstraintKind::Midpoint { point, line } => {
            constraint_point_alive(doc, point) && constraint_line_alive(doc, line)
        },
        ConstraintKind::Horizontal { line } | ConstraintKind::Vertical { line } => {
            constraint_line_alive(doc, line)
        },
        ConstraintKind::Angle { line_a, line_b, rotation_sign: _ } => {
            constraint_line_alive(doc, line_a) && constraint_line_alive(doc, line_b)
        },
    }
}

// ---------------------------------------------------------------------------------------
// Delete targets
// ---------------------------------------------------------------------------------------

/// The scene entity that owns a sketch point.
pub open spec fn spec_point_owner_element(point: ConstraintPoint) -> SceneElement {
    match point {
        ConstraintPoint::LineEndpoint { line, .. } => SceneElement::Line(line),
        ConstraintPoint::RectCorner { rect, .. } => SceneElement::Rect(rect),
        ConstraintPoint::CircleCenter(circle) => SceneElement::Circle(circle),
    }
}

fn point_owner_element(point: &ConstraintPoint) -> (r: SceneElement)
    ensures
        r == spec_point_owner_element(*point),
{
    match point {
        ConstraintPoint::LineEndpoint { line, .. } => SceneElement::Line(*line),
        ConstraintPoint::RectCorner { rect, .. } => SceneElement::Rect(*rect),
        ConstraintPoint::CircleCenter(circle) => SceneElement::Circle(*circle),
    }
}

/// The entity that deleting `element` tombstones: a rectangle edge stands for its
/// rectangle and a point for its owner.
pub open spec fn spec_delete_target(element: SceneElement) -> SceneElement {
    match element {
        SceneElement::RectEdge(index, _) => SceneElement::Rect(index),
        SceneElement::Point(point) => spec_point_owner_element(point),
        other => other,
    }
}

/// Normalize a selection entry to the entity that should be tombstoned.
pub fn delete_target_for_element(element: SceneElement) -> (r: SceneElement)
    ensures
        r == spec_delete_target(element),
{
    match element {
        SceneElement::RectEdge(index, _) => SceneElement::Rect(index),
        SceneElement::Point(point) => point_owner_element(&point),
        other => other,
    }
}

/// `s` with later repeats removed (first occurrences kept, in order).
pub open spec fn dedup_seq(s: Seq<SceneElement>) -> Seq<SceneElement>
    decreases s.len(),
{
    if s.len() == 0 {
        Seq::empty()
    } else {
        let prev = dedup_seq(s.drop_last());
        if prev.contains(s.last()) {
            prev
        } else {
            prev.push(s.last())
        }
    }
}

pub proof fn lemma_dedup_contains(s: Seq<SceneElement>)
    ensures
        forall|x: SceneElement| dedup_seq(s).contains(x) <==> s.contains(x),
        dedup_seq(s).no_duplicates(),
    decreases s.len(),
{
    if s.len() > 0 {
        lemma_dedup_contains(s.drop_last());
        let prev = dedup_seq(s.drop_last());
        assert forall|x: SceneElement| dedup_seq(s).contains(x) <==> s.contains(x) by {
            if s.contains(x) {
                let k = choose|k: int| 0 <= k < s.len() && s[k] == x;
                if k < s.len() - 1 {
                    assert(s.drop_last()[k] == x);
                    assert(s.drop_last().contains(x));
                    assert(prev.contains(x));
                }
                if !prev.contains(s.last()) {
                    assert(prev.push(s.last())[prev.len() as int] == s.last());
                }
                if !prev.contains(s.last()) && k < s.len() - 1 {
                    let j = choose|j: int| 0 <= j < prev.len() && prev[j] == x;
                    assert(prev.push(s.last())[j] == x);
                }
            }
            if dedup_seq(s).contains(x) {
                let k = choose|k: int| 0 <= k < dedup_seq(s).len() && dedup_seq(s)[k] == x;
                if k < prev.len() {
                    assert(prev[k] == x);
                    assert(prev.contains(x));
                    assert(s.drop_last().contains(x));
                    let j = choose|j: int| 0 <= j < s.drop_last().len() && s.drop_last()[j] == x;
                    assert(s[j] == x);
                } else {
                    assert(s[s.len() - 1] == x);
                }
            }
        }
        if !prev.contains(s.last()) {
            assert forall|i: int, j: int|
                0 <= i < prev.push(s.last()).len() && 0 <= j < prev.push(s.last()).len() && i
                    != j implies prev.push(s.last())[i] != prev.push(s.last())[j] by {
                if i < prev.len() && j < prev.len() {
                } else if i == prev.len() {
                    assert(prev[j] == prev.push(s.last())[j]);
                } else {
                    assert(prev[i] == prev.push(s.last())[i]);
                }
            }
        }
    }
}

/// Delete targets of the given elements, in order, each once.
pub open spec fn spec_delete_targets(elements: Seq<SceneElement>) -> Seq<SceneElement> {
    dedup_seq(elements.map_values(|e: SceneElement| spec_delete_target(e)))
}

/// Unique tombstone targets from the current selection (deduped).
pub fn delete_targets_from_selection(selection: &SceneSelection) -> (r: Vec<SceneElement>)
    ensures
        r@ == spec_delete_targets(selection@),
{
    let elements = selection.elements();
    let ghost mapped = elements@.map_values(|e: SceneElement| spec_delete_target(e));
    let mut targets: Vec<SceneElement> = Vec::new();
    let mut i: usize = 0;
    while i < elements.len()
        invariant
            i <= elements@.len(),
            mapped == elements@.map_values(|e: SceneElement| spec_delete_target(e)),
            targets@ == dedup_seq(mapped.take(i as int)),
        decreases elements@.len() - i,
    {
        let target = delete_target_for_element(elements[i]);
        assert(mapped.take(i + 1).drop_last() =~= mapped.take(i as int));
        assert(mapped.take(i + 1).last() == target);
        let mut seen = false;
        let mut j: usize = 0;
        while j < targets.len()
            invariant
                j <= targets@.len(),
                seen == (exists|k: int| 0 <= k < j && targets@[k] == target),
            decreases targets@.len() - j,
        {
            if targets[j] == target {
                seen = true;
            }
            j = j + 1;
        }
        if !seen {
            targets.push(target);
        }
        i = i + 1;
    }
    assert(mapped.take(i as int) =~= mapped);
    targets
}

} // verus!

verus! {

// ---------------------------------------------------------------------------------------
// Creation order bookkeeping
// ---------------------------------------------------------------------------------------

/// Number of entries of kind `k` in `s`.
pub open spec fn kind_count(s: Seq<ShapeKind>, k: ShapeKind) -> nat
    decreases s.len(),
{
    if s.len() == 0 {
        0
    } else {
        kind_count(s.drop_last(), k) + if s.last() == k {
            1nat
        } else {
            0nat
        }
    }
}

/// `i` is the position of the `ordinal`-th (0-based) entry of kind `k`.
pub open spec fn is_nth_of_kind(s: Seq<ShapeKind>, k: ShapeKind, ordinal: nat, i: int) -> bool {
    0 <= i < s.len() && s[i] == k && kind_count(s.take(i), k) == ordinal
}

/// `s` without its `ordinal`-th entry of kind `k` (unchanged when there is none).
pub open spec fn spec_remove_nth_of_kind(s: Seq<ShapeKind>, k: ShapeKind, ordinal: nat) -> Seq<
    ShapeKind,
> {
    if exists|i: int| is_nth_of_kind(s, k, ordinal, i) {
        s.remove(choose|i: int| is_nth_of_kind(s, k, ordinal, i))
    } else {
        s
    }
}

proof fn lemma_kind_count_step(s: Seq<ShapeKind>, k: ShapeKind, i: int)
    requires
        0 <= i < s.len(),
    ensures
        kind_count(s.take(i + 1), k) == kind_count(s.take(i), k) + if s[i] == k {
            1nat
        } else {
            0nat
        },
{
    assert(s.take(i + 1).drop_last() =~= s.take(i));
}

proof fn lemma_kind_count_mono(s: Seq<ShapeKind>, k: ShapeKind, i: int, j: int)
    requires
        0 <= i < j <= s.len(),
        s[i] == k,
    ensures
        kind_count(s.take(j), k) >= kind_count(s.take(i), k) + 1,
    decreases j - i,
{
    lemma_kind_count_step(s, k, j - 1);
    if j - 1 > i {
        lemma_kind_count_mono(s, k, i, j - 1);
    }
}

proof fn lemma_nth_unique(s: Seq<ShapeKind>, k: ShapeKind, ordinal: nat, i: int, j: int)
    requires
        is_nth_of_kind(s, k, ordinal, i),
        is_nth_of_kind(s, k, ordinal, j),
    ensures
        i == j,
{
    if i < j {
        lemma_kind_count_mono(s, k, i, j);
    } else if j < i {
        lemma_kind_count_mono(s, k, j, i);
    }
}

/// Everything but the creation order is equal.
pub open spec fn same_but_order(d: Document, e: Document) -> bool {
    &&& d.parameters == e.parameters
    &&& d.sketches == e.sketches
    &&& d.rects == e.rects
    &&& d.lines == e.lines
    &&& d.circles == e.circles
    &&& d.constraints == e.constraints
    &&& d.construction_planes == e.construction_planes
    &&& d.extrusions == e.extrusions
    &&& d.bodies == e.bodies
    &&& d.default_length_unit == e.default_length_unit
    &&& d.default_angle_unit == e.default_angle_unit
}

/// Drop the creation-order entry that records the `ordinal`-th entity of `kind`.
fn remove_shape_order_entry(doc: &mut Document, kind: ShapeKind, ordinal: usize)
    ensures
        final(doc).shape_order@ == spec_remove_nth_of_kind(
            old(doc).shape_order@,
            kind,
            ordinal as nat,
        ),
        same_but_order(*old(doc), *final(doc)),
{
    let ghost s = doc.shape_order@;
    let mut seen: usize = 0;
    let mut i: usize = 0;
    while i < doc.shape_order.len()
        invariant
            doc.shape_order@ == s,
            same_but_order(*old(doc), *doc),
            s == old(doc).shape_order@,
            i <= s.len(),
            seen == kind_count(s.take(i as int), kind),
            seen <= i,
            forall|j: int| 0 <= j < i ==> !is_nth_of_kind(s, kind, ordinal as nat, j),
        decreases s.len() - i,
    {
        proof {
            lemma_kind_count_step(s, kind, i as int);
        }
        if doc.shape_order[i] == kind {
            if seen == ordinal {
                proof {
                    assert(is_nth_of_kind(s, kind, ordinal as nat, i as int));
                    let c = choose|c: int| is_nth_of_kind(s, kind, ordinal as nat, c);
                    lemma_nth_unique(s, kind, ordinal as nat, i as int, c);
                }
                doc.shape_order.remove(i);
                return;
            }
            seen = seen + 1;
        }
        i = i + 1;
    }
}

proof fn lemma_remove_trimmed(s: Seq<ShapeKind>, k: ShapeKind, ordinal: nat)
    requires
        k != ShapeKind::Parameter,
        k != ShapeKind::Extrusion,
        k != ShapeKind::Body,
    ensures
        order_trimmed(s, spec_remove_nth_of_kind(s, k, ordinal)),
{
    broadcast use vstd::seq_lib::group_seq_properties;
    broadcast use vstd::multiset::group_multiset_axioms;

    if exists|i: int| is_nth_of_kind(s, k, ordinal, i) {
        let i = choose|i: int| is_nth_of_kind(s, k, ordinal, i);
        assert(s.remove(i).to_multiset() =~= s.to_multiset().remove(s[i]));
    }
}

// ---------------------------------------------------------------------------------------
// Cascading tombstones
// ---------------------------------------------------------------------------------------

/// Tombstone a line (it owns nothing).
pub fn tombstone_line(doc: &mut Document, index: usize) -> (changed: bool)
    ensures
        cascade_post(*old(doc), *final(doc), SceneElement::Line(index), changed),
        changed ==> final(doc).lines@ == old(doc).lines@.update(
            index as int,
            Line { deleted: true, ..old(doc).lines@[index as int] },
        ),
        !changed ==> final(doc).lines == old(doc).lines,
        changed ==> final(doc).shape_order@ == spec_remove_nth_of_kind(
            old(doc).shape_order@,
            ShapeKind::Line,
            index as nat,
        ),
        !changed ==> final(doc).shape_order == old(doc).shape_order,
        final(doc).sketches == old(doc).sketches,
        final(doc).rects == old(doc).rects,
        final(doc).circles == old(doc).circles,
        final(doc).constraints == old(doc).constraints,
        final(doc).construction_planes == old(doc).construction_planes,
{
    let ghost d0 = *doc;
    if index >= doc.lines.len() || doc.lines[index].deleted {
        proof {
            lemma_grows_refl(d0);
            assert forall|n: SceneElement| #[trigger] node_deleted(d0, n) == (node_deleted(d0, n)
                || reaches(d0, SceneElement::Line(index), n)) by {
                if reaches(d0, SceneElement::Line(index), n) {
                    lemma_reach_start_alive(d0, SceneElement::Line(index), n);
                }
            }
        }
        return false;
    }
    doc.lines[index].deleted = true;
    remove_shape_order_entry(doc, ShapeKind::Line, index);
    proof {
        lemma_remove_trimmed(d0.shape_order@, ShapeKind::Line, index as nat);
        let e = *doc;
        assert(grows(d0, e));
        assert forall|n: SceneElement| #[trigger] node_deleted(e, n) == (node_deleted(d0, n)
            || reaches(d0, SceneElement::Line(index), n)) by {
            if reaches(d0, SceneElement::Line(index), n) {
                lemma_leaf_reach(d0, SceneElement::Line(index), n);
            }
            if n == SceneElement::Line(index) {
                lemma_reach_self(d0, n);
            }
        }
    }
    true
}

/// Tombstone a constraint (it owns nothing).
fn tombstone_constraint(doc: &mut Document, index: usize) -> (changed: bool)
    ensures
        cascade_post(*old(doc), *final(doc), SceneElement::Constraint(index), changed),
        changed ==> final(doc).constraints@ == old(doc).constraints@.update(
            index as int,
            Constraint { deleted: true, ..old(doc).constraints@[index as int] },
        ),
        !changed ==> final(doc).constraints == old(doc).constraints,
        changed ==> final(doc).shape_order@ == spec_remove_nth_of_kind(
            old(doc).shape_order@,
            ShapeKind::Constraint,
            index as nat,
        ),
        !changed ==> final(doc).shape_order == old(doc).shape_order,
        final(doc).sketches == old(doc).sketches,
        final(doc).rects == old(doc).rects,
        final(doc).lines == old(doc).lines,
        final(doc).circles == old(doc).circles,
        final(doc).construction_planes == old(doc).construction_planes,
{
    let ghost d0 = *doc;
    if index >= doc.constraints.len() || doc.constraints[index].deleted {
        proof {
            lemma_grows_refl(d0);
            assert forall|n: SceneElement| #[trigger] node_deleted(d0, n) == (node_deleted(d0, n)
                || reaches(d0, SceneElement::Constraint(index), n)) by {
                if reaches(d0, SceneElement::Constraint(index), n) {
                    lemma_reach_start_alive(d0, SceneElement::Constraint(index), n);
                }
            }
        }
        return false;
    }
    doc.constraints[index].deleted = true;
    remove_shape_order_entry(doc, ShapeKind::Constraint, index);
    proof {
        lemma_remove_trimmed(d0.shape_order@, ShapeKind::Constraint, index as nat);
        let e = *doc;
        assert(grows(d0, e));
        assert forall|n: SceneElement| #[trigger] node_deleted(e, n) == (node_deleted(d0, n)
            || reaches(d0, SceneElement::Constraint(index), n)) by {
            if reaches(d0, SceneElement::Constraint(index), n) {
                lemma_leaf_reach(d0, SceneElement::Constraint(index), n);
            }
            if n == SceneElement::Constraint(index) {
                lemma_reach_self(d0, n);
            }
        }
    }
    true
}

} // verus!

verus! {

/// Bookkeeping shared by every step of a cascade from `s`: `d0` is the document before,
/// `d1` right after tombstoning `s` itself.
pub open spec fn cascade_progress(d0: Document, d1: Document, s: SceneElement, cur: Document) -> bool {
    &&& grows(d0, d1)
    &&& node_alive(d0, s)
    &&& others_same(d0, cur)
    &&& grows(d1, cur)
    &&& closed_growth(d1, cur)
    &&& forall|n: SceneElement| #[trigger]
        node_deleted(cur, n) ==> node_deleted(d1, n) || reaches(d0, s, n)
    &&& order_trimmed(d0.shape_order@, cur.shape_order@)
    &&& live_measure(d1) < live_measure(d0)
}

/// Run the cascade on each child in `children`, in order.
fn tombstone_list(
    doc: &mut Document,
    children: &Vec<SceneElement>,
    Ghost(d0): Ghost<Document>,
    Ghost(d1): Ghost<Document>,
    Ghost(s): Ghost<SceneElement>,
)
    requires
        cascade_progress(d0, d1, s, *old(doc)),
        forall|j: int| 0 <= j < children@.len() ==> owns(d0, s, #[trigger] children@[j]),
    ensures
        cascade_progress(d0, d1, s, *final(doc)),
        grows(*old(doc), *final(doc)),
        forall|j: int|
            0 <= j < children@.len() && node_alive(*old(doc), #[trigger] children@[j])
                ==> node_deleted(*final(doc), children@[j]),
    decreases live_measure(*old(doc)), 3nat,
{
    let ghost start = *doc;
    proof {
        lemma_grows_refl(start);
    }
    let mut k: usize = 0;
    while k < children.len()
        invariant
            k <= children@.len(),
            cascade_progress(d0, d1, s, *doc),
            cascade_progress(d0, d1, s, start),
            start == *old(doc),
            grows(start, *doc),
            live_measure(*doc) <= live_measure(start),
            forall|j: int| 0 <= j < children@.len() ==> owns(d0, s, #[trigger] children@[j]),
            forall|j: int|
                0 <= j < k && node_alive(start, #[trigger] children@[j]) ==> node_deleted(
                    *doc,
                    children@[j],
                ),
        decreases children@.len() - k,
    {
        let ghost cur = *doc;
        let c = children[k];
        let changed = tombstone_node(doc, c);
        proof {
            let next = *doc;
            lemma_child_call(d0, d1, s, cur, next, c, changed);
            lemma_order_trans(d0.shape_order@, cur.shape_order@, next.shape_order@);
            lemma_grows_trans(start, cur, next);
            lemma_measure_grows(cur, next);
            lemma_grows_nodes(cur, next);
            lemma_grows_nodes(start, cur);
            assert forall|j: int|
                0 <= j < k + 1 && node_alive(start, #[trigger] children@[j]) implies node_deleted(
                next,
                children@[j],
            ) by {
                if j < k {
                    assert(node_deleted(cur, children@[j]));
                } else {
                    if !node_alive(cur, c) {
                        lemma_grows_nodes(d1, start);
                        assert(node_deleted(cur, c));
                    }
                }
            }
        }
        k = k + 1;
    }
}

/// Dispatch a cascading tombstone on a graph node; any other element is left alone.
fn tombstone_node(doc: &mut Document, node: SceneElement) -> (changed: bool)
    ensures
        cascade_post(*old(doc), *final(doc), node, changed),
    decreases live_measure(*old(doc)), 2nat,
{
    match node {
        SceneElement::ConstructionPlane(index) => tombstone_construction_plane(doc, index),
        SceneElement::Sketch(index) => tombstone_sketch(doc, index),
        SceneElement::Rect(index) => tombstone_rect(doc, index),
        SceneElement::Line(index) => tombstone_line(doc, index),
        SceneElement::Circle(index) => tombstone_circle(doc, index),
        SceneElement::Constraint(index) => tombstone_constraint(doc, index),
        _ => {
            proof {
                let d0 = *doc;
                lemma_grows_refl(d0);
                assert forall|n: SceneElement| #[trigger] node_deleted(d0, n) == (node_deleted(
                    d0,
                    n,
                ) || reaches(d0, node, n)) by {
                    if reaches(d0, node, n) {
                        lemma_reach_start_alive(d0, node, n);
                    }
                }
            }
            false
        },
    }
}

/// The sketches hosted on `face`, as scene elements.
fn hosted_sketches(doc: &Document, face: FaceId) -> (r: Vec<SceneElement>)
    ensures
        forall|j: int|
            0 <= j < r@.len() ==> (#[trigger] r@[j]) is Sketch && r@[j]->Sketch_0
                < doc.sketches@.len() && doc.sketches@[r@[j]->Sketch_0 as int].face == face,
        forall|s: usize|
            s < doc.sketches@.len() && doc.sketches@[s as int].face == face ==> r@.contains(
                SceneElement::Sketch(s),
            ),
{
    let mut out: Vec<SceneElement> = Vec::new();
    let mut i: usize = 0;
    while i < doc.sketches.len()
        invariant
            i <= doc.sketches@.len(),
            forall|j: int|
                0 <= j < out@.len() ==> (#[trigger] out@[j]) is Sketch && out@[j]->Sketch_0
                    < doc.sketches@.len() && doc.sketches@[out@[j]->Sketch_0 as int].face == face,
            forall|s: usize|
                s < i && doc.sketches@[s as int].face == face ==> out@.contains(
                    SceneElement::Sketch(s),
                ),
        decreases doc.sketches@.len() - i,
    {
        let ghost before = out@;
        if doc.sketches[i].face == face {
            out.push(SceneElement::Sketch(i));
            proof {
                assert(out@[out@.len() - 1] == SceneElement::Sketch(i));
                assert forall|j: int| 0 <= j < before.len() implies out@[j] == before[j] by {}
            }
        }
        proof {
            assert forall|s: usize|
                s < i + 1 && doc.sketches@[s as int].face == face implies out@.contains(
                SceneElement::Sketch(s),
            ) by {
                if s == i {
                    assert(out@[out@.len() - 1] == SceneElement::Sketch(i));
                } else {
                    assert(before.contains(SceneElement::Sketch(s)));
                    let j = choose|j: int| 0 <= j < before.len() && before[j] == SceneElement::Sketch(s);
                    assert(out@[j] == SceneElement::Sketch(s));
                }
            }
        }
        i = i + 1;
    }
    out
}

/// Tombstone every sketch hosted on `face`, for a container `s` that was just tombstoned.
fn tombstone_hosted(
    doc: &mut Document,
    face: FaceId,
    Ghost(d0): Ghost<Document>,
    Ghost(s): Ghost<SceneElement>,
)
    requires
        cascade_progress(d0, *old(doc), s, *old(doc)),
        node_deleted(*old(doc), s),
        forall|m: SceneElement| #[trigger]
            node_deleted(*old(doc), m) ==> node_deleted(d0, m) || m == s,
        forall|c: SceneElement|
            owns(d0, s, c) <==> (c is Sketch && c->Sketch_0 < d0.sketches@.len()
                && d0.sketches@[c->Sketch_0 as int].face == face),
    ensures
        grows(d0, *final(doc)),
        others_same(d0, *final(doc)),
        forall|n: SceneElement|
            #[trigger] node_deleted(*final(doc), n) == (node_deleted(d0, n) || reaches(d0, s, n)),
        order_trimmed(d0.shape_order@, final(doc).shape_order@),
    decreases live_measure(*old(doc)), 4nat,
{
    let ghost d1 = *doc;
    let sketches = hosted_sketches(doc, face);
    proof {
        lemma_grows_nodes(d0, d1);
        assert forall|j: int| 0 <= j < sketches@.len() implies owns(d0, s, #[trigger] sketches@[j]) by {
            assert(sketches@[j] is Sketch);
        }
    }
    tombstone_list(doc, &sketches, Ghost(d0), Ghost(d1), Ghost(s));
    proof {
        let e = *doc;
        assert forall|c: SceneElement| owns(d0, s, c) && node_alive(d1, c) implies #[trigger] node_deleted(e, c) by {
            let sid = c->Sketch_0;
            assert(sketches@.contains(SceneElement::Sketch(sid)));
            let j = choose|j: int| 0 <= j < sketches@.len() && sketches@[j] == SceneElement::Sketch(sid);
            assert(node_alive(d1, sketches@[j]));
        }
        lemma_finish(d0, d1, e, s);
    }
}

} // verus!

verus! {

proof fn lemma_group_done(
    d0: Document,
    d1: Document,
    s: SceneElement,
    l: Document,
    e: Document,
    list: Seq<SceneElement>,
    cat: spec_fn(SceneElement) -> bool,
)
    requires
        grows(d0, d1),
        grows(d1, l),
        grows(l, e),
        forall|j: int|
            0 <= j < list.len() && node_alive(l, #[trigger] list[j]) ==> node_deleted(e, list[j]),
        forall|c: SceneElement|
            cat(c) && owns(l, s, c) && node_alive(l, c) ==> #[trigger] list.contains(c),
    ensures
        forall|c: SceneElement|
            cat(c) && owns(d0, s, c) && node_alive(d1, c) ==> #[trigger] node_deleted(e, c),
{
    lemma_grows_nodes(d0, d1);
    lemma_grows_nodes(d1, l);
    lemma_grows_nodes(l, e);
    assert forall|c: SceneElement|
        cat(c) && owns(d0, s, c) && node_alive(d1, c) implies #[trigger] node_deleted(e, c) by {
        if node_alive(l, c) {
            assert(list.contains(c));
            let j = choose|j: int| 0 <= j < list.len() && list[j] == c;
            assert(node_alive(l, list[j]));
        } else {
            assert(node_deleted(l, c));
        }
    }
}

/// Live rectangles of sketch `sketch`.
fn owned_rects(doc: &Document, sketch: SketchId) -> (r: Vec<SceneElement>)
    ensures
        forall|j: int| 0 <= j < r@.len() ==> owns(*doc, SceneElement::Sketch(sketch), #[trigger] r@[j]),
        forall|c: SceneElement|
            c is Rect && owns(*doc, SceneElement::Sketch(sketch), c) && node_alive(*doc, c)
                ==> #[trigger] r@.contains(c),
{
    let mut out: Vec<SceneElement> = Vec::new();
    let mut i: usize = 0;
    while i < doc.rects.len()
        invariant
            i <= doc.rects@.len(),
            forall|j: int| 0 <= j < out@.len() ==> owns(*doc, SceneElement::Sketch(sketch), #[trigger] out@[j]),
            forall|c: SceneElement|
                c is Rect && c->Rect_0 < i && owns(*doc, SceneElement::Sketch(sketch), c)
                    && node_alive(*doc, c) ==> #[trigger] out@.contains(c),
        decreases doc.rects@.len() - i,
    {
        let ghost before = out@;
        if doc.rects[i].sketch == sketch && !doc.rects[i].deleted {
            out.push(SceneElement::Rect(i));
            proof {
                assert(out@[out@.len() - 1] == SceneElement::Rect(i));
                assert forall|j: int| 0 <= j < before.len() implies out@[j] == before[j] by {}
            }
        }
        proof {
            assert forall|c: SceneElement|
                c is Rect && c->Rect_0 < i + 1 && owns(*doc, SceneElement::Sketch(sketch), c)
                    && node_alive(*doc, c) implies #[trigger] out@.contains(c) by {
                if c->Rect_0 == i {
                    assert(out@[out@.len() - 1] == c);
                } else {
                    assert(before.contains(c));
                    let j = choose|j: int| 0 <= j < before.len() && before[j] == c;
                    assert(out@[j] == c);
                }
            }
        }
        i = i + 1;
    }
    out
}

/// Live lines of sketch `sketch`.
fn owned_lines(doc: &Document, sketch: SketchId) -> (r: Vec<SceneElement>)
    ensures
        forall|j: int| 0 <= j < r@.len() ==> owns(*doc, SceneElement::Sketch(sketch), #[trigger] r@[j]),
        forall|c: SceneElement|
            c is Line && owns(*doc, SceneElement::Sketch(sketch), c) && node_alive(*doc, c)
                ==> #[trigger] r@.contains(c),
{
    let mut out: Vec<SceneElement> = Vec::new();
    let mut i: usize = 0;
    while i < doc.lines.len()
        invariant
            i <= doc.lines@.len(),
            forall|j: int| 0 <= j < out@.len() ==> owns(*doc, SceneElement::Sketch(sketch), #[trigger] out@[j]),
            forall|c: SceneElement|
                c is Line && c->Line_0 < i && owns(*doc, SceneElement::Sketch(sketch), c)
                    && node_alive(*doc, c) ==> #[trigger] out@.contains(c),
        decreases doc.lines@.len() - i,
    {
        let ghost before = out@;
        if doc.lines[i].sketch == sketch && !doc.lines[i].deleted {
            out.push(SceneElement::Line(i));
            proof {
                assert(out@[out@.len() - 1] == SceneElement::Line(i));
                assert forall|j: int| 0 <= j < before.len() implies out@[j] == before[j] by {}
            }
        }
        proof {
            assert forall|c: SceneElement|
                c is Line && c->Line_0 < i + 1 && owns(*doc, SceneElement::Sketch(sketch), c)
                    && node_alive(*doc, c) implies #[trigger] out@.contains(c) by {
                if c->Line_0 == i {
                    assert(out@[out@.len() - 1] == c);
                } else {
                    assert(before.contains(c));
                    let j = choose|j: int| 0 <= j < before.len() && before[j] == c;
                    assert(out@[j] == c);
                }
            }
        }
        i = i + 1;
    }
    out
}

/// Live circles of sketch `sketch`.
fn owned_circles(doc: &Document, sketch: SketchId) -> (r: Vec<SceneElement>)
    ensures
        forall|j: int| 0 <= j < r@.len() ==> owns(*doc, SceneElement::Sketch(sketch), #[trigger] r@[j]),
        forall|c: SceneElement|
            c is Circle && owns(*doc, SceneElement::Sketch(sketch), c) && node_alive(*doc, c)
                ==> #[trigger] r@.contains(c),
{
    let mut out: Vec<SceneElement> = Vec::new();
    let mut i: usize = 0;
    while i < doc.circles.len()
        invariant
            i <= doc.circles@.len(),
            forall|j: int| 0 <= j < out@.len() ==> owns(*doc, SceneElement::Sketch(sketch), #[trigger] out@[j]),
            forall|c: SceneElement|
                c is Circle && c->Circle_0 < i && owns(*doc, SceneElement::Sketch(sketch), c)
                    && node_alive(*doc, c) ==> #[trigger] out@.contains(c),
        decreases doc.circles@.len() - i,
    {
        let ghost before = out@;
        if doc.circles[i].sketch == sketch && !doc.circles[i].deleted {
            out.push(SceneElement::Circle(i));
            proof {
                assert(out@[out@.len() - 1] == SceneElement::Circle(i));
                assert forall|j: int| 0 <= j < before.len() implies out@[j] == before[j] by {}
            }
        }
        proof {
            assert forall|c: SceneElement|
                c is Circle && c->Circle_0 < i + 1 && owns(*doc, SceneElement::Sketch(sketch), c)
                    && node_alive(*doc, c) implies #[trigger] out@.contains(c) by {
                if c->Circle_0 == i {
                    assert(out@[out@.len() - 1] == c);
                } else {
                    assert(before.contains(c));
                    let j = choose|j: int| 0 <= j < before.len() && before[j] == c;
                    assert(out@[j] == c);
                }
            }
        }
        i = i + 1;
    }
    out
}

/// Live constraints of sketch `sketch`.
fn owned_constraints(doc: &Document, sketch: SketchId) -> (r: Vec<SceneElement>)
    ensures
        forall|j: int| 0 <= j < r@.len() ==> owns(*doc, SceneElement::Sketch(sketch), #[trigger] r@[j]),
        forall|c: SceneElement|
            c is Constraint && owns(*doc, SceneElement::Sketch(sketch), c) && node_alive(*doc, c)
                ==> #[trigger] r@.contains(c),
{
    let mut out: Vec<SceneElement> = Vec::new();
    let mut i: usize = 0;
    while i < doc.constraints.len()
        invariant
            i <= doc.constraints@.len(),
            forall|j: int| 0 <= j < out@.len() ==> owns(*doc, SceneElement::Sketch(sketch), #[trigger] out@[j]),
            forall|c: SceneElement|
                c is Constraint && c->Constraint_0 < i && owns(*doc, SceneElement::Sketch(sketch), c)
                    && node_alive(*doc, c) ==> #[trigger] out@.contains(c),
        decreases doc.constraints@.len() - i,
    {
        let ghost before = out@;
        if doc.constraints[i].sketch == sketch && !doc.constraints[i].deleted {
            out.push(SceneElement::Constraint(i));
            proof {
                assert(out@[out@.len() - 1] == SceneElement::Constraint(i));
                assert forall|j: int| 0 <= j < before.len() implies out@[j] == before[j] by {}
            }
        }
        proof {
            assert forall|c: SceneElement|
                c is Constraint && c->Constraint_0 < i + 1 && owns(*doc, SceneElement::Sketch(sketch), c)
                    && node_alive(*doc, c) implies #[trigger] out@.contains(c) by {
                if c->Constraint_0 == i {
                    assert(out@[out@.len() - 1] == c);
                } else {
                    assert(before.contains(c));
                    let j = choose|j: int| 0 <= j < before.len() && before[j] == c;
                    assert(out@[j] == c);
                }
            }
        }
        i = i + 1;
    }
    out
}

/// Live construction planes parented to sketch `sketch`.
fn owned_planes(doc: &Document, sketch: SketchId) -> (r: Vec<SceneElement>)
    ensures
        forall|j: int| 0 <= j < r@.len() ==> owns(*doc, SceneElement::Sketch(sketch), #[trigger] r@[j]),
        forall|c: SceneElement|
            c is ConstructionPlane && owns(*doc, SceneElement::Sketch(sketch), c) && node_alive(*doc, c)
                ==> #[trigger] r@.contains(c),
{
    let mut out: Vec<SceneElement> = Vec::new();
    let mut i: usize = 0;
    while i < doc.construction_planes.len()
        invariant
            i <= doc.construction_planes@.len(),
            forall|j: int| 0 <= j < out@.len() ==> owns(*doc, SceneElement::Sketch(sketch), #[trigger] out@[j]),
            forall|c: SceneElement|
                c is ConstructionPlane && c->ConstructionPlane_0 < i && owns(*doc, SceneElement::Sketch(sketch), c)
                    && node_alive(*doc, c) ==> #[trigger] out@.contains(c),
        decreases doc.construction_planes@.len() - i,
    {
        let ghost before = out@;
        let parent_matches = match doc.construction_planes[i].parent {
            ConstructionPlaneParent::Sketch(s) => s == sketch,
            ConstructionPlaneParent::Root => false,
        };
        if parent_matches && !doc.construction_planes[i].deleted {
            out.push(SceneElement::ConstructionPlane(i));
            proof {
                assert(out@[out@.len() - 1] == SceneElement::ConstructionPlane(i));
                assert forall|j: int| 0 <= j < before.len() implies out@[j] == before[j] by {}
            }
        }
        proof {
            assert forall|c: SceneElement|
                c is ConstructionPlane && c->ConstructionPlane_0 < i + 1 && owns(*doc, SceneElement::Sketch(sketch), c)
                    && node_alive(*doc, c) implies #[trigger] out@.contains(c) by {
                if c->ConstructionPlane_0 == i {
                    assert(out@[out@.len() - 1] == c);
                } else {
                    assert(before.contains(c));
                    let j = choose|j: int| 0 <= j < before.len() && before[j] == c;
                    assert(out@[j] == c);
                }
            }
        }
        i = i + 1;
    }
    out
}

} // verus!

verus! {

proof fn lemma_dead_noop(d: Document, n: SceneElement)
    requires
        !node_alive(d, n),
    ensures
        cascade_post(d, d, n, false),
{
    lemma_grows_refl(d);
    assert forall|m: SceneElement| #[trigger] node_deleted(d, m) == (node_deleted(d, m) || reaches(d, n, m)) by {
        if reaches(d, n, m) {
            lemma_reach_start_alive(d, n, m);
        }
    }
}

proof fn lemma_marked(d0: Document, d1: Document, n: SceneElement)
    requires
        grows(d0, d1),
        node_alive(d0, n),
        node_deleted(d1, n),
        n is ConstructionPlane || n is Sketch || n is Rect || n is Circle,
        order_trimmed(d0.shape_order@, d1.shape_order@),
        others_same(d0, d1),
    ensures
        cascade_progress(d0, d1, n, d1),
{
    lemma_grows_refl(d1);
    lemma_measure_grows(d0, d1);
}

/// Tombstone a rectangle and the sketches hosted on it, with everything they hold.
pub fn tombstone_rect(doc: &mut Document, index: usize) -> (changed: bool)
    ensures
        cascade_post(*old(doc), *final(doc), SceneElement::Rect(index), changed),
    decreases live_measure(*old(doc)), 1nat,
{
    let ghost d0 = *doc;
    let ghost s = SceneElement::Rect(index);
    if index >= doc.rects.len() || doc.rects[index].deleted {
        proof {
            lemma_dead_noop(d0, s);
        }
        return false;
    }
    doc.rects[index].deleted = true;
    remove_shape_order_entry(doc, ShapeKind::Rect, index);
    proof {
        lemma_remove_trimmed(d0.shape_order@, ShapeKind::Rect, index as nat);
        lemma_marked(d0, *doc, s);
    }
    tombstone_hosted(doc, FaceId::Rect(index), Ghost(d0), Ghost(s));
    true
}

fn tombstone_circle(doc: &mut Document, index: usize) -> (changed: bool)
    ensures
        cascade_post(*old(doc), *final(doc), SceneElement::Circle(index), changed),
    decreases live_measure(*old(doc)), 1nat,
{
    let ghost d0 = *doc;
    let ghost s = SceneElement::Circle(index);
    if index >= doc.circles.len() || doc.circles[index].deleted {
        proof {
            lemma_dead_noop(d0, s);
        }
        return false;
    }
    doc.circles[index].deleted = true;
    remove_shape_order_entry(doc, ShapeKind::Circle, index);
    proof {
        lemma_remove_trimmed(d0.shape_order@, ShapeKind::Circle, index as nat);
        lemma_marked(d0, *doc, s);
    }
    tombstone_hosted(doc, FaceId::Circle(index), Ghost(d0), Ghost(s));
    true
}

fn tombstone_construction_plane(doc: &mut Document, index: usize) -> (changed: bool)
    ensures
        cascade_post(*old(doc), *final(doc), SceneElement::ConstructionPlane(index), changed),
    decreases live_measure(*old(doc)), 1nat,
{
    let ghost d0 = *doc;
    let ghost s = SceneElement::ConstructionPlane(index);
    if index >= doc.construction_planes.len() || doc.construction_planes[index].deleted {
        proof {
            lemma_dead_noop(d0, s);
        }
        return false;
    }
    doc.construction_planes[index].deleted = true;
    remove_shape_order_entry(doc, ShapeKind::ConstructionPlane, index);
    proof {
        lemma_remove_trimmed(d0.shape_order@, ShapeKind::ConstructionPlane, index as nat);
        lemma_marked(d0, *doc, s);
    }
    tombstone_hosted(doc, FaceId::ConstructionPlane(index), Ghost(d0), Ghost(s));
    true
}

/// Tombstone a sketch with its geometry, its constraints and the planes built on it.
pub fn tombstone_sketch(doc: &mut Document, sketch: SketchId) -> (changed: bool)
    ensures
        cascade_post(*old(doc), *final(doc), SceneElement::Sketch(sketch), changed),
    decreases live_measure(*old(doc)), 1nat,
{
    let ghost d0 = *doc;
    let ghost s = SceneElement::Sketch(sketch);
    if sketch >= doc.sketches.len() || doc.sketches[sketch].deleted {
        proof {
            lemma_dead_noop(d0, s);
        }
        return false;
    }
    doc.sketches[sketch].deleted = true;
    remove_shape_order_entry(doc, ShapeKind::Sketch, sketch);
    let ghost d1 = *doc;
    proof {
        lemma_remove_trimmed(d0.shape_order@, ShapeKind::Sketch, sketch as nat);
        lemma_marked(d0, d1, s);
        lemma_grows_nodes(d0, d1);
    }

    let ghost l = *doc;
    let rects = owned_rects(doc, sketch);
    tombstone_list(doc, &rects, Ghost(d0), Ghost(d1), Ghost(s));
    proof {
        lemma_grows_nodes(d1, l);
        lemma_group_done(d0, d1, s, l, *doc, rects@, |c: SceneElement| c is Rect);
    }

    proof {
        lemma_measure_grows(d1, *doc);
    }
    let ghost l = *doc;
    let lines = owned_lines(doc, sketch);
    tombstone_list(doc, &lines, Ghost(d0), Ghost(d1), Ghost(s));
    proof {
        lemma_grows_nodes(d1, l);
        lemma_grows_nodes(l, *doc);
        lemma_group_done(d0, d1, s, l, *doc, lines@, |c: SceneElement| c is Line);
    }

    proof {
        lemma_measure_grows(d1, *doc);
    }
    let ghost l = *doc;
    let circles = owned_circles(doc, sketch);
    tombstone_list(doc, &circles, Ghost(d0), Ghost(d1), Ghost(s));
    proof {
        lemma_grows_nodes(d1, l);
        lemma_grows_nodes(l, *doc);
        lemma_group_done(d0, d1, s, l, *doc, circles@, |c: SceneElement| c is Circle);
    }

    proof {
        lemma_measure_grows(d1, *doc);
    }
    let ghost l = *doc;
    let constraints = owned_constraints(doc, sketch);
    tombstone_list(doc, &constraints, Ghost(d0), Ghost(d1), Ghost(s));
    proof {
        lemma_grows_nodes(d1, l);
        lemma_grows_nodes(l, *doc);
        lemma_group_done(d0, d1, s, l, *doc, constraints@, |c: SceneElement| c is Constraint);
    }

    proof {
        lemma_measure_grows(d1, *doc);
    }
    let ghost l = *doc;
    let planes = owned_planes(doc, sketch);
    tombstone_list(doc, &planes, Ghost(d0), Ghost(d1), Ghost(s));
    proof {
        lemma_grows_nodes(d1, l);
        lemma_grows_nodes(l, *doc);
        lemma_group_done(d0, d1, s, l, *doc, planes@, |c: SceneElement| c is ConstructionPlane);
        let e = *doc;
        assert forall|c: SceneElement| owns(d0, s, c) && node_alive(d1, c) implies #[trigger] node_deleted(e, c) by {
        }
        lemma_finish(d0, d1, e, s);
    }
    true
}

} // verus!

verus! {

/// Tombstone a body (nothing hangs off it).
fn tombstone_body(doc: &mut Document, index: usize) -> (changed: bool)
    ensures
        changed == spec_body_alive(*old(doc), index),
        changed ==> final(doc).bodies@ == old(doc).bodies@.update(
            index as int,
            Body { deleted: true, ..old(doc).bodies@[index as int] },
        ),
        changed ==> final(doc).shape_order@ == spec_remove_nth_of_kind(
            old(doc).shape_order@,
            ShapeKind::Body,
            index as nat,
        ),
        !changed ==> *final(doc) == *old(doc),
        final(doc).parameters == old(doc).parameters,
        final(doc).sketches == old(doc).sketches,
        final(doc).rects == old(doc).rects,
        final(doc).lines == old(doc).lines,
        final(doc).circles == old(doc).circles,
        final(doc).constraints == old(doc).constraints,
        final(doc).construction_planes == old(doc).construction_planes,
        final(doc).extrusions == old(doc).extrusions,
        final(doc).default_length_unit == old(doc).default_length_unit,
        final(doc).default_angle_unit == old(doc).default_angle_unit,
{
    if index >= doc.bodies.len() || doc.bodies[index].deleted {
        return false;
    }
    doc.bodies[index].deleted = true;
    remove_shape_order_entry(doc, ShapeKind::Body, index);
    true
}

/// Tombstone a parameter by index (used by parameter deletion and selection delete).
pub fn tombstone_parameter(doc: &mut Document, index: usize) -> (changed: bool)
    ensures
        changed == spec_parameter_alive(*old(doc), index),
        changed ==> final(doc).parameters@ == old(doc).parameters@.update(
            index as int,
            Parameter { deleted: true, ..old(doc).parameters@[index as int] },
        ),
        changed ==> final(doc).shape_order@ == spec_remove_nth_of_kind(
            old(doc).shape_order@,
            ShapeKind::Parameter,
            index as nat,
        ),
        !changed ==> *final(doc) == *old(doc),
        final(doc).sketches == old(doc).sketches,
        final(doc).rects == old(doc).rects,
        final(doc).lines == old(doc).lines,
        final(doc).circles == old(doc).circles,
        final(doc).constraints == old(doc).constraints,
        final(doc).construction_planes == old(doc).construction_planes,
        final(doc).extrusions == old(doc).extrusions,
        final(doc).bodies == old(doc).bodies,
        final(doc).default_length_unit == old(doc).default_length_unit,
        final(doc).default_angle_unit == old(doc).default_angle_unit,
{
    if index >= doc.parameters.len() || doc.parameters[index].deleted {
        return false;
    }
    doc.parameters[index].deleted = true;
    remove_shape_order_entry(doc, ShapeKind::Parameter, index);
    true
}

/// `s` without any occurrence of `e`.
pub open spec fn drop_extrusion(s: Seq<usize>, e: usize) -> Seq<usize> {
    s.filter(|x: usize| x != e)
}

/// What removing extrusion `e` does to one body: a live body built from `e` alone is
/// tombstoned; a live body merging `e` with others just drops `e`; others are untouched.
pub open spec fn body_after_extrusion_removed(before: Body, after: Body, e: usize) -> bool {
    if !before.deleted && before.extrusions@.contains(e) {
        if before.extrusions@ == seq![e] {
            after == Body { deleted: true, ..before }
        } else {
            &&& after.extrusions@ == drop_extrusion(before.extrusions@, e)
            &&& after.name == before.name
            &&& !after.deleted
        }
    } else {
        after == before
    }
}

/// Postcondition of tombstoning extrusion `index`.
pub open spec fn extrusion_post(d: Document, e: Document, index: usize, changed: bool) -> bool {
    &&& changed == spec_extrusion_alive(d, index)
    &&& !changed ==> e == d
    &&& changed ==> {
        &&& e.extrusions@ == d.extrusions@.update(
            index as int,
            Extrusion { deleted: true, ..d.extrusions@[index as int] },
        )
        &&& e.bodies@.len() == d.bodies@.len()
        &&& forall|b: int|
            0 <= b < d.bodies@.len() ==> body_after_extrusion_removed(
                #[trigger] d.bodies@[b],
                e.bodies@[b],
                index,
            )
        &&& e.shape_order@.to_multiset().subset_of(d.shape_order@.to_multiset())
    }
    &&& e.parameters == d.parameters
    &&& e.sketches == d.sketches
    &&& e.rects == d.rects
    &&& e.lines == d.lines
    &&& e.circles == d.circles
    &&& e.constraints == d.constraints
    &&& e.construction_planes == d.construction_planes
    &&& e.default_length_unit == d.default_length_unit
    &&& e.default_angle_unit == d.default_angle_unit
}

proof fn lemma_remove_nth_subset(s: Seq<ShapeKind>, k: ShapeKind, ordinal: nat)
    ensures
        spec_remove_nth_of_kind(s, k, ordinal).to_multiset().subset_of(s.to_multiset()),
{
    broadcast use vstd::seq_lib::group_seq_properties;
    broadcast use vstd::multiset::group_multiset_axioms;

    if exists|i: int| is_nth_of_kind(s, k, ordinal, i) {
        let i = choose|i: int| is_nth_of_kind(s, k, ordinal, i);
        assert(s.remove(i).to_multiset() =~= s.to_multiset().remove(s[i]));
    }
}

/// `v` without any occurrence of `e`.
fn without_extrusion(v: &Vec<usize>, e: usize) -> (r: Vec<usize>)
    ensures
        r@ == drop_extrusion(v@, e),
{
    let mut out: Vec<usize> = Vec::new();
    let mut i: usize = 0;
    while i < v.len()
        invariant
            i <= v@.len(),
            out@ == drop_extrusion(v@.take(i as int), e),
        decreases v@.len() - i,
    {
        proof {
            assert(v@.take(i + 1).drop_last() =~= v@.take(i as int));
            reveal_with_fuel(Seq::filter, 1);
        }
        if v[i] != e {
            out.push(v[i]);
        }
        i = i + 1;
    }
    assert(v@.take(i as int) =~= v@);
    out
}

fn body_owns_extrusion(body: &Body, e: usize) -> (r: bool)
    ensures
        r == body.extrusions@.contains(e),
{
    let mut i: usize = 0;
    while i < body.extrusions.len()
        invariant
            i <= body.extrusions@.len(),
            forall|j: int| 0 <= j < i ==> body.extrusions@[j] != e,
        decreases body.extrusions@.len() - i,
    {
        if body.extrusions[i] == e {
            return true;
        }
        i = i + 1;
    }
    false
}

fn tombstone_extrusion(doc: &mut Document, index: usize) -> (changed: bool)
    ensures
        extrusion_post(*old(doc), *final(doc), index, changed),
{
    let ghost d0 = *doc;
    if index >= doc.extrusions.len() || doc.extrusions[index].deleted {
        return false;
    }
    doc.extrusions[index].deleted = true;
    remove_shape_order_entry(doc, ShapeKind::Extrusion, index);
    proof {
        lemma_remove_nth_subset(d0.shape_order@, ShapeKind::Extrusion, index as nat);
    }
    let mut b: usize = 0;
    while b < doc.bodies.len()
        invariant
            b <= doc.bodies@.len(),
            index < d0.extrusions@.len(),
            doc.bodies@.len() == d0.bodies@.len(),
            doc.extrusions@ == d0.extrusions@.update(
                index as int,
                Extrusion { deleted: true, ..d0.extrusions@[index as int] },
            ),
            forall|j: int|
                0 <= j < b ==> body_after_extrusion_removed(
                    #[trigger] d0.bodies@[j],
                    doc.bodies@[j],
                    index,
                ),
            forall|j: int| b <= j < doc.bodies@.len() ==> #[trigger] doc.bodies@[j] == d0.bodies@[j],
            doc.shape_order@.to_multiset().subset_of(d0.shape_order@.to_multiset()),
            doc.parameters == d0.parameters,
            doc.sketches == d0.sketches,
            doc.rects == d0.rects,
            doc.lines == d0.lines,
            doc.circles == d0.circles,
            doc.constraints == d0.constraints,
            doc.construction_planes == d0.construction_planes,
            doc.default_length_unit == d0.default_length_unit,
            doc.default_angle_unit == d0.default_angle_unit,
        decreases d0.bodies@.len() - b,
    {
        if !doc.bodies[b].deleted && body_owns_extrusion(&doc.bodies[b], index) {
            if doc.bodies[b].extrusions.len() == 1 {
                let ghost before = *doc;
                proof {
                    let s = doc.bodies@[b as int].extrusions@;
                    assert(s.contains(index));
                    assert(s =~= seq![index]);
                }
                tombstone_body(doc, b);
                proof {
                    lemma_remove_nth_subset(before.shape_order@, ShapeKind::Body, b as nat);
                    assert(body_after_extrusion_removed(d0.bodies@[b as int], doc.bodies@[b as int], index));
                }
            } else {
                let kept = without_extrusion(&doc.bodies[b].extrusions, index);
                proof {
                    let s = doc.bodies@[b as int].extrusions@;
                    if s =~= seq![index] {
                        assert(s.len() == 1);
                    }
                }
                doc.bodies[b].extrusions = kept;
                assert(doc.bodies@[b as int].extrusions@ == drop_extrusion(d0.bodies@[b as int].extrusions@, index));
                assert(doc.bodies@[b as int].name == d0.bodies@[b as int].name);
                assert(!doc.bodies@[b as int].deleted);
                assert(!d0.bodies@[b as int].deleted);
                assert(d0.bodies@[b as int].extrusions@.contains(index));
                assert(d0.bodies@[b as int].extrusions@ != seq![index]);
                assert(body_after_extrusion_removed(d0.bodies@[b as int], doc.bodies@[b as int], index));
            }
        }
        b = b + 1;
    }
    true
}

} // verus!

verus! {

/// Postcondition of tombstoning body `index`.
pub open spec fn body_post(d: Document, e: Document, index: usize, changed: bool) -> bool {
    &&& changed == spec_body_alive(d, index)
    &&& changed ==> e.bodies@ == d.bodies@.update(
        index as int,
        Body { deleted: true, ..d.bodies@[index as int] },
    )
    &&& changed ==> e.shape_order@ == spec_remove_nth_of_kind(
        d.shape_order@,
        ShapeKind::Body,
        index as nat,
    )
    &&& !changed ==> e == d
    &&& e.parameters == d.parameters
    &&& e.sketches == d.sketches
    &&& e.rects == d.rects
    &&& e.lines == d.lines
    &&& e.circles == d.circles
    &&& e.constraints == d.constraints
    &&& e.construction_planes == d.construction_planes
    &&& e.extrusions == d.extrusions
    &&& e.default_length_unit == d.default_length_unit
    &&& e.default_angle_unit == d.default_angle_unit
}

/// What tombstoning `element` does: extrusions and bodies have their own rules, anything
/// else cascades from its delete target.
pub open spec fn element_post(d: Document, e: Document, element: SceneElement, changed: bool) -> bool {
    match element {
        SceneElement::Extrusion(i) => extrusion_post(d, e, i, changed),
        SceneElement::Body(i) => body_post(d, e, i, changed),
        _ => cascade_post(d, e, spec_delete_target(element), changed),
    }
}

/// Tombstone one element and any owned children. Returns true if anything changed.
pub fn tombstone_element(doc: &mut Document, element: SceneElement) -> (changed: bool)
    ensures
        element_post(*old(doc), *final(doc), element, changed),
{
    match element {
        SceneElement::ConstructionPlane(index) => tombstone_construction_plane(doc, index),
        SceneElement::Sketch(sketch) => tombstone_sketch(doc, sketch),
        SceneElement::Rect(index) => tombstone_rect(doc, index),
        SceneElement::Circle(index) => tombstone_circle(doc, index),
        SceneElement::Line(index) => tombstone_line(doc, index),
        SceneElement::Constraint(index) => tombstone_constraint(doc, index),
        SceneElement::RectEdge(index, _) => tombstone_rect(doc, index),
        SceneElement::Point(point) => tombstone_node(doc, point_owner_element(&point)),
        SceneElement::Extrusion(index) => tombstone_extrusion(doc, index),
        SceneElement::Body(index) => tombstone_body(doc, index),
    }
}

/// Elements whose tombstone is the extrusion/body rule rather than a cascade.
pub open spec fn is_solid_element(e: SceneElement) -> bool {
    e is Extrusion || e is Body
}

/// Target `i` is live before the batch and not reached by any earlier target.
pub open spec fn fresh_target(doc: Document, ts: Seq<SceneElement>, i: int) -> bool {
    &&& node_alive(doc, ts[i])
    &&& forall|j: int| 0 <= j < i ==> !reaches(doc, #[trigger] ts[j], ts[i])
}

/// Number of targets in `ts` that a batch tombstone actually changes.
pub open spec fn count_fresh(doc: Document, ts: Seq<SceneElement>) -> nat
    decreases ts.len(),
{
    if ts.len() == 0 {
        0
    } else {
        count_fresh(doc, ts.drop_last()) + if fresh_target(doc, ts, ts.len() - 1) {
            1nat
        } else {
            0nat
        }
    }
}

proof fn lemma_fresh_prefix(doc: Document, ts: Seq<SceneElement>, i: int)
    requires
        0 <= i < ts.len(),
    ensures
        fresh_target(doc, ts.take(i + 1), i) == fresh_target(doc, ts, i),
{
    assert forall|j: int| 0 <= j < i implies ts.take(i + 1)[j] == ts[j] by {}
    assert(ts.take(i + 1)[i] == ts[i]);
}

/// Tombstone every target in `elements`; returns how many tombstones changed something.
pub fn tombstone_elements(doc: &mut Document, elements: &[SceneElement]) -> (count: usize)
    ensures
        count <= elements@.len(),
        grows(*old(doc), *final(doc)),
        forall|n: SceneElement|
            #[trigger] node_deleted(*final(doc), n) == (node_deleted(*old(doc), n) || exists|i: int|
                0 <= i < elements@.len() && reaches(
                    *old(doc),
                    spec_delete_target(#[trigger] elements@[i]),
                    n,
                )),
        (forall|i: int| 0 <= i < elements@.len() ==> !is_solid_element(#[trigger] elements@[i]))
            ==> count == count_fresh(
            *old(doc),
            elements@.map_values(|e: SceneElement| spec_delete_target(e)),
        ),
{
    let ghost d0 = *doc;
    let ghost ts = elements@.map_values(|e: SceneElement| spec_delete_target(e));
    proof {
        lemma_grows_refl(d0);
    }
    let mut count: usize = 0;
    let mut i: usize = 0;
    while i < elements.len()
        invariant
            i <= elements@.len(),
            count <= i,
            ts == elements@.map_values(|e: SceneElement| spec_delete_target(e)),
            grows(d0, *doc),
            closed_growth(d0, *doc),
            forall|n: SceneElement|
                #[trigger] node_deleted(*doc, n) == (node_deleted(d0, n) || exists|j: int|
                    0 <= j < i && reaches(d0, spec_delete_target(#[trigger] elements@[j]), n)),
            (forall|j: int| 0 <= j < i ==> !is_solid_element(#[trigger] elements@[j])) ==> count
                == count_fresh(d0, ts.take(i as int)),
        decreases elements@.len() - i,
    {
        let ghost cur = *doc;
        let element = elements[i];
        let ghost t = spec_delete_target(element);
        let changed = tombstone_element(doc, element);
        proof {
            let next = *doc;
            assert(ts.take(i + 1).drop_last() =~= ts.take(i as int));
            assert(ts[i as int] == t);
            lemma_fresh_prefix(d0, ts, i as int);
            lemma_grows_nodes(d0, cur);
            if is_solid_element(element) {
                assert(grows(cur, next));
                lemma_grows_refl(cur);
                lemma_grows_nodes(cur, next);
                assert forall|n: SceneElement| #[trigger] node_deleted(next, n) == (node_deleted(d0, n)
                    || exists|j: int|
                    0 <= j < i + 1 && reaches(d0, spec_delete_target(#[trigger] elements@[j]), n)) by {
                    assert(node_deleted(next, n) == node_deleted(cur, n));
                    if reaches(d0, t, n) {
                        lemma_reach_start_alive(d0, t, n);
                    }
                }
                lemma_grows_trans(d0, cur, next);
                assert forall|x: SceneElement, y: SceneElement|
                    #![trigger node_deleted(next, x), owns(d0, x, y)]
                    node_alive(d0, x) && node_deleted(next, x) && owns(d0, x, y) && node_alive(d0, y)
                        implies node_deleted(next, y) by {
                    assert(node_deleted(cur, x));
                    assert(node_deleted(cur, y));
                }
            } else {
                lemma_step(d0, cur, next, t);
                assert forall|n: SceneElement| #[trigger] node_deleted(next, n) == (node_deleted(d0, n)
                    || exists|j: int|
                    0 <= j < i + 1 && reaches(d0, spec_delete_target(#[trigger] elements@[j]), n)) by {
                    if reaches(cur, t, n) {
                        lemma_reach_mono(d0, cur, t, n);
                        assert(reaches(d0, spec_delete_target(elements@[i as int]), n));
                    }
                    if reaches(d0, t, n) {
                        lemma_split(d0, cur, t, n);
                    }
                }
                if forall|j: int| 0 <= j < i + 1 ==> !is_solid_element(#[trigger] elements@[j]) {
                    assert(changed == node_alive(cur, t));
                    if node_alive(d0, t) && !node_alive(cur, t) {
                        assert(node_deleted(cur, t));
                        let j = choose|j: int|
                            0 <= j < i && reaches(d0, spec_delete_target(#[trigger] elements@[j]), t);
                        assert(ts[j] == spec_delete_target(elements@[j]));
                    }
                    if node_alive(cur, t) {
                        assert(!node_deleted(cur, t));
                        assert forall|j: int| 0 <= j < i implies !reaches(d0, #[trigger] ts[j], ts[i as int]) by {
                            assert(ts[j] == spec_delete_target(elements@[j]));
                            if reaches(d0, ts[j], t) {
                                assert(reaches(d0, spec_delete_target(elements@[j]), t));
                                assert(node_deleted(cur, t));
                            }
                        }
                    }
                }
            }
        }
        if changed {
            count = count + 1;
        }
        i = i + 1;
    }
    proof {
        assert(ts.take(i as int) =~= ts);
    }
    count
}


/// An element is alive exactly when its delete target is (for everything but extrusions
/// and bodies).
proof fn lemma_alive_is_target_alive(d: Document, element: SceneElement)
    requires
        !is_solid_element(element),
    ensures
        spec_element_alive(d, element) == node_alive(d, spec_delete_target(element)),
{
}

/// Tombstoning the same element again changes nothing: the second call reports no change
/// and leaves the document as the first call left it.
pub proof fn law_tombstone_idempotent(
    d: Document,
    e: Document,
    f: Document,
    element: SceneElement,
    first: bool,
    second: bool,
)
    requires
        element_post(d, e, element, first),
        element_post(e, f, element, second),
    ensures
        !second,
        f == e,
{
    match element {
        SceneElement::Extrusion(i) => {},
        SceneElement::Body(i) => {},
        _ => {
            let t = spec_delete_target(element);
            if first {
                lemma_reach_self(d, t);
                assert(node_deleted(e, t));
            }
        },
    }
}

/// Once tombstoned, an element is no longer alive (a rectangle edge with its rectangle, a
/// point with the entity it belongs to).
pub proof fn law_tombstoned_element_not_alive(d: Document, e: Document, element: SceneElement, changed: bool)
    requires
        element_post(d, e, element, changed),
    ensures
        !spec_element_alive(e, element),
{
    match element {
        SceneElement::Extrusion(i) => {},
        SceneElement::Body(i) => {},
        _ => {
            let t = spec_delete_target(element);
            lemma_alive_is_target_alive(d, element);
            lemma_alive_is_target_alive(e, element);
            if changed {
                lemma_reach_self(d, t);
                assert(node_deleted(e, t));
            }
        },
    }
}

/// Tombstoning a live sketch tombstones every rectangle, line, circle and constraint drawn in
/// it.
pub proof fn law_sketch_tombstone_takes_its_geometry(d: Document, e: Document, s: SketchId, changed: bool)
    requires
        element_post(d, e, SceneElement::Sketch(s), changed),
        changed,
    ensures
        forall|i: usize| i < d.rects@.len() && d.rects@[i as int].sketch == s ==> #[trigger] e.rects@[i as int].deleted,
        forall|i: usize| i < d.lines@.len() && d.lines@[i as int].sketch == s ==> #[trigger] e.lines@[i as int].deleted,
        forall|i: usize|
            i < d.circles@.len() && d.circles@[i as int].sketch == s ==> #[trigger] e.circles@[i as int].deleted,
        forall|i: usize|
            i < d.constraints@.len() && d.constraints@[i as int].sketch == s ==> #[trigger] e.constraints@[i as int].deleted,
{
    let root = SceneElement::Sketch(s);
    assert(node_alive(d, root));
    assert forall|n: SceneElement| node_alive(d, n) && owns(d, root, n) implies #[trigger] node_deleted(e, n) by {
        let p = seq![root, n];
        assert(is_live_path(d, p) && p[0] == root && p.last() == n);
    }
    lemma_grows_nodes(d, e);
    assert forall|i: usize| i < d.rects@.len() && d.rects@[i as int].sketch == s implies #[trigger] e.rects@[i as int].deleted by {
        assert(node_deleted(e, SceneElement::Rect(i)));
    }
    assert forall|i: usize| i < d.lines@.len() && d.lines@[i as int].sketch == s implies #[trigger] e.lines@[i as int].deleted by {
        assert(node_deleted(e, SceneElement::Line(i)));
    }
    assert forall|i: usize| i < d.circles@.len() && d.circles@[i as int].sketch == s implies #[trigger] e.circles@[i as int].deleted by {
        assert(node_deleted(e, SceneElement::Circle(i)));
    }
    assert forall|i: usize|
        i < d.constraints@.len() && d.constraints@[i as int].sketch == s implies #[trigger] e.constraints@[i as int].deleted by {
        assert(node_deleted(e, SceneElement::Constraint(i)));
    }
}

/// Entities are tombstoned, never removed: every list keeps its length, so indices held by
/// constraints and selections stay valid, and what constraints refer to is unchanged.
pub proof fn law_tombstone_keeps_indices(d: Document, e: Document, element: SceneElement, changed: bool)
    requires
        element_post(d, e, element, changed),
    ensures
        e.parameters@.len() == d.parameters@.len(),
        e.sketches@.len() == d.sketches@.len(),
        e.rects@.len() == d.rects@.len(),
        e.lines@.len() == d.lines@.len(),
        e.circles@.len() == d.circles@.len(),
        e.constraints@.len() == d.constraints@.len(),
        e.construction_planes@.len() == d.construction_planes@.len(),
        e.extrusions@.len() == d.extrusions@.len(),
        e.bodies@.len() == d.bodies@.len(),
        forall|i: int| 0 <= i < d.constraints@.len() ==> #[trigger] e.constraints@[i].kind == d.constraints@[i].kind,
{
    match element {
        SceneElement::Extrusion(i) => {},
        SceneElement::Body(i) => {},
        _ => {
            assert(grows(d, e));
            assert forall|i: int| 0 <= i < d.constraints@.len() implies #[trigger] e.constraints@[i].kind
                == d.constraints@[i].kind by {
                assert(d.constraints@[i].sketch == e.constraints@[i].sketch);
            }
        },
    }
}

} // verus!
