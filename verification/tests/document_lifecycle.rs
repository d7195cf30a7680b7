use bearcad::document_lifecycle::{
    delete_targets_from_selection, element_alive, line_alive, tombstone_element,
    tombstone_elements, tombstone_line, tombstone_rect, tombstone_sketch,
};
use bearcad::model::{
    Constraint, ConstraintKind, ConstraintLine, ConstraintPoint, Document, FaceId, Line,
    LineEnd, Rect, RectEdge, ShapeKind, SketchId,
};
use bearcad::selection::{click_scene_selection, SceneElement, SceneSelection};

fn line_in(sketch: SketchId) -> Line {
    Line {
        sketch,
        construction: false,
        name: None,
        deleted: false,
        length_locked: false,
        length_expr: None,
    }
}

fn rect_in(sketch: SketchId) -> Rect {
    Rect {
        sketch,
        name: None,
        deleted: false,
        width_locked: false,
        width_expr: None,
        height_locked: false,
        height_expr: None,
        bottom_construction: false,
        right_construction: false,
        top_construction: false,
        left_construction: false,
    }
}

fn sketch_with_two_lines() -> (Document, SketchId, usize, usize) {
    let mut doc = Document::default();
    let sketch = doc.add_sketch(FaceId::ConstructionPlane(0));
    doc.lines.push(line_in(sketch));
    doc.shape_order.push(ShapeKind::Line);
    let line_a = 0;
    doc.lines.push(line_in(sketch));
    doc.shape_order.push(ShapeKind::Line);
    let line_b = 1;
    (doc, sketch, line_a, line_b)
}

#[test]
fn tombstone_line_preserves_index_for_constraint_refs() {
    let (mut doc, sketch, line_a, line_b) = sketch_with_two_lines();
    doc.constraints.push(Constraint {
        sketch,
        kind: ConstraintKind::Parallel {
            line_a: ConstraintLine::Line(line_a),
            line_b: ConstraintLine::Line(line_b),
        },
        expression: String::new(),
        name: None,
        deleted: false,
    });
    doc.shape_order.push(ShapeKind::Constraint);
    assert!(tombstone_line(&mut doc, line_a));
    assert!(doc.lines[line_a].deleted);
    assert!(!line_alive(&doc, line_a));
    assert!(line_alive(&doc, line_b));
    assert_eq!(doc.lines.len(), 2);
    let constraint = &doc.constraints[0];
    assert!(matches!(
        constraint.kind,
        ConstraintKind::Parallel {
            line_a: ConstraintLine::Line(0),
            ..
        }
    ));
}

#[test]
fn tombstone_sketch_cascades_geometry() {
    let (mut doc, sketch, line_a, _) = sketch_with_two_lines();
    doc.rects.push(rect_in(sketch));
    doc.shape_order.push(ShapeKind::Rect);
    assert!(tombstone_sketch(&mut doc, sketch));
    assert!(doc.sketches[sketch].deleted);
    assert!(doc.lines[line_a].deleted);
    assert!(doc.rects[0].deleted);
    assert!(!element_alive(&doc, SceneElement::Line(line_a)));
}

#[test]
fn delete_targets_from_selection_expands_rect_edge_and_point() {
    let mut sel = SceneSelection::default();
    click_scene_selection(&mut sel, SceneElement::RectEdge(0, RectEdge::Bottom), false);
    click_scene_selection(
        &mut sel,
        SceneElement::Point(ConstraintPoint::LineEndpoint {
            line: 1,
            end: LineEnd::Start,
        }),
        true,
    );
    let targets = delete_targets_from_selection(&sel);
    assert_eq!(targets.len(), 2);
    assert!(targets.contains(&SceneElement::Rect(0)));
    assert!(targets.contains(&SceneElement::Line(1)));
}

#[test]
fn tombstone_elements_counts_unique_targets() {
    let (mut doc, _, line_a, line_b) = sketch_with_two_lines();
    let count = tombstone_elements(
        &mut doc,
        &[SceneElement::Line(line_a), SceneElement::Line(line_b)],
    );
    assert_eq!(count, 2);
    assert!(doc.lines[line_a].deleted);
    assert!(doc.lines[line_b].deleted);
}

#[test]
fn element_alive_false_for_tombstoned_rect() {
    let mut doc = Document::default();
    let sketch = doc.add_sketch(FaceId::ConstructionPlane(0));
    doc.rects.push(rect_in(sketch));
    doc.shape_order.push(ShapeKind::Rect);
    tombstone_rect(&mut doc, 0);
    assert!(!element_alive(&doc, SceneElement::Rect(0)));
    assert!(!element_alive(&doc, SceneElement::RectEdge(0, RectEdge::Left)));
}

#[test]
fn second_tombstone_changes_nothing() {
    let (mut doc, _, line_a, _) = sketch_with_two_lines();
    assert!(tombstone_element(&mut doc, SceneElement::Line(line_a)));
    let order_len = doc.shape_order.len();
    assert!(!tombstone_element(&mut doc, SceneElement::Line(line_a)));
    assert_eq!(doc.shape_order.len(), order_len);
    assert!(doc.lines[line_a].deleted);
}

#[test]
fn tombstoning_rect_takes_sketches_on_its_face() {
    let mut doc = Document::default();
    let base = doc.add_sketch(FaceId::ConstructionPlane(0));
    doc.rects.push(rect_in(base));
    doc.shape_order.push(ShapeKind::Rect);
    let on_face = doc.add_sketch(FaceId::Rect(0));
    doc.lines.push(line_in(on_face));
    doc.shape_order.push(ShapeKind::Line);
    assert!(tombstone_rect(&mut doc, 0));
    assert!(doc.sketches[on_face].deleted);
    assert!(doc.lines[0].deleted);
    assert!(!doc.sketches[base].deleted);
    assert_eq!(doc.shape_order, vec![ShapeKind::Sketch]);
}

#[test]
fn point_selection_deletes_its_owner_once() {
    let (mut doc, _, _, line_b) = sketch_with_two_lines();
    let count = tombstone_elements(
        &mut doc,
        &[
            SceneElement::Point(ConstraintPoint::LineEndpoint {
                line: line_b,
                end: LineEnd::End,
            }),
            SceneElement::Line(line_b),
        ],
    );
    assert_eq!(count, 1);
    assert!(doc.lines[line_b].deleted);
    assert!(!doc.lines[0].deleted);
}
