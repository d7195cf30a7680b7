use bearcad::constraints::{
    add_distance_constraint, set_constraint_expression, DimensionFacts,
    constraint_label, distance_target_from_selection, propagate_parameter_rename_to_constraints,
    remove_subsumed_point_on_line, validate_distance_target,
};
use bearcad::model::{
    Circle, Constraint, ConstraintEntity, ConstraintKind, ConstraintLine, ConstraintPoint,
    DistanceTarget, Document, FaceId, Line, LineEnd, Rect, RectEdge, ShapeKind, SketchId,
};
use bearcad::selection::{click_scene_selection, SceneElement, SceneSelection};

fn sketch_doc() -> (Document, SketchId) {
    let mut doc = Document::default();
    let sketch = doc.add_sketch(FaceId::ConstructionPlane(0));
    (doc, sketch)
}

fn line_in(sketch: SketchId) -> Line {
    Line {
        sketch,
        construction: false,
        name: None,
        deleted: false,
        length_locked: false,
        length_expr: None,
    }
}

fn push_coincident(doc: &mut Document, sketch: SketchId, kind: ConstraintKind) -> usize {
    let id = doc.constraints.len();
    doc.constraints.push(Constraint {
        sketch,
        kind,
        expression: String::new(),
        name: None,
        deleted: false,
    });
    doc.shape_order.push(ShapeKind::Constraint);
    id
}

#[test]
fn endpoint_coincidence_subsumes_point_on_line() {
    let (mut doc, sketch) = sketch_doc();
    doc.lines.push(line_in(sketch));
    doc.lines.push(line_in(sketch));
    let free = ConstraintPoint::LineEndpoint {
        line: 1,
        end: LineEnd::Start,
    };
    let on_line = push_coincident(
        &mut doc,
        sketch,
        ConstraintKind::Coincident {
            a: ConstraintEntity::Point(free),
            b: ConstraintEntity::Line(ConstraintLine::Line(0)),
        },
    );
    let specific = push_coincident(
        &mut doc,
        sketch,
        ConstraintKind::Coincident {
            a: ConstraintEntity::Point(free),
            b: ConstraintEntity::Point(ConstraintPoint::LineEndpoint {
                line: 0,
                end: LineEnd::End,
            }),
        },
    );
    remove_subsumed_point_on_line(&mut doc, sketch, specific);
    assert!(doc.constraints[on_line].deleted, "generic point-on-line should be removed");
    assert!(!doc.constraints[specific].deleted, "specific coincidence is kept");
}

#[test]
fn midpoint_subsumes_point_on_line_but_not_other_lines() {
    let (mut doc, sketch) = sketch_doc();
    doc.lines.push(line_in(sketch));
    doc.lines.push(line_in(sketch));
    let pt = ConstraintPoint::CircleCenter(0);
    doc.circles.push(Circle {
        sketch,
        construction: false,
        name: None,
        deleted: false,
        diameter_locked: false,
        diameter_expr: None,
    });
    let on_line0 = push_coincident(
        &mut doc,
        sketch,
        ConstraintKind::Coincident {
            a: ConstraintEntity::Point(pt),
            b: ConstraintEntity::Line(ConstraintLine::Line(0)),
        },
    );
    let on_line1 = push_coincident(
        &mut doc,
        sketch,
        ConstraintKind::Coincident {
            a: ConstraintEntity::Point(pt),
            b: ConstraintEntity::Line(ConstraintLine::Line(1)),
        },
    );
    let mid = push_coincident(
        &mut doc,
        sketch,
        ConstraintKind::Midpoint {
            point: pt,
            line: ConstraintLine::Line(0),
        },
    );
    remove_subsumed_point_on_line(&mut doc, sketch, mid);
    assert!(doc.constraints[on_line0].deleted, "midpoint subsumes point-on-line-0");
    assert!(!doc.constraints[on_line1].deleted, "point-on-line-1 is unrelated");
}

#[test]
fn distance_target_from_selection_maps_line_and_rect_edge() {
    let (mut doc, sketch) = sketch_doc();
    doc.lines.push(line_in(sketch));
    doc.rects.push(Rect {
        sketch,
        name: None,
        deleted: false,
        width_locked: false,
        width_expr: None,
        height_locked: false,
        height_expr: None,
        bottom_construction: false,
        right_construction: false,
        top_construction: false,
        left_construction: false,
    });

    let mut sel = SceneSelection::default();
    click_scene_selection(&mut sel, SceneElement::Line(0), false);
    assert_eq!(
        distance_target_from_selection(&doc, sketch, &sel),
        Some(DistanceTarget::LineLength(0))
    );

    click_scene_selection(&mut sel, SceneElement::RectEdge(0, RectEdge::Bottom), false);
    assert_eq!(
        distance_target_from_selection(&doc, sketch, &sel),
        Some(DistanceTarget::RectWidth(0))
    );

    click_scene_selection(&mut sel, SceneElement::RectEdge(0, RectEdge::Left), false);
    assert_eq!(
        distance_target_from_selection(&doc, sketch, &sel),
        Some(DistanceTarget::RectHeight(0))
    );

    click_scene_selection(&mut sel, SceneElement::Rect(0), true);
    assert_eq!(distance_target_from_selection(&doc, sketch, &sel), None);
}

#[test]
fn validate_distance_target_reports_each_error() {
    let (mut doc, sketch) = sketch_doc();
    doc.lines.push(line_in(sketch));
    doc.lines.push(line_in(sketch));
    let other = doc.add_sketch(FaceId::ConstructionPlane(1));
    doc.lines.push(line_in(other));
    assert_eq!(validate_distance_target(&doc, sketch, DistanceTarget::LineLength(0), false), Ok(()));
    assert_eq!(
        validate_distance_target(&doc, sketch, DistanceTarget::LineLength(9), false),
        Err("Line 9 not found".to_string())
    );
    assert_eq!(
        validate_distance_target(&doc, sketch, DistanceTarget::LineLength(2), false),
        Err("Line 2 is not in sketch 0".to_string())
    );
    assert_eq!(
        validate_distance_target(&doc, sketch, DistanceTarget::RectWidth(0), false),
        Err("Rectangle 0 not found".to_string())
    );
    assert_eq!(
        validate_distance_target(&doc, sketch, DistanceTarget::CircleDiameter(3), false),
        Err("Circle 3 not found".to_string())
    );
    let spacing = |a: usize, b: usize| DistanceTarget::LineLineDistance {
        line_a: ConstraintLine::Line(a),
        line_b: ConstraintLine::Line(b),
        side: 1,
    };
    assert_eq!(
        validate_distance_target(&doc, sketch, spacing(0, 0), true),
        Err("Line spacing requires two different lines".to_string())
    );
    assert_eq!(
        validate_distance_target(&doc, sketch, spacing(0, 1), false),
        Err("Line spacing requires parallel lines".to_string())
    );
    assert_eq!(validate_distance_target(&doc, sketch, spacing(0, 1), true), Ok(()));
    let p = ConstraintPoint::LineEndpoint { line: 0, end: LineEnd::Start };
    assert_eq!(
        validate_distance_target(
            &doc,
            sketch,
            DistanceTarget::PointPointDistance { anchor: p, mover: p },
            false
        ),
        Err("Point distance requires two different points".to_string())
    );
}

#[test]
fn constraint_labels_name_kind_and_value() {
    let (mut doc, sketch) = sketch_doc();
    doc.lines.push(line_in(sketch));
    push_coincident(
        &mut doc,
        sketch,
        ConstraintKind::Distance { target: DistanceTarget::LineLength(0) },
    );
    push_coincident(
        &mut doc,
        sketch,
        ConstraintKind::Horizontal { line: ConstraintLine::Line(0) },
    );
    push_coincident(
        &mut doc,
        sketch,
        ConstraintKind::Distance { target: DistanceTarget::CircleDiameter(4) },
    );
    assert_eq!(constraint_label(&doc, 0, "10.0 mm"), "Constraint 0 (Line 0 length, 10.0 mm)");
    assert_eq!(constraint_label(&doc, 1, "ignored"), "Constraint 1 (Horizontal)");
    assert_eq!(constraint_label(&doc, 2, "?"), "Constraint 2 (Circle 4 diameter, ?)");
    assert_eq!(constraint_label(&doc, 7, "?"), "Constraint 7");
}

#[test]
fn parameter_rename_rewrites_constraint_expressions() {
    let (mut doc, sketch) = sketch_doc();
    let id = push_coincident(
        &mut doc,
        sketch,
        ConstraintKind::Distance { target: DistanceTarget::LineLength(0) },
    );
    doc.constraints[id].expression = "width + 2*width_2 - 3width".to_string();
    propagate_parameter_rename_to_constraints(&mut doc, "width", "w");
    assert_eq!(doc.constraints[id].expression, "w + 2*width_2 - 3width");
    propagate_parameter_rename_to_constraints(&mut doc, "w", "w");
    assert_eq!(doc.constraints[id].expression, "w + 2*width_2 - 3width");
}

fn distance_facts(target: DistanceTarget) -> DimensionFacts {
    DimensionFacts {
        finalized: Ok(target),
        lines_parallel: false,
        rotation_sign: Ok(1),
        value_ok: true,
    }
}

fn rect_in(sketch: SketchId) -> Rect {
    Rect {
        sketch,
        name: None,
        deleted: false,
        width_locked: false,
        width_expr: None,
        height_locked: false,
        height_expr: None,
        bottom_construction: false,
        right_construction: false,
        top_construction: false,
        left_construction: false,
    }
}

#[test]
fn add_distance_constraint_for_line() {
    let (mut doc, sketch) = sketch_doc();
    doc.lines.push(line_in(sketch));
    doc.shape_order.push(ShapeKind::Line);
    let id = add_distance_constraint(&mut doc, sketch, "5mm", &distance_facts(DistanceTarget::LineLength(0)))
        .unwrap();
    assert_eq!(id, 0);
    assert!(doc.lines[0].length_locked);
    assert_eq!(doc.lines[0].length_expr.as_deref(), Some("5mm"));
    assert_eq!(doc.constraints.len(), 1);
}

#[test]
fn add_distance_constraint_for_rectangle_width() {
    let (mut doc, sketch) = sketch_doc();
    doc.rects.push(rect_in(sketch));
    doc.shape_order.push(ShapeKind::Rect);
    add_distance_constraint(&mut doc, sketch, "20mm", &distance_facts(DistanceTarget::RectWidth(0)))
        .unwrap();
    assert!(doc.rects[0].width_locked);
    assert_eq!(doc.rects[0].width_expr.as_deref(), Some("20mm"));
    assert!(!doc.rects[0].height_locked);
}

#[test]
fn add_distance_constraint_for_circle_diameter() {
    let (mut doc, sketch) = sketch_doc();
    doc.circles.push(Circle {
        sketch,
        construction: false,
        name: None,
        deleted: false,
        diameter_locked: false,
        diameter_expr: None,
    });
    doc.shape_order.push(ShapeKind::Circle);
    add_distance_constraint(&mut doc, sketch, "30mm", &distance_facts(DistanceTarget::CircleDiameter(0)))
        .unwrap();
    assert!(doc.circles[0].diameter_locked);
    assert_eq!(doc.circles[0].diameter_expr.as_deref(), Some("30mm"));
}

#[test]
fn set_constraint_expression_updates_geometry() {
    let (mut doc, sketch) = sketch_doc();
    doc.lines.push(line_in(sketch));
    doc.shape_order.push(ShapeKind::Line);
    add_distance_constraint(&mut doc, sketch, "10mm", &distance_facts(DistanceTarget::LineLength(0)))
        .unwrap();
    set_constraint_expression(&mut doc, 0, "15mm", true).unwrap();
    assert_eq!(doc.constraints[0].expression, "15mm");
    assert_eq!(doc.lines[0].length_expr.as_deref(), Some("15mm"));
}

#[test]
fn dimension_on_tombstoned_line_leaves_lock_off() {
    let (mut doc, sketch) = sketch_doc();
    let mut line = line_in(sketch);
    line.deleted = true;
    doc.lines.push(line);
    doc.shape_order.push(ShapeKind::Line);
    add_distance_constraint(&mut doc, sketch, "5mm", &distance_facts(DistanceTarget::LineLength(0)))
        .unwrap();
    assert!(!doc.lines[0].length_locked);
}
