use bearcad::constraints::{
    add_angle_constraint, add_distance_constraint, apply_dimension_expression,
    default_dimension_expression,
    dimension_edit_from_selection, find_distance_constraint, set_constraint_expression,
    DimensionFacts,
};
use bearcad::selection::{click_scene_selection, SceneElement, SceneSelection};
use bearcad::model::{
    ConstraintKind, ConstraintLine, ConstraintPoint, DimensionTarget, DistanceTarget, Document,
    FaceId, Line, LineEnd, RectEdge, ShapeKind, SketchId,
};

fn doc_with_lines(n: usize) -> (Document, SketchId) {
    let mut doc = Document::default();
    let sketch = doc.add_sketch(FaceId::ConstructionPlane(0));
    for _ in 0..n {
        doc.lines.push(Line {
            sketch,
            construction: false,
            name: None,
            deleted: false,
            length_locked: false,
            length_expr: None,
        });
    }
    (doc, sketch)
}

fn facts(target: DistanceTarget) -> DimensionFacts {
    DimensionFacts {
        finalized: Ok(target),
        lines_parallel: false,
        rotation_sign: Ok(1),
        value_ok: true,
    }
}

#[test]
fn adding_a_length_dimension_appends_a_constraint() {
    let (mut doc, sketch) = doc_with_lines(1);
    let order_before = doc.shape_order.len();
    let id = add_distance_constraint(&mut doc, sketch, "  25 mm ", &facts(DistanceTarget::LineLength(0)))
        .unwrap();
    assert_eq!(id, 0);
    assert_eq!(doc.constraints[0].expression, "25 mm");
    assert_eq!(
        doc.constraints[0].kind,
        ConstraintKind::Distance {
            target: DistanceTarget::LineLength(0)
        }
    );
    assert_eq!(doc.shape_order.len(), order_before + 1);
    assert_eq!(doc.shape_order.last(), Some(&ShapeKind::Constraint));
    assert_eq!(find_distance_constraint(&doc, DistanceTarget::LineLength(0)), Some(0));
}

#[test]
fn adding_a_dimension_reports_each_error_in_order() {
    let (mut doc, sketch) = doc_with_lines(1);
    let target = DistanceTarget::LineLength(0);
    assert_eq!(
        add_distance_constraint(&mut doc, sketch, "   ", &facts(target)),
        Err("Constraint expression cannot be empty".to_string())
    );
    let failed = DimensionFacts {
        finalized: Err("Line has zero length".to_string()),
        ..facts(target)
    };
    assert_eq!(
        add_distance_constraint(&mut doc, sketch, "5", &failed),
        Err("Line has zero length".to_string())
    );
    assert_eq!(
        add_distance_constraint(&mut doc, sketch, "5", &facts(DistanceTarget::LineLength(4))),
        Err("Line 4 not found".to_string())
    );
    let bad_value = DimensionFacts {
        value_ok: false,
        ..facts(target)
    };
    assert_eq!(
        add_distance_constraint(&mut doc, sketch, " x+ ", &bad_value),
        Err("Invalid constraint expression 'x+'".to_string())
    );
    assert!(doc.constraints.is_empty());
    add_distance_constraint(&mut doc, sketch, "5", &facts(target)).unwrap();
    assert_eq!(
        add_distance_constraint(&mut doc, sketch, "6", &facts(target)),
        Err("Constraint already exists for Line 0 length (index 0)".to_string())
    );
    assert_eq!(doc.constraints.len(), 1);
}

#[test]
fn setting_an_expression_trims_and_checks_the_kind() {
    let (mut doc, sketch) = doc_with_lines(1);
    add_distance_constraint(&mut doc, sketch, "5", &facts(DistanceTarget::LineLength(0))).unwrap();
    assert_eq!(set_constraint_expression(&mut doc, 0, " 7mm\t", true), Ok(()));
    assert_eq!(doc.constraints[0].expression, "7mm");
    assert_eq!(
        set_constraint_expression(&mut doc, 0, "", true),
        Err("Constraint expression cannot be empty".to_string())
    );
    assert_eq!(
        set_constraint_expression(&mut doc, 3, "1", true),
        Err("Constraint 3 not found".to_string())
    );
    assert_eq!(
        set_constraint_expression(&mut doc, 0, "oops", false),
        Err("Invalid constraint expression 'oops'".to_string())
    );
    assert_eq!(doc.constraints[0].expression, "7mm");
    doc.constraints.push(bearcad::model::Constraint {
        sketch,
        kind: ConstraintKind::Horizontal {
            line: ConstraintLine::Line(0),
        },
        expression: String::new(),
        name: None,
        deleted: false,
    });
    assert_eq!(
        set_constraint_expression(&mut doc, 1, "3", true),
        Err("Constraint expression is not editable".to_string())
    );
}

#[test]
fn adding_an_angle_normalises_the_pair_and_refuses_duplicates() {
    let (mut doc, sketch) = doc_with_lines(2);
    let f = DimensionFacts {
        rotation_sign: Ok(-1),
        ..facts(DistanceTarget::LineLength(0))
    };
    let id = add_angle_constraint(
        &mut doc,
        sketch,
        ConstraintLine::Line(1),
        ConstraintLine::Line(0),
        " 30 deg",
        &f,
    )
    .unwrap();
    assert_eq!(id, 0);
    assert_eq!(
        doc.constraints[0].kind,
        ConstraintKind::Angle {
            line_a: ConstraintLine::Line(0),
            line_b: ConstraintLine::Line(1),
            rotation_sign: -1
        }
    );
    assert_eq!(doc.constraints[0].expression, "30 deg");
    assert_eq!(
        add_angle_constraint(
            &mut doc,
            sketch,
            ConstraintLine::Line(0),
            ConstraintLine::Line(1),
            "40 deg",
            &f
        ),
        Err("Angle constraint already exists (index 0)".to_string())
    );
}

#[test]
fn adding_an_angle_reports_each_error() {
    let (mut doc, sketch) = doc_with_lines(2);
    let f = facts(DistanceTarget::LineLength(0));
    let a = ConstraintLine::Line(0);
    let b = ConstraintLine::Line(1);
    assert_eq!(
        add_angle_constraint(&mut doc, sketch, a, a, "30", &f),
        Err("Angle constraint requires two different lines".to_string())
    );
    let parallel = DimensionFacts {
        lines_parallel: true,
        ..facts(DistanceTarget::LineLength(0))
    };
    assert_eq!(
        add_angle_constraint(&mut doc, sketch, a, b, "30", &parallel),
        Err("Angle constraint requires non-parallel lines".to_string())
    );
    assert_eq!(
        add_angle_constraint(
            &mut doc,
            sketch,
            a,
            ConstraintLine::RectEdge {
                rect: 2,
                edge: RectEdge::Top
            },
            "30",
            &f
        ),
        Err("Rectangle 2 not found".to_string())
    );
    let no_sign = DimensionFacts {
        rotation_sign: Err("Reference line has zero length".to_string()),
        ..facts(DistanceTarget::LineLength(0))
    };
    assert_eq!(
        add_angle_constraint(&mut doc, sketch, a, b, "30", &no_sign),
        Err("Reference line has zero length".to_string())
    );
    let bad_value = DimensionFacts {
        value_ok: false,
        ..facts(DistanceTarget::LineLength(0))
    };
    assert_eq!(
        add_angle_constraint(&mut doc, sketch, a, b, "200 deg", &bad_value),
        Err("Invalid angle expression '200 deg'".to_string())
    );
    assert!(doc.constraints.is_empty());
}

#[test]
fn applying_a_dimension_edits_the_existing_constraint() {
    let (mut doc, sketch) = doc_with_lines(1);
    let target = DistanceTarget::LineLength(0);
    apply_dimension_expression(&mut doc, sketch, DimensionTarget::Distance(target), "5", &facts(target))
        .unwrap();
    assert_eq!(doc.constraints.len(), 1);
    apply_dimension_expression(&mut doc, sketch, DimensionTarget::Distance(target), " 9 ", &facts(target))
        .unwrap();
    assert_eq!(doc.constraints.len(), 1);
    assert_eq!(doc.constraints[0].expression, "9");
    let angle = DimensionTarget::Angle {
        line_a: ConstraintLine::Line(0),
        line_b: ConstraintLine::RectEdge {
            rect: 0,
            edge: RectEdge::Left,
        },
        rotation_sign: 1,
    };
    assert_eq!(
        apply_dimension_expression(&mut doc, sketch, angle, "45", &facts(target)),
        Err("Rectangle 0 not found".to_string())
    );
}

fn pair_facts(lines_parallel: bool) -> DimensionFacts {
    DimensionFacts {
        finalized: Err("no point pair".to_string()),
        lines_parallel,
        rotation_sign: Ok(1),
        value_ok: true,
    }
}

#[test]
fn dimension_edit_from_two_parallel_lines() {
    let (mut doc, sketch) = doc_with_lines(2);
    doc.shape_order.push(ShapeKind::Line);
    doc.shape_order.push(ShapeKind::Line);
    let mut sel = SceneSelection::new();
    click_scene_selection(&mut sel, SceneElement::Line(0), false);
    click_scene_selection(&mut sel, SceneElement::Line(1), true);
    assert_eq!(
        dimension_edit_from_selection(&doc, sketch, &sel, &pair_facts(true)),
        Some(DimensionTarget::Distance(DistanceTarget::LineLineDistance {
            line_a: ConstraintLine::Line(0),
            line_b: ConstraintLine::Line(1),
            side: 1,
        }))
    );
}

#[test]
fn dimension_edit_from_two_non_parallel_lines() {
    let (mut doc, sketch) = doc_with_lines(2);
    doc.shape_order.push(ShapeKind::Line);
    doc.shape_order.push(ShapeKind::Line);
    let mut sel = SceneSelection::new();
    click_scene_selection(&mut sel, SceneElement::Line(0), false);
    click_scene_selection(&mut sel, SceneElement::Line(1), true);
    assert_eq!(
        dimension_edit_from_selection(&doc, sketch, &sel, &pair_facts(false)),
        Some(DimensionTarget::Angle {
            line_a: ConstraintLine::Line(0),
            line_b: ConstraintLine::Line(1),
            rotation_sign: 1,
        })
    );
}

#[test]
fn dimension_edit_from_points_and_single_elements() {
    let (mut doc, sketch) = doc_with_lines(2);
    let start = ConstraintPoint::LineEndpoint {
        line: 1,
        end: LineEnd::Start,
    };
    let mut sel = SceneSelection::new();
    click_scene_selection(&mut sel, SceneElement::Line(1), false);
    assert_eq!(
        dimension_edit_from_selection(&doc, sketch, &sel, &pair_facts(false)),
        Some(DimensionTarget::Distance(DistanceTarget::LineLength(1)))
    );
    click_scene_selection(&mut sel, SceneElement::Point(start), false);
    click_scene_selection(&mut sel, SceneElement::Line(0), true);
    assert_eq!(
        dimension_edit_from_selection(&doc, sketch, &sel, &pair_facts(false)),
        Some(DimensionTarget::Distance(DistanceTarget::PointLineDistance {
            point: start,
            line: ConstraintLine::Line(0),
            side: 1,
        }))
    );
    let end = ConstraintPoint::LineEndpoint {
        line: 0,
        end: LineEnd::End,
    };
    let mut two_points = SceneSelection::new();
    click_scene_selection(&mut two_points, SceneElement::Point(start), false);
    click_scene_selection(&mut two_points, SceneElement::Point(end), true);
    assert_eq!(
        dimension_edit_from_selection(&doc, sketch, &two_points, &pair_facts(false)),
        None
    );
    let finalized = DimensionFacts {
        finalized: Ok(DistanceTarget::PointPointDistance {
            anchor: end,
            mover: start,
        }),
        ..pair_facts(false)
    };
    assert_eq!(
        dimension_edit_from_selection(&doc, sketch, &two_points, &finalized),
        Some(DimensionTarget::Distance(DistanceTarget::PointPointDistance {
            anchor: end,
            mover: start,
        }))
    );
    doc.lines[0].sketch = sketch + 1;
    assert_eq!(
        dimension_edit_from_selection(&doc, sketch, &two_points, &finalized),
        None
    );
}

#[test]
fn rejects_duplicate_constraint_on_same_target() {
    let (mut doc, sketch) = doc_with_lines(1);
    let target = DistanceTarget::LineLength(0);
    add_distance_constraint(&mut doc, sketch, "10mm", &facts(target)).unwrap();
    assert!(add_distance_constraint(&mut doc, sketch, "5mm", &facts(target)).is_err());
}

#[test]
fn distance_target_from_line_pick_requires_active_sketch() {
    let (doc, sketch) = doc_with_lines(1);
    let kind = bearcad::construction::PickTargetKind::Line(0);
    assert_eq!(
        bearcad::constraints::distance_target_from_pick(&doc, sketch, &kind),
        Some(DistanceTarget::LineLength(0))
    );
    assert_eq!(
        bearcad::constraints::distance_target_from_pick(&doc, sketch + 1, &kind),
        None
    );
}

#[test]
fn default_expressions_fall_back_to_fixed_values() {
    let length = DimensionTarget::Distance(DistanceTarget::LineLength(0));
    let angle = DimensionTarget::Angle {
        line_a: ConstraintLine::Line(0),
        line_b: ConstraintLine::Line(1),
        rotation_sign: 1,
    };
    let (doc, _sketch) = doc_with_lines(1);
    let empty = Document::default();
    assert_eq!(default_dimension_expression(&doc, length, None), "10mm");
    assert_eq!(default_dimension_expression(&doc, length, Some("12.5 mm")), "12.5 mm");
    assert_eq!(default_dimension_expression(&empty, length, Some("12.5 mm")), "10mm");
    assert_eq!(default_dimension_expression(&doc, angle, None), "45 deg");
    assert_eq!(default_dimension_expression(&doc, angle, Some("30.0°")), "30.0°");
}

#[test]
fn constraint_label_starts_with_constraint() {
    let (mut doc, sketch) = doc_with_lines(1);
    add_distance_constraint(&mut doc, sketch, "10mm", &facts(DistanceTarget::LineLength(0)))
        .unwrap();
    let label = bearcad::constraints::constraint_label(&doc, 0, "10.0 mm");
    assert!(label.starts_with("Constraint 0"));
    assert!(label.contains("Line 0 length"));
    assert!(label.contains("10.0 mm"));
}

#[test]
fn circle_constraint_label_uses_diameter_prefix() {
    let mut doc = Document::default();
    let sketch = doc.add_sketch(FaceId::ConstructionPlane(0));
    doc.circles.push(bearcad::model::Circle {
        sketch,
        construction: false,
        name: None,
        deleted: false,
        diameter_locked: false,
        diameter_expr: None,
    });
    add_distance_constraint(
        &mut doc,
        sketch,
        "10mm",
        &facts(DistanceTarget::CircleDiameter(0)),
    )
    .unwrap();
    let label = bearcad::constraints::constraint_label(&doc, 0, "\u{d8}10.0 mm");
    assert!(label.contains("\u{d8}10.0 mm"));
    assert!(label.contains("Circle 0 diameter"));
}
