use bearcad::document_health::{
    recompute_document_health, require_constraint_editable, require_dimension_target_editable,
    require_element_editable, require_parameter_editable, selection_frozen_summary,
    constraint_annotation_color, invalid_display, DocumentHealth, ElementHealth,
    ExpressionChecks, HealthStatus, Rgba,
};
use bearcad::document_lifecycle::tombstone_element;
use bearcad::model::{
    Constraint, ConstraintEntity, ConstraintKind, ConstraintLine, ConstraintPoint,
    DimensionTarget, DistanceTarget, Document, FaceId, Line, LineEnd, Parameter,
    ParameterSource, ShapeKind,
};
use bearcad::selection::{click_scene_selection, SceneElement, SceneSelection};

fn all_evaluate() -> ExpressionChecks {
    ExpressionChecks {
        constraints: Vec::new(),
        parameters: Vec::new(),
    }
}

fn line_in(sketch: usize) -> Line {
    Line {
        sketch,
        construction: false,
        name: None,
        deleted: false,
        length_locked: false,
        length_expr: None,
    }
}

fn parallel_lines_doc() -> (Document, usize, usize) {
    let mut doc = Document::default();
    let sketch = doc.add_sketch(FaceId::ConstructionPlane(0));
    doc.lines.push(line_in(sketch));
    doc.shape_order.push(ShapeKind::Line);
    doc.lines.push(line_in(sketch));
    doc.shape_order.push(ShapeKind::Line);
    doc.constraints.push(Constraint {
        sketch,
        kind: ConstraintKind::Parallel {
            line_a: ConstraintLine::Line(0),
            line_b: ConstraintLine::Line(1),
        },
        expression: String::new(),
        name: None,
        deleted: false,
    });
    doc.shape_order.push(ShapeKind::Constraint);
    (doc, 0, 1)
}

fn parameter(name: &str, expression: &str) -> Parameter {
    Parameter {
        name: name.to_string(),
        expression: expression.to_string(),
        deleted: false,
        source: None,
    }
}

#[test]
fn delete_line_marks_constraint_invalid_and_partner_unstable() {
    let (mut doc, line_a, line_b) = parallel_lines_doc();
    tombstone_element(&mut doc, SceneElement::Line(line_a));
    let health = recompute_document_health(&doc, &all_evaluate());
    assert_eq!(health.element_status(SceneElement::Constraint(0)), HealthStatus::Invalid);
    assert_eq!(health.element_status(SceneElement::Line(line_b)), HealthStatus::Unstable);
    assert_eq!(
        health.element_reason(SceneElement::Constraint(0)),
        Some("Referenced geometry was deleted")
    );
    assert_eq!(
        health.element_reason(SceneElement::Line(line_b)),
        Some("Lost parallel/perpendicular partner")
    );
}

#[test]
fn invalid_parameter_expression_marks_parameter_invalid() {
    let mut doc = Document::default();
    doc.parameters.push(parameter("width", "1mm / 0"));
    let checks = ExpressionChecks {
        constraints: Vec::new(),
        parameters: vec![false],
    };
    let health = recompute_document_health(&doc, &checks);
    assert_eq!(health.parameter_status(0), HealthStatus::Invalid);
    assert_eq!(
        health.parameter_reason(0),
        Some("Parameter expression cannot be evaluated")
    );
}

#[test]
fn healthy_document_has_no_frozen_elements() {
    let (doc, _, _) = parallel_lines_doc();
    let health = recompute_document_health(&doc, &all_evaluate());
    assert_eq!(health.element_status(SceneElement::Line(0)), HealthStatus::Healthy);
    assert!(!health.element_status(SceneElement::Line(0)).is_frozen());
    assert!(health.elements.is_empty());
}

#[test]
fn unrelated_geometry_in_sketch_stays_healthy_when_partner_unstable() {
    let (mut doc, line_a, line_b) = parallel_lines_doc();
    let sketch = 0;
    doc.lines.push(line_in(sketch));
    doc.shape_order.push(ShapeKind::Line);
    tombstone_element(&mut doc, SceneElement::Line(line_a));
    let health = recompute_document_health(&doc, &all_evaluate());
    assert_eq!(health.element_status(SceneElement::Line(line_b)), HealthStatus::Unstable);
    assert_eq!(health.element_status(SceneElement::Line(2)), HealthStatus::Healthy);
    assert_eq!(health.element_status(SceneElement::Sketch(sketch)), HealthStatus::Healthy);
}

#[test]
fn dependent_parameters_inherit_invalidity_in_order() {
    let mut doc = Document::default();
    let sketch = doc.add_sketch(FaceId::ConstructionPlane(0));
    doc.lines.push(line_in(sketch));
    doc.lines[0].deleted = true;
    let mut measured = parameter("len", "");
    measured.source = Some(ParameterSource::LineLength(0));
    doc.parameters.push(measured);
    doc.parameters.push(parameter("twice", "2 * len"));
    doc.parameters.push(parameter("early", "late + 1mm"));
    doc.parameters.push(parameter("late", "twice"));
    let health = recompute_document_health(&doc, &all_evaluate());
    assert_eq!(health.parameter_reason(0), Some("Source line was deleted"));
    assert_eq!(health.parameter_reason(1), Some("Depends on invalid parameter 'len'"));
    // Only parameters before it count: `late` is not yet known invalid when `early` is checked.
    assert_eq!(health.parameter_status(2), HealthStatus::Healthy);
    assert_eq!(health.parameter_reason(3), Some("Depends on invalid parameter 'twice'"));
}

#[test]
fn unevaluable_dimension_is_invalid_but_leaves_geometry_alone() {
    let (mut doc, _, _) = parallel_lines_doc();
    doc.constraints.push(Constraint {
        sketch: 0,
        kind: ConstraintKind::Distance {
            target: DistanceTarget::LineLength(0),
        },
        expression: "oops".to_string(),
        name: None,
        deleted: false,
    });
    let checks = ExpressionChecks {
        constraints: vec![true, false],
        parameters: Vec::new(),
    };
    let health = recompute_document_health(&doc, &checks);
    assert_eq!(health.element_status(SceneElement::Constraint(0)), HealthStatus::Healthy);
    assert_eq!(
        health.element_reason(SceneElement::Constraint(1)),
        Some("Constraint expression cannot be evaluated")
    );
    assert_eq!(health.element_status(SceneElement::Line(0)), HealthStatus::Healthy);
}

#[test]
fn coincidence_with_deleted_point_marks_partner_point_owner() {
    let (mut doc, _, _) = parallel_lines_doc();
    doc.constraints.push(Constraint {
        sketch: 0,
        kind: ConstraintKind::Coincident {
            a: ConstraintEntity::Point(ConstraintPoint::LineEndpoint {
                line: 0,
                end: LineEnd::End,
            }),
            b: ConstraintEntity::Point(ConstraintPoint::CircleCenter(5)),
        },
        expression: String::new(),
        name: None,
        deleted: false,
    });
    let health = recompute_document_health(&doc, &all_evaluate());
    assert_eq!(health.element_status(SceneElement::Constraint(1)), HealthStatus::Invalid);
    assert_eq!(
        health.element_reason(SceneElement::Line(0)),
        Some("Lost coincident partner")
    );
}

#[test]
fn frozen_elements_refuse_edits_with_reason() {
    let (mut doc, line_a, line_b) = parallel_lines_doc();
    tombstone_element(&mut doc, SceneElement::Line(line_a));
    let health = recompute_document_health(&doc, &all_evaluate());
    assert_eq!(
        require_element_editable(&health, SceneElement::Line(line_b)),
        Err("unstable: Lost parallel/perpendicular partner".to_string())
    );
    assert_eq!(require_element_editable(&health, SceneElement::Sketch(0)), Ok(()));
    assert_eq!(
        require_constraint_editable(&health, &doc, 0),
        Err("invalid: Referenced geometry was deleted".to_string())
    );
    assert_eq!(
        require_dimension_target_editable(
            &health,
            &doc,
            DimensionTarget::Distance(DistanceTarget::LineLength(line_b))
        ),
        Err("unstable: Lost parallel/perpendicular partner".to_string())
    );
    assert_eq!(require_parameter_editable(&health, 0), Ok(()));
}

#[test]
fn frozen_message_without_reason_names_the_status() {
    let health = DocumentHealth {
        elements: vec![ElementHealth {
            element: SceneElement::Circle(3),
            status: HealthStatus::Unstable,
            reason: String::new(),
        }],
        parameters: Vec::new(),
    };
    assert_eq!(
        require_element_editable(&health, SceneElement::Circle(3)),
        Err("unstable: ".to_string())
    );
    let empty = DocumentHealth::default();
    assert_eq!(empty.element_reason(SceneElement::Circle(3)), None);
}

#[test]
fn selection_summary_prefers_invalid() {
    let (mut doc, line_a, line_b) = parallel_lines_doc();
    tombstone_element(&mut doc, SceneElement::Line(line_a));
    let health = recompute_document_health(&doc, &all_evaluate());
    let mut sel = SceneSelection::default();
    click_scene_selection(&mut sel, SceneElement::Sketch(0), false);
    assert_eq!(selection_frozen_summary(&health, &sel), None);
    click_scene_selection(&mut sel, SceneElement::Line(line_b), true);
    assert_eq!(
        selection_frozen_summary(&health, &sel),
        Some((
            HealthStatus::Unstable,
            "Lost parallel/perpendicular partner".to_string()
        ))
    );
    click_scene_selection(&mut sel, SceneElement::Constraint(0), true);
    assert_eq!(
        selection_frozen_summary(&health, &sel),
        Some((
            HealthStatus::Invalid,
            "Referenced geometry was deleted".to_string()
        ))
    );
}

#[test]
fn constraint_annotation_color_reflects_health() {
    let (mut doc, line_a, _) = parallel_lines_doc();
    tombstone_element(&mut doc, SceneElement::Line(line_a));
    let health = recompute_document_health(&doc, &all_evaluate());
    let base = Rgba {
        r: 180,
        g: 188,
        b: 204,
        a: 255,
    };
    assert_eq!(constraint_annotation_color(&health, 0, base), invalid_display());
    let healthy = recompute_document_health(&parallel_lines_doc().0, &all_evaluate());
    assert_eq!(constraint_annotation_color(&healthy, 0, base), base);
}
