use bearcad::actions::{
    committed_dim_expression, constraint_is_angle, constraint_is_circle_diameter,
    dim_label_axis_for_target, dim_label_target_in_sketch, dimension_target_status_label,
    extrude_face_sketch, DimLabelAxis, ExtrudeFace, Pane, Tool,
};
use bearcad::command_palette::{best_match, PaletteCommand, PaletteCommandId};
use bearcad::construction::point_sketch;
use bearcad::context::{selection_highlight_dashed, sync_name_draft, ContextPaneContent, ContextPaneState, NameControl};
use bearcad::document_lifecycle::{constraint_kind_applicable, parameter_alive, tombstone_parameter};
use bearcad::model::{
    default_constraint_sign, Circle, Constraint, ConstraintKind, ConstraintLine, ConstraintPoint,
    DimensionTarget, DistanceTarget, Document, FaceId, Line, LineEnd, Parameter, Rect, ShapeKind,
};
use bearcad::selection::SceneElement;

fn doc_with_geometry() -> Document {
    let mut doc = Document::default();
    let s0 = doc.add_sketch(FaceId::ConstructionPlane(0));
    let s1 = doc.add_sketch(FaceId::ConstructionPlane(0));
    for sketch in [s0, s1, s0] {
        doc.rects.push(Rect { sketch, name: None, deleted: false, width_locked: false, width_expr: None, height_locked: false, height_expr: None, bottom_construction: false, right_construction: false, top_construction: false, left_construction: false });
        doc.lines.push(Line { sketch, construction: sketch == s1, name: None, deleted: false, length_locked: false, length_expr: None });
    }
    doc.circles.push(Circle { sketch: s1, construction: true, name: None, deleted: false, diameter_locked: false, diameter_expr: None });
    doc
}

fn push_constraint(doc: &mut Document, kind: ConstraintKind, expression: &str) {
    doc.constraints.push(Constraint {
        sketch: 0,
        kind,
        expression: expression.to_string(),
        name: None,
        deleted: false,
    });
}

#[test]
fn sketches_and_points_belong_where_they_were_drawn() {
    let doc = doc_with_geometry();
    assert_eq!(doc.sketches_on_face(FaceId::ConstructionPlane(0)), vec![0, 1]);
    assert!(doc.sketches_on_face(FaceId::Rect(0)).is_empty());
    assert_eq!(
        point_sketch(&doc, ConstraintPoint::LineEndpoint { line: 1, end: LineEnd::End }),
        Some(1)
    );
    assert_eq!(point_sketch(&doc, ConstraintPoint::CircleCenter(0)), Some(1));
    assert_eq!(point_sketch(&doc, ConstraintPoint::RectCorner { rect: 9, corner: 0 }), None);
    assert_eq!(extrude_face_sketch(&doc, ExtrudeFace::Rect(2)), Some(0));
    assert_eq!(extrude_face_sketch(&doc, ExtrudeFace::Circle(1)), None);
}

#[test]
fn dimension_labels_follow_newest_geometry() {
    let mut doc = doc_with_geometry();
    push_constraint(&mut doc, ConstraintKind::Distance { target: DistanceTarget::RectWidth(0) }, "5mm");
    push_constraint(&mut doc, ConstraintKind::Distance { target: DistanceTarget::RectWidth(2) }, "7mm");
    push_constraint(&mut doc, ConstraintKind::Distance { target: DistanceTarget::CircleDiameter(0) }, "3mm");
    push_constraint(
        &mut doc,
        ConstraintKind::Angle {
            line_a: ConstraintLine::Line(0),
            line_b: ConstraintLine::Line(2),
            rotation_sign: default_constraint_sign(),
        },
        "30 deg",
    );
    assert_eq!(dim_label_target_in_sketch(&doc, 0, DimLabelAxis::Width), Some(1));
    assert_eq!(dim_label_target_in_sketch(&doc, 0, DimLabelAxis::Height), None);
    assert_eq!(dim_label_target_in_sketch(&doc, 5, DimLabelAxis::Length), None);
    assert_eq!(dim_label_axis_for_target(&doc, 1), Some(DimLabelAxis::Width));
    assert_eq!(dim_label_axis_for_target(&doc, 2), None);
    assert!(constraint_is_circle_diameter(&doc, 2));
    assert!(!constraint_is_circle_diameter(&doc, 3));
    assert!(constraint_is_angle(&doc, 3));
    assert!(!constraint_is_angle(&doc, 9));
    assert_eq!(committed_dim_expression(&doc, 1), Some("7mm".to_string()));
    assert_eq!(committed_dim_expression(&doc, 4), None);
    assert_eq!(
        dimension_target_status_label(DimensionTarget::Distance(DistanceTarget::RectHeight(3))),
        "rectangle 3 height"
    );
    assert_eq!(
        dimension_target_status_label(DimensionTarget::Angle {
            line_a: ConstraintLine::Line(0),
            line_b: ConstraintLine::Line(1),
            rotation_sign: 1,
        }),
        "angle"
    );
}

#[test]
fn palette_best_match_prefers_the_best_score() {
    let cmds = vec![
        PaletteCommand::new(PaletteCommandId::NewDocument, "New Document", "new document"),
        PaletteCommand::new(PaletteCommandId::ToolRectangle, "Rectangle Tool", "rectangle tool draw"),
        PaletteCommand::new(PaletteCommandId::ViewFront, "View Front", "view front"),
    ];
    assert_eq!(best_match("rect", &cmds).map(|c| c.id), Some(PaletteCommandId::ToolRectangle));
    assert_eq!(best_match("v fr", &cmds).map(|c| c.id), Some(PaletteCommandId::ViewFront));
    assert!(best_match("zzz", &cmds).is_none());
}

#[test]
fn construction_and_liveness_queries() {
    let mut doc = doc_with_geometry();
    assert_eq!(selection_highlight_dashed(&doc, SceneElement::Line(1)), Some(true));
    assert_eq!(selection_highlight_dashed(&doc, SceneElement::Line(0)), Some(false));
    assert_eq!(selection_highlight_dashed(&doc, SceneElement::Sketch(0)), None);
    assert!(constraint_kind_applicable(
        &doc,
        &ConstraintKind::Horizontal { line: ConstraintLine::Line(0) }
    ));
    doc.lines[0].deleted = true;
    assert!(!constraint_kind_applicable(
        &doc,
        &ConstraintKind::Horizontal { line: ConstraintLine::Line(0) }
    ));
    doc.parameters.push(Parameter {
        name: "w".to_string(),
        expression: "1mm".to_string(),
        deleted: false,
        source: None,
    });
    doc.shape_order.push(ShapeKind::Parameter);
    assert!(parameter_alive(&doc, 0));
    assert!(tombstone_parameter(&mut doc, 0));
    assert!(!parameter_alive(&doc, 0));
    assert!(!tombstone_parameter(&mut doc, 0));
    assert!(Tool::Line.is_sketch_edit_tool());
    assert!(!Tool::Select.is_sketch_edit_tool());
}

#[test]
fn name_draft_follows_the_named_element() {
    let mut doc = doc_with_geometry();
    doc.lines[2].name = Some("edge".to_string());
    let mut state = ContextPaneState::default();
    let content = ContextPaneContent {
        name: Some(NameControl { element: SceneElement::Line(2) }),
        curve_mode: None,
        tangent_constraint: None,
        construction: None,
        constraints: None,
        snapping: None,
        extrude_body: None,
        units: None,
    };
    sync_name_draft(&mut state, &doc, &content);
    assert_eq!(state.name_draft, "edge");
    assert_eq!(state.synced_element, Some(SceneElement::Line(2)));
}

#[test]
fn tool_and_pane_names_ignore_letter_case() {
    assert_eq!(Tool::from_name("RECT"), Some(Tool::Rectangle));
    assert_eq!(Tool::from_name("Construction Plane"), Some(Tool::ConstructionPlane));
    for pane in [Pane::ViewCube, Pane::Hierarchy, Pane::Parameters, Pane::Context] {
        assert_eq!(Pane::from_name(pane.script_name()), Some(pane));
        assert_eq!(Pane::from_name(&pane.script_name().to_ascii_uppercase()), Some(pane));
    }
    assert_eq!(Pane::from_name(""), None);
}
