use bearcad::actions::{
    ActionResult, DimEditTarget, RectAxis, RectDraft, SegmentDraft, SketchSession, Tool,
};
use bearcad::constraints::DimensionFacts;
use bearcad::document_health::{ExpressionChecks, HealthStatus};
use bearcad::editor::EditorState;
use bearcad::model::{
    Constraint, ConstraintKind, ConstraintLine, ConstructionPlane, ConstructionPlaneParent,
    DimensionTarget, DistanceTarget, FaceId, Line, Parameter, Rect, ShapeKind, SketchId,
};
use bearcad::selection::{click_scene_selection, SceneElement};

fn begin_default_sketch(state: &mut EditorState) -> SketchId {
    let sketch = state.doc.add_sketch(FaceId::ConstructionPlane(0));
    state.sketch_session = Some(SketchSession { sketch });
    sketch
}

fn rect_in(sketch: SketchId) -> Rect {
    Rect {
        sketch,
        name: None,
        deleted: false,
        width_locked: false,
        width_expr: None,
        height_locked: false,
        height_expr: None,
        bottom_construction: false,
        right_construction: false,
        top_construction: false,
        left_construction: false,
    }
}

fn line_in(sketch: SketchId) -> Line {
    Line {
        sketch,
        construction: false,
        name: None,
        deleted: false,
        length_locked: false,
        length_expr: None,
    }
}

fn width_constraint(state: &mut EditorState, sketch: SketchId) -> usize {
    state.doc.rects.push(rect_in(sketch));
    state.doc.shape_order.push(ShapeKind::Rect);
    state.doc.constraints.push(Constraint {
        sketch,
        kind: ConstraintKind::Distance {
            target: DistanceTarget::RectWidth(0),
        },
        expression: "10".to_string(),
        name: None,
        deleted: false,
    });
    state.doc.shape_order.push(ShapeKind::Constraint);
    state.doc.constraints.len() - 1
}

fn facts() -> DimensionFacts {
    DimensionFacts {
        finalized: Err("no pair".to_string()),
        lines_parallel: false,
        rotation_sign: Ok(1),
        value_ok: true,
    }
}

#[test]
fn undo_last_removes_most_recent_shape() {
    let mut state = EditorState::default();
    let sketch = state.doc.add_sketch(FaceId::ConstructionPlane(0));
    state.doc.rects.push(rect_in(sketch));
    state.doc.shape_order.push(ShapeKind::Rect);
    state.doc.lines.push(line_in(sketch));
    state.doc.shape_order.push(ShapeKind::Line);
    state.undo_last();
    assert_eq!(state.doc.lines.len(), 0);
    assert_eq!(state.doc.rects.len(), 1);
    state.undo_last();
    assert!(state.doc.rects.is_empty());
}

#[test]
fn undo_last_refreshes_document_health() {
    let mut state = EditorState::default();
    state.doc.parameters.push(Parameter {
        name: "bad".to_string(),
        expression: "1mm / 0".to_string(),
        deleted: false,
        source: None,
    });
    state.doc.shape_order.push(ShapeKind::Parameter);
    let checks = ExpressionChecks {
        constraints: vec![],
        parameters: vec![false],
    };
    state.refresh_document_health(&checks);
    assert_eq!(state.health.parameter_status(0), HealthStatus::Invalid);

    let undone = state.undo_last();
    if undone.undone {
        state.refresh_document_health(&checks);
    }
    assert!(state.doc.parameters.is_empty());
    assert!(state.health.parameters.is_empty());
}

#[test]
fn undo_refuses_sketch_with_geometry_and_guarded_planes() {
    let mut state = EditorState::default();
    let sketch = begin_default_sketch(&mut state);
    state.doc.lines.push(line_in(sketch));
    let before = state.undo_last();
    assert!(!before.undone);
    assert_eq!(state.status, "Cannot undo: sketch has geometry");
    assert_eq!(state.doc.sketches.len(), 1);
    state.doc.lines.clear();
    let gone = state.undo_last();
    assert!(gone.undone && gone.left_sketch);
    assert!(state.sketch_session.is_none());
    assert_eq!(state.status, "Undid last sketch");
    assert_eq!(state.undo_last().undone, false);
    assert_eq!(state.status, "Nothing to undo");

    for _ in 0..2 {
        state.doc.construction_planes.push(ConstructionPlane {
            parent: ConstructionPlaneParent::Root,
            name: None,
            deleted: false,
        });
        state.doc.shape_order.push(ShapeKind::ConstructionPlane);
    }
    state.doc.add_sketch(FaceId::ConstructionPlane(1));
    state.doc.shape_order.pop();
    assert!(!state.undo_last().undone);
    assert_eq!(state.status, "Cannot undo: construction plane has child sketches");
    state.doc.sketches.clear();
    assert!(state.undo_last().undone);
    assert_eq!(state.doc.construction_planes.len(), 1);
    assert!(!state.undo_last().undone);
    assert_eq!(state.status, "Cannot undo default datum plane");
}

#[test]
fn undo_after_adding_a_constraint_reports_resolve() {
    let mut state = EditorState::default();
    let sketch = begin_default_sketch(&mut state);
    width_constraint(&mut state, sketch);
    let undone = state.undo_last();
    assert!(undone.undone && undone.constraint_removed && !undone.left_sketch);
    assert!(state.doc.constraints.is_empty());
    assert_eq!(state.status, "Undid last constraint");
}

#[test]
fn picking_tools_drops_other_drawings_and_names_the_tool() {
    let mut state = EditorState::default();
    state.creating_rect = Some(RectDraft::new(false));
    state.creating_plane = true;
    let change = state.set_tool(Tool::Line);
    assert!(!change.left_sketch && !change.dimension_from_selection);
    assert!(state.creating_rect.is_none());
    assert!(!state.creating_plane);
    assert_eq!(state.tool, Tool::Line);
    assert_eq!(state.status, "Line tool \u{2014} click a face");
    begin_default_sketch(&mut state);
    assert_eq!(state.set_tool(Tool::Dimension).dimension_from_selection, true);
    assert_eq!(
        state.status,
        "Dimension tool \u{2014} select geometry, then D, or click a segment"
    );
    state.creating_extrusion = true;
    let change = state.set_tool(Tool::Extrude);
    assert!(change.left_sketch);
    assert!(state.sketch_session.is_none());
    assert!(state.creating_extrusion);
    assert_eq!(state.tool, Tool::Extrude);
}

#[test]
fn escape_cancels_innermost_operation_first() {
    let mut state = EditorState::default();
    begin_default_sketch(&mut state);
    state.tool = Tool::Rectangle;
    state.creating_rect = Some(RectDraft::new(false));
    assert!(!state.cancel_operation());
    assert_eq!(state.status, "Cancelled");
    assert!(state.creating_rect.is_none());
    assert!(state.sketch_session.is_some());
    assert!(!state.cancel_operation());
    assert_eq!(state.tool, Tool::Select);
    assert!(state.sketch_session.is_some());
    assert!(state.cancel_operation());
    assert_eq!(state.status, "Exited sketch");
    assert!(state.sketch_session.is_none());
}

#[test]
fn exit_sketch_requires_a_session() {
    let mut state = EditorState::default();
    assert_eq!(
        state.exit_sketch(),
        ActionResult::Failed("Not in sketch mode".to_string())
    );
    begin_default_sketch(&mut state);
    state.creating_line = Some(SegmentDraft::new(true));
    assert_eq!(state.exit_sketch(), ActionResult::Applied);
    assert_eq!(state.status, "Sketch saved");
    assert!(state.creating_line.is_none());
}

#[test]
fn new_and_cleared_documents_are_empty() {
    let mut state = EditorState::default();
    let sketch = begin_default_sketch(&mut state);
    state.doc.lines.push(line_in(sketch));
    click_scene_selection(&mut state.selection, SceneElement::Line(0), false);
    state.tool = Tool::Line;
    state.clear_document();
    assert!(state.doc.lines.is_empty() && state.doc.sketches.is_empty());
    assert_eq!(state.selection.len(), 1);
    assert_eq!(state.tool, Tool::Line);
    assert_eq!(state.status, "Cleared");
    state.new_document();
    assert!(state.selection.is_empty());
    assert_eq!(state.tool, Tool::Select);
    assert_eq!(state.status, "New document");
}

#[test]
fn begin_edit_committed_dim_blocked_while_drawing_rectangle() {
    let mut state = EditorState::default();
    begin_default_sketch(&mut state);
    state.creating_rect = Some(RectDraft::new(false));
    let result = state.begin_edit_committed_dim(0);
    assert!(matches!(result, ActionResult::Failed(_)));
    assert!(state.editing_committed_dim.is_none());
}

#[test]
fn cancel_operation_clears_committed_dim_edit_before_exiting_sketch() {
    let mut state = EditorState::default();
    let sketch = begin_default_sketch(&mut state);
    let width = width_constraint(&mut state, sketch);
    assert_eq!(state.begin_edit_committed_dim(width), ActionResult::Applied);
    state.cancel_operation();
    assert!(state.editing_committed_dim.is_none());
    assert!(state.sketch_session.is_some());
}

#[test]
fn committing_an_edited_dimension_updates_its_expression() {
    let mut state = EditorState::default();
    let sketch = begin_default_sketch(&mut state);
    let width = width_constraint(&mut state, sketch);
    assert_eq!(state.begin_edit_committed_dim(width), ActionResult::Applied);
    let edit = state.editing_committed_dim.as_ref().unwrap();
    assert_eq!(edit.text, "10");
    assert_eq!(edit.target, DimEditTarget::Constraint(width));
    assert_eq!(
        state.status,
        "Edit dimension \u{2022} Enter to commit \u{2022} Esc to cancel"
    );
    let (sk, edit) = state.take_committed_dim_for_commit().unwrap();
    assert_eq!(sk, sketch);
    let refused = DimensionFacts {
        value_ok: false,
        ..facts()
    };
    let failed = state.finish_committed_dim_commit(sk, edit, Ok("bogus".to_string()), &refused);
    assert_eq!(
        failed,
        ActionResult::Failed("Invalid constraint expression 'bogus'".to_string())
    );
    assert!(state.editing_committed_dim.is_some());
    assert_eq!(state.status, "Invalid constraint expression 'bogus'");
    let (sk, edit) = state.take_committed_dim_for_commit().unwrap();
    let done = state.finish_committed_dim_commit(sk, edit, Ok("20mm".to_string()), &facts());
    assert_eq!(done, ActionResult::Applied);
    assert_eq!(state.doc.constraints[0].expression, "20mm");
    assert!(state.editing_committed_dim.is_none());
    assert_eq!(state.status, "Updated dimension");
    assert_eq!(
        state.take_committed_dim_for_commit().unwrap_err(),
        "No committed dimension being edited"
    );
}

#[test]
fn dimension_tool_starts_new_dimension_from_selection() {
    let mut state = EditorState::default();
    let sketch = begin_default_sketch(&mut state);
    state.doc.lines.push(line_in(sketch));
    state.doc.shape_order.push(ShapeKind::Line);
    click_scene_selection(&mut state.selection, SceneElement::Line(0), false);
    assert!(state.try_begin_dimension_from_selection(&facts(), "5.0 mm"));
    let edit = state.editing_committed_dim.as_ref().unwrap();
    assert_eq!(
        edit.target,
        DimEditTarget::New(DimensionTarget::Distance(DistanceTarget::LineLength(0)))
    );
    assert_eq!(edit.text, "5.0 mm");
    assert_eq!(
        state.status,
        "Dimension line 0 \u{2022} type length \u{2022} Enter commit \u{2022} Esc cancel"
    );
    let (sk, edit) = state.take_committed_dim_for_commit().unwrap();
    let with_target = DimensionFacts {
        finalized: Ok(DistanceTarget::LineLength(0)),
        ..facts()
    };
    assert_eq!(
        state.finish_committed_dim_commit(sk, edit, Ok(" 7mm ".to_string()), &with_target),
        ActionResult::Applied
    );
    assert_eq!(state.doc.constraints.len(), 1);
    assert_eq!(state.doc.constraints[0].expression, "7mm");
    state.tool = Tool::Select;
    assert_eq!(
        state.begin_dimension_edit(DimensionTarget::Distance(DistanceTarget::LineLength(0)), "1"),
        ActionResult::Failed("Dimension tool required".to_string())
    );
    state.tool = Tool::Dimension;
    assert_eq!(
        state.begin_dimension_edit(
            DimensionTarget::Angle {
                line_a: ConstraintLine::Line(0),
                line_b: ConstraintLine::Line(0),
                rotation_sign: 1
            },
            "45 deg"
        ),
        ActionResult::Applied
    );
    assert_eq!(state.editing_committed_dim.as_ref().unwrap().text, "45 deg");
}

#[test]
fn focus_rect_dimension_sets_pending_focus() {
    let mut state = EditorState::default();
    state.creating_rect = Some(RectDraft::new(false));
    state.focus_rect_dimension(RectAxis::Height);
    let cr = state.creating_rect.as_ref().unwrap();
    assert_eq!(cr.focused, 1);
    assert!(cr.pending_focus);
}

#[test]
fn focus_line_length_sets_pending_focus() {
    let mut state = EditorState::default();
    state.creating_line = Some(SegmentDraft::new(false));
    state.focus_line_length();
    assert!(state.creating_line.as_ref().unwrap().pending_focus);
}

#[test]
fn typed_values_go_to_the_edited_dimension_first() {
    let mut state = EditorState::default();
    let sketch = begin_default_sketch(&mut state);
    assert_eq!(
        state.set_rect_dimension(RectAxis::Width, "4".to_string()),
        ActionResult::Failed("No rectangle in progress".to_string())
    );
    assert_eq!(
        state.set_circle_diameter("4".to_string()),
        ActionResult::Failed("No circle in progress".to_string())
    );
    state.creating_rect = Some(RectDraft::new(true));
    assert_eq!(state.set_rect_dimension(RectAxis::Height, "12".to_string()), ActionResult::Applied);
    let cr = state.creating_rect.as_ref().unwrap();
    assert_eq!(cr.height_text, "12");
    assert!(cr.height_edited && !cr.width_edited);
    assert!(cr.construction);
    state.creating_rect = None;
    let width = width_constraint(&mut state, sketch);
    state.begin_edit_committed_dim(width);
    assert_eq!(state.set_rect_dimension(RectAxis::Width, "30".to_string()), ActionResult::Applied);
    assert_eq!(state.editing_committed_dim.as_ref().unwrap().text, "30");
    assert_eq!(
        state.set_line_length("2".to_string()),
        ActionResult::Failed("No line in progress".to_string())
    );
    state.creating_line = Some(SegmentDraft::new(false));
    assert_eq!(state.set_line_length("2".to_string()), ActionResult::Applied);
    assert_eq!(state.creating_line.as_ref().unwrap().text, "2");
    assert_eq!(state.editing_committed_dim.as_ref().unwrap().text, "30");
}

#[test]
fn focus_element_name_fills_the_name_field() {
    let mut state = EditorState::default();
    let sketch = begin_default_sketch(&mut state);
    assert_eq!(
        state.focus_element_name(),
        ActionResult::Failed("Select a single element to rename".to_string())
    );
    let mut line = line_in(sketch);
    line.name = Some("edge".to_string());
    state.doc.lines.push(line);
    state.panes.set(bearcad::actions::Pane::Context, false);
    click_scene_element_in(&mut state, SceneElement::Line(0));
    assert_eq!(state.focus_element_name(), ActionResult::Applied);
    assert!(state.panes.is_visible(bearcad::actions::Pane::Context));
    assert!(state.context_pane.focus_name_field);
    assert_eq!(state.context_pane.synced_element, Some(SceneElement::Line(0)));
    assert_eq!(state.context_pane.name_draft, "edge");
    assert_eq!(state.status, "Rename element");
}

fn click_scene_element_in(state: &mut EditorState, element: SceneElement) {
    click_scene_selection(&mut state.selection, element, false);
}

#[test]
fn undo_after_adding_a_dimension_unlocks_its_geometry() {
    let mut state = EditorState::default();
    let sketch = begin_default_sketch(&mut state);
    state.doc.rects.push(rect_in(sketch));
    state.doc.shape_order.push(ShapeKind::Rect);
    let facts = DimensionFacts {
        finalized: Ok(DistanceTarget::RectWidth(0)),
        lines_parallel: false,
        rotation_sign: Ok(1),
        value_ok: true,
    };
    bearcad::constraints::add_distance_constraint(&mut state.doc, sketch, "12mm", &facts).unwrap();
    assert!(state.doc.rects[0].width_locked);
    let undone = state.undo_last();
    assert!(undone.constraint_removed);
    assert!(!state.doc.rects[0].width_locked);
    assert_eq!(state.doc.rects[0].width_expr, None);
}

#[test]
fn open_sketch_enters_the_session_and_names_the_next_step() {
    let mut state = EditorState::default();
    let sketch = state.doc.add_sketch(FaceId::ConstructionPlane(0));
    assert_eq!(
        state.open_sketch(sketch + 1),
        ActionResult::Failed("Unknown sketch 1".to_string())
    );
    assert!(state.sketch_session.is_none());
    state.tool = Tool::Extrude;
    assert_eq!(state.open_sketch(sketch), ActionResult::Applied);
    assert_eq!(state.sketch_session, Some(SketchSession { sketch }));
    assert_eq!(state.tool, Tool::Select);
    assert_eq!(state.status, "Sketch 0 — pick line or rectangle");
    state.tool = Tool::Rectangle;
    assert_eq!(state.enter_sketch_session(sketch), ActionResult::Applied);
    assert_eq!(state.tool, Tool::Rectangle);
    assert_eq!(state.status, "Sketch 0 — click to set corner");
}
