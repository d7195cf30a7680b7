use bearcad::actions::{SegmentDraft, ActionResult, CommandPaletteState, Pane, PaneVisibility, SketchSession, Tool};
use bearcad::document_health::{
    recompute_document_health, DocumentHealth, ExpressionChecks, HealthStatus,
};
use bearcad::context::ContextPaneState;
use bearcad::editor::EditorState;
use bearcad::model::{
    Circle, Constraint, ConstraintKind, ConstraintLine, Document, FaceId, Line, Rect, RectEdge,
    ShapeKind,
};
use bearcad::selection::{SceneElement, SceneSelection};

fn line_in(sketch: usize) -> Line {
    Line {
        sketch,
        construction: false,
        name: None,
        deleted: false,
        length_locked: false,
        length_expr: None,
    }
}

fn editor_with(doc: Document) -> EditorState {
    EditorState {
        doc,
        selection: SceneSelection::default(),
        health: DocumentHealth::default(),
        tool: Tool::Select,
        panes: PaneVisibility::default(),
        command_palette: CommandPaletteState::default(),
        sketch_session: None,
        creating_rect: None,
        creating_line: None,
        creating_circle: None,
        creating_plane: false,
        creating_extrusion: false,
        editing_committed_dim: None,
        context_pane: ContextPaneState::default(),
        draw_construction: false,
        status: String::new(),
    }
}

fn two_lines() -> EditorState {
    let mut doc = Document::default();
    let sketch = doc.add_sketch(FaceId::ConstructionPlane(0));
    doc.lines.push(line_in(sketch));
    doc.shape_order.push(ShapeKind::Line);
    doc.lines.push(line_in(sketch));
    doc.shape_order.push(ShapeKind::Line);
    doc.circles.push(Circle {
        sketch,
        construction: false,
        name: None,
        deleted: false,
        diameter_locked: false,
        diameter_expr: None,
    });
    doc.shape_order.push(ShapeKind::Circle);
    editor_with(doc)
}

#[test]
fn construction_applies_to_drawing_first() {
    let mut ed = two_lines();
    ed.tool = Tool::Line;
    ed.creating_line = Some(SegmentDraft::new(false));
    assert_eq!(ed.apply_construction(true), ActionResult::Applied);
    assert_eq!(ed.creating_line.as_ref().map(|d| d.construction), Some(true));
    assert!(ed.draw_construction);
    assert_eq!(ed.status, "Line draw mode: construction");
    assert_eq!(ed.line_draw_construction_mode(), Some(true));
    assert_eq!(ed.rect_draw_construction_mode(), None);
    assert_eq!(ed.toggle_construction(), ActionResult::Applied);
    assert_eq!(ed.creating_line.as_ref().map(|d| d.construction), Some(false));
    assert_eq!(ed.status, "Line draw mode: substantial");
}

#[test]
fn construction_applies_to_selected_lines_and_circles() {
    let mut ed = two_lines();
    ed.click_scene_element(SceneElement::Line(1), false);
    ed.click_scene_element(SceneElement::Circle(0), true);
    ed.click_scene_element(SceneElement::Sketch(0), true);
    assert_eq!(ed.apply_construction(true), ActionResult::Applied);
    assert_eq!(ed.status, "2 item(s) marked construction");
    assert!(!ed.doc.lines[0].construction);
    assert!(ed.doc.lines[1].construction);
    assert!(ed.doc.circles[0].construction);
    assert_eq!(ed.toggle_construction(), ActionResult::Applied);
    assert_eq!(ed.status, "Toggled construction on 2 item(s)");
    assert!(!ed.doc.lines[1].construction);
}

#[test]
fn construction_without_targets_is_refused() {
    let mut ed = two_lines();
    ed.click_scene_element(SceneElement::Sketch(0), false);
    assert_eq!(
        ed.apply_construction(true),
        ActionResult::Failed("No constructable geometry selected".to_string())
    );
}

#[test]
fn frozen_target_refuses_construction() {
    let mut ed = two_lines();
    ed.doc.constraints.push(Constraint {
        sketch: 0,
        kind: ConstraintKind::Parallel {
            line_a: ConstraintLine::Line(0),
            line_b: ConstraintLine::Line(1),
        },
        expression: String::new(),
        name: None,
        deleted: false,
    });
    ed.doc.lines[0].deleted = true;
    ed.health = recompute_document_health(
        &ed.doc,
        &ExpressionChecks {
            constraints: Vec::new(),
            parameters: Vec::new(),
        },
    );
    ed.click_scene_element(SceneElement::Line(1), false);
    assert_eq!(ed.status, "unstable — Lost parallel/perpendicular partner");
    assert_eq!(
        ed.apply_construction(true),
        ActionResult::Failed("unstable: Lost parallel/perpendicular partner".to_string())
    );
    assert!(!ed.doc.lines[1].construction);
    assert_eq!(
        ed.set_shape_construction(SceneElement::Line(1), true),
        ActionResult::Failed("unstable: Lost parallel/perpendicular partner".to_string())
    );
}

#[test]
fn shape_construction_labels_the_element() {
    let mut ed = two_lines();
    assert_eq!(ed.set_shape_construction(SceneElement::Circle(0), true), ActionResult::Applied);
    assert_eq!(ed.status, "Circle 0 marked construction");
    assert_eq!(ed.set_shape_construction(SceneElement::Line(0), false), ActionResult::Applied);
    assert_eq!(ed.status, "Line 0 marked solid");
    assert!(matches!(
        ed.set_shape_construction(SceneElement::Sketch(0), true),
        ActionResult::Failed(_)
    ));
}

#[test]
fn panes_and_palette_report_their_state() {
    let mut ed = two_lines();
    let before = ed.panes.is_visible(Pane::Hierarchy);
    ed.toggle_pane(Pane::Hierarchy);
    assert_eq!(ed.panes.is_visible(Pane::Hierarchy), !before);
    ed.set_pane_visible(Pane::Context, false);
    assert!(!ed.panes.is_visible(Pane::Context));
    assert!(ed.status.ends_with("hidden"));
    ed.toggle_command_palette();
    assert!(ed.command_palette.open);
    assert_eq!(ed.status, "Command palette");
    ed.set_command_palette_open(false);
    assert!(!ed.command_palette.open);
}

#[test]
fn deleting_nothing_says_so() {
    let mut ed = two_lines();
    assert_eq!(ed.delete_selection(), None);
    assert_eq!(ed.status, "Nothing selected");
}

#[test]
fn deleting_the_open_sketch_leaves_it() {
    let mut ed = two_lines();
    ed.sketch_session = Some(SketchSession { sketch: 0 });
    ed.tool = Tool::Line;
    ed.click_scene_element(SceneElement::Sketch(0), false);
    assert_eq!(ed.delete_selection(), Some((1, true)));
    assert!(ed.sketch_session.is_none());
    assert_eq!(ed.tool, Tool::Select);
    assert!(ed.selection.is_empty());
    assert!(ed.doc.lines[0].deleted && ed.doc.circles[0].deleted);
    ed.finish_deletion(1, &ExpressionChecks { constraints: Vec::new(), parameters: Vec::new() });
    assert_eq!(ed.status, "Deleted 1 element(s)");
}

#[test]
fn deletion_reports_broken_dependencies() {
    let mut ed = two_lines();
    ed.doc.constraints.push(Constraint {
        sketch: 0,
        kind: ConstraintKind::Parallel {
            line_a: ConstraintLine::Line(0),
            line_b: ConstraintLine::Line(1),
        },
        expression: String::new(),
        name: None,
        deleted: false,
    });
    ed.click_scene_element(SceneElement::Line(0), false);
    let (count, left) = ed.delete_selection().unwrap();
    assert_eq!((count, left), (1, false));
    ed.finish_deletion(count, &ExpressionChecks { constraints: Vec::new(), parameters: Vec::new() });
    assert_eq!(ed.status, "Deleted 1 element(s) — 1 invalid, 1 unstable");
    assert_eq!(ed.health.element_status(SceneElement::Constraint(0)), HealthStatus::Invalid);
}

#[test]
fn dimensions_editable_only_in_idle_sketch() {
    let mut ed = two_lines();
    assert!(!ed.can_edit_sketch_dimensions());
    ed.sketch_session = Some(SketchSession { sketch: 0 });
    assert!(ed.can_edit_sketch_dimensions());
    ed.creating_circle = Some(SegmentDraft::new(false));
    assert!(!ed.can_edit_sketch_dimensions());
}

fn rect_and_line() -> EditorState {
    let mut doc = Document::default();
    let sketch = doc.add_sketch(FaceId::ConstructionPlane(0));
    doc.rects.push(Rect {
        sketch,
        name: None,
        deleted: false,
        width_locked: false,
        width_expr: None,
        height_locked: false,
        height_expr: None,
        bottom_construction: false,
        right_construction: false,
        top_construction: false,
        left_construction: false,
    });
    doc.shape_order.push(ShapeKind::Rect);
    doc.lines.push(line_in(sketch));
    doc.shape_order.push(ShapeKind::Line);
    editor_with(doc)
}

#[test]
fn set_shape_construction_toggles_rectangle_edge() {
    let mut state = rect_and_line();
    assert_eq!(
        state.set_shape_construction(SceneElement::RectEdge(0, RectEdge::Bottom), true),
        ActionResult::Applied
    );
    assert!(state.doc.rects[0].edge_construction(RectEdge::Bottom));
    assert!(!state.doc.rects[0].edge_construction(RectEdge::Top));
}

#[test]
fn apply_construction_sets_all_selected_targets() {
    let mut state = rect_and_line();
    state.click_scene_element(SceneElement::RectEdge(0, RectEdge::Bottom), false);
    state.click_scene_element(SceneElement::Line(0), true);
    assert_eq!(state.apply_construction(true), ActionResult::Applied);
    assert!(state.doc.rects[0].edge_construction(RectEdge::Bottom));
    assert!(state.doc.lines[0].construction);
}

#[test]
fn toggle_construction_flips_each_selected_target() {
    let mut state = rect_and_line();
    state.doc.rects[0].set_edge_construction(RectEdge::Bottom, true);
    state.click_scene_element(SceneElement::RectEdge(0, RectEdge::Bottom), false);
    state.click_scene_element(SceneElement::Line(0), true);
    assert_eq!(state.toggle_construction(), ActionResult::Applied);
    assert!(!state.doc.rects[0].edge_construction(RectEdge::Bottom));
    assert!(state.doc.lines[0].construction);
}

#[test]
fn rectangle_edge_of_missing_rectangle_is_refused() {
    let mut state = rect_and_line();
    assert_eq!(
        state.set_shape_construction(SceneElement::RectEdge(3, RectEdge::Left), true),
        ActionResult::Failed("Rectangle 3 not found".to_string())
    );
}
