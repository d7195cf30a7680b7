use bearcad::actions::Tool;
use bearcad::context::{
    context_pane_content, ConstructionControl, ContextInput, ContextPaneContent, NameControl,
    TriState, UnitsControl,
};
use bearcad::geometric_constraints::GeometricConstraintType;
use bearcad::model::{AngleUnit, Document, FaceId, LengthUnit, Line};
use bearcad::selection::{click_scene_selection, SceneElement, SceneSelection};

fn input<'a>(doc: &'a Document, selection: &'a SceneSelection) -> ContextInput<'a> {
    ContextInput {
        doc,
        selection,
        tool: Tool::Select,
        draw_rect_construction: None,
        draw_line_construction: None,
        draw_circle_construction: None,
        draw_line_curve_mode: None,
        draw_line_tangent_constraint: None,
        in_sketch: false,
        snapping_enabled: true,
        extrude_merge_candidate: None,
        extrude_body_mode: None,
    }
}

fn line_in(sketch: usize) -> Line {
    Line {
        sketch,
        construction: false,
        name: None,
        deleted: false,
        length_locked: false,
        length_expr: None,
    }
}

#[test]
fn empty_when_nothing_selected() {
    let doc = Document::default();
    assert_eq!(
        context_pane_content(&input(&doc, &SceneSelection::default())),
        ContextPaneContent {
            name: None,
            curve_mode: None,
            tangent_constraint: None,
            construction: None,
            constraints: None,
            snapping: None,
            extrude_body: None,
            units: Some(UnitsControl {
                sketch: None,
                effective_length: LengthUnit::Mm,
                effective_angle: AngleUnit::Deg,
                length_override: None,
                angle_override: None,
                document_length: LengthUnit::Mm,
                document_angle: AngleUnit::Deg,
            }),
        }
    );
}

#[test]
fn shows_construction_while_drawing_rectangle() {
    let doc = Document::default();
    let content = context_pane_content(&ContextInput {
        doc: &doc,
        selection: &SceneSelection::default(),
        tool: Tool::Select,
        draw_rect_construction: Some(true),
        draw_line_construction: None,
        draw_circle_construction: None,
        draw_line_curve_mode: None,
        draw_line_tangent_constraint: None,
        in_sketch: false,
        snapping_enabled: true,
        extrude_merge_candidate: None,
        extrude_body_mode: None,
    });
    assert_eq!(
        content,
        ContextPaneContent {
            name: None,
            curve_mode: None,
            tangent_constraint: None,
            construction: Some(ConstructionControl {
                value: TriState::On,
                target_count: 1,
            }),
            constraints: None,
            snapping: None,
            extrude_body: None,
            units: Some(UnitsControl {
                sketch: None,
                effective_length: LengthUnit::Mm,
                effective_angle: AngleUnit::Deg,
                length_override: None,
                angle_override: None,
                document_length: LengthUnit::Mm,
                document_angle: AngleUnit::Deg,
            }),
        }
    );
}

#[test]
fn shows_curve_mode_and_tangent_constraint_while_drawing_a_line() {
    let doc = Document::default();
    let content = context_pane_content(&ContextInput {
        doc: &doc,
        selection: &SceneSelection::default(),
        tool: Tool::Line,
        draw_rect_construction: None,
        draw_line_construction: Some(false),
        draw_circle_construction: None,
        draw_line_curve_mode: Some(true),
        draw_line_tangent_constraint: Some(false),
        in_sketch: true,
        snapping_enabled: true,
        extrude_merge_candidate: None,
        extrude_body_mode: None,
    });
    assert_eq!(content.curve_mode, Some(true));
    assert_eq!(content.tangent_constraint, Some(false));
}

#[test]
fn shows_name_when_single_element_selected() {
    let mut doc = Document::default();
    let sketch = doc.add_sketch(FaceId::ConstructionPlane(0));
    doc.lines.push(line_in(sketch));
    let mut sel = SceneSelection::default();
    click_scene_selection(&mut sel, SceneElement::Line(0), false);
    assert_eq!(
        context_pane_content(&input(&doc, &sel)),
        ContextPaneContent {
            name: Some(NameControl {
                element: SceneElement::Line(0),
            }),
            curve_mode: None,
            tangent_constraint: None,
            construction: Some(ConstructionControl {
                value: TriState::Off,
                target_count: 1,
            }),
            constraints: None,
            snapping: None,
            extrude_body: None,
            units: None,
        }
    );
}

#[test]
fn shows_inherited_units_when_sketch_selected() {
    let mut doc = Document::default();
    doc.default_length_unit = LengthUnit::In;
    doc.default_angle_unit = AngleUnit::Rad;
    let sketch = doc.add_sketch(FaceId::ConstructionPlane(0));
    let mut sel = SceneSelection::default();
    click_scene_selection(&mut sel, SceneElement::Sketch(sketch), false);
    let content = context_pane_content(&input(&doc, &sel));
    assert_eq!(
        content.units,
        Some(UnitsControl {
            sketch: Some(sketch),
            effective_length: LengthUnit::In,
            effective_angle: AngleUnit::Rad,
            length_override: None,
            angle_override: None,
            document_length: LengthUnit::In,
            document_angle: AngleUnit::Rad,
        })
    );
}

#[test]
fn shows_overridden_units_when_sketch_selected() {
    let mut doc = Document::default();
    let sketch = doc.add_sketch(FaceId::ConstructionPlane(0));
    doc.sketches[sketch].length_unit = Some(LengthUnit::Cm);
    let mut sel = SceneSelection::default();
    click_scene_selection(&mut sel, SceneElement::Sketch(sketch), false);
    let content = context_pane_content(&input(&doc, &sel));
    assert_eq!(
        content.units,
        Some(UnitsControl {
            sketch: Some(sketch),
            effective_length: LengthUnit::Cm,
            effective_angle: AngleUnit::Deg,
            length_override: Some(LengthUnit::Cm),
            angle_override: None,
            document_length: LengthUnit::Mm,
            document_angle: AngleUnit::Deg,
        })
    );
}

#[test]
fn hides_units_control_when_non_sketch_element_selected() {
    let mut doc = Document::default();
    let sketch = doc.add_sketch(FaceId::ConstructionPlane(0));
    doc.lines.push(line_in(sketch));
    let mut sel = SceneSelection::default();
    click_scene_selection(&mut sel, SceneElement::Line(0), false);
    assert_eq!(context_pane_content(&input(&doc, &sel)).units, None);
}

#[test]
fn shows_construction_before_drawing_when_rectangle_tool_active() {
    let doc = Document::default();
    let content = context_pane_content(&ContextInput {
        doc: &doc,
        selection: &SceneSelection::default(),
        tool: Tool::Select,
        draw_rect_construction: Some(false),
        draw_line_construction: None,
        draw_circle_construction: None,
        draw_line_curve_mode: None,
        draw_line_tangent_constraint: None,
        in_sketch: false,
        snapping_enabled: true,
        extrude_merge_candidate: None,
        extrude_body_mode: None,
    });
    assert_eq!(content.construction.unwrap().value, TriState::Off);
}

#[test]
fn draw_mode_takes_precedence_over_selection() {
    let mut doc = Document::default();
    let sketch = doc.add_sketch(FaceId::ConstructionPlane(0));
    doc.lines.push(line_in(sketch));
    let mut sel = SceneSelection::default();
    click_scene_selection(&mut sel, SceneElement::Line(0), false);
    let content = context_pane_content(&ContextInput {
        doc: &doc,
        selection: &sel,
        tool: Tool::Select,
        draw_rect_construction: Some(true),
        draw_line_construction: None,
        draw_circle_construction: None,
        draw_line_curve_mode: None,
        draw_line_tangent_constraint: None,
        in_sketch: false,
        snapping_enabled: true,
        extrude_merge_candidate: None,
        extrude_body_mode: None,
    });
    assert_eq!(
        content,
        ContextPaneContent {
            name: Some(NameControl {
                element: SceneElement::Line(0),
            }),
            curve_mode: None,
            tangent_constraint: None,
            construction: Some(ConstructionControl {
                value: TriState::On,
                target_count: 1,
            }),
            constraints: None,
            snapping: None,
            extrude_body: None,
            units: None,
        }
    );
}

#[test]
fn constraint_tool_shows_constraint_rows() {
    let doc = Document::default();
    let content = context_pane_content(&ContextInput {
        doc: &doc,
        selection: &SceneSelection::default(),
        tool: Tool::Constraint,
        draw_rect_construction: None,
        draw_line_construction: None,
        draw_circle_construction: None,
        draw_line_curve_mode: None,
        draw_line_tangent_constraint: None,
        in_sketch: false,
        snapping_enabled: true,
        extrude_merge_candidate: None,
        extrude_body_mode: None,
    });
    assert_eq!(
        content.constraints.as_ref().map(|rows| rows.len()),
        Some(GeometricConstraintType::all().len())
    );
}
