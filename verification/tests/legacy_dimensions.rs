use bearcad::constraints::find_distance_constraint;
use bearcad::legacy_dimensions::{
    clear_legacy_dimension_locks, migrate_legacy_dimensions,
    sync_legacy_dimension_flags_from_constraints, LegacyMeasurements,
};
use bearcad::model::{
    Circle, Constraint, ConstraintKind, DistanceTarget, Document, FaceId, Line, Rect, ShapeKind,
    SketchId,
};

fn sketch_doc() -> (Document, SketchId) {
    let mut doc = Document::default();
    let sketch = doc.add_sketch(FaceId::ConstructionPlane(0));
    (doc, sketch)
}

fn rect_in(sketch: SketchId) -> Rect {
    Rect {
        sketch,
        name: None,
        deleted: false,
        width_locked: false,
        width_expr: None,
        height_locked: false,
        height_expr: None,
        bottom_construction: false,
        right_construction: false,
        top_construction: false,
        left_construction: false,
    }
}

fn measured(doc: &Document) -> LegacyMeasurements {
    LegacyMeasurements {
        rect_widths: vec!["10.0 mm".to_string(); doc.rects.len()],
        rect_heights: vec!["5.0 mm".to_string(); doc.rects.len()],
        line_lengths: vec!["7.0 mm".to_string(); doc.lines.len()],
        circle_diameters: vec!["3.0 mm".to_string(); doc.circles.len()],
    }
}

#[test]
fn migrate_legacy_dimensions_creates_constraints() {
    let (mut doc, sketch) = sketch_doc();
    let mut rect = rect_in(sketch);
    rect.width_locked = true;
    rect.width_expr = Some("10mm".to_string());
    doc.rects.push(rect);
    let m = measured(&doc);
    migrate_legacy_dimensions(&mut doc, &m);
    assert_eq!(doc.constraints.len(), 1);
    assert_eq!(
        find_distance_constraint(&doc, DistanceTarget::RectWidth(0)),
        Some(0)
    );
}

#[test]
fn migration_uses_measurements_and_skips_dimensioned_targets() {
    let (mut doc, sketch) = sketch_doc();
    let mut rect = rect_in(sketch);
    rect.height_locked = true;
    doc.rects.push(rect);
    doc.lines.push(Line {
        sketch,
        construction: false,
        name: None,
        deleted: false,
        length_locked: true,
        length_expr: Some("L".to_string()),
    });
    doc.circles.push(Circle {
        sketch,
        construction: false,
        name: None,
        deleted: false,
        diameter_locked: true,
        diameter_expr: None,
    });
    doc.constraints.push(Constraint {
        sketch,
        kind: ConstraintKind::Distance {
            target: DistanceTarget::LineLength(0),
        },
        expression: "9".to_string(),
        name: None,
        deleted: false,
    });
    let order = doc.shape_order.len();
    let m = measured(&doc);
    migrate_legacy_dimensions(&mut doc, &m);
    assert_eq!(doc.constraints.len(), 3);
    assert_eq!(doc.constraints[1].expression, "5.0 mm");
    assert_eq!(
        doc.constraints[1].kind,
        ConstraintKind::Distance {
            target: DistanceTarget::RectHeight(0)
        }
    );
    assert_eq!(doc.constraints[2].expression, "3.0 mm");
    assert_eq!(doc.shape_order.len(), order + 2);
    assert_eq!(doc.shape_order[order], ShapeKind::Constraint);
    let again = measured(&doc);
    migrate_legacy_dimensions(&mut doc, &again);
    assert_eq!(doc.constraints.len(), 3);
}

#[test]
fn legacy_flags_follow_the_last_live_constraint() {
    let (mut doc, sketch) = sketch_doc();
    let mut rect = rect_in(sketch);
    rect.height_locked = true;
    rect.height_expr = Some("old".to_string());
    doc.rects.push(rect);
    for (expr, deleted) in [("first", false), ("second", false), ("third", true)] {
        doc.constraints.push(Constraint {
            sketch,
            kind: ConstraintKind::Distance {
                target: DistanceTarget::RectWidth(0),
            },
            expression: expr.to_string(),
            name: None,
            deleted,
        });
    }
    clear_legacy_dimension_locks(&mut doc);
    assert!(!doc.rects[0].height_locked);
    assert_eq!(doc.rects[0].height_expr, None);
    sync_legacy_dimension_flags_from_constraints(&mut doc);
    assert!(doc.rects[0].width_locked);
    assert_eq!(doc.rects[0].width_expr.as_deref(), Some("second"));
    assert!(!doc.rects[0].height_locked);
    doc.rects[0].deleted = true;
    clear_legacy_dimension_locks(&mut doc);
    sync_legacy_dimension_flags_from_constraints(&mut doc);
    assert!(!doc.rects[0].width_locked);
}
