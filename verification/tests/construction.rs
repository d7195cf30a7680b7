use bearcad::construction::{
    descendant_faces, descendant_plane_indices, sketch_from_pick_target, GlobalAxis,
    PickTargetKind,
};
use bearcad::model::{
    Circle, ConstraintPoint, ConstructionPlane, ConstructionPlaneParent, Document, FaceId, Rect,
};

fn plane(parent: ConstructionPlaneParent) -> ConstructionPlane {
    ConstructionPlane {
        parent,
        name: None,
        deleted: false,
    }
}

#[test]
fn descendants_follow_sketches_planes_and_circles() {
    let mut doc = Document::default();
    doc.construction_planes.push(plane(ConstructionPlaneParent::Root));
    let s0 = doc.add_sketch(FaceId::ConstructionPlane(0));
    doc.construction_planes.push(plane(ConstructionPlaneParent::Sketch(s0)));
    let s1 = doc.add_sketch(FaceId::ConstructionPlane(1));
    doc.circles.push(Circle {
        sketch: s1,
        construction: false,
        name: None,
        deleted: false,
        diameter_locked: false,
        diameter_expr: None,
    });
    let _s2 = doc.add_sketch(FaceId::Circle(0));
    doc.construction_planes.push(plane(ConstructionPlaneParent::Root));

    let mut faces = descendant_faces(&doc, 0);
    assert_eq!(faces[0], FaceId::ConstructionPlane(0));
    faces.sort_by_key(|f| format!("{f:?}"));
    assert_eq!(
        faces,
        vec![
            FaceId::Circle(0),
            FaceId::ConstructionPlane(0),
            FaceId::ConstructionPlane(1),
        ]
    );
    assert_eq!(descendant_plane_indices(&doc, 0), vec![1]);
    assert_eq!(descendant_plane_indices(&doc, 2), Vec::<usize>::new());
    assert_eq!(descendant_faces(&doc, 2), vec![FaceId::ConstructionPlane(2)]);
}

#[test]
fn descendants_of_missing_plane_are_just_itself() {
    let doc = Document::default();
    assert_eq!(descendant_faces(&doc, 7), vec![FaceId::ConstructionPlane(7)]);
    assert!(descendant_plane_indices(&doc, 7).is_empty());
}

#[test]
fn self_parented_plane_is_its_own_descendant_once() {
    let mut doc = Document::default();
    doc.construction_planes.push(plane(ConstructionPlaneParent::Sketch(0)));
    let _s = doc.add_sketch(FaceId::ConstructionPlane(0));
    assert_eq!(descendant_faces(&doc, 0), vec![FaceId::ConstructionPlane(0)]);
    assert_eq!(descendant_plane_indices(&doc, 0), vec![0]);
}

fn doc_with_plane_sketch() -> (bearcad::model::Document, usize) {
    let mut doc = bearcad::model::Document::default();
    let sketch = doc.add_sketch(bearcad::model::FaceId::ConstructionPlane(0));
    (doc, sketch)
}

#[test]
fn parent_from_line_pick_is_owning_sketch() {
    let (mut doc, sketch) = doc_with_plane_sketch();
    doc.lines = vec![bearcad::model::Line {
        sketch,
        construction: false,
        name: None,
        deleted: false,
        length_locked: false,
        length_expr: None,
    }];
    assert_eq!(
        bearcad::construction::parent_from_pick_target(
            &doc,
            bearcad::construction::PickTargetKind::Line(0)
        ),
        bearcad::model::ConstructionPlaneParent::Sketch(sketch)
    );
}

#[test]
fn parent_from_ground_pick_is_root() {
    let doc = bearcad::model::Document::default();
    assert_eq!(
        bearcad::construction::parent_from_pick_target(
            &doc,
            bearcad::construction::PickTargetKind::Ground
        ),
        bearcad::model::ConstructionPlaneParent::Root
    );
}

#[test]
fn picked_points_and_planes_name_their_sketch() {
    let (mut doc, sketch) = doc_with_plane_sketch();
    doc.rects.push(Rect {
        sketch,
        name: None,
        deleted: false,
        width_locked: false,
        width_expr: None,
        height_locked: false,
        height_expr: None,
        bottom_construction: false,
        right_construction: false,
        top_construction: false,
        left_construction: false,
    });
    doc.construction_planes.push(ConstructionPlane {
        parent: ConstructionPlaneParent::Sketch(sketch),
        name: None,
        deleted: false,
    });
    doc.construction_planes.push(ConstructionPlane {
        parent: ConstructionPlaneParent::Root,
        name: None,
        deleted: false,
    });
    let corner = ConstraintPoint::RectCorner { rect: 0, corner: 2 };
    assert_eq!(sketch_from_pick_target(&doc, PickTargetKind::Point(corner)), Some(sketch));
    assert_eq!(sketch_from_pick_target(&doc, PickTargetKind::ConstructionPlane(0)), Some(sketch));
    assert_eq!(sketch_from_pick_target(&doc, PickTargetKind::ConstructionPlane(1)), None);
    assert_eq!(sketch_from_pick_target(&doc, PickTargetKind::Circle(0)), None);
    assert_eq!(
        sketch_from_pick_target(&doc, PickTargetKind::GlobalAxis(GlobalAxis::Z)),
        None
    );
}
