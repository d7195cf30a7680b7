//! User-given names of scene elements.

use vstd::prelude::*;
use crate::model::Document;
use crate::selection::{SceneElement, SceneSelection};

verus! {

/// The stored name of `element`, if it has one (rectangle edges and points have none).
pub open spec fn spec_element_name(doc: Document, element: SceneElement) -> Option<Seq<char>> {
    match element {
        SceneElement::ConstructionPlane(i) => if i < doc.construction_planes@.len()
            && doc.construction_planes@[i as int].name is Some {
            Some(doc.construction_planes@[i as int].name->Some_0@)
        } else {
            None
        },
        SceneElement::Sketch(i) => if i < doc.sketches@.len() && doc.sketches@[i as int].name is Some {
            Some(doc.sketches@[i as int].name->Some_0@)
        } else {
            None
        },
        SceneElement::Rect(i) => if i < doc.rects@.len() && doc.rects@[i as int].name is Some {
            Some(doc.rects@[i as int].name->Some_0@)
        } else {
            None
        },
        SceneElement::Line(i) => if i < doc.lines@.len() && doc.lines@[i as int].name is Some {
            Some(doc.lines@[i as int].name->Some_0@)
        } else {
            None
        },
        SceneElement::Circle(i) => if i < doc.circles@.len() && doc.circles@[i as int].name is Some {
            Some(doc.circles@[i as int].name->Some_0@)
        } else {
            None
        },
        SceneElement::Constraint(i) => if i < doc.constraints@.len()
            && doc.constraints@[i as int].name is Some {
            Some(doc.constraints@[i as int].name->Some_0@)
        } else {
            None
        },
        SceneElement::Extrusion(i) => if i < doc.extrusions@.len()
            && doc.extrusions@[i as int].name is Some {
            Some(doc.extrusions@[i as int].name->Some_0@)
        } else {
            None
        },
        SceneElement::Body(i) => if i < doc.bodies@.len() && doc.bodies@[i as int].name is Some {
            Some(doc.bodies@[i as int].name->Some_0@)
        } else {
            None
        },
        SceneElement::RectEdge(..) | SceneElement::Point(_) => None,
    }
}

fn name_of(name: &Option<String>) -> (r: Option<&str>)
    ensures
        r is Some <==> name is Some,
        r is Some ==> r->Some_0@ == name->Some_0@,
{
    match name {
        Some(n) => Some(n.as_str()),
        None => None,
    }
}

pub fn element_name(doc: &Document, element: SceneElement) -> (r: Option<&str>)
    ensures
        r is Some <==> spec_element_name(*doc, element) is Some,
        r is Some ==> r->Some_0@ == spec_element_name(*doc, element)->Some_0,
{
    match element {
        SceneElement::ConstructionPlane(i) => if i < doc.construction_planes.len() {
            name_of(&doc.construction_planes[i].name)
        } else {
            None
        },
        SceneElement::Sketch(i) => if i < doc.sketches.len() {
            name_of(&doc.sketches[i].name)
        } else {
            None
        },
        SceneElement::Rect(i) => if i < doc.rects.len() {
            name_of(&doc.rects[i].name)
        } else {
            None
        },
        SceneElement::Line(i) => if i < doc.lines.len() {
            name_of(&doc.lines[i].name)
        } else {
            None
        },
        SceneElement::Circle(i) => if i < doc.circles.len() {
            name_of(&doc.circles[i].name)
        } else {
            None
        },
        SceneElement::Constraint(i) => if i < doc.constraints.len() {
            name_of(&doc.constraints[i].name)
        } else {
            None
        },
        SceneElement::Extrusion(i) => if i < doc.extrusions.len() {
            name_of(&doc.extrusions[i].name)
        } else {
            None
        },
        SceneElement::Body(i) => if i < doc.bodies.len() {
            name_of(&doc.bodies[i].name)
        } else {
            None
        },
        SceneElement::RectEdge(..) | SceneElement::Point(_) => None,
    }
}

/// Elements that carry a name.
pub open spec fn is_nameable(element: SceneElement) -> bool {
    !(element is RectEdge || element is Point)
}

/// The one selected element, when exactly one nameable element is selected.
pub fn single_nameable_from_selection(selection: &SceneSelection) -> (r: Option<SceneElement>)
    ensures
        r == (if selection@.len() == 1 && is_nameable(selection@[0]) {
            Some(selection@[0])
        } else {
            None::<SceneElement>
        }),
{
    match selection.single() {
        Some(element) => match element {
            SceneElement::RectEdge(..) | SceneElement::Point(_) => None,
            other => Some(other),
        },
        None => None,
    }
}

} // verus!
