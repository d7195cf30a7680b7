//! Geometric (non-dimensional) constraint types offered in the context pane.

use vstd::prelude::*;
use crate::model::{ConstraintLine, ConstraintPoint};
use crate::selection::{SceneElement, SceneSelection};

verus! {

#[derive(Clone, Copy, Debug, PartialEq, Eq, Hash, Structural)]
pub enum GeometricConstraintType {
    Coincident,
    Horizontal,
    Vertical,
    Parallel,
    Perpendicular,
    Equal,
    Midpoint,
}

/// All geometric constraint types, in pane order.
pub open spec fn all_constraint_types() -> Seq<GeometricConstraintType> {
    seq![
        GeometricConstraintType::Coincident,
        GeometricConstraintType::Horizontal,
        GeometricConstraintType::Vertical,
        GeometricConstraintType::Parallel,
        GeometricConstraintType::Perpendicular,
        GeometricConstraintType::Equal,
        GeometricConstraintType::Midpoint,
    ]
}

pub open spec fn spec_constraint_type_label(kind: GeometricConstraintType) -> Seq<char> {
    match kind {
        GeometricConstraintType::Coincident => "Coincident"@,
        GeometricConstraintType::Horizontal => "Horizontal"@,
        GeometricConstraintType::Vertical => "Vertical"@,
        GeometricConstraintType::Parallel => "Parallel"@,
        GeometricConstraintType::Perpendicular => "Perpendicular"@,
        GeometricConstraintType::Equal => "Equal"@,
        GeometricConstraintType::Midpoint => "Midpoint"@,
    }
}

impl GeometricConstraintType {
    /// All geometric constraint types, in pane order.
    pub fn all() -> (r: Vec<GeometricConstraintType>)
        ensures
            r@ == all_constraint_types(),
    {
        let v = vec![
            GeometricConstraintType::Coincident,
            GeometricConstraintType::Horizontal,
            GeometricConstraintType::Vertical,
            GeometricConstraintType::Parallel,
            GeometricConstraintType::Perpendicular,
            GeometricConstraintType::Equal,
            GeometricConstraintType::Midpoint,
        ];
        assert(v@ =~= all_constraint_types());
        v
    }

    pub fn label(self) -> (r: &'static str)
        ensures
            r@ == spec_constraint_type_label(self),
    {
        match self {
            GeometricConstraintType::Coincident => "Coincident",
            GeometricConstraintType::Horizontal => "Horizontal",
            GeometricConstraintType::Vertical => "Vertical",
            GeometricConstraintType::Parallel => "Parallel",
            GeometricConstraintType::Perpendicular => "Perpendicular",
            GeometricConstraintType::Equal => "Equal",
            GeometricConstraintType::Midpoint => "Midpoint",
        }
    }
}

/// One row of the constraint list in the context pane.
#[derive(Clone, Copy, Debug, PartialEq, Eq, Structural)]
pub struct ConstraintPaneRow {
    pub kind: GeometricConstraintType,
}

/// One row per geometric constraint type, in pane order.
pub fn constraint_pane_rows() -> (r: Vec<ConstraintPaneRow>)
    ensures
        r@.len() == all_constraint_types().len(),
        forall|i: int| 0 <= i < r@.len() ==> (#[trigger] r@[i]).kind == all_constraint_types()[i],
{
    let kinds = GeometricConstraintType::all();
    let mut rows: Vec<ConstraintPaneRow> = Vec::new();
    let mut i: usize = 0;
    while i < kinds.len()
        invariant
            kinds@ == all_constraint_types(),
            i <= kinds@.len(),
            rows@.len() == i,
            forall|j: int| 0 <= j < i ==> (#[trigger] rows@[j]).kind == kinds@[j],
        decreases kinds@.len() - i,
    {
        rows.push(ConstraintPaneRow { kind: kinds[i] });
        i = i + 1;
    }
    rows
}


/// A sketch entity a constraint can reference.
#[derive(Clone, Copy, Debug, PartialEq, Eq, Hash, Structural)]
pub enum ConstraintRef {
    Point(ConstraintPoint),
    Line(ConstraintLine),
    Circle(usize),
}

/// The constraint reference a scene element stands for: lines and rectangle edges are
/// lines, sketch points are points, circles are circles; other elements stand for none.
pub open spec fn element_constraint_ref(element: SceneElement) -> Option<ConstraintRef> {
    match element {
        SceneElement::Line(i) => Some(ConstraintRef::Line(ConstraintLine::Line(i))),
        SceneElement::RectEdge(rect, edge) => Some(ConstraintRef::Line(ConstraintLine::RectEdge { rect, edge })),
        SceneElement::Point(p) => Some(ConstraintRef::Point(p)),
        SceneElement::Circle(i) => Some(ConstraintRef::Circle(i)),
        _ => None,
    }
}

/// The references of the elements of `s` that stand for one, in order.
pub open spec fn spec_constraint_refs(s: Seq<SceneElement>) -> Seq<ConstraintRef>
    decreases s.len(),
{
    if s.len() == 0 {
        Seq::empty()
    } else {
        let rest = spec_constraint_refs(s.drop_last());
        match element_constraint_ref(s.last()) {
            Some(r) => rest.push(r),
            None => rest,
        }
    }
}

fn element_ref(element: SceneElement) -> (r: Option<ConstraintRef>)
    ensures
        r == element_constraint_ref(element),
{
    match element {
        SceneElement::Line(i) => Some(ConstraintRef::Line(ConstraintLine::Line(i))),
        SceneElement::RectEdge(rect, edge) => Some(ConstraintRef::Line(ConstraintLine::RectEdge { rect, edge })),
        SceneElement::Point(p) => Some(ConstraintRef::Point(p)),
        SceneElement::Circle(i) => Some(ConstraintRef::Circle(i)),
        _ => None,
    }
}

/// The selected elements that constraints can reference, in selection order.
pub fn selected_constraint_refs(selection: &SceneSelection) -> (r: Vec<ConstraintRef>)
    ensures
        r@ == spec_constraint_refs(selection@),
{
    let elements = selection.elements();
    let mut out: Vec<ConstraintRef> = Vec::new();
    let mut i: usize = 0;
    while i < elements.len()
        invariant
            elements@ == selection@,
            i <= elements@.len(),
            out@ == spec_constraint_refs(elements@.subrange(0, i as int)),
        decreases elements@.len() - i,
    {
        proof {
            assert(elements@.subrange(0, i + 1).drop_last() =~= elements@.subrange(0, i as int));
        }
        match element_ref(elements[i]) {
            Some(r) => out.push(r),
            None => {},
        }
        i = i + 1;
    }
    proof {
        assert(elements@.subrange(0, elements@.len() as int) =~= elements@);
    }
    out
}

} // verus!
