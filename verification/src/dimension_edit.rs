//! Editing sketch dimensions from the editor: opening the text field of a dimension, and
//! committing or refusing the typed expression. Measuring default values and defining inline
//! parameters stay with the application, which hands in their results.

use vstd::prelude::*;
use crate::actions::{
    committed_dim_expression, constraint_is_circle_diameter, constraint_is_line_length,
    constraint_matches_rect_axis, dimension_target_status_label, spec_dimension_target_status_label,
    spec_is_circle_diameter, spec_is_line_length, spec_matches_rect_axis, ActionResult, DimEditTarget,
    EditingCommittedDim, RectAxis, RectDraft, SegmentDraft, Tool,
};
use crate::constraints::{
    apply_dimension_expression, dimension_applied, dimension_applied_error, dimension_edit_from_selection,
    dimension_constraint_matches, expression_replaced, find_dimension_constraint, result_matches,
    set_constraint_expression, set_expression_error, spec_dimension_edit_from_selection,
    DimensionFacts,
};
use crate::document_health::{
    constraint_edit_error, dimension_target_error, first_dimension_constraint,
    require_constraint_editable, require_dimension_target_editable,
};
use crate::editor::{failed_with, EditorState};
use crate::model::{DimensionTarget, DistanceTarget, Document, SketchId};
use crate::text::{push_str, string_of, trimmed};

verus! {

/// The edit target for `target`: the constraint already on it, else a new dimension.
pub open spec fn edit_target_for(doc: Document, target: DimensionTarget) -> DimEditTarget {
    match first_dimension_constraint(doc, target) {
        Some(i) => DimEditTarget::Constraint(i as usize),
        None => DimEditTarget::New(target),
    }
}

/// The status line while dimension `target` is being typed.
pub open spec fn dimension_edit_status(target: DimensionTarget) -> Seq<char> {
    "Dimension "@ + spec_dimension_target_status_label(target) + " \u{2022} type "@ + (match target {
        DimensionTarget::Distance(_) => "length"@,
        DimensionTarget::Angle { .. } => "angle"@,
    }) + " \u{2022} Enter commit \u{2022} Esc cancel"@
}

/// `b` is `a` after opening the text field of dimension `target`, unless no sketch is open or
/// the dimension is frozen. An existing constraint shows its expression; a new dimension
/// shows `default_text`.
pub open spec fn dimension_edit_started(
    a: EditorState,
    b: EditorState,
    target: DimensionTarget,
    default_text: Seq<char>,
) -> bool {
    if a.sketch_session is None || dimension_target_error(a.health, a.doc, target) is Some {
        b == a
    } else {
        let edit_target = edit_target_for(a.doc, target);
        let edit = b.editing_committed_dim->Some_0;
        &&& b == (EditorState { editing_committed_dim: b.editing_committed_dim, status: b.status, ..a })
        &&& b.editing_committed_dim is Some
        &&& edit.target == edit_target
        &&& edit.pending_focus
        &&& edit.text@ == (match edit_target {
            DimEditTarget::Constraint(i) => a.doc.constraints@[i as int].expression@,
            DimEditTarget::New(_) => default_text,
        })
        &&& b.status@ == dimension_edit_status(target)
    }
}

/// The first constraint found on a dimension target is the first that matches.
proof fn lemma_found_dimension_constraint(doc: Document, target: DimensionTarget, found: Option<usize>)
    requires
        found is Some ==> {
            let i = found->Some_0 as int;
            &&& dimension_constraint_matches(doc, target, i)
            &&& forall|j: int| 0 <= j < i ==> !#[trigger] dimension_constraint_matches(doc, target, j)
        },
        found is None ==> forall|j: int| !#[trigger] dimension_constraint_matches(doc, target, j),
    ensures
        match found {
            Some(i) => first_dimension_constraint(doc, target) == Some(i as int),
            None => first_dimension_constraint(doc, target) is None,
        },
{
    match found {
        Some(i) => {
            let k = i as int;
            assert(dimension_constraint_matches(doc, target, k) && forall|j: int|
                0 <= j < k ==> !#[trigger] dimension_constraint_matches(doc, target, j));
            let c = choose|c: int| #[trigger] dimension_constraint_matches(doc, target, c) && forall|j: int|
                0 <= j < c ==> !#[trigger] dimension_constraint_matches(doc, target, j);
            if c < k {
                assert(!dimension_constraint_matches(doc, target, c));
            } else if k < c {
                assert(!dimension_constraint_matches(doc, target, k));
            }
        },
        None => {},
    }
}

fn dimension_edit_status_text(target: DimensionTarget) -> (r: String)
    ensures
        r@ == dimension_edit_status(target),
{
    let mut s = string_of("Dimension ");
    let what = dimension_target_status_label(target);
    push_str(&mut s, what.as_str());
    push_str(&mut s, " \u{2022} type ");
    match target {
        DimensionTarget::Distance(_) => push_str(&mut s, "length"),
        DimensionTarget::Angle { .. } => push_str(&mut s, "angle"),
    }
    push_str(&mut s, " \u{2022} Enter commit \u{2022} Esc cancel");
    s
}

/// Apply the typed `expression` to the dimension being edited: the existing constraint's
/// expression, or a new dimension added from `facts`.
pub fn apply_committed_dim_expression(
    doc: &mut Document,
    sketch: SketchId,
    target: DimEditTarget,
    expression: &str,
    facts: &DimensionFacts,
) -> (r: Result<(), String>)
    ensures
        match target {
            DimEditTarget::Constraint(id) => {
                &&& result_matches(r, set_expression_error(*old(doc), id, expression@, facts.value_ok))
                &&& r is Ok ==> expression_replaced(*old(doc), *final(doc), id as int, trimmed(expression@))
                &&& r is Err ==> *final(doc) == *old(doc)
            },
            DimEditTarget::New(t) => dimension_applied(*old(doc), *final(doc), sketch, t, expression@, *facts, r),
        },
{
    match target {
        DimEditTarget::Constraint(id) => set_constraint_expression(doc, id, expression, facts.value_ok),
        DimEditTarget::New(t) => apply_dimension_expression(doc, sketch, t, expression, facts),
    }
}

impl EditorState {
    /// Open the text field of dimension `target` in the open sketch; `default_text` is the
    /// formatted measurement a new dimension starts from.
    pub fn start_committed_dimension_edit(&mut self, target: DimensionTarget, default_text: &str)
        ensures
            dimension_edit_started(*old(self), *final(self), target, default_text@),
    {
        if self.sketch_session.is_none() {
            return;
        }
        match require_dimension_target_editable(&self.health, &self.doc, target) {
            Err(_) => {
                return;
            },
            Ok(()) => {},
        }
        let found = find_dimension_constraint(&self.doc, target);
        proof {
            lemma_found_dimension_constraint(self.doc, target, found);
        }
        let (edit_target, text) = match found {
            Some(id) => {
                let text = match committed_dim_expression(&self.doc, id) {
                    Some(t) => t,
                    None => string_of(default_text),
                };
                (DimEditTarget::Constraint(id), text)
            },
            None => (DimEditTarget::New(target), string_of(default_text)),
        };
        self.editing_committed_dim = Some(EditingCommittedDim { target: edit_target, text, pending_focus: true });
        self.status = dimension_edit_status_text(target);
    }

    /// Open the text field of the dimension the selection calls for, when a sketch is open
    /// and the selection calls for one; `facts` reports the selected pair's geometry and
    /// `default_text` the formatted measurement a new dimension starts from.
    pub fn try_begin_dimension_from_selection(&mut self, facts: &DimensionFacts, default_text: &str) -> (began: bool)
        ensures
            match old(self).sketch_session {
                None => !began && *final(self) == *old(self),
                Some(session) => match spec_dimension_edit_from_selection(
                    old(self).doc,
                    session.sketch,
                    old(self).selection@,
                    *facts,
                ) {
                    None => !began && *final(self) == *old(self),
                    Some(target) => began && dimension_edit_started(*old(self), *final(self), target, default_text@),
                },
            },
    {
        let session = match self.sketch_session {
            Some(s) => s,
            None => {
                return false;
            },
        };
        match dimension_edit_from_selection(&self.doc, session.sketch, &self.selection, facts) {
            None => false,
            Some(target) => {
                self.start_committed_dimension_edit(target, default_text);
                true
            },
        }
    }

    /// Open the text field of committed dimension `target` (a constraint).
    pub fn begin_edit_committed_dim(&mut self, target: usize) -> (r: ActionResult)
        ensures
            !(old(self).sketch_session is Some && old(self).creating_rect is None && old(self).creating_line is None
                && old(self).creating_circle is None) ==> {
                &&& failed_with(r, "Open a sketch and finish the current draw operation to edit dimensions"@)
                &&& *final(self) == *old(self)
            },
            (old(self).sketch_session is Some && old(self).creating_rect is None && old(self).creating_line is None
                && old(self).creating_circle is None) ==> match constraint_edit_error(old(self).health, old(self).doc, target) {
                Some(m) => failed_with(r, m) && *final(self) == *old(self),
                None => if target >= old(self).doc.constraints@.len() {
                    failed_with(r, "Dimension is not editable"@) && *final(self) == *old(self)
                } else {
                    let edit = final(self).editing_committed_dim->Some_0;
                    &&& r is Applied
                    &&& *final(self) == (EditorState {
                        editing_committed_dim: final(self).editing_committed_dim,
                        status: final(self).status,
                        ..*old(self)
                    })
                    &&& final(self).editing_committed_dim is Some
                    &&& edit.target == DimEditTarget::Constraint(target)
                    &&& edit.text@ == old(self).doc.constraints@[target as int].expression@
                    &&& edit.pending_focus
                    &&& final(self).status@ == "Edit dimension \u{2022} Enter to commit \u{2022} Esc to cancel"@
                },
            },
    {
        if !self.can_edit_sketch_dimensions() {
            return ActionResult::Failed(
                string_of("Open a sketch and finish the current draw operation to edit dimensions"),
            );
        }
        match require_constraint_editable(&self.health, &self.doc, target) {
            Err(e) => {
                return ActionResult::Failed(e);
            },
            Ok(()) => {},
        }
        let text = match committed_dim_expression(&self.doc, target) {
            Some(t) => t,
            None => {
                return ActionResult::Failed(string_of("Dimension is not editable"));
            },
        };
        self.editing_committed_dim = Some(
            EditingCommittedDim { target: DimEditTarget::Constraint(target), text, pending_focus: true },
        );
        self.status = string_of("Edit dimension \u{2022} Enter to commit \u{2022} Esc to cancel");
        ActionResult::Applied
    }

    /// Open the text field of dimension `target` with the dimension tool.
    pub fn begin_dimension_edit(&mut self, target: DimensionTarget, default_text: &str) -> (r: ActionResult)
        ensures
            old(self).sketch_session is None ==> failed_with(r, "Not in sketch mode"@) && *final(self) == *old(self),
            old(self).sketch_session is Some && old(self).tool != Tool::Dimension ==> failed_with(
                r,
                "Dimension tool required"@,
            ) && *final(self) == *old(self),
            old(self).sketch_session is Some && old(self).tool == Tool::Dimension ==> r is Applied
                && dimension_edit_started(*old(self), *final(self), target, default_text@),
    {
        if self.sketch_session.is_none() {
            return ActionResult::Failed(string_of("Not in sketch mode"));
        }
        if self.tool != Tool::Dimension {
            return ActionResult::Failed(string_of("Dimension tool required"));
        }
        self.start_committed_dimension_edit(target, default_text);
        ActionResult::Applied
    }
}


/// Why the dimension being edited cannot be committed now: it is frozen (the constraint or
/// the geometry it dimensions).
pub open spec fn edit_frozen_error(a: EditorState, edit: EditingCommittedDim) -> Option<Seq<char>> {
    match edit.target {
        DimEditTarget::Constraint(id) => constraint_edit_error(a.health, a.doc, id),
        DimEditTarget::New(t) => dimension_target_error(a.health, a.doc, t),
    }
}

impl EditorState {
    /// First half of committing the dimension being edited: check that a sketch is open, a
    /// dimension is being edited and it is not frozen, and take the edit out of the state.
    /// The caller defines any inline parameter in the typed text, then finishes the commit.
    pub fn take_committed_dim_for_commit(&mut self) -> (r: Result<(SketchId, EditingCommittedDim), String>)
        ensures
            old(self).sketch_session is None ==> r is Err && r->Err_0@ == "Not in sketch mode"@
                && *final(self) == *old(self),
            old(self).sketch_session is Some && old(self).editing_committed_dim is None ==> r is Err
                && r->Err_0@ == "No committed dimension being edited"@ && *final(self) == *old(self),
            old(self).sketch_session is Some && old(self).editing_committed_dim is Some ==> match edit_frozen_error(
                *old(self),
                old(self).editing_committed_dim->Some_0,
            ) {
                Some(m) => r is Err && r->Err_0@ == m && *final(self) == *old(self),
                None => {
                    &&& r is Ok
                    &&& r->Ok_0.0 == old(self).sketch_session->Some_0.sketch
                    &&& r->Ok_0.1 == old(self).editing_committed_dim->Some_0
                    &&& *final(self) == (EditorState { editing_committed_dim: None, ..*old(self) })
                },
            },
    {
        let sketch = match self.sketch_session {
            Some(s) => s.sketch,
            None => {
                return Err(string_of("Not in sketch mode"));
            },
        };
        let frozen = match &self.editing_committed_dim {
            None => {
                return Err(string_of("No committed dimension being edited"));
            },
            Some(edit) => match edit.target {
                DimEditTarget::Constraint(id) => require_constraint_editable(&self.health, &self.doc, id),
                DimEditTarget::New(t) => require_dimension_target_editable(&self.health, &self.doc, t),
            },
        };
        match frozen {
            Err(e) => Err(e),
            Ok(()) => match self.editing_committed_dim.take() {
                Some(edit) => Ok((sketch, edit)),
                None => Err(string_of("No committed dimension being edited")),
            },
        }
    }

    /// Second half of committing: `text` is the typed text after its inline parameter
    /// definition, or why that definition failed. On success the expression is applied and
    /// the status says so (the legacy dimension flags are refreshed with it; the caller then
    /// solves the geometry and refreshes the health); on
    /// failure the edit stays open and the status shows the reason.
    pub fn finish_committed_dim_commit(
        &mut self,
        sketch: SketchId,
        edit: EditingCommittedDim,
        text: Result<String, String>,
        facts: &DimensionFacts,
    ) -> (r: ActionResult)
        ensures
            match text {
                Err(e) => {
                    &&& failed_with(r, e@)
                    &&& *final(self) == (EditorState {
                        editing_committed_dim: Some(edit),
                        status: final(self).status,
                        ..*old(self)
                    })
                    &&& final(self).status@ == e@
                },
                Ok(t) => {
                    let applied = match edit.target {
                        DimEditTarget::Constraint(id) => set_expression_error(old(self).doc, id, t@, facts.value_ok),
                        DimEditTarget::New(d) => dimension_applied_error(old(self).doc, sketch, d, t@, *facts),
                    };
                    match applied {
                        Some(m) => {
                            &&& failed_with(r, m)
                            &&& *final(self) == (EditorState {
                                editing_committed_dim: Some(edit),
                                status: final(self).status,
                                ..*old(self)
                            })
                            &&& final(self).status@ == m
                        },
                        None => {
                            &&& r is Applied
                            &&& *final(self) == (EditorState { doc: final(self).doc, status: final(self).status, ..*old(self) })
                            &&& final(self).status@ == "Updated dimension"@
                            &&& match edit.target {
                                DimEditTarget::Constraint(id) => expression_replaced(
                                    old(self).doc,
                                    final(self).doc,
                                    id as int,
                                    trimmed(t@),
                                ),
                                DimEditTarget::New(d) => dimension_applied(
                                    old(self).doc,
                                    final(self).doc,
                                    sketch,
                                    d,
                                    t@,
                                    *facts,
                                    Ok(()),
                                ),
                            }
                        },
                    }
                },
            },
    {
        let t = match text {
            Err(e) => {
                self.editing_committed_dim = Some(edit);
                self.status = e.clone();
                return ActionResult::Failed(e);
            },
            Ok(t) => t,
        };
        match apply_committed_dim_expression(&mut self.doc, sketch, edit.target, t.as_str(), facts) {
            Ok(()) => {
                self.status = string_of("Updated dimension");
                ActionResult::Applied
            },
            Err(e) => {
                self.editing_committed_dim = Some(edit);
                self.status = e.clone();
                ActionResult::Failed(e)
            },
        }
    }
}


/// Which dimension field a typed value or a focus request is for.
#[derive(Clone, Copy, Debug, PartialEq, Eq, Structural)]
pub enum DimensionField {
    Rect(RectAxis),
    LineLength,
    CircleDiameter,
}

/// The dimension being edited is the one shown in `field`.
pub open spec fn edit_shows_field(doc: Document, target: DimEditTarget, field: DimensionField) -> bool {
    match (target, field) {
        (DimEditTarget::Constraint(id), DimensionField::Rect(axis)) => spec_matches_rect_axis(doc, id, axis),
        (DimEditTarget::Constraint(id), DimensionField::LineLength) => spec_is_line_length(doc, id),
        (DimEditTarget::Constraint(id), DimensionField::CircleDiameter) => spec_is_circle_diameter(doc, id),
        (DimEditTarget::New(DimensionTarget::Distance(t)), DimensionField::Rect(axis)) => (t is RectWidth
            && axis == RectAxis::Width) || (t is RectHeight && axis == RectAxis::Height),
        (DimEditTarget::New(DimensionTarget::Distance(t)), DimensionField::LineLength) => t is LineLength,
        (DimEditTarget::New(DimensionTarget::Distance(t)), DimensionField::CircleDiameter) => t is CircleDiameter,
        (DimEditTarget::New(_), _) => false,
    }
}

fn edit_shows_field_exec(doc: &Document, target: DimEditTarget, field: DimensionField) -> (r: bool)
    ensures
        r == edit_shows_field(*doc, target, field),
{
    match (target, field) {
        (DimEditTarget::Constraint(id), DimensionField::Rect(axis)) => constraint_matches_rect_axis(doc, id, axis),
        (DimEditTarget::Constraint(id), DimensionField::LineLength) => constraint_is_line_length(doc, id),
        (DimEditTarget::Constraint(id), DimensionField::CircleDiameter) => constraint_is_circle_diameter(doc, id),
        (DimEditTarget::New(DimensionTarget::Distance(t)), DimensionField::Rect(axis)) => match (t, axis) {
            (DistanceTarget::RectWidth(_), RectAxis::Width) => true,
            (DistanceTarget::RectHeight(_), RectAxis::Height) => true,
            _ => false,
        },
        (DimEditTarget::New(DimensionTarget::Distance(t)), DimensionField::LineLength) => match t {
            DistanceTarget::LineLength(_) => true,
            _ => false,
        },
        (DimEditTarget::New(DimensionTarget::Distance(t)), DimensionField::CircleDiameter) => match t {
            DistanceTarget::CircleDiameter(_) => true,
            _ => false,
        },
        (DimEditTarget::New(_), _) => false,
    }
}

/// The edited dimension is shown in `field`.
pub open spec fn editing_field(s: EditorState, field: DimensionField) -> bool {
    s.editing_committed_dim is Some && edit_shows_field(s.doc, s.editing_committed_dim->Some_0.target, field)
}

/// Why no drawing takes a value typed into `field`.
pub open spec fn no_drawing_message(field: DimensionField) -> Seq<char> {
    match field {
        DimensionField::Rect(_) => "No rectangle in progress"@,
        DimensionField::LineLength => "No line in progress"@,
        DimensionField::CircleDiameter => "No circle in progress"@,
    }
}

/// There is a drawing in progress with `field`.
pub open spec fn drawing_has_field(s: EditorState, field: DimensionField) -> bool {
    match field {
        DimensionField::Rect(_) => s.creating_rect is Some,
        DimensionField::LineLength => s.creating_line is Some,
        DimensionField::CircleDiameter => s.creating_circle is Some,
    }
}

/// `b` is `a` after typing `text` into `field`: the edited dimension takes it when it is
/// shown there, else the drawing in progress (which marks the field as typed into).
pub open spec fn field_typed(a: EditorState, b: EditorState, field: DimensionField, text: Seq<char>, r: ActionResult) -> bool {
    if editing_field(a, field) {
        let e = a.editing_committed_dim->Some_0;
        &&& r is Applied
        &&& b == (EditorState { editing_committed_dim: b.editing_committed_dim, ..a })
        &&& b.editing_committed_dim is Some
        &&& b.editing_committed_dim->Some_0 == (EditingCommittedDim { text: b.editing_committed_dim->Some_0.text, ..e })
        &&& b.editing_committed_dim->Some_0.text@ == text
    } else if !drawing_has_field(a, field) {
        failed_with(r, no_drawing_message(field)) && b == a
    } else {
        &&& r is Applied
        &&& match field {
            DimensionField::Rect(axis) => {
                let d = a.creating_rect->Some_0;
                let n = b.creating_rect->Some_0;
                &&& b == (EditorState { creating_rect: b.creating_rect, ..a })
                &&& b.creating_rect is Some
                &&& if axis == RectAxis::Width {
                    n == (RectDraft { width_text: n.width_text, width_edited: true, ..d }) && n.width_text@ == text
                } else {
                    n == (RectDraft { height_text: n.height_text, height_edited: true, ..d }) && n.height_text@ == text
                }
            },
            DimensionField::LineLength => {
                let d = a.creating_line->Some_0;
                let n = b.creating_line->Some_0;
                &&& b == (EditorState { creating_line: b.creating_line, ..a })
                &&& b.creating_line is Some
                &&& n == (SegmentDraft { text: n.text, user_edited: true, ..d })
                &&& n.text@ == text
            },
            DimensionField::CircleDiameter => {
                let d = a.creating_circle->Some_0;
                let n = b.creating_circle->Some_0;
                &&& b == (EditorState { creating_circle: b.creating_circle, ..a })
                &&& b.creating_circle is Some
                &&& n == (SegmentDraft { text: n.text, user_edited: true, ..d })
                &&& n.text@ == text
            },
        }
    }
}

/// `b` is `a` after asking `field` to take keyboard focus: the edited dimension's field when
/// it is shown there, else the drawing's field (a rectangle also moves its focus to `axis`).
pub open spec fn field_focused(a: EditorState, b: EditorState, field: DimensionField, r: ActionResult) -> bool {
    if editing_field(a, field) {
        let e = a.editing_committed_dim->Some_0;
        &&& r is Applied
        &&& b == (EditorState { editing_committed_dim: Some(EditingCommittedDim { pending_focus: true, ..e }), ..a })
    } else if !drawing_has_field(a, field) {
        failed_with(r, no_drawing_message(field)) && b == a
    } else {
        &&& r is Applied
        &&& match field {
            DimensionField::Rect(axis) => b == (EditorState {
                creating_rect: Some(
                    RectDraft {
                        focused: if axis == RectAxis::Width { 0 } else { 1 },
                        pending_focus: true,
                        ..a.creating_rect->Some_0
                    },
                ),
                ..a
            }),
            DimensionField::LineLength => b == (EditorState {
                creating_line: Some(SegmentDraft { pending_focus: true, ..a.creating_line->Some_0 }),
                ..a
            }),
            DimensionField::CircleDiameter => b == (EditorState {
                creating_circle: Some(SegmentDraft { pending_focus: true, ..a.creating_circle->Some_0 }),
                ..a
            }),
        }
    }
}

fn edit_with_text(e: Option<EditingCommittedDim>, text: String) -> (r: Option<EditingCommittedDim>)
    ensures
        match e {
            Some(x) => r is Some && r->Some_0 == (EditingCommittedDim { text: r->Some_0.text, ..x })
                && r->Some_0.text@ == text@,
            None => r is None,
        },
{
    match e {
        Some(x) => Some(EditingCommittedDim { text, ..x }),
        None => None,
    }
}

fn edit_with_focus(e: Option<EditingCommittedDim>) -> (r: Option<EditingCommittedDim>)
    ensures
        r == (match e {
            Some(x) => Some(EditingCommittedDim { pending_focus: true, ..x }),
            None => None,
        }),
{
    match e {
        Some(x) => Some(EditingCommittedDim { pending_focus: true, ..x }),
        None => None,
    }
}

fn rect_with_text(d: Option<RectDraft>, axis: RectAxis, text: String) -> (r: Option<RectDraft>)
    ensures
        match d {
            Some(x) => r is Some && if axis == RectAxis::Width {
                r->Some_0 == (RectDraft { width_text: r->Some_0.width_text, width_edited: true, ..x })
                    && r->Some_0.width_text@ == text@
            } else {
                r->Some_0 == (RectDraft { height_text: r->Some_0.height_text, height_edited: true, ..x })
                    && r->Some_0.height_text@ == text@
            },
            None => r is None,
        },
{
    match d {
        Some(x) => match axis {
            RectAxis::Width => Some(RectDraft { width_text: text, width_edited: true, ..x }),
            RectAxis::Height => Some(RectDraft { height_text: text, height_edited: true, ..x }),
        },
        None => None,
    }
}

fn rect_with_focus(d: Option<RectDraft>, axis: RectAxis) -> (r: Option<RectDraft>)
    ensures
        r == (match d {
            Some(x) => Some(
                RectDraft { focused: if axis == RectAxis::Width { 0 } else { 1 }, pending_focus: true, ..x },
            ),
            None => None,
        }),
{
    match d {
        Some(x) => Some(RectDraft { focused: axis.index(), pending_focus: true, ..x }),
        None => None,
    }
}

fn segment_with_text(d: Option<SegmentDraft>, text: String) -> (r: Option<SegmentDraft>)
    ensures
        match d {
            Some(x) => r is Some && r->Some_0 == (SegmentDraft { text: r->Some_0.text, user_edited: true, ..x })
                && r->Some_0.text@ == text@,
            None => r is None,
        },
{
    match d {
        Some(x) => Some(SegmentDraft { text, user_edited: true, ..x }),
        None => None,
    }
}

fn segment_with_focus(d: Option<SegmentDraft>) -> (r: Option<SegmentDraft>)
    ensures
        r == (match d {
            Some(x) => Some(SegmentDraft { pending_focus: true, ..x }),
            None => None,
        }),
{
    match d {
        Some(x) => Some(SegmentDraft { pending_focus: true, ..x }),
        None => None,
    }
}

impl EditorState {
    /// Type `text` into a dimension field.
    pub fn set_dimension_text(&mut self, field: DimensionField, text: String) -> (r: ActionResult)
        ensures
            field_typed(*old(self), *final(self), field, text@, r),
    {
        let shows = match &self.editing_committed_dim {
            Some(edit) => edit_shows_field_exec(&self.doc, edit.target, field),
            None => false,
        };
        if shows {
            let e = self.editing_committed_dim.take();
            self.editing_committed_dim = edit_with_text(e, text);
            return ActionResult::Applied;
        }
        match field {
            DimensionField::Rect(axis) => {
                if self.creating_rect.is_none() {
                    return ActionResult::Failed(string_of("No rectangle in progress"));
                }
                let d = self.creating_rect.take();
                self.creating_rect = rect_with_text(d, axis, text);
            },
            DimensionField::LineLength => {
                if self.creating_line.is_none() {
                    return ActionResult::Failed(string_of("No line in progress"));
                }
                let d = self.creating_line.take();
                self.creating_line = segment_with_text(d, text);
            },
            DimensionField::CircleDiameter => {
                if self.creating_circle.is_none() {
                    return ActionResult::Failed(string_of("No circle in progress"));
                }
                let d = self.creating_circle.take();
                self.creating_circle = segment_with_text(d, text);
            },
        }
        ActionResult::Applied
    }

    /// Ask a dimension field to take keyboard focus.
    pub fn focus_dimension_field(&mut self, field: DimensionField) -> (r: ActionResult)
        ensures
            field_focused(*old(self), *final(self), field, r),
    {
        let shows = match &self.editing_committed_dim {
            Some(edit) => edit_shows_field_exec(&self.doc, edit.target, field),
            None => false,
        };
        if shows {
            let e = self.editing_committed_dim.take();
            self.editing_committed_dim = edit_with_focus(e);
            return ActionResult::Applied;
        }
        match field {
            DimensionField::Rect(axis) => {
                if self.creating_rect.is_none() {
                    return ActionResult::Failed(string_of("No rectangle in progress"));
                }
                let d = self.creating_rect.take();
                self.creating_rect = rect_with_focus(d, axis);
            },
            DimensionField::LineLength => {
                if self.creating_line.is_none() {
                    return ActionResult::Failed(string_of("No line in progress"));
                }
                let d = self.creating_line.take();
                self.creating_line = segment_with_focus(d);
            },
            DimensionField::CircleDiameter => {
                if self.creating_circle.is_none() {
                    return ActionResult::Failed(string_of("No circle in progress"));
                }
                let d = self.creating_circle.take();
                self.creating_circle = segment_with_focus(d);
            },
        }
        ActionResult::Applied
    }

    /// Type into the width or height field.
    pub fn set_rect_dimension(&mut self, axis: RectAxis, value: String) -> (r: ActionResult)
        ensures
            field_typed(*old(self), *final(self), DimensionField::Rect(axis), value@, r),
    {
        self.set_dimension_text(DimensionField::Rect(axis), value)
    }

    /// Focus the width or height field.
    pub fn focus_rect_dimension(&mut self, axis: RectAxis) -> (r: ActionResult)
        ensures
            field_focused(*old(self), *final(self), DimensionField::Rect(axis), r),
    {
        self.focus_dimension_field(DimensionField::Rect(axis))
    }

    /// Type into the line length field.
    pub fn set_line_length(&mut self, value: String) -> (r: ActionResult)
        ensures
            field_typed(*old(self), *final(self), DimensionField::LineLength, value@, r),
    {
        self.set_dimension_text(DimensionField::LineLength, value)
    }

    /// Focus the line length field.
    pub fn focus_line_length(&mut self) -> (r: ActionResult)
        ensures
            field_focused(*old(self), *final(self), DimensionField::LineLength, r),
    {
        self.focus_dimension_field(DimensionField::LineLength)
    }

    /// Type into the circle diameter field.
    pub fn set_circle_diameter(&mut self, value: String) -> (r: ActionResult)
        ensures
            field_typed(*old(self), *final(self), DimensionField::CircleDiameter, value@, r),
    {
        self.set_dimension_text(DimensionField::CircleDiameter, value)
    }

    /// Focus the circle diameter field.
    pub fn focus_circle_diameter(&mut self) -> (r: ActionResult)
        ensures
            field_focused(*old(self), *final(self), DimensionField::CircleDiameter, r),
    {
        self.focus_dimension_field(DimensionField::CircleDiameter)
    }
}

} // verus!
