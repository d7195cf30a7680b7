//! The editor's document-editing actions: what a click, a construction change, a pane or
//! palette toggle or a deletion does to the editor state and which status line it leaves.
//! Camera moves, geometry solving and file I/O stay with the application around it.

use vstd::prelude::*;
use crate::actions::{
    draw_mode_status, element_label, pane_status, require_construction_targets_editable,
    spec_draw_mode_status, spec_element_label, spec_is_visible, spec_pane_status, ActionResult,
    CommandPaletteState, EditingCommittedDim, Pane, PaneVisibility, RectDraft, SegmentDraft, SketchSession,
    Tool,
};
use crate::context::{
    ContextPaneState,
    target_key_lt,
    construction_targets_from_selection, flags_set, flags_toggled, first_unflaggable,
    flaggable_count, is_construction_target, only_construction_changed,
    set_construction_for_targets, set_edge_construction, spec_construction_error,
    spec_edge_construction, strictly_sorted, toggle_construction_for_targets,
};
use crate::document_health::{
    element_frozen_error, expected_element_health, expected_parameter_health, frozen_summary_is,
    health_status_label, none_frozen, recompute_document_health, require_element_editable,
    selection_frozen_summary, spec_health_status_label, DocumentHealth, ElementHealth,
    ExpressionChecks, HealthStatus, ParameterHealth, element_record, parameter_record,
};
use crate::document_lifecycle::{
    count_fresh, delete_targets_from_selection, dedup_seq, is_solid_element, lemma_dedup_contains,
    sketch_alive, spec_delete_target, spec_delete_targets, spec_sketch_alive, tombstone_elements,
};
use crate::cascade::{grows, node_deleted, reaches};
use crate::editor_modes::is_empty_document;
use crate::selection::{click_scene_selection, spec_click};
use crate::model::Document;
use crate::selection::{SceneElement, SceneSelection};
use crate::text::{decimal, push_decimal, push_decimal_wide, push_str, string_of};

verus! {

/// The state the document-editing actions read and change. A drawing in progress is kept
/// as its construction flag.
pub struct EditorState {
    pub doc: Document,
    pub selection: SceneSelection,
    pub health: DocumentHealth,
    pub tool: Tool,
    pub panes: PaneVisibility,
    pub command_palette: CommandPaletteState,
    pub sketch_session: Option<SketchSession>,
    /// The rectangle being drawn, if one is.
    pub creating_rect: Option<RectDraft>,
    /// The line being drawn, if one is.
    pub creating_line: Option<SegmentDraft>,
    /// The circle being drawn, if one is.
    pub creating_circle: Option<SegmentDraft>,
    /// A construction plane is being placed.
    pub creating_plane: bool,
    /// An extrusion is being set up.
    pub creating_extrusion: bool,
    /// The sketch dimension whose expression is being edited, if any.
    pub editing_committed_dim: Option<EditingCommittedDim>,
    /// The name field of the context pane.
    pub context_pane: ContextPaneState,
    /// Construction mode the next drawing starts in.
    pub draw_construction: bool,
    pub status: String,
}

/// `t` lists the selected lines, circles and rectangle edges in target order, each once.
pub open spec fn selection_targets(sel: Seq<SceneElement>, t: Seq<SceneElement>) -> bool {
    &&& strictly_sorted(t)
    &&& forall|e: SceneElement| #[trigger] t.contains(e) <==> (sel.contains(e) && is_construction_target(e))
}

/// `"{count} item(s) marked construction"` or `"... marked substantial"`.
pub open spec fn marked_status(count: nat, construction: bool) -> Seq<char> {
    decimal(count) + " item(s) marked "@ + if construction {
        "construction"@
    } else {
        "substantial"@
    }
}

pub open spec fn toggled_status(count: nat) -> Seq<char> {
    "Toggled construction on "@ + decimal(count) + " item(s)"@
}

pub open spec fn nothing_constructable() -> Seq<char> {
    "No constructable geometry selected"@
}

/// The state fields a construction change on a drawing leaves alone.
pub open spec fn same_but_drawing(a: EditorState, b: EditorState) -> bool {
    &&& a.doc == b.doc
    &&& a.selection == b.selection
    &&& a.health == b.health
    &&& a.tool == b.tool
    &&& a.panes == b.panes
    &&& a.command_palette == b.command_palette
    &&& a.sketch_session == b.sketch_session
    &&& a.creating_plane == b.creating_plane
    &&& a.creating_extrusion == b.creating_extrusion
    &&& a.editing_committed_dim == b.editing_committed_dim
    &&& a.context_pane == b.context_pane
}

/// Which drawing a construction change applies to: the one in progress, else the drawing
/// tool's next drawing; `None` when it applies to the selection.
pub open spec fn drawing_target(s: EditorState) -> Option<Seq<char>> {
    if s.creating_rect is Some {
        Some("Rectangle"@)
    } else if s.creating_line is Some {
        Some("Line"@)
    } else if s.creating_circle is Some {
        Some("Circle"@)
    } else if s.tool == Tool::Rectangle {
        Some("Rectangle"@)
    } else if s.tool == Tool::Line {
        Some("Line"@)
    } else if s.tool == Tool::Circle {
        Some("Circle"@)
    } else {
        None
    }
}

/// `s` with the drawing construction flag `value`: the drawing in progress keeps it, and so
/// does the next drawing.
pub open spec fn with_drawing_construction(s: EditorState, t: EditorState, value: bool) -> bool {
    &&& same_but_drawing(s, t)
    &&& t.draw_construction == value
    &&& t.creating_rect == (if s.creating_rect is Some {
        Some(RectDraft { construction: value, ..s.creating_rect->Some_0 })
    } else {
        None
    })
    &&& t.creating_line == (if s.creating_rect is None && s.creating_line is Some {
        Some(SegmentDraft { construction: value, ..s.creating_line->Some_0 })
    } else {
        s.creating_line
    })
    &&& t.creating_circle == (if s.creating_rect is None && s.creating_line is None
        && s.creating_circle is Some {
        Some(SegmentDraft { construction: value, ..s.creating_circle->Some_0 })
    } else {
        s.creating_circle
    })
    &&& t.status@ == spec_draw_mode_status(drawing_target(s)->Some_0, value)
}

/// Current construction flag of the drawing a change applies to.
pub open spec fn drawing_construction(s: EditorState) -> bool {
    if s.creating_rect is Some {
        s.creating_rect->Some_0.construction
    } else if s.creating_line is Some {
        s.creating_line->Some_0.construction
    } else if s.creating_circle is Some {
        s.creating_circle->Some_0.construction
    } else {
        s.draw_construction
    }
}

fn rect_with_construction(d: Option<RectDraft>, value: bool) -> (r: Option<RectDraft>)
    ensures
        r == (match d {
            Some(x) => Some(RectDraft { construction: value, ..x }),
            None => None,
        }),
{
    match d {
        Some(x) => Some(RectDraft { construction: value, ..x }),
        None => None,
    }
}

fn segment_with_construction(d: Option<SegmentDraft>, value: bool) -> (r: Option<SegmentDraft>)
    ensures
        r == (match d {
            Some(x) => Some(SegmentDraft { construction: value, ..x }),
            None => None,
        }),
{
    match d {
        Some(x) => Some(SegmentDraft { construction: value, ..x }),
        None => None,
    }
}

fn drawing_target_exec(s: &EditorState) -> (r: Option<&'static str>)
    ensures
        match drawing_target(*s) {
            Some(name) => r is Some && r->Some_0@ == name,
            None => r is None,
        },
{
    if s.creating_rect.is_some() {
        Some("Rectangle")
    } else if s.creating_line.is_some() {
        Some("Line")
    } else if s.creating_circle.is_some() {
        Some("Circle")
    } else if s.tool == Tool::Rectangle {
        Some("Rectangle")
    } else if s.tool == Tool::Line {
        Some("Line")
    } else if s.tool == Tool::Circle {
        Some("Circle")
    } else {
        None
    }
}

impl Default for EditorState {
    /// An empty document with the select tool, all panes shown and nothing in progress.
    fn default() -> (r: EditorState)
        ensures
            is_empty_document(r.doc),
            r.health.elements@.len() == 0,
            r.health.parameters@.len() == 0,
            r.selection@.len() == 0,
            r.tool == Tool::Select,
            r.panes == (PaneVisibility { view_cube: true, hierarchy: true, parameters: true, context: true }),
            !r.command_palette.open,
            r.sketch_session is None,
            r.creating_rect is None,
            r.creating_line is None,
            r.creating_circle is None,
            !r.creating_plane,
            !r.creating_extrusion,
            r.editing_committed_dim is None,
            r.context_pane.synced_element is None,
            !r.context_pane.focus_name_field,
            !r.draw_construction,
            r.status@ == Seq::<char>::empty(),
    {
        EditorState {
            doc: Document::default(),
            selection: SceneSelection::new(),
            health: DocumentHealth::default(),
            tool: Tool::Select,
            panes: PaneVisibility::default(),
            command_palette: CommandPaletteState::default(),
            sketch_session: None,
            creating_rect: None,
            creating_line: None,
            creating_circle: None,
            creating_plane: false,
            creating_extrusion: false,
            editing_committed_dim: None,
            context_pane: ContextPaneState::default(),
            draw_construction: false,
            status: String::new(),
        }
    }
}

impl EditorState {
    /// Construction mode of the rectangle being drawn, or of the next one, while the
    /// rectangle tool is active.
    pub fn rect_draw_construction_mode(&self) -> (r: Option<bool>)
        ensures
            r == (if self.tool == Tool::Rectangle {
                Some(
                    match self.creating_rect {
                        Some(d) => d.construction,
                        None => self.draw_construction,
                    },
                )
            } else {
                None
            }),
    {
        if self.tool != Tool::Rectangle {
            return None;
        }
        Some(
            match &self.creating_rect {
                Some(d) => d.construction,
                None => self.draw_construction,
            },
        )
    }

    /// Construction mode of the line being drawn, or of the next one, while the line tool is
    /// active.
    pub fn line_draw_construction_mode(&self) -> (r: Option<bool>)
        ensures
            r == (if self.tool == Tool::Line {
                Some(
                    match self.creating_line {
                        Some(d) => d.construction,
                        None => self.draw_construction,
                    },
                )
            } else {
                None
            }),
    {
        if self.tool != Tool::Line {
            return None;
        }
        Some(
            match &self.creating_line {
                Some(d) => d.construction,
                None => self.draw_construction,
            },
        )
    }

    /// Construction mode of the circle being drawn, or of the next one, while the circle
    /// tool is active.
    pub fn circle_draw_construction_mode(&self) -> (r: Option<bool>)
        ensures
            r == (if self.tool == Tool::Circle {
                Some(
                    match self.creating_circle {
                        Some(d) => d.construction,
                        None => self.draw_construction,
                    },
                )
            } else {
                None
            }),
    {
        if self.tool != Tool::Circle {
            return None;
        }
        Some(
            match &self.creating_circle {
                Some(d) => d.construction,
                None => self.draw_construction,
            },
        )
    }

    /// Committed sketch dimensions can be edited inside a sketch while nothing is being
    /// drawn.
    pub fn can_edit_sketch_dimensions(&self) -> (r: bool)
        ensures
            r == (self.sketch_session is Some && self.creating_rect is None && self.creating_line is None
                && self.creating_circle is None),
    {
        self.sketch_session.is_some() && self.creating_rect.is_none() && self.creating_line.is_none()
            && self.creating_circle.is_none()
    }

    /// Set the drawing's construction flag to `value` (the caller has checked that a
    /// drawing is the target).
    fn set_drawing_construction(&mut self, value: bool)
        requires
            drawing_target(*old(self)) is Some,
        ensures
            with_drawing_construction(*old(self), *final(self), value),
    {
        let name = drawing_target_exec(self).unwrap();
        if self.creating_rect.is_some() {
            let d = self.creating_rect.take();
            self.creating_rect = rect_with_construction(d, value);
        } else if self.creating_line.is_some() {
            let d = self.creating_line.take();
            self.creating_line = segment_with_construction(d, value);
        } else if self.creating_circle.is_some() {
            let d = self.creating_circle.take();
            self.creating_circle = segment_with_construction(d, value);
        }
        self.draw_construction = value;
        self.status = draw_mode_status(name, value);
    }
}

/// No selected line, circle or rectangle edge is frozen.
pub open spec fn construction_allowed(h: DocumentHealth, sel: Seq<SceneElement>) -> bool {
    forall|e: SceneElement| sel.contains(e) && is_construction_target(e) ==> #[trigger] element_frozen_error(h, e) is None
}

/// `m` is the refusal of the first frozen selected line, circle or rectangle edge in target order.
pub open spec fn construction_refusal(h: DocumentHealth, sel: Seq<SceneElement>, m: Seq<char>) -> bool {
    exists|e: SceneElement|
        sel.contains(e) && is_construction_target(e) && #[trigger] element_frozen_error(h, e) == Some(m)
            && forall|f: SceneElement|
            sel.contains(f) && is_construction_target(f) && target_key_lt(f, e) ==> #[trigger] element_frozen_error(h, f)
                is None
}

/// Everything but the document and the status line is as it was.
pub open spec fn only_doc_and_status(a: EditorState, b: EditorState) -> bool {
    &&& a.selection == b.selection
    &&& a.health == b.health
    &&& a.tool == b.tool
    &&& a.panes == b.panes
    &&& a.command_palette == b.command_palette
    &&& a.sketch_session == b.sketch_session
    &&& a.creating_rect == b.creating_rect
    &&& a.creating_line == b.creating_line
    &&& a.creating_circle == b.creating_circle
    &&& a.creating_plane == b.creating_plane
    &&& a.creating_extrusion == b.creating_extrusion
    &&& a.editing_committed_dim == b.editing_committed_dim
    &&& a.context_pane == b.context_pane
    &&& a.draw_construction == b.draw_construction
}

pub open spec fn failed_with(r: ActionResult, m: Seq<char>) -> bool {
    r is Failed && r->Failed_0@ == m
}

fn format_marked(count: usize, construction: bool) -> (r: String)
    ensures
        r@ == marked_status(count as nat, construction),
{
    let mut s = String::new();
    push_decimal(&mut s, count);
    push_str(&mut s, " item(s) marked ");
    push_str(&mut s, if construction { "construction" } else { "substantial" });
    proof {
        assert(s@ =~= marked_status(count as nat, construction));
    }
    s
}

fn format_toggled(count: usize) -> (r: String)
    ensures
        r@ == toggled_status(count as nat),
{
    let mut s = string_of("Toggled construction on ");
    push_decimal(&mut s, count);
    push_str(&mut s, " item(s)");
    s
}

impl EditorState {
    /// Mark as construction (`true`) or substantial: the drawing in progress, else the
    /// drawing tool's next drawing, else every selected line, circle and rectangle edge.
    pub fn apply_construction(&mut self, construction: bool) -> (r: ActionResult)
        ensures
            match drawing_target(*old(self)) {
                Some(_) => r is Applied && with_drawing_construction(*old(self), *final(self), construction),
                None => if !construction_allowed(old(self).health, old(self).selection@) {
                    &&& r is Failed
                    &&& construction_refusal(old(self).health, old(self).selection@, r->Failed_0@)
                    &&& *final(self) == *old(self)
                } else {
                    &&& only_doc_and_status(*old(self), *final(self))
                    &&& only_construction_changed(old(self).doc, final(self).doc)
                    &&& exists|t: Seq<SceneElement>|
                        #![trigger selection_targets(old(self).selection@, t)]
                        selection_targets(old(self).selection@, t) && if forall|k: int|
                            0 <= k < t.len() ==> spec_edge_construction(old(self).doc, #[trigger] t[k]) is Some {
                            &&& flags_set(old(self).doc, final(self).doc, t, t.len() as int, construction)
                            &&& t.len() > 0 ==> r is Applied && final(self).status@ == marked_status(t.len(), construction)
                            &&& t.len() == 0 ==> failed_with(r, nothing_constructable()) && final(self).status == old(self).status
                        } else {
                            &&& final(self).status == old(self).status
                            &&& exists|k: int|
                                first_unflaggable(old(self).doc, t, k) && failed_with(r, spec_construction_error(#[trigger] t[k]))
                                    && flags_set(old(self).doc, final(self).doc, t, k, construction)
                        }
                },
            },
    {
        if drawing_target_exec(self).is_some() {
            self.set_drawing_construction(construction);
            return ActionResult::Applied;
        }
        match require_construction_targets_editable(&self.health, &self.selection) {
            Err(e) => return ActionResult::Failed(e),
            Ok(()) => {},
        }
        let targets = construction_targets_from_selection(&self.selection);
        proof {
            assert(selection_targets(self.selection@, targets@));
        }
        match set_construction_for_targets(&mut self.doc, &targets, construction) {
            Ok(count) => {
                if count > 0 {
                    self.status = format_marked(count, construction);
                    ActionResult::Applied
                } else {
                    ActionResult::Failed(string_of("No constructable geometry selected"))
                }
            },
            Err(e) => ActionResult::Failed(e),
        }
    }

    /// Flip construction: on the drawing in progress, else on the drawing tool's next
    /// drawing, else on each selected line, circle and rectangle edge.
    pub fn toggle_construction(&mut self) -> (r: ActionResult)
        ensures
            match drawing_target(*old(self)) {
                Some(_) => r is Applied && with_drawing_construction(
                    *old(self),
                    *final(self),
                    !drawing_construction(*old(self)),
                ),
                None => if !construction_allowed(old(self).health, old(self).selection@) {
                    &&& r is Failed
                    &&& construction_refusal(old(self).health, old(self).selection@, r->Failed_0@)
                    &&& *final(self) == *old(self)
                } else {
                    &&& only_doc_and_status(*old(self), *final(self))
                    &&& only_construction_changed(old(self).doc, final(self).doc)
                    &&& exists|t: Seq<SceneElement>|
                        #![trigger selection_targets(old(self).selection@, t)]
                        selection_targets(old(self).selection@, t) && flags_toggled(old(self).doc, final(self).doc, t) && {
                            let count = flaggable_count(old(self).doc, t);
                            &&& count > 0 ==> r is Applied && final(self).status@ == toggled_status(count)
                            &&& count == 0 ==> failed_with(r, nothing_constructable()) && final(self).status == old(self).status
                        }
                },
            },
    {
        if drawing_target_exec(self).is_some() {
            let current = match &self.creating_rect {
                Some(d) => d.construction,
                None => match &self.creating_line {
                    Some(d) => d.construction,
                    None => match &self.creating_circle {
                        Some(d) => d.construction,
                        None => self.draw_construction,
                    },
                },
            };
            self.set_drawing_construction(!current);
            return ActionResult::Applied;
        }
        match require_construction_targets_editable(&self.health, &self.selection) {
            Err(e) => return ActionResult::Failed(e),
            Ok(()) => {},
        }
        let targets = construction_targets_from_selection(&self.selection);
        proof {
            assert(selection_targets(self.selection@, targets@));
        }
        match toggle_construction_for_targets(&mut self.doc, &targets) {
            Ok(count) => {
                if count > 0 {
                    self.status = format_toggled(count);
                    ActionResult::Applied
                } else {
                    ActionResult::Failed(string_of("No constructable geometry selected"))
                }
            },
            Err(e) => ActionResult::Failed(e),
        }
    }
}


/// `"{status} — {reason}"`, the status line after clicking into a frozen selection.
pub open spec fn frozen_click_status(status: HealthStatus, reason: Seq<char>) -> Seq<char> {
    spec_health_status_label(status) + " \u{2014} "@ + reason
}

/// Number of element entries with `status`.
pub open spec fn count_elements(v: Seq<ElementHealth>, status: HealthStatus) -> nat
    decreases v.len(),
{
    if v.len() == 0 {
        0
    } else {
        count_elements(v.drop_last(), status) + if v.last().status == status {
            1nat
        } else {
            0nat
        }
    }
}

/// Number of parameter entries with `status`.
pub open spec fn count_parameters(v: Seq<ParameterHealth>, status: HealthStatus) -> nat
    decreases v.len(),
{
    if v.len() == 0 {
        0
    } else {
        count_parameters(v.drop_last(), status) + if v.last().status == status {
            1nat
        } else {
            0nat
        }
    }
}

/// `"Deleted {count} element(s)"`, followed by the number of invalid and unstable entities
/// when there are any.
pub open spec fn deletion_status(count: nat, invalid: nat, unstable: nat) -> Seq<char> {
    "Deleted "@ + decimal(count) + " element(s)"@ + if invalid > 0 || unstable > 0 {
        " \u{2014} "@ + decimal(invalid) + " invalid, "@ + decimal(unstable) + " unstable"@
    } else {
        Seq::empty()
    }
}

fn count_element_status(v: &Vec<ElementHealth>, status: HealthStatus) -> (r: usize)
    ensures
        r == count_elements(v@, status),
{
    let mut n: usize = 0;
    let mut i: usize = 0;
    while i < v.len()
        invariant
            i <= v@.len(),
            n == count_elements(v@.take(i as int), status),
            n <= i,
        decreases v@.len() - i,
    {
        proof {
            assert(v@.take(i + 1).drop_last() =~= v@.take(i as int));
        }
        if v[i].status == status {
            n = n + 1;
        }
        i = i + 1;
    }
    proof {
        assert(v@.take(i as int) =~= v@);
    }
    n
}

fn count_parameter_status(v: &Vec<ParameterHealth>, status: HealthStatus) -> (r: usize)
    ensures
        r == count_parameters(v@, status),
{
    let mut n: usize = 0;
    let mut i: usize = 0;
    while i < v.len()
        invariant
            i <= v@.len(),
            n == count_parameters(v@.take(i as int), status),
            n <= i,
        decreases v@.len() - i,
    {
        proof {
            assert(v@.take(i + 1).drop_last() =~= v@.take(i as int));
        }
        if v[i].status == status {
            n = n + 1;
        }
        i = i + 1;
    }
    proof {
        assert(v@.take(i as int) =~= v@);
    }
    n
}

/// Everything but the selection and the status line is as it was.
pub open spec fn only_selection_and_status(a: EditorState, b: EditorState) -> bool {
    &&& a.doc == b.doc
    &&& a.health == b.health
    &&& a.tool == b.tool
    &&& a.panes == b.panes
    &&& a.command_palette == b.command_palette
    &&& a.sketch_session == b.sketch_session
    &&& a.creating_rect == b.creating_rect
    &&& a.creating_line == b.creating_line
    &&& a.creating_circle == b.creating_circle
    &&& a.creating_plane == b.creating_plane
    &&& a.creating_extrusion == b.creating_extrusion
    &&& a.editing_committed_dim == b.editing_committed_dim
    &&& a.context_pane == b.context_pane
    &&& a.draw_construction == b.draw_construction
}

impl EditorState {
    /// Click an element in the scene or the hierarchy; when the selection then holds a frozen
    /// element, the status line says why.
    pub fn click_scene_element(&mut self, element: SceneElement, additive: bool)
        ensures
            only_selection_and_status(*old(self), *final(self)),
            final(self).selection@ == spec_click(old(self).selection@, element, additive),
            none_frozen(old(self).health, final(self).selection@) ==> final(self).status == old(self).status,
            !none_frozen(old(self).health, final(self).selection@) ==> exists|st: HealthStatus, reason: Seq<char>|
                frozen_summary_is(old(self).health, final(self).selection@, st, reason)
                    && #[trigger] final(self).status@ == frozen_click_status(st, reason),
    {
        click_scene_selection(&mut self.selection, element, additive);
        match selection_frozen_summary(&self.health, &self.selection) {
            Some((status, reason)) => {
                let mut m = string_of(health_status_label(status));
                push_str(&mut m, " \u{2014} ");
                push_str(&mut m, reason.as_str());
                proof {
                    assert(m@ == frozen_click_status(status, reason@));
                }
                self.status = m;
            },
            None => {},
        }
    }

    /// Deselect everything.
    pub fn clear_scene_selection(&mut self)
        ensures
            only_selection_and_status(*old(self), *final(self)),
            final(self).status == old(self).status,
            final(self).selection@ == Seq::<SceneElement>::empty(),
    {
        self.selection.clear();
    }

    /// Mark one line, circle or rectangle edge as construction (`true`) or solid, unless it is frozen.
    pub fn set_shape_construction(&mut self, element: SceneElement, construction: bool) -> (r: ActionResult)
        ensures
            only_doc_and_status(*old(self), *final(self)),
            element_frozen_error(old(self).health, element) matches Some(m) ==> failed_with(r, m) && *final(self)
                == *old(self),
            element_frozen_error(old(self).health, element) is None ==> {
                &&& only_construction_changed(old(self).doc, final(self).doc)
                &&& flags_set(old(self).doc, final(self).doc, seq![element], if r is Applied { 1 } else { 0 }, construction)
                &&& spec_edge_construction(old(self).doc, element) is Some ==> r is Applied && final(self).status@
                    == spec_element_label(element) + " marked "@ + if construction {
                    "construction"@
                } else {
                    "solid"@
                }
                &&& spec_edge_construction(old(self).doc, element) is None ==> failed_with(r, spec_construction_error(element))
                    && final(self).status == old(self).status
            },
    {
        match require_element_editable(&self.health, element) {
            Err(e) => return ActionResult::Failed(e),
            Ok(()) => {},
        }
        match set_edge_construction(&mut self.doc, element, construction) {
            Ok(()) => {
                let mut m = element_label(element);
                push_str(&mut m, " marked ");
                push_str(&mut m, if construction { "construction" } else { "solid" });
                self.status = m;
                ActionResult::Applied
            },
            Err(e) => ActionResult::Failed(e),
        }
    }

    /// Show or hide a pane.
    pub fn set_pane_visible(&mut self, pane: Pane, visible: bool)
        ensures
            spec_is_visible(final(self).panes, pane) == visible,
            forall|other: Pane| other != pane ==> spec_is_visible(final(self).panes, other) == spec_is_visible(old(self).panes, other),
            final(self).status@ == spec_pane_status(pane, visible),
            final(self).doc == old(self).doc,
            final(self).selection == old(self).selection,
            final(self).command_palette == old(self).command_palette,
    {
        self.panes.set(pane, visible);
        self.status = pane_status(pane, visible);
    }

    /// Flip a pane's visibility.
    pub fn toggle_pane(&mut self, pane: Pane)
        ensures
            spec_is_visible(final(self).panes, pane) == !spec_is_visible(old(self).panes, pane),
            forall|other: Pane| other != pane ==> spec_is_visible(final(self).panes, other) == spec_is_visible(old(self).panes, other),
            final(self).status@ == spec_pane_status(pane, !spec_is_visible(old(self).panes, pane)),
            final(self).doc == old(self).doc,
            final(self).selection == old(self).selection,
            final(self).command_palette == old(self).command_palette,
    {
        self.panes.toggle(pane);
        let visible = self.panes.is_visible(pane);
        self.status = pane_status(pane, visible);
    }

    /// Open (with the status line `Command palette`) or close the command palette.
    pub fn set_command_palette_open(&mut self, open: bool)
        ensures
            final(self).command_palette.open == open,
            final(self).command_palette.query@ == Seq::<char>::empty(),
            final(self).command_palette.selected == 0,
            final(self).command_palette.request_focus == open,
            open ==> final(self).status@ == "Command palette"@,
            !open ==> final(self).status == old(self).status,
            final(self).doc == old(self).doc,
            final(self).selection == old(self).selection,
            final(self).panes == old(self).panes,
    {
        if open {
            self.command_palette.open_palette();
            self.status = string_of("Command palette");
        } else {
            self.command_palette.close_palette();
        }
    }

    /// Open the command palette when closed, close it when open.
    pub fn toggle_command_palette(&mut self)
        ensures
            final(self).command_palette.open == !old(self).command_palette.open,
            final(self).command_palette.query@ == Seq::<char>::empty(),
            final(self).command_palette.selected == 0,
            !old(self).command_palette.open ==> final(self).status@ == "Command palette"@,
            old(self).command_palette.open ==> final(self).status == old(self).status,
            final(self).doc == old(self).doc,
            final(self).selection == old(self).selection,
            final(self).panes == old(self).panes,
    {
        if self.command_palette.open {
            self.command_palette.close_palette();
        } else {
            self.command_palette.open_palette();
            self.status = string_of("Command palette");
        }
    }

    /// Delete the selection, first step: with nothing selected, only the status line
    /// `Nothing selected` and `None`. Otherwise tombstone every delete target, leave the
    /// sketch being edited when it went with them (`true` in the result: the camera should
    /// return), clear the selection and return how many targets changed the document (exactly
    /// the targets not yet deleted, when no extrusion or body is among them).
    pub fn delete_selection(&mut self) -> (r: Option<(usize, bool)>)
        ensures
            old(self).selection@.len() == 0 ==> r is None && final(self).status@ == "Nothing selected"@
                && final(self).doc == old(self).doc && final(self).selection == old(self).selection
                && final(self).sketch_session == old(self).sketch_session,
            old(self).selection@.len() > 0 ==> (r matches Some((count, left)) && {
                let targets = spec_delete_targets(old(self).selection@);
                &&& count <= targets.len()
                &&& (forall|i: int| 0 <= i < targets.len() ==> !is_solid_element(#[trigger] targets[i]))
                    ==> count == count_fresh(old(self).doc, targets)
                &&& grows(old(self).doc, final(self).doc)
                &&& forall|n: SceneElement|
                    #[trigger] node_deleted(final(self).doc, n) == (node_deleted(old(self).doc, n) || exists|i: int|
                        0 <= i < targets.len() && reaches(old(self).doc, #[trigger] targets[i], n))
                &&& final(self).selection@ == Seq::<SceneElement>::empty()
                &&& left == (old(self).sketch_session matches Some(session) && !spec_sketch_alive(final(self).doc, session.sketch))
                &&& left ==> final(self).sketch_session is None && final(self).creating_rect is None
                    && final(self).creating_line is None && final(self).tool == Tool::Select
                &&& !left ==> final(self).sketch_session == old(self).sketch_session && final(self).tool == old(self).tool
                    && final(self).creating_rect == old(self).creating_rect && final(self).creating_line == old(self).creating_line
            }),
            final(self).health == old(self).health,
            final(self).panes == old(self).panes,
            final(self).command_palette == old(self).command_palette,
    {
        if self.selection.is_empty() {
            self.status = string_of("Nothing selected");
            return None;
        }
        let targets = delete_targets_from_selection(&self.selection);
        let count = tombstone_elements(&mut self.doc, targets.as_slice());
        proof {
            assert forall|i: int| 0 <= i < targets@.len() implies spec_delete_target(
                #[trigger] targets@[i],
            ) == targets@[i] by {
                lemma_delete_targets_are_targets(self.selection@, i);
            }
            assert(targets@.map_values(|e: SceneElement| spec_delete_target(e)) =~= targets@);
        }
        let left = match self.sketch_session {
            Some(session) => !sketch_alive(&self.doc, session.sketch),
            None => false,
        };
        if left {
            self.sketch_session = None;
            self.creating_rect = None;
            self.creating_line = None;
            self.tool = Tool::Select;
        }
        self.selection.clear();
        Some((count, left))
    }

    /// Delete the selection, last step, once the geometry is recomputed: refresh health from
    /// `checks` and report what the deletion of `count` targets left invalid or unstable.
    pub fn finish_deletion(&mut self, count: usize, checks: &ExpressionChecks)
        ensures
            forall|e: SceneElement| element_record(final(self).health, e) == expected_element_health(final(self).doc, *checks, e),
            forall|p: usize| parameter_record(final(self).health, p) == expected_parameter_health(final(self).doc, *checks, p),
            final(self).status@ == deletion_status(
                count as nat,
                count_elements(final(self).health.elements@, HealthStatus::Invalid) + count_parameters(
                    final(self).health.parameters@,
                    HealthStatus::Invalid,
                ),
                count_elements(final(self).health.elements@, HealthStatus::Unstable),
            ),
            final(self).doc == old(self).doc,
            final(self).selection == old(self).selection,
    {
        self.health = recompute_document_health(&self.doc, checks);
        let mut m = string_of("Deleted ");
        push_decimal(&mut m, count);
        push_str(&mut m, " element(s)");
        let invalid_elements = count_element_status(&self.health.elements, HealthStatus::Invalid);
        let invalid_parameters = count_parameter_status(&self.health.parameters, HealthStatus::Invalid);
        let unstable = count_element_status(&self.health.elements, HealthStatus::Unstable);
        let invalid: u128 = invalid_elements as u128 + invalid_parameters as u128;
        if invalid > 0 || unstable > 0 {
            push_str(&mut m, " \u{2014} ");
            push_decimal_wide(&mut m, invalid);
            push_str(&mut m, " invalid, ");
            push_decimal(&mut m, unstable);
            push_str(&mut m, " unstable");
        }
        proof {
            assert(m@ =~= deletion_status(count as nat, invalid as nat, unstable as nat));
        }
        self.status = m;
    }
}

/// Every delete target of a selection is its own delete target.
proof fn lemma_delete_targets_are_targets(sel: Seq<SceneElement>, i: int)
    requires
        0 <= i < spec_delete_targets(sel).len(),
    ensures
        spec_delete_target(spec_delete_targets(sel)[i]) == spec_delete_targets(sel)[i],
{
    let mapped = sel.map_values(|e: SceneElement| spec_delete_target(e));
    lemma_dedup_contains(mapped);
    let x = spec_delete_targets(sel)[i];
    assert(dedup_seq(mapped).contains(x));
    assert(mapped.contains(x));
    let k = choose|k: int| 0 <= k < mapped.len() && mapped[k] == x;
    assert(x == spec_delete_target(sel[k]));
}

} // verus!
