//! The editor's modes: which tool is active, leaving and cancelling a sketch session, new and
//! cleared documents, and the refresh of the document's health. What the camera does on
//! these transitions stays with the application, which the results tell when to act.

use vstd::prelude::*;
use crate::actions::{spec_is_sketch_edit_tool, spec_is_visible, ActionResult, Pane, SketchSession, Tool};
use crate::names::{element_name, is_nameable, single_nameable_from_selection, spec_element_name};
use crate::document_health::{
    expected_element_health, expected_parameter_health, element_record, parameter_record,
    recompute_document_health, DocumentHealth, ExpressionChecks,
};
use crate::constraints::constraint_appended;
use crate::legacy_dimensions::{geometry_but_locks, locks_in_sync, refresh_dimension_locks};
use crate::editor::{failed_with, EditorState};
use crate::model::{Circle, ConstraintKind, Line, Rect, SketchId, spec_has_children, spec_sketch_face, spec_sketch_has_geometry, Document, FaceId, ShapeKind};
use crate::selection::{SceneElement, SceneSelection};
use crate::text::{decimal, labeled_index, push_str, string_of};

verus! {

/// `b` is `a` after leaving the sketch session: no session, no rectangle or line being
/// drawn, no dimension being edited, and the select tool.
pub open spec fn sketch_session_left(a: EditorState, b: EditorState) -> bool {
    &&& b.sketch_session is None
    &&& b.creating_rect is None
    &&& b.creating_line is None
    &&& b.editing_committed_dim is None
    &&& b.tool == Tool::Select
    &&& b.doc == a.doc
    &&& b.selection == a.selection
    &&& b.health == a.health
    &&& b.panes == a.panes
    &&& b.command_palette == a.command_palette
    &&& b.creating_circle == a.creating_circle
    &&& b.creating_plane == a.creating_plane
    &&& b.creating_extrusion == a.creating_extrusion
    &&& b.context_pane == a.context_pane
    &&& b.draw_construction == a.draw_construction
}

/// The status line naming the tool just picked; drawing tools outside a sketch ask for a
/// face, dimension and constraint tools outside a sketch ask for one to be opened.
pub open spec fn tool_status(tool: Tool, in_sketch: bool) -> Seq<char> {
    match tool {
        Tool::Select => "Select tool \u{2014} Delete/Backspace removes selection"@,
        Tool::Sketch => "Sketch tool \u{2014} click a face"@,
        Tool::Rectangle => if in_sketch {
            "Rectangle tool"@
        } else {
            "Rectangle tool \u{2014} click a face"@
        },
        Tool::Line => if in_sketch {
            "Line tool"@
        } else {
            "Line tool \u{2014} click a face"@
        },
        Tool::Circle => if in_sketch {
            "Circle tool"@
        } else {
            "Circle tool \u{2014} click a face"@
        },
        Tool::Dimension => if in_sketch {
            "Dimension tool \u{2014} select geometry, then D, or click a segment"@
        } else {
            "Dimension tool \u{2014} open a sketch first"@
        },
        Tool::Constraint => if in_sketch {
            "Constraint tool \u{2014} select geometry, then pick a constraint"@
        } else {
            "Constraint tool \u{2014} open a sketch first"@
        },
        Tool::ConstructionPlane => "Construction plane tool"@,
        Tool::Extrude => "Extrude tool \u{2014} click coplanar faces, then set a distance"@,
    }
}

fn tool_status_text(tool: Tool, in_sketch: bool) -> (r: String)
    ensures
        r@ == tool_status(tool, in_sketch),
{
    match tool {
        Tool::Select => string_of("Select tool \u{2014} Delete/Backspace removes selection"),
        Tool::Sketch => string_of("Sketch tool \u{2014} click a face"),
        Tool::Rectangle => if in_sketch {
            string_of("Rectangle tool")
        } else {
            string_of("Rectangle tool \u{2014} click a face")
        },
        Tool::Line => if in_sketch {
            string_of("Line tool")
        } else {
            string_of("Line tool \u{2014} click a face")
        },
        Tool::Circle => if in_sketch {
            string_of("Circle tool")
        } else {
            string_of("Circle tool \u{2014} click a face")
        },
        Tool::Dimension => if in_sketch {
            string_of("Dimension tool \u{2014} select geometry, then D, or click a segment")
        } else {
            string_of("Dimension tool \u{2014} open a sketch first")
        },
        Tool::Constraint => if in_sketch {
            string_of("Constraint tool \u{2014} select geometry, then pick a constraint")
        } else {
            string_of("Constraint tool \u{2014} open a sketch first")
        },
        Tool::ConstructionPlane => string_of("Construction plane tool"),
        Tool::Extrude => string_of("Extrude tool \u{2014} click coplanar faces, then set a distance"),
    }
}

/// What picking a tool did beyond the state: whether the sketch session was left (the
/// camera goes back to its pose from before the sketch) and whether the dimension tool should
/// now start a dimension from the selection.
#[derive(Clone, Copy, Debug, PartialEq, Eq, Structural)]
pub struct ToolChange {
    pub left_sketch: bool,
    pub dimension_from_selection: bool,
}

/// How a sketch is called in the status line: its name, else `Sketch <index>`.
pub open spec fn spec_sketch_label(doc: Document, sketch: SketchId) -> Seq<char> {
    match spec_element_name(doc, SceneElement::Sketch(sketch)) {
        Some(n) => n,
        None => "Sketch "@ + decimal(sketch as nat),
    }
}

/// The status line on entering `sketch` with `tool` active.
pub open spec fn sketch_entered_status(doc: Document, sketch: SketchId, tool: Tool) -> Seq<char> {
    spec_sketch_label(doc, sketch) + match tool {
        Tool::Rectangle => " — click to set corner"@,
        Tool::Line => " — click to set start"@,
        _ => " — pick line or rectangle"@,
    }
}

/// `b` is `a` after entering `sketch`: the session is on it, no rectangle or line is being
/// drawn, a tool that does not edit sketches gives way to the select tool, and the status
/// line names the sketch and the next step.
pub open spec fn sketch_entered(a: EditorState, b: EditorState, sketch: SketchId) -> bool {
    let tool = if spec_is_sketch_edit_tool(a.tool) { a.tool } else { Tool::Select };
    &&& b == (EditorState {
        sketch_session: Some(SketchSession { sketch }),
        creating_rect: None,
        creating_line: None,
        tool,
        status: b.status,
        ..a
    })
    &&& b.status@ == sketch_entered_status(a.doc, sketch, tool)
}

fn sketch_label(doc: &Document, sketch: SketchId) -> (r: String)
    ensures
        r@ == spec_sketch_label(*doc, sketch),
{
    match element_name(doc, SceneElement::Sketch(sketch)) {
        Some(n) => string_of(n),
        None => {
            let r = labeled_index("Sketch ", sketch, "");
            proof {
                reveal_strlit("");
                assert(r@ =~= "Sketch "@ + decimal(sketch as nat));
            }
            r
        },
    }
}

impl EditorState {
    /// Enter `sketch` for editing (the camera's move to it stays with the application).
    pub fn enter_sketch_session(&mut self, sketch: SketchId) -> (r: ActionResult)
        ensures
            r is Applied,
            sketch_entered(*old(self), *final(self), sketch),
    {
        self.sketch_session = Some(SketchSession { sketch });
        self.creating_rect = None;
        self.creating_line = None;
        if !self.tool.is_sketch_edit_tool() {
            self.tool = Tool::Select;
        }
        let mut status = sketch_label(&self.doc, sketch);
        match self.tool {
            Tool::Rectangle => push_str(&mut status, " — click to set corner"),
            Tool::Line => push_str(&mut status, " — click to set start"),
            _ => push_str(&mut status, " — pick line or rectangle"),
        }
        self.status = status;
        ActionResult::Applied
    }

    /// Open an existing sketch for editing; an index past the sketches is refused.
    pub fn open_sketch(&mut self, sketch: SketchId) -> (r: ActionResult)
        ensures
            sketch >= old(self).doc.sketches@.len() ==> failed_with(r, "Unknown sketch "@ + decimal(sketch as nat))
                && *final(self) == *old(self),
            sketch < old(self).doc.sketches@.len() ==> r is Applied && sketch_entered(*old(self), *final(self), sketch),
    {
        if sketch >= self.doc.sketches.len() {
            let m = labeled_index("Unknown sketch ", sketch, "");
            proof {
                reveal_strlit("");
                assert(m@ =~= "Unknown sketch "@ + decimal(sketch as nat));
            }
            return ActionResult::Failed(m);
        }
        self.enter_sketch_session(sketch)
    }
}

impl EditorState {
    /// Leave the sketch session: drop the rectangle or line being drawn and the dimension
    /// being edited, and go back to the select tool.
    pub fn exit_sketch_session(&mut self)
        ensures
            sketch_session_left(*old(self), *final(self)),
            final(self).status == old(self).status,
    {
        self.sketch_session = None;
        self.creating_rect = None;
        self.creating_line = None;
        self.editing_committed_dim = None;
        self.tool = Tool::Select;
    }

    /// Finish editing the open sketch.
    pub fn exit_sketch(&mut self) -> (r: ActionResult)
        ensures
            old(self).sketch_session is None ==> {
                &&& failed_with(r, "Not in sketch mode"@)
                &&& *final(self) == *old(self)
            },
            old(self).sketch_session is Some ==> {
                &&& r is Applied
                &&& sketch_session_left(*old(self), *final(self))
                &&& final(self).status@ == "Sketch saved"@
            },
    {
        if self.sketch_session.is_none() {
            return ActionResult::Failed(string_of("Not in sketch mode"));
        }
        self.exit_sketch_session();
        self.status = string_of("Sketch saved");
        ActionResult::Applied
    }
}


/// `b` is `a` after picking `tool`: drawings of other tools are dropped, the extrude tool
/// leaves a sketch session, tools other than select, dimension and constraint drop the
/// dimension being edited, and the status line names the tool.
pub open spec fn tool_set(a: EditorState, b: EditorState, tool: Tool, r: ToolChange) -> bool {
    let leave = tool == Tool::Extrude && a.sketch_session is Some;
    let keeps_edit = tool == Tool::Select || tool == Tool::Dimension || tool == Tool::Constraint;
    &&& r.left_sketch == leave
    &&& r.dimension_from_selection == (tool == Tool::Dimension)
    &&& b.tool == tool
    &&& b.creating_rect == (if tool == Tool::Rectangle { a.creating_rect } else { None })
    &&& b.creating_line == (if tool == Tool::Line { a.creating_line } else { None })
    &&& b.creating_circle == (if tool == Tool::Circle { a.creating_circle } else { None })
    &&& b.creating_plane == (tool == Tool::ConstructionPlane && a.creating_plane)
    &&& b.creating_extrusion == (tool == Tool::Extrude && a.creating_extrusion)
    &&& b.sketch_session == (if leave { None } else { a.sketch_session })
    &&& b.editing_committed_dim == (if keeps_edit { a.editing_committed_dim } else { None })
    &&& b.status@ == tool_status(tool, b.sketch_session is Some)
    &&& b.doc == a.doc
    &&& b.selection == a.selection
    &&& b.health == a.health
    &&& b.panes == a.panes
    &&& b.command_palette == a.command_palette
    &&& b.context_pane == a.context_pane
    &&& b.draw_construction == a.draw_construction
}

/// The status line of the select tool.
pub open spec fn select_tool_status() -> Seq<char> {
    "Select tool \u{2014} Delete/Backspace removes selection"@
}

/// `b` is `a` after cancelling: the innermost operation in progress is dropped (a dimension
/// edit, then an extrusion, then a drawing or plane), else an idle select tool leaves the
/// sketch session, else another tool gives way to the select tool.
pub open spec fn operation_cancelled(a: EditorState, b: EditorState, left_sketch: bool) -> bool {
    if a.editing_committed_dim is Some {
        &&& b == (EditorState { editing_committed_dim: None, status: b.status, ..a })
        &&& b.status@ == "Cancelled"@
        &&& !left_sketch
    } else if a.creating_extrusion {
        &&& b == (EditorState { creating_extrusion: false, status: b.status, ..a })
        &&& b.status@ == "Cancelled extrusion"@
        &&& !left_sketch
    } else if a.creating_rect is Some {
        &&& b == (EditorState { creating_rect: None, status: b.status, ..a })
        &&& b.status@ == "Cancelled"@
        &&& !left_sketch
    } else if a.creating_line is Some {
        &&& b == (EditorState { creating_line: None, status: b.status, ..a })
        &&& b.status@ == "Cancelled"@
        &&& !left_sketch
    } else if a.creating_circle is Some {
        &&& b == (EditorState { creating_circle: None, status: b.status, ..a })
        &&& b.status@ == "Cancelled"@
        &&& !left_sketch
    } else if a.creating_plane {
        &&& b == (EditorState { creating_plane: false, status: b.status, ..a })
        &&& b.status@ == "Cancelled"@
        &&& !left_sketch
    } else if a.sketch_session is Some {
        if a.tool == Tool::Select {
            &&& sketch_session_left(a, b)
            &&& b.status@ == "Exited sketch"@
            &&& left_sketch
        } else {
            &&& b == (EditorState { tool: Tool::Select, status: b.status, ..a })
            &&& b.status@ == select_tool_status()
            &&& !left_sketch
        }
    } else if a.tool != Tool::Select {
        &&& b == (EditorState { tool: Tool::Select, status: b.status, ..a })
        &&& b.status@ == select_tool_status()
        &&& !left_sketch
    } else {
        &&& b == a
        &&& !left_sketch
    }
}

/// `d` is an empty document with millimetre and degree defaults.
pub open spec fn is_empty_document(d: Document) -> bool {
    &&& d.parameters@.len() == 0
    &&& d.sketches@.len() == 0
    &&& d.rects@.len() == 0
    &&& d.lines@.len() == 0
    &&& d.circles@.len() == 0
    &&& d.constraints@.len() == 0
    &&& d.construction_planes@.len() == 0
    &&& d.extrusions@.len() == 0
    &&& d.bodies@.len() == 0
    &&& d.shape_order@.len() == 0
    &&& d.default_length_unit == crate::model::LengthUnit::Mm
    &&& d.default_angle_unit == crate::model::AngleUnit::Deg
}

impl EditorState {
    /// Pick `tool`.
    pub fn set_tool(&mut self, tool: Tool) -> (r: ToolChange)
        ensures
            tool_set(*old(self), *final(self), tool, r),
    {
        if tool != Tool::Rectangle {
            self.creating_rect = None;
        }
        if tool != Tool::Line {
            self.creating_line = None;
        }
        if tool != Tool::Circle {
            self.creating_circle = None;
        }
        if tool != Tool::ConstructionPlane {
            self.creating_plane = false;
        }
        if tool != Tool::Extrude {
            self.creating_extrusion = false;
        }
        let leave = tool == Tool::Extrude && self.sketch_session.is_some();
        if leave {
            self.exit_sketch_session();
        }
        if !(tool == Tool::Select || tool == Tool::Dimension || tool == Tool::Constraint) {
            self.editing_committed_dim = None;
        }
        self.tool = tool;
        self.status = tool_status_text(tool, self.sketch_session.is_some());
        ToolChange { left_sketch: leave, dimension_from_selection: tool == Tool::Dimension }
    }

    /// Cancel the operation in progress; returns whether the sketch session was left.
    pub fn cancel_operation(&mut self) -> (left_sketch: bool)
        ensures
            operation_cancelled(*old(self), *final(self), left_sketch),
    {
        if self.editing_committed_dim.is_some() {
            self.editing_committed_dim = None;
            self.status = string_of("Cancelled");
            return false;
        }
        if self.creating_extrusion {
            self.creating_extrusion = false;
            self.status = string_of("Cancelled extrusion");
            return false;
        }
        if self.creating_rect.is_some() {
            self.creating_rect = None;
            self.status = string_of("Cancelled");
            return false;
        }
        if self.creating_line.is_some() {
            self.creating_line = None;
            self.status = string_of("Cancelled");
            return false;
        }
        if self.creating_circle.is_some() {
            self.creating_circle = None;
            self.status = string_of("Cancelled");
            return false;
        }
        if self.creating_plane {
            self.creating_plane = false;
            self.status = string_of("Cancelled");
            return false;
        }
        if self.sketch_session.is_some() {
            if self.tool == Tool::Select {
                self.exit_sketch_session();
                self.status = string_of("Exited sketch");
                return true;
            }
            self.tool = Tool::Select;
            self.status = string_of("Select tool \u{2014} Delete/Backspace removes selection");
            return false;
        }
        if self.tool != Tool::Select {
            self.tool = Tool::Select;
            self.status = string_of("Select tool \u{2014} Delete/Backspace removes selection");
        }
        false
    }

    /// Start a new, empty document: nothing selected, in progress or unhealthy, and the
    /// select tool.
    pub fn new_document(&mut self)
        ensures
            is_empty_document(final(self).doc),
            final(self).selection@.len() == 0,
            final(self).health.elements@.len() == 0,
            final(self).health.parameters@.len() == 0,
            final(self).sketch_session is None,
            final(self).creating_rect is None,
            final(self).creating_line is None,
            final(self).creating_circle is None,
            !final(self).creating_plane,
            final(self).tool == Tool::Select,
            final(self).status@ == "New document"@,
            final(self).creating_extrusion == old(self).creating_extrusion,
            final(self).editing_committed_dim == old(self).editing_committed_dim,
            final(self).panes == old(self).panes,
            final(self).command_palette == old(self).command_palette,
            final(self).context_pane == old(self).context_pane,
            final(self).draw_construction == old(self).draw_construction,
    {
        self.doc = Document::default();
        self.sketch_session = None;
        self.creating_rect = None;
        self.creating_line = None;
        self.creating_circle = None;
        self.creating_plane = false;
        self.selection.clear();
        self.tool = Tool::Select;
        self.health = DocumentHealth::default();
        self.status = string_of("New document");
    }

    /// Clear the document, keeping the tool and the selection.
    pub fn clear_document(&mut self)
        ensures
            is_empty_document(final(self).doc),
            final(self).health.elements@.len() == 0,
            final(self).health.parameters@.len() == 0,
            final(self).sketch_session is None,
            final(self).creating_rect is None,
            final(self).creating_line is None,
            final(self).creating_circle is None,
            final(self).status@ == "Cleared"@,
            final(self).selection == old(self).selection,
            final(self).tool == old(self).tool,
            final(self).creating_plane == old(self).creating_plane,
            final(self).creating_extrusion == old(self).creating_extrusion,
            final(self).editing_committed_dim == old(self).editing_committed_dim,
            final(self).panes == old(self).panes,
            final(self).command_palette == old(self).command_palette,
            final(self).context_pane == old(self).context_pane,
            final(self).draw_construction == old(self).draw_construction,
    {
        self.doc = Document::default();
        self.sketch_session = None;
        self.creating_rect = None;
        self.creating_line = None;
        self.creating_circle = None;
        self.health = DocumentHealth::default();
        self.status = string_of("Cleared");
    }

    /// Recompute the health of every element and parameter of the document; `checks`
    /// reports which expressions evaluate.
    pub fn refresh_document_health(&mut self, checks: &ExpressionChecks)
        ensures
            forall|e: crate::selection::SceneElement| element_record(final(self).health, e)
                == expected_element_health(final(self).doc, *checks, e),
            forall|p: usize| parameter_record(final(self).health, p) == expected_parameter_health(
                final(self).doc,
                *checks,
                p,
            ),
            *final(self) == (EditorState { health: final(self).health, ..*old(self) }),
    {
        self.health = recompute_document_health(&self.doc, checks);
    }
}


/// What an undo did beyond the state: whether something was undone (the health is then
/// refreshed), whether the sketch session was left (the camera goes back), and whether a
/// constraint was removed (the legacy dimension flags are then already refreshed; the
/// geometry is solved in floating point, outside this library).
#[derive(Clone, Copy, Debug, PartialEq, Eq, Structural)]
pub struct UndoOutcome {
    pub undone: bool,
    pub left_sketch: bool,
    pub constraint_removed: bool,
}

/// `s` without its last element, if it has one.
pub open spec fn popped<A>(s: Seq<A>) -> Seq<A> {
    if s.len() > 0 {
        s.drop_last()
    } else {
        s
    }
}

/// Only the document and the status line differ.
pub open spec fn only_doc_and_status_changed(a: EditorState, b: EditorState) -> bool {
    b == (EditorState { doc: b.doc, status: b.status, ..a })
}

/// Nothing was undone.
pub open spec fn nothing_undone(r: UndoOutcome) -> bool {
    r == (UndoOutcome { undone: false, left_sketch: false, constraint_removed: false })
}

/// `b` is `a` after undoing the last entry of the creation order: the newest entity of that
/// kind is removed, except a sketch that has geometry, the first construction plane, and a
/// construction plane that sketches lie on. Removing the open sketch, or the plane it lies
/// on, leaves the sketch session.
pub open spec fn last_undone(a: EditorState, b: EditorState, r: UndoOutcome) -> bool {
    let d = a.doc;
    let e = b.doc;
    let order = d.shape_order@;
    let rest = order.drop_last();
    if order.len() == 0 {
        &&& b == (EditorState { status: b.status, ..a })
        &&& b.status@ == "Nothing to undo"@
        &&& nothing_undone(r)
    } else {
        match order.last() {
            ShapeKind::Sketch => {
                let idx = (if d.sketches@.len() > 0 { d.sketches@.len() - 1 } else { 0 }) as usize;
                if spec_sketch_has_geometry(d, idx) {
                    &&& b == (EditorState { status: b.status, ..a })
                    &&& b.status@ == "Cannot undo: sketch has geometry"@
                    &&& nothing_undone(r)
                } else if d.sketches@.len() == 0 {
                    &&& e == (Document { shape_order: e.shape_order, ..d })
                    &&& e.shape_order@ == rest
                    &&& only_doc_and_status_changed(a, b)
                    &&& b.status@ == "Nothing to undo"@
                    &&& nothing_undone(r)
                } else {
                    let leave = a.sketch_session == Some(SketchSession { sketch: idx });
                    &&& e == (Document { shape_order: e.shape_order, sketches: e.sketches, ..d })
                    &&& e.shape_order@ == rest
                    &&& e.sketches@ == d.sketches@.drop_last()
                    &&& leave ==> sketch_session_left(EditorState { doc: e, status: b.status, ..a }, b)
                    &&& !leave ==> only_doc_and_status_changed(a, b)
                    &&& b.status@ == "Undid last sketch"@
                    &&& r == (UndoOutcome { undone: true, left_sketch: leave, constraint_removed: false })
                }
            },
            ShapeKind::Rect => {
                &&& e == (Document { shape_order: e.shape_order, rects: e.rects, ..d })
                &&& e.shape_order@ == rest
                &&& e.rects@ == popped(d.rects@)
                &&& only_doc_and_status_changed(a, b)
                &&& b.status@ == "Undid last rectangle"@
                &&& r == (UndoOutcome { undone: true, left_sketch: false, constraint_removed: false })
            },
            ShapeKind::Line => {
                &&& e == (Document { shape_order: e.shape_order, lines: e.lines, ..d })
                &&& e.shape_order@ == rest
                &&& e.lines@ == popped(d.lines@)
                &&& only_doc_and_status_changed(a, b)
                &&& b.status@ == "Undid last line"@
                &&& r == (UndoOutcome { undone: true, left_sketch: false, constraint_removed: false })
            },
            ShapeKind::Circle => {
                &&& e == (Document { shape_order: e.shape_order, circles: e.circles, ..d })
                &&& e.shape_order@ == rest
                &&& e.circles@ == popped(d.circles@)
                &&& only_doc_and_status_changed(a, b)
                &&& b.status@ == "Undid last circle"@
                &&& r == (UndoOutcome { undone: true, left_sketch: false, constraint_removed: false })
            },
            ShapeKind::Constraint => {
                &&& e == (Document {
                    shape_order: e.shape_order,
                    constraints: e.constraints,
                    rects: e.rects,
                    lines: e.lines,
                    circles: e.circles,
                    ..d
                })
                &&& e.shape_order@ == rest
                &&& e.constraints@ == popped(d.constraints@)
                &&& geometry_but_locks(d, e)
                &&& locks_in_sync(e)
                &&& only_doc_and_status_changed(a, b)
                &&& b.status@ == "Undid last constraint"@
                &&& r == (UndoOutcome { undone: true, left_sketch: false, constraint_removed: true })
            },
            ShapeKind::Parameter => {
                &&& e == (Document { shape_order: e.shape_order, parameters: e.parameters, ..d })
                &&& e.shape_order@ == rest
                &&& e.parameters@ == popped(d.parameters@)
                &&& only_doc_and_status_changed(a, b)
                &&& b.status@ == "Undid last parameter"@
                &&& r == (UndoOutcome { undone: true, left_sketch: false, constraint_removed: false })
            },
            ShapeKind::Body => {
                &&& e == (Document { shape_order: e.shape_order, bodies: e.bodies, ..d })
                &&& e.shape_order@ == rest
                &&& e.bodies@ == popped(d.bodies@)
                &&& only_doc_and_status_changed(a, b)
                &&& b.status@ == "Undid last body"@
                &&& r == (UndoOutcome { undone: true, left_sketch: false, constraint_removed: false })
            },
            ShapeKind::Extrusion => {
                &&& e == (Document { shape_order: e.shape_order, extrusions: e.extrusions, ..d })
                &&& e.shape_order@ == rest
                &&& e.extrusions@ == popped(d.extrusions@)
                &&& only_doc_and_status_changed(a, b)
                &&& b.status@ == "Undid last extrusion"@
                &&& r == (UndoOutcome { undone: true, left_sketch: false, constraint_removed: false })
            },
            ShapeKind::ConstructionPlane => {
                let n = d.construction_planes@.len();
                if n <= 1 {
                    &&& b == (EditorState { status: b.status, ..a })
                    &&& b.status@ == "Cannot undo default datum plane"@
                    &&& nothing_undone(r)
                } else if spec_has_children(d, FaceId::ConstructionPlane((n - 1) as usize)) {
                    &&& b == (EditorState { status: b.status, ..a })
                    &&& b.status@ == "Cannot undo: construction plane has child sketches"@
                    &&& nothing_undone(r)
                } else {
                    let face = FaceId::ConstructionPlane((n - 1) as usize);
                    let leave = a.sketch_session is Some && spec_sketch_face(d, a.sketch_session->Some_0.sketch) == Some(face);
                    &&& e == (Document { shape_order: e.shape_order, construction_planes: e.construction_planes, ..d })
                    &&& e.shape_order@ == rest
                    &&& e.construction_planes@ == d.construction_planes@.drop_last()
                    &&& leave ==> sketch_session_left(EditorState { doc: e, status: b.status, ..a }, b)
                    &&& !leave ==> only_doc_and_status_changed(a, b)
                    &&& b.status@ == "Undid last construction plane"@
                    &&& r == (UndoOutcome { undone: true, left_sketch: leave, constraint_removed: false })
                }
            },
        }
    }
}

impl EditorState {
    /// Undo the last entry of the creation order.
    pub fn undo_last(&mut self) -> (r: UndoOutcome)
        ensures
            last_undone(*old(self), *final(self), r),
    {
        let n_order = self.doc.shape_order.len();
        if n_order == 0 {
            self.status = string_of("Nothing to undo");
            return UndoOutcome { undone: false, left_sketch: false, constraint_removed: false };
        }
        let last = self.doc.shape_order[n_order - 1];
        match last {
            ShapeKind::Sketch => self.undo_sketch(),
            ShapeKind::ConstructionPlane => self.undo_construction_plane(),
            _ => self.undo_entity(last),
        }
    }

    fn undo_sketch(&mut self) -> (r: UndoOutcome)
        requires
            old(self).doc.shape_order@.len() > 0,
            old(self).doc.shape_order@.last() == ShapeKind::Sketch,
        ensures
            last_undone(*old(self), *final(self), r),
    {
        let idx = if self.doc.sketches.len() > 0 { self.doc.sketches.len() - 1 } else { 0 };
        if self.doc.sketch_has_geometry(idx) {
            self.status = string_of("Cannot undo: sketch has geometry");
            return UndoOutcome { undone: false, left_sketch: false, constraint_removed: false };
        }
        let _ = self.doc.shape_order.pop();
        if self.doc.sketches.len() == 0 {
            self.status = string_of("Nothing to undo");
            return UndoOutcome { undone: false, left_sketch: false, constraint_removed: false };
        }
        let _ = self.doc.sketches.pop();
        let leave = match self.sketch_session {
            Some(session) => session.sketch == idx,
            None => false,
        };
        if leave {
            self.exit_sketch_session();
        }
        self.status = string_of("Undid last sketch");
        UndoOutcome { undone: true, left_sketch: leave, constraint_removed: false }
    }

    fn undo_construction_plane(&mut self) -> (r: UndoOutcome)
        requires
            old(self).doc.shape_order@.len() > 0,
            old(self).doc.shape_order@.last() == ShapeKind::ConstructionPlane,
        ensures
            last_undone(*old(self), *final(self), r),
    {
        let n = self.doc.construction_planes.len();
        if n <= 1 {
            self.status = string_of("Cannot undo default datum plane");
            return UndoOutcome { undone: false, left_sketch: false, constraint_removed: false };
        }
        let face = FaceId::ConstructionPlane(n - 1);
        if self.doc.has_children(face) {
            self.status = string_of("Cannot undo: construction plane has child sketches");
            return UndoOutcome { undone: false, left_sketch: false, constraint_removed: false };
        }
        let _ = self.doc.shape_order.pop();
        let _ = self.doc.construction_planes.pop();
        let leave = match self.sketch_session {
            Some(session) => match self.doc.sketch_face(session.sketch) {
                Some(f) => f == face,
                None => false,
            },
            None => false,
        };
        if leave {
            self.exit_sketch_session();
        }
        self.status = string_of("Undid last construction plane");
        UndoOutcome { undone: true, left_sketch: leave, constraint_removed: false }
    }

    fn undo_entity(&mut self, kind: ShapeKind) -> (r: UndoOutcome)
        requires
            old(self).doc.shape_order@.len() > 0,
            old(self).doc.shape_order@.last() == kind,
            kind != ShapeKind::Sketch,
            kind != ShapeKind::ConstructionPlane,
        ensures
            last_undone(*old(self), *final(self), r),
    {
        let _ = self.doc.shape_order.pop();
        match kind {
            ShapeKind::Rect => {
                let _ = self.doc.rects.pop();
                self.status = string_of("Undid last rectangle");
                UndoOutcome { undone: true, left_sketch: false, constraint_removed: false }
            },
            ShapeKind::Line => {
                let _ = self.doc.lines.pop();
                self.status = string_of("Undid last line");
                UndoOutcome { undone: true, left_sketch: false, constraint_removed: false }
            },
            ShapeKind::Circle => {
                let _ = self.doc.circles.pop();
                self.status = string_of("Undid last circle");
                UndoOutcome { undone: true, left_sketch: false, constraint_removed: false }
            },
            ShapeKind::Constraint => {
                let _ = self.doc.constraints.pop();
                refresh_dimension_locks(&mut self.doc);
                self.status = string_of("Undid last constraint");
                UndoOutcome { undone: true, left_sketch: false, constraint_removed: true }
            },
            ShapeKind::Parameter => {
                let _ = self.doc.parameters.pop();
                self.status = string_of("Undid last parameter");
                UndoOutcome { undone: true, left_sketch: false, constraint_removed: false }
            },
            ShapeKind::Body => {
                let _ = self.doc.bodies.pop();
                self.status = string_of("Undid last body");
                UndoOutcome { undone: true, left_sketch: false, constraint_removed: false }
            },
            ShapeKind::Extrusion => {
                let _ = self.doc.extrusions.pop();
                self.status = string_of("Undid last extrusion");
                UndoOutcome { undone: true, left_sketch: false, constraint_removed: false }
            },
            _ => UndoOutcome { undone: false, left_sketch: false, constraint_removed: false },
        }
    }
}


/// Undoing right after a constraint or dimension was added removes it again: the constraint
/// list and the creation order are as before the addition, the geometry is as before up to
/// the legacy dimension flags, which mirror the remaining constraints, and nothing else in
/// the document or the editor changes.
pub proof fn law_undo_removes_added_constraint(
    d: Document,
    sketch: SketchId,
    kind: ConstraintKind,
    expression: Seq<char>,
    a: EditorState,
    b: EditorState,
    r: UndoOutcome,
)
    requires
        constraint_appended(d, a.doc, sketch, kind, expression),
        last_undone(a, b, r),
    ensures
        b.doc.constraints@ == d.constraints@,
        b.doc.shape_order@ == d.shape_order@,
        b.doc.parameters == d.parameters,
        b.doc.sketches == d.sketches,
        geometry_but_locks(d, b.doc),
        locks_in_sync(b.doc),
        b.doc.construction_planes == d.construction_planes,
        b.doc.extrusions == d.extrusions,
        b.doc.bodies == d.bodies,
        b == (EditorState { doc: b.doc, status: b.status, ..a }),
        r.undone && r.constraint_removed && !r.left_sketch,
{
    assert(a.doc.shape_order@.last() == ShapeKind::Constraint);
    assert(a.doc.shape_order@.drop_last() =~= d.shape_order@);
    assert(a.doc.constraints@.drop_last() =~= d.constraints@);
    let e = a.doc;
    let f = b.doc;
    assert forall|i: int| 0 <= i < d.rects@.len() implies #[trigger] f.rects@[i] == (Rect {
        width_locked: f.rects@[i].width_locked,
        width_expr: f.rects@[i].width_expr,
        height_locked: f.rects@[i].height_locked,
        height_expr: f.rects@[i].height_expr,
        ..d.rects@[i]
    }) by {
        assert(e.rects@[i] == (Rect {
            width_locked: e.rects@[i].width_locked,
            width_expr: e.rects@[i].width_expr,
            height_locked: e.rects@[i].height_locked,
            height_expr: e.rects@[i].height_expr,
            ..d.rects@[i]
        }));
    }
    assert forall|i: int| 0 <= i < d.lines@.len() implies #[trigger] f.lines@[i] == (Line {
        length_locked: f.lines@[i].length_locked,
        length_expr: f.lines@[i].length_expr,
        ..d.lines@[i]
    }) by {
        assert(e.lines@[i] == (Line { length_locked: e.lines@[i].length_locked, length_expr: e.lines@[i].length_expr, ..d.lines@[i] }));
    }
    assert forall|i: int| 0 <= i < d.circles@.len() implies #[trigger] f.circles@[i] == (Circle {
        diameter_locked: f.circles@[i].diameter_locked,
        diameter_expr: f.circles@[i].diameter_expr,
        ..d.circles@[i]
    }) by {
        assert(e.circles@[i] == (Circle {
            diameter_locked: e.circles@[i].diameter_locked,
            diameter_expr: e.circles@[i].diameter_expr,
            ..d.circles@[i]
        }));
    }
}


impl EditorState {
    /// Start renaming the single selected nameable element: show the context pane and focus
    /// its name field, filled with the element's current name.
    pub fn focus_element_name(&mut self) -> (r: ActionResult)
        ensures
            !(old(self).selection@.len() == 1 && is_nameable(old(self).selection@[0])) ==> failed_with(
                r,
                "Select a single element to rename"@,
            ) && *final(self) == *old(self),
            old(self).selection@.len() == 1 && is_nameable(old(self).selection@[0]) ==> {
                let element = old(self).selection@[0];
                &&& r is Applied
                &&& *final(self) == (EditorState {
                    panes: final(self).panes,
                    context_pane: final(self).context_pane,
                    status: final(self).status,
                    ..*old(self)
                })
                &&& spec_is_visible(final(self).panes, Pane::Context)
                &&& forall|p: Pane| p != Pane::Context ==> spec_is_visible(final(self).panes, p) == spec_is_visible(
                    old(self).panes,
                    p,
                )
                &&& final(self).context_pane.focus_name_field
                &&& final(self).context_pane.synced_element == Some(element)
                &&& final(self).context_pane.name_draft@ == (match spec_element_name(old(self).doc, element) {
                    Some(n) => n,
                    None => Seq::<char>::empty(),
                })
                &&& final(self).status@ == "Rename element"@
            },
    {
        let element = match single_nameable_from_selection(&self.selection) {
            Some(e) => e,
            None => {
                return ActionResult::Failed(string_of("Select a single element to rename"));
            },
        };
        self.panes.set(Pane::Context, true);
        self.context_pane.focus_name_field = true;
        self.context_pane.synced_element = Some(element);
        self.context_pane.name_draft = match element_name(&self.doc, element) {
            Some(n) => string_of(n),
            None => String::new(),
        };
        self.status = string_of("Rename element");
        ActionResult::Applied
    }
}

} // verus!
