//! Context pane: union of editable properties for the current selection or draw operation.

use vstd::prelude::*;
use crate::actions::Tool;
use crate::geometric_constraints::{all_constraint_types, constraint_pane_rows, ConstraintPaneRow};
use crate::model::{
    spec_effective_angle_unit, spec_effective_length_unit, effective_angle_unit,
    effective_length_unit, rect_edge_index, rect_with_edge_construction,
    spec_rect_edge_construction, AngleUnit, Document, LengthUnit, RectEdge, SketchId,
};
use crate::names::{
    element_name, is_nameable, single_nameable_from_selection, spec_element_name,
};
use crate::selection::{SceneElement, SceneSelection};
use crate::text::{decimal, labeled_index, string_of};

verus! {

/// New-body / merge-into / cut choice for an in-progress or edited extrusion.
#[derive(Clone, Copy, Debug, PartialEq, Eq, Structural)]
pub enum ExtrudeBodyMode {
    NewBody,
    MergeInto(usize),
    Cut(usize),
}

/// Inputs needed to build the context pane content.
pub struct ContextInput<'a> {
    pub doc: &'a Document,
    pub selection: &'a SceneSelection,
    pub tool: Tool,
    pub draw_rect_construction: Option<bool>,
    pub draw_line_construction: Option<bool>,
    pub draw_circle_construction: Option<bool>,
    /// Curve-mode toggle while the line tool is active.
    pub draw_line_curve_mode: Option<bool>,
    /// Tangent-constraint toggle while the line tool is active.
    pub draw_line_tangent_constraint: Option<bool>,
    /// Whether a sketch is open (snapping only applies inside a sketch).
    pub in_sketch: bool,
    /// Current snapping on/off state.
    pub snapping_enabled: bool,
    /// Body an in-progress/edited extrusion would join by default, if any.
    pub extrude_merge_candidate: Option<usize>,
    /// Current new-body/merge-into choice for the in-progress/edited extrusion.
    pub extrude_body_mode: Option<ExtrudeBodyMode>,
}

pub open spec fn spec_tool_uses_snapping(tool: Tool) -> bool {
    tool is Select || tool is Line || tool is Rectangle || tool is Circle
}

/// Tools that snap while drawing or moving sketch geometry.
pub fn tool_uses_snapping(tool: Tool) -> (r: bool)
    ensures
        r == spec_tool_uses_snapping(tool),
{
    match tool {
        Tool::Select | Tool::Line | Tool::Rectangle | Tool::Circle => true,
        _ => false,
    }
}

/// Tri-state value for a property shared by multiple targets.
#[derive(Clone, Copy, Debug, PartialEq, Eq, Structural)]
pub enum TriState {
    Off,
    On,
    Mixed,
}

#[derive(Clone, Copy, Debug, PartialEq, Eq, Structural)]
pub struct NameControl {
    pub element: SceneElement,
}

#[derive(Clone, Copy, Debug, PartialEq, Eq, Structural)]
pub struct ConstructionControl {
    pub value: TriState,
    pub target_count: usize,
}

/// What the units picker shows: document-level when nothing is selected, per-sketch (with
/// a follow-the-document option) when one sketch is selected.
#[derive(Clone, Copy, Debug, PartialEq, Eq, Structural)]
pub struct UnitsControl {
    /// Sketch this control edits; `None` for the document-level default.
    pub sketch: Option<SketchId>,
    pub effective_length: LengthUnit,
    pub effective_angle: AngleUnit,
    pub length_override: Option<LengthUnit>,
    pub angle_override: Option<AngleUnit>,
    pub document_length: LengthUnit,
    pub document_angle: AngleUnit,
}

/// A user pick from the units picker.
#[derive(Clone, Copy, Debug, PartialEq, Eq, Structural)]
#[allow(inconsistent_fields)]
pub enum UnitsChoice {
    Document { length: LengthUnit, angle: AngleUnit },
    Sketch {
        sketch: SketchId,
        /// `None` means "follow the document default".
        length: Option<LengthUnit>,
        angle: Option<AngleUnit>,
    },
}

#[derive(Clone, Debug, PartialEq, Eq)]
pub struct ExtrudeBodyControl {
    pub mode: ExtrudeBodyMode,
    pub merge_body: usize,
    pub merge_body_label: String,
}

/// What the context pane should display.
#[derive(Clone, Debug, PartialEq, Eq)]
pub struct ContextPaneContent {
    pub name: Option<NameControl>,
    pub curve_mode: Option<bool>,
    pub tangent_constraint: Option<bool>,
    pub construction: Option<ConstructionControl>,
    pub constraints: Option<Vec<ConstraintPaneRow>>,
    /// `Some(enabled)` when the current tool snaps.
    pub snapping: Option<bool>,
    pub extrude_body: Option<ExtrudeBodyControl>,
    pub units: Option<UnitsControl>,
}

/// Draft text and focus state for the name field in the context pane.
#[derive(Clone, Debug)]
pub struct ContextPaneState {
    pub name_draft: String,
    pub focus_name_field: bool,
    pub synced_element: Option<SceneElement>,
}

impl Default for ContextPaneState {
    fn default() -> (r: ContextPaneState)
        ensures
            r.name_draft@ == Seq::<char>::empty(),
            !r.focus_name_field,
            r.synced_element is None,
    {
        ContextPaneState { name_draft: String::new(), focus_name_field: false, synced_element: None }
    }
}

/// Units picker for the selection: document-level for an empty selection, per-sketch for
/// a single live-or-dead sketch in range, hidden otherwise.
pub open spec fn spec_units_control(doc: Document, sel: Seq<SceneElement>) -> Option<UnitsControl> {
    if sel.len() == 0 {
        Some(
            UnitsControl {
                sketch: None,
                effective_length: doc.default_length_unit,
                effective_angle: doc.default_angle_unit,
                length_override: None,
                angle_override: None,
                document_length: doc.default_length_unit,
                document_angle: doc.default_angle_unit,
            },
        )
    } else if sel.len() == 1 && sel[0] is Sketch && sel[0]->Sketch_0 < doc.sketches@.len() {
        let id = sel[0]->Sketch_0;
        Some(
            UnitsControl {
                sketch: Some(id),
                effective_length: spec_effective_length_unit(doc, id),
                effective_angle: spec_effective_angle_unit(doc, id),
                length_override: doc.sketches@[id as int].length_unit,
                angle_override: doc.sketches@[id as int].angle_unit,
                document_length: doc.default_length_unit,
                document_angle: doc.default_angle_unit,
            },
        )
    } else {
        None
    }
}

fn units_control_from_selection(doc: &Document, selection: &SceneSelection) -> (r: Option<
    UnitsControl,
>)
    ensures
        r == spec_units_control(*doc, selection@),
{
    if selection.is_empty() {
        return Some(
            UnitsControl {
                sketch: None,
                effective_length: doc.default_length_unit,
                effective_angle: doc.default_angle_unit,
                length_override: None,
                angle_override: None,
                document_length: doc.default_length_unit,
                document_angle: doc.default_angle_unit,
            },
        );
    }
    let id = match selection.single() {
        Some(SceneElement::Sketch(id)) => id,
        _ => return None,
    };
    if id >= doc.sketches.len() {
        return None;
    }
    Some(
        UnitsControl {
            sketch: Some(id),
            effective_length: effective_length_unit(doc, id),
            effective_angle: effective_angle_unit(doc, id),
            length_override: doc.sketches[id].length_unit,
            angle_override: doc.sketches[id].angle_unit,
            document_length: doc.default_length_unit,
            document_angle: doc.default_angle_unit,
        },
    )
}

/// Sort key of construction targets: lines, then circles, then rectangle edges, each by
/// index (edges of one rectangle counter-clockwise from the bottom).
pub open spec fn target_key_lt(a: SceneElement, b: SceneElement) -> bool {
    match (a, b) {
        (SceneElement::Line(i), SceneElement::Line(j)) => i < j,
        (SceneElement::Line(_), SceneElement::Circle(_)) => true,
        (SceneElement::Line(_), SceneElement::RectEdge(_, _)) => true,
        (SceneElement::Circle(i), SceneElement::Circle(j)) => i < j,
        (SceneElement::Circle(_), SceneElement::RectEdge(_, _)) => true,
        (SceneElement::RectEdge(i, e), SceneElement::RectEdge(j, f)) => i < j || (i == j
            && rect_edge_index(e) < rect_edge_index(f)),
        _ => false,
    }
}

pub open spec fn is_construction_target(e: SceneElement) -> bool {
    e is Line || e is Circle || e is RectEdge
}

/// `s` is strictly increasing in target order.
pub open spec fn strictly_sorted(s: Seq<SceneElement>) -> bool {
    forall|i: int, j: int| 0 <= i < j < s.len() ==> target_key_lt(#[trigger] s[i], #[trigger] s[j])
}

fn target_lt(a: SceneElement, b: SceneElement) -> (r: bool)
    ensures
        r == target_key_lt(a, b),
{
    match (a, b) {
        (SceneElement::Line(i), SceneElement::Line(j)) => i < j,
        (SceneElement::Line(_), SceneElement::Circle(_)) => true,
        (SceneElement::Line(_), SceneElement::RectEdge(_, _)) => true,
        (SceneElement::Circle(i), SceneElement::Circle(j)) => i < j,
        (SceneElement::Circle(_), SceneElement::RectEdge(_, _)) => true,
        (SceneElement::RectEdge(i, e), SceneElement::RectEdge(j, f)) => i < j || (i == j
            && e.index() < f.index()),
        _ => false,
    }
}

proof fn lemma_key_trans(a: SceneElement, b: SceneElement, c: SceneElement)
    requires
        target_key_lt(a, b),
        target_key_lt(b, c),
    ensures
        target_key_lt(a, c),
{
}

proof fn lemma_key_total(a: SceneElement, b: SceneElement)
    requires
        is_construction_target(a),
        is_construction_target(b),
        a != b,
    ensures
        target_key_lt(a, b) || target_key_lt(b, a),
{
}

/// Insert `x` into a strictly sorted list of targets, unless it is already there.
fn insert_sorted(v: &mut Vec<SceneElement>, x: SceneElement)
    requires
        strictly_sorted(old(v)@),
        forall|i: int| 0 <= i < old(v)@.len() ==> is_construction_target(#[trigger] old(v)@[i]),
        is_construction_target(x),
    ensures
        strictly_sorted(final(v)@),
        forall|i: int| 0 <= i < final(v)@.len() ==> is_construction_target(#[trigger] final(v)@[i]),
        forall|e: SceneElement| final(v)@.contains(e) <==> (old(v)@.contains(e) || e == x),
{
    let mut pos: usize = 0;
    while pos < v.len() && target_lt(v[pos], x)
        invariant
            pos <= v@.len(),
            forall|i: int| 0 <= i < pos ==> target_key_lt(#[trigger] v@[i], x),
        decreases v@.len() - pos,
    {
        pos = pos + 1;
    }
    if pos < v.len() && v[pos] == x {
        return;
    }
    let ghost before = v@;
    v.insert(pos, x);
    proof {
        assert forall|i: int| pos <= i < before.len() implies target_key_lt(x, #[trigger] before[i]) by {
            if i > pos {
                lemma_key_total(before[pos as int], x);
                assert(target_key_lt(before[pos as int], before[i]));
                if target_key_lt(before[pos as int], x) {
                } else {
                    lemma_key_trans(x, before[pos as int], before[i]);
                }
            } else {
                lemma_key_total(before[pos as int], x);
            }
        }
        assert forall|i: int, j: int| 0 <= i < j < v@.len() implies target_key_lt(
            #[trigger] v@[i],
            #[trigger] v@[j],
        ) by {
            if j < pos {
                assert(v@[i] == before[i] && v@[j] == before[j]);
            } else if j == pos {
                assert(v@[i] == before[i]);
            } else if i < pos {
                assert(v@[i] == before[i] && v@[j] == before[j - 1]);
                lemma_key_trans(before[i], x, before[j - 1]);
            } else if i == pos {
                assert(v@[j] == before[j - 1]);
            } else {
                assert(v@[i] == before[i - 1] && v@[j] == before[j - 1]);
            }
        }
        assert forall|i: int| 0 <= i < v@.len() implies is_construction_target(#[trigger] v@[i]) by {
            if i < pos {
                assert(v@[i] == before[i]);
            } else if i > pos {
                assert(v@[i] == before[i - 1]);
            }
        }
        assert forall|e: SceneElement| v@.contains(e) <==> (before.contains(e) || e == x) by {
            if v@.contains(e) {
                let k = choose|k: int| 0 <= k < v@.len() && #[trigger] v@[k] == e;
                if k < pos {
                    assert(before[k] == e);
                } else if k > pos {
                    assert(before[k - 1] == e);
                }
            }
            if before.contains(e) {
                let k = choose|k: int| 0 <= k < before.len() && #[trigger] before[k] == e;
                if k < pos {
                    assert(v@[k] == e);
                } else {
                    assert(v@[k + 1] == e);
                }
            }
            if e == x {
                assert(v@[pos as int] == x);
            }
        }
    }
}

/// Lines, circles and rectangle edges of the selection, in target order, each once.
pub fn construction_targets_from_selection(selection: &SceneSelection) -> (r: Vec<SceneElement>)
    ensures
        strictly_sorted(r@),
        forall|e: SceneElement|
            #![trigger r@.contains(e)]
            #![trigger selection@.contains(e)]
            r@.contains(e) <==> (selection@.contains(e) && is_construction_target(e)),
{
    let elements = selection.elements();
    let mut targets: Vec<SceneElement> = Vec::new();
    let mut i: usize = 0;
    while i < elements.len()
        invariant
            i <= elements@.len(),
            elements@ == selection@,
            strictly_sorted(targets@),
            forall|k: int| 0 <= k < targets@.len() ==> is_construction_target(#[trigger] targets@[k]),
            forall|e: SceneElement| targets@.contains(e) <==> (elements@.take(i as int).contains(e)
                && is_construction_target(e)),
        decreases elements@.len() - i,
    {
        let element = elements[i];
        proof {
            assert forall|e: SceneElement| elements@.take(i + 1).contains(e) <==> (elements@.take(
                i as int,
            ).contains(e) || e == element) by {
                if elements@.take(i + 1).contains(e) {
                    let k = choose|k: int| 0 <= k < i + 1 && #[trigger] elements@.take(i + 1)[k] == e;
                    if k < i {
                        assert(elements@.take(i as int)[k] == e);
                    }
                }
                if elements@.take(i as int).contains(e) {
                    let k = choose|k: int| 0 <= k < i && #[trigger] elements@.take(i as int)[k] == e;
                    assert(elements@.take(i + 1)[k] == e);
                }
                if e == element {
                    assert(elements@.take(i + 1)[i as int] == e);
                }
            }
        }
        match element {
            SceneElement::Line(_) | SceneElement::Circle(_) | SceneElement::RectEdge(_, _) => {
                insert_sorted(&mut targets, element)
            },
            _ => {},
        }
        i = i + 1;
    }
    proof {
        assert(elements@.take(i as int) =~= elements@);
    }
    targets
}

/// The construction flag of a line, circle or rectangle edge (in range), if the element has
/// one.
pub open spec fn spec_edge_construction(doc: Document, element: SceneElement) -> Option<bool> {
    match element {
        SceneElement::Line(i) => if i < doc.lines@.len() {
            Some(doc.lines@[i as int].construction)
        } else {
            None
        },
        SceneElement::Circle(i) => if i < doc.circles@.len() {
            Some(doc.circles@[i as int].construction)
        } else {
            None
        },
        SceneElement::RectEdge(i, edge) => if i < doc.rects@.len() {
            Some(spec_rect_edge_construction(doc.rects@[i as int], edge))
        } else {
            None
        },
        _ => None,
    }
}

pub fn edge_construction_for_element(doc: &Document, element: SceneElement) -> (r: Option<bool>)
    ensures
        r == spec_edge_construction(*doc, element),
{
    match element {
        SceneElement::Line(index) => if index < doc.lines.len() {
            Some(doc.lines[index].construction)
        } else {
            None
        },
        SceneElement::Circle(index) => if index < doc.circles.len() {
            Some(doc.circles[index].construction)
        } else {
            None
        },
        SceneElement::RectEdge(index, edge) => if index < doc.rects.len() {
            Some(doc.rects[index].edge_construction(edge))
        } else {
            None
        },
        _ => None,
    }
}

/// Whether a selected line, edge or curve uses dashed (construction) highlighting.
pub fn selection_highlight_dashed(doc: &Document, element: SceneElement) -> (r: Option<bool>)
    ensures
        r == spec_edge_construction(*doc, element),
{
    edge_construction_for_element(doc, element)
}

/// `On` when every flagged target is on, `Off` when none is (or there is none), `Mixed`
/// otherwise.
pub open spec fn spec_construction_tri_state(doc: Document, targets: Seq<SceneElement>) -> TriState {
    let any_on = exists|i: int|
        0 <= i < targets.len() && spec_edge_construction(doc, #[trigger] targets[i]) == Some(true);
    let any_off = exists|i: int|
        0 <= i < targets.len() && spec_edge_construction(doc, #[trigger] targets[i]) == Some(false);
    spec_tri_state_from_flags(any_on, any_off)
}

pub open spec fn spec_tri_state_from_flags(any_on: bool, any_off: bool) -> TriState {
    if any_on && any_off {
        TriState::Mixed
    } else if any_on {
        TriState::On
    } else {
        TriState::Off
    }
}

fn tri_state_from_bool(value: bool) -> (r: TriState)
    ensures
        r == (if value {
            TriState::On
        } else {
            TriState::Off
        }),
{
    if value {
        TriState::On
    } else {
        TriState::Off
    }
}

fn tri_state_from_flags(any_on: bool, any_off: bool) -> (r: TriState)
    ensures
        r == spec_tri_state_from_flags(any_on, any_off),
{
    match (any_on, any_off) {
        (true, false) => TriState::On,
        (false, true) => TriState::Off,
        (true, true) => TriState::Mixed,
        (false, false) => TriState::Off,
    }
}

pub fn construction_tri_state(doc: &Document, targets: &[SceneElement]) -> (r: TriState)
    ensures
        r == spec_construction_tri_state(*doc, targets@),
{
    let mut any_on = false;
    let mut any_off = false;
    let mut i: usize = 0;
    while i < targets.len()
        invariant
            i <= targets@.len(),
            any_on == exists|k: int|
                0 <= k < i && spec_edge_construction(*doc, #[trigger] targets@[k]) == Some(true),
            any_off == exists|k: int|
                0 <= k < i && spec_edge_construction(*doc, #[trigger] targets@[k]) == Some(false),
        decreases targets@.len() - i,
    {
        match edge_construction_for_element(doc, targets[i]) {
            Some(value) => {
                if value {
                    any_on = true;
                } else {
                    any_off = true;
                }
            },
            None => {},
        }
        i = i + 1;
    }
    tri_state_from_flags(any_on, any_off)
}

/// Label of the body an extrusion would merge into: its name, else "Body <index>".
pub open spec fn spec_merge_body_label(doc: Document, bi: usize) -> Seq<char> {
    match spec_element_name(doc, SceneElement::Body(bi)) {
        Some(name) => name,
        None => "Body "@ + decimal(bi as nat),
    }
}

/// The pane content for the given inputs.
pub open spec fn spec_context_pane(input: ContextInput, c: ContextPaneContent) -> bool {
    let sel = input.selection@;
    let draw = if input.draw_rect_construction is Some {
        input.draw_rect_construction
    } else if input.draw_line_construction is Some {
        input.draw_line_construction
    } else {
        input.draw_circle_construction
    };
    &&& c.name == (if sel.len() == 1 && is_nameable(sel[0]) {
        Some(NameControl { element: sel[0] })
    } else {
        None::<NameControl>
    })
    &&& c.snapping == (if input.in_sketch && spec_tool_uses_snapping(input.tool) {
        Some(input.snapping_enabled)
    } else {
        None::<bool>
    })
    &&& (match (input.extrude_merge_candidate, input.extrude_body_mode) {
        (Some(bi), Some(mode)) => c.extrude_body is Some && c.extrude_body->Some_0.mode == mode
            && c.extrude_body->Some_0.merge_body == bi && c.extrude_body->Some_0.merge_body_label@
            == spec_merge_body_label(*input.doc, bi),
        _ => c.extrude_body is None,
    })
    &&& c.units == spec_units_control(*input.doc, sel)
    &&& if draw is Some {
        &&& c.construction == Some(
            ConstructionControl {
                value: if draw->Some_0 {
                    TriState::On
                } else {
                    TriState::Off
                },
                target_count: 1,
            },
        )
        &&& c.constraints is None
        &&& c.curve_mode == (if input.draw_rect_construction is None
            && input.draw_line_construction is Some {
            input.draw_line_curve_mode
        } else {
            None
        })
        &&& c.tangent_constraint == (if input.draw_rect_construction is None
            && input.draw_line_construction is Some {
            input.draw_line_tangent_constraint
        } else {
            None
        })
    } else {
        let targets = sel.filter(|e: SceneElement| is_construction_target(e));
        &&& c.curve_mode is None
        &&& c.tangent_constraint is None
        &&& (if exists|i: int| 0 <= i < sel.len() && is_construction_target(#[trigger] sel[i]) {
            c.construction is Some && c.construction->Some_0.value == spec_construction_tri_state(
                *input.doc,
                sel,
            ) && c.construction->Some_0.target_count == sel.to_set().filter(
                |e: SceneElement| is_construction_target(e),
            ).len()
        } else {
            c.construction is None
        })
        &&& (if input.tool == Tool::Constraint {
            c.constraints is Some && c.constraints->Some_0@.len() == all_constraint_types().len()
                && forall|i: int|
                0 <= i < c.constraints->Some_0@.len() ==> (#[trigger] c.constraints->Some_0@[i]).kind
                    == all_constraint_types()[i]
        } else {
            c.constraints is None
        })
    }
}

} // verus!

verus! {

proof fn lemma_targets_summary(doc: Document, sel: Seq<SceneElement>, targets: Seq<SceneElement>)
    requires
        strictly_sorted(targets),
        forall|e: SceneElement|
            #![trigger targets.contains(e)]
            #![trigger sel.contains(e)]
            targets.contains(e) <==> (sel.contains(e) && is_construction_target(e)),
    ensures
        targets.len() == sel.to_set().filter(|e: SceneElement| is_construction_target(e)).len(),
        spec_construction_tri_state(doc, targets) == spec_construction_tri_state(doc, sel),
        (targets.len() > 0) == (exists|i: int| 0 <= i < sel.len() && is_construction_target(#[trigger] sel[i])),
{
    broadcast use vstd::set::group_set_axioms;

    assert(targets.no_duplicates()) by {
        assert forall|i: int, j: int| 0 <= i < targets.len() && 0 <= j < targets.len() && i != j
            implies targets[i] != targets[j] by {
            if i < j {
                assert(target_key_lt(targets[i], targets[j]));
            } else {
                assert(target_key_lt(targets[j], targets[i]));
            }
        }
    }
    targets.unique_seq_to_set();
    assert forall|e: SceneElement| #[trigger] targets.to_set().contains(e) == sel.to_set().filter(
        |e: SceneElement| is_construction_target(e),
    ).contains(e) by {
        assert(targets.to_set().contains(e) == targets.contains(e));
        assert(sel.to_set().contains(e) == sel.contains(e));
    }
    assert(targets.to_set() =~= sel.to_set().filter(|e: SceneElement| is_construction_target(e)));
    let on_t = exists|i: int| 0 <= i < targets.len() && spec_edge_construction(doc, #[trigger] targets[i]) == Some(true);
    let on_s = exists|i: int| 0 <= i < sel.len() && spec_edge_construction(doc, #[trigger] sel[i]) == Some(true);
    let off_t = exists|i: int| 0 <= i < targets.len() && spec_edge_construction(doc, #[trigger] targets[i]) == Some(false);
    let off_s = exists|i: int| 0 <= i < sel.len() && spec_edge_construction(doc, #[trigger] sel[i]) == Some(false);
    if on_t {
        let i = choose|i: int| 0 <= i < targets.len() && spec_edge_construction(doc, #[trigger] targets[i]) == Some(true);
        assert(targets.contains(targets[i]));
        assert(sel.contains(targets[i]));
        let k = choose|k: int| 0 <= k < sel.len() && sel[k] == targets[i];
        assert(spec_edge_construction(doc, sel[k]) == Some(true));
    }
    if on_s {
        let i = choose|i: int| 0 <= i < sel.len() && spec_edge_construction(doc, #[trigger] sel[i]) == Some(true);
        assert(sel.contains(sel[i]));
        assert(targets.contains(sel[i]));
        let k = choose|k: int| 0 <= k < targets.len() && targets[k] == sel[i];
        assert(spec_edge_construction(doc, targets[k]) == Some(true));
    }
    if off_t {
        let i = choose|i: int| 0 <= i < targets.len() && spec_edge_construction(doc, #[trigger] targets[i]) == Some(false);
        assert(targets.contains(targets[i]));
        assert(sel.contains(targets[i]));
        let k = choose|k: int| 0 <= k < sel.len() && sel[k] == targets[i];
        assert(spec_edge_construction(doc, sel[k]) == Some(false));
    }
    if off_s {
        let i = choose|i: int| 0 <= i < sel.len() && spec_edge_construction(doc, #[trigger] sel[i]) == Some(false);
        assert(sel.contains(sel[i]));
        assert(targets.contains(sel[i]));
        let k = choose|k: int| 0 <= k < targets.len() && targets[k] == sel[i];
        assert(spec_edge_construction(doc, targets[k]) == Some(false));
    }
    if targets.len() > 0 {
        assert(targets.contains(targets[0]));
        assert(sel.contains(targets[0]));
        let k = choose|k: int| 0 <= k < sel.len() && sel[k] == targets[0];
        assert(is_construction_target(sel[k]));
    }
    if exists|i: int| 0 <= i < sel.len() && is_construction_target(#[trigger] sel[i]) {
        let i = choose|i: int| 0 <= i < sel.len() && is_construction_target(#[trigger] sel[i]);
        assert(sel.contains(sel[i]));
        assert(targets.contains(sel[i]));
    }
}

fn merge_body_label(doc: &Document, bi: usize) -> (r: String)
    ensures
        r@ == spec_merge_body_label(*doc, bi),
{
    match element_name(doc, SceneElement::Body(bi)) {
        Some(name) => string_of(name),
        None => {
            let r = labeled_index("Body ", bi, "");
            proof {
                reveal_strlit("");
                assert(r@ =~= "Body "@ + decimal(bi as nat));
            }
            r
        },
    }
}

/// Build the context pane content: a draw mode (rectangle, then line, then circle)
/// shows its construction toggle; otherwise the selection's lines, circles and rectangle edges do.
pub fn context_pane_content(input: &ContextInput<'_>) -> (c: ContextPaneContent)
    ensures
        spec_context_pane(*input, c),
{
    let name = match single_nameable_from_selection(input.selection) {
        Some(element) => Some(NameControl { element }),
        None => None,
    };
    let snapping = if input.in_sketch && tool_uses_snapping(input.tool) {
        Some(input.snapping_enabled)
    } else {
        None
    };
    let extrude_body = match (input.extrude_merge_candidate, input.extrude_body_mode) {
        (Some(bi), Some(mode)) => Some(
            ExtrudeBodyControl { mode, merge_body: bi, merge_body_label: merge_body_label(input.doc, bi) },
        ),
        _ => None,
    };
    let units = units_control_from_selection(input.doc, input.selection);

    if let Some(construction) = input.draw_rect_construction {
        return ContextPaneContent {
            name,
            curve_mode: None,
            tangent_constraint: None,
            construction: Some(
                ConstructionControl { value: tri_state_from_bool(construction), target_count: 1 },
            ),
            constraints: None,
            snapping,
            extrude_body,
            units,
        };
    }
    if let Some(construction) = input.draw_line_construction {
        return ContextPaneContent {
            name,
            curve_mode: input.draw_line_curve_mode,
            tangent_constraint: input.draw_line_tangent_constraint,
            construction: Some(
                ConstructionControl { value: tri_state_from_bool(construction), target_count: 1 },
            ),
            constraints: None,
            snapping,
            extrude_body,
            units,
        };
    }
    if let Some(construction) = input.draw_circle_construction {
        return ContextPaneContent {
            name,
            curve_mode: None,
            tangent_constraint: None,
            construction: Some(
                ConstructionControl { value: tri_state_from_bool(construction), target_count: 1 },
            ),
            constraints: None,
            snapping,
            extrude_body,
            units,
        };
    }

    let targets = construction_targets_from_selection(input.selection);
    proof {
        lemma_targets_summary(*input.doc, input.selection@, targets@);
    }
    let constraints = if input.tool == Tool::Constraint {
        Some(constraint_pane_rows())
    } else {
        None
    };
    let construction = if targets.len() > 0 {
        Some(
            ConstructionControl {
                value: construction_tri_state(input.doc, targets.as_slice()),
                target_count: targets.len(),
            },
        )
    } else {
        None
    };
    ContextPaneContent {
        name,
        curve_mode: None,
        tangent_constraint: None,
        construction,
        constraints,
        snapping,
        extrude_body,
        units,
    }
}

/// Copy the selected element's name into the draft when the named element changes.
pub fn sync_name_draft(state: &mut ContextPaneState, doc: &Document, content: &ContextPaneContent)
    ensures
        content.name is None ==> final(state).synced_element is None && final(state).name_draft
            == old(state).name_draft && final(state).focus_name_field == old(state).focus_name_field,
        content.name is Some && old(state).synced_element == Some(content.name->Some_0.element)
            ==> *final(state) == *old(state),
        content.name is Some && old(state).synced_element != Some(content.name->Some_0.element)
            ==> {
            let element = content.name->Some_0.element;
            &&& final(state).synced_element == Some(element)
            &&& final(state).name_draft@ == (match spec_element_name(*doc, element) {
                Some(n) => n,
                None => Seq::<char>::empty(),
            })
            &&& final(state).focus_name_field == old(state).focus_name_field
        },
{
    let element = match &content.name {
        Some(control) => control.element,
        None => {
            state.synced_element = None;
            return;
        },
    };
    if state.synced_element == Some(element) {
        return;
    }
    state.synced_element = Some(element);
    state.name_draft = match element_name(doc, element) {
        Some(name) => string_of(name),
        None => String::new(),
    };
}

} // verus!

verus! {

/// Error text when `element` cannot carry a construction flag.
pub open spec fn spec_construction_error(element: SceneElement) -> Seq<char> {
    match element {
        SceneElement::Line(i) => "Line "@ + decimal(i as nat) + " not found"@,
        SceneElement::Circle(i) => "Circle "@ + decimal(i as nat) + " not found"@,
        SceneElement::RectEdge(i, _) => "Rectangle "@ + decimal(i as nat) + " not found"@,
        _ => "Only lines, circles, and rectangle edges support construction mode"@,
    }
}

/// `e` differs from `d` at most in the construction flags of lines, circles and rectangle
/// edges.
pub open spec fn only_construction_changed(d: Document, e: Document) -> bool {
    &&& e.parameters == d.parameters
    &&& e.sketches == d.sketches
    &&& e.constraints == d.constraints
    &&& e.construction_planes == d.construction_planes
    &&& e.extrusions == d.extrusions
    &&& e.bodies == d.bodies
    &&& e.shape_order == d.shape_order
    &&& e.default_length_unit == d.default_length_unit
    &&& e.default_angle_unit == d.default_angle_unit
    &&& e.lines@.len() == d.lines@.len()
    &&& e.circles@.len() == d.circles@.len()
    &&& e.rects@.len() == d.rects@.len()
    &&& forall|j: int|
        0 <= j < d.lines@.len() ==> (#[trigger] e.lines@[j]).sketch == d.lines@[j].sketch
            && e.lines@[j].name == d.lines@[j].name && e.lines@[j].deleted == d.lines@[j].deleted
            && e.lines@[j].length_locked == d.lines@[j].length_locked
            && e.lines@[j].length_expr == d.lines@[j].length_expr
    &&& forall|j: int|
        0 <= j < d.circles@.len() ==> (#[trigger] e.circles@[j]).sketch == d.circles@[j].sketch
            && e.circles@[j].name == d.circles@[j].name && e.circles@[j].deleted
            == d.circles@[j].deleted
            && e.circles@[j].diameter_locked == d.circles@[j].diameter_locked
            && e.circles@[j].diameter_expr == d.circles@[j].diameter_expr
    &&& forall|j: int|
        0 <= j < d.rects@.len() ==> (#[trigger] e.rects@[j]).sketch == d.rects@[j].sketch
            && e.rects@[j].name == d.rects@[j].name && e.rects@[j].deleted == d.rects@[j].deleted
            && e.rects@[j].width_locked == d.rects@[j].width_locked
            && e.rects@[j].width_expr == d.rects@[j].width_expr
            && e.rects@[j].height_locked == d.rects@[j].height_locked
            && e.rects@[j].height_expr == d.rects@[j].height_expr
}

/// Whether some of the first `k` entries of `targets` is `el`.
pub open spec fn targeted(targets: Seq<SceneElement>, k: int, el: SceneElement) -> bool {
    exists|t: int| 0 <= t < k && #[trigger] targets[t] == el
}

/// Construction flags after setting `value` on the first `k` of `targets`: each line,
/// circle and rectangle edge named among them has `value`, every other keeps its flag.
pub open spec fn flags_set(d: Document, e: Document, targets: Seq<SceneElement>, k: int, value: bool) -> bool {
    forall|el: SceneElement|
        spec_edge_construction(d, el) is Some ==> #[trigger] spec_edge_construction(e, el) == Some(
            if targeted(targets, k, el) {
                value
            } else {
                spec_edge_construction(d, el)->Some_0
            },
        )
}

proof fn lemma_flaggable_kept(d: Document, e: Document, el: SceneElement)
    requires
        only_construction_changed(d, e),
    ensures
        spec_edge_construction(d, el) is Some <==> spec_edge_construction(e, el) is Some,
{
}

proof fn lemma_only_construction_trans(d: Document, e: Document, f: Document)
    requires
        only_construction_changed(d, e),
        only_construction_changed(e, f),
    ensures
        only_construction_changed(d, f),
{
    assert forall|j: int| 0 <= j < d.lines@.len() implies (#[trigger] f.lines@[j]).sketch == d.lines@[j].sketch
        && f.lines@[j].name == d.lines@[j].name && f.lines@[j].deleted == d.lines@[j].deleted
        && f.lines@[j].length_locked == d.lines@[j].length_locked
        && f.lines@[j].length_expr == d.lines@[j].length_expr by {
        assert(e.lines@[j].sketch == d.lines@[j].sketch);
    }
    assert forall|j: int| 0 <= j < d.circles@.len() implies (#[trigger] f.circles@[j]).sketch == d.circles@[j].sketch
        && f.circles@[j].name == d.circles@[j].name && f.circles@[j].deleted == d.circles@[j].deleted
        && f.circles@[j].diameter_locked == d.circles@[j].diameter_locked
        && f.circles@[j].diameter_expr == d.circles@[j].diameter_expr by {
        assert(e.circles@[j].sketch == d.circles@[j].sketch);
    }
    assert forall|j: int| 0 <= j < d.rects@.len() implies (#[trigger] f.rects@[j]).sketch == d.rects@[j].sketch
        && f.rects@[j].name == d.rects@[j].name && f.rects@[j].deleted == d.rects@[j].deleted
        && f.rects@[j].width_locked == d.rects@[j].width_locked
        && f.rects@[j].width_expr == d.rects@[j].width_expr
        && f.rects@[j].height_locked == d.rects@[j].height_locked
        && f.rects@[j].height_expr == d.rects@[j].height_expr by {
        assert(e.rects@[j].sketch == d.rects@[j].sketch);
    }
}

/// Set the construction flag of one line, circle or rectangle edge.
pub fn set_edge_construction(doc: &mut Document, element: SceneElement, construction: bool) -> (r:
    Result<(), String>)
    ensures
        r is Ok <==> spec_edge_construction(*old(doc), element) is Some,
        r is Err ==> r->Err_0@ == spec_construction_error(element) && *final(doc) == *old(doc),
        only_construction_changed(*old(doc), *final(doc)),
        forall|el: SceneElement|
            spec_edge_construction(*old(doc), el) is Some ==> #[trigger] spec_edge_construction(
                *final(doc),
                el,
            ) == if r is Ok && el == element {
                Some(construction)
            } else {
                spec_edge_construction(*old(doc), el)
            },
        flags_set(*old(doc), *final(doc), seq![element], if r is Ok { 1 } else { 0 }, construction),
{
    let ghost d = *doc;
    let r = match element {
        SceneElement::Line(index) => {
            if index >= doc.lines.len() {
                return Err(labeled_index("Line ", index, " not found"));
            }
            doc.lines[index].construction = construction;
            Ok(())
        },
        SceneElement::Circle(index) => {
            if index >= doc.circles.len() {
                return Err(labeled_index("Circle ", index, " not found"));
            }
            doc.circles[index].construction = construction;
            Ok(())
        },
        SceneElement::RectEdge(index, edge) => {
            if index >= doc.rects.len() {
                return Err(labeled_index("Rectangle ", index, " not found"));
            }
            doc.rects[index].set_edge_construction(edge, construction);
            Ok(())
        },
        _ => {
            return Err(string_of("Only lines, circles, and rectangle edges support construction mode"));
        },
    };
    proof {
        let e = *doc;
        assert(seq![element][0] == element);
        assert forall|el: SceneElement| spec_edge_construction(d, el) is Some implies #[trigger] spec_edge_construction(e, el)
            == Some(if targeted(seq![element], 1, el) { construction } else { spec_edge_construction(d, el)->Some_0 }) by {
            if targeted(seq![element], 1, el) {
                let t = choose|t: int| 0 <= t < 1 && #[trigger] seq![element][t] == el;
                assert(t == 0);
            }
            if el == element {
                assert(targeted(seq![element], 1, el));
            }
            match (el, element) {
                (SceneElement::RectEdge(i, f), SceneElement::RectEdge(j, g)) => {
                    if i == j {
                        assert(spec_rect_edge_construction(e.rects@[i as int], f) == if f == g {
                            construction
                        } else {
                            spec_rect_edge_construction(d.rects@[i as int], f)
                        });
                    }
                },
                _ => {},
            }
        }
    }
    r
}

/// First target that has no construction flag, if any.
pub open spec fn first_unflaggable(doc: Document, targets: Seq<SceneElement>, k: int) -> bool {
    &&& 0 <= k < targets.len()
    &&& spec_edge_construction(doc, targets[k]) is None
    &&& forall|t: int| 0 <= t < k ==> spec_edge_construction(doc, #[trigger] targets[t]) is Some
}

/// Set the construction flag on each target in order, stopping at the first target that
/// has none (earlier targets keep the new flag).
pub fn set_construction_for_targets(
    doc: &mut Document,
    targets: &[SceneElement],
    construction: bool,
) -> (r: Result<usize, String>)
    ensures
        only_construction_changed(*old(doc), *final(doc)),
        r is Ok <==> forall|t: int|
            0 <= t < targets@.len() ==> spec_edge_construction(*old(doc), #[trigger] targets@[t]) is Some,
        r is Ok ==> r->Ok_0 == targets@.len() && flags_set(
            *old(doc),
            *final(doc),
            targets@,
            targets@.len() as int,
            construction,
        ),
        r is Err ==> exists|k: int|
            first_unflaggable(*old(doc), targets@, k) && r->Err_0@ == spec_construction_error(
                targets@[k],
            ) && flags_set(*old(doc), *final(doc), targets@, k, construction),
{
    let ghost d0 = *doc;
    let mut updated: usize = 0;
    while updated < targets.len()
        invariant
            updated <= targets@.len(),
            d0 == *old(doc),
            only_construction_changed(d0, *doc),
            flags_set(d0, *doc, targets@, updated as int, construction),
            forall|t: int| 0 <= t < updated ==> spec_edge_construction(d0, #[trigger] targets@[t]) is Some,
        decreases targets@.len() - updated,
    {
        let ghost cur = *doc;
        let element = targets[updated];
        proof {
            lemma_flaggable_kept(d0, cur, element);
        }
        match set_edge_construction(doc, element, construction) {
            Ok(()) => {},
            Err(e) => {
                proof {
                    assert(first_unflaggable(d0, targets@, updated as int));
                }
                return Err(e);
            },
        }
        proof {
            let next = *doc;
            lemma_only_construction_trans(d0, cur, next);
            assert forall|el: SceneElement| spec_edge_construction(d0, el) is Some implies #[trigger] spec_edge_construction(next, el)
                == Some(if targeted(targets@, updated + 1, el) { construction } else { spec_edge_construction(d0, el)->Some_0 }) by {
                lemma_flaggable_kept(d0, cur, el);
                assert(spec_edge_construction(cur, el) == Some(if targeted(targets@, updated as int, el) {
                    construction
                } else {
                    spec_edge_construction(d0, el)->Some_0
                }));
                if el == element {
                    assert(targets@[updated as int] == el);
                    assert(targeted(targets@, updated + 1, el));
                } else {
                    if targeted(targets@, updated + 1, el) {
                        let t = choose|t: int| 0 <= t < updated + 1 && #[trigger] targets@[t] == el;
                        assert(t < updated);
                        assert(targeted(targets@, updated as int, el));
                    }
                    if targeted(targets@, updated as int, el) {
                        let t = choose|t: int| 0 <= t < updated && #[trigger] targets@[t] == el;
                        assert(targeted(targets@, updated + 1, el));
                    }
                }
            }
        }
        updated = updated + 1;
    }
    Ok(updated)
}

} // verus!

verus! {

/// Number of occurrences of `x` in `s`.
pub open spec fn occurrences(s: Seq<SceneElement>, x: SceneElement) -> nat
    decreases s.len(),
{
    if s.len() == 0 {
        0
    } else {
        occurrences(s.drop_last(), x) + if s.last() == x {
            1nat
        } else {
            0nat
        }
    }
}

/// Number of entries of `s` that carry a construction flag in `doc`.
pub open spec fn flaggable_count(doc: Document, s: Seq<SceneElement>) -> nat
    decreases s.len(),
{
    if s.len() == 0 {
        0
    } else {
        flaggable_count(doc, s.drop_last()) + if spec_edge_construction(doc, s.last()) is Some {
            1nat
        } else {
            0nat
        }
    }
}

/// Each line's, circle's and rectangle edge's flag is flipped once per occurrence in
/// `targets`.
pub open spec fn flags_toggled(d: Document, e: Document, targets: Seq<SceneElement>) -> bool {
    forall|el: SceneElement|
        spec_edge_construction(d, el) is Some ==> #[trigger] spec_edge_construction(e, el) == Some(
            spec_edge_construction(d, el)->Some_0 != (occurrences(targets, el) % 2 == 1),
        )
}

/// Flip the construction flag of each target that has one; returns how many were flipped.
pub fn toggle_construction_for_targets(doc: &mut Document, targets: &[SceneElement]) -> (r: Result<
    usize,
    String,
>)
    ensures
        r is Ok,
        r->Ok_0 == flaggable_count(*old(doc), targets@),
        only_construction_changed(*old(doc), *final(doc)),
        flags_toggled(*old(doc), *final(doc), targets@),
{
    let ghost d0 = *doc;
    let mut updated: usize = 0;
    let mut i: usize = 0;
    proof {
        assert(targets@.take(0) =~= Seq::<SceneElement>::empty());
    }
    while i < targets.len()
        invariant
            i <= targets@.len(),
            updated <= i,
            d0 == *old(doc),
            only_construction_changed(d0, *doc),
            updated == flaggable_count(d0, targets@.take(i as int)),
            flags_toggled(d0, *doc, targets@.take(i as int)),
        decreases targets@.len() - i,
    {
        let ghost cur = *doc;
        let element = targets[i];
        proof {
            assert(targets@.take(i + 1).drop_last() =~= targets@.take(i as int));
            assert(targets@.take(i + 1).last() == element);
            lemma_flaggable_kept(d0, cur, element);
        }
        match edge_construction_for_element(doc, element) {
            Some(current) => {
                let res = set_edge_construction(doc, element, !current);
                proof {
                    assert(res is Ok);
                    let next = *doc;
                    lemma_only_construction_trans(d0, cur, next);
                    assert forall|el: SceneElement| spec_edge_construction(d0, el) is Some implies #[trigger] spec_edge_construction(next, el)
                        == Some(spec_edge_construction(d0, el)->Some_0 != (occurrences(targets@.take(i + 1), el) % 2 == 1)) by {
                        lemma_flaggable_kept(d0, cur, el);
                        assert(spec_edge_construction(cur, el) == Some(spec_edge_construction(d0, el)->Some_0 != (occurrences(targets@.take(i as int), el) % 2 == 1)));
                    }
                }
                updated = updated + 1;
            },
            None => {
                proof {
                    assert(spec_edge_construction(d0, element) is None);
                    assert forall|el: SceneElement| spec_edge_construction(d0, el) is Some implies #[trigger] spec_edge_construction(cur, el)
                        == Some(spec_edge_construction(d0, el)->Some_0 != (occurrences(targets@.take(i + 1), el) % 2 == 1)) by {
                        assert(spec_edge_construction(cur, el) == Some(spec_edge_construction(d0, el)->Some_0 != (occurrences(targets@.take(i as int), el) % 2 == 1)));
                    }
                }
            },
        }
        i = i + 1;
    }
    proof {
        assert(targets@.take(i as int) =~= targets@);
    }
    Ok(updated)
}

proof fn lemma_toggled_twice(d: Document, e: Document, f: Document, targets: Seq<SceneElement>, el: SceneElement)
    requires
        only_construction_changed(d, e),
        flags_toggled(d, e, targets),
        flags_toggled(e, f, targets),
        spec_edge_construction(d, el) is Some,
    ensures
        spec_edge_construction(f, el) == spec_edge_construction(d, el),
{
    lemma_flaggable_kept(d, e, el);
    assert(spec_edge_construction(e, el) == Some(spec_edge_construction(d, el)->Some_0 != (occurrences(targets, el) % 2 == 1)));
    assert(spec_edge_construction(f, el) == Some(spec_edge_construction(e, el)->Some_0 != (occurrences(targets, el) % 2 == 1)));
}

/// Toggling construction on the same targets twice restores every line, circle and
/// rectangle as it was.
pub proof fn law_toggle_construction_twice_restores(d: Document, e: Document, f: Document, targets: Seq<SceneElement>)
    requires
        only_construction_changed(d, e),
        flags_toggled(d, e, targets),
        only_construction_changed(e, f),
        flags_toggled(e, f, targets),
    ensures
        f.lines@.len() == d.lines@.len(),
        f.circles@.len() == d.circles@.len(),
        f.rects@.len() == d.rects@.len(),
        forall|j: usize| j < d.lines@.len() ==> #[trigger] f.lines@[j as int] == d.lines@[j as int],
        forall|j: usize| j < d.circles@.len() ==> #[trigger] f.circles@[j as int] == d.circles@[j as int],
        forall|j: usize| j < d.rects@.len() ==> #[trigger] f.rects@[j as int] == d.rects@[j as int],
{
    assert forall|j: usize| j < d.lines@.len() implies #[trigger] f.lines@[j as int] == d.lines@[j as int] by {
        let el = SceneElement::Line(j);
        assert(spec_edge_construction(d, el) is Some);
        assert(spec_edge_construction(e, el) is Some);
        lemma_toggled_twice(d, e, f, targets, el);
        assert(f.lines@[j as int].sketch == e.lines@[j as int].sketch);
        assert(e.lines@[j as int].sketch == d.lines@[j as int].sketch);
    }
    assert forall|j: usize| j < d.circles@.len() implies #[trigger] f.circles@[j as int] == d.circles@[j as int] by {
        let el = SceneElement::Circle(j);
        assert(spec_edge_construction(d, el) is Some);
        assert(spec_edge_construction(e, el) is Some);
        lemma_toggled_twice(d, e, f, targets, el);
        assert(f.circles@[j as int].sketch == e.circles@[j as int].sketch);
        assert(e.circles@[j as int].sketch == d.circles@[j as int].sketch);
    }
    assert forall|j: usize| j < d.rects@.len() implies #[trigger] f.rects@[j as int] == d.rects@[j as int] by {
        let b = SceneElement::RectEdge(j, RectEdge::Bottom);
        let r = SceneElement::RectEdge(j, RectEdge::Right);
        let t = SceneElement::RectEdge(j, RectEdge::Top);
        let l = SceneElement::RectEdge(j, RectEdge::Left);
        assert(spec_edge_construction(d, b) is Some && spec_edge_construction(e, b) is Some);
        assert(spec_edge_construction(d, r) is Some && spec_edge_construction(e, r) is Some);
        assert(spec_edge_construction(d, t) is Some && spec_edge_construction(e, t) is Some);
        assert(spec_edge_construction(d, l) is Some && spec_edge_construction(e, l) is Some);
        lemma_toggled_twice(d, e, f, targets, b);
        lemma_toggled_twice(d, e, f, targets, r);
        lemma_toggled_twice(d, e, f, targets, t);
        lemma_toggled_twice(d, e, f, targets, l);
        assert(f.rects@[j as int].sketch == e.rects@[j as int].sketch);
        assert(e.rects@[j as int].sketch == d.rects@[j as int].sketch);
    }
}

} // verus!

verus! {

/// The construction row of a selection: `Mixed` as soon as one flaggable element is
/// construction and another is not; `On` exactly when some flaggable element is construction
/// and none is solid; `Off` otherwise (nothing flaggable is construction).
pub proof fn law_construction_tri_state(doc: Document, targets: Seq<SceneElement>, i: int, j: int)
    requires
        0 <= i < targets.len(),
        0 <= j < targets.len(),
    ensures
        spec_edge_construction(doc, targets[i]) == Some(true) && spec_edge_construction(doc, targets[j])
            == Some(false) ==> spec_construction_tri_state(doc, targets) == TriState::Mixed,
        spec_construction_tri_state(doc, targets) == TriState::On ==> spec_edge_construction(doc, targets[j])
            != Some(false),
        spec_construction_tri_state(doc, targets) == TriState::Off ==> spec_edge_construction(doc, targets[i])
            != Some(true),
        spec_edge_construction(doc, targets[i]) == Some(true) ==> spec_construction_tri_state(doc, targets)
            != TriState::Off,
        spec_edge_construction(doc, targets[i]) == Some(true) && (forall|k: int|
            0 <= k < targets.len() ==> spec_edge_construction(doc, #[trigger] targets[k]) != Some(false))
            ==> spec_construction_tri_state(doc, targets) == TriState::On,
        (forall|k: int| 0 <= k < targets.len() ==> spec_edge_construction(doc, #[trigger] targets[k]) != Some(true))
            ==> spec_construction_tri_state(doc, targets) == TriState::Off,
{
}

} // verus!
