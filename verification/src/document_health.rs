//! Health of document entities whose dependencies broke.
//!
//! Health is assigned only for direct broken dependencies: constraints that reference
//! deleted geometry or expressions that cannot be evaluated, geometry still alive that was a
//! partner of such a constraint (unstable), and parameters with bad expressions or direct
//! references to invalid parameters. Everything else stays healthy.

use vstd::prelude::*;
use crate::constraints::{dimension_constraint_matches, find_dimension_constraint};
use crate::document_lifecycle::{
    constraint_entity_alive, constraint_line_alive, constraint_point_alive, distance_target_alive,
    element_alive, spec_constraint_entity_alive, spec_constraint_line_alive,
    spec_constraint_point_alive, spec_distance_target_alive, spec_element_alive,
};
use crate::model::{
    ConstraintEntity, ConstraintKind, ConstraintLine, ConstraintPoint, DimensionTarget,
    DistanceTarget, Document, ParameterSource,
};
use crate::expression_input::{expression_variables, string_views, variable_refs};
use crate::document_lifecycle::{line_alive, spec_line_alive};
use crate::selection::{SceneElement, SceneSelection};
use crate::text::{push_str, string_of};

verus! {

#[derive(Clone, Copy, Debug, PartialEq, Eq, Structural)]
pub enum HealthStatus {
    Healthy,
    Unstable,
    Invalid,
}

impl Default for HealthStatus {
    fn default() -> (r: HealthStatus)
        ensures
            r == HealthStatus::Healthy,
    {
        HealthStatus::Healthy
    }
}

impl HealthStatus {
    /// Unstable and invalid entities cannot be edited.
    pub fn is_frozen(self) -> (r: bool)
        ensures
            r == !(self is Healthy),
    {
        match self {
            HealthStatus::Unstable | HealthStatus::Invalid => true,
            HealthStatus::Healthy => false,
        }
    }
}

pub open spec fn spec_health_status_label(status: HealthStatus) -> Seq<char> {
    match status {
        HealthStatus::Healthy => "healthy"@,
        HealthStatus::Unstable => "unstable"@,
        HealthStatus::Invalid => "invalid"@,
    }
}

pub fn health_status_label(status: HealthStatus) -> (r: &'static str)
    ensures
        r@ == spec_health_status_label(status),
{
    match status {
        HealthStatus::Healthy => "healthy",
        HealthStatus::Unstable => "unstable",
        HealthStatus::Invalid => "invalid",
    }
}


/// Health recorded for one scene element, with the reason shown to the user.
#[derive(Clone, Debug)]
pub struct ElementHealth {
    pub element: SceneElement,
    pub status: HealthStatus,
    pub reason: String,
}

/// Health recorded for one parameter (by index), with the reason shown to the user.
#[derive(Clone, Debug)]
pub struct ParameterHealth {
    pub index: usize,
    pub status: HealthStatus,
    pub reason: String,
}

/// Health of a whole document: the elements and parameters that are not healthy. An entity
/// missing from the lists is healthy; when one is listed twice its first entry counts.
#[derive(Clone, Debug)]
pub struct DocumentHealth {
    pub elements: Vec<ElementHealth>,
    pub parameters: Vec<ParameterHealth>,
}

impl Default for DocumentHealth {
    fn default() -> (r: DocumentHealth)
        ensures
            r.elements@.len() == 0,
            r.parameters@.len() == 0,
    {
        DocumentHealth { elements: Vec::new(), parameters: Vec::new() }
    }
}

/// The first entry of `entries` from position `k` on that is about `e`.
pub open spec fn element_entry_from(entries: Seq<ElementHealth>, e: SceneElement, k: int) -> Option<int>
    decreases entries.len() - k,
{
    if k < 0 || k >= entries.len() {
        None
    } else if entries[k].element == e {
        Some(k)
    } else {
        element_entry_from(entries, e, k + 1)
    }
}

pub open spec fn parameter_entry_from(entries: Seq<ParameterHealth>, index: usize, k: int) -> Option<int>
    decreases entries.len() - k,
{
    if k < 0 || k >= entries.len() {
        None
    } else if entries[k].index == index {
        Some(k)
    } else {
        parameter_entry_from(entries, index, k + 1)
    }
}

pub open spec fn spec_element_status(h: DocumentHealth, e: SceneElement) -> HealthStatus {
    match element_entry_from(h.elements@, e, 0) {
        Some(k) => h.elements@[k].status,
        None => HealthStatus::Healthy,
    }
}

pub open spec fn spec_element_reason(h: DocumentHealth, e: SceneElement) -> Option<Seq<char>> {
    match element_entry_from(h.elements@, e, 0) {
        Some(k) => Some(h.elements@[k].reason@),
        None => None,
    }
}

pub open spec fn spec_parameter_status(h: DocumentHealth, index: usize) -> HealthStatus {
    match parameter_entry_from(h.parameters@, index, 0) {
        Some(k) => h.parameters@[k].status,
        None => HealthStatus::Healthy,
    }
}

pub open spec fn spec_parameter_reason(h: DocumentHealth, index: usize) -> Option<Seq<char>> {
    match parameter_entry_from(h.parameters@, index, 0) {
        Some(k) => Some(h.parameters@[k].reason@),
        None => None,
    }
}

proof fn lemma_element_entry_bounds(entries: Seq<ElementHealth>, e: SceneElement, k: int)
    ensures
        element_entry_from(entries, e, k) matches Some(j) ==> k <= j < entries.len() && entries[j].element == e,
    decreases entries.len() - k,
{
    if 0 <= k < entries.len() && entries[k].element != e {
        lemma_element_entry_bounds(entries, e, k + 1);
    }
}

proof fn lemma_parameter_entry_bounds(entries: Seq<ParameterHealth>, index: usize, k: int)
    ensures
        parameter_entry_from(entries, index, k) matches Some(j) ==> k <= j < entries.len() && entries[j].index == index,
    decreases entries.len() - k,
{
    if 0 <= k < entries.len() && entries[k].index != index {
        lemma_parameter_entry_bounds(entries, index, k + 1);
    }
}

impl DocumentHealth {
    fn element_entry(&self, element: SceneElement) -> (r: Option<usize>)
        ensures
            match element_entry_from(self.elements@, element, 0) {
                Some(k) => r is Some && r->Some_0 as int == k,
                None => r is None,
            },
            r matches Some(k) ==> k < self.elements@.len(),
    {
        let mut k: usize = 0;
        while k < self.elements.len()
            invariant
                k <= self.elements@.len(),
                element_entry_from(self.elements@, element, k as int) == element_entry_from(self.elements@, element, 0),
            decreases self.elements@.len() - k,
        {
            if self.elements[k].element == element {
                return Some(k);
            }
            k = k + 1;
        }
        None
    }

    fn parameter_entry(&self, index: usize) -> (r: Option<usize>)
        ensures
            match parameter_entry_from(self.parameters@, index, 0) {
                Some(k) => r is Some && r->Some_0 as int == k,
                None => r is None,
            },
            r matches Some(k) ==> k < self.parameters@.len(),
    {
        let mut k: usize = 0;
        while k < self.parameters.len()
            invariant
                k <= self.parameters@.len(),
                parameter_entry_from(self.parameters@, index, k as int) == parameter_entry_from(self.parameters@, index, 0),
            decreases self.parameters@.len() - k,
        {
            if self.parameters[k].index == index {
                return Some(k);
            }
            k = k + 1;
        }
        None
    }

    pub fn element_status(&self, element: SceneElement) -> (r: HealthStatus)
        ensures
            r == spec_element_status(*self, element),
    {
        match self.element_entry(element) {
            Some(k) => self.elements[k].status,
            None => HealthStatus::Healthy,
        }
    }

    pub fn parameter_status(&self, index: usize) -> (r: HealthStatus)
        ensures
            r == spec_parameter_status(*self, index),
    {
        match self.parameter_entry(index) {
            Some(k) => self.parameters[k].status,
            None => HealthStatus::Healthy,
        }
    }

    pub fn element_reason(&self, element: SceneElement) -> (r: Option<&str>)
        ensures
            match spec_element_reason(*self, element) {
                Some(m) => r is Some && r->Some_0@ == m,
                None => r is None,
            },
    {
        match self.element_entry(element) {
            Some(k) => Some(self.elements[k].reason.as_str()),
            None => None,
        }
    }

    pub fn parameter_reason(&self, index: usize) -> (r: Option<&str>)
        ensures
            match spec_parameter_reason(*self, index) {
                Some(m) => r is Some && r->Some_0@ == m,
                None => r is None,
            },
    {
        match self.parameter_entry(index) {
            Some(k) => Some(self.parameters[k].reason.as_str()),
            None => None,
        }
    }

    /// The element's status when it blocks editing (unstable or invalid).
    pub fn selection_frozen(&self, element: SceneElement) -> (r: Option<HealthStatus>)
        ensures
            r == (if spec_element_status(*self, element) is Healthy {
                None
            } else {
                Some(spec_element_status(*self, element))
            }),
    {
        let status = self.element_status(element);
        if status.is_frozen() {
            Some(status)
        } else {
            None
        }
    }
}

/// The message for a frozen entity: `{status}: {reason}`, or `{what} is {status}`
/// when no reason is recorded.
pub open spec fn frozen_message(what: Seq<char>, status: HealthStatus, reason: Option<Seq<char>>) -> Seq<char> {
    match reason {
        Some(r) => spec_health_status_label(status) + ": "@ + r,
        None => what + " is "@ + spec_health_status_label(status),
    }
}

fn format_frozen(what: &str, status: HealthStatus, reason: Option<&str>) -> (r: String)
    ensures
        r@ == frozen_message(what@, status, match reason {
            Some(x) => Some(x@),
            None => None,
        }),
{
    match reason {
        Some(x) => {
            let mut m = string_of(health_status_label(status));
            push_str(&mut m, ": ");
            push_str(&mut m, x);
            m
        },
        None => {
            let mut m = string_of(what);
            push_str(&mut m, " is ");
            push_str(&mut m, health_status_label(status));
            m
        },
    }
}

/// Why `element` cannot be edited, if it is frozen.
pub open spec fn element_frozen_error(h: DocumentHealth, element: SceneElement) -> Option<Seq<char>> {
    let status = spec_element_status(h, element);
    if status is Healthy {
        None
    } else {
        Some(frozen_message("Element"@, status, spec_element_reason(h, element)))
    }
}

pub open spec fn error_matches(r: Result<(), String>, err: Option<Seq<char>>) -> bool {
    match err {
        None => r is Ok,
        Some(m) => r is Err && r->Err_0@ == m,
    }
}

/// Refuse editing a frozen element, with its reason.
pub fn require_element_editable(health: &DocumentHealth, element: SceneElement) -> (r: Result<(), String>)
    ensures
        error_matches(r, element_frozen_error(*health, element)),
{
    match health.selection_frozen(element) {
        Some(status) => Err(format_frozen("Element", status, health.element_reason(element))),
        None => Ok(()),
    }
}

pub open spec fn parameter_frozen_error(h: DocumentHealth, index: usize) -> Option<Seq<char>> {
    let status = spec_parameter_status(h, index);
    if status is Healthy {
        None
    } else {
        Some(frozen_message("Parameter"@, status, spec_parameter_reason(h, index)))
    }
}

/// Refuse editing a parameter that is not healthy, with its reason.
pub fn require_parameter_editable(health: &DocumentHealth, index: usize) -> (r: Result<(), String>)
    ensures
        error_matches(r, parameter_frozen_error(*health, index)),
{
    match health.parameter_status(index) {
        HealthStatus::Healthy => Ok(()),
        status => Err(format_frozen("Parameter", status, health.parameter_reason(index))),
    }
}

/// The element whose health stands for a constraint line.
pub open spec fn line_element(line: ConstraintLine) -> SceneElement {
    match line {
        ConstraintLine::Line(i) => SceneElement::Line(i),
        ConstraintLine::RectEdge { rect, .. } => SceneElement::Rect(rect),
    }
}

pub open spec fn point_element(point: ConstraintPoint) -> SceneElement {
    match point {
        ConstraintPoint::LineEndpoint { line, .. } => SceneElement::Line(line),
        ConstraintPoint::RectCorner { rect, .. } => SceneElement::Rect(rect),
        ConstraintPoint::CircleCenter(circle) => SceneElement::Circle(circle),
    }
}

pub open spec fn distance_target_element(target: DistanceTarget) -> SceneElement {
    match target {
        DistanceTarget::LineLength(i) => SceneElement::Line(i),
        DistanceTarget::RectWidth(i) => SceneElement::Rect(i),
        DistanceTarget::RectHeight(i) => SceneElement::Rect(i),
        DistanceTarget::CircleDiameter(i) => SceneElement::Circle(i),
        DistanceTarget::LineLineDistance { line_a, .. } => line_element(line_a),
        DistanceTarget::PointPointDistance { anchor, .. } => point_element(anchor),
        DistanceTarget::PointLineDistance { point, .. } => point_element(point),
    }
}

pub open spec fn dimension_target_element(target: DimensionTarget) -> SceneElement {
    match target {
        DimensionTarget::Distance(d) => distance_target_element(d),
        DimensionTarget::Angle { line_a, .. } => line_element(line_a),
    }
}

fn scene_element_for_line(line: ConstraintLine) -> (r: SceneElement)
    ensures
        r == line_element(line),
{
    match line {
        ConstraintLine::Line(i) => SceneElement::Line(i),
        ConstraintLine::RectEdge { rect, .. } => SceneElement::Rect(rect),
    }
}

fn scene_element_for_point(point: ConstraintPoint) -> (r: SceneElement)
    ensures
        r == point_element(point),
{
    match point {
        ConstraintPoint::LineEndpoint { line, .. } => SceneElement::Line(line),
        ConstraintPoint::RectCorner { rect, .. } => SceneElement::Rect(rect),
        ConstraintPoint::CircleCenter(circle) => SceneElement::Circle(circle),
    }
}

fn scene_element_for_distance_target(target: DistanceTarget) -> (r: SceneElement)
    ensures
        r == distance_target_element(target),
{
    match target {
        DistanceTarget::LineLength(i) => SceneElement::Line(i),
        DistanceTarget::RectWidth(i) => SceneElement::Rect(i),
        DistanceTarget::RectHeight(i) => SceneElement::Rect(i),
        DistanceTarget::CircleDiameter(i) => SceneElement::Circle(i),
        DistanceTarget::LineLineDistance { line_a, .. } => scene_element_for_line(line_a),
        DistanceTarget::PointPointDistance { anchor, .. } => scene_element_for_point(anchor),
        DistanceTarget::PointLineDistance { point, .. } => scene_element_for_point(point),
    }
}

fn scene_element_for_dimension_target(target: DimensionTarget) -> (r: SceneElement)
    ensures
        r == dimension_target_element(target),
{
    match target {
        DimensionTarget::Distance(d) => scene_element_for_distance_target(d),
        DimensionTarget::Angle { line_a, .. } => scene_element_for_line(line_a),
    }
}

/// The constraint already dimensioning `target`: the first that matches.
pub open spec fn first_dimension_constraint(doc: Document, target: DimensionTarget) -> Option<int> {
    if exists|i: int| #[trigger] dimension_constraint_matches(doc, target, i) && forall|j: int|
        0 <= j < i ==> !#[trigger] dimension_constraint_matches(doc, target, j) {
        Some(
            choose|i: int| #[trigger] dimension_constraint_matches(doc, target, i) && forall|j: int|
                0 <= j < i ==> !#[trigger] dimension_constraint_matches(doc, target, j),
        )
    } else {
        None
    }
}

/// Why a dimension on `target` cannot be edited: its geometry, or the constraint already on
/// it, is frozen.
pub open spec fn dimension_target_error(h: DocumentHealth, doc: Document, target: DimensionTarget) -> Option<Seq<char>> {
    match element_frozen_error(h, dimension_target_element(target)) {
        Some(m) => Some(m),
        None => match first_dimension_constraint(doc, target) {
            Some(i) => element_frozen_error(h, SceneElement::Constraint(i as usize)),
            None => None,
        },
    }
}

pub fn require_dimension_target_editable(
    health: &DocumentHealth,
    doc: &Document,
    target: DimensionTarget,
) -> (r: Result<(), String>)
    ensures
        error_matches(r, dimension_target_error(*health, *doc, target)),
{
    match require_element_editable(health, scene_element_for_dimension_target(target)) {
        Err(e) => return Err(e),
        Ok(()) => {},
    }
    let found = find_dimension_constraint(doc, target);
    proof {
        match found {
            Some(i) => {
                let k = i as int;
                assert(dimension_constraint_matches(*doc, target, k) && forall|j: int|
                    0 <= j < k ==> !#[trigger] dimension_constraint_matches(*doc, target, j));
                let c = choose|c: int| #[trigger] dimension_constraint_matches(*doc, target, c) && forall|j: int|
                    0 <= j < c ==> !#[trigger] dimension_constraint_matches(*doc, target, j);
                if c < k {
                    assert(!dimension_constraint_matches(*doc, target, c));
                } else if k < c {
                    assert(!dimension_constraint_matches(*doc, target, k));
                }
                assert(first_dimension_constraint(*doc, target) == Some(k));
            },
            None => {
                assert(first_dimension_constraint(*doc, target) is None);
            },
        }
    }
    match found {
        Some(index) => require_element_editable(health, SceneElement::Constraint(index)),
        None => Ok(()),
    }
}

/// Why constraint `index` cannot be edited: it is frozen, or the geometry it dimensions is.
pub open spec fn constraint_edit_error(h: DocumentHealth, doc: Document, index: usize) -> Option<Seq<char>> {
    match element_frozen_error(h, SceneElement::Constraint(index)) {
        Some(m) => Some(m),
        None => if index >= doc.constraints@.len() {
            None
        } else {
            match doc.constraints@[index as int].kind {
                ConstraintKind::Distance { target } => element_frozen_error(h, distance_target_element(target)),
                ConstraintKind::Angle { line_a, line_b, .. } => match element_frozen_error(h, line_element(line_a)) {
                    Some(m) => Some(m),
                    None => element_frozen_error(h, line_element(line_b)),
                },
                _ => None,
            }
        },
    }
}

pub fn require_constraint_editable(health: &DocumentHealth, doc: &Document, constraint: usize) -> (r: Result<(), String>)
    ensures
        error_matches(r, constraint_edit_error(*health, *doc, constraint)),
{
    match require_element_editable(health, SceneElement::Constraint(constraint)) {
        Err(e) => return Err(e),
        Ok(()) => {},
    }
    if constraint >= doc.constraints.len() {
        return Ok(());
    }
    match doc.constraints[constraint].kind {
        ConstraintKind::Distance { target } => require_element_editable(health, scene_element_for_distance_target(target)),
        ConstraintKind::Angle { line_a, line_b, .. } => {
            match require_element_editable(health, scene_element_for_line(line_a)) {
                Err(e) => return Err(e),
                Ok(()) => {},
            }
            require_element_editable(health, scene_element_for_line(line_b))
        },
        _ => Ok(()),
    }
}


/// What a frozen element's summary says: its reason, or `Element is {status}`.
pub open spec fn frozen_reason(h: DocumentHealth, e: SceneElement) -> Seq<char> {
    match spec_element_reason(h, e) {
        Some(r) => r,
        None => "Element is "@ + spec_health_status_label(spec_element_status(h, e)),
    }
}

/// `e` counts in a summary: frozen, or invalid when `only_invalid`.
pub open spec fn summary_counts(h: DocumentHealth, e: SceneElement, only_invalid: bool) -> bool {
    if only_invalid {
        spec_element_status(h, e) is Invalid
    } else {
        !(spec_element_status(h, e) is Healthy)
    }
}

/// `k` is the first position of `s` whose element counts.
pub open spec fn first_counting(h: DocumentHealth, s: Seq<SceneElement>, k: int, only_invalid: bool) -> bool {
    &&& 0 <= k < s.len()
    &&& summary_counts(h, s[k], only_invalid)
    &&& forall|j: int| 0 <= j < k ==> !summary_counts(h, #[trigger] s[j], only_invalid)
}

/// Nothing in `s` is frozen.
pub open spec fn none_frozen(h: DocumentHealth, s: Seq<SceneElement>) -> bool {
    forall|k: int| 0 <= k < s.len() ==> !summary_counts(h, #[trigger] s[k], false)
}

/// `(status, reason)` summarizes the frozen elements of `s`: the worst status (invalid
/// outranks unstable) with the reason of the first element that has it.
pub open spec fn frozen_summary_is(h: DocumentHealth, s: Seq<SceneElement>, status: HealthStatus, reason: Seq<char>) -> bool {
    &&& !(status is Healthy)
    &&& exists|k: int| first_counting(h, s, k, status is Invalid) && reason == frozen_reason(h, #[trigger] s[k])
    &&& status is Unstable ==> forall|k: int| 0 <= k < s.len() ==> !summary_counts(h, #[trigger] s[k], true)
}

/// Worst frozen status among the selection, with the reason of the first element that has
/// it: invalid outranks unstable.
pub fn selection_frozen_summary(health: &DocumentHealth, selection: &SceneSelection) -> (r: Option<(HealthStatus, String)>)
    ensures
        match r {
            None => none_frozen(*health, selection@),
            Some((status, reason)) => frozen_summary_is(*health, selection@, status, reason@),
        },
{
    let items = selection.elements();
    let ghost s = selection@;
    let mut worst: Option<(HealthStatus, String)> = None;
    let mut i: usize = 0;
    while i < items.len()
        invariant
            items@ == s,
            s == selection@,
            i <= s.len(),
            match worst {
                None => forall|k: int| 0 <= k < i ==> !summary_counts(*health, #[trigger] s[k], false),
                Some((status, reason)) => {
                    &&& !(status is Healthy)
                    &&& exists|k: int|
                        0 <= k < i && first_counting(*health, s, k, status is Invalid) && reason@ == frozen_reason(
                            *health,
                            #[trigger] s[k],
                        )
                    &&& status is Unstable ==> forall|k: int| 0 <= k < i ==> !summary_counts(*health, #[trigger] s[k], true)
                },
            },
        decreases s.len() - i,
    {
        let element = items[i];
        let status = health.element_status(element);
        if status.is_frozen() {
            let reason = match health.element_reason(element) {
                Some(r) => string_of(r),
                None => {
                    let mut m = string_of("Element is ");
                    push_str(&mut m, health_status_label(status));
                    m
                },
            };
            proof {
                assert(reason@ == frozen_reason(*health, s[i as int]));
            }
            let replace = match &worst {
                None => true,
                Some((HealthStatus::Unstable, _)) => status == HealthStatus::Invalid,
                Some(_) => false,
            };
            if replace {
                proof {
                    assert(first_counting(*health, s, i as int, status is Invalid));
                }
                worst = Some((status, reason));
            }
        }
        i = i + 1;
    }
    worst
}


/// Which stored expressions the expression evaluator accepts: entry `i` of `constraints` for
/// constraint `i` (as a length for a distance, as an angle for an angle), entry `j` of
/// `parameters` for parameter `j`. A missing entry counts as accepted.
#[derive(Clone, Debug)]
pub struct ExpressionChecks {
    pub constraints: Vec<bool>,
    pub parameters: Vec<bool>,
}

pub open spec fn constraint_evaluates(checks: ExpressionChecks, i: int) -> bool {
    i >= checks.constraints@.len() || checks.constraints@[i]
}

pub open spec fn parameter_evaluates(checks: ExpressionChecks, j: int) -> bool {
    j >= checks.parameters@.len() || checks.parameters@[j]
}

fn constraint_evaluates_exec(checks: &ExpressionChecks, i: usize) -> (r: bool)
    ensures
        r == constraint_evaluates(*checks, i as int),
{
    i >= checks.constraints.len() || checks.constraints[i]
}

fn parameter_evaluates_exec(checks: &ExpressionChecks, j: usize) -> (r: bool)
    ensures
        r == parameter_evaluates(*checks, j as int),
{
    j >= checks.parameters.len() || checks.parameters[j]
}

pub open spec fn referenced_deleted_message() -> Seq<char> {
    "Referenced geometry was deleted"@
}

pub open spec fn unevaluable_message() -> Seq<char> {
    "Constraint expression cannot be evaluated"@
}

/// Why live constraint `i` is invalid: what it refers to was deleted, or its expression
/// cannot be evaluated. `None` when it is sound (or deleted).
pub open spec fn constraint_verdict(doc: Document, checks: ExpressionChecks, i: int) -> Option<Seq<char>> {
    if i < 0 || i >= doc.constraints@.len() || doc.constraints@[i].deleted {
        None
    } else {
        match doc.constraints@[i].kind {
            ConstraintKind::Distance { target } => if !spec_distance_target_alive(doc, target) {
                Some("Dimension target was deleted"@)
            } else if !constraint_evaluates(checks, i) {
                Some(unevaluable_message())
            } else {
                None
            },
            ConstraintKind::Parallel { line_a, line_b } | ConstraintKind::Perpendicular {
                line_a,
                line_b,
            } | ConstraintKind::Equal { line_a, line_b } => if !spec_constraint_line_alive(doc, line_a)
                || !spec_constraint_line_alive(doc, line_b) {
                Some(referenced_deleted_message())
            } else {
                None
            },
            ConstraintKind::Coincident { a, b } => if !spec_constraint_entity_alive(doc, a)
                || !spec_constraint_entity_alive(doc, b) {
                Some(referenced_deleted_message())
            } else {
                None
            },
            ConstraintKind::Midpoint { point, line } => if !spec_constraint_point_alive(doc, point)
                || !spec_constraint_line_alive(doc, line) {
                Some(referenced_deleted_message())
            } else {
                None
            },
            ConstraintKind::Horizontal { line } | ConstraintKind::Vertical { line } =>
                if !spec_constraint_line_alive(doc, line) {
                Some(referenced_deleted_message())
            } else {
                None
            },
            ConstraintKind::Angle { line_a, line_b, .. } => if !spec_constraint_line_alive(doc, line_a)
                || !spec_constraint_line_alive(doc, line_b) {
                Some(referenced_deleted_message())
            } else if !constraint_evaluates(checks, i) {
                Some(unevaluable_message())
            } else {
                None
            },
        }
    }
}

fn constraint_verdict_exec(doc: &Document, checks: &ExpressionChecks, i: usize) -> (r: Option<String>)
    requires
        i < doc.constraints@.len(),
    ensures
        match constraint_verdict(*doc, *checks, i as int) {
            Some(m) => r is Some && r->Some_0@ == m,
            None => r is None,
        },
{
    let c = &doc.constraints[i];
    if c.deleted {
        return None;
    }
    match c.kind {
        ConstraintKind::Distance { target } => if !distance_target_alive(doc, &target) {
            Some(string_of("Dimension target was deleted"))
        } else if !constraint_evaluates_exec(checks, i) {
            Some(string_of("Constraint expression cannot be evaluated"))
        } else {
            None
        },
        ConstraintKind::Parallel { line_a, line_b } | ConstraintKind::Perpendicular {
            line_a,
            line_b,
        } | ConstraintKind::Equal { line_a, line_b } => if !constraint_line_alive(doc, &line_a)
            || !constraint_line_alive(doc, &line_b) {
            Some(string_of("Referenced geometry was deleted"))
        } else {
            None
        },
        ConstraintKind::Coincident { a, b } => if !constraint_entity_alive(doc, &a)
            || !constraint_entity_alive(doc, &b) {
            Some(string_of("Referenced geometry was deleted"))
        } else {
            None
        },
        ConstraintKind::Midpoint { point, line } => if !constraint_point_alive(doc, &point)
            || !constraint_line_alive(doc, &line) {
            Some(string_of("Referenced geometry was deleted"))
        } else {
            None
        },
        ConstraintKind::Horizontal { line } | ConstraintKind::Vertical { line } =>
            if !constraint_line_alive(doc, &line) {
            Some(string_of("Referenced geometry was deleted"))
        } else {
            None
        },
        ConstraintKind::Angle { line_a, line_b, .. } => if !constraint_line_alive(doc, &line_a)
            || !constraint_line_alive(doc, &line_b) {
            Some(string_of("Referenced geometry was deleted"))
        } else if !constraint_evaluates_exec(checks, i) {
            Some(string_of("Constraint expression cannot be evaluated"))
        } else {
            None
        },
    }
}

/// The geometry that stands for a constraint line when it becomes unstable.
pub open spec fn line_geometry(line: ConstraintLine) -> SceneElement {
    match line {
        ConstraintLine::Line(i) => SceneElement::Line(i),
        ConstraintLine::RectEdge { rect, edge } => SceneElement::RectEdge(rect, edge),
    }
}

/// The geometry that stands for a constraint entity when it becomes unstable (none for the
/// origin).
pub open spec fn entity_geometry(entity: ConstraintEntity) -> Seq<SceneElement> {
    match entity {
        ConstraintEntity::Point(p) => seq![point_element(p)],
        ConstraintEntity::Line(l) => seq![line_geometry(l)],
        ConstraintEntity::Circle(c) => seq![SceneElement::Circle(c)],
        ConstraintEntity::Origin => Seq::empty(),
    }
}

pub open spec fn tagged(elements: Seq<SceneElement>, reason: Seq<char>) -> Seq<(SceneElement, Seq<char>)> {
    elements.map_values(|e: SceneElement| (e, reason))
}

pub open spec fn when(c: bool, s: Seq<(SceneElement, Seq<char>)>) -> Seq<(SceneElement, Seq<char>)> {
    if c {
        s
    } else {
        Seq::empty()
    }
}

/// The surviving partners of live constraint `i` when part of what it joins was deleted,
/// each with the reason it becomes unstable, in the order they are marked.
pub open spec fn partner_marks(doc: Document, i: int) -> Seq<(SceneElement, Seq<char>)> {
    if i < 0 || i >= doc.constraints@.len() || doc.constraints@[i].deleted {
        Seq::empty()
    } else {
        match doc.constraints@[i].kind {
            ConstraintKind::Parallel { line_a, line_b } | ConstraintKind::Perpendicular {
                line_a,
                line_b,
            } | ConstraintKind::Equal { line_a, line_b } => {
                let a = spec_constraint_line_alive(doc, line_a);
                let b = spec_constraint_line_alive(doc, line_b);
                let r = "Lost parallel/perpendicular partner"@;
                when(!a || !b, when(a, tagged(seq![line_geometry(line_a)], r)) + when(b, tagged(seq![line_geometry(line_b)], r)))
            },
            ConstraintKind::Coincident { a, b } => {
                let aa = spec_constraint_entity_alive(doc, a);
                let ba = spec_constraint_entity_alive(doc, b);
                let r = "Lost coincident partner"@;
                when(!aa || !ba, when(aa, tagged(entity_geometry(a), r)) + when(ba, tagged(entity_geometry(b), r)))
            },
            ConstraintKind::Midpoint { point, line } => {
                let pa = spec_constraint_point_alive(doc, point);
                let la = spec_constraint_line_alive(doc, line);
                when(
                    !pa || !la,
                    when(pa, tagged(seq![point_element(point)], "Lost midpoint line partner"@)) + when(
                        la,
                        tagged(seq![line_geometry(line)], "Lost midpoint point partner"@),
                    ),
                )
            },
            _ => Seq::empty(),
        }
    }
}

fn line_geometry_exec(line: ConstraintLine) -> (r: SceneElement)
    ensures
        r == line_geometry(line),
{
    match line {
        ConstraintLine::Line(i) => SceneElement::Line(i),
        ConstraintLine::RectEdge { rect, edge } => SceneElement::RectEdge(rect, edge),
    }
}

/// Append `elements` of `entity`'s geometry, each with `reason`.
fn push_entity_marks(out: &mut Vec<(SceneElement, String)>, entity: ConstraintEntity, reason: &str)
    ensures
        mark_views(final(out)@) == mark_views(old(out)@) + tagged(entity_geometry(entity), reason@),
{
    let ghost before = out@;
    let g = match entity {
        ConstraintEntity::Point(p) => Some(scene_element_for_point(p)),
        ConstraintEntity::Line(l) => Some(line_geometry_exec(l)),
        ConstraintEntity::Circle(c) => Some(SceneElement::Circle(c)),
        ConstraintEntity::Origin => None,
    };
    match g {
        Some(e) => {
            out.push((e, string_of(reason)));
            proof {
                assert(mark_views(out@) =~= mark_views(before) + tagged(entity_geometry(entity), reason@));
            }
        },
        None => {
            proof {
                assert(mark_views(out@) =~= mark_views(before) + tagged(entity_geometry(entity), reason@));
            }
        },
    }
}

pub open spec fn mark_views(v: Seq<(SceneElement, String)>) -> Seq<(SceneElement, Seq<char>)> {
    v.map_values(|m: (SceneElement, String)| (m.0, m.1@))
}

fn push_mark(out: &mut Vec<(SceneElement, String)>, e: SceneElement, reason: &str)
    ensures
        mark_views(final(out)@) == mark_views(old(out)@) + tagged(seq![e], reason@),
{
    let ghost before = out@;
    out.push((e, string_of(reason)));
    proof {
        assert(mark_views(out@) =~= mark_views(before) + tagged(seq![e], reason@));
    }
}

fn partner_marks_exec(doc: &Document, i: usize) -> (r: Vec<(SceneElement, String)>)
    requires
        i < doc.constraints@.len(),
    ensures
        mark_views(r@) == partner_marks(*doc, i as int),
{
    let mut out: Vec<(SceneElement, String)> = Vec::new();
    proof {
        assert(mark_views(out@) =~= Seq::<(SceneElement, Seq<char>)>::empty());
    }
    let c = &doc.constraints[i];
    if c.deleted {
        return out;
    }
    match c.kind {
        ConstraintKind::Parallel { line_a, line_b } | ConstraintKind::Perpendicular {
            line_a,
            line_b,
        } | ConstraintKind::Equal { line_a, line_b } => {
            let a = constraint_line_alive(doc, &line_a);
            let b = constraint_line_alive(doc, &line_b);
            if !a || !b {
                if a {
                    push_mark(&mut out, line_geometry_exec(line_a), "Lost parallel/perpendicular partner");
                }
                if b {
                    push_mark(&mut out, line_geometry_exec(line_b), "Lost parallel/perpendicular partner");
                }
            }
            proof {
                assert(mark_views(out@) =~= partner_marks(*doc, i as int));
            }
        },
        ConstraintKind::Coincident { a, b } => {
            let aa = constraint_entity_alive(doc, &a);
            let ba = constraint_entity_alive(doc, &b);
            if !aa || !ba {
                if aa {
                    push_entity_marks(&mut out, a, "Lost coincident partner");
                }
                if ba {
                    push_entity_marks(&mut out, b, "Lost coincident partner");
                }
            }
            proof {
                assert(mark_views(out@) =~= partner_marks(*doc, i as int));
            }
        },
        ConstraintKind::Midpoint { point, line } => {
            let pa = constraint_point_alive(doc, &point);
            let la = constraint_line_alive(doc, &line);
            if !pa || !la {
                if pa {
                    push_mark(&mut out, scene_element_for_point(point), "Lost midpoint line partner");
                }
                if la {
                    push_mark(&mut out, line_geometry_exec(line), "Lost midpoint point partner");
                }
            }
            proof {
                assert(mark_views(out@) =~= partner_marks(*doc, i as int));
            }
        },
        _ => {},
    }
    out
}


/// All partner marks of the first `k` constraints, in the order they are made.
pub open spec fn marks_upto(doc: Document, k: int) -> Seq<(SceneElement, Seq<char>)>
    decreases k,
{
    if k <= 0 {
        Seq::empty()
    } else {
        marks_upto(doc, k - 1) + partner_marks(doc, k - 1)
    }
}

/// The reason of the first mark on `g` from position `k` of `marks` on.
pub open spec fn first_mark_from(marks: Seq<(SceneElement, Seq<char>)>, g: SceneElement, k: int) -> Option<Seq<char>>
    decreases marks.len() - k,
{
    if k < 0 || k >= marks.len() {
        None
    } else if marks[k].0 == g {
        Some(marks[k].1)
    } else {
        first_mark_from(marks, g, k + 1)
    }
}

/// The status and reason recorded for `e`, if any.
pub open spec fn element_record(h: DocumentHealth, e: SceneElement) -> Option<(HealthStatus, Seq<char>)> {
    match element_entry_from(h.elements@, e, 0) {
        Some(k) => Some((h.elements@[k].status, h.elements@[k].reason@)),
        None => None,
    }
}

/// Health of `e` once the first `k` constraints are checked and `marks` made: a checked
/// constraint with a verdict is invalid, live geometry with a mark is unstable (with the
/// first mark's reason), anything else is healthy.
pub open spec fn element_health_with(doc: Document, checks: ExpressionChecks, k: int, marks: Seq<(SceneElement, Seq<char>)>, e: SceneElement) -> Option<(HealthStatus, Seq<char>)> {
    match e {
        SceneElement::Constraint(i) => if i < k {
            match constraint_verdict(doc, checks, i as int) {
                Some(m) => Some((HealthStatus::Invalid, m)),
                None => None,
            }
        } else {
            None
        },
        _ => if spec_element_alive(doc, e) {
            match first_mark_from(marks, e, 0) {
                Some(m) => Some((HealthStatus::Unstable, m)),
                None => None,
            }
        } else {
            None
        },
    }
}

/// The health the document's constraints give element `e`.
pub open spec fn expected_element_health(doc: Document, checks: ExpressionChecks, e: SceneElement) -> Option<(HealthStatus, Seq<char>)> {
    element_health_with(doc, checks, doc.constraints@.len() as int, marks_upto(doc, doc.constraints@.len() as int), e)
}

proof fn lemma_entry_push(entries: Seq<ElementHealth>, x: ElementHealth, e: SceneElement, k: int)
    requires
        0 <= k <= entries.len(),
    ensures
        element_entry_from(entries.push(x), e, k) == match element_entry_from(entries, e, k) {
            Some(j) => Some(j),
            None => if x.element == e {
                Some(entries.len() as int)
            } else {
                None
            },
        },
    decreases entries.len() - k,
{
    if k < entries.len() {
        assert(entries.push(x)[k] == entries[k]);
        if entries[k].element != e {
            lemma_entry_push(entries, x, e, k + 1);
        }
    } else {
        assert(entries.push(x)[k] == x);
        if x.element != e {
            assert(element_entry_from(entries.push(x), e, k + 1) is None);
        }
    }
}

proof fn lemma_first_mark_push(marks: Seq<(SceneElement, Seq<char>)>, x: (SceneElement, Seq<char>), g: SceneElement, k: int)
    requires
        0 <= k <= marks.len(),
    ensures
        first_mark_from(marks.push(x), g, k) == match first_mark_from(marks, g, k) {
            Some(m) => Some(m),
            None => if x.0 == g {
                Some(x.1)
            } else {
                None
            },
        },
    decreases marks.len() - k,
{
    if k < marks.len() {
        assert(marks.push(x)[k] == marks[k]);
        if marks[k].0 != g {
            lemma_first_mark_push(marks, x, g, k + 1);
        }
    } else {
        assert(marks.push(x)[k] == x);
        if x.0 != g {
            assert(first_mark_from(marks.push(x), g, k + 1) is None);
        }
    }
}

proof fn lemma_partner_marks_geometry(doc: Document, i: int)
    ensures
        forall|m: int| 0 <= m < partner_marks(doc, i).len() ==> (#[trigger] partner_marks(doc, i)[m]).0 !is Constraint,
{
}

fn mark_constraint_health(doc: &Document, checks: &ExpressionChecks, health: &mut DocumentHealth)
    requires
        old(health).elements@.len() == 0,
    ensures
        final(health).parameters == old(health).parameters,
        forall|e: SceneElement| element_record(*final(health), e) == expected_element_health(*doc, *checks, e),
{
    let mut k: usize = 0;
    while k < doc.constraints.len()
        invariant
            k <= doc.constraints@.len(),
            health.parameters == old(health).parameters,
            forall|e: SceneElement|
                element_record(*health, e) == element_health_with(*doc, *checks, k as int, marks_upto(*doc, k as int), e),
        decreases doc.constraints@.len() - k,
    {
        let ghost before = health.elements@;
        let ghost h0 = *health;
        match constraint_verdict_exec(doc, checks, k) {
            Some(reason) => {
                let entry = ElementHealth {
                    element: SceneElement::Constraint(k),
                    status: HealthStatus::Invalid,
                    reason,
                };
                health.elements.push(entry);
                proof {
                    assert forall|e: SceneElement|
                        element_record(*health, e) == element_health_with(*doc, *checks, k + 1, marks_upto(*doc, k as int), e) by {
                        assert(element_record(h0, e) == element_health_with(*doc, *checks, k as int, marks_upto(*doc, k as int), e));
                        lemma_entry_push(before, entry, e, 0);
                        lemma_element_entry_bounds(before, e, 0);
                        if e == SceneElement::Constraint(k) {
                            assert(element_record(*health, e) is Some);
                        }
                    }
                }
            },
            None => {
                proof {
                    assert forall|e: SceneElement|
                        element_record(*health, e) == element_health_with(*doc, *checks, k + 1, marks_upto(*doc, k as int), e) by {
                        assert(element_record(h0, e) == element_health_with(*doc, *checks, k as int, marks_upto(*doc, k as int), e));
                        if e == SceneElement::Constraint(k) {
                            lemma_element_entry_bounds(before, e, 0);
                        }
                    }
                }
            },
        }
        let marks = partner_marks_exec(doc, k);
        let ghost base = marks_upto(*doc, k as int);
        let ghost pm = partner_marks(*doc, k as int);
        proof {
            lemma_partner_marks_geometry(*doc, k as int);
            assert(base + pm.take(0) =~= base);
        }
        let mut m: usize = 0;
        while m < marks.len()
            invariant
                k < doc.constraints@.len(),
                m <= marks@.len(),
                mark_views(marks@) == pm,
                pm == partner_marks(*doc, k as int),
                base == marks_upto(*doc, k as int),
                forall|j: int| 0 <= j < pm.len() ==> (#[trigger] pm[j]).0 !is Constraint,
                health.parameters == old(health).parameters,
                forall|e: SceneElement|
                    element_record(*health, e) == element_health_with(*doc, *checks, k + 1, base + pm.take(m as int), e),
            decreases marks@.len() - m,
        {
            let g = marks[m].0;
            let ghost cur = health.elements@;
            let ghost h1 = *health;
            let ghost ms = base + pm.take(m as int);
            proof {
                assert(pm[m as int] == (g, marks@[m as int].1@));
                assert(base + pm.take(m + 1) =~= ms.push(pm[m as int]));
                assert(g !is Constraint);
            }
            if element_alive(doc, g) {
                let status = health.element_status(g);
                if status == HealthStatus::Healthy {
                    let entry = ElementHealth {
                        element: g,
                        status: HealthStatus::Unstable,
                        reason: marks[m].1.clone(),
                    };
                    health.elements.push(entry);
                    proof {
                        lemma_element_entry_bounds(cur, g, 0);
                        assert forall|e: SceneElement|
                            element_record(*health, e) == element_health_with(*doc, *checks, k + 1, base + pm.take(m + 1), e) by {
                            assert(element_record(h1, e) == element_health_with(*doc, *checks, k + 1, ms, e));
                            lemma_entry_push(cur, entry, e, 0);
                            lemma_first_mark_push(ms, pm[m as int], e, 0);
                            lemma_element_entry_bounds(cur, e, 0);
                        }
                    }
                } else {
                    proof {
                        assert forall|e: SceneElement|
                            element_record(*health, e) == element_health_with(*doc, *checks, k + 1, base + pm.take(m + 1), e) by {
                            assert(element_record(h1, e) == element_health_with(*doc, *checks, k + 1, ms, e));
                            lemma_first_mark_push(ms, pm[m as int], e, 0);
                        }
                    }
                }
            } else {
                proof {
                    assert forall|e: SceneElement|
                        element_record(*health, e) == element_health_with(*doc, *checks, k + 1, base + pm.take(m + 1), e) by {
                        assert(element_record(h1, e) == element_health_with(*doc, *checks, k + 1, ms, e));
                        lemma_first_mark_push(ms, pm[m as int], e, 0);
                    }
                }
            }
            m = m + 1;
        }
        proof {
            assert(pm.take(m as int) =~= pm);
            assert(marks_upto(*doc, k + 1) == base + pm);
        }
        k = k + 1;
    }
}


/// The first parameter from position `k` on, deleted or not, named `name`.
pub open spec fn first_named_from(doc: Document, name: Seq<char>, k: int) -> Option<int>
    decreases doc.parameters@.len() - k,
{
    if k < 0 || k >= doc.parameters@.len() {
        None
    } else if doc.parameters@[k].name@ == name {
        Some(k)
    } else {
        first_named_from(doc, name, k + 1)
    }
}

/// Parameter `j` takes its value from a line that was deleted.
pub open spec fn source_lost(doc: Document, j: int) -> bool {
    match doc.parameters@[j].source {
        Some(ParameterSource::LineLength(l)) => !spec_line_alive(doc, l),
        None => false,
    }
}

pub open spec fn dependency_message(name: Seq<char>) -> Seq<char> {
    "Depends on invalid parameter '"@ + name + "'"@
}

pub open spec fn parameter_refs(doc: Document, j: int) -> Seq<Seq<char>> {
    variable_refs(doc.parameters@[j].expression@)
}

/// Why live parameter `j` is invalid: its source line was deleted, its expression cannot be
/// evaluated, or it names a parameter before it that is invalid (the first such name).
pub open spec fn parameter_verdict(doc: Document, checks: ExpressionChecks, j: int) -> Option<Seq<char>>
    decreases j, (if 0 <= j < doc.parameters@.len() { parameter_refs(doc, j).len() } else { 0 }) + 1,
{
    if j < 0 || j >= doc.parameters@.len() || doc.parameters@[j].deleted {
        None
    } else if source_lost(doc, j) {
        Some("Source line was deleted"@)
    } else if !parameter_evaluates(checks, j) {
        Some("Parameter expression cannot be evaluated"@)
    } else {
        dependency_verdict(doc, checks, j, 0)
    }
}

/// The first name of parameter `j`'s expression from position `k` on that refers to an
/// invalid parameter before `j`.
pub open spec fn dependency_verdict(doc: Document, checks: ExpressionChecks, j: int, k: int) -> Option<Seq<char>>
    decreases j, (if 0 <= j < doc.parameters@.len() { parameter_refs(doc, j).len() } else { 0 }) - k,
{
    if j < 0 || j >= doc.parameters@.len() || k < 0 || k >= parameter_refs(doc, j).len() {
        None
    } else {
        let name = parameter_refs(doc, j)[k];
        let f = first_named_from(doc, name, 0);
        if f is Some && 0 <= f->Some_0 < j && parameter_verdict(doc, checks, f->Some_0) is Some {
            Some(dependency_message(name))
        } else {
            dependency_verdict(doc, checks, j, k + 1)
        }
    }
}

pub open spec fn parameter_record(h: DocumentHealth, p: usize) -> Option<(HealthStatus, Seq<char>)> {
    match parameter_entry_from(h.parameters@, p, 0) {
        Some(k) => Some((h.parameters@[k].status, h.parameters@[k].reason@)),
        None => None,
    }
}

/// The health the document gives parameter `p`.
pub open spec fn expected_parameter_health(doc: Document, checks: ExpressionChecks, p: usize) -> Option<(HealthStatus, Seq<char>)> {
    match parameter_verdict(doc, checks, p as int) {
        Some(m) => Some((HealthStatus::Invalid, m)),
        None => None,
    }
}

proof fn lemma_parameter_entry_push(entries: Seq<ParameterHealth>, x: ParameterHealth, p: usize, k: int)
    requires
        0 <= k <= entries.len(),
    ensures
        parameter_entry_from(entries.push(x), p, k) == match parameter_entry_from(entries, p, k) {
            Some(j) => Some(j),
            None => if x.index == p {
                Some(entries.len() as int)
            } else {
                None
            },
        },
    decreases entries.len() - k,
{
    if k < entries.len() {
        assert(entries.push(x)[k] == entries[k]);
        if entries[k].index != p {
            lemma_parameter_entry_push(entries, x, p, k + 1);
        }
    } else {
        assert(entries.push(x)[k] == x);
        if x.index != p {
            assert(parameter_entry_from(entries.push(x), p, k + 1) is None);
        }
    }
}

fn first_named(doc: &Document, name: &String) -> (r: Option<usize>)
    ensures
        match first_named_from(*doc, name@, 0) {
            Some(k) => r is Some && r->Some_0 as int == k,
            None => r is None,
        },
{
    let mut k: usize = 0;
    while k < doc.parameters.len()
        invariant
            k <= doc.parameters@.len(),
            first_named_from(*doc, name@, k as int) == first_named_from(*doc, name@, 0),
        decreases doc.parameters@.len() - k,
    {
        if doc.parameters[k].name == *name {
            return Some(k);
        }
        k = k + 1;
    }
    None
}

/// Record parameter `j` as invalid with `reason`.
fn push_parameter_invalid(health: &mut DocumentHealth, j: usize, reason: String)
    ensures
        final(health).elements == old(health).elements,
        final(health).parameters@ == old(health).parameters@.push(
            ParameterHealth { index: j, status: HealthStatus::Invalid, reason },
        ),
{
    health.parameters.push(ParameterHealth { index: j, status: HealthStatus::Invalid, reason });
}

/// Why parameter `j` (live, with a sound source and expression) depends on an invalid one,
/// judged from the parameters before it.
fn dependency_verdict_exec(doc: &Document, checks: &ExpressionChecks, health: &DocumentHealth, j: usize) -> (r: Option<String>)
    requires
        j < doc.parameters@.len(),
        forall|p: usize|
            parameter_record(*health, p) == (if p < j {
                expected_parameter_health(*doc, *checks, p)
            } else {
                None
            }),
    ensures
        match dependency_verdict(*doc, *checks, j as int, 0) {
            Some(m) => r is Some && r->Some_0@ == m,
            None => r is None,
        },
{
    let refs = expression_variables(doc.parameters[j].expression.as_str());
    let ghost rs = parameter_refs(*doc, j as int);
    let mut k: usize = 0;
    while k < refs.len()
        invariant
            j < doc.parameters@.len(),
            string_views(refs@) == rs,
            rs == parameter_refs(*doc, j as int),
            k <= refs@.len(),
            dependency_verdict(*doc, *checks, j as int, k as int) == dependency_verdict(*doc, *checks, j as int, 0),
            forall|p: usize|
                parameter_record(*health, p) == (if p < j {
                    expected_parameter_health(*doc, *checks, p)
                } else {
                    None
                }),
        decreases refs@.len() - k,
    {
        let name = &refs[k];
        proof {
            assert(rs[k as int] == name@);
        }
        match first_named(doc, name) {
            Some(idx) => {
                let status = health.parameter_status(idx);
                proof {
                    assert(parameter_record(*health, idx) == (if idx < j {
                        expected_parameter_health(*doc, *checks, idx)
                    } else {
                        None
                    }));
                }
                if status == HealthStatus::Invalid {
                    let mut m = string_of("Depends on invalid parameter '");
                    push_str(&mut m, name.as_str());
                    push_str(&mut m, "'");
                    return Some(m);
                }
            },
            None => {},
        }
        k = k + 1;
    }
    None
}

fn mark_parameter_health(doc: &Document, checks: &ExpressionChecks, health: &mut DocumentHealth)
    requires
        old(health).parameters@.len() == 0,
    ensures
        final(health).elements == old(health).elements,
        forall|p: usize| parameter_record(*final(health), p) == expected_parameter_health(*doc, *checks, p),
{
    let mut j: usize = 0;
    while j < doc.parameters.len()
        invariant
            j <= doc.parameters@.len(),
            health.elements == old(health).elements,
            forall|p: usize|
                parameter_record(*health, p) == (if p < j {
                    expected_parameter_health(*doc, *checks, p)
                } else {
                    None
                }),
        decreases doc.parameters@.len() - j,
    {
        let ghost h0 = *health;
        let param = &doc.parameters[j];
        let verdict: Option<String> = if param.deleted {
            None
        } else {
            let lost = match param.source {
                Some(ParameterSource::LineLength(l)) => !line_alive(doc, l),
                None => false,
            };
            if lost {
                Some(string_of("Source line was deleted"))
            } else if !parameter_evaluates_exec(checks, j) {
                Some(string_of("Parameter expression cannot be evaluated"))
            } else {
                dependency_verdict_exec(doc, checks, health, j)
            }
        };
        proof {
            assert(doc.parameters@[j as int] == *param);
        }
        match verdict {
            Some(reason) => {
                let ghost rv = reason@;
                push_parameter_invalid(health, j, reason);
                proof {
                    assert forall|p: usize|
                        parameter_record(*health, p) == (if p < j + 1 {
                            expected_parameter_health(*doc, *checks, p)
                        } else {
                            None
                        }) by {
                        assert(parameter_record(h0, p) == (if p < j {
                            expected_parameter_health(*doc, *checks, p)
                        } else {
                            None
                        }));
                        lemma_parameter_entry_push(h0.parameters@, health.parameters@.last(), p, 0);
                        lemma_parameter_entry_bounds(h0.parameters@, p, 0);
                        assert(health.parameters@ == h0.parameters@.push(health.parameters@.last()));
                    }
                }
            },
            None => {
                proof {
                    assert forall|p: usize|
                        parameter_record(*health, p) == (if p < j + 1 {
                            expected_parameter_health(*doc, *checks, p)
                        } else {
                            None
                        }) by {
                        assert(parameter_record(h0, p) == (if p < j {
                            expected_parameter_health(*doc, *checks, p)
                        } else {
                            None
                        }));
                    }
                }
            },
        }
        j = j + 1;
    }
}

/// Recompute health for the whole document: first the constraints and the geometry they
/// leave unstable, then the parameters in order. `checks` reports which stored expressions
/// the evaluator accepts.
pub fn recompute_document_health(doc: &Document, checks: &ExpressionChecks) -> (h: DocumentHealth)
    ensures
        forall|e: SceneElement| element_record(h, e) == expected_element_health(*doc, *checks, e),
        forall|p: usize| parameter_record(h, p) == expected_parameter_health(*doc, *checks, p),
{
    let mut health = DocumentHealth::default();
    mark_constraint_health(doc, checks, &mut health);
    mark_parameter_health(doc, checks, &mut health);
    health
}


proof fn lemma_sound_constraint_has_no_marks(doc: Document, checks: ExpressionChecks, i: int)
    requires
        constraint_verdict(doc, checks, i) is None,
    ensures
        partner_marks(doc, i).len() == 0,
{
}

proof fn lemma_sound_prefix_has_no_marks(doc: Document, checks: ExpressionChecks, k: int)
    requires
        forall|i: int| 0 <= i < k ==> #[trigger] constraint_verdict(doc, checks, i) is None,
    ensures
        marks_upto(doc, k).len() == 0,
    decreases k,
{
    if k > 0 {
        lemma_sound_prefix_has_no_marks(doc, checks, k - 1);
        lemma_sound_constraint_has_no_marks(doc, checks, k - 1);
    }
}

/// When no constraint is broken, every element is healthy: health only ever comes from
/// broken constraints and the geometry they leave behind.
pub proof fn law_sound_constraints_leave_everything_healthy(doc: Document, checks: ExpressionChecks)
    requires
        forall|i: int| 0 <= i < doc.constraints@.len() ==> #[trigger] constraint_verdict(doc, checks, i) is None,
    ensures
        forall|e: SceneElement| #[trigger] expected_element_health(doc, checks, e) is None,
{
    lemma_sound_prefix_has_no_marks(doc, checks, doc.constraints@.len() as int);
    assert forall|e: SceneElement| #[trigger] expected_element_health(doc, checks, e) is None by {
        if let SceneElement::Constraint(i) = e {
            if i < doc.constraints@.len() {
                assert(constraint_verdict(doc, checks, i as int) is None);
            }
        }
    }
}


/// An sRGB colour with alpha, one byte per channel.
#[derive(Clone, Copy, Debug, PartialEq, Eq, Hash, Structural)]
pub struct Rgba {
    pub r: u8,
    pub g: u8,
    pub b: u8,
    pub a: u8,
}

/// Colour of invalid entities.
pub open spec fn spec_invalid_display() -> Rgba {
    Rgba { r: 220, g: 80, b: 80, a: 255 }
}

/// Colour of unstable entities.
pub open spec fn spec_unstable_display() -> Rgba {
    Rgba { r: 255, g: 180, b: 60, a: 255 }
}

pub fn invalid_display() -> (r: Rgba)
    ensures
        r == spec_invalid_display(),
{
    Rgba { r: 220, g: 80, b: 80, a: 255 }
}

pub fn unstable_display() -> (r: Rgba)
    ensures
        r == spec_unstable_display(),
{
    Rgba { r: 255, g: 180, b: 60, a: 255 }
}

/// Colour of the annotation of constraint `constraint`: its own colour when healthy, the
/// invalid or unstable colour otherwise.
pub fn constraint_annotation_color(health: &DocumentHealth, constraint: usize, base: Rgba) -> (r: Rgba)
    ensures
        r == (match spec_element_status(*health, SceneElement::Constraint(constraint)) {
            HealthStatus::Healthy => base,
            HealthStatus::Invalid => spec_invalid_display(),
            HealthStatus::Unstable => spec_unstable_display(),
        }),
{
    match health.element_status(SceneElement::Constraint(constraint)) {
        HealthStatus::Healthy => base,
        HealthStatus::Invalid => invalid_display(),
        HealthStatus::Unstable => unstable_display(),
    }
}

} // verus!

verus! {

/// A live dimension (distance or angle) whose expression the evaluator cannot evaluate is
/// invalid, whatever it measures; when the geometry it refers to is still alive, the reason
/// given is that the expression cannot be evaluated.
pub proof fn law_unevaluable_dimension_is_invalid(doc: Document, checks: ExpressionChecks, i: usize)
    requires
        i < doc.constraints@.len(),
        !doc.constraints@[i as int].deleted,
        doc.constraints@[i as int].kind is Distance || doc.constraints@[i as int].kind is Angle,
        i < checks.constraints@.len(),
        !checks.constraints@[i as int],
    ensures
        expected_element_health(doc, checks, SceneElement::Constraint(i)) matches Some((status, _))
            && status == HealthStatus::Invalid,
        match doc.constraints@[i as int].kind {
            ConstraintKind::Distance { target } => spec_distance_target_alive(doc, target),
            ConstraintKind::Angle { line_a, line_b, .. } => spec_constraint_line_alive(doc, line_a)
                && spec_constraint_line_alive(doc, line_b),
            _ => false,
        } ==> expected_element_health(doc, checks, SceneElement::Constraint(i)) == Some(
            (HealthStatus::Invalid, "Constraint expression cannot be evaluated"@),
        ),
{
}

} // verus!
