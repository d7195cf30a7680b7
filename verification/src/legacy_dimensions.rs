//! Dimensions of documents written before dimensions were constraints: rectangles, lines and
//! circles carried locked widths, heights, lengths and diameters of their own. Such documents
//! are migrated to distance constraints, and the old flags are kept in step with the
//! constraints so that older readers still see them.

use vstd::prelude::*;
use crate::constraints::{find_distance_constraint, has_distance_constraint, is_distance_constraint_on};
use crate::document_lifecycle::{distance_target_alive, spec_distance_target_alive};
use crate::model::{Circle, Constraint, ConstraintKind, DistanceTarget, Document, Line, Rect, ShapeKind, SketchId};
use crate::text::string_of;

verus! {

/// Formatted measurements of each entity, used as the expression of a legacy dimension that
/// kept none: entry `i` of each list belongs to entity `i`.
#[derive(Clone, Debug)]
pub struct LegacyMeasurements {
    pub rect_widths: Vec<String>,
    pub rect_heights: Vec<String>,
    pub line_lengths: Vec<String>,
    pub circle_diameters: Vec<String>,
}

/// One distance constraint a migration adds: its sketch, target and expression.
pub type PendingDimension = (SketchId, DistanceTarget, Seq<char>);

/// The kept expression, else the measurement.
pub open spec fn legacy_expression(kept: Option<String>, measured: Seq<char>) -> Seq<char> {
    match kept {
        Some(e) => e@,
        None => measured,
    }
}

/// `[(sketch, target, expression)]` when a locked legacy dimension on `target` has no
/// constraint yet, nothing otherwise.
pub open spec fn pending_if(
    doc: Document,
    locked: bool,
    sketch: SketchId,
    target: DistanceTarget,
    expression: Seq<char>,
) -> Seq<PendingDimension> {
    if locked && !has_distance_constraint(doc, target) {
        seq![(sketch, target, expression)]
    } else {
        Seq::empty()
    }
}

/// Constraints to add for the first `k` rectangles, width before height.
pub open spec fn rect_pending(doc: Document, m: LegacyMeasurements, k: int) -> Seq<PendingDimension>
    decreases k,
{
    if k <= 0 || k > doc.rects@.len() {
        Seq::empty()
    } else {
        let i = k - 1;
        let r = doc.rects@[i];
        rect_pending(doc, m, i) + pending_if(
            doc,
            r.width_locked,
            r.sketch,
            DistanceTarget::RectWidth(i as usize),
            legacy_expression(r.width_expr, m.rect_widths@[i]@),
        ) + pending_if(
            doc,
            r.height_locked,
            r.sketch,
            DistanceTarget::RectHeight(i as usize),
            legacy_expression(r.height_expr, m.rect_heights@[i]@),
        )
    }
}

/// Constraints to add for the first `k` lines.
pub open spec fn line_pending(doc: Document, m: LegacyMeasurements, k: int) -> Seq<PendingDimension>
    decreases k,
{
    if k <= 0 || k > doc.lines@.len() {
        Seq::empty()
    } else {
        let i = k - 1;
        let l = doc.lines@[i];
        line_pending(doc, m, i) + pending_if(
            doc,
            l.length_locked,
            l.sketch,
            DistanceTarget::LineLength(i as usize),
            legacy_expression(l.length_expr, m.line_lengths@[i]@),
        )
    }
}

/// Constraints to add for the first `k` circles.
pub open spec fn circle_pending(doc: Document, m: LegacyMeasurements, k: int) -> Seq<PendingDimension>
    decreases k,
{
    if k <= 0 || k > doc.circles@.len() {
        Seq::empty()
    } else {
        let i = k - 1;
        let c = doc.circles@[i];
        circle_pending(doc, m, i) + pending_if(
            doc,
            c.diameter_locked,
            c.sketch,
            DistanceTarget::CircleDiameter(i as usize),
            legacy_expression(c.diameter_expr, m.circle_diameters@[i]@),
        )
    }
}

/// Every constraint a migration of `doc` adds, in order: rectangles, then lines, then
/// circles.
pub open spec fn legacy_pending(doc: Document, m: LegacyMeasurements) -> Seq<PendingDimension> {
    rect_pending(doc, m, doc.rects@.len() as int) + line_pending(doc, m, doc.lines@.len() as int)
        + circle_pending(doc, m, doc.circles@.len() as int)
}

/// The measurement lists cover every entity.
pub open spec fn measurements_cover(doc: Document, m: LegacyMeasurements) -> bool {
    &&& m.rect_widths@.len() == doc.rects@.len()
    &&& m.rect_heights@.len() == doc.rects@.len()
    &&& m.line_lengths@.len() == doc.lines@.len()
    &&& m.circle_diameters@.len() == doc.circles@.len()
}

pub open spec fn pending_views(v: Seq<(SketchId, DistanceTarget, String)>) -> Seq<PendingDimension> {
    v.map_values(|p: (SketchId, DistanceTarget, String)| (p.0, p.1, p.2@))
}

/// `e` is `d` with a live distance constraint appended, to the constraints and to the
/// creation order, for each entry of `p` in turn.
pub open spec fn dimensions_appended(d: Document, e: Document, p: Seq<PendingDimension>) -> bool {
    let n = d.constraints@.len() as int;
    &&& e.constraints@.len() == n + p.len()
    &&& forall|j: int| 0 <= j < n ==> #[trigger] e.constraints@[j] == d.constraints@[j]
    &&& forall|k: int|
        0 <= k < p.len() ==> {
            let c = #[trigger] e.constraints@[n + k];
            &&& c.sketch == p[k].0
            &&& c.kind == ConstraintKind::Distance { target: p[k].1 }
            &&& c.expression@ == p[k].2
            &&& c.name is None
            &&& !c.deleted
        }
    &&& e.shape_order@ == d.shape_order@ + Seq::new(p.len(), |k: int| ShapeKind::Constraint)
    &&& e.parameters == d.parameters
    &&& e.sketches == d.sketches
    &&& e.rects == d.rects
    &&& e.lines == d.lines
    &&& e.circles == d.circles
    &&& e.construction_planes == d.construction_planes
    &&& e.extrusions == d.extrusions
    &&& e.bodies == d.bodies
    &&& e.default_length_unit == d.default_length_unit
    &&& e.default_angle_unit == d.default_angle_unit
}

fn kept_or_measured(kept: &Option<String>, measured: &String) -> (r: String)
    ensures
        r@ == legacy_expression(*kept, measured@),
{
    match kept {
        Some(e) => e.clone(),
        None => measured.clone(),
    }
}

fn push_if_pending(
    doc: &Document,
    pending: &mut Vec<(SketchId, DistanceTarget, String)>,
    locked: bool,
    sketch: SketchId,
    target: DistanceTarget,
    expression: String,
)
    ensures
        pending_views(final(pending)@) == pending_views(old(pending)@) + pending_if(
            *doc,
            locked,
            sketch,
            target,
            expression@,
        ),
{
    if locked {
        let found = find_distance_constraint(doc, target);
        proof {
            if found is Some {
                assert(is_distance_constraint_on(*doc, found->Some_0 as int, target));
            }
        }
        if found.is_none() {
            let ghost before = pending@;
            pending.push((sketch, target, expression));
            proof {
                assert(pending_views(pending@) =~= pending_views(before).push((sketch, target, expression@)));
            }
        } else {
            proof {
                assert(pending_views(pending@) =~= pending_views(pending@) + Seq::<PendingDimension>::empty());
            }
        }
    } else {
        proof {
            assert(pending_views(pending@) =~= pending_views(pending@) + Seq::<PendingDimension>::empty());
        }
    }
}


fn collect_legacy_pending(doc: &Document, m: &LegacyMeasurements) -> (r: Vec<(SketchId, DistanceTarget, String)>)
    requires
        measurements_cover(*doc, *m),
    ensures
        pending_views(r@) == legacy_pending(*doc, *m),
{
    let mut pending: Vec<(SketchId, DistanceTarget, String)> = Vec::new();
    proof {
        assert(pending_views(pending@) =~= Seq::<PendingDimension>::empty());
    }
    let mut i: usize = 0;
    while i < doc.rects.len()
        invariant
            i <= doc.rects@.len(),
            measurements_cover(*doc, *m),
            pending_views(pending@) == rect_pending(*doc, *m, i as int),
        decreases doc.rects@.len() - i,
    {
        let r = &doc.rects[i];
        let w = kept_or_measured(&r.width_expr, &m.rect_widths[i]);
        push_if_pending(doc, &mut pending, r.width_locked, r.sketch, DistanceTarget::RectWidth(i), w);
        let h = kept_or_measured(&r.height_expr, &m.rect_heights[i]);
        push_if_pending(doc, &mut pending, r.height_locked, r.sketch, DistanceTarget::RectHeight(i), h);
        i = i + 1;
    }
    let ghost rects = rect_pending(*doc, *m, doc.rects@.len() as int);
    let mut i: usize = 0;
    proof {
        assert(rects + line_pending(*doc, *m, 0) =~= rects);
    }
    while i < doc.lines.len()
        invariant
            i <= doc.lines@.len(),
            measurements_cover(*doc, *m),
            rects == rect_pending(*doc, *m, doc.rects@.len() as int),
            pending_views(pending@) == rects + line_pending(*doc, *m, i as int),
        decreases doc.lines@.len() - i,
    {
        let l = &doc.lines[i];
        let e = kept_or_measured(&l.length_expr, &m.line_lengths[i]);
        push_if_pending(doc, &mut pending, l.length_locked, l.sketch, DistanceTarget::LineLength(i), e);
        proof {
            let lp = line_pending(*doc, *m, i as int);
            let step = pending_if(
                *doc,
                l.length_locked,
                l.sketch,
                DistanceTarget::LineLength(i),
                legacy_expression(l.length_expr, m.line_lengths@[i as int]@),
            );
            assert(rects + lp + step =~= rects + (lp + step));
        }
        i = i + 1;
    }
    let ghost lines = line_pending(*doc, *m, doc.lines@.len() as int);
    let mut i: usize = 0;
    proof {
        assert(rects + lines + circle_pending(*doc, *m, 0) =~= rects + lines);
    }
    while i < doc.circles.len()
        invariant
            i <= doc.circles@.len(),
            measurements_cover(*doc, *m),
            rects == rect_pending(*doc, *m, doc.rects@.len() as int),
            lines == line_pending(*doc, *m, doc.lines@.len() as int),
            pending_views(pending@) == rects + lines + circle_pending(*doc, *m, i as int),
        decreases doc.circles@.len() - i,
    {
        let c = &doc.circles[i];
        let e = kept_or_measured(&c.diameter_expr, &m.circle_diameters[i]);
        push_if_pending(doc, &mut pending, c.diameter_locked, c.sketch, DistanceTarget::CircleDiameter(i), e);
        proof {
            let cp = circle_pending(*doc, *m, i as int);
            let step = pending_if(
                *doc,
                c.diameter_locked,
                c.sketch,
                DistanceTarget::CircleDiameter(i),
                legacy_expression(c.diameter_expr, m.circle_diameters@[i as int]@),
            );
            assert(rects + lines + cp + step =~= rects + lines + (cp + step));
        }
        i = i + 1;
    }
    pending
}

fn append_dimensions(doc: &mut Document, pending: &Vec<(SketchId, DistanceTarget, String)>)
    ensures
        dimensions_appended(*old(doc), *final(doc), pending_views(pending@)),
{
    let ghost d = *doc;
    let ghost p = pending_views(pending@);
    let n = doc.constraints.len();
    let mut k: usize = 0;
    proof {
        assert(doc.shape_order@ =~= d.shape_order@ + Seq::new(0, |j: int| ShapeKind::Constraint));
    }
    while k < pending.len()
        invariant
            d == *old(doc),
            p == pending_views(pending@),
            n == d.constraints@.len(),
            k <= pending@.len(),
            doc.constraints@.len() == n + k,
            forall|j: int| 0 <= j < n ==> #[trigger] doc.constraints@[j] == d.constraints@[j],
            forall|j: int|
                0 <= j < k ==> {
                    let c = #[trigger] doc.constraints@[n + j];
                    &&& c.sketch == p[j].0
                    &&& c.kind == ConstraintKind::Distance { target: p[j].1 }
                    &&& c.expression@ == p[j].2
                    &&& c.name is None
                    &&& !c.deleted
                },
            doc.shape_order@ == d.shape_order@ + Seq::new(k as nat, |j: int| ShapeKind::Constraint),
            doc.parameters == d.parameters,
            doc.sketches == d.sketches,
            doc.rects == d.rects,
            doc.lines == d.lines,
            doc.circles == d.circles,
            doc.construction_planes == d.construction_planes,
            doc.extrusions == d.extrusions,
            doc.bodies == d.bodies,
            doc.default_length_unit == d.default_length_unit,
            doc.default_angle_unit == d.default_angle_unit,
        decreases pending@.len() - k,
    {
        let entry = &pending[k];
        proof {
            assert(p[k as int] == (entry.0, entry.1, entry.2@));
        }
        doc.constraints.push(
            Constraint {
                sketch: entry.0,
                kind: ConstraintKind::Distance { target: entry.1 },
                expression: entry.2.clone(),
                name: None,
                deleted: false,
            },
        );
        doc.shape_order.push(ShapeKind::Constraint);
        proof {
            assert(d.shape_order@ + Seq::new((k + 1) as nat, |j: int| ShapeKind::Constraint) =~= (d.shape_order@
                + Seq::new(k as nat, |j: int| ShapeKind::Constraint)).push(ShapeKind::Constraint));
        }
        k = k + 1;
    }
}

/// Create a distance constraint for every locked legacy dimension that has none yet, with
/// its kept expression, else its measurement from `measured`: rectangles (width, then
/// height), then lines, then circles, each in index order.
pub fn migrate_legacy_dimensions(doc: &mut Document, measured: &LegacyMeasurements)
    requires
        measurements_cover(*old(doc), *measured),
    ensures
        dimensions_appended(*old(doc), *final(doc), legacy_pending(*old(doc), *measured)),
{
    let pending = collect_legacy_pending(doc, measured);
    append_dimensions(doc, &pending);
}


/// The fields of the document other than the legacy dimension flags are equal, and so are
/// the entity counts.
pub open spec fn same_but_legacy_flags(d: Document, e: Document) -> bool {
    &&& e.rects@.len() == d.rects@.len()
    &&& forall|i: int|
        0 <= i < d.rects@.len() ==> #[trigger] e.rects@[i] == (Rect {
            width_locked: e.rects@[i].width_locked,
            width_expr: e.rects@[i].width_expr,
            height_locked: e.rects@[i].height_locked,
            height_expr: e.rects@[i].height_expr,
            ..d.rects@[i]
        })
    &&& e.lines@.len() == d.lines@.len()
    &&& forall|i: int|
        0 <= i < d.lines@.len() ==> #[trigger] e.lines@[i] == (Line {
            length_locked: e.lines@[i].length_locked,
            length_expr: e.lines@[i].length_expr,
            ..d.lines@[i]
        })
    &&& e.circles@.len() == d.circles@.len()
    &&& forall|i: int|
        0 <= i < d.circles@.len() ==> #[trigger] e.circles@[i] == (Circle {
            diameter_locked: e.circles@[i].diameter_locked,
            diameter_expr: e.circles@[i].diameter_expr,
            ..d.circles@[i]
        })
    &&& e.parameters == d.parameters
    &&& e.sketches == d.sketches
    &&& e.constraints == d.constraints
    &&& e.construction_planes == d.construction_planes
    &&& e.extrusions == d.extrusions
    &&& e.bodies == d.bodies
    &&& e.shape_order == d.shape_order
    &&& e.default_length_unit == d.default_length_unit
    &&& e.default_angle_unit == d.default_angle_unit
}

/// Every legacy dimension flag is cleared.
pub open spec fn legacy_flags_cleared(e: Document) -> bool {
    &&& forall|i: int|
        0 <= i < e.rects@.len() ==> !(#[trigger] e.rects@[i]).width_locked && e.rects@[i].width_expr is None
            && !e.rects@[i].height_locked && e.rects@[i].height_expr is None
    &&& forall|i: int|
        0 <= i < e.lines@.len() ==> !(#[trigger] e.lines@[i]).length_locked && e.lines@[i].length_expr is None
    &&& forall|i: int|
        0 <= i < e.circles@.len() ==> !(#[trigger] e.circles@[i]).diameter_locked
            && e.circles@[i].diameter_expr is None
}

/// Clear every legacy dimension flag (before the sketch is solved and they are set again
/// from the constraints).
pub fn clear_legacy_dimension_locks(doc: &mut Document)
    ensures
        same_but_legacy_flags(*old(doc), *final(doc)),
        legacy_flags_cleared(*final(doc)),
{
    let ghost d = *doc;
    let mut i: usize = 0;
    while i < doc.rects.len()
        invariant
            d == *old(doc),
            i <= doc.rects@.len(),
            same_but_legacy_flags(d, *doc),
            forall|k: int|
                0 <= k < i ==> !(#[trigger] doc.rects@[k]).width_locked && doc.rects@[k].width_expr is None
                    && !doc.rects@[k].height_locked && doc.rects@[k].height_expr is None,
        decreases doc.rects@.len() - i,
    {
        doc.rects[i].width_locked = false;
        doc.rects[i].width_expr = None;
        doc.rects[i].height_locked = false;
        doc.rects[i].height_expr = None;
        i = i + 1;
    }
    let mut i: usize = 0;
    while i < doc.lines.len()
        invariant
            d == *old(doc),
            i <= doc.lines@.len(),
            same_but_legacy_flags(d, *doc),
            forall|k: int|
                0 <= k < doc.rects@.len() ==> !(#[trigger] doc.rects@[k]).width_locked && doc.rects@[k].width_expr is None
                    && !doc.rects@[k].height_locked && doc.rects@[k].height_expr is None,
            forall|k: int|
                0 <= k < i ==> !(#[trigger] doc.lines@[k]).length_locked && doc.lines@[k].length_expr is None,
        decreases doc.lines@.len() - i,
    {
        doc.lines[i].length_locked = false;
        doc.lines[i].length_expr = None;
        i = i + 1;
    }
    let mut i: usize = 0;
    while i < doc.circles.len()
        invariant
            d == *old(doc),
            i <= doc.circles@.len(),
            same_but_legacy_flags(d, *doc),
            forall|k: int|
                0 <= k < doc.rects@.len() ==> !(#[trigger] doc.rects@[k]).width_locked && doc.rects@[k].width_expr is None
                    && !doc.rects@[k].height_locked && doc.rects@[k].height_expr is None,
            forall|k: int|
                0 <= k < doc.lines@.len() ==> !(#[trigger] doc.lines@[k]).length_locked && doc.lines@[k].length_expr is None,
            forall|k: int|
                0 <= k < i ==> !(#[trigger] doc.circles@[k]).diameter_locked && doc.circles@[k].diameter_expr is None,
        decreases doc.circles@.len() - i,
    {
        doc.circles[i].diameter_locked = false;
        doc.circles[i].diameter_expr = None;
        i = i + 1;
    }
}


/// A legacy flag pair after following `src`: set to the expression when there is one, kept
/// otherwise.
pub open spec fn flag_synced(
    locked0: bool,
    expr0: Option<String>,
    locked: bool,
    expr: Option<String>,
    src: Option<Seq<char>>,
) -> bool {
    match src {
        Some(x) => locked && expr is Some && expr->Some_0@ == x,
        None => locked == locked0 && expr == expr0,
    }
}

/// `Some(expression)` when `slot` is `target`.
pub open spec fn source_if(slot: DistanceTarget, target: DistanceTarget, expression: Seq<char>) -> Option<Seq<char>> {
    if slot == target {
        Some(expression)
    } else {
        None
    }
}

/// `e` is `d` with the legacy flags of every entity following `src`, a source for each of
/// its dimensions.
pub open spec fn flags_follow(d: Document, e: Document, src: spec_fn(DistanceTarget) -> Option<Seq<char>>) -> bool {
    &&& same_but_legacy_flags(d, e)
    &&& forall|i: int|
        0 <= i < d.rects@.len() ==> {
            let r = #[trigger] d.rects@[i];
            let f = e.rects@[i];
            &&& flag_synced(r.width_locked, r.width_expr, f.width_locked, f.width_expr, src(DistanceTarget::RectWidth(i as usize)))
            &&& flag_synced(r.height_locked, r.height_expr, f.height_locked, f.height_expr, src(DistanceTarget::RectHeight(i as usize)))
        }
    &&& forall|i: int|
        0 <= i < d.lines@.len() ==> {
            let l = #[trigger] d.lines@[i];
            let f = e.lines@[i];
            flag_synced(l.length_locked, l.length_expr, f.length_locked, f.length_expr, src(DistanceTarget::LineLength(i as usize)))
        }
    &&& forall|i: int|
        0 <= i < d.circles@.len() ==> {
            let c = #[trigger] d.circles@[i];
            let f = e.circles@[i];
            flag_synced(
                c.diameter_locked,
                c.diameter_expr,
                f.diameter_locked,
                f.diameter_expr,
                src(DistanceTarget::CircleDiameter(i as usize)),
            )
        }
}

/// Lock the legacy flag of the entity `target` measures (a rectangle's width or height, a
/// line's length or a circle's diameter) with `expression`; other targets have no flag.
pub fn sync_legacy_dimension_flags(doc: &mut Document, target: DistanceTarget, expression: &str)
    ensures
        flags_follow(*old(doc), *final(doc), |slot: DistanceTarget| source_if(slot, target, expression@)),
{
    match target {
        DistanceTarget::RectWidth(i) => {
            if i < doc.rects.len() {
                doc.rects[i].width_locked = true;
                doc.rects[i].width_expr = Some(string_of(expression));
            }
        },
        DistanceTarget::RectHeight(i) => {
            if i < doc.rects.len() {
                doc.rects[i].height_locked = true;
                doc.rects[i].height_expr = Some(string_of(expression));
            }
        },
        DistanceTarget::LineLength(i) => {
            if i < doc.lines.len() {
                doc.lines[i].length_locked = true;
                doc.lines[i].length_expr = Some(string_of(expression));
            }
        },
        DistanceTarget::CircleDiameter(i) => {
            if i < doc.circles.len() {
                doc.circles[i].diameter_locked = true;
                doc.circles[i].diameter_expr = Some(string_of(expression));
            }
        },
        _ => {},
    }
}


/// The expression of the last live distance constraint among the first `n` that dimensions
/// exactly `target`, when the geometry `target` measures is alive.
pub open spec fn dimension_source(doc: Document, target: DistanceTarget, n: int) -> Option<Seq<char>>
    decreases n,
{
    if n <= 0 || n > doc.constraints@.len() {
        None
    } else {
        let c = doc.constraints@[n - 1];
        if !c.deleted && c.kind == (ConstraintKind::Distance { target }) && spec_distance_target_alive(doc, target) {
            Some(c.expression@)
        } else {
            dimension_source(doc, target, n - 1)
        }
    }
}

/// Following two sources in turn is following the later one where it gives an expression,
/// and the earlier one elsewhere.
proof fn lemma_follow_then(
    d: Document,
    e: Document,
    f: Document,
    first: spec_fn(DistanceTarget) -> Option<Seq<char>>,
    second: spec_fn(DistanceTarget) -> Option<Seq<char>>,
    both: spec_fn(DistanceTarget) -> Option<Seq<char>>,
)
    requires
        flags_follow(d, e, first),
        flags_follow(e, f, second),
        forall|t: DistanceTarget| #[trigger] both(t) == (if second(t) is Some { second(t) } else { first(t) }),
    ensures
        flags_follow(d, f, both),
{
    assert forall|i: int| 0 <= i < d.rects@.len() implies #[trigger] f.rects@[i] == (Rect {
        width_locked: f.rects@[i].width_locked,
        width_expr: f.rects@[i].width_expr,
        height_locked: f.rects@[i].height_locked,
        height_expr: f.rects@[i].height_expr,
        ..d.rects@[i]
    }) by {
        assert(e.rects@[i] == (Rect {
            width_locked: e.rects@[i].width_locked,
            width_expr: e.rects@[i].width_expr,
            height_locked: e.rects@[i].height_locked,
            height_expr: e.rects@[i].height_expr,
            ..d.rects@[i]
        }));
    }
    assert forall|i: int| 0 <= i < d.lines@.len() implies #[trigger] f.lines@[i] == (Line {
        length_locked: f.lines@[i].length_locked,
        length_expr: f.lines@[i].length_expr,
        ..d.lines@[i]
    }) by {
        assert(e.lines@[i] == (Line {
            length_locked: e.lines@[i].length_locked,
            length_expr: e.lines@[i].length_expr,
            ..d.lines@[i]
        }));
    }
    assert forall|i: int| 0 <= i < d.circles@.len() implies #[trigger] f.circles@[i] == (Circle {
        diameter_locked: f.circles@[i].diameter_locked,
        diameter_expr: f.circles@[i].diameter_expr,
        ..d.circles@[i]
    }) by {
        assert(e.circles@[i] == (Circle {
            diameter_locked: e.circles@[i].diameter_locked,
            diameter_expr: e.circles@[i].diameter_expr,
            ..d.circles@[i]
        }));
    }
    assert forall|i: int| 0 <= i < d.rects@.len() implies {
        let r = #[trigger] d.rects@[i];
        let g = f.rects@[i];
        &&& flag_synced(r.width_locked, r.width_expr, g.width_locked, g.width_expr, both(DistanceTarget::RectWidth(i as usize)))
        &&& flag_synced(r.height_locked, r.height_expr, g.height_locked, g.height_expr, both(DistanceTarget::RectHeight(i as usize)))
    } by {
        assert(e.rects@[i] == e.rects@[i]);
        assert(both(DistanceTarget::RectWidth(i as usize)) == both(DistanceTarget::RectWidth(i as usize)));
        assert(both(DistanceTarget::RectHeight(i as usize)) == both(DistanceTarget::RectHeight(i as usize)));
    }
    assert forall|i: int| 0 <= i < d.lines@.len() implies {
        let l = #[trigger] d.lines@[i];
        let g = f.lines@[i];
        flag_synced(l.length_locked, l.length_expr, g.length_locked, g.length_expr, both(DistanceTarget::LineLength(i as usize)))
    } by {
        assert(e.lines@[i] == e.lines@[i]);
        assert(both(DistanceTarget::LineLength(i as usize)) == both(DistanceTarget::LineLength(i as usize)));
    }
    assert forall|i: int| 0 <= i < d.circles@.len() implies {
        let c = #[trigger] d.circles@[i];
        let g = f.circles@[i];
        flag_synced(c.diameter_locked, c.diameter_expr, g.diameter_locked, g.diameter_expr, both(DistanceTarget::CircleDiameter(i as usize)))
    } by {
        assert(e.circles@[i] == e.circles@[i]);
        assert(both(DistanceTarget::CircleDiameter(i as usize)) == both(DistanceTarget::CircleDiameter(i as usize)));
    }
}

/// Set the legacy flags from the constraints: each rectangle width and height, line length
/// and circle diameter dimensioned by a live distance constraint on live geometry takes the
/// expression of the last such constraint; other flags keep their value.
pub fn sync_legacy_dimension_flags_from_constraints(doc: &mut Document)
    ensures
        flags_follow(
            *old(doc),
            *final(doc),
            |t: DistanceTarget| dimension_source(*old(doc), t, old(doc).constraints@.len() as int),
        ),
{
    let ghost d = *doc;
    let n = doc.constraints.len();
    let mut k: usize = 0;
    proof {
        assert(flags_follow(d, *doc, |t: DistanceTarget| dimension_source(d, t, 0)));
    }
    while k < n
        invariant
            d == *old(doc),
            n == d.constraints@.len(),
            k <= n,
            flags_follow(d, *doc, |t: DistanceTarget| dimension_source(d, t, k as int)),
        decreases n - k,
    {
        let ghost e = *doc;
        let deleted = doc.constraints[k].deleted;
        let kind = doc.constraints[k].kind;
        let expression = doc.constraints[k].expression.clone();
        let ghost c = d.constraints@[k as int];
        let mut applied = false;
        let mut synced_target = DistanceTarget::LineLength(0);
        if !deleted {
            match kind {
                ConstraintKind::Distance { target } => {
                    if distance_target_alive(doc, &target) {
                        sync_legacy_dimension_flags(doc, target, expression.as_str());
                        applied = true;
                        synced_target = target;
                    }
                },
                _ => {},
            }
        }
        proof {
            assert(forall|t: DistanceTarget| spec_distance_target_alive(e, t) == spec_distance_target_alive(d, t));
            if applied {
                lemma_follow_then(
                    d,
                    e,
                    *doc,
                    |t: DistanceTarget| dimension_source(d, t, k as int),
                    |slot: DistanceTarget| source_if(slot, synced_target, expression@),
                    |t: DistanceTarget| dimension_source(d, t, k + 1),
                );
            } else {
                assert(forall|t: DistanceTarget| #[trigger] dimension_source(d, t, k + 1) == dimension_source(d, t, k as int));
            }
        }
        k = k + 1;
    }
}


/// A legacy flag pair that mirrors `src`: locked with the expression when there is one,
/// unlocked and empty otherwise.
pub open spec fn lock_follows(locked: bool, expr: Option<String>, src: Option<Seq<char>>) -> bool {
    match src {
        Some(x) => locked && expr is Some && expr->Some_0@ == x,
        None => !locked && expr is None,
    }
}

/// `e` is `d` with every legacy flag mirroring the constraints of `d`: each rectangle width
/// and height, line length and circle diameter is locked, with the expression of the last
/// live distance constraint on it, exactly when such a constraint exists and the geometry
/// is alive.
pub open spec fn locks_follow_constraints(d: Document, e: Document) -> bool {
    let n = d.constraints@.len() as int;
    &&& same_but_legacy_flags(d, e)
    &&& forall|i: int|
        0 <= i < d.rects@.len() ==> {
            let r = #[trigger] e.rects@[i];
            &&& lock_follows(r.width_locked, r.width_expr, dimension_source(d, DistanceTarget::RectWidth(i as usize), n))
            &&& lock_follows(r.height_locked, r.height_expr, dimension_source(d, DistanceTarget::RectHeight(i as usize), n))
        }
    &&& forall|i: int|
        0 <= i < d.lines@.len() ==> {
            let l = #[trigger] e.lines@[i];
            lock_follows(l.length_locked, l.length_expr, dimension_source(d, DistanceTarget::LineLength(i as usize), n))
        }
    &&& forall|i: int|
        0 <= i < d.circles@.len() ==> {
            let c = #[trigger] e.circles@[i];
            lock_follows(c.diameter_locked, c.diameter_expr, dimension_source(d, DistanceTarget::CircleDiameter(i as usize), n))
        }
}

/// `e` has the rectangles, lines and circles of `d`, up to their legacy dimension flags.
pub open spec fn geometry_but_locks(d: Document, e: Document) -> bool {
    &&& e.rects@.len() == d.rects@.len()
    &&& forall|i: int|
        0 <= i < d.rects@.len() ==> #[trigger] e.rects@[i] == (Rect {
            width_locked: e.rects@[i].width_locked,
            width_expr: e.rects@[i].width_expr,
            height_locked: e.rects@[i].height_locked,
            height_expr: e.rects@[i].height_expr,
            ..d.rects@[i]
        })
    &&& e.lines@.len() == d.lines@.len()
    &&& forall|i: int|
        0 <= i < d.lines@.len() ==> #[trigger] e.lines@[i] == (Line {
            length_locked: e.lines@[i].length_locked,
            length_expr: e.lines@[i].length_expr,
            ..d.lines@[i]
        })
    &&& e.circles@.len() == d.circles@.len()
    &&& forall|i: int|
        0 <= i < d.circles@.len() ==> #[trigger] e.circles@[i] == (Circle {
            diameter_locked: e.circles@[i].diameter_locked,
            diameter_expr: e.circles@[i].diameter_expr,
            ..d.circles@[i]
        })
}

/// Every legacy dimension flag of `e` mirrors the constraints of `e`: a rectangle width or
/// height, line length or circle diameter is locked, with the expression of the last live
/// distance constraint on it, exactly when such a constraint exists and the geometry is
/// alive.
pub open spec fn locks_in_sync(e: Document) -> bool {
    let n = e.constraints@.len() as int;
    &&& forall|i: int|
        0 <= i < e.rects@.len() ==> {
            let r = #[trigger] e.rects@[i];
            &&& lock_follows(r.width_locked, r.width_expr, dimension_source(e, DistanceTarget::RectWidth(i as usize), n))
            &&& lock_follows(r.height_locked, r.height_expr, dimension_source(e, DistanceTarget::RectHeight(i as usize), n))
        }
    &&& forall|i: int|
        0 <= i < e.lines@.len() ==> {
            let l = #[trigger] e.lines@[i];
            lock_follows(l.length_locked, l.length_expr, dimension_source(e, DistanceTarget::LineLength(i as usize), n))
        }
    &&& forall|i: int|
        0 <= i < e.circles@.len() ==> {
            let c = #[trigger] e.circles@[i];
            lock_follows(c.diameter_locked, c.diameter_expr, dimension_source(e, DistanceTarget::CircleDiameter(i as usize), n))
        }
}

/// The expression a legacy dimension flag holds for `target`, when the flag is locked with
/// one; `None` for targets that have no flag.
pub open spec fn dimension_lock(e: Document, target: DistanceTarget) -> Option<Seq<char>> {
    match target {
        DistanceTarget::RectWidth(i) => if i < e.rects@.len() && e.rects@[i as int].width_locked
            && e.rects@[i as int].width_expr is Some {
            Some(e.rects@[i as int].width_expr->Some_0@)
        } else {
            None
        },
        DistanceTarget::RectHeight(i) => if i < e.rects@.len() && e.rects@[i as int].height_locked
            && e.rects@[i as int].height_expr is Some {
            Some(e.rects@[i as int].height_expr->Some_0@)
        } else {
            None
        },
        DistanceTarget::LineLength(i) => if i < e.lines@.len() && e.lines@[i as int].length_locked
            && e.lines@[i as int].length_expr is Some {
            Some(e.lines@[i as int].length_expr->Some_0@)
        } else {
            None
        },
        DistanceTarget::CircleDiameter(i) => if i < e.circles@.len()
            && e.circles@[i as int].diameter_locked && e.circles@[i as int].diameter_expr is Some {
            Some(e.circles@[i as int].diameter_expr->Some_0@)
        } else {
            None
        },
        _ => None,
    }
}

/// Whether `target` dimensions an entity that carries a legacy flag.
pub open spec fn has_lock_flag(target: DistanceTarget) -> bool {
    target is RectWidth || target is RectHeight || target is LineLength || target is CircleDiameter
}

/// With the flags in sync, a live distance constraint that is the last one of `e` locks the
/// flag of its (alive) target with its expression.
pub proof fn lemma_last_constraint_locks(e: Document, target: DistanceTarget)
    requires
        locks_in_sync(e),
        e.constraints@.len() > 0,
        !e.constraints@.last().deleted,
        e.constraints@.last().kind == (ConstraintKind::Distance { target }),
        has_lock_flag(target),
        spec_distance_target_alive(e, target),
    ensures
        dimension_lock(e, target) == Some(e.constraints@.last().expression@),
{
    let n = e.constraints@.len() as int;
    assert(dimension_source(e, target, n) == Some(e.constraints@.last().expression@));
    match target {
        DistanceTarget::RectWidth(i) => {
            assert(e.rects@[i as int] == e.rects@[i as int]);
        },
        DistanceTarget::RectHeight(i) => {
            assert(e.rects@[i as int] == e.rects@[i as int]);
        },
        DistanceTarget::LineLength(i) => {
            assert(e.lines@[i as int] == e.lines@[i as int]);
        },
        DistanceTarget::CircleDiameter(i) => {
            assert(e.circles@[i as int] == e.circles@[i as int]);
        },
        _ => {},
    }
}

/// Among the first `n` constraints, one is a live distance constraint on `target`.
pub open spec fn dimensioned_within(doc: Document, target: DistanceTarget, n: int) -> bool {
    exists|i: int|
        0 <= i < n && i < doc.constraints@.len() && !(#[trigger] doc.constraints@[i]).deleted
            && doc.constraints@[i].kind == (ConstraintKind::Distance { target })
}

proof fn lemma_source_some(doc: Document, target: DistanceTarget, n: int)
    requires
        0 <= n <= doc.constraints@.len(),
    ensures
        dimension_source(doc, target, n) is Some <==> spec_distance_target_alive(doc, target)
            && dimensioned_within(doc, target, n),
    decreases n,
{
    if n > 0 {
        lemma_source_some(doc, target, n - 1);
        let c = doc.constraints@[n - 1];
        if dimensioned_within(doc, target, n) && !dimensioned_within(doc, target, n - 1) {
            let i = choose|i: int|
                0 <= i < n && i < doc.constraints@.len() && !(#[trigger] doc.constraints@[i]).deleted
                    && doc.constraints@[i].kind == (ConstraintKind::Distance { target });
            assert(i == n - 1);
        }
        if !c.deleted && c.kind == (ConstraintKind::Distance { target }) {
            assert(dimensioned_within(doc, target, n));
        }
    }
}

/// With the legacy flags in sync, a rectangle width or height, line length or circle
/// diameter is locked exactly when its geometry is alive and some live distance constraint
/// dimensions it.
pub proof fn law_locks_follow_live_dimensions(e: Document, target: DistanceTarget)
    requires
        locks_in_sync(e),
        has_lock_flag(target),
    ensures
        dimension_lock(e, target) is Some <==> spec_distance_target_alive(e, target)
            && dimensioned_within(e, target, e.constraints@.len() as int),
{
    let n = e.constraints@.len() as int;
    lemma_source_some(e, target, n);
    match target {
        DistanceTarget::RectWidth(i) => {
            if i < e.rects@.len() {
                assert(e.rects@[i as int] == e.rects@[i as int]);
            }
        },
        DistanceTarget::RectHeight(i) => {
            if i < e.rects@.len() {
                assert(e.rects@[i as int] == e.rects@[i as int]);
            }
        },
        DistanceTarget::LineLength(i) => {
            if i < e.lines@.len() {
                assert(e.lines@[i as int] == e.lines@[i as int]);
            }
        },
        DistanceTarget::CircleDiameter(i) => {
            if i < e.circles@.len() {
                assert(e.circles@[i as int] == e.circles@[i as int]);
            }
        },
        _ => {},
    }
}

proof fn lemma_source_kept(d: Document, e: Document, t: DistanceTarget, n: int)
    requires
        same_but_legacy_flags(d, e),
    ensures
        dimension_source(e, t, n) == dimension_source(d, t, n),
    decreases n,
{
    assert(spec_distance_target_alive(e, t) == spec_distance_target_alive(d, t));
    if n > 0 {
        lemma_source_kept(d, e, t, n - 1);
    }
}

/// Set the legacy dimension flags from the constraints after a solve: clear every flag,
/// then lock each dimensioned rectangle width and height, line length and circle diameter.
pub fn refresh_dimension_locks(doc: &mut Document)
    ensures
        locks_follow_constraints(*old(doc), *final(doc)),
        geometry_but_locks(*old(doc), *final(doc)),
        locks_in_sync(*final(doc)),
{
    let ghost d = *doc;
    clear_legacy_dimension_locks(doc);
    let ghost e = *doc;
    sync_legacy_dimension_flags_from_constraints(doc);
    proof {
        let f = *doc;
        let n = d.constraints@.len() as int;
        assert(e.constraints == d.constraints);
        assert forall|i: int| 0 <= i < d.rects@.len() implies #[trigger] f.rects@[i] == (Rect {
            width_locked: f.rects@[i].width_locked,
            width_expr: f.rects@[i].width_expr,
            height_locked: f.rects@[i].height_locked,
            height_expr: f.rects@[i].height_expr,
            ..d.rects@[i]
        }) by {
            assert(e.rects@[i] == (Rect {
                width_locked: e.rects@[i].width_locked,
                width_expr: e.rects@[i].width_expr,
                height_locked: e.rects@[i].height_locked,
                height_expr: e.rects@[i].height_expr,
                ..d.rects@[i]
            }));
        }
        assert forall|i: int| 0 <= i < d.lines@.len() implies #[trigger] f.lines@[i] == (Line {
            length_locked: f.lines@[i].length_locked,
            length_expr: f.lines@[i].length_expr,
            ..d.lines@[i]
        }) by {
            assert(e.lines@[i] == (Line {
                length_locked: e.lines@[i].length_locked,
                length_expr: e.lines@[i].length_expr,
                ..d.lines@[i]
            }));
        }
        assert forall|i: int| 0 <= i < d.circles@.len() implies #[trigger] f.circles@[i] == (Circle {
            diameter_locked: f.circles@[i].diameter_locked,
            diameter_expr: f.circles@[i].diameter_expr,
            ..d.circles@[i]
        }) by {
            assert(e.circles@[i] == (Circle {
                diameter_locked: e.circles@[i].diameter_locked,
                diameter_expr: e.circles@[i].diameter_expr,
                ..d.circles@[i]
            }));
        }
        assert forall|i: int| 0 <= i < d.rects@.len() implies {
            let r = #[trigger] f.rects@[i];
            &&& lock_follows(r.width_locked, r.width_expr, dimension_source(d, DistanceTarget::RectWidth(i as usize), n))
            &&& lock_follows(r.height_locked, r.height_expr, dimension_source(d, DistanceTarget::RectHeight(i as usize), n))
        } by {
            lemma_source_kept(d, e, DistanceTarget::RectWidth(i as usize), n);
            lemma_source_kept(d, e, DistanceTarget::RectHeight(i as usize), n);
            let r0 = e.rects@[i];
            assert(!r0.width_locked && r0.width_expr is None && !r0.height_locked && r0.height_expr is None);
        }
        assert forall|i: int| 0 <= i < d.lines@.len() implies {
            let l = #[trigger] f.lines@[i];
            lock_follows(l.length_locked, l.length_expr, dimension_source(d, DistanceTarget::LineLength(i as usize), n))
        } by {
            lemma_source_kept(d, e, DistanceTarget::LineLength(i as usize), n);
            let l0 = e.lines@[i];
            assert(!l0.length_locked && l0.length_expr is None);
        }
        assert forall|i: int| 0 <= i < d.circles@.len() implies {
            let c = #[trigger] f.circles@[i];
            lock_follows(c.diameter_locked, c.diameter_expr, dimension_source(d, DistanceTarget::CircleDiameter(i as usize), n))
        } by {
            lemma_source_kept(d, e, DistanceTarget::CircleDiameter(i as usize), n);
            let c0 = e.circles@[i];
            assert(!c0.diameter_locked && c0.diameter_expr is None);
        }
        assert(same_but_legacy_flags(d, f));
        assert forall|i: int| 0 <= i < f.rects@.len() implies {
            let r = #[trigger] f.rects@[i];
            &&& lock_follows(r.width_locked, r.width_expr, dimension_source(f, DistanceTarget::RectWidth(i as usize), n))
            &&& lock_follows(r.height_locked, r.height_expr, dimension_source(f, DistanceTarget::RectHeight(i as usize), n))
        } by {
            lemma_source_kept(d, f, DistanceTarget::RectWidth(i as usize), n);
            lemma_source_kept(d, f, DistanceTarget::RectHeight(i as usize), n);
        }
        assert forall|i: int| 0 <= i < f.lines@.len() implies {
            let l = #[trigger] f.lines@[i];
            lock_follows(l.length_locked, l.length_expr, dimension_source(f, DistanceTarget::LineLength(i as usize), n))
        } by {
            lemma_source_kept(d, f, DistanceTarget::LineLength(i as usize), n);
        }
        assert forall|i: int| 0 <= i < f.circles@.len() implies {
            let c = #[trigger] f.circles@[i];
            lock_follows(c.diameter_locked, c.diameter_expr, dimension_source(f, DistanceTarget::CircleDiameter(i as usize), n))
        } by {
            lemma_source_kept(d, f, DistanceTarget::CircleDiameter(i as usize), n);
        }
    }
}

/// Every locked legacy dimension of the first `k` rectangles that has no constraint is listed
/// for migration.
proof fn lemma_rect_pending_lists(d: Document, m: LegacyMeasurements, k: int, i: int)
    requires
        0 <= i < k <= d.rects@.len(),
    ensures
        d.rects@[i].width_locked && !has_distance_constraint(d, DistanceTarget::RectWidth(i as usize)) ==> exists|j: int|
            0 <= j < rect_pending(d, m, k).len() && (#[trigger] rect_pending(d, m, k)[j]).1 == DistanceTarget::RectWidth(i as usize) && rect_pending(d, m, k)[j].2 == legacy_expression(d.rects@[i].width_expr, m.rect_widths@[i]@),
        d.rects@[i].height_locked && !has_distance_constraint(d, DistanceTarget::RectHeight(i as usize)) ==> exists|j: int|
            0 <= j < rect_pending(d, m, k).len() && (#[trigger] rect_pending(d, m, k)[j]).1 == DistanceTarget::RectHeight(i as usize) && rect_pending(d, m, k)[j].2 == legacy_expression(d.rects@[i].height_expr, m.rect_heights@[i]@),
    decreases k,
{
    let prev = rect_pending(d, m, k - 1);
    let r = d.rects@[k - 1];
    let w = pending_if(d, r.width_locked, r.sketch, DistanceTarget::RectWidth((k - 1) as usize), legacy_expression(r.width_expr, m.rect_widths@[k - 1]@));
    let h = pending_if(d, r.height_locked, r.sketch, DistanceTarget::RectHeight((k - 1) as usize), legacy_expression(r.height_expr, m.rect_heights@[k - 1]@));
    assert(rect_pending(d, m, k) == prev + w + h);
    if i < k - 1 {
        lemma_rect_pending_lists(d, m, k - 1, i);
        if d.rects@[i].width_locked && !has_distance_constraint(d, DistanceTarget::RectWidth(i as usize)) {
            let j = choose|j: int| 0 <= j < prev.len() && (#[trigger] prev[j]).1 == DistanceTarget::RectWidth(i as usize) && prev[j].2 == legacy_expression(d.rects@[i].width_expr, m.rect_widths@[i]@);
            assert((prev + w + h)[j] == prev[j]);
        }
        if d.rects@[i].height_locked && !has_distance_constraint(d, DistanceTarget::RectHeight(i as usize)) {
            let j = choose|j: int| 0 <= j < prev.len() && (#[trigger] prev[j]).1 == DistanceTarget::RectHeight(i as usize) && prev[j].2 == legacy_expression(d.rects@[i].height_expr, m.rect_heights@[i]@);
            assert((prev + w + h)[j] == prev[j]);
        }
    } else {
        if r.width_locked && !has_distance_constraint(d, DistanceTarget::RectWidth(i as usize)) {
            assert((prev + w + h)[prev.len() as int] == w[0]);
        }
        if r.height_locked && !has_distance_constraint(d, DistanceTarget::RectHeight(i as usize)) {
            assert((prev + w + h)[(prev.len() + w.len()) as int] == h[0]);
        }
    }
}

proof fn lemma_line_pending_lists(d: Document, m: LegacyMeasurements, k: int, i: int)
    requires
        0 <= i < k <= d.lines@.len(),
    ensures
        d.lines@[i].length_locked && !has_distance_constraint(d, DistanceTarget::LineLength(i as usize)) ==> exists|j: int|
            0 <= j < line_pending(d, m, k).len() && (#[trigger] line_pending(d, m, k)[j]).1 == DistanceTarget::LineLength(i as usize) && line_pending(d, m, k)[j].2 == legacy_expression(d.lines@[i].length_expr, m.line_lengths@[i]@),
    decreases k,
{
    let prev = line_pending(d, m, k - 1);
    let l = d.lines@[k - 1];
    let w = pending_if(d, l.length_locked, l.sketch, DistanceTarget::LineLength((k - 1) as usize), legacy_expression(l.length_expr, m.line_lengths@[k - 1]@));
    assert(line_pending(d, m, k) == prev + w);
    if i < k - 1 {
        lemma_line_pending_lists(d, m, k - 1, i);
        if d.lines@[i].length_locked && !has_distance_constraint(d, DistanceTarget::LineLength(i as usize)) {
            let j = choose|j: int| 0 <= j < prev.len() && (#[trigger] prev[j]).1 == DistanceTarget::LineLength(i as usize) && prev[j].2 == legacy_expression(d.lines@[i].length_expr, m.line_lengths@[i]@);
            assert((prev + w)[j] == prev[j]);
        }
    } else if l.length_locked && !has_distance_constraint(d, DistanceTarget::LineLength(i as usize)) {
        assert((prev + w)[prev.len() as int] == w[0]);
    }
}

proof fn lemma_circle_pending_lists(d: Document, m: LegacyMeasurements, k: int, i: int)
    requires
        0 <= i < k <= d.circles@.len(),
    ensures
        d.circles@[i].diameter_locked && !has_distance_constraint(d, DistanceTarget::CircleDiameter(i as usize)) ==> exists|j: int|
            0 <= j < circle_pending(d, m, k).len() && (#[trigger] circle_pending(d, m, k)[j]).1 == DistanceTarget::CircleDiameter(i as usize) && circle_pending(d, m, k)[j].2 == legacy_expression(d.circles@[i].diameter_expr, m.circle_diameters@[i]@),
    decreases k,
{
    let prev = circle_pending(d, m, k - 1);
    let c = d.circles@[k - 1];
    let w = pending_if(d, c.diameter_locked, c.sketch, DistanceTarget::CircleDiameter((k - 1) as usize), legacy_expression(c.diameter_expr, m.circle_diameters@[k - 1]@));
    assert(circle_pending(d, m, k) == prev + w);
    if i < k - 1 {
        lemma_circle_pending_lists(d, m, k - 1, i);
        if d.circles@[i].diameter_locked && !has_distance_constraint(d, DistanceTarget::CircleDiameter(i as usize)) {
            let j = choose|j: int| 0 <= j < prev.len() && (#[trigger] prev[j]).1 == DistanceTarget::CircleDiameter(i as usize) && prev[j].2 == legacy_expression(d.circles@[i].diameter_expr, m.circle_diameters@[i]@);
            assert((prev + w)[j] == prev[j]);
        }
    } else if c.diameter_locked && !has_distance_constraint(d, DistanceTarget::CircleDiameter(i as usize)) {
        assert((prev + w)[prev.len() as int] == w[0]);
    }
}

proof fn lemma_rect_pending_empty(e: Document, m: LegacyMeasurements, k: int)
    requires
        0 <= k <= e.rects@.len(),
        forall|i: int| 0 <= i < e.rects@.len() && (#[trigger] e.rects@[i]).width_locked ==> has_distance_constraint(e, DistanceTarget::RectWidth(i as usize)),
        forall|i: int| 0 <= i < e.rects@.len() && (#[trigger] e.rects@[i]).height_locked ==> has_distance_constraint(e, DistanceTarget::RectHeight(i as usize)),
    ensures
        rect_pending(e, m, k).len() == 0,
    decreases k,
{
    if k > 0 {
        lemma_rect_pending_empty(e, m, k - 1);
        assert(e.rects@[k - 1].width_locked ==> has_distance_constraint(e, DistanceTarget::RectWidth((k - 1) as usize)));
        assert(e.rects@[k - 1].height_locked ==> has_distance_constraint(e, DistanceTarget::RectHeight((k - 1) as usize)));
    }
}

proof fn lemma_line_pending_empty(e: Document, m: LegacyMeasurements, k: int)
    requires
        0 <= k <= e.lines@.len(),
        forall|i: int| 0 <= i < e.lines@.len() && (#[trigger] e.lines@[i]).length_locked ==> has_distance_constraint(e, DistanceTarget::LineLength(i as usize)),
    ensures
        line_pending(e, m, k).len() == 0,
    decreases k,
{
    if k > 0 {
        lemma_line_pending_empty(e, m, k - 1);
        assert(e.lines@[k - 1].length_locked ==> has_distance_constraint(e, DistanceTarget::LineLength((k - 1) as usize)));
    }
}

proof fn lemma_circle_pending_empty(e: Document, m: LegacyMeasurements, k: int)
    requires
        0 <= k <= e.circles@.len(),
        forall|i: int| 0 <= i < e.circles@.len() && (#[trigger] e.circles@[i]).diameter_locked ==> has_distance_constraint(e, DistanceTarget::CircleDiameter(i as usize)),
    ensures
        circle_pending(e, m, k).len() == 0,
    decreases k,
{
    if k > 0 {
        lemma_circle_pending_empty(e, m, k - 1);
        assert(e.circles@[k - 1].diameter_locked ==> has_distance_constraint(e, DistanceTarget::CircleDiameter((k - 1) as usize)));
    }
}

/// A target listed for migration has a live constraint afterwards; one that had a
/// constraint keeps it.
proof fn lemma_migrated_target_dimensioned(d: Document, e: Document, m: LegacyMeasurements, t: DistanceTarget, j: int)
    requires
        dimensions_appended(d, e, legacy_pending(d, m)),
        0 <= j < legacy_pending(d, m).len(),
        legacy_pending(d, m)[j].1 == t,
        t is RectWidth || t is RectHeight || t is LineLength || t is CircleDiameter,
    ensures
        has_distance_constraint(e, t),
{
    let n = d.constraints@.len() as int;
    assert(is_distance_constraint_on(e, n + j, t));
}

proof fn lemma_kept_target_dimensioned(d: Document, e: Document, m: LegacyMeasurements, t: DistanceTarget)
    requires
        dimensions_appended(d, e, legacy_pending(d, m)),
        has_distance_constraint(d, t),
    ensures
        has_distance_constraint(e, t),
{
    let i = choose|i: int| #[trigger] is_distance_constraint_on(d, i, t);
    assert(e.constraints@[i] == d.constraints@[i]);
    assert(is_distance_constraint_on(e, i, t));
}

/// Migrating a document twice adds nothing the second time: after one migration every
/// locked legacy dimension is dimensioned by a constraint.
pub proof fn law_migration_is_idempotent(d: Document, e: Document, m: LegacyMeasurements)
    requires
        measurements_cover(d, m),
        dimensions_appended(d, e, legacy_pending(d, m)),
    ensures
        legacy_pending(e, m).len() == 0,
{
    let p = legacy_pending(d, m);
    let rp = rect_pending(d, m, d.rects@.len() as int);
    let lp = line_pending(d, m, d.lines@.len() as int);
    let cp = circle_pending(d, m, d.circles@.len() as int);
    assert(p == rp + lp + cp);
    assert forall|i: int| 0 <= i < e.rects@.len() && (#[trigger] e.rects@[i]).width_locked implies has_distance_constraint(
        e,
        DistanceTarget::RectWidth(i as usize),
    ) by {
        let t = DistanceTarget::RectWidth(i as usize);
        if has_distance_constraint(d, t) {
            lemma_kept_target_dimensioned(d, e, m, t);
        } else {
            lemma_rect_pending_lists(d, m, d.rects@.len() as int, i);
            let j = choose|j: int| 0 <= j < rp.len() && (#[trigger] rp[j]).1 == t;
            assert(p[j] == rp[j]);
            lemma_migrated_target_dimensioned(d, e, m, t, j);
        }
    }
    assert forall|i: int| 0 <= i < e.rects@.len() && (#[trigger] e.rects@[i]).height_locked implies has_distance_constraint(
        e,
        DistanceTarget::RectHeight(i as usize),
    ) by {
        let t = DistanceTarget::RectHeight(i as usize);
        if has_distance_constraint(d, t) {
            lemma_kept_target_dimensioned(d, e, m, t);
        } else {
            lemma_rect_pending_lists(d, m, d.rects@.len() as int, i);
            let j = choose|j: int| 0 <= j < rp.len() && (#[trigger] rp[j]).1 == t;
            assert(p[j] == rp[j]);
            lemma_migrated_target_dimensioned(d, e, m, t, j);
        }
    }
    assert forall|i: int| 0 <= i < e.lines@.len() && (#[trigger] e.lines@[i]).length_locked implies has_distance_constraint(
        e,
        DistanceTarget::LineLength(i as usize),
    ) by {
        let t = DistanceTarget::LineLength(i as usize);
        if has_distance_constraint(d, t) {
            lemma_kept_target_dimensioned(d, e, m, t);
        } else {
            lemma_line_pending_lists(d, m, d.lines@.len() as int, i);
            let j = choose|j: int| 0 <= j < lp.len() && (#[trigger] lp[j]).1 == t;
            assert(p[rp.len() + j] == lp[j]);
            lemma_migrated_target_dimensioned(d, e, m, t, rp.len() + j);
        }
    }
    assert forall|i: int| 0 <= i < e.circles@.len() && (#[trigger] e.circles@[i]).diameter_locked implies has_distance_constraint(
        e,
        DistanceTarget::CircleDiameter(i as usize),
    ) by {
        let t = DistanceTarget::CircleDiameter(i as usize);
        if has_distance_constraint(d, t) {
            lemma_kept_target_dimensioned(d, e, m, t);
        } else {
            lemma_circle_pending_lists(d, m, d.circles@.len() as int, i);
            let j = choose|j: int| 0 <= j < cp.len() && (#[trigger] cp[j]).1 == t;
            assert(p[rp.len() + lp.len() + j] == cp[j]);
            lemma_migrated_target_dimensioned(d, e, m, t, rp.len() + lp.len() + j);
        }
    }
    lemma_rect_pending_empty(e, m, e.rects@.len() as int);
    lemma_line_pending_empty(e, m, e.lines@.len() as int);
    lemma_circle_pending_empty(e, m, e.circles@.len() as int);
}


/// A migrated constraint on `t` with expression `x` stands among the constraints a migration
/// appended to `d`.
pub open spec fn migrated_with(d: Document, e: Document, t: DistanceTarget, x: Seq<char>) -> bool {
    exists|j: int|
        d.constraints@.len() <= j < e.constraints@.len() && (#[trigger] e.constraints@[j]).kind == (
        ConstraintKind::Distance { target: t }) && !e.constraints@[j].deleted
            && e.constraints@[j].expression@ == x
}

proof fn lemma_pending_migrated(d: Document, e: Document, m: LegacyMeasurements, j: int)
    requires
        dimensions_appended(d, e, legacy_pending(d, m)),
        0 <= j < legacy_pending(d, m).len(),
    ensures
        migrated_with(d, e, legacy_pending(d, m)[j].1, legacy_pending(d, m)[j].2),
{
    let n = d.constraints@.len() as int;
    let p = legacy_pending(d, m);
    let c = e.constraints@[n + j];
    assert(c.kind == ConstraintKind::Distance { target: p[j].1 } && !c.deleted && c.expression@ == p[j].2);
    assert(n <= n + j < e.constraints@.len());
}

/// Migration keeps what an old document wrote: a locked rectangle width or height, line
/// length or circle diameter that had no constraint gets one whose expression is the kept
/// expression when the document kept one, and the measurement only when it kept none.
pub proof fn law_migration_keeps_expressions(d: Document, e: Document, m: LegacyMeasurements, i: int)
    requires
        measurements_cover(d, m),
        dimensions_appended(d, e, legacy_pending(d, m)),
    ensures
        0 <= i < d.rects@.len() && d.rects@[i].width_locked && !has_distance_constraint(d, DistanceTarget::RectWidth(i as usize))
            ==> migrated_with(d, e, DistanceTarget::RectWidth(i as usize), match d.rects@[i].width_expr {
                Some(x) => x@,
                None => m.rect_widths@[i]@,
            }),
        0 <= i < d.rects@.len() && d.rects@[i].height_locked && !has_distance_constraint(d, DistanceTarget::RectHeight(i as usize))
            ==> migrated_with(d, e, DistanceTarget::RectHeight(i as usize), match d.rects@[i].height_expr {
                Some(x) => x@,
                None => m.rect_heights@[i]@,
            }),
        0 <= i < d.lines@.len() && d.lines@[i].length_locked && !has_distance_constraint(d, DistanceTarget::LineLength(i as usize))
            ==> migrated_with(d, e, DistanceTarget::LineLength(i as usize), match d.lines@[i].length_expr {
                Some(x) => x@,
                None => m.line_lengths@[i]@,
            }),
        0 <= i < d.circles@.len() && d.circles@[i].diameter_locked && !has_distance_constraint(d, DistanceTarget::CircleDiameter(i as usize))
            ==> migrated_with(d, e, DistanceTarget::CircleDiameter(i as usize), match d.circles@[i].diameter_expr {
                Some(x) => x@,
                None => m.circle_diameters@[i]@,
            }),
{
    let p = legacy_pending(d, m);
    let rp = rect_pending(d, m, d.rects@.len() as int);
    let lp = line_pending(d, m, d.lines@.len() as int);
    let cp = circle_pending(d, m, d.circles@.len() as int);
    assert(p == rp + lp + cp);
    if 0 <= i < d.rects@.len() {
        lemma_rect_pending_lists(d, m, d.rects@.len() as int, i);
        let t = DistanceTarget::RectWidth(i as usize);
        if d.rects@[i].width_locked && !has_distance_constraint(d, t) {
            let j = choose|j: int| 0 <= j < rp.len() && (#[trigger] rp[j]).1 == t && rp[j].2 == legacy_expression(d.rects@[i].width_expr, m.rect_widths@[i]@);
            assert(p[j] == rp[j]);
            lemma_pending_migrated(d, e, m, j);
        }
        let t = DistanceTarget::RectHeight(i as usize);
        if d.rects@[i].height_locked && !has_distance_constraint(d, t) {
            let j = choose|j: int| 0 <= j < rp.len() && (#[trigger] rp[j]).1 == t && rp[j].2 == legacy_expression(d.rects@[i].height_expr, m.rect_heights@[i]@);
            assert(p[j] == rp[j]);
            lemma_pending_migrated(d, e, m, j);
        }
    }
    if 0 <= i < d.lines@.len() {
        lemma_line_pending_lists(d, m, d.lines@.len() as int, i);
        let t = DistanceTarget::LineLength(i as usize);
        if d.lines@[i].length_locked && !has_distance_constraint(d, t) {
            let j = choose|j: int| 0 <= j < lp.len() && (#[trigger] lp[j]).1 == t && lp[j].2 == legacy_expression(d.lines@[i].length_expr, m.line_lengths@[i]@);
            assert(p[rp.len() + j] == lp[j]);
            lemma_pending_migrated(d, e, m, rp.len() + j);
        }
    }
    if 0 <= i < d.circles@.len() {
        lemma_circle_pending_lists(d, m, d.circles@.len() as int, i);
        let t = DistanceTarget::CircleDiameter(i as usize);
        if d.circles@[i].diameter_locked && !has_distance_constraint(d, t) {
            let j = choose|j: int| 0 <= j < cp.len() && (#[trigger] cp[j]).1 == t && cp[j].2 == legacy_expression(d.circles@[i].diameter_expr, m.circle_diameters@[i]@);
            assert(p[rp.len() + lp.len() + j] == cp[j]);
            lemma_pending_migrated(d, e, m, rp.len() + lp.len() + j);
        }
    }
}

} // verus!
