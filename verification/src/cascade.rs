//! The ownership graph along which a tombstone cascades, and the reachability facts that
//! characterise what one deletion removes.

use vstd::prelude::*;
use crate::model::{ConstructionPlaneParent, Document, FaceId, ShapeKind};
use crate::selection::SceneElement;

verus! {

/// Whether `n` is a cascading graph node that is present and not tombstoned.
pub open spec fn node_alive(doc: Document, n: SceneElement) -> bool {
    match n {
        SceneElement::ConstructionPlane(i) => i < doc.construction_planes@.len()
            && !doc.construction_planes@[i as int].deleted,
        SceneElement::Sketch(i) => i < doc.sketches@.len() && !doc.sketches@[i as int].deleted,
        SceneElement::Rect(i) => i < doc.rects@.len() && !doc.rects@[i as int].deleted,
        SceneElement::Line(i) => i < doc.lines@.len() && !doc.lines@[i as int].deleted,
        SceneElement::Circle(i) => i < doc.circles@.len() && !doc.circles@[i as int].deleted,
        SceneElement::Constraint(i) => i < doc.constraints@.len()
            && !doc.constraints@[i as int].deleted,
        _ => false,
    }
}

/// Whether `n` is a cascading graph node that is present and tombstoned.
pub open spec fn node_deleted(doc: Document, n: SceneElement) -> bool {
    match n {
        SceneElement::ConstructionPlane(i) => i < doc.construction_planes@.len()
            && doc.construction_planes@[i as int].deleted,
        SceneElement::Sketch(i) => i < doc.sketches@.len() && doc.sketches@[i as int].deleted,
        SceneElement::Rect(i) => i < doc.rects@.len() && doc.rects@[i as int].deleted,
        SceneElement::Line(i) => i < doc.lines@.len() && doc.lines@[i as int].deleted,
        SceneElement::Circle(i) => i < doc.circles@.len() && doc.circles@[i as int].deleted,
        SceneElement::Constraint(i) => i < doc.constraints@.len()
            && doc.constraints@[i as int].deleted,
        _ => false,
    }
}

/// Direct ownership: deleting `a` tombstones `b` with it. A plane, rectangle or circle owns
/// the sketches hosted on it; a sketch owns its rectangles, lines, circles, constraints and
/// the construction planes parented to it.
pub open spec fn owns(doc: Document, a: SceneElement, b: SceneElement) -> bool {
    match (a, b) {
        (SceneElement::ConstructionPlane(p), SceneElement::Sketch(s)) => s < doc.sketches@.len()
            && doc.sketches@[s as int].face == FaceId::ConstructionPlane(p),
        (SceneElement::Rect(r), SceneElement::Sketch(s)) => s < doc.sketches@.len()
            && doc.sketches@[s as int].face == FaceId::Rect(r),
        (SceneElement::Circle(c), SceneElement::Sketch(s)) => s < doc.sketches@.len()
            && doc.sketches@[s as int].face == FaceId::Circle(c),
        (SceneElement::Sketch(s), SceneElement::Rect(r)) => r < doc.rects@.len()
            && doc.rects@[r as int].sketch == s,
        (SceneElement::Sketch(s), SceneElement::Line(l)) => l < doc.lines@.len()
            && doc.lines@[l as int].sketch == s,
        (SceneElement::Sketch(s), SceneElement::Circle(c)) => c < doc.circles@.len()
            && doc.circles@[c as int].sketch == s,
        (SceneElement::Sketch(s), SceneElement::Constraint(k)) => k < doc.constraints@.len()
            && doc.constraints@[k as int].sketch == s,
        (SceneElement::Sketch(s), SceneElement::ConstructionPlane(p)) => p
            < doc.construction_planes@.len() && doc.construction_planes@[p as int].parent
            == ConstructionPlaneParent::Sketch(s),
        _ => false,
    }
}

/// A chain of live nodes, each owning the next.
pub open spec fn is_live_path(doc: Document, p: Seq<SceneElement>) -> bool {
    &&& p.len() > 0
    &&& forall|i: int| 0 <= i < p.len() ==> node_alive(doc, #[trigger] p[i])
    &&& forall|i: int| 0 <= i < p.len() - 1 ==> owns(doc, #[trigger] p[i], p[i + 1])
}

/// `b` is tombstoned by a cascade started at `a`: a live ownership chain leads from `a` to `b`.
pub open spec fn reaches(doc: Document, a: SceneElement, b: SceneElement) -> bool {
    exists|p: Seq<SceneElement>| is_live_path(doc, p) && p[0] == a && p.last() == b
}

/// Parameters, extrusions, bodies and unit defaults are equal.
pub open spec fn others_same(d: Document, e: Document) -> bool {
    &&& d.parameters == e.parameters
    &&& d.extrusions == e.extrusions
    &&& d.bodies == e.bodies
    &&& d.default_length_unit == e.default_length_unit
    &&& d.default_angle_unit == e.default_angle_unit
}

/// Every field of the sketch-geometry entities other than their tombstone flags is equal.
pub open spec fn same_but_flags(d: Document, e: Document) -> bool {
    &&& d.sketches@.len() == e.sketches@.len()
    &&& forall|i: int|
        0 <= i < d.sketches@.len() ==> {
            &&& #[trigger] d.sketches@[i].face == e.sketches@[i].face
            &&& d.sketches@[i].name == e.sketches@[i].name
            &&& d.sketches@[i].length_unit == e.sketches@[i].length_unit
            &&& d.sketches@[i].angle_unit == e.sketches@[i].angle_unit
        }
    &&& d.rects@.len() == e.rects@.len()
    &&& forall|i: int|
        0 <= i < d.rects@.len() ==> {
            &&& #[trigger] d.rects@[i].sketch == e.rects@[i].sketch
            &&& d.rects@[i].name == e.rects@[i].name
            &&& d.rects@[i].width_locked == e.rects@[i].width_locked
            &&& d.rects@[i].width_expr == e.rects@[i].width_expr
            &&& d.rects@[i].height_locked == e.rects@[i].height_locked
            &&& d.rects@[i].height_expr == e.rects@[i].height_expr
        }
    &&& d.lines@.len() == e.lines@.len()
    &&& forall|i: int|
        0 <= i < d.lines@.len() ==> {
            &&& #[trigger] d.lines@[i].sketch == e.lines@[i].sketch
            &&& d.lines@[i].construction == e.lines@[i].construction
            &&& d.lines@[i].name == e.lines@[i].name
            &&& d.lines@[i].length_locked == e.lines@[i].length_locked
            &&& d.lines@[i].length_expr == e.lines@[i].length_expr
        }
    &&& d.circles@.len() == e.circles@.len()
    &&& forall|i: int|
        0 <= i < d.circles@.len() ==> {
            &&& #[trigger] d.circles@[i].sketch == e.circles@[i].sketch
            &&& d.circles@[i].construction == e.circles@[i].construction
            &&& d.circles@[i].name == e.circles@[i].name
            &&& d.circles@[i].diameter_locked == e.circles@[i].diameter_locked
            &&& d.circles@[i].diameter_expr == e.circles@[i].diameter_expr
        }
    &&& d.constraints@.len() == e.constraints@.len()
    &&& forall|i: int|
        0 <= i < d.constraints@.len() ==> {
            &&& #[trigger] d.constraints@[i].sketch == e.constraints@[i].sketch
            &&& d.constraints@[i].kind == e.constraints@[i].kind
            &&& d.constraints@[i].expression == e.constraints@[i].expression
            &&& d.constraints@[i].name == e.constraints@[i].name
        }
    &&& d.construction_planes@.len() == e.construction_planes@.len()
    &&& forall|i: int|
        0 <= i < d.construction_planes@.len() ==> {
            &&& #[trigger] d.construction_planes@[i].parent == e.construction_planes@[i].parent
            &&& d.construction_planes@[i].name == e.construction_planes@[i].name
        }
}

/// `e` differs from `d` only by further tombstones.
pub open spec fn grows(d: Document, e: Document) -> bool {
    &&& same_but_flags(d, e)
    &&& forall|i: int|
        0 <= i < d.construction_planes@.len() && d.construction_planes@[i].deleted
            ==> #[trigger] e.construction_planes@[i].deleted
    &&& forall|i: int|
        0 <= i < d.sketches@.len() && d.sketches@[i].deleted ==> #[trigger] e.sketches@[i].deleted
    &&& forall|i: int|
        0 <= i < d.rects@.len() && d.rects@[i].deleted ==> #[trigger] e.rects@[i].deleted
    &&& forall|i: int|
        0 <= i < d.lines@.len() && d.lines@[i].deleted ==> #[trigger] e.lines@[i].deleted
    &&& forall|i: int|
        0 <= i < d.circles@.len() && d.circles@[i].deleted ==> #[trigger] e.circles@[i].deleted
    &&& forall|i: int|
        0 <= i < d.constraints@.len() && d.constraints@[i].deleted
            ==> #[trigger] e.constraints@[i].deleted
}

pub proof fn lemma_grows_nodes(d: Document, e: Document)
    requires
        grows(d, e),
    ensures
        forall|n: SceneElement| node_deleted(d, n) ==> #[trigger] node_deleted(e, n),
        forall|n: SceneElement| node_alive(e, n) ==> #[trigger] node_alive(d, n),
        forall|a: SceneElement, b: SceneElement| #[trigger] owns(d, a, b) == owns(e, a, b),
{
    assert forall|n: SceneElement| node_deleted(d, n) implies #[trigger] node_deleted(e, n) by {
        match n {
            SceneElement::ConstructionPlane(i) => assert(e.construction_planes@[i as int].deleted),
            SceneElement::Sketch(i) => assert(e.sketches@[i as int].deleted),
            SceneElement::Rect(i) => assert(e.rects@[i as int].deleted),
            SceneElement::Line(i) => assert(e.lines@[i as int].deleted),
            SceneElement::Circle(i) => assert(e.circles@[i as int].deleted),
            SceneElement::Constraint(i) => assert(e.constraints@[i as int].deleted),
            _ => {},
        }
    }
    assert forall|n: SceneElement| node_alive(e, n) implies #[trigger] node_alive(d, n) by {
        match n {
            SceneElement::ConstructionPlane(i) => {
                if d.construction_planes@[i as int].deleted {
                    assert(e.construction_planes@[i as int].deleted);
                }
            },
            SceneElement::Sketch(i) => {
                if d.sketches@[i as int].deleted {
                    assert(e.sketches@[i as int].deleted);
                }
            },
            SceneElement::Rect(i) => {
                if d.rects@[i as int].deleted {
                    assert(e.rects@[i as int].deleted);
                }
            },
            SceneElement::Line(i) => {
                if d.lines@[i as int].deleted {
                    assert(e.lines@[i as int].deleted);
                }
            },
            SceneElement::Circle(i) => {
                if d.circles@[i as int].deleted {
                    assert(e.circles@[i as int].deleted);
                }
            },
            SceneElement::Constraint(i) => {
                if d.constraints@[i as int].deleted {
                    assert(e.constraints@[i as int].deleted);
                }
            },
            _ => {},
        }
    }
    assert forall|a: SceneElement, b: SceneElement| #[trigger] owns(d, a, b) == owns(e, a, b) by {
        match (a, b) {
            (SceneElement::ConstructionPlane(p), SceneElement::Sketch(s)) => {
                if s < d.sketches@.len() {
                    assert(d.sketches@[s as int].face == e.sketches@[s as int].face);
                }
            },
            (SceneElement::Rect(r), SceneElement::Sketch(s)) => {
                if s < d.sketches@.len() {
                    assert(d.sketches@[s as int].face == e.sketches@[s as int].face);
                }
            },
            (SceneElement::Circle(c), SceneElement::Sketch(s)) => {
                if s < d.sketches@.len() {
                    assert(d.sketches@[s as int].face == e.sketches@[s as int].face);
                }
            },
            (SceneElement::Sketch(s), SceneElement::Rect(r)) => {
                if r < d.rects@.len() {
                    assert(d.rects@[r as int].sketch == e.rects@[r as int].sketch);
                }
            },
            (SceneElement::Sketch(s), SceneElement::Line(l)) => {
                if l < d.lines@.len() {
                    assert(d.lines@[l as int].sketch == e.lines@[l as int].sketch);
                }
            },
            (SceneElement::Sketch(s), SceneElement::Circle(c)) => {
                if c < d.circles@.len() {
                    assert(d.circles@[c as int].sketch == e.circles@[c as int].sketch);
                }
            },
            (SceneElement::Sketch(s), SceneElement::Constraint(k)) => {
                if k < d.constraints@.len() {
                    assert(d.constraints@[k as int].sketch == e.constraints@[k as int].sketch);
                }
            },
            (SceneElement::Sketch(s), SceneElement::ConstructionPlane(p)) => {
                if p < d.construction_planes@.len() {
                    assert(d.construction_planes@[p as int].parent
                        == e.construction_planes@[p as int].parent);
                }
            },
            _ => {},
        }
    }
}

/// Nodes tombstoned in `e` but live in `d` form a set closed under live ownership in `d`.
pub open spec fn closed_growth(d: Document, e: Document) -> bool {
    forall|x: SceneElement, y: SceneElement|
        #![trigger node_deleted(e, x), owns(d, x, y)]
        node_alive(d, x) && node_deleted(e, x) && owns(d, x, y) && node_alive(d, y)
            ==> node_deleted(e, y)
}

/// The creation order only loses entries, and only entries of cascading kinds.
pub open spec fn order_trimmed(d: Seq<ShapeKind>, e: Seq<ShapeKind>) -> bool {
    &&& e.to_multiset().subset_of(d.to_multiset())
    &&& e.to_multiset().count(ShapeKind::Parameter) == d.to_multiset().count(ShapeKind::Parameter)
    &&& e.to_multiset().count(ShapeKind::Extrusion) == d.to_multiset().count(ShapeKind::Extrusion)
    &&& e.to_multiset().count(ShapeKind::Body) == d.to_multiset().count(ShapeKind::Body)
}

/// Number of `false` entries.
pub open spec fn count_false(b: Seq<bool>) -> nat
    decreases b.len(),
{
    if b.len() == 0 {
        0
    } else {
        count_false(b.drop_last()) + if b.last() {
            0nat
        } else {
            1nat
        }
    }
}

/// Live cascading containers; every cascade step lowers it.
pub open spec fn live_measure(doc: Document) -> nat {
    count_false(doc.construction_planes@.map_values(|p: crate::model::ConstructionPlane| p.deleted))
        + count_false(doc.sketches@.map_values(|s: crate::model::Sketch| s.deleted))
        + count_false(doc.rects@.map_values(|r: crate::model::Rect| r.deleted))
        + count_false(doc.circles@.map_values(|c: crate::model::Circle| c.deleted))
}

pub proof fn lemma_count_false_mono(a: Seq<bool>, b: Seq<bool>)
    requires
        a.len() == b.len(),
        forall|i: int| 0 <= i < a.len() && a[i] ==> b[i],
    ensures
        count_false(b) <= count_false(a),
        (exists|i: int| 0 <= i < a.len() && !a[i] && b[i]) ==> count_false(b) < count_false(a),
    decreases a.len(),
{
    if a.len() > 0 {
        lemma_count_false_mono(a.drop_last(), b.drop_last());
        if exists|i: int| 0 <= i < a.len() && !a[i] && b[i] {
            let i = choose|i: int| 0 <= i < a.len() && !a[i] && b[i];
            if i < a.len() - 1 {
                assert(!a.drop_last()[i] && b.drop_last()[i]);
            }
        }
    }
}

pub proof fn lemma_measure_grows(d: Document, e: Document)
    requires
        grows(d, e),
    ensures
        live_measure(e) <= live_measure(d),
        (exists|n: SceneElement|
            node_alive(d, n) && node_deleted(e, n) && (n is ConstructionPlane || n is Sketch
                || n is Rect || n is Circle)) ==> live_measure(e) < live_measure(d),
{
    let pa = d.construction_planes@.map_values(|p: crate::model::ConstructionPlane| p.deleted);
    let pb = e.construction_planes@.map_values(|p: crate::model::ConstructionPlane| p.deleted);
    let sa = d.sketches@.map_values(|s: crate::model::Sketch| s.deleted);
    let sb = e.sketches@.map_values(|s: crate::model::Sketch| s.deleted);
    let ra = d.rects@.map_values(|r: crate::model::Rect| r.deleted);
    let rb = e.rects@.map_values(|r: crate::model::Rect| r.deleted);
    let ca = d.circles@.map_values(|c: crate::model::Circle| c.deleted);
    let cb = e.circles@.map_values(|c: crate::model::Circle| c.deleted);
    assert forall|i: int| 0 <= i < pa.len() && pa[i] implies pb[i] by {
        assert(e.construction_planes@[i].deleted);
    }
    assert forall|i: int| 0 <= i < sa.len() && sa[i] implies sb[i] by {
        assert(e.sketches@[i].deleted);
    }
    assert forall|i: int| 0 <= i < ra.len() && ra[i] implies rb[i] by {
        assert(e.rects@[i].deleted);
    }
    assert forall|i: int| 0 <= i < ca.len() && ca[i] implies cb[i] by {
        assert(e.circles@[i].deleted);
    }
    lemma_count_false_mono(pa, pb);
    lemma_count_false_mono(sa, sb);
    lemma_count_false_mono(ra, rb);
    lemma_count_false_mono(ca, cb);
    if exists|n: SceneElement|
        node_alive(d, n) && node_deleted(e, n) && (n is ConstructionPlane || n is Sketch
            || n is Rect || n is Circle) {
        let n = choose|n: SceneElement|
            node_alive(d, n) && node_deleted(e, n) && (n is ConstructionPlane || n is Sketch
                || n is Rect || n is Circle);
        match n {
            SceneElement::ConstructionPlane(i) => {
                assert(!pa[i as int] && pb[i as int]);
            },
            SceneElement::Sketch(i) => {
                assert(!sa[i as int] && sb[i as int]);
            },
            SceneElement::Rect(i) => {
                assert(!ra[i as int] && rb[i as int]);
            },
            SceneElement::Circle(i) => {
                assert(!ca[i as int] && cb[i as int]);
            },
            _ => {},
        }
    }
}

pub proof fn lemma_reach_self(doc: Document, a: SceneElement)
    requires
        node_alive(doc, a),
    ensures
        reaches(doc, a, a),
{
    let p = seq![a];
    assert(is_live_path(doc, p));
    assert(is_live_path(doc, p) && p[0] == a && p.last() == a);
}

pub proof fn lemma_reach_start_alive(doc: Document, a: SceneElement, b: SceneElement)
    requires
        reaches(doc, a, b),
    ensures
        node_alive(doc, a),
        node_alive(doc, b),
{
    let p = choose|p: Seq<SceneElement>| is_live_path(doc, p) && p[0] == a && p.last() == b;
    assert(node_alive(doc, p[0]));
    assert(node_alive(doc, p[p.len() - 1]));
}

/// Reachability in a document with more tombstones implies reachability before them.
pub proof fn lemma_reach_mono(d: Document, e: Document, a: SceneElement, b: SceneElement)
    requires
        grows(d, e),
        reaches(e, a, b),
    ensures
        reaches(d, a, b),
{
    lemma_grows_nodes(d, e);
    let p = choose|p: Seq<SceneElement>| is_live_path(e, p) && p[0] == a && p.last() == b;
    assert forall|i: int| 0 <= i < p.len() implies node_alive(d, #[trigger] p[i]) by {
        assert(node_alive(e, p[i]));
    }
    assert forall|i: int| 0 <= i < p.len() - 1 implies owns(d, #[trigger] p[i], p[i + 1]) by {
        assert(owns(e, p[i], p[i + 1]));
    }
    assert(is_live_path(d, p));
    assert(is_live_path(d, p) && p[0] == a && p.last() == b);
}

pub proof fn lemma_reach_extend(
    doc: Document,
    a: SceneElement,
    x: SceneElement,
    y: SceneElement,
)
    requires
        reaches(doc, a, x),
        owns(doc, x, y),
        node_alive(doc, y),
    ensures
        reaches(doc, a, y),
{
    let p = choose|p: Seq<SceneElement>| is_live_path(doc, p) && p[0] == a && p.last() == x;
    let q = p.push(y);
    assert forall|i: int| 0 <= i < q.len() implies node_alive(doc, #[trigger] q[i]) by {
        if i < p.len() {
            assert(q[i] == p[i]);
        }
    }
    assert forall|i: int| 0 <= i < q.len() - 1 implies owns(doc, #[trigger] q[i], q[i + 1]) by {
        if i < p.len() - 1 {
            assert(q[i] == p[i] && q[i + 1] == p[i + 1]);
        } else {
            assert(q[i] == x);
        }
    }
    assert(is_live_path(doc, q));
    assert(is_live_path(doc, q) && q[0] == a && q.last() == y);
}

pub proof fn lemma_reach_prepend(
    d: Document,
    e: Document,
    s: SceneElement,
    c: SceneElement,
    n: SceneElement,
)
    requires
        grows(d, e),
        node_alive(d, s),
        owns(d, s, c),
        reaches(e, c, n),
    ensures
        reaches(d, s, n),
{
    lemma_reach_mono(d, e, c, n);
    let p = choose|p: Seq<SceneElement>| is_live_path(d, p) && p[0] == c && p.last() == n;
    let q = seq![s] + p;
    assert forall|i: int| 0 <= i < q.len() implies node_alive(d, #[trigger] q[i]) by {
        if i > 0 {
            assert(q[i] == p[i - 1]);
        }
    }
    assert forall|i: int| 0 <= i < q.len() - 1 implies owns(d, #[trigger] q[i], q[i + 1]) by {
        if i > 0 {
            assert(q[i] == p[i - 1] && q[i + 1] == p[i]);
            assert(owns(d, p[i - 1], p[i]));
        }
    }
    assert(is_live_path(d, q));
    assert(q.last() == p.last());
    assert(is_live_path(d, q) && q[0] == s && q.last() == n);
}

/// A closed set of fresh tombstones that holds a node holds everything it reaches.
pub proof fn lemma_closed_absorbs(d: Document, e: Document, a: SceneElement, b: SceneElement)
    requires
        grows(d, e),
        closed_growth(d, e),
        node_deleted(e, a),
        reaches(d, a, b),
    ensures
        node_deleted(e, b),
{
    let p = choose|p: Seq<SceneElement>| is_live_path(d, p) && p[0] == a && p.last() == b;
    lemma_closed_absorbs_from(d, e, p, 0);
}

proof fn lemma_closed_absorbs_from(d: Document, e: Document, p: Seq<SceneElement>, k: int)
    requires
        grows(d, e),
        closed_growth(d, e),
        is_live_path(d, p),
        0 <= k < p.len(),
        node_deleted(e, p[k]),
    ensures
        node_deleted(e, p.last()),
    decreases p.len() - k,
{
    if k < p.len() - 1 {
        assert(owns(d, p[k], p[k + 1]));
        assert(node_alive(d, p[k]));
        assert(node_alive(d, p[k + 1]));
        lemma_closed_absorbs_from(d, e, p, k + 1);
    }
}

/// A path from `b` in `d` either survives the fresh tombstones of `e`, or ends in them.
pub proof fn lemma_split(d: Document, e: Document, b: SceneElement, t: SceneElement)
    requires
        grows(d, e),
        closed_growth(d, e),
        reaches(d, b, t),
    ensures
        node_deleted(e, t) || reaches(e, b, t),
{
    let p = choose|p: Seq<SceneElement>| is_live_path(d, p) && p[0] == b && p.last() == t;
    if forall|i: int| 0 <= i < p.len() ==> node_alive(e, #[trigger] p[i]) {
        assert forall|i: int| 0 <= i < p.len() - 1 implies owns(e, #[trigger] p[i], p[i + 1]) by {
            assert(owns(d, p[i], p[i + 1]));
        }
        assert(is_live_path(e, p));
    } else {
        let i = choose|i: int| 0 <= i < p.len() && !node_alive(e, #[trigger] p[i]);
        assert(node_alive(d, p[i]));
        assert(node_deleted(e, p[i]));
        let q = p.subrange(i, p.len() as int);
        assert forall|j: int| 0 <= j < q.len() implies node_alive(d, #[trigger] q[j]) by {
            assert(q[j] == p[i + j]);
        }
        assert forall|j: int| 0 <= j < q.len() - 1 implies owns(d, #[trigger] q[j], q[j + 1]) by {
            assert(q[j] == p[i + j] && q[j + 1] == p[i + j + 1]);
            assert(owns(d, p[i + j], p[i + j + 1]));
        }
        assert(is_live_path(d, q));
        assert(q.last() == t);
        lemma_closed_absorbs(d, e, p[i], t);
    }
}

/// A cascade from `s` beyond `s` itself goes through one of `s`'s live children, along a
/// chain that avoids `s`.
pub proof fn lemma_first_step(
    d0: Document,
    d1: Document,
    s: SceneElement,
    p: Seq<SceneElement>,
    n: SceneElement,
)
    requires
        grows(d0, d1),
        forall|m: SceneElement| node_deleted(d1, m) ==> node_deleted(d0, m) || m == s,
        is_live_path(d0, p),
        p[0] == s,
        p.last() == n,
        n != s,
    ensures
        exists|c: SceneElement| owns(d0, s, c) && node_alive(d1, c) && reaches(d1, c, n),
    decreases p.len(),
{
    if exists|j: int| 1 <= j < p.len() && p[j] == s {
        let j = choose|j: int| 1 <= j < p.len() && p[j] == s;
        let q = p.subrange(j, p.len() as int);
        assert forall|k: int| 0 <= k < q.len() implies node_alive(d0, #[trigger] q[k]) by {
            assert(q[k] == p[j + k]);
        }
        assert forall|k: int| 0 <= k < q.len() - 1 implies owns(d0, #[trigger] q[k], q[k + 1]) by {
            assert(q[k] == p[j + k] && q[k + 1] == p[j + k + 1]);
            assert(owns(d0, p[j + k], p[j + k + 1]));
        }
        assert(q[0] == s);
        assert(q.last() == n);
        lemma_first_step(d0, d1, s, q, n);
    } else {
        let q = p.subrange(1, p.len() as int);
        assert(p.len() > 1) by {
            if p.len() == 1 {
                assert(p.last() == p[0]);
            }
        }
        assert forall|k: int| 0 <= k < q.len() implies node_alive(d1, #[trigger] q[k]) by {
            assert(q[k] == p[k + 1]);
            assert(node_alive(d0, p[k + 1]));
            assert(p[k + 1] != s);
            if !node_alive(d1, q[k]) {
                assert(node_deleted(d1, q[k]));
            }
        }
        assert forall|k: int| 0 <= k < q.len() - 1 implies owns(d1, #[trigger] q[k], q[k + 1]) by {
            assert(q[k] == p[k + 1] && q[k + 1] == p[k + 2]);
            assert(owns(d0, p[k + 1], p[k + 2]));
        }
        assert(is_live_path(d1, q));
        assert(q.last() == n);
        assert(owns(d0, p[0], p[1]));
        assert(node_alive(d1, q[0]));
        assert(reaches(d1, q[0], n));
    }
}

/// After a callee tombstoned exactly what `c` reaches in `cur`, the fresh tombstones
/// relative to `base` stay closed and only grow.
pub proof fn lemma_step(base: Document, cur: Document, next: Document, c: SceneElement)
    requires
        grows(base, cur),
        closed_growth(base, cur),
        grows(cur, next),
        forall|n: SceneElement|
            #[trigger] node_deleted(next, n) == (node_deleted(cur, n) || reaches(cur, c, n)),
    ensures
        grows(base, next),
        closed_growth(base, next),
{
    assert forall|x: SceneElement, y: SceneElement|
        #![trigger node_deleted(next, x), owns(base, x, y)]
        node_alive(base, x) && node_deleted(next, x) && owns(base, x, y) && node_alive(base, y)
            implies node_deleted(next, y) by {
        if node_deleted(cur, x) {
            assert(node_deleted(cur, y));
        } else {
            assert(reaches(cur, c, x));
            if !node_deleted(cur, y) {
                assert(node_alive(cur, y));
                assert(owns(cur, x, y));
                lemma_reach_extend(cur, c, x, y);
            }
        }
    }
}

/// A node with no owned children reaches only itself.
pub proof fn lemma_leaf_reach(doc: Document, a: SceneElement, n: SceneElement)
    requires
        forall|b: SceneElement| !owns(doc, a, b),
        reaches(doc, a, n),
    ensures
        n == a,
{
    let p = choose|p: Seq<SceneElement>| is_live_path(doc, p) && p[0] == a && p.last() == n;
    if p.len() > 1 {
        assert(owns(doc, p[0], p[1]));
    }
}

} // verus!

verus! {

/// Postcondition of a cascading tombstone started at `start`: it reports whether `start`
/// was live, tombstones exactly what `start` reaches, and changes nothing else except the
/// creation order, which only loses entries.
pub open spec fn cascade_post(d: Document, e: Document, start: SceneElement, changed: bool) -> bool {
    &&& changed == node_alive(d, start)
    &&& !changed ==> e == d
    &&& grows(d, e)
    &&& others_same(d, e)
    &&& forall|n: SceneElement|
        #[trigger] node_deleted(e, n) == (node_deleted(d, n) || reaches(d, start, n))
    &&& order_trimmed(d.shape_order@, e.shape_order@)
}

pub proof fn lemma_grows_refl(d: Document)
    ensures
        grows(d, d),
        closed_growth(d, d),
        order_trimmed(d.shape_order@, d.shape_order@),
{
    lemma_grows_nodes(d, d);
}

pub proof fn lemma_grows_trans(a: Document, b: Document, c: Document)
    requires
        grows(a, b),
        grows(b, c),
    ensures
        grows(a, c),
{
    assert forall|i: int| 0 <= i < a.sketches@.len() implies #[trigger] a.sketches@[i].face
        == c.sketches@[i].face && a.sketches@[i].name == c.sketches@[i].name
        && a.sketches@[i].length_unit == c.sketches@[i].length_unit
        && a.sketches@[i].angle_unit == c.sketches@[i].angle_unit by {
        assert(a.sketches@[i].face == b.sketches@[i].face);
        assert(b.sketches@[i].face == c.sketches@[i].face);
    }
    assert forall|i: int| 0 <= i < a.rects@.len() implies #[trigger] a.rects@[i].sketch
        == c.rects@[i].sketch && a.rects@[i].name == c.rects@[i].name
        && a.rects@[i].width_locked == c.rects@[i].width_locked && a.rects@[i].width_expr == c.rects@[i].width_expr
        && a.rects@[i].height_locked == c.rects@[i].height_locked && a.rects@[i].height_expr == c.rects@[i].height_expr by {
        assert(a.rects@[i].sketch == b.rects@[i].sketch);
        assert(b.rects@[i].sketch == c.rects@[i].sketch);
    }
    assert forall|i: int| 0 <= i < a.lines@.len() implies #[trigger] a.lines@[i].sketch
        == c.lines@[i].sketch && a.lines@[i].construction == c.lines@[i].construction
        && a.lines@[i].name == c.lines@[i].name
        && a.lines@[i].length_locked == c.lines@[i].length_locked && a.lines@[i].length_expr == c.lines@[i].length_expr by {
        assert(a.lines@[i].sketch == b.lines@[i].sketch);
        assert(b.lines@[i].sketch == c.lines@[i].sketch);
    }
    assert forall|i: int| 0 <= i < a.circles@.len() implies #[trigger] a.circles@[i].sketch
        == c.circles@[i].sketch && a.circles@[i].construction == c.circles@[i].construction
        && a.circles@[i].name == c.circles@[i].name
        && a.circles@[i].diameter_locked == c.circles@[i].diameter_locked && a.circles@[i].diameter_expr == c.circles@[i].diameter_expr by {
        assert(a.circles@[i].sketch == b.circles@[i].sketch);
        assert(b.circles@[i].sketch == c.circles@[i].sketch);
    }
    assert forall|i: int| 0 <= i < a.constraints@.len() implies #[trigger] a.constraints@[i].sketch
        == c.constraints@[i].sketch && a.constraints@[i].kind == c.constraints@[i].kind
        && a.constraints@[i].expression == c.constraints@[i].expression
        && a.constraints@[i].name == c.constraints@[i].name by {
        assert(a.constraints@[i].sketch == b.constraints@[i].sketch);
        assert(b.constraints@[i].sketch == c.constraints@[i].sketch);
    }
    assert forall|i: int| 0 <= i < a.construction_planes@.len() implies #[trigger] a.construction_planes@[i].parent
        == c.construction_planes@[i].parent && a.construction_planes@[i].name
        == c.construction_planes@[i].name by {
        assert(a.construction_planes@[i].parent == b.construction_planes@[i].parent);
        assert(b.construction_planes@[i].parent == c.construction_planes@[i].parent);
    }
    assert forall|i: int| 0 <= i < a.construction_planes@.len() && a.construction_planes@[i].deleted
        implies #[trigger] c.construction_planes@[i].deleted by {
        assert(b.construction_planes@[i].deleted);
    }
    assert forall|i: int| 0 <= i < a.sketches@.len() && a.sketches@[i].deleted
        implies #[trigger] c.sketches@[i].deleted by {
        assert(b.sketches@[i].deleted);
    }
    assert forall|i: int| 0 <= i < a.rects@.len() && a.rects@[i].deleted
        implies #[trigger] c.rects@[i].deleted by {
        assert(b.rects@[i].deleted);
    }
    assert forall|i: int| 0 <= i < a.lines@.len() && a.lines@[i].deleted
        implies #[trigger] c.lines@[i].deleted by {
        assert(b.lines@[i].deleted);
    }
    assert forall|i: int| 0 <= i < a.circles@.len() && a.circles@[i].deleted
        implies #[trigger] c.circles@[i].deleted by {
        assert(b.circles@[i].deleted);
    }
    assert forall|i: int| 0 <= i < a.constraints@.len() && a.constraints@[i].deleted
        implies #[trigger] c.constraints@[i].deleted by {
        assert(b.constraints@[i].deleted);
    }
}

pub proof fn lemma_order_trans(a: Seq<ShapeKind>, b: Seq<ShapeKind>, c: Seq<ShapeKind>)
    requires
        order_trimmed(a, b),
        order_trimmed(b, c),
    ensures
        order_trimmed(a, c),
{
}

/// Sound and complete characterisation of a cascade from `s`, once `s` is tombstoned
/// (`d1`), the remaining tombstones are closed, stay within what `s` reaches, and cover
/// every live child of `s`.
pub proof fn lemma_finish(d0: Document, d1: Document, e: Document, s: SceneElement)
    requires
        grows(d0, d1),
        node_alive(d0, s),
        node_deleted(d1, s),
        forall|m: SceneElement| #[trigger] node_deleted(d1, m) ==> node_deleted(d0, m) || m == s,
        grows(d1, e),
        closed_growth(d1, e),
        forall|n: SceneElement| #[trigger]
            node_deleted(e, n) ==> node_deleted(d1, n) || reaches(d0, s, n),
        forall|c: SceneElement| owns(d0, s, c) && node_alive(d1, c) ==> #[trigger] node_deleted(e, c),
    ensures
        grows(d0, e),
        forall|n: SceneElement|
            #[trigger] node_deleted(e, n) == (node_deleted(d0, n) || reaches(d0, s, n)),
{
    lemma_grows_trans(d0, d1, e);
    lemma_grows_nodes(d0, d1);
    lemma_grows_nodes(d1, e);
    assert forall|n: SceneElement|
        #[trigger] node_deleted(e, n) == (node_deleted(d0, n) || reaches(d0, s, n)) by {
        if node_deleted(e, n) {
            if node_deleted(d1, n) && !node_deleted(d0, n) {
                assert(n == s);
                lemma_reach_self(d0, s);
            }
        }
        if node_deleted(d0, n) {
            assert(node_deleted(d1, n));
        }
        if reaches(d0, s, n) {
            if n == s {
                assert(node_deleted(d1, s));
            } else {
                let p = choose|p: Seq<SceneElement>|
                    is_live_path(d0, p) && p[0] == s && p.last() == n;
                lemma_first_step(d0, d1, s, p, n);
                let c = choose|c: SceneElement|
                    owns(d0, s, c) && node_alive(d1, c) && reaches(d1, c, n);
                assert(node_deleted(e, c));
                lemma_closed_absorbs(d1, e, c, n);
            }
        }
    }
}

/// What a callee's cascade from child `c` adds keeps the parent's bookkeeping valid.
pub proof fn lemma_child_call(
    d0: Document,
    d1: Document,
    s: SceneElement,
    cur: Document,
    next: Document,
    c: SceneElement,
    changed: bool,
)
    requires
        grows(d0, d1),
        node_alive(d0, s),
        owns(d0, s, c),
        grows(d1, cur),
        closed_growth(d1, cur),
        forall|n: SceneElement| #[trigger]
            node_deleted(cur, n) ==> node_deleted(d1, n) || reaches(d0, s, n),
        cascade_post(cur, next, c, changed),
    ensures
        grows(d1, next),
        closed_growth(d1, next),
        forall|n: SceneElement| #[trigger]
            node_deleted(next, n) ==> node_deleted(d1, n) || reaches(d0, s, n),
        node_deleted(next, c) || !node_alive(cur, c),
        node_alive(cur, c) || node_deleted(cur, c) || !node_alive(d1, c),
{
    lemma_step(d1, cur, next, c);
    lemma_grows_trans(d0, d1, cur);
    lemma_grows_nodes(d1, cur);
    assert forall|n: SceneElement| #[trigger]
        node_deleted(next, n) implies node_deleted(d1, n) || reaches(d0, s, n) by {
        if !node_deleted(cur, n) {
            assert(reaches(cur, c, n));
            lemma_reach_prepend(d0, cur, s, c, n);
        }
    }
    if node_alive(cur, c) {
        lemma_reach_self(cur, c);
    }
}

} // verus!
