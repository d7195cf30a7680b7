//! Construction geometry: plane-dimension names, axis gizmos and plane descendants.

use vstd::prelude::*;
use crate::model::{ConstraintPoint, ConstructionPlaneParent, Document, FaceId, SketchId};
use crate::cascade::{count_false, lemma_count_false_mono};
use crate::text::{lower_eq, lower_seq};

verus! {

/// Which dimension field is focused while creating a plane.
#[derive(Clone, Copy, Debug, PartialEq, Eq, Structural)]
pub enum PlaneDim {
    Offset,
    Angle,
}

pub open spec fn plane_dim_named(s: Seq<char>) -> Option<PlaneDim> {
    if s == "offset"@ || s == "o"@ || s == "d"@ || s == "distance"@ {
        Some(PlaneDim::Offset)
    } else if s == "angle"@ || s == "a"@ || s == "deg"@ || s == "degrees"@ {
        Some(PlaneDim::Angle)
    } else {
        None
    }
}

impl PlaneDim {
    pub fn from_name(name: &str) -> (r: Option<Self>)
        ensures
            r == plane_dim_named(lower_seq(name@)),
    {
        if lower_eq(name, "offset") || lower_eq(name, "o") || lower_eq(name, "d") || lower_eq(
            name,
            "distance",
        ) {
            Some(PlaneDim::Offset)
        } else if lower_eq(name, "angle") || lower_eq(name, "a") || lower_eq(name, "deg")
            || lower_eq(name, "degrees") {
            Some(PlaneDim::Angle)
        } else {
            None
        }
    }
}

/// Which axis gizmo handle is under the cursor.
#[derive(Clone, Copy, Debug, PartialEq, Eq, Structural)]
pub enum AxisGizmoHit {
    Offset,
    Angle,
}

/// World coordinate axis (origin triad).
#[derive(Clone, Copy, Debug, PartialEq, Eq, Structural)]
pub enum GlobalAxis {
    X,
    Y,
    Z,
}

pub open spec fn spec_global_axis_label(axis: GlobalAxis) -> Seq<char> {
    match axis {
        GlobalAxis::X => "X axis"@,
        GlobalAxis::Y => "Y axis"@,
        GlobalAxis::Z => "Z axis"@,
    }
}

impl GlobalAxis {
    pub fn label(self) -> (r: &'static str)
        ensures
            r@ == spec_global_axis_label(self),
    {
        match self {
            GlobalAxis::X => "X axis",
            GlobalAxis::Y => "Y axis",
            GlobalAxis::Z => "Z axis",
        }
    }
}

/// The sketch owning the entity a point belongs to.
pub open spec fn spec_point_sketch(doc: Document, point: ConstraintPoint) -> Option<SketchId> {
    match point {
        ConstraintPoint::LineEndpoint { line, .. } => if line < doc.lines@.len() {
            Some(doc.lines@[line as int].sketch)
        } else {
            None
        },
        ConstraintPoint::RectCorner { rect, .. } => if rect < doc.rects@.len() {
            Some(doc.rects@[rect as int].sketch)
        } else {
            None
        },
        ConstraintPoint::CircleCenter(circle) => if circle < doc.circles@.len() {
            Some(doc.circles@[circle as int].sketch)
        } else {
            None
        },
    }
}

pub fn point_sketch(doc: &Document, point: ConstraintPoint) -> (r: Option<SketchId>)
    ensures
        r == spec_point_sketch(*doc, point),
{
    match point {
        ConstraintPoint::LineEndpoint { line, .. } => if line < doc.lines.len() {
            Some(doc.lines[line].sketch)
        } else {
            None
        },
        ConstraintPoint::RectCorner { rect, .. } => if rect < doc.rects.len() {
            Some(doc.rects[rect].sketch)
        } else {
            None
        },
        ConstraintPoint::CircleCenter(circle) => if circle < doc.circles.len() {
            Some(doc.circles[circle].sketch)
        } else {
            None
        },
    }
}


/// Whether sketch `s` hosts face `g`: a construction plane built on the sketch, or a circle
/// drawn in it (a circle is a face further sketches can sit on).
pub open spec fn sketch_hosts_face(doc: Document, s: usize, g: FaceId) -> bool {
    match g {
        FaceId::ConstructionPlane(pi) => pi < doc.construction_planes@.len()
            && doc.construction_planes@[pi as int].parent == ConstructionPlaneParent::Sketch(s),
        FaceId::Circle(ci) => ci < doc.circles@.len() && doc.circles@[ci as int].sketch == s,
        FaceId::Rect(_) => false,
    }
}

/// `g` hangs directly under `f`: some sketch on `f` hosts `g`.
pub open spec fn face_child(doc: Document, f: FaceId, g: FaceId) -> bool {
    exists|s: usize|
        #![trigger sketch_hosts_face(doc, s, g)]
        s < doc.sketches@.len() && doc.sketches@[s as int].face == f && sketch_hosts_face(doc, s, g)
}

/// `p` is a chain of faces, each hanging directly under the one before it.
pub open spec fn is_face_chain(doc: Document, p: Seq<FaceId>) -> bool {
    &&& p.len() >= 1
    &&& forall|i: int| 0 <= i < p.len() - 1 ==> face_child(doc, #[trigger] p[i], p[i + 1])
}

/// `x` is `root` or nested, at any depth, under sketches hosted on `root`.
pub open spec fn face_reachable(doc: Document, root: FaceId, x: FaceId) -> bool {
    exists|p: Seq<FaceId>| is_face_chain(doc, p) && p[0] == root && p.last() == x
}

/// Some sketch before `s` in the document lies on `face` and hosts `g`.
pub open spec fn hosted_before(doc: Document, face: FaceId, s: usize, g: FaceId) -> bool {
    exists|t: usize|
        #![trigger sketch_hosts_face(doc, t, g)]
        t < s && doc.sketches@[t as int].face == face && sketch_hosts_face(doc, t, g)
}

proof fn lemma_push_contains<A>(s: Seq<A>, x: A, h: A)
    ensures
        s.push(x).contains(h) <==> (s.contains(h) || h == x),
{
    if s.push(x).contains(h) {
        let k = choose|k: int| 0 <= k < s.push(x).len() && s.push(x)[k] == h;
        if k < s.len() {
            assert(s[k] == h);
        }
    }
    if s.contains(h) {
        let k = choose|k: int| 0 <= k < s.len() && s[k] == h;
        assert(s.push(x)[k] == h);
    }
    if h == x {
        assert(s.push(x)[s.len() as int] == h);
    }
}

proof fn lemma_push_no_duplicates<A>(s: Seq<A>, x: A)
    requires
        s.no_duplicates(),
        !s.contains(x),
    ensures
        s.push(x).no_duplicates(),
{
    assert forall|i: int, j: int|
        0 <= i < s.push(x).len() && 0 <= j < s.push(x).len() && i != j implies s.push(x)[i]
        != s.push(x)[j] by {
        if i == s.len() {
            assert(s[j] == s.push(x)[j]);
        } else if j == s.len() {
            assert(s[i] == s.push(x)[i]);
        }
    }
}

/// Faces hung directly under `face`, sketch by sketch: its planes, then its circles.
fn face_children(doc: &Document, face: FaceId) -> (kids: Vec<FaceId>)
    ensures
        forall|g: FaceId| kids@.contains(g) <==> face_child(*doc, face, g),
        kids@.no_duplicates(),
{
    let mut kids: Vec<FaceId> = Vec::new();
    let mut s: usize = 0;
    while s < doc.sketches.len()
        invariant
            s <= doc.sketches@.len(),
            kids@.no_duplicates(),
            forall|g: FaceId| kids@.contains(g) <==> hosted_before(*doc, face, s, g),
        decreases doc.sketches@.len() - s,
    {
        if doc.sketches[s].face == face {
            let mut pi: usize = 0;
            while pi < doc.construction_planes.len()
                invariant
                    s < doc.sketches@.len(),
                    doc.sketches@[s as int].face == face,
                    pi <= doc.construction_planes@.len(),
                    kids@.no_duplicates(),
                    forall|g: FaceId|
                        kids@.contains(g) <==> hosted_before(*doc, face, s, g) || (
                        g is ConstructionPlane && g->ConstructionPlane_0 < pi && sketch_hosts_face(
                            *doc,
                            s,
                            g,
                        )),
                decreases doc.construction_planes@.len() - pi,
            {
                if doc.construction_planes[pi].parent == ConstructionPlaneParent::Sketch(s) {
                    let g = FaceId::ConstructionPlane(pi);
                    let ghost prev = kids@;
                    proof {
                        if hosted_before(*doc, face, s, g) {
                            let t = choose|t: usize|
                                #![trigger sketch_hosts_face(*doc, t, g)]
                                t < s && doc.sketches@[t as int].face == face && sketch_hosts_face(
                                    *doc,
                                    t,
                                    g,
                                );
                            assert(false);
                        }
                        lemma_push_no_duplicates(prev, g);
                    }
                    kids.push(g);
                    assert forall|h: FaceId|
                        kids@.contains(h) <==> hosted_before(*doc, face, s, h) || (
                        h is ConstructionPlane && h->ConstructionPlane_0 < pi + 1
                            && sketch_hosts_face(*doc, s, h)) by {
                        lemma_push_contains(prev, g, h);
                    }
                }
                pi = pi + 1;
            }
            let mut ci: usize = 0;
            while ci < doc.circles.len()
                invariant
                    s < doc.sketches@.len(),
                    doc.sketches@[s as int].face == face,
                    ci <= doc.circles@.len(),
                    kids@.no_duplicates(),
                    forall|g: FaceId|
                        kids@.contains(g) <==> hosted_before(*doc, face, s, g) || (
                        g is ConstructionPlane && sketch_hosts_face(*doc, s, g)) || (g is Circle
                            && g->Circle_0 < ci && sketch_hosts_face(*doc, s, g)),
                decreases doc.circles@.len() - ci,
            {
                if doc.circles[ci].sketch == s {
                    let g = FaceId::Circle(ci);
                    let ghost prev = kids@;
                    proof {
                        if hosted_before(*doc, face, s, g) {
                            let t = choose|t: usize|
                                #![trigger sketch_hosts_face(*doc, t, g)]
                                t < s && doc.sketches@[t as int].face == face && sketch_hosts_face(
                                    *doc,
                                    t,
                                    g,
                                );
                            assert(false);
                        }
                        lemma_push_no_duplicates(prev, g);
                    }
                    kids.push(g);
                    assert forall|h: FaceId|
                        kids@.contains(h) <==> hosted_before(*doc, face, s, h) || (
                        h is ConstructionPlane && sketch_hosts_face(*doc, s, h)) || (h is Circle
                            && h->Circle_0 < ci + 1 && sketch_hosts_face(*doc, s, h)) by {
                        lemma_push_contains(prev, g, h);
                    }
                }
                ci = ci + 1;
            }
        }
        assert forall|h: FaceId|
            kids@.contains(h) <==> hosted_before(*doc, face, (s + 1) as usize, h) by {
            if hosted_before(*doc, face, (s + 1) as usize, h) {
                let t = choose|t: usize|
                    #![trigger sketch_hosts_face(*doc, t, h)]
                    t < s + 1 && doc.sketches@[t as int].face == face && sketch_hosts_face(
                        *doc,
                        t,
                        h,
                    );
                if t < s {
                    assert(hosted_before(*doc, face, s, h));
                }
            }
            if hosted_before(*doc, face, s, h) {
                let t = choose|t: usize|
                    #![trigger sketch_hosts_face(*doc, t, h)]
                    t < s && doc.sketches@[t as int].face == face && sketch_hosts_face(*doc, t, h);
                assert(t < s + 1);
            }
            if doc.sketches@[s as int].face == face && sketch_hosts_face(*doc, s, h) {
                assert(hosted_before(*doc, face, (s + 1) as usize, h));
            }
        }
        s = s + 1;
    }
    proof {
        assert forall|g: FaceId| kids@.contains(g) <==> face_child(*doc, face, g) by {
            if face_child(*doc, face, g) {
                let t = choose|t: usize|
                    #![trigger sketch_hosts_face(*doc, t, g)]
                    t < doc.sketches@.len() && doc.sketches@[t as int].face == face
                        && sketch_hosts_face(*doc, t, g);
                assert(hosted_before(*doc, face, s, g));
            }
        }
    }
    kids
}


proof fn lemma_concat_contains<A>(a: Seq<A>, b: Seq<A>, h: A)
    ensures
        (a + b).contains(h) <==> (a.contains(h) || b.contains(h)),
{
    if (a + b).contains(h) {
        let k = choose|k: int| 0 <= k < (a + b).len() && (a + b)[k] == h;
        if k < a.len() {
            assert(a[k] == h);
        } else {
            assert(b[k - a.len()] == h);
        }
    }
    if a.contains(h) {
        let k = choose|k: int| 0 <= k < a.len() && a[k] == h;
        assert((a + b)[k] == h);
    }
    if b.contains(h) {
        let k = choose|k: int| 0 <= k < b.len() && b[k] == h;
        assert((a + b)[a.len() + k] == h);
    }
}

/// A chain to `y` extends by one step to each child of `y`.
proof fn lemma_reach_child(doc: Document, root: FaceId, y: FaceId, g: FaceId)
    requires
        face_reachable(doc, root, y),
        face_child(doc, y, g),
    ensures
        face_reachable(doc, root, g),
{
    let p = choose|p: Seq<FaceId>| is_face_chain(doc, p) && p[0] == root && p.last() == y;
    let q = p.push(g);
    assert forall|i: int| 0 <= i < q.len() - 1 implies face_child(doc, #[trigger] q[i], q[i + 1]) by {
        if i < p.len() - 1 {
            assert(q[i] == p[i] && q[i + 1] == p[i + 1]);
        } else {
            assert(q[i] == y);
        }
    }
    assert(is_face_chain(doc, q) && q[0] == root && q.last() == g);
}

/// A set of faces that holds `root` and every child of its members holds all of `root`'s
/// descendants.
proof fn lemma_closed_holds_reachable(doc: Document, root: FaceId, c: Seq<FaceId>, x: FaceId)
    requires
        c.contains(root),
        forall|f: FaceId, g: FaceId|
            #![trigger face_child(doc, f, g), c.contains(f)]
            c.contains(f) && face_child(doc, f, g) ==> c.contains(g),
        face_reachable(doc, root, x),
    ensures
        c.contains(x),
{
    let p = choose|p: Seq<FaceId>| is_face_chain(doc, p) && p[0] == root && p.last() == x;
    lemma_chain_within(doc, c, p, p.len() - 1);
}

proof fn lemma_chain_within(doc: Document, c: Seq<FaceId>, p: Seq<FaceId>, i: int)
    requires
        is_face_chain(doc, p),
        c.contains(p[0]),
        forall|f: FaceId, g: FaceId|
            #![trigger face_child(doc, f, g), c.contains(f)]
            c.contains(f) && face_child(doc, f, g) ==> c.contains(g),
        0 <= i < p.len(),
    ensures
        c.contains(p[i]),
    decreases i,
{
    if i > 0 {
        lemma_chain_within(doc, c, p, i - 1);
        assert(face_child(doc, p[i - 1], p[i]));
    }
}

pub(crate) fn falses(n: usize) -> (v: Vec<bool>)
    ensures
        v@.len() == n,
        forall|i: int| 0 <= i < n ==> !v@[i],
{
    let mut v: Vec<bool> = Vec::new();
    while v.len() < n
        invariant
            v@.len() <= n,
            forall|i: int| 0 <= i < v@.len() ==> !v@[i],
        decreases n - v@.len(),
    {
        v.push(false);
    }
    v
}

/// Faces a walk from plane `root` can meet: existing planes and circles, and the root.
pub open spec fn walk_face(doc: Document, root: usize, f: FaceId) -> bool {
    match f {
        FaceId::ConstructionPlane(pi) => pi < doc.construction_planes@.len() || pi == root,
        FaceId::Circle(ci) => ci < doc.circles@.len(),
        FaceId::Rect(_) => false,
    }
}

spec fn marked(doc: Document, sp: Seq<bool>, sc: Seq<bool>, sr: bool, f: FaceId) -> bool {
    match f {
        FaceId::ConstructionPlane(pi) => if pi < doc.construction_planes@.len() {
            sp[pi as int]
        } else {
            sr
        },
        FaceId::Circle(ci) => sc[ci as int],
        FaceId::Rect(_) => true,
    }
}

spec fn walk_measure(doc: Document, root: usize, sp: Seq<bool>, sc: Seq<bool>, sr: bool) -> nat {
    count_false(sp) + count_false(sc) + if root >= doc.construction_planes@.len() && !sr {
        1nat
    } else {
        0nat
    }
}

/// Depth-first walk from plane `root`: each reachable face once, and every plane that hangs
/// under a reached face.
fn walk_descendants(doc: &Document, root: usize) -> (r: (Vec<FaceId>, Vec<usize>))
    ensures
        r.0@.no_duplicates(),
        forall|g: FaceId|
            r.0@.contains(g) <==> face_reachable(*doc, FaceId::ConstructionPlane(root), g),
        r.1@.no_duplicates(),
        forall|pi: usize|
            r.1@.contains(pi) <==> exists|f: FaceId|
                r.0@.contains(f) && face_child(*doc, f, FaceId::ConstructionPlane(pi)),
        r.0@.len() > 0 && r.0@[0] == FaceId::ConstructionPlane(root),
{
    let ghost d = *doc;
    let root_face = FaceId::ConstructionPlane(root);
    let mut sp = falses(doc.construction_planes.len());
    let mut sc = falses(doc.circles.len());
    let mut sr = false;
    let mut collected: Vec<FaceId> = Vec::new();
    let mut planes: Vec<usize> = Vec::new();
    let mut stack: Vec<FaceId> = Vec::new();
    stack.push(root_face);
    proof {
        let p0 = seq![root_face];
        assert(is_face_chain(d, p0) && p0[0] == root_face && p0.last() == root_face);
        assert(stack@[0] == root_face);
    }
    while stack.len() > 0
        invariant
            d == *doc,
            sp@.len() == d.construction_planes@.len(),
            sc@.len() == d.circles@.len(),
            forall|k: int| 0 <= k < stack@.len() ==> walk_face(d, root, #[trigger] stack@[k]),
            forall|f: FaceId| collected@.contains(f) ==> walk_face(d, root, f),
            forall|f: FaceId|
                walk_face(d, root, f) ==> (collected@.contains(f) <==> marked(d, sp@, sc@, sr, f)),
            collected@.no_duplicates(),
            collected@.contains(root_face) || stack@.contains(root_face),
            forall|f: FaceId, g: FaceId|
                #![trigger face_child(d, f, g), collected@.contains(f)]
                collected@.contains(f) && face_child(d, f, g) ==> collected@.contains(g)
                    || stack@.contains(g),
            forall|k: int|
                0 <= k < stack@.len() ==> face_reachable(d, root_face, #[trigger] stack@[k]),
            forall|f: FaceId| collected@.contains(f) ==> face_reachable(d, root_face, f),
            planes@.no_duplicates(),
            forall|pi: usize|
                planes@.contains(pi) <==> exists|f: FaceId|
                    collected@.contains(f) && face_child(d, f, FaceId::ConstructionPlane(pi)),
            collected@.len() == 0 ==> stack@ == seq![root_face] && !sr && forall|k: int|
                0 <= k < sp@.len() ==> !#[trigger] sp@[k],
            collected@.len() > 0 ==> collected@[0] == root_face,
        decreases walk_measure(d, root, sp@, sc@, sr), stack@.len(),
    {
        let ghost stack0 = stack@;
        let ghost collected0 = collected@;
        let ghost planes0 = planes@;
        let ghost sp0 = sp@;
        let ghost sc0 = sc@;
        let ghost sr0 = sr;
        let face = stack.pop().unwrap();
        let ghost base = stack@;
        proof {
            assert(stack0 == base.push(face));
            assert(stack0[stack0.len() - 1] == face);
            assert forall|h: FaceId| stack0.contains(h) <==> (base.contains(h) || h == face) by {
                lemma_push_contains(base, face, h);
            }
            assert forall|k: int| 0 <= k < base.len() implies walk_face(d, root, #[trigger] base[k])
                && face_reachable(d, root_face, base[k]) by {
                assert(base[k] == stack0[k]);
            }
        }
        let fresh = match face {
            FaceId::ConstructionPlane(pi) => if pi < doc.construction_planes.len() {
                !sp[pi]
            } else {
                !sr
            },
            FaceId::Circle(ci) => !sc[ci],
            FaceId::Rect(_) => false,
        };
        if fresh {
            match face {
                FaceId::ConstructionPlane(pi) => if pi < doc.construction_planes.len() {
                    sp.set(pi, true);
                    proof {
                        lemma_count_false_mono(sp0, sp@);
                    }
                } else {
                    sr = true;
                },
                FaceId::Circle(ci) => {
                    sc.set(ci, true);
                    proof {
                        lemma_count_false_mono(sc0, sc@);
                    }
                },
                FaceId::Rect(_) => {},
            }
            proof {
                lemma_count_false_mono(sp0, sp@);
                lemma_count_false_mono(sc0, sc@);
                assert(!collected0.contains(face));
                lemma_push_no_duplicates(collected0, face);
            }
            collected.push(face);
            proof {
                assert forall|h: FaceId| collected@.contains(h) <==> (collected0.contains(h) || h == face) by {
                    lemma_push_contains(collected0, face, h);
                }
                if collected0.len() == 0 {
                    assert(stack0 == seq![root_face]);
                    assert(face == root_face);
                }
                assert(collected@[0] == root_face);
            }
            let kids = face_children(doc, face);
            let mut j: usize = 0;
            while j < kids.len()
                invariant
                    d == *doc,
                    0 <= j <= kids@.len(),
                    forall|g: FaceId| kids@.contains(g) <==> face_child(d, face, g),
                    kids@.no_duplicates(),
                    stack@ == base + kids@.subrange(0, j as int),
                    !collected0.contains(face),
                    forall|f: FaceId| collected0.contains(f) ==> walk_face(d, root, f),
                    planes0.no_duplicates(),
                    forall|pi: usize|
                        planes0.contains(pi) <==> exists|f: FaceId|
                            collected0.contains(f) && face_child(d, f, FaceId::ConstructionPlane(pi)),
                    planes@.no_duplicates(),
                    forall|pi: usize|
                        #![trigger planes@.contains(pi)]
                        #![trigger planes0.contains(pi)]
                        planes@.contains(pi) <==> planes0.contains(pi) || kids@.subrange(
                            0,
                            j as int,
                        ).contains(FaceId::ConstructionPlane(pi)),
                    collected@.len() > 0 && collected@[0] == root_face,
                decreases kids@.len() - j,
            {
                let kid = kids[j];
                let ghost st = stack@;
                let ghost pl = planes@;
                stack.push(kid);
                proof {
                    assert(kids@.subrange(0, j + 1) == kids@.subrange(0, j as int).push(kid));
                    assert(stack@ == base + kids@.subrange(0, j + 1));
                }
                match kid {
                    FaceId::ConstructionPlane(pi) => {
                        proof {
                            assert(kids@.contains(kid));
                            if kids@.subrange(0, j as int).contains(kid) {
                                let k = choose|k: int|
                                    0 <= k < j && kids@.subrange(0, j as int)[k] == kid;
                                assert(kids@[k] == kids@[j as int]);
                            }
                            if planes0.contains(pi) {
                                let f = choose|f: FaceId|
                                    collected0.contains(f) && face_child(
                                        d,
                                        f,
                                        FaceId::ConstructionPlane(pi),
                                    );
                                let t1 = choose|t: usize|
                                    #![trigger sketch_hosts_face(d, t, kid)]
                                    t < d.sketches@.len() && d.sketches@[t as int].face == f
                                        && sketch_hosts_face(d, t, kid);
                                let t2 = choose|t: usize|
                                    #![trigger sketch_hosts_face(d, t, kid)]
                                    t < d.sketches@.len() && d.sketches@[t as int].face == face
                                        && sketch_hosts_face(d, t, kid);
                                assert(t1 == t2);
                                assert(false);
                            }
                            lemma_push_no_duplicates(pl, pi);
                        }
                        planes.push(pi);
                        proof {
                            assert forall|q: usize|
                                #![trigger planes@.contains(q)]
                                #![trigger planes0.contains(q)]
                                planes@.contains(q) <==> planes0.contains(q) || kids@.subrange(
                                    0,
                                    j + 1,
                                ).contains(FaceId::ConstructionPlane(q)) by {
                                lemma_push_contains(pl, pi, q);
                                lemma_push_contains(
                                    kids@.subrange(0, j as int),
                                    kid,
                                    FaceId::ConstructionPlane(q),
                                );
                            }
                        }
                    },
                    _ => {
                        proof {
                            assert forall|q: usize|
                                #![trigger planes@.contains(q)]
                                #![trigger planes0.contains(q)]
                                planes@.contains(q) <==> planes0.contains(q) || kids@.subrange(
                                    0,
                                    j + 1,
                                ).contains(FaceId::ConstructionPlane(q)) by {
                                lemma_push_contains(
                                    kids@.subrange(0, j as int),
                                    kid,
                                    FaceId::ConstructionPlane(q),
                                );
                            }
                        }
                    },
                }
                j = j + 1;
            }
            proof {
                assert(kids@.subrange(0, kids@.len() as int) == kids@);
                assert forall|h: FaceId| stack@.contains(h) <==> (base.contains(h) || kids@.contains(h)) by {
                    lemma_concat_contains(base, kids@, h);
                }
                assert forall|k: int| 0 <= k < stack@.len() implies walk_face(d, root, #[trigger] stack@[k])
                    && face_reachable(d, root_face, stack@[k]) by {
                    if k < base.len() {
                        assert(stack@[k] == base[k]);
                    } else {
                        assert(stack@[k] == kids@[k - base.len()]);
                        assert(kids@.contains(stack@[k]));
                        assert(face_child(d, face, stack@[k]));
                        lemma_reach_child(d, root_face, face, stack@[k]);
                        let t = choose|t: usize|
                            #![trigger sketch_hosts_face(d, t, stack@[k])]
                            t < d.sketches@.len() && d.sketches@[t as int].face == face
                                && sketch_hosts_face(d, t, stack@[k]);
                    }
                }
                assert forall|f: FaceId, g: FaceId|
                    #![trigger face_child(d, f, g), collected@.contains(f)]
                    collected@.contains(f) && face_child(d, f, g) implies collected@.contains(g)
                        || stack@.contains(g) by {
                    if f != face {
                        assert(collected0.contains(f));
                        assert(collected0.contains(g) || stack0.contains(g));
                    }
                }
                assert forall|pi: usize|
                    planes@.contains(pi) <==> exists|f: FaceId|
                        collected@.contains(f) && face_child(d, f, FaceId::ConstructionPlane(pi)) by {
                    if planes@.contains(pi) {
                        if planes0.contains(pi) {
                            let f = choose|f: FaceId|
                                collected0.contains(f) && face_child(d, f, FaceId::ConstructionPlane(pi));
                            assert(collected@.contains(f));
                        } else {
                            assert(kids@.contains(FaceId::ConstructionPlane(pi)));
                            assert(collected@.contains(face));
                        }
                    }
                    if exists|f: FaceId|
                        collected@.contains(f) && face_child(d, f, FaceId::ConstructionPlane(pi)) {
                        let f = choose|f: FaceId|
                            collected@.contains(f) && face_child(d, f, FaceId::ConstructionPlane(pi));
                        if f == face {
                            assert(kids@.contains(FaceId::ConstructionPlane(pi)));
                        } else {
                            assert(collected0.contains(f));
                        }
                    }
                }
                assert forall|f: FaceId|
                    walk_face(d, root, f) implies (collected@.contains(f) <==> marked(d, sp@, sc@, sr, f)) by {
                    assert(collected@.contains(f) <==> (collected0.contains(f) || f == face));
                }
            }
        } else {
            proof {
                assert(marked(d, sp@, sc@, sr, face));
                assert(collected@.contains(face));
                assert forall|f: FaceId, g: FaceId|
                    #![trigger face_child(d, f, g), collected@.contains(f)]
                    collected@.contains(f) && face_child(d, f, g) implies collected@.contains(g)
                        || stack@.contains(g) by {
                    assert(collected0.contains(g) || stack0.contains(g));
                }
            }
        }
    }
    proof {
        assert(collected@.contains(root_face));
        assert forall|g: FaceId|
            collected@.contains(g) <==> face_reachable(d, root_face, g) by {
            if face_reachable(d, root_face, g) {
                lemma_closed_holds_reachable(d, root_face, collected@, g);
            }
        }
    }
    (collected, planes)
}

/// Faces hosted on or nested under sketches on `root_plane`, the root plane first: each face
/// reachable from the root through the sketches it hosts, once.
pub fn descendant_faces(doc: &Document, root_plane: usize) -> (r: Vec<FaceId>)
    ensures
        r@.len() > 0 && r@[0] == FaceId::ConstructionPlane(root_plane),
        r@.no_duplicates(),
        forall|g: FaceId|
            r@.contains(g) <==> face_reachable(*doc, FaceId::ConstructionPlane(root_plane), g),
{
    let (faces, _planes) = walk_descendants(doc, root_plane);
    faces
}

/// Construction planes built, at any depth, on sketches that sit on `root_plane`: each plane
/// that hangs under a face reachable from the root, once.
pub fn descendant_plane_indices(doc: &Document, root_plane: usize) -> (r: Vec<usize>)
    ensures
        r@.no_duplicates(),
        forall|pi: usize|
            r@.contains(pi) <==> exists|f: FaceId|
                face_reachable(*doc, FaceId::ConstructionPlane(root_plane), f) && face_child(
                    *doc,
                    f,
                    FaceId::ConstructionPlane(pi),
                ),
{
    let (faces, planes) = walk_descendants(doc, root_plane);
    proof {
        assert forall|pi: usize|
            planes@.contains(pi) <==> exists|f: FaceId|
                face_reachable(*doc, FaceId::ConstructionPlane(root_plane), f) && face_child(
                    *doc,
                    f,
                    FaceId::ConstructionPlane(pi),
                ) by {
            if exists|f: FaceId|
                face_reachable(*doc, FaceId::ConstructionPlane(root_plane), f) && face_child(
                    *doc,
                    f,
                    FaceId::ConstructionPlane(pi),
                ) {
                let f = choose|f: FaceId|
                    face_reachable(*doc, FaceId::ConstructionPlane(root_plane), f) && face_child(
                        *doc,
                        f,
                        FaceId::ConstructionPlane(pi),
                    );
                assert(faces@.contains(f));
            }
        }
    }
    planes
}


/// What a viewport pick landed on, by the entity it refers to (the picked coordinates stay
/// with the viewport).
#[derive(Clone, Copy, Debug, PartialEq, Eq, Structural)]
pub enum PickTargetKind {
    /// A sketch point (line endpoint, rectangle corner, or circle center).
    Point(ConstraintPoint),
    /// A standalone sketch line segment.
    Line(usize),
    /// A sketch circle (picked on its perimeter).
    Circle(usize),
    /// One edge of a construction-plane quad.
    PlaneEdge,
    /// One feature edge of a body's solid mesh.
    BodyEdge { body: usize },
    GlobalAxis(GlobalAxis),
    ConstructionPlane(usize),
    Ground,
}

/// The sketch a picked entity lives in: a line's, a circle's or a point's sketch, or the
/// sketch a construction plane was built on; none for plane edges, body edges, global axes
/// and the ground.
pub open spec fn spec_sketch_from_pick_target(doc: Document, kind: PickTargetKind) -> Option<SketchId> {
    match kind {
        PickTargetKind::Line(i) => if i < doc.lines@.len() {
            Some(doc.lines@[i as int].sketch)
        } else {
            None
        },
        PickTargetKind::Circle(i) => if i < doc.circles@.len() {
            Some(doc.circles@[i as int].sketch)
        } else {
            None
        },
        PickTargetKind::ConstructionPlane(i) => if i < doc.construction_planes@.len() {
            match doc.construction_planes@[i as int].parent {
                ConstructionPlaneParent::Sketch(s) => Some(s),
                ConstructionPlaneParent::Root => None,
            }
        } else {
            None
        },
        PickTargetKind::Point(p) => spec_point_sketch(doc, p),
        _ => None,
    }
}

pub fn sketch_from_pick_target(doc: &Document, kind: PickTargetKind) -> (r: Option<SketchId>)
    ensures
        r == spec_sketch_from_pick_target(*doc, kind),
{
    match kind {
        PickTargetKind::Line(i) => if i < doc.lines.len() {
            Some(doc.lines[i].sketch)
        } else {
            None
        },
        PickTargetKind::Circle(i) => if i < doc.circles.len() {
            Some(doc.circles[i].sketch)
        } else {
            None
        },
        PickTargetKind::ConstructionPlane(i) => if i < doc.construction_planes.len() {
            match doc.construction_planes[i].parent {
                ConstructionPlaneParent::Sketch(s) => Some(s),
                ConstructionPlaneParent::Root => None,
            }
        } else {
            None
        },
        PickTargetKind::Point(p) => point_sketch(doc, p),
        _ => None,
    }
}

/// Hierarchy parent for a new construction plane from a pick target: the picked entity's
/// sketch, else the root.
pub fn parent_from_pick_target(doc: &Document, kind: PickTargetKind) -> (r: ConstructionPlaneParent)
    ensures
        r == (match spec_sketch_from_pick_target(*doc, kind) {
            Some(s) => ConstructionPlaneParent::Sketch(s),
            None => ConstructionPlaneParent::Root,
        }),
{
    match sketch_from_pick_target(doc, kind) {
        Some(s) => ConstructionPlaneParent::Sketch(s),
        None => ConstructionPlaneParent::Root,
    }
}

} // verus!
