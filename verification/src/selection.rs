//! Scene elements and the ordered, duplicate-free scene selection.

use vstd::prelude::*;
use crate::model::{ConstraintPoint, RectEdge, SketchId};

verus! {

/// Anything that can be shown, selected or deleted in the scene tree and viewport.
#[derive(Clone, Copy, Debug, PartialEq, Eq, Hash, Structural)]
pub enum SceneElement {
    ConstructionPlane(usize),
    Sketch(SketchId),
    Rect(usize),
    Line(usize),
    Circle(usize),
    RectEdge(usize, RectEdge),
    Point(ConstraintPoint),
    Constraint(usize),
    Extrusion(usize),
    Body(usize),
}

/// The selected scene elements in click order, each at most once.
#[derive(Clone, Debug)]
pub struct SceneSelection {
    items: Vec<SceneElement>,
}

impl View for SceneSelection {
    type V = Seq<SceneElement>;

    closed spec fn view(&self) -> Seq<SceneElement> {
        self.items@
    }
}

/// Result of one click: a plain click replaces the selection, an additive click toggles
/// membership of `element` (appending it when absent).
pub open spec fn spec_click(sel: Seq<SceneElement>, element: SceneElement, additive: bool) -> Seq<
    SceneElement,
> {
    if !additive {
        seq![element]
    } else if sel.contains(element) {
        sel.remove_value(element)
    } else {
        sel.push(element)
    }
}

impl SceneSelection {
    /// The empty selection.
    pub fn new() -> (s: SceneSelection)
        ensures
            s@ == Seq::<SceneElement>::empty(),
    {
        SceneSelection { items: Vec::new() }
    }

    pub fn is_empty(&self) -> (r: bool)
        ensures
            r == (self@.len() == 0),
    {
        self.items.len() == 0
    }

    pub fn len(&self) -> (r: usize)
        ensures
            r == self@.len(),
    {
        self.items.len()
    }

    /// The selected elements in order.
    pub fn elements(&self) -> (r: &[SceneElement])
        ensures
            r@ == self@,
    {
        self.items.as_slice()
    }

    /// The only selected element, if exactly one is selected.
    pub fn single(&self) -> (r: Option<SceneElement>)
        ensures
            r == (if self@.len() == 1 {
                Some(self@[0])
            } else {
                None::<SceneElement>
            }),
    {
        if self.items.len() == 1 {
            Some(self.items[0])
        } else {
            None
        }
    }

    /// Deselect everything.
    pub fn clear(&mut self)
        ensures
            final(self)@ == Seq::<SceneElement>::empty(),
    {
        self.items = Vec::new();
    }

    pub fn contains(&self, element: SceneElement) -> (r: bool)
        ensures
            r == self@.contains(element),
    {
        index_of(&self.items, element).is_some()
    }
}

/// Position of `element` in `items`, if present.
fn index_of(items: &Vec<SceneElement>, element: SceneElement) -> (r: Option<usize>)
    ensures
        r is Some ==> r->Some_0 < items@.len() && items@[r->Some_0 as int] == element,
        r is Some ==> forall|j: int| 0 <= j < r->Some_0 ==> items@[j] != element,
        r is None <==> !items@.contains(element),
{
    let mut i: usize = 0;
    while i < items.len()
        invariant
            i <= items@.len(),
            forall|j: int| 0 <= j < i ==> items@[j] != element,
        decreases items@.len() - i,
    {
        if items[i] == element {
            return Some(i);
        }
        i = i + 1;
    }
    None
}

impl Default for SceneSelection {
    fn default() -> (s: SceneSelection)
        ensures
            s@ == Seq::<SceneElement>::empty(),
    {
        SceneSelection::new()
    }
}

/// Apply a click on `element` to the selection.
pub fn click_scene_selection(sel: &mut SceneSelection, element: SceneElement, additive: bool)
    ensures
        final(sel)@ == spec_click(old(sel)@, element, additive),
        old(sel)@.no_duplicates() ==> final(sel)@.no_duplicates(),
{
    if !additive {
        let mut items: Vec<SceneElement> = Vec::new();
        items.push(element);
        assert(items@ =~= seq![element]);
        *sel = SceneSelection { items };
        return;
    }
    match index_of(&sel.items, element) {
        Some(pos) => {
            let mut items = sel.items.clone();
            let ghost before = items@;
            assert(before == sel.items@);
            items.remove(pos);
            proof {
                lemma_remove_first(before, pos as int, element);
            }
            *sel = SceneSelection { items };
        },
        None => {
            let mut items = sel.items.clone();
            items.push(element);
            proof {
                if sel.items@.no_duplicates() {
                    lemma_push_fresh(sel.items@, element);
                }
            }
            *sel = SceneSelection { items };
        },
    }
}

proof fn lemma_remove_first(s: Seq<SceneElement>, pos: int, e: SceneElement)
    requires
        0 <= pos < s.len(),
        s[pos] == e,
        forall|j: int| 0 <= j < pos ==> s[j] != e,
    ensures
        s.remove(pos) == s.remove_value(e),
        s.no_duplicates() ==> s.remove(pos).no_duplicates(),
{
    s.index_of_first_ensures(e);
    assert(s.index_of_first(e) == Some(pos)) by {
        if s.index_of_first(e) is Some {
            let k = s.index_of_first(e)->Some_0;
            assert(s[k] == e);
        }
    }
    if s.no_duplicates() {
        assert forall|i: int, j: int|
            0 <= i < s.remove(pos).len() && 0 <= j < s.remove(pos).len() && i != j implies s.remove(
            pos,
        )[i] != s.remove(pos)[j] by {
            let ii = if i < pos { i } else { i + 1 };
            let jj = if j < pos { j } else { j + 1 };
            assert(s.remove(pos)[i] == s[ii]);
            assert(s.remove(pos)[j] == s[jj]);
        }
    }
}

proof fn lemma_push_fresh(s: Seq<SceneElement>, e: SceneElement)
    requires
        s.no_duplicates(),
        !s.contains(e),
    ensures
        s.push(e).no_duplicates(),
{
    assert forall|i: int, j: int|
        0 <= i < s.push(e).len() && 0 <= j < s.push(e).len() && i != j implies s.push(e)[i]
        != s.push(e)[j] by {
        if i < s.len() && j < s.len() {
        } else if i == s.len() {
            assert(s[j] == s.push(e)[j]);
        } else {
            assert(s[i] == s.push(e)[i]);
        }
    }
}


/// An additive click on an element that is not selected, followed by a second additive click
/// on it, leaves the selection as it was.
pub proof fn law_additive_click_twice_restores(sel: Seq<SceneElement>, element: SceneElement)
    requires
        !sel.contains(element),
    ensures
        spec_click(spec_click(sel, element, true), element, true) == sel,
{
    let pushed = sel.push(element);
    assert(pushed[sel.len() as int] == element);
    assert(pushed.contains(element));
    lemma_remove_first(pushed, sel.len() as int, element);
    assert(pushed.remove(sel.len() as int) =~= sel);
}

/// A plain click selects exactly the clicked element.
pub proof fn law_plain_click_selects_only(sel: Seq<SceneElement>, element: SceneElement)
    ensures
        spec_click(sel, element, false) == seq![element],
{
}

} // verus!
