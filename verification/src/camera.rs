//! Named views and projection modes of the viewport camera.

use vstd::prelude::*;
use crate::text::{lower_eq, lower_seq};

verus! {

/// Named orthographic-style views for the Z-up ground plane.
#[derive(Clone, Copy, Debug, PartialEq, Eq, Structural)]
pub enum StandardView {
    Front,
    Back,
    Left,
    Right,
    Top,
    Bottom,
}

/// The view a (lower-cased) name selects.
pub open spec fn standard_view_named(s: Seq<char>) -> Option<StandardView> {
    if s == "front"@ || s == "f"@ {
        Some(StandardView::Front)
    } else if s == "back"@ || s == "b"@ {
        Some(StandardView::Back)
    } else if s == "left"@ || s == "l"@ {
        Some(StandardView::Left)
    } else if s == "right"@ || s == "r"@ {
        Some(StandardView::Right)
    } else if s == "top"@ || s == "t"@ {
        Some(StandardView::Top)
    } else if s == "bottom"@ || s == "bot"@ {
        Some(StandardView::Bottom)
    } else {
        None
    }
}

impl StandardView {
    pub fn from_name(name: &str) -> (r: Option<Self>)
        ensures
            r == standard_view_named(lower_seq(name@)),
    {
        if lower_eq(name, "front") || lower_eq(name, "f") {
            Some(Self::Front)
        } else if lower_eq(name, "back") || lower_eq(name, "b") {
            Some(Self::Back)
        } else if lower_eq(name, "left") || lower_eq(name, "l") {
            Some(Self::Left)
        } else if lower_eq(name, "right") || lower_eq(name, "r") {
            Some(Self::Right)
        } else if lower_eq(name, "top") || lower_eq(name, "t") {
            Some(Self::Top)
        } else if lower_eq(name, "bottom") || lower_eq(name, "bot") {
            Some(Self::Bottom)
        } else {
            None
        }
    }
}

} // verus!

verus! {

/// Viewport projection: parallel (orthographic) or perspective (natural).
#[derive(Clone, Copy, Debug, PartialEq, Eq, Structural)]
pub enum ProjectionMode {
    Orthographic,
    Natural,
}

pub open spec fn projection_mode_named(s: Seq<char>) -> Option<ProjectionMode> {
    if s == "orthographic"@ || s == "ortho"@ {
        Some(ProjectionMode::Orthographic)
    } else if s == "natural"@ || s == "perspective"@ || s == "persp"@ {
        Some(ProjectionMode::Natural)
    } else {
        None
    }
}

pub open spec fn spec_opposite(mode: ProjectionMode) -> ProjectionMode {
    match mode {
        ProjectionMode::Orthographic => ProjectionMode::Natural,
        ProjectionMode::Natural => ProjectionMode::Orthographic,
    }
}

impl ProjectionMode {
    pub fn from_name(name: &str) -> (r: Option<Self>)
        ensures
            r == projection_mode_named(lower_seq(name@)),
    {
        if lower_eq(name, "orthographic") || lower_eq(name, "ortho") {
            Some(Self::Orthographic)
        } else if lower_eq(name, "natural") || lower_eq(name, "perspective") || lower_eq(
            name,
            "persp",
        ) {
            Some(Self::Natural)
        } else {
            None
        }
    }

    /// The other projection.
    pub fn opposite(self) -> (r: Self)
        ensures
            r == spec_opposite(self),
            r != self,
    {
        match self {
            Self::Orthographic => Self::Natural,
            Self::Natural => Self::Orthographic,
        }
    }
}

/// Toggling the projection twice restores it.
pub proof fn law_opposite_involution(mode: ProjectionMode)
    ensures
        spec_opposite(spec_opposite(mode)) == mode,
        spec_opposite(mode) != mode,
{
}

} // verus!
