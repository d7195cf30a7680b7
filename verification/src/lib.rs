//! Document model, editing rules and command logic of a parametric sketch/CAD editor.

pub mod actions;
pub mod camera;
pub mod command_log;
pub mod command_palette;
pub mod constraints;
pub mod dimension_edit;
pub mod context;
pub mod construction;
pub mod cascade;
pub mod document_health;
pub mod document_lifecycle;
pub mod editor;
pub mod editor_modes;
pub mod expression_input;
pub mod geometric_constraints;
pub mod legacy_dimensions;
pub mod names;
pub mod model;
pub mod selection;
pub mod text;
