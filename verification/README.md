# bearcad

The document model and editing rules of a parametric sketch/CAD editor, written in Verus:
every function states its behaviour in `requires`/`ensures` contracts and the proofs are
checked by the verifier.

## Layout

- `src/model.rs` – the document: sketches, rectangles, lines, circles, constraints,
  construction planes, extrusions, bodies and parameters, addressed by stable indices and
  tombstoned rather than removed.
- `src/cascade.rs`, `src/document_lifecycle.rs` – what deleting an element takes with it,
  stated as reachability in the ownership graph.
- `src/document_health.rs` – which constraints, geometry and parameters are healthy,
  unstable or invalid, and which edits are refused because of it.
- `src/constraints.rs`, `src/dimension_edit.rs`, `src/legacy_dimensions.rs` – dimension and
  constraint bookkeeping: lookup, validation, adding and editing dimensions, migrating old
  locked dimensions and keeping their lock flags in step with the constraints.
- `src/expression_input.rs` – expression fields: identifier under the cursor, parameter
  autocomplete, unknown-variable and circular-definition messages.
- `src/editor.rs`, `src/editor_modes.rs` – the editor's actions as state transitions: tools,
  sketch sessions, construction mode, selection, deletion, undo.
- `src/command_palette.rs` – fuzzy command search and the commands offered per state.
- `src/context.rs`, `src/construction.rs`, `src/selection.rs`, `src/names.rs`,
  `src/camera.rs`, `src/command_log.rs`, `src/text.rs` – context pane content, plane
  hierarchy, selection, names, view names, session timestamps and text helpers.
- `app/` – floating-point viewport helpers used around the library.

Geometry, solving and drawing work in floating point and stay outside the library; where a
library decision depends on them (whether two lines are parallel, whether an expression
evaluates), the result is passed in as a plain value.
