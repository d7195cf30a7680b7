use bearcad::actions::{CommandPaletteState, Pane, RectDraft, SketchSession};
use bearcad::camera::StandardView;
use bearcad::command_palette::{
    best_match, commands_for_state, filter_commands, fuzzy_score, palette_step, PaletteAction,
    PaletteCommand, PaletteCommandId, PaletteKeys, PaletteOutcome,
};
use bearcad::editor::EditorState;

#[test]
fn fuzzy_score_matches_subsequence() {
    assert!(fuzzy_score("nd", "New Document").is_some());
    assert!(fuzzy_score("rect", "Rectangle Tool").is_some());
    assert!(fuzzy_score("v fr", "View Front").is_some());
}

#[test]
fn fuzzy_score_rejects_non_matches() {
    assert!(fuzzy_score("xyz", "New Document").is_none());
}

#[test]
fn fuzzy_score_empty_query_matches_all() {
    assert_eq!(fuzzy_score("", "Anything"), Some(0));
}

#[test]
fn filter_commands_ranks_better_matches_first() {
    let cmds = commands_for_state(&EditorState::default());
    let filtered = filter_commands("new", &cmds);
    assert!(!filtered.is_empty());
    assert_eq!(filtered[0].0.id, PaletteCommandId::NewDocument);
}

#[test]
fn exit_sketch_only_when_editing_sketch() {
    let mut state = EditorState::default();
    assert!(!commands_for_state(&state)
        .iter()
        .any(|c| c.id == PaletteCommandId::ExitSketch));
    state.sketch_session = Some(SketchSession { sketch: 0 });
    assert!(commands_for_state(&state)
        .iter()
        .any(|c| c.id == PaletteCommandId::ExitSketch));
}

#[test]
fn pane_commands_reflect_visibility() {
    let mut state = EditorState::default();
    state.panes.set(Pane::Parameters, false);
    let cmds = commands_for_state(&state);
    assert!(cmds
        .iter()
        .any(|c| c.id == PaletteCommandId::ShowPaneParameters));
    assert!(!cmds
        .iter()
        .any(|c| c.id == PaletteCommandId::HidePaneParameters));
}

#[test]
fn best_match_finds_tool_by_alias() {
    let cmds = commands_for_state(&EditorState::default());
    let cmd = best_match("rect", &cmds).unwrap();
    assert_eq!(cmd.id, PaletteCommandId::ToolRectangle);
}

#[test]
fn commands_follow_drawings_in_progress() {
    let mut state = EditorState::default();
    let base = commands_for_state(&state);
    assert_eq!(base.len(), 25);
    assert_eq!(base[0].label, "New Document");
    assert_eq!(base[1].label, "Open\u{2026}");
    assert_eq!(base[21].id, PaletteCommandId::HidePaneHierarchy);
    state.creating_rect = Some(RectDraft::new(false));
    state.creating_plane = true;
    let ids: Vec<PaletteCommandId> = commands_for_state(&state).iter().map(|c| c.id).collect();
    assert_eq!(ids[21], PaletteCommandId::CommitRectangle);
    assert_eq!(ids[22], PaletteCommandId::CommitPlane);
    assert_eq!(ids.len(), 27);
}

#[test]
fn palette_command_maps_to_action() {
    let cmd = PaletteCommand::new(PaletteCommandId::ViewTop, "View Top", "view top");
    assert_eq!(
        cmd.outcome(),
        PaletteOutcome::Action(PaletteAction::SetStandardView(StandardView::Top))
    );
}

#[test]
fn offered_pane_commands_flip_visibility() {
    let mut state = EditorState::default();
    state.panes.set(Pane::Context, false);
    for cmd in commands_for_state(&state) {
        if let PaletteOutcome::Action(PaletteAction::SetPaneVisible { pane, visible }) = cmd.outcome() {
            assert_eq!(visible, !state.panes.is_visible(pane));
        }
    }
    let open = PaletteCommand::new(PaletteCommandId::Open, "Open", "open");
    assert_eq!(open.outcome(), PaletteOutcome::OpenFile);
}

fn no_keys() -> PaletteKeys {
    PaletteKeys {
        enter: false,
        escape: false,
        up: false,
        down: false,
    }
}

#[test]
fn palette_keys_move_choose_and_close() {
    let cmds = commands_for_state(&EditorState::default());
    let matches = filter_commands("view", &cmds);
    assert!(matches.len() > 2);
    let mut state = CommandPaletteState::default();
    state.open_palette();
    state.query = "view".to_string();
    state.selected = 5;
    let down = PaletteKeys { down: true, ..no_keys() };
    assert_eq!(palette_step(&mut state, &matches, down, None), None);
    assert_eq!(state.selected, 1);
    assert_eq!(state.prior_query, "view");
    let up = PaletteKeys { up: true, ..no_keys() };
    palette_step(&mut state, &matches, up, None);
    palette_step(&mut state, &matches, up, None);
    assert_eq!(state.selected, 0);
    let enter = PaletteKeys { enter: true, ..no_keys() };
    assert_eq!(
        palette_step(&mut state, &matches, enter, Some(1)),
        Some(matches[1].0.outcome())
    );
    assert_eq!(state.selected, 1);
    let escape = PaletteKeys { escape: true, ..no_keys() };
    assert_eq!(palette_step(&mut state, &matches, escape, None), None);
    assert!(!state.open);
    assert_eq!(state.query, "");
    assert_eq!(palette_step(&mut state, &[], enter, None), None);
    assert_eq!(state.selected, 0);
}

#[test]
fn tied_matches_keep_list_order() {
    let first = PaletteCommand::new(PaletteCommandId::Save, "Save", "save");
    let second = PaletteCommand::new(PaletteCommandId::SaveAs, "Save", "save");
    let cmds = vec![first, second];
    let ranked = filter_commands("sav", &cmds);
    assert_eq!(ranked.len(), 2);
    assert_eq!(ranked[0].0.id, PaletteCommandId::Save);
    assert_eq!(ranked[1].0.id, PaletteCommandId::SaveAs);
    assert_eq!(best_match("sav", &cmds).map(|c| c.id), Some(PaletteCommandId::Save));
    let reversed = vec![second, first];
    assert_eq!(best_match("sav", &reversed).map(|c| c.id), Some(PaletteCommandId::SaveAs));
}
