use bearcad::expression_input::{
    apply_parameter_completion, autocomplete_key_step, dependency_cycle,
    expression_autocomplete_handle_keys, expression_variables, identifier_token_at_cursor,
    length_expression_field_errors, parameter_autocomplete_candidates, AutocompleteKeys,
    AutocompleteUiState, CompletionKey, ParameterExpressionContext,
};
use bearcad::model::{Document, Parameter};

fn add_parameter(doc: &mut Document, name: &str, expression: &str) {
    doc.parameters.push(Parameter {
        name: name.to_string(),
        expression: expression.to_string(),
        deleted: false,
        source: None,
    });
}

#[test]
fn length_expression_field_errors_reports_unknown_variable() {
    let mut doc = Document::default();
    add_parameter(&mut doc, "A", "10mm");
    let errors = length_expression_field_errors("A + B", &doc, None);
    assert_eq!(errors, vec!["Unknown variable: B".to_string()]);
}

#[test]
fn length_expression_field_errors_reports_cycle_for_parameter_context() {
    let mut doc = Document::default();
    add_parameter(&mut doc, "A", "5mm");
    add_parameter(&mut doc, "B", "A");
    let errors = length_expression_field_errors(
        "B",
        &doc,
        Some(&ParameterExpressionContext {
            param_name: "A".to_string(),
            existing_index: Some(0),
        }),
    );
    assert_eq!(errors, vec!["Circular dependency: A → B → A".to_string()]);
}

#[test]
fn length_expression_field_errors_reports_unknown_before_cycle() {
    let mut doc = Document::default();
    add_parameter(&mut doc, "A", "5mm");
    let errors = length_expression_field_errors(
        "Missing + B",
        &doc,
        Some(&ParameterExpressionContext {
            param_name: "A".to_string(),
            existing_index: Some(0),
        }),
    );
    assert_eq!(
        errors,
        vec![
            "Unknown variable: Missing".to_string(),
            "Unknown variable: B".to_string(),
        ]
    );
}

#[test]
fn identifier_token_at_cursor_finds_partial_name() {
    let text = "10mm + wid";
    let end = text.chars().count();
    assert_eq!(identifier_token_at_cursor(text, end), Some((7, 10)));
}

#[test]
fn identifier_token_at_cursor_ignores_unit_suffix() {
    let text = "10mm";
    assert_eq!(identifier_token_at_cursor(text, 4), None);
}

#[test]
fn parameter_autocomplete_candidates_fuzzy_matches() {
    let mut doc = Document::default();
    add_parameter(&mut doc, "width", "10mm");
    add_parameter(&mut doc, "height", "5mm");
    let matches = parameter_autocomplete_candidates(&doc, "wid", &[]);
    assert_eq!(matches.first().map(|m| m.name.as_str()), Some("width"));
}

#[test]
fn parameter_autocomplete_candidates_exclude_names() {
    let mut doc = Document::default();
    add_parameter(&mut doc, "width", "10mm");
    let matches = parameter_autocomplete_candidates(&doc, "wid", &["width"]);
    assert!(matches.is_empty());
}

#[test]
fn autocomplete_is_empty_for_empty_query_and_skips_deleted() {
    let mut doc = Document::default();
    add_parameter(&mut doc, "width", "10mm");
    assert!(parameter_autocomplete_candidates(&doc, "", &[]).is_empty());
    doc.parameters[0].deleted = true;
    assert!(parameter_autocomplete_candidates(&doc, "w", &[]).is_empty());
}

#[test]
fn autocomplete_keeps_at_most_eight_best_first() {
    let mut doc = Document::default();
    for i in 0..12 {
        add_parameter(&mut doc, &format!("p{i:02}"), "1mm");
    }
    let matches = parameter_autocomplete_candidates(&doc, "p", &[]);
    assert_eq!(matches.len(), 8);
    for pair in matches.windows(2) {
        assert!(pair[0].score > pair[1].score
            || (pair[0].score == pair[1].score && pair[0].name <= pair[1].name));
    }
    assert_eq!(matches[0].value, "1mm");
}

#[test]
fn identifier_token_edges() {
    assert_eq!(identifier_token_at_cursor("", 0), None);
    assert_eq!(identifier_token_at_cursor("width", 0), Some((0, 5)));
    assert_eq!(identifier_token_at_cursor("width", 99), Some((0, 5)));
    assert_eq!(identifier_token_at_cursor("2 * _w1 ", 5), Some((4, 7)));
    assert_eq!(identifier_token_at_cursor("10 mm", 5), None);
    assert_eq!(identifier_token_at_cursor("1.5in", 5), None);
    assert_eq!(identifier_token_at_cursor("a + ", 4), None);
}

#[test]
fn expression_variables_skip_numbers_and_units() {
    let names = expression_variables("2 * width + 10 mm - h_1 / 3in");
    assert_eq!(names, vec!["width".to_string(), "h_1".to_string()]);
}

#[test]
fn unknown_variables_are_reported_once() {
    let doc = Document::default();
    let errors = length_expression_field_errors("x + x * y", &doc, None);
    assert_eq!(
        errors,
        vec![
            "Unknown variable: x".to_string(),
            "Unknown variable: y".to_string(),
        ]
    );
}

#[test]
fn blank_expression_has_no_errors() {
    let doc = Document::default();
    assert!(length_expression_field_errors("   ", &doc, None).is_empty());
}

#[test]
fn self_reference_is_a_cycle() {
    let mut doc = Document::default();
    add_parameter(&mut doc, "A", "5mm");
    let ctx = ParameterExpressionContext {
        param_name: "A".to_string(),
        existing_index: Some(0),
    };
    let errors = length_expression_field_errors("A * 2", &doc, Some(&ctx));
    assert_eq!(errors, vec!["Circular dependency: A → A".to_string()]);
    let path = dependency_cycle(&doc, &ctx, &"A * 2".to_string()).unwrap();
    assert_eq!(path, vec![1, 1]);
}

#[test]
fn deleted_parameters_are_unknown_and_break_cycles() {
    let mut doc = Document::default();
    add_parameter(&mut doc, "A", "5mm");
    add_parameter(&mut doc, "B", "A");
    doc.parameters[1].deleted = true;
    let ctx = ParameterExpressionContext {
        param_name: "A".to_string(),
        existing_index: Some(0),
    };
    let errors = length_expression_field_errors("B", &doc, Some(&ctx));
    assert_eq!(errors, vec!["Unknown variable: B".to_string()]);
}

#[test]
fn longer_cycle_is_reported_along_its_path() {
    let mut doc = Document::default();
    add_parameter(&mut doc, "A", "1mm");
    add_parameter(&mut doc, "B", "C + 1mm");
    add_parameter(&mut doc, "C", "2 * A");
    let ctx = ParameterExpressionContext {
        param_name: "A".to_string(),
        existing_index: Some(0),
    };
    let errors = length_expression_field_errors("B", &doc, Some(&ctx));
    assert_eq!(errors, vec!["Circular dependency: A → B → C → A".to_string()]);
}

#[test]
fn apply_parameter_completion_replaces_partial_token() {
    let mut text = "10mm + wid".to_string();
    let token = identifier_token_at_cursor(&text, text.chars().count()).unwrap();
    apply_parameter_completion(&mut text, token, "width");
    assert_eq!(text, "10mm + width");
}

#[test]
fn completion_keeps_text_after_the_token_and_reports_the_cursor() {
    let mut text = "wi + 2".to_string();
    let token = identifier_token_at_cursor(&text, 1).unwrap();
    assert_eq!(token, (0, 2));
    let cursor = apply_parameter_completion(&mut text, token, "width");
    assert_eq!(text, "width + 2");
    assert_eq!(cursor, 5);
}

fn keys() -> AutocompleteKeys {
    AutocompleteKeys {
        up: false,
        down: false,
        space: false,
        tab: false,
        enter: false,
    }
}

#[test]
fn key_step_moves_and_clamps_the_highlight() {
    let mut state = AutocompleteUiState::default();
    let down = AutocompleteKeys { down: true, ..keys() };
    assert_eq!(
        autocomplete_key_step(&mut state, "w", 2, down),
        (None, Some(CompletionKey::ArrowDown))
    );
    assert_eq!(state.highlight, 1);
    assert_eq!(state.last_query, "w");
    autocomplete_key_step(&mut state, "w", 2, down);
    assert_eq!(state.highlight, 1);
    let up = AutocompleteKeys { up: true, ..keys() };
    assert_eq!(
        autocomplete_key_step(&mut state, "w", 2, up),
        (None, Some(CompletionKey::ArrowUp))
    );
    assert_eq!(state.highlight, 0);
    autocomplete_key_step(&mut state, "w", 2, up);
    assert_eq!(state.highlight, 0);
    state.highlight = 1;
    let enter = AutocompleteKeys { enter: true, ..keys() };
    assert_eq!(autocomplete_key_step(&mut state, "wi", 2, enter), (Some(0), None));
    let tab = AutocompleteKeys { tab: true, ..keys() };
    state.highlight = 5;
    assert_eq!(
        autocomplete_key_step(&mut state, "wi", 3, tab),
        (Some(2), Some(CompletionKey::Tab))
    );
}

#[test]
fn handle_keys_completes_the_identifier_under_the_cursor() {
    let mut doc = Document::default();
    add_parameter(&mut doc, "width", "10mm");
    add_parameter(&mut doc, "height", "5mm");
    let mut text = "2 * wid".to_string();
    let mut state = AutocompleteUiState::default();
    let none = expression_autocomplete_handle_keys(&doc, &mut text, 7, &[], &mut state, keys());
    assert!(!none.changed);
    assert_eq!(text, "2 * wid");
    let space = AutocompleteKeys { space: true, ..keys() };
    let done = expression_autocomplete_handle_keys(&doc, &mut text, 7, &[], &mut state, space);
    assert!(done.changed);
    assert_eq!(done.consume, Some(CompletionKey::Space));
    assert_eq!(done.cursor, Some(9));
    assert_eq!(text, "2 * width");
    let mut unit = "10mm".to_string();
    let after_number = expression_autocomplete_handle_keys(&doc, &mut unit, 4, &[], &mut state, space);
    assert!(!after_number.changed);
    assert_eq!(after_number.consume, None);
    assert_eq!(unit, "10mm");
}
