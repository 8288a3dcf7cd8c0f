use chopper::rhai_wiring::{
    method_template, normalize_method_name, parse_compatible_methods, parse_method_decl_line,
    rename_method_or_create_source, sync_method_after_edit, RhaiMethodKind,
};
use chopper::tui_nvim::{build_completion_dictionary, build_nvim_bootstrap, method_search_command};
use chopper::tui_state::{
    alias_viewport_rows, content_height, cycle_surface, ensure_selection_visible, handle_key_event,
    inspector_alias_line, layout_for_size, modal_header_lines, set_active_surface, split_left_width,
    surface_available, surface_tabs_text, truncate_line,
    AliasArtifacts, AppState, ControlSurface, KeyCode, KeyEvent, KeyEventKind, LayoutKind,
    LoopAction, PaneFocus,
};

fn sample_state(layout: LayoutKind) -> AppState {
    AppState {
        aliases: (0..10).map(|idx| format!("alias-{idx}")).collect(),
        selected: 0,
        scroll: 0,
        focus: PaneFocus::List,
        layout,
        active_surface: ControlSurface::Summary,
        artifacts: AliasArtifacts::default(),
        alert_message: None,
    }
}

fn press(code: KeyCode) -> KeyEvent {
    KeyEvent { code, kind: KeyEventKind::Press }
}

#[test]
fn layout_prefers_split_on_large_terminals() {
    assert_eq!(layout_for_size(120, 30), LayoutKind::Split);
}

#[test]
fn layout_falls_back_to_modal_on_small_terminals() {
    assert_eq!(layout_for_size(90, 30), LayoutKind::Modal);
    assert_eq!(layout_for_size(120, 20), LayoutKind::Modal);
}

#[test]
fn content_height_accounts_for_optional_alert_row() {
    assert_eq!(content_height(30, false), 29);
    assert_eq!(content_height(30, true), 28);
}

#[test]
fn split_left_width_is_bounded_for_pathological_terminal_sizes() {
    assert_eq!(split_left_width(120), 40);
    assert_eq!(split_left_width(600), 60);
    assert_eq!(split_left_width(u16::MAX), 60);
}

#[test]
fn modal_alias_rows_reserve_header_and_tabs_rows() {
    assert_eq!(alias_viewport_rows(LayoutKind::Modal, 10), 7);
    assert_eq!(alias_viewport_rows(LayoutKind::Modal, 3), 0);
    assert_eq!(alias_viewport_rows(LayoutKind::Split, 10), 10);
}

#[test]
fn ensure_selection_visible_uses_modal_alias_row_budget() {
    let mut state = sample_state(LayoutKind::Modal);
    state.selected = 9;
    state.aliases = (0..20).map(|idx| format!("alias-{idx}")).collect();
    state.selected = 19;
    let alias_rows = alias_viewport_rows(LayoutKind::Modal, 5);
    ensure_selection_visible(&mut state, alias_rows);
    assert_eq!(alias_rows, 2);
    assert_eq!(state.scroll, 18);
}

#[test]
fn selection_visibility_is_stable_once_reached() {
    let mut state = sample_state(LayoutKind::Split);
    state.selected = 7;
    ensure_selection_visible(&mut state, 3);
    assert_eq!(state.scroll, 5);
    ensure_selection_visible(&mut state, 3);
    assert_eq!(state.scroll, 5);
    state.selected = 2;
    ensure_selection_visible(&mut state, 3);
    assert_eq!(state.scroll, 2);
}

#[test]
fn control_surfaces_respect_available_artifacts() {
    let artifacts = AliasArtifacts::default();
    assert!(surface_available(&artifacts, ControlSurface::Summary));
    assert!(!surface_available(&artifacts, ControlSurface::Toml));
    assert!(!surface_available(&artifacts, ControlSurface::Legacy));
    assert!(!surface_available(&artifacts, ControlSurface::Reconcile));
}

#[test]
fn release_key_events_are_ignored() {
    let mut state = sample_state(LayoutKind::Split);
    let key = KeyEvent { code: KeyCode::Char('q'), kind: KeyEventKind::Release };
    let action = handle_key_event(&mut state, key, 10);
    assert_eq!(action, LoopAction::Continue);
}

#[test]
fn right_focus_only_changes_in_split_layout() {
    let mut split = sample_state(LayoutKind::Split);
    let mut modal = sample_state(LayoutKind::Modal);

    let split_action = handle_key_event(&mut split, press(KeyCode::Right), 10);
    assert_eq!(split_action, LoopAction::Continue);
    assert_eq!(split.focus, PaneFocus::Inspector);

    let modal_action = handle_key_event(&mut modal, press(KeyCode::Right), 10);
    assert_eq!(modal_action, LoopAction::Continue);
    assert_eq!(modal.active_surface, ControlSurface::Summary);
}

#[test]
fn quit_and_navigation_keys() {
    let mut state = sample_state(LayoutKind::Split);
    assert_eq!(handle_key_event(&mut state, press(KeyCode::Down), 10), LoopAction::Continue);
    assert_eq!(state.selected, 1);
    assert_eq!(handle_key_event(&mut state, press(KeyCode::End), 10), LoopAction::Continue);
    assert_eq!(state.selected, 9);
    assert_eq!(handle_key_event(&mut state, press(KeyCode::Home), 10), LoopAction::Continue);
    assert_eq!(state.selected, 0);
    assert_eq!(handle_key_event(&mut state, press(KeyCode::Char('q')), 10), LoopAction::Quit);
}

#[test]
fn selecting_unavailable_surface_sets_temporary_alert() {
    let mut state = sample_state(LayoutKind::Split);
    set_active_surface(&mut state, ControlSurface::Reconcile);
    assert_eq!(state.active_surface, ControlSurface::Summary);
    assert!(state.alert_message.as_deref().unwrap_or_default().contains("unavailable"));
}

#[test]
fn surface_cycle_keeps_summary_when_no_other_surfaces_exist() {
    let mut state = sample_state(LayoutKind::Split);
    cycle_surface(&mut state, true);
    assert_eq!(state.active_surface, ControlSurface::Summary);
}

#[test]
fn surface_cycle_reaches_available_surface() {
    let mut state = sample_state(LayoutKind::Split);
    state.artifacts.reconcile_script_path = Some("/cfg/a.rhai".to_string());
    cycle_surface(&mut state, true);
    assert_eq!(state.active_surface, ControlSurface::Reconcile);
    cycle_surface(&mut state, true);
    assert_eq!(state.active_surface, ControlSurface::Summary);
}

#[test]
fn truncation_keeps_short_lines() {
    assert_eq!(truncate_line("hello", 10), "hello");
    assert_eq!(truncate_line("hello", 0), "");
}

#[test]
fn dictionary_builder_deduplicates_and_sorts() {
    let dict = build_completion_dictionary(&["web_fetch", "fs_list", "web_fetch", ""]);
    assert_eq!(dict, "fs_list\nweb_fetch\n");
}

#[test]
fn nvim_bootstrap_contains_dictionary_and_treesitter_block() {
    let bootstrap = build_nvim_bootstrap("/tmp/rhai.dict");
    assert!(bootstrap.contains("/tmp/rhai.dict"));
    assert!(bootstrap.contains("nvim-treesitter"));
}

#[test]
fn method_search_targets_ctx_signature() {
    assert_eq!(method_search_command(" reconcile "), "/^\\s*fn\\s\\+reconcile\\s*(\\s*ctx\\s*)");
}

#[test]
fn method_parser_only_keeps_ctx_signature() {
    let methods = parse_compatible_methods(
        "fn reconcile(ctx) {}\nfn complete(other) {}\nfn x(ctx, y) {}\nfn done(ctx) {}\n",
    );
    assert_eq!(methods, vec!["done".to_string(), "reconcile".to_string()]);
}

#[test]
fn method_declaration_line_parsing() {
    assert_eq!(parse_method_decl_line("  fn go ( ctx ) {"), Some("go".to_string()));
    assert_eq!(parse_method_decl_line("fn go(x) {"), None);
}

#[test]
fn sync_method_detects_single_rename() {
    let before = vec!["old_name".to_string()];
    let after = vec!["new_name".to_string()];
    let synced = sync_method_after_edit(&before, &after, Some("old_name"));
    assert_eq!(synced.as_deref(), Some("new_name"));
}

#[test]
fn normalize_method_rejects_invalid_identifiers() {
    assert!(normalize_method_name(" valid_name ").is_ok());
    assert!(normalize_method_name("1bad").is_err());
    assert!(normalize_method_name("").is_err());
}

#[test]
fn rename_or_create_renames_existing_method_when_unambiguous() {
    let updated = rename_method_or_create_source(
        Some("fn old_name(ctx) {\n    #{}\n}\n"),
        Some("old_name"),
        "new_name",
        RhaiMethodKind::Reconcile,
    )
    .expect("valid name")
    .expect("source changed");
    assert!(updated.contains("fn new_name(ctx)"));
    assert!(!updated.contains("fn old_name(ctx)"));
}

#[test]
fn missing_script_gets_method_template() {
    let created = rename_method_or_create_source(None, None, "complete", RhaiMethodKind::Bashcomp)
        .expect("valid name")
        .expect("template");
    assert_eq!(created, method_template("complete", RhaiMethodKind::Bashcomp));
    assert!(created.contains("fn complete(ctx)"));
}

#[test]
fn truncation_marks_cut_lines_with_ellipsis() {
    assert_eq!(truncate_line("hello world", 6), "hello…");
    assert_eq!(truncate_line("hello", 1), "");
}

#[test]
fn modal_header_shows_selection_tabs_and_key_hint() {
    let mut state = sample_state(LayoutKind::Modal);
    state.artifacts.selected_alias = Some("alias-0".to_string());
    state.active_surface = ControlSurface::Toml;
    assert_eq!(
        modal_header_lines(&state, 80),
        vec![
            "selected: alias-0".to_string(),
            " summary  [toml]  legacy   reconcile  ".to_string(),
            "[Enter] open toml surface  [Tab] switch surfaces".to_string(),
        ]
    );
    assert_eq!(modal_header_lines(&state, 12)[0], "selected: a…");
    assert_eq!(inspector_alias_line(&state, 80), "alias: alias-0");
    state.artifacts.selected_alias = None;
    assert_eq!(inspector_alias_line(&state, 80), "alias: <none>");
    assert_eq!(surface_tabs_text(ControlSurface::Summary), "[summary]  toml   legacy   reconcile  ");
    state.aliases.clear();
    assert_eq!(modal_header_lines(&state, 80), vec!["No aliases configured.".to_string()]);
}
