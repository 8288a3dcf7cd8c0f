use chopper::cli::{
    alias_name_from_file_name, bashcomp_mode, detect_builtin_action, parse_complete_args,
    parse_invocation, parse_tui_options, validate_alias_name, BuiltinAction, Launcher,
};
use chopper::env_map::StringMap;
use chopper::manifest::{BashcompConfig, Manifest, RuntimePatch};

fn argv(raw: &[&str]) -> Vec<String> {
    raw.iter().map(|s| s.to_string()).collect()
}

#[test]
fn main_supports_direct_invocation_mode() {
    let invocation = parse_invocation(&argv(&["chopper", "kpods", "--tail=100"])).expect("valid invocation");
    assert_eq!(invocation.alias, "kpods");
    assert_eq!(invocation.passthrough_args, vec!["--tail=100"]);
}

#[test]
fn main_supports_symlink_invocation_mode() {
    let invocation = parse_invocation(&argv(&["kubectl-prod", "get", "pods"])).expect("valid invocation");
    assert_eq!(invocation.alias, "kubectl-prod");
    assert_eq!(invocation.passthrough_args, vec!["get", "pods"]);
}

#[test]
fn exe_runtime_supports_direct_invocation_mode() {
    let invocation = chopper::exe_runtime::parse_invocation(&argv(&["chopper-exe", "kpods", "--tail=100"]))
        .expect("valid invocation");
    assert_eq!(invocation.alias, "kpods");
    assert_eq!(invocation.passthrough_args, vec!["--tail=100"]);
}

#[test]
fn exe_runtime_supports_symlink_invocation_mode() {
    let invocation = chopper::exe_runtime::parse_invocation(&argv(&["kubectl-prod", "get", "pods"]))
        .expect("valid invocation");
    assert_eq!(invocation.alias, "kubectl-prod");
    assert_eq!(invocation.passthrough_args, vec!["get", "pods"]);
}

#[test]
fn strips_double_dash_separator() {
    let invocation =
        parse_invocation(&argv(&["chopper", "kpods", "--", "--tail=100"])).expect("valid invocation");
    assert_eq!(invocation.passthrough_args, vec!["--tail=100"]);
}

#[test]
fn symlink_invocation_strips_leading_separator_too() {
    let invocation = parse_invocation(&argv(&["/usr/local/bin/kpods", "--", "x"])).expect("valid");
    assert_eq!(invocation.alias, "kpods");
    assert_eq!(invocation.passthrough_args, vec!["x"]);
}

#[test]
fn rejects_invalid_alias_identifiers() {
    assert!(validate_alias_name("-alias", Launcher::Chopper).is_err());
    assert!(validate_alias_name("bad alias", Launcher::Chopper).is_err());
    assert!(validate_alias_name("bad/alias", Launcher::Chopper).is_err());
}

#[test]
fn direct_invocation_requires_an_alias_and_rejects_separator() {
    assert!(parse_invocation(&argv(&["chopper"])).is_err());
    assert!(parse_invocation(&argv(&["chopper", "--"])).is_err());
}

#[test]
fn detects_common_builtins_in_direct_mode() {
    assert_eq!(detect_builtin_action(&argv(&["chopper", "--help"])), Some(BuiltinAction::Help));
    assert_eq!(detect_builtin_action(&argv(&["chopper", "--version"])), Some(BuiltinAction::Version));
    assert_eq!(
        detect_builtin_action(&argv(&["chopper", "--list-aliases"])),
        Some(BuiltinAction::ListAliases)
    );
}

#[test]
fn does_not_detect_builtins_in_symlink_mode() {
    assert_eq!(detect_builtin_action(&argv(&["myalias", "--help"])), None);
    assert_eq!(detect_builtin_action(&argv(&["myalias", "--version"])), None);
}

#[test]
fn detects_tui_and_complete_actions() {
    assert_eq!(
        detect_builtin_action(&argv(&["chopper", "--tui"])),
        Some(BuiltinAction::Tui(Vec::new()))
    );
    assert_eq!(
        detect_builtin_action(&argv(&["chopper", "--complete", "kpods", "1", "--", "kpods"])),
        Some(BuiltinAction::Complete(argv(&["kpods", "1", "--", "kpods"])))
    );
}

#[test]
fn detects_alias_and_print_actions() {
    assert_eq!(detect_builtin_action(&argv(&["chopper"])), Some(BuiltinAction::Help));
    assert_eq!(
        detect_builtin_action(&argv(&["chopper", "--print-exec", "kpods"])),
        Some(BuiltinAction::PrintExec("kpods".to_string()))
    );
    assert_eq!(
        detect_builtin_action(&argv(&["chopper", "--alias", "list"])),
        Some(BuiltinAction::Alias(argv(&["list"])))
    );
    assert_eq!(detect_builtin_action(&argv(&["chopper", "kpods"])), None);
}

#[test]
fn parse_tui_options_rejects_all_flags() {
    assert!(parse_tui_options(&[]).is_ok());
    let err = parse_tui_options(&argv(&["--tmux=off"])).expect_err("tmux flags removed");
    assert!(err.message().contains("no options"), "{}", err.message());
}

#[test]
fn complete_arguments_skip_optional_separator() {
    let req = parse_complete_args(&argv(&["kpods", "1", "--", "kpods", "lo"])).expect("valid");
    assert_eq!(req.alias, "kpods");
    assert_eq!(req.cword, 1);
    assert_eq!(req.words, vec!["kpods", "lo"]);
    assert!(parse_complete_args(&argv(&["kpods"])).is_err());
    let err = parse_complete_args(&argv(&["kpods", "x"])).expect_err("bad cword");
    assert_eq!(err.message(), "invalid cword: x");
}

#[test]
fn bashcomp_mode_prefers_disabled_then_custom_then_rhai() {
    assert_eq!(bashcomp_mode(&None), "normal");
    let mut bc = BashcompConfig {
        disabled: true,
        passthrough: true,
        script: Some("c.bash".to_string()),
        rhai_script: Some("c.rhai".to_string()),
        rhai_function: None,
    };
    assert_eq!(bashcomp_mode(&Some(bc.clone())), "disabled");
    bc.disabled = false;
    assert_eq!(bashcomp_mode(&Some(bc.clone())), "custom");
    bc.script = None;
    assert_eq!(bashcomp_mode(&Some(bc.clone())), "rhai");
    bc.rhai_script = None;
    assert_eq!(bashcomp_mode(&Some(bc.clone())), "passthrough");
    bc.passthrough = false;
    assert_eq!(bashcomp_mode(&Some(bc)), "normal");
}

#[test]
fn alias_names_come_from_toml_file_names() {
    assert_eq!(alias_name_from_file_name("kpods.toml"), Some("kpods".to_string()));
    assert_eq!(alias_name_from_file_name("kpods"), None);
}

fn env_of(pairs: &[(&str, &str)]) -> StringMap {
    let mut m = StringMap::new();
    for (k, v) in pairs {
        m.insert(k.to_string(), v.to_string());
    }
    m
}

#[test]
fn invocation_merges_runtime_and_patch() {
    let mut manifest = Manifest::simple("echo".to_string());
    manifest.args = vec!["base".into()];
    manifest.env.insert("A".into(), "1".into());
    manifest.env_remove = vec!["OLD".into()];

    let patch = RuntimePatch {
        append_args: vec!["patch".into()],
        set_env: env_of(&[("B", "2")]),
        remove_env: vec!["REMOVE".into()],
        ..RuntimePatch::default()
    };

    let invocation = manifest.build_invocation(&argv(&["runtime"]), Some(patch));

    assert_eq!(invocation.args, vec!["base", "runtime", "patch"]);
    assert_eq!(invocation.env.get("A"), Some(&"1".to_string()));
    assert_eq!(invocation.env.get("B"), Some(&"2".to_string()));
    assert_eq!(invocation.env_remove, vec!["OLD", "REMOVE"]);
}

#[test]
fn replace_args_overrides_composed_args() {
    let mut manifest = Manifest::simple("echo".to_string());
    manifest.args = vec!["base".into()];

    let patch = RuntimePatch {
        replace_args: Some(vec!["replaced".into()]),
        append_args: vec!["extra".into()],
        ..RuntimePatch::default()
    };

    let invocation = manifest.build_invocation(&argv(&["runtime"]), Some(patch));
    assert_eq!(invocation.args, vec!["replaced", "extra"]);
}

#[test]
fn patch_set_env_overrides_alias_env_remove() {
    let mut manifest = Manifest::simple("echo".to_string());
    manifest.env_remove = vec!["PROMOTE".into(), "KEEP_REMOVED".into()];

    let patch = RuntimePatch {
        set_env: env_of(&[("PROMOTE", "patched")]),
        remove_env: vec!["PATCH_REMOVED".into()],
        ..RuntimePatch::default()
    };

    let invocation = manifest.build_invocation(&Vec::new(), Some(patch));
    assert_eq!(invocation.env.get("PROMOTE"), Some(&"patched".to_string()));
    assert_eq!(invocation.env_remove, vec!["KEEP_REMOVED", "PATCH_REMOVED"]);
}

#[test]
fn patch_remove_env_still_wins_over_patch_set_env() {
    let manifest = Manifest::simple("echo".to_string());
    let patch = RuntimePatch {
        set_env: env_of(&[("CLASH", "patched")]),
        remove_env: vec!["CLASH".into()],
        ..RuntimePatch::default()
    };

    let invocation = manifest.build_invocation(&Vec::new(), Some(patch));
    assert!(!invocation.env.contains_key("CLASH"));
    assert_eq!(invocation.env_remove, vec!["CLASH"]);
}

#[test]
fn env_remove_is_deduplicated_and_applied_to_env_map() {
    let mut manifest = Manifest::simple("echo".to_string());
    manifest.env = env_of(&[("A", "1"), ("B", "2")]);
    manifest.env_remove = vec!["A".into(), "A".into()];

    let patch = RuntimePatch {
        remove_env: vec!["B".into(), "B".into()],
        ..RuntimePatch::default()
    };

    let invocation = manifest.build_invocation(&Vec::new(), Some(patch));
    assert_eq!(invocation.env_remove, vec!["A", "B"]);
    assert!(!invocation.env.contains_key("A"));
    assert!(!invocation.env.contains_key("B"));
}

#[test]
fn invocation_without_patch_keeps_manifest_and_runtime() {
    let manifest = Manifest::simple("echo".to_string()).with_args(argv(&["a"]));
    let invocation = manifest.build_invocation(&argv(&["b"]), None);
    assert_eq!(invocation.executable, "echo");
    assert_eq!(invocation.args, vec!["a", "b"]);
    assert!(invocation.env.is_empty());
    assert!(invocation.env_remove.is_empty());
}

#[test]
fn direct_invocation_rejects_separator_as_alias_name() {
    let err = match parse_invocation(&argv(&["chopper", "--", "runtime"])) {
        Ok(_) => panic!("command unexpectedly succeeded"),
        Err(err) => err,
    };
    let stderr = err.message();
    assert!(stderr.contains("alias name cannot be `--`"), "{stderr}");
}
