use chopper::alias_admin::{
    add_config_path, build_journal_from_mutation, parse_mutation_args, plan_alias_transfer, AliasMutationMode,
    AliasTransfer, PathField, PathFieldReplacement,
};
use chopper::alias_admin_validation::{parse_bool_flag, parse_env_assignment};
use chopper::alias_doc::{AliasBashcompDoc, AliasDoc, AliasJournalDoc, AliasReconcileDoc};
use chopper::env_map::StringMap;

fn strings(values: &[&str]) -> Vec<String> {
    values.iter().map(|v| v.to_string()).collect()
}

#[test]
fn parses_add_mutation_flags() {
    let mutation = parse_mutation_args(
        &strings(&[
            "--exec",
            "echo",
            "--arg",
            "hello",
            "--env",
            "A=1",
            "--env-remove",
            "OLD",
            "--path-remove-all",
            "^/tmp",
            "--path-append-one",
            "/custom/bin",
            "--journal-namespace",
            "ops",
            "--journal-stderr",
            "false",
            "--journal-identifier",
            "svc",
            "--journal-user-scope",
            "true",
            "--journal-ensure",
            "true",
            "--no-wrapper-sync",
        ]),
        AliasMutationMode::Add,
    )
    .expect("mutation parse");
    assert_eq!(mutation.executable.as_deref(), Some("echo"));
    assert_eq!(mutation.args, vec!["hello"]);
    assert_eq!(mutation.env_set, vec![("A".to_string(), "1".to_string())]);
    assert_eq!(mutation.env_remove, vec!["OLD"]);
    assert_eq!(mutation.path_remove_all, vec!["^/tmp"]);
    assert_eq!(mutation.path_append_one, vec!["/custom/bin"]);
    assert_eq!(mutation.journal_namespace.as_deref(), Some("ops"));
    assert_eq!(mutation.journal_stderr, Some(false));
    assert_eq!(mutation.journal_identifier.as_deref(), Some("svc"));
    assert_eq!(mutation.journal_user_scope, Some(true));
    assert_eq!(mutation.journal_ensure, Some(true));
    assert!(mutation.no_wrapper_sync);
}

#[test]
fn parses_set_path_replacement_with_optional_separator() {
    let mutation = parse_mutation_args(
        &strings(&[
            "--env",
            "A=1",
            "--path-append-one",
            "--",
            "/usr/local/bin",
            "/opt/tools/bin",
        ]),
        AliasMutationMode::Edit,
    )
    .expect("mutation parse");

    assert_eq!(mutation.env_set, vec![("A".to_string(), "1".to_string())]);
    assert_eq!(
        mutation.path_replacement,
        Some(PathFieldReplacement {
            field: PathField::AppendOne,
            values: strings(&["/usr/local/bin", "/opt/tools/bin"]),
        })
    );
}

#[test]
fn parses_set_path_replacement_with_empty_tail_to_clear() {
    let mutation = parse_mutation_args(&strings(&["--path-remove-all"]), AliasMutationMode::Edit)
        .expect("mutation parse");

    assert_eq!(
        mutation.path_replacement,
        Some(PathFieldReplacement {
            field: PathField::RemoveAll,
            values: Vec::new(),
        })
    );
}

#[test]
fn env_assignment_parses_key_value_pairs() {
    let parsed = parse_env_assignment("KEY=value").expect("assignment parse");
    assert_eq!(parsed, ("KEY".to_string(), "value".to_string()));
}

#[test]
fn env_assignment_rejects_missing_equals_separator() {
    let err = parse_env_assignment("KEY").expect_err("assignment should fail");
    assert!(err.message().contains("KEY=VALUE"));
}

#[test]
fn env_assignment_rejects_blank_key() {
    let err = parse_env_assignment(" =value").expect_err("blank key should fail");
    assert!(err.message().contains("cannot be blank"));
}

#[test]
fn bool_flag_parser_accepts_truthy_and_falsey_values() {
    assert!(parse_bool_flag("true", "flag").expect("true should parse"));
    assert!(parse_bool_flag("ON", "flag").expect("on should parse"));
    assert!(!parse_bool_flag("false", "flag").expect("false should parse"));
    assert!(!parse_bool_flag("0", "flag").expect("0 should parse"));
}

#[test]
fn bool_flag_parser_rejects_unknown_values() {
    let err = parse_bool_flag("maybe", "flag").expect_err("unknown should fail");
    assert!(err.message().contains("true/false"));
}

fn valid_doc() -> AliasDoc {
    let mut env = StringMap::new();
    env.insert("A".to_string(), "1".to_string());
    AliasDoc {
        executable: "echo".to_string(),
        args: vec!["hello".to_string()],
        env,
        env_remove: vec!["OLD".to_string()],
        path: None,
        journal: Some(AliasJournalDoc {
            namespace: "ops".to_string(),
            stderr: true,
            identifier: Some("svc".to_string()),
            user_scope: false,
            ensure: false,
            max_use: None,
            rate_limit_interval_usec: None,
            rate_limit_burst: None,
        }),
        reconcile: Some(AliasReconcileDoc {
            script: "hooks/reconcile.rhai".to_string(),
            function: Some("reconcile".to_string()),
        }),
        bashcomp: Some(AliasBashcompDoc {
            disabled: false,
            passthrough: true,
            script: Some("comp/custom.bash".to_string()),
            rhai_script: Some("comp/custom.rhai".to_string()),
            rhai_function: Some("complete".to_string()),
        }),
    }
}

#[test]
fn valid_alias_doc_passes_validation() {
    assert!(valid_doc().validate().is_ok());
}

#[test]
fn alias_doc_validation_rejects_blank_exec() {
    let mut doc = valid_doc();
    doc.executable = "   ".to_string();
    let err = doc.validate().expect_err("blank exec should fail");
    assert!(err.message().contains("`exec` cannot be blank"));
}

#[test]
fn alias_doc_validation_rejects_env_key_with_equals() {
    let mut doc = valid_doc();
    doc.env.insert("BAD=KEY".to_string(), "value".to_string());
    let err = doc.validate().expect_err("equals in env key should fail");
    assert!(err.message().contains("cannot contain `=`"));
}

#[test]
fn alias_doc_validation_rejects_blank_journal_identifier() {
    let mut doc = valid_doc();
    doc.journal = Some(AliasJournalDoc {
        namespace: "ops".to_string(),
        stderr: true,
        identifier: Some("   ".to_string()),
        user_scope: false,
        ensure: false,
        max_use: None,
        rate_limit_interval_usec: None,
        rate_limit_burst: None,
    });
    let err = doc
        .validate()
        .expect_err("blank journal identifier should fail");
    assert!(err.message().contains("cannot be blank"));
}

#[test]
fn alias_doc_validation_rejects_blank_reconcile_script() {
    let mut doc = valid_doc();
    doc.reconcile = Some(AliasReconcileDoc {
        script: "   ".to_string(),
        function: Some("reconcile".to_string()),
    });
    let err = doc
        .validate()
        .expect_err("blank reconcile script should fail");
    assert!(err.message().contains("`reconcile.script` cannot be blank"));
}

#[test]
fn alias_doc_validation_requires_rhai_script_when_function_set() {
    let mut doc = valid_doc();
    doc.bashcomp = Some(AliasBashcompDoc {
        disabled: false,
        passthrough: false,
        script: None,
        rhai_script: None,
        rhai_function: Some("complete".to_string()),
    });
    let err = doc
        .validate()
        .expect_err("rhai function without script should fail");
    assert!(err.message().contains("requires `bashcomp.rhai_script`"));
}

#[test]
fn path_replacement_summary_prints_json_and_restore_command() {
    let replacement = PathFieldReplacement {
        field: PathField::AppendOne,
        values: vec!["/usr/local/bin".to_string(), "/opt/my tools".to_string()],
    };
    let lines = chopper::alias_admin::path_replacement_summary(
        "demo",
        &replacement,
        &vec!["/old/bin".to_string(), "it's here".to_string()],
    );
    assert_eq!(lines[0], "new value of path.append_one: [\"/usr/local/bin\",\"/opt/my tools\"]");
    assert_eq!(lines[1], "restore previous value with:");
    assert_eq!(
        lines[2],
        "chopper --alias set demo --path-append-one -- /old/bin 'it'\\''s here'"
    );
}

#[test]
fn add_journal_defaults_follow_the_documented_flag_defaults() {
    let mutation = parse_mutation_args(&strings(&["--journal-namespace", "ops"]), AliasMutationMode::Add)
        .expect("mutation parse");
    let journal = build_journal_from_mutation(&mutation, true).expect("journal");
    assert_eq!(
        journal,
        Some(AliasJournalDoc {
            namespace: "ops".to_string(),
            stderr: true,
            identifier: None,
            user_scope: false,
            ensure: false,
            max_use: None,
            rate_limit_interval_usec: None,
            rate_limit_burst: None,
        })
    );
}

#[test]
fn path_replacement_summary_escapes_json_strings() {
    let replacement = PathFieldReplacement {
        field: PathField::RemoveAll,
        values: vec!["a\"b\\c".to_string(), "tab\there\nnl\u{1}\u{1f}é".to_string()],
    };
    let lines = chopper::alias_admin::path_replacement_summary("demo", &replacement, &vec![]);
    assert_eq!(
        lines[0],
        "new value of path.remove_all: [\"a\\\"b\\\\c\",\"tab\\there\\nnl\\u0001\\u001fé\"]"
    );
    let empty = PathFieldReplacement { field: PathField::RemoveAll, values: vec![] };
    let lines = chopper::alias_admin::path_replacement_summary("demo", &empty, &vec![]);
    assert_eq!(lines[0], "new value of path.remove_all: []");
}

#[test]
fn duplicate_and_rename_plans_use_canonical_layout_for_legacy_aliases() {
    let plan = plan_alias_transfer(
        "/cfg",
        AliasTransfer::Duplicate,
        "source",
        "copy",
        false,
        Some("/cfg/source.toml".to_string()),
    )
    .expect("duplicate alias");
    assert_eq!(plan.target_path, "/cfg/copy/exe.toml");
    assert_eq!(plan.source_path, "/cfg/source.toml");
    assert_eq!(plan.source_canonical_copy.as_deref(), Some("/cfg/source/exe.toml"));

    let plan = plan_alias_transfer(
        "/cfg",
        AliasTransfer::Rename,
        "copy",
        "renamed",
        false,
        Some("/cfg/copy/exe.toml".to_string()),
    )
    .expect("rename alias");
    assert_eq!(plan.target_path, "/cfg/renamed/exe.toml");
    assert_eq!(plan.source_canonical_copy, None);

    let plan = plan_alias_transfer(
        "/cfg",
        AliasTransfer::Duplicate,
        "source",
        "copy",
        false,
        Some("/cfg/source/exe.toml".to_string()),
    )
    .expect("duplicate canonical alias");
    assert_eq!(plan.target_path, "/cfg/copy/exe.toml");
    assert_eq!(plan.source_canonical_copy, None);
}

#[test]
fn duplicate_and_rename_plans_report_the_original_errors() {
    let err = plan_alias_transfer("/cfg", AliasTransfer::Rename, "same", "same", false, Some("/cfg/same.toml".to_string()))
        .expect_err("same name");
    assert_eq!(err.message(), "rename source and target aliases must differ");
    let err = plan_alias_transfer("/cfg", AliasTransfer::Duplicate, "a", "b", true, Some("/cfg/a/exe.toml".to_string()))
        .expect_err("target exists");
    assert_eq!(err.message(), "alias `b` already exists; choose a different name");
    let err = plan_alias_transfer("/cfg", AliasTransfer::Duplicate, "a", "b", false, None).expect_err("missing");
    assert_eq!(err.message(), "source alias `a` does not exist");
    let err = plan_alias_transfer("/cfg", AliasTransfer::Duplicate, "a", "-b", false, None).expect_err("bad name");
    assert_eq!(err.message(), "alias name cannot start with `-`; choose a non-flag alias name");
}

#[test]
fn add_refuses_an_existing_alias_and_writes_the_canonical_path() {
    assert_eq!(add_config_path("/cfg", "demo", false).expect("free"), "/cfg/demo/exe.toml");
    let err = add_config_path("/cfg", "demo", true).expect_err("taken");
    assert_eq!(err.message(), "alias `demo` already exists; use `set` to modify");
}

#[test]
fn restore_command_quotes_each_previous_value_for_the_shell() {
    let replacement = PathFieldReplacement { field: PathField::RemoveAll, values: vec![] };
    let previous = vec![
        "".to_string(),
        "plain/bin".to_string(),
        "a\nb".to_string(),
        "x y".to_string(),
        "it's\nok".to_string(),
    ];
    let lines = chopper::alias_admin::path_replacement_summary("demo", &replacement, &previous);
    assert_eq!(
        lines[2],
        "chopper --alias set demo --path-remove-all -- '' plain/bin 'a\nb' 'x y' 'it'\\''s\nok'"
    );
}
