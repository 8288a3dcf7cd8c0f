use chopper::executor::{
    broker_command_line, broker_invocation, derive_user_scoped_namespace, exit_like_child,
    normalize_journal_config_for_command, parse_uid_text, runs_with_journal,
    sanitize_namespace_component, systemd_cat_args, usable_name_text, fallback_username,
    validate_invocation_for_command, ChildExit, UserIdentity,
};
use chopper::env_map::StringMap;
use chopper::journal_validation::{
    normalize_namespace, normalize_optional_identifier_for_config,
    normalize_optional_identifier_for_invocation, validate_max_use, JournalIdentifierViolation,
    JournalNamespaceViolation, MaxUseViolation,
};
use chopper::manifest::{Invocation, JournalConfig};

fn user() -> UserIdentity {
    UserIdentity { uid: 1000, username: "User Name+Ops".to_string() }
}

fn journal(namespace: &str, identifier: Option<&str>) -> JournalConfig {
    JournalConfig {
        namespace: namespace.to_string(),
        stderr: true,
        identifier: identifier.map(|s| s.to_string()),
        user_scope: false,
        ensure: false,
    }
}

fn invocation() -> Invocation {
    Invocation {
        executable: "echo".to_string(),
        args: vec!["ok".to_string()],
        env: StringMap::new(),
        env_remove: Vec::new(),
        journal: None,
    }
}

#[test]
fn command_builder_accepts_plain_invocation() {
    assert!(validate_invocation_for_command(&invocation()).is_ok());
}

#[test]
fn command_builder_rejects_env_key_with_equals_sign() {
    let mut invocation = invocation();
    invocation.env.insert("BAD=KEY".to_string(), "value".to_string());
    let err = validate_invocation_for_command(&invocation).expect_err("expected validation error");
    assert!(err.message().contains("cannot contain `=`"), "{}", err.message());
}

#[test]
fn command_builder_rejects_env_key_with_nul_byte() {
    let mut invocation = invocation();
    invocation.env.insert("BAD\0KEY".to_string(), "value".to_string());
    let err = validate_invocation_for_command(&invocation).expect_err("expected validation error");
    assert!(err.message().contains("cannot contain NUL bytes"), "{}", err.message());
}

#[test]
fn command_builder_rejects_env_value_with_nul_byte() {
    let mut invocation = invocation();
    invocation.env.insert("GOOD_KEY".to_string(), "bad\0value".to_string());
    let err = validate_invocation_for_command(&invocation).expect_err("expected validation error");
    assert!(err.message().contains("cannot contain NUL bytes"), "{}", err.message());
}

#[test]
fn command_builder_rejects_env_remove_key_with_nul_byte() {
    let mut invocation = invocation();
    invocation.env_remove = vec!["BAD\0KEY".to_string()];
    let err = validate_invocation_for_command(&invocation).expect_err("expected validation error");
    assert!(err.message().contains("cannot contain NUL bytes"), "{}", err.message());
}

#[test]
fn command_builder_rejects_env_remove_key_with_equals_sign() {
    let mut invocation = invocation();
    invocation.env_remove = vec!["BAD=KEY".to_string()];
    let err = validate_invocation_for_command(&invocation).expect_err("expected validation error");
    assert!(err.message().contains("cannot contain `=`"), "{}", err.message());
}

#[test]
fn command_builder_rejects_argument_with_nul_byte() {
    let mut invocation = invocation();
    invocation.args = vec!["ok".to_string(), "bad\0arg".to_string()];
    let err = validate_invocation_for_command(&invocation).expect_err("expected validation error");
    assert!(
        err.message().contains("command arguments cannot contain NUL bytes"),
        "{}",
        err.message()
    );
}

#[test]
fn command_builder_rejects_exec_path_with_nul_byte() {
    let mut invocation = invocation();
    invocation.executable = "ec\0ho".to_string();
    let err = validate_invocation_for_command(&invocation).expect_err("expected validation error");
    assert!(
        err.message().contains("execution path cannot contain NUL bytes"),
        "{}",
        err.message()
    );
}

#[test]
fn journal_validation_rejects_empty_namespace() {
    let err = normalize_journal_config_for_command(&journal("   ", None), &user())
        .expect_err("expected error");
    assert!(err.message().contains("journal namespace cannot be empty"), "{}", err.message());
}

#[test]
fn journal_validation_rejects_nul_namespace() {
    let err = normalize_journal_config_for_command(&journal("ops\0prod", None), &user())
        .expect_err("expected error");
    assert!(
        err.message().contains("journal namespace cannot contain NUL bytes"),
        "{}",
        err.message()
    );
}

#[test]
fn journal_validation_rejects_blank_identifier() {
    let err = normalize_journal_config_for_command(&journal("ops", Some("   ")), &user())
        .expect_err("expected error");
    assert!(
        err.message().contains("journal identifier cannot be blank when provided"),
        "{}",
        err.message()
    );
}

#[test]
fn journal_validation_rejects_nul_identifier() {
    let err = normalize_journal_config_for_command(&journal("ops", Some("svc\0id")), &user())
        .expect_err("expected error");
    assert!(
        err.message().contains("journal identifier cannot contain NUL bytes"),
        "{}",
        err.message()
    );
}

#[test]
fn journal_config_keeps_namespace_without_user_scope() {
    let (ns, id) = normalize_journal_config_for_command(&journal("  ops  ", Some(" svc ")), &user())
        .expect("valid journal");
    assert_eq!(ns, "ops");
    assert_eq!(id.as_deref(), Some("svc"));
}

#[test]
fn user_scoped_namespace_derivation_prefixes_uid_and_sanitizes_components() {
    let namespace = derive_user_scoped_namespace("ops/ns.prod@2026", &user());
    assert_eq!(namespace, "u1000-user-name-ops-ops-ns.prod-2026");
    let mut scoped = journal("ops/ns.prod@2026", None);
    scoped.user_scope = true;
    let (ns, _) = normalize_journal_config_for_command(&scoped, &user()).expect("scoped");
    assert_eq!(ns, "u1000-user-name-ops-ops-ns.prod-2026");
}

#[test]
fn sanitizing_collapses_runs_and_falls_back_to_x() {
    assert_eq!(sanitize_namespace_component("--A  b--"), "a-b");
    assert_eq!(sanitize_namespace_component("***"), "x");
    assert_eq!(sanitize_namespace_component(""), "x");
    assert_eq!(sanitize_namespace_component("a_b.c"), "a_b.c");
}

#[test]
fn user_identity_helpers_parse_and_fall_back() {
    assert_eq!(parse_uid_text(" 1000 "), Some(1000));
    assert_eq!(parse_uid_text("x"), None);
    assert_eq!(usable_name_text("  alice  "), Some("alice".to_string()));
    assert_eq!(usable_name_text("   "), None);
    assert_eq!(usable_name_text("a\0b"), None);
    assert_eq!(fallback_username(42), "uid42");
}

#[test]
fn broker_command_defaults_and_splits_words() {
    assert_eq!(broker_command_line(None), "chopper-journal-broker");
    assert_eq!(broker_command_line(Some("   ")), "chopper-journal-broker");
    assert_eq!(broker_command_line(Some("  sudo broker  ")), "sudo broker");
    let (program, args) = broker_invocation("sudo 'my broker'", "u1-a-ops").expect("split");
    assert_eq!(program, "sudo");
    assert_eq!(args, vec!["my broker", "ensure", "--namespace", "u1-a-ops"]);
    let err = broker_invocation("'unterminated", "ns").expect_err("bad quoting");
    assert!(err.message().contains("valid shell-style command line"));
    let err = broker_invocation("   ", "ns").expect_err("no words");
    assert!(err.message().contains("did not resolve to an executable command"));
}

#[test]
fn journal_runs_only_when_stderr_is_forwarded() {
    let mut inv = invocation();
    assert!(!runs_with_journal(&inv));
    inv.journal = Some(journal("ops", None));
    assert!(runs_with_journal(&inv));
    inv.journal = Some(JournalConfig { stderr: false, ..journal("ops", None) });
    assert!(!runs_with_journal(&inv));
}

#[test]
fn systemd_cat_arguments_name_namespace_and_identifier() {
    assert_eq!(systemd_cat_args("ops", &None), vec!["--namespace=ops"]);
    assert_eq!(
        systemd_cat_args("ops", &Some("svc".to_string())),
        vec!["--namespace=ops", "--identifier=svc"]
    );
}

#[test]
fn exit_status_follows_the_child() {
    assert_eq!(exit_like_child(true, Some(0), None), ChildExit::Success);
    assert_eq!(exit_like_child(false, Some(3), None), ChildExit::Code(3));
    assert_eq!(exit_like_child(false, None, Some(9)), ChildExit::Code(137));
    assert_eq!(exit_like_child(false, None, None), ChildExit::Unknown);
}

#[test]
fn namespace_normalization_rejects_empty_values() {
    let err = normalize_namespace("   ").expect_err("expected empty namespace error");
    assert_eq!(err, JournalNamespaceViolation::Empty);
}

#[test]
fn namespace_normalization_rejects_nul_values() {
    let err = normalize_namespace("ops\0prod").expect_err("expected nul namespace error");
    assert_eq!(err, JournalNamespaceViolation::ContainsNul);
}

#[test]
fn namespace_normalization_trims_surrounding_whitespace() {
    let out = normalize_namespace("  ops.ns  ").expect("namespace should normalize");
    assert_eq!(out, "ops.ns");
}

#[test]
fn namespace_normalization_accepts_symbolic_and_pathlike_values() {
    let out = normalize_namespace("ops/ns.prod@2026").expect("symbolic namespace should normalize");
    assert_eq!(out, "ops/ns.prod@2026");
}

#[test]
fn config_identifier_normalization_treats_blank_as_unset() {
    let out = normalize_optional_identifier_for_config(Some("   ")).expect("blank identifier");
    assert!(out.is_none());
}

#[test]
fn config_identifier_normalization_treats_missing_as_unset() {
    let out = normalize_optional_identifier_for_config(None).expect("missing identifier");
    assert!(out.is_none());
}

#[test]
fn invocation_identifier_normalization_rejects_blank_values() {
    let err = normalize_optional_identifier_for_invocation(Some("   "))
        .expect_err("blank identifier should be invalid for invocation");
    assert_eq!(err, JournalIdentifierViolation::Blank);
}

#[test]
fn invocation_identifier_normalization_allows_missing_values() {
    let out = normalize_optional_identifier_for_invocation(None).expect("missing identifier");
    assert!(out.is_none());
}

#[test]
fn identifier_normalization_trims_surrounding_whitespace() {
    let config_identifier =
        normalize_optional_identifier_for_config(Some("  chopper  ")).expect("config identifier");
    assert_eq!(config_identifier, Some("chopper".to_string()));

    let invocation_identifier = normalize_optional_identifier_for_invocation(Some("  chopper  "))
        .expect("invocation identifier");
    assert_eq!(invocation_identifier, Some("chopper".to_string()));
}

#[test]
fn identifier_normalization_accepts_symbolic_and_pathlike_values() {
    let config_identifier = normalize_optional_identifier_for_config(Some("svc.id/worker\\edge@2026"))
        .expect("config identifier should normalize");
    assert_eq!(config_identifier, Some("svc.id/worker\\edge@2026".to_string()));

    let invocation_identifier =
        normalize_optional_identifier_for_invocation(Some("svc.id/worker\\edge@2026"))
            .expect("invocation identifier should normalize");
    assert_eq!(invocation_identifier, Some("svc.id/worker\\edge@2026".to_string()));
}

#[test]
fn identifier_normalization_rejects_nul_values() {
    let err = normalize_optional_identifier_for_config(Some("svc\0id"))
        .expect_err("nul identifier should be invalid");
    assert_eq!(err, JournalIdentifierViolation::ContainsNul);
}

#[test]
fn namespace_normalization_trims_mixed_whitespace() {
    let out = normalize_namespace("\n\t ops.ns \t").expect("namespace should normalize");
    assert_eq!(out, "ops.ns");
}

#[test]
fn max_use_validation_accepts_valid_sizes() {
    assert_eq!(validate_max_use("256M"), Ok("256M".to_string()));
    assert_eq!(validate_max_use("1G"), Ok("1G".to_string()));
    assert_eq!(validate_max_use("1024K"), Ok("1024K".to_string()));
    assert_eq!(validate_max_use("1048576"), Ok("1048576".to_string()));
}

#[test]
fn max_use_validation_trims_whitespace() {
    assert_eq!(validate_max_use("  256M  "), Ok("256M".to_string()));
}

#[test]
fn max_use_validation_rejects_empty() {
    assert_eq!(validate_max_use("   "), Err(MaxUseViolation::Empty));
}

#[test]
fn max_use_validation_rejects_nul() {
    assert_eq!(validate_max_use("256\0M"), Err(MaxUseViolation::ContainsNul));
}

#[test]
fn max_use_validation_rejects_invalid_format() {
    assert_eq!(validate_max_use("abc"), Err(MaxUseViolation::InvalidFormat));
}
