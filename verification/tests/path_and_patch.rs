use chopper::env_map::StringMap;
use chopper::path_mutation::{
    apply_components, apply_runtime_path, apply_single_colon_list_op, join_colon_list,
    split_colon_list, PathIdentities, PathMutationConfig, PathMutationError, SinglePathOpKind,
};
use chopper::reconcile::{
    normalize_patch_args, normalize_patch_remove_env, normalize_patch_set_env, parse_patch,
    PatchValue,
};

fn strings(values: &[&str]) -> Vec<String> {
    values.iter().map(|v| v.to_string()).collect()
}

fn ids(entries: &[(&str, u64, u64)]) -> PathIdentities {
    PathIdentities { entries: entries.iter().map(|(p, d, i)| (p.to_string(), *d, *i)).collect() }
}

#[test]
fn split_and_join_colon_lists_round_trip_empty_components() {
    let components = split_colon_list(":/usr/bin::/bin:");
    assert_eq!(components, vec!["", "/usr/bin", "", "/bin", ""]);
    assert_eq!(join_colon_list(&components), ":/usr/bin::/bin:");
}

#[test]
fn split_and_join_round_trip() {
    let values = split_colon_list(":/usr/bin:/bin");
    assert_eq!(values.len(), 3);
    assert_eq!(join_colon_list(&values), ":/usr/bin:/bin");
}

#[test]
fn split_preserves_empty_components() {
    assert_eq!(split_colon_list("a::b"), vec!["a", "", "b"]);
}

#[test]
fn runtime_path_refuses_components_holding_the_separator() {
    let config = PathMutationConfig {
        append_one: strings(&["/a:b"]),
        ..PathMutationConfig::default()
    };
    let err = apply_runtime_path(Some("/bin"), &config, &PathIdentities::new()).expect_err("colon");
    assert!(err.message().contains("path segment contains separator"));
}

#[test]
fn remove_operations_run_before_additions() {
    let known = ids(&[
        ("/t/remove-target", 1, 1),
        ("/t/keep-target", 1, 2),
        ("/t/prepend-target", 1, 3),
        ("/t/append-target", 1, 4),
    ]);
    let config = PathMutationConfig {
        remove_all: strings(&["^/t/remove-target$"]),
        append_one: strings(&["/t/append-target"]),
        prepend_one: strings(&["/t/prepend-target"]),
        ..PathMutationConfig::default()
    };
    let out = apply_single_colon_list_op(
        "/t/remove-target:/t/keep-target:/t/append-target",
        SinglePathOpKind::RemoveAll,
        "^/t/remove-target$",
        "pathlist_remove_all",
        &known,
    )
    .expect("remove");
    assert_eq!(out, "/t/keep-target:/t/append-target");

    let out = apply_components(
        strings(&["/t/remove-target", "/t/keep-target", "/t/append-target"]),
        &config,
        "path",
        &known,
    )
    .expect("apply");
    assert_eq!(out, strings(&["/t/prepend-target", "/t/keep-target", "/t/append-target"]));
}

#[test]
fn append_one_removes_only_first_equivalent_entry() {
    let known = ids(&[("/t/real", 7, 70), ("/t/alias", 7, 70), ("/bin", 1, 10)]);
    let config = PathMutationConfig {
        append_one: strings(&["/t/real"]),
        ..PathMutationConfig::default()
    };
    let out = apply_components(strings(&["/t/alias", "/t/alias", "/bin"]), &config, "path", &known)
        .expect("apply");
    assert_eq!(out, strings(&["/t/alias", "/bin", "/t/real"]));
}

#[test]
fn append_all_removes_all_equivalent_entries_before_inserting() {
    let known = ids(&[("/t/real", 7, 70), ("/t/alias", 7, 70), ("/bin", 1, 10)]);
    let config = PathMutationConfig {
        append_all: strings(&["/t/real"]),
        ..PathMutationConfig::default()
    };
    let out = apply_components(strings(&["/t/alias", "/bin", "/t/alias"]), &config, "path", &known)
        .expect("apply");
    assert_eq!(out, strings(&["/bin", "/t/real"]));
}

#[test]
fn non_canonicalizable_paths_do_not_match_for_append_dedup() {
    let config = PathMutationConfig {
        append_all: strings(&["/definitely/missing"]),
        ..PathMutationConfig::default()
    };
    let out = apply_components(strings(&["/definitely/missing"]), &config, "path", &PathIdentities::new())
        .expect("apply");
    assert_eq!(out, strings(&["/definitely/missing", "/definitely/missing"]));
}

#[test]
fn remove_one_uses_regex_against_raw_components() {
    let out = apply_single_colon_list_op(
        "/tmp/a:/tmp/b:/usr/bin",
        SinglePathOpKind::RemoveOne,
        r"^/tmp/",
        "pathlist_remove_one",
        &PathIdentities::new(),
    )
    .expect("remove one");
    assert_eq!(out, "/tmp/b:/usr/bin");
}

#[test]
fn invalid_regex_reports_context() {
    let err = apply_single_colon_list_op(
        "/bin:/usr/bin",
        SinglePathOpKind::RemoveAll,
        "(",
        "pathlist_remove_all",
        &PathIdentities::new(),
    )
    .expect_err("invalid regex should fail");
    assert!(
        err.message().contains("pathlist_remove_all contains invalid regex `(`"),
        "{}",
        err.message()
    );
}

#[test]
fn remove_all_reports_invalid_regex() {
    let err = apply_single_colon_list_op(
        "/bin:/usr/bin",
        SinglePathOpKind::RemoveAll,
        "(",
        "pathlist_remove_all",
        &PathIdentities::new(),
    )
    .expect_err("invalid regex");
    assert!(err.message().contains("pathlist_remove_all contains invalid regex `(`"));
}

#[test]
fn single_ops_refuse_nul_in_list_or_operand() {
    let err = apply_single_colon_list_op("/bin\0", SinglePathOpKind::AppendOne, "/x", "ctx", &PathIdentities::new())
        .expect_err("nul list");
    assert_eq!(err.message(), "ctx list cannot contain NUL bytes");
    let err = apply_single_colon_list_op("/bin", SinglePathOpKind::AppendOne, "/x\0", "ctx", &PathIdentities::new())
        .expect_err("nul operand");
    assert_eq!(err.message(), "ctx operand cannot contain NUL bytes");
}

#[test]
fn prepend_one_puts_entry_first() {
    let out = apply_single_colon_list_op("/a:/b", SinglePathOpKind::PrependOne, "/c", "ctx", &PathIdentities::new())
        .expect("prepend");
    assert_eq!(out, "/c:/a:/b");
}

#[test]
fn runtime_path_uses_empty_base_when_missing() {
    let config = PathMutationConfig {
        prepend_one: strings(&["/custom/bin"]),
        ..PathMutationConfig::default()
    };
    let out = apply_runtime_path(None, &config, &PathIdentities::new()).expect("runtime path");
    assert_eq!(out, "/custom/bin");
}

#[test]
fn empty_path_config_reports_empty_and_validates_nul() {
    let config = PathMutationConfig::default();
    assert!(config.is_empty());
    let bad = PathMutationConfig { remove_one: strings(&["a\0"]), ..PathMutationConfig::default() };
    assert!(!bad.is_empty());
    let err = bad.validate("path").expect_err("nul entry");
    assert_eq!(err.message(), "field `path.remove_one` entries cannot contain NUL bytes");
}

fn table(entries: Vec<(&str, PatchValue)>) -> PatchValue {
    PatchValue::Table(entries.into_iter().map(|(k, v)| (k.to_string(), v)).collect())
}

fn text(s: &str) -> PatchValue {
    PatchValue::Text(s.to_string())
}

#[test]
fn reconcile_rejects_remove_env_entries_containing_nul_bytes() {
    let err = normalize_patch_remove_env(strings(&["BAD\0KEY"]))
        .expect_err("expected remove_env validation error");
    assert!(err.message().contains("cannot contain NUL bytes"), "{}", err.message());
}

#[test]
fn reconcile_rejects_set_env_keys_containing_nul_bytes() {
    let mut values = StringMap::new();
    values.insert("BAD\0KEY".to_string(), "value".to_string());
    let err = normalize_patch_set_env(&values).expect_err("expected set_env key validation error");
    assert!(err.message().contains("cannot contain NUL bytes"), "{}", err.message());
}

#[test]
fn reconcile_rejects_set_env_values_containing_nul_bytes() {
    let mut values = StringMap::new();
    values.insert("GOOD_KEY".to_string(), "bad\0value".to_string());
    let err = normalize_patch_set_env(&values).expect_err("expected set_env value validation error");
    assert!(err.message().contains("cannot contain NUL bytes"), "{}", err.message());
}

#[test]
fn reconcile_trims_and_normalizes_remove_env_entries() {
    let out = normalize_patch_remove_env(strings(&["  A  ", "", "   ", "B", "A"])).expect("valid");
    assert_eq!(out, strings(&["A", "B"]));
}

#[test]
fn reconcile_rejects_remove_env_entries_containing_equals_sign() {
    let err = normalize_patch_remove_env(strings(&["BAD=KEY"])).expect_err("equals");
    assert!(err.message().contains("cannot contain `=`"), "{}", err.message());
}

#[test]
fn reconcile_args_keep_empty_and_unicode_values() {
    let out = normalize_patch_args(strings(&["", "emoji🚀", "  "]), "append_args").expect("valid");
    assert_eq!(out, strings(&["", "emoji🚀", "  "]));
    let err = normalize_patch_args(strings(&["a\0"]), "append_args").expect_err("nul");
    assert_eq!(err.message(), "`append_args` entries cannot contain NUL bytes");
}

#[test]
fn reconcile_rejects_blank_and_duplicate_set_env_keys() {
    let mut blank = StringMap::new();
    blank.insert("   ".to_string(), "value".to_string());
    let err = normalize_patch_set_env(&blank).expect_err("blank key");
    assert!(err.message().contains("`set_env` cannot contain empty keys"));

    let mut dup = StringMap::new();
    dup.insert("FOO".to_string(), "a".to_string());
    dup.insert(" FOO ".to_string(), "b".to_string());
    let err = normalize_patch_set_env(&dup).expect_err("duplicate key");
    assert!(err.message().contains("`set_env` contains duplicate keys after trimming"));

    let mut eq = StringMap::new();
    eq.insert("BAD=KEY".to_string(), "value".to_string());
    let err = normalize_patch_set_env(&eq).expect_err("equals");
    assert!(err.message().contains("keys cannot contain `=`"));
}

#[test]
fn reconcile_patch_is_read_from_a_table() {
    let patch = parse_patch(table(vec![
        ("append_args", PatchValue::List(vec![text("--flag")])),
        ("set_env", table(vec![(" A ", text("1"))])),
        ("remove_env", PatchValue::List(vec![text(" B ")])),
    ]))
    .expect("valid patch");
    assert_eq!(patch.append_args, strings(&["--flag"]));
    assert!(patch.replace_args.is_none());
    assert_eq!(patch.set_env.get("A"), Some(&"1".to_string()));
    assert_eq!(patch.remove_env, strings(&["B"]));
}

#[test]
fn reconcile_requires_map_return_type() {
    let err = parse_patch(PatchValue::List(Vec::new())).expect_err("not a map");
    assert_eq!(err.message(), "reconcile function must return an object/map");
}

#[test]
fn reconcile_rejects_unsupported_patch_keys() {
    let err = parse_patch(table(vec![("mystery", text("x"))])).expect_err("unsupported");
    assert!(err.message().contains("unsupported reconcile patch key `mystery`"), "{}", err.message());
}

#[test]
fn reconcile_rejects_non_string_env_values() {
    let err = parse_patch(table(vec![("set_env", table(vec![("A", PatchValue::Other)]))]))
        .expect_err("non-string env");
    assert!(err.message().contains("must be strings"), "{}", err.message());
}

#[test]
fn reconcile_rejects_replace_args_entries_containing_nul_bytes() {
    let err = parse_patch(table(vec![("replace_args", PatchValue::List(vec![text("a\0")]))]))
        .expect_err("nul");
    assert_eq!(err.message(), "`replace_args` entries cannot contain NUL bytes");
}

#[test]
fn validate_names_the_first_list_with_a_nul_entry() {
    let bad = PathMutationConfig {
        append_one: strings(&["/x\0"]),
        remove_one: strings(&["/ok", "/y\0"]),
        prepend_all: strings(&["\0"]),
        ..PathMutationConfig::default()
    };
    let err = bad.validate("alias.path").expect_err("nul entry");
    assert_eq!(
        err,
        PathMutationError::EntryContainsNul {
            field_prefix: "alias.path".to_string(),
            field_name: "remove_one".to_string(),
        }
    );
}

#[test]
fn invalid_regex_error_names_the_first_refused_pattern_and_its_list() {
    let config = PathMutationConfig {
        remove_all: strings(&["^/ok", "(", "["]),
        remove_one: strings(&["*"]),
        ..PathMutationConfig::default()
    };
    match apply_runtime_path(Some("/bin"), &config, &PathIdentities::new()) {
        Err(PathMutationError::InvalidRegex { context, pattern, .. }) => {
            assert_eq!(context, "path.remove_all");
            assert_eq!(pattern, "(");
        }
        other => panic!("unexpected {other:?}"),
    }
    let config = PathMutationConfig {
        remove_all: strings(&["^/ok"]),
        remove_one: strings(&["/fine", "[", "("]),
        append_all: strings(&["/x"]),
        ..PathMutationConfig::default()
    };
    match apply_components(strings(&["/bin"]), &config, "alias.path", &PathIdentities::new()) {
        Err(PathMutationError::InvalidRegex { context, pattern, .. }) => {
            assert_eq!(context, "alias.path.remove_one");
            assert_eq!(pattern, "[");
        }
        other => panic!("unexpected {other:?}"),
    }
}

#[test]
fn splitting_a_join_of_colon_free_parts_gives_the_parts_back() {
    let parts = strings(&["", "/usr/bin", "", "/bin", ""]);
    assert_eq!(split_colon_list(&join_colon_list(&parts)), parts);
    let single = strings(&[""]);
    assert_eq!(split_colon_list(&join_colon_list(&single)), single);
}
