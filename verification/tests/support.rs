use chopper::alias_paths::{
    default_exec_config_path, discover_exec_aliases, exec_config_candidates, find_exec_config,
    target_path_like_source, DirEntryInfo,
};
use chopper::cache::{
    alias_cache_file_name, cache_file_path, cache_root_dir, cached_manifest, SourceFingerprint,
};
use chopper::completion::{
    completion_current_word, completion_target, parse_candidates, CompletionError, CompletionReply,
};
use chopper::config_diagnostics::{
    bash_completion_candidates, bash_completion_dirs, bash_completion_file_warning,
    extension_warning, manifest_missing_target_warnings, path_is_explicit, RhaiScriptProbe,
    TargetProbe,
};
use chopper::env_map::StringMap;
use chopper::env_util::{flag_value_enabled, path_override_value};
use chopper::exec_resolution::{is_direct_chopper_name, resolve_command_path, FileIdentity};
use chopper::manifest::{BashcompConfig, Manifest, ReconcileConfig};
use chopper::parser::{
    file_extension, is_toml_path, legacy_command_words, manifest_from_config,
    manifest_from_legacy_words, normalize_env_remove, resolve_script_path, strip_utf8_bom,
    AliasConfig, JournalConfigInput, ReconcileConfigInput,
};
use chopper::rhai_engine::{facade_groups, FacadeGroup, RhaiEngineProfile};
use chopper::rhai_facade_validation::{
    array_to_strings, ensure_no_nul, ensure_not_blank, ensure_path, map_to_strings,
    normalize_timeout_ms, ScriptValue,
};
use chopper::script_requests::{
    extract_fault_text, fault_text_from_events, process_request, soap_envelope, soap_reply,
    soap_request, status_is_ok, web_request, XmlEvent,
};
use chopper::wrapper_sync::{
    cleanup_wrapper_path, prepare_wrapper_path, resolve_wrapper_location, wrapper_health_warnings,
    PathEntryMatch, PathLookup, WrapperError, WrapperLocation, WrapperPathState,
};
use chopper::{config_dir, find_config};

fn strings(values: &[&str]) -> Vec<String> {
    values.iter().map(|v| v.to_string()).collect()
}

fn text(s: &str) -> ScriptValue {
    ScriptValue::Text(s.to_string())
}

// --- configuration files -------------------------------------------------

#[test]
fn parses_trivial_legacy_alias() {
    let words = legacy_command_words("kubectl get pods\n").expect("legacy words");
    assert_eq!(words, strings(&["kubectl", "get", "pods"]));
    let manifest = manifest_from_legacy_words(&words, None);
    assert_eq!(manifest.executable, "kubectl");
    assert_eq!(manifest.args, strings(&["get", "pods"]));
}

#[test]
fn parses_trivial_legacy_alias_after_blank_and_comment_lines() {
    let content = r#"

# heading comment
    # indented comment
echo hello world
"#;
    let words = legacy_command_words(content).expect("parse legacy config");
    let manifest = chopper::parser::manifest_from_legacy_words(&words, None);
    assert_eq!(manifest.executable.rsplit('/').next(), Some("echo"));
    assert_eq!(manifest.args, vec!["hello", "world"]);
}

#[test]
fn rejects_trivial_legacy_alias_with_only_blank_and_comment_lines() {
    let err = legacy_command_words("\n# only comments\n   \n").expect_err("no command");
    assert_eq!(err.message(), "empty config file");
}

#[test]
fn parses_trivial_legacy_alias_with_utf8_bom() {
    let content = strip_utf8_bom("\u{feff}echo hi\n");
    assert_eq!(content, "echo hi\n");
    let words = legacy_command_words("\u{feff}echo hi\n").expect("bom is skipped");
    assert_eq!(words, strings(&["echo", "hi"]));
}

#[test]
fn legacy_alias_reports_unbalanced_quotes() {
    let err = legacy_command_words("echo 'open\n").expect_err("quote");
    assert_eq!(err.message(), "missing closing quote");
}

#[test]
fn legacy_alias_found_on_path_runs_resolved_binary() {
    let manifest = manifest_from_legacy_words(&strings(&["ls", "-l"]), Some("/bin/ls".to_string()));
    assert_eq!(manifest.executable, "/bin/ls");
    assert_eq!(manifest.args, strings(&["-l"]));
}

fn config(exec: &str) -> AliasConfig {
    AliasConfig {
        executable: exec.to_string(),
        args: Vec::new(),
        env: StringMap::new(),
        env_remove: Vec::new(),
        journal: None,
        reconcile: None,
    }
}

#[test]
fn rejects_empty_exec_field_in_toml() {
    let err = manifest_from_config(config("   "), None, "/cfg").expect_err("empty exec");
    assert_eq!(err.message(), "field `exec` cannot be empty");
}

#[test]
fn trims_exec_and_journal_fields() {
    let mut c = config("  echo  ");
    c.journal = Some(JournalConfigInput {
        namespace: "  ops  ".to_string(),
        stderr: true,
        identifier: Some("  svc  ".to_string()),
        user_scope: false,
        ensure: false,
    });
    let manifest = manifest_from_config(c, None, "/cfg").expect("valid");
    assert_eq!(manifest.executable, "echo");
    let journal = manifest.journal.expect("journal");
    assert_eq!(journal.namespace, "ops");
    assert_eq!(journal.identifier.as_deref(), Some("svc"));
}

#[test]
fn rejects_empty_journal_namespace() {
    let mut c = config("echo");
    c.journal = Some(JournalConfigInput {
        namespace: "   ".to_string(),
        stderr: true,
        identifier: None,
        user_scope: false,
        ensure: false,
    });
    let err = manifest_from_config(c, None, "/cfg").expect_err("blank namespace");
    assert_eq!(err.message(), "field `journal.namespace` cannot be empty");
}

#[test]
fn defaults_reconcile_function_when_blank() {
    let mut c = config("echo");
    c.reconcile = Some(ReconcileConfigInput { script: " hooks/r.rhai ".to_string(), function: Some("  ".to_string()) });
    let manifest = manifest_from_config(c, None, "/cfg/kpods").expect("valid");
    let reconcile = manifest.reconcile.expect("reconcile");
    assert_eq!(reconcile.function, "reconcile");
    assert_eq!(reconcile.script, "/cfg/kpods/hooks/r.rhai");
}

#[test]
fn rejects_duplicate_env_keys_after_trimming() {
    let mut c = config("echo");
    c.env.insert("A".to_string(), "1".to_string());
    c.env.insert(" A ".to_string(), "2".to_string());
    let err = manifest_from_config(c, None, "/cfg").expect_err("duplicate");
    assert!(err.message().contains("duplicate keys after trimming"));
}

#[test]
fn trims_env_remove_entries_and_drops_blank_values() {
    assert_eq!(normalize_env_remove(&strings(&[" A ", "", "  ", "B"])), strings(&["A", "B"]));
}

#[test]
fn script_paths_resolve_relative_to_the_config_directory() {
    assert_eq!(resolve_script_path("/cfg", "x.rhai"), "/cfg/x.rhai");
    assert_eq!(resolve_script_path("/cfg", "/abs/x.rhai"), "/abs/x.rhai");
}

#[test]
fn toml_files_are_recognised_by_extension() {
    assert!(is_toml_path("/cfg/a.toml"));
    assert!(is_toml_path("/cfg/a.TOML"));
    assert!(!is_toml_path("/cfg/a"));
    assert!(!is_toml_path("/cfg/.toml"));
    assert_eq!(file_extension("/cfg/a.tar.gz").as_deref(), Some("gz"));
    assert_eq!(file_extension("/cfg/a/"), None);
}

#[test]
fn alias_configs_are_looked_up_in_layout_order() {
    let candidates = exec_config_candidates("/cfg", "kpods");
    assert_eq!(
        candidates,
        strings(&["/cfg/kpods/exe.toml", "/cfg/aliases/kpods.toml", "/cfg/kpods.toml"])
    );
    assert_eq!(
        find_exec_config("/cfg", "kpods", &vec![false, true, true]).as_deref(),
        Some("/cfg/aliases/kpods.toml")
    );
    assert_eq!(find_exec_config("/cfg", "kpods", &vec![false, false, false]), None);
    assert_eq!(
        find_config("/cfg", "kpods", &vec![true, true, false]).as_deref(),
        Some("/cfg/kpods/exe.toml")
    );
    assert_eq!(default_exec_config_path("/cfg", "a"), "/cfg/a/exe.toml");
    assert_eq!(target_path_like_source("/cfg", "/cfg/a/exe.toml", "a", "b"), "/cfg/b/exe.toml");
    assert_eq!(target_path_like_source("/cfg", "/cfg/source.toml", "source", "copy"), "/cfg/copy/exe.toml");
    assert_eq!(target_path_like_source("/cfg", "/cfg/aliases/source.toml", "source", "copy"), "/cfg/copy/exe.toml");
}

#[test]
fn config_dir_honors_chopper_override() {
    assert_eq!(config_dir(Some("/tmp/chopper-config-override"), Some("/home/u/.config/chopper")), "/tmp/chopper-config-override");
    assert_eq!(config_dir(Some("   "), Some("/home/u/.config/chopper")), "/home/u/.config/chopper");
    assert_eq!(config_dir(None, None), ".chopper");
}

#[test]
fn discovered_aliases_come_from_both_layouts() {
    let root = vec![
        DirEntryInfo { name: "kpods".to_string(), is_dir: true, has_exec_file: true },
        DirEntryInfo { name: "aliases".to_string(), is_dir: true, has_exec_file: true },
        DirEntryInfo { name: "empty".to_string(), is_dir: true, has_exec_file: false },
        DirEntryInfo { name: "legacy.toml".to_string(), is_dir: false, has_exec_file: false },
    ];
    let legacy = vec![DirEntryInfo { name: "old.toml".to_string(), is_dir: false, has_exec_file: false }];
    let found = discover_exec_aliases(&root, &legacy);
    assert!(found.contains(&"kpods".to_string()));
    assert!(found.contains(&"old".to_string()));
    assert!(!found.contains(&"empty".to_string()));
    assert!(!found.contains(&"aliases".to_string()));
}

// --- diagnostics -------------------------------------------------------------

#[test]
fn manifest_missing_target_warnings_only_checks_explicit_paths() {
    let mut manifest = Manifest::simple("missing-binary-name".to_string());
    manifest.reconcile = Some(ReconcileConfig {
        script: "/definitely/missing/script.rhai".to_string(),
        function: "reconcile".to_string(),
    });
    manifest.bashcomp = Some(BashcompConfig {
        disabled: false,
        passthrough: false,
        script: Some("/definitely/missing/comp.bash".to_string()),
        rhai_script: Some("/definitely/missing/comp.rhai".to_string()),
        rhai_function: Some("complete".to_string()),
    });
    let probe = TargetProbe {
        exec_exists: false,
        reconcile_script_exists: false,
        bashcomp_script_exists: false,
        rhai_script: RhaiScriptProbe::Missing,
    };
    let warnings = manifest_missing_target_warnings(&manifest, &probe);
    assert_eq!(warnings.len(), 3, "{warnings:?}");
    assert!(warnings.iter().all(|w| !w.contains("missing-binary-name")), "{warnings:?}");
}

#[test]
fn manifest_missing_target_warnings_flags_missing_bashcomp_rhai_function() {
    let mut manifest = Manifest::simple("/bin/echo".to_string());
    manifest.bashcomp = Some(BashcompConfig {
        disabled: false,
        passthrough: false,
        script: None,
        rhai_script: Some("/cfg/comp.rhai".to_string()),
        rhai_function: Some("complete".to_string()),
    });
    let probe = TargetProbe {
        exec_exists: true,
        reconcile_script_exists: true,
        bashcomp_script_exists: true,
        rhai_script: RhaiScriptProbe::Methods(strings(&["other"])),
    };
    let warnings = manifest_missing_target_warnings(&manifest, &probe);
    assert_eq!(
        warnings,
        strings(&["bash completion Rhai function `complete` does not exist in /cfg/comp.rhai"])
    );
}

#[test]
fn explicit_paths_are_absolute_or_multi_component() {
    assert!(path_is_explicit("/bin/echo"));
    assert!(path_is_explicit("./echo"));
    assert!(path_is_explicit("bin/echo"));
    assert!(!path_is_explicit("echo"));
    assert!(!path_is_explicit("echo/"));
}

#[test]
fn scan_extension_warnings_flags_unknown_extensions_only() {
    assert_eq!(extension_warning("/cfg/good.rhai", "good.rhai"), None);
    assert_eq!(extension_warning("/cfg/good.TOML", "good.TOML"), None);
    assert_eq!(extension_warning("/cfg/noext", "noext"), None);
    let w = extension_warning("/cfg/odd.ini", "odd.ini").expect("odd extension");
    assert!(w.contains("odd.ini"), "{w}");
}

#[test]
fn scan_bashcomp_file_warnings_flags_empty_user_completion_shadow() {
    let w = bash_completion_file_warning("kpods", "/c/kpods", "").expect("empty file");
    assert!(w.contains("is empty"), "{w}");
    let w = bash_completion_file_warning("kpods", "/c/kpods", "  \n").expect("blank file");
    assert!(w.contains("whitespace-only"), "{w}");
}

#[test]
fn scan_bashcomp_file_warnings_flags_chopper_self_reference() {
    let w = bash_completion_file_warning("kpods", "/c/kpods", "complete -F _chopper_complete kpods\n")
        .expect("self reference");
    assert!(w.contains("point back to chopper"), "{w}");
    assert_eq!(
        bash_completion_file_warning("kpods", "/c/kpods", "# Auto-generated by chopper\n_chopper_complete\n"),
        None
    );
    assert_eq!(bash_completion_file_warning("kpods", "/c/kpods", "complete -F _real kpods\n"), None);
}

#[test]
fn bash_completion_search_paths() {
    assert_eq!(
        bash_completion_candidates("/d", "kpods"),
        strings(&["/d/kpods", "/d/kpods.bash", "/d/_kpods"])
    );
    let dirs = bash_completion_dirs(&None, None, Some("/home/u"), &Some(strings(&["/usr/share"])));
    assert_eq!(
        dirs,
        strings(&[
            "/home/u/.local/share/bash-completion/completions",
            "/usr/share/bash-completion/completions",
            "/usr/local/share/bash-completion/completions",
            "/usr/share/bash-completion/completions",
            "/etc/bash_completion.d",
        ])
    );
}

// --- script-facing checks ----------------------------------------------------

#[test]
fn timeout_normalization_accepts_zero_and_positive() {
    assert_eq!(normalize_timeout_ms(0).expect("zero timeout"), None);
    assert_eq!(normalize_timeout_ms(1).expect("positive timeout"), Some(1));
}

#[test]
fn timeout_normalization_rejects_negative_values() {
    let err = normalize_timeout_ms(-1).expect_err("negative");
    assert_eq!(err.message, "timeout_ms cannot be negative");
}

#[test]
fn not_blank_trims_and_rejects_blank_values() {
    assert_eq!(ensure_not_blank("field", "  value  ").expect("trimmed value"), "value");
    assert_eq!(ensure_not_blank("field", "   ").expect_err("blank").message, "field cannot be blank");
    assert_eq!(ensure_path("path", " /tmp ").expect("path"), "/tmp");
    assert_eq!(ensure_no_nul("field", "a\0").expect_err("nul").message, "field cannot contain NUL bytes");
}

#[test]
fn array_to_strings_rejects_non_string_values() {
    let err = array_to_strings("args", &vec![ScriptValue::Other]).expect_err("not a string");
    assert_eq!(err.message, "all args entries must be strings");
    assert_eq!(array_to_strings("args", &vec![text("a"), text("")]).expect("strings"), strings(&["a", ""]));
}

#[test]
fn map_to_strings_rejects_non_string_values() {
    let err = map_to_strings("headers", &vec![("k".to_string(), ScriptValue::Other)]).expect_err("value");
    assert_eq!(err.message, "all headers values must be strings");
    let err = map_to_strings("headers", &vec![("  ".to_string(), text("v"))]).expect_err("blank key");
    assert_eq!(err.message, "headers key cannot be blank");
    let map = map_to_strings("headers", &vec![(" K ".to_string(), text("v"))]).expect("valid");
    assert_eq!(map.get("K"), Some(&"v".to_string()));
}

#[test]
fn completion_profile_exposes_safe_subset_only() {
    let groups = facade_groups(RhaiEngineProfile::Completion);
    assert!(groups.contains(&FacadeGroup::FsReadOnly));
    assert!(!groups.contains(&FacadeGroup::Process));
    assert!(!groups.contains(&FacadeGroup::Http));
}

#[test]
fn reconcile_profile_exposes_full_facade_set() {
    let groups = facade_groups(RhaiEngineProfile::Reconcile);
    assert!(groups.contains(&FacadeGroup::Process));
    assert!(groups.contains(&FacadeGroup::Soap));
    assert!(groups.contains(&FacadeGroup::FsFull));
}

#[test]
fn web_requests_are_checked_in_order() {
    let req = web_request(" GET ", " http://x/ ", &vec![("Accept".to_string(), text("*/*"))], 0).expect("valid");
    assert_eq!(req.method, "GET");
    assert_eq!(req.url, "http://x/");
    assert_eq!(req.timeout_ms, 10_000);
    assert_eq!(req.headers.get("Accept"), Some(&"*/*".to_string()));
    let err = web_request(" ", "http://x/", &Vec::new(), -1).expect_err("blank method first");
    assert_eq!(err.message, "method cannot be blank");
    let err = web_request("GET", "http://x/", &Vec::new(), -1).expect_err("negative timeout");
    assert_eq!(err.message, "timeout_ms cannot be negative");
}

#[test]
fn process_requests_keep_cwd_only_when_given() {
    let req = process_request(" sh ", &vec![text("-c"), text("true")], &Vec::new(), "  ", 0).expect("valid");
    assert_eq!(req.executable, "sh");
    assert_eq!(req.args, strings(&["-c", "true"]));
    assert_eq!(req.cwd, None);
    assert_eq!(req.timeout_ms, None);
    let req = process_request("sh", &Vec::new(), &Vec::new(), " /tmp ", 5).expect("valid");
    assert_eq!(req.cwd.as_deref(), Some("/tmp"));
    assert_eq!(req.timeout_ms, Some(5));
    let err = process_request("sh", &vec![ScriptValue::Other], &Vec::new(), "", 0).expect_err("bad arg");
    assert_eq!(err.message, "all args entries must be strings");
}

#[test]
fn soap_calls_wrap_the_body() {
    let req = soap_request("http://x/", "urn:test", "<Ping/>", 0).expect("valid");
    assert_eq!(req.timeout_ms, 10_000);
    assert!(soap_request("http://x/", "a\0", "<Ping/>", 0).is_err());
    let envelope = soap_envelope("<Ping/>").expect("envelope");
    assert!(envelope.starts_with("<?xml version=\"1.0\" encoding=\"utf-8\"?>\n<soap:Envelope"));
    assert!(envelope.contains("\n  <soap:Body>\n    <Ping/>\n  </soap:Body>\n</soap:Envelope>"));
}

#[test]
fn extracts_fault_text_from_faultstring() {
    let xml = r#"<Envelope><Body><Fault><faultstring>bad request</faultstring></Fault></Body></Envelope>"#;
    assert_eq!(extract_fault_text(xml).as_deref(), Some("bad request"));
}

#[test]
fn soap_call_reports_fault_text() {
    let body = r#"<soap:Envelope xmlns:soap="http://schemas.xmlsoap.org/soap/envelope/"><soap:Body><soap:Fault><faultstring>denied</faultstring></soap:Fault></soap:Body></soap:Envelope>"#;
    let reply = soap_reply(500, body.to_string());
    assert!(!reply.ok);
    assert!(reply.fault);
    assert_eq!(reply.fault_text, "denied");
    let ok = soap_reply(200, "<Envelope><Body/></Envelope>".to_string());
    assert!(ok.ok);
    assert!(!ok.fault);
    assert_eq!(ok.fault_text, "");
}

#[test]
fn fault_scan_ignores_text_outside_faults() {
    let events = vec![
        XmlEvent::Start("reason".to_string()),
        XmlEvent::Text("not a fault".to_string()),
        XmlEvent::End("reason".to_string()),
        XmlEvent::Start("SOAP:FAULT".to_string()),
        XmlEvent::Start("Reason".to_string()),
        XmlEvent::Text("  ".to_string()),
        XmlEvent::Text("  real  ".to_string()),
        XmlEvent::Eof,
    ];
    assert_eq!(fault_text_from_events(&events).as_deref(), Some("real"));
    assert_eq!(fault_text_from_events(&vec![XmlEvent::Error, XmlEvent::Text("x".to_string())]), None);
}

#[test]
fn http_status_success_range() {
    assert!(status_is_ok(200));
    assert!(status_is_ok(399));
    assert!(!status_is_ok(400));
    assert!(!status_is_ok(199));
}

// --- completion ------------------------------------------------------------------

#[test]
fn completion_errors_without_bashcomp_config() {
    let manifest = Manifest::simple("echo".to_string());
    let err = completion_target(&manifest).expect_err("no bashcomp");
    assert_eq!(err, CompletionError::NoBashcomp);
    assert!(err.message().contains("no [bashcomp] configuration"));
}

#[test]
fn completion_errors_without_rhai_script() {
    let mut manifest = Manifest::simple("echo".to_string());
    manifest.bashcomp = Some(BashcompConfig {
        disabled: false,
        passthrough: false,
        script: None,
        rhai_script: None,
        rhai_function: None,
    });
    let err = completion_target(&manifest).expect_err("no script");
    assert!(err.message().contains("no bashcomp.rhai_script configured"));
}

#[test]
fn completion_function_uses_custom_function_name() {
    let mut manifest = Manifest::simple("echo".to_string());
    manifest.bashcomp = Some(BashcompConfig {
        disabled: false,
        passthrough: false,
        script: None,
        rhai_script: Some("/cfg/c.rhai".to_string()),
        rhai_function: Some("my_complete".to_string()),
    });
    let target = completion_target(&manifest).expect("target");
    assert_eq!(target.script, "/cfg/c.rhai");
    assert_eq!(target.function, "my_complete");
    manifest.bashcomp.as_mut().expect("bashcomp").rhai_function = None;
    assert_eq!(completion_target(&manifest).expect("target").function, "complete");
}

#[test]
fn completion_rejects_non_array_return() {
    assert_eq!(parse_candidates(&CompletionReply::Other), Err(CompletionError::NotAnArray));
}

#[test]
fn completion_rejects_non_string_elements() {
    let reply = CompletionReply::Array(vec![text("a"), ScriptValue::Other]);
    assert_eq!(parse_candidates(&reply), Err(CompletionError::NonStringCandidate));
}

#[test]
fn completion_skips_nul_byte_candidates() {
    let reply = CompletionReply::Array(vec![text("alpha"), text("bad\0"), text("beta")]);
    assert_eq!(parse_candidates(&reply).expect("candidates"), strings(&["alpha", "beta"]));
}

#[test]
fn completion_current_word_is_empty_past_the_end() {
    let words = strings(&["kpods", "lo"]);
    assert_eq!(completion_current_word(&words, 1), "lo");
    assert_eq!(completion_current_word(&words, 5), "");
}

// --- wrappers, cache, environment, PATH lookups ---------------------------------

#[test]
fn selects_first_candidate_directory_present_on_path() {
    let loc = resolve_wrapper_location(
        Some("/home/u"),
        "kpods",
        &vec![PathEntryMatch::Neither, PathEntryMatch::LocalBin, PathEntryMatch::HomeBin],
    )
    .expect("home");
    assert_eq!(loc.wrapper_dir, "/home/u/.local/bin");
    assert_eq!(loc.wrapper_path, "/home/u/.local/bin/kpods");
    assert!(loc.dir_in_path);
}

#[test]
fn falls_back_to_local_bin_when_candidates_are_missing_from_path() {
    let loc = resolve_wrapper_location(Some("/home/u"), "kpods", &vec![PathEntryMatch::Neither]).expect("home");
    assert_eq!(loc.wrapper_dir, "/home/u/.local/bin");
    assert!(!loc.dir_in_path);
    let err = resolve_wrapper_location(None, "kpods", &Vec::new()).expect_err("no home");
    assert_eq!(err, WrapperError::NoHome);
    assert!(err.message().contains("--no-wrapper-sync"));
}

#[test]
fn wrapper_health_warns_when_wrapper_is_shadowed() {
    let loc = WrapperLocation {
        wrapper_dir: "/home/u/bin".to_string(),
        wrapper_path: "/home/u/bin/kpods".to_string(),
        dir_in_path: true,
    };
    let warnings = wrapper_health_warnings(
        "kpods",
        &loc,
        &WrapperPathState::Symlink,
        &PathLookup::Found { path: "/usr/bin/kpods".to_string(), is_wrapper: false },
    );
    assert_eq!(warnings, strings(&["wrapper `/home/u/bin/kpods` is shadowed by `/usr/bin/kpods` earlier in PATH"]));
    let warnings = wrapper_health_warnings(
        "kpods",
        &WrapperLocation { dir_in_path: false, ..loc.clone() },
        &WrapperPathState::Missing,
        &PathLookup::NotFound,
    );
    assert_eq!(
        warnings,
        strings(&["wrapper dir `/home/u/bin` is not present in PATH", "no wrapper symlink found at `/home/u/bin/kpods`"])
    );
}

#[test]
fn wrapper_paths_only_replace_symlinks() {
    assert_eq!(prepare_wrapper_path("/w", &WrapperPathState::Symlink), Ok(true));
    assert_eq!(prepare_wrapper_path("/w", &WrapperPathState::Missing), Ok(false));
    let err = prepare_wrapper_path("/w", &WrapperPathState::NotSymlink).expect_err("file");
    assert_eq!(err.message(), "wrapper path `/w` exists and is not a symlink");
    let err = cleanup_wrapper_path("/w", &WrapperPathState::NotSymlink).expect_err("file");
    assert_eq!(err.message(), "wrapper cleanup only removes symlinks; `/w` is not a symlink");
    assert_eq!(cleanup_wrapper_path("/w", &WrapperPathState::Missing), Ok(false));
}

#[test]
fn cache_round_trip_and_invalidation() {
    let fp = SourceFingerprint { source_path: "/cfg/a.toml".to_string(), source_len: 14, source_modified_ns: 7 };
    let hit = cached_manifest(&fp, Manifest::simple("echo".to_string()), &fp.clone()).expect("cache hit");
    assert_eq!(hit.executable, "echo");
    let newer = SourceFingerprint { source_modified_ns: 8, ..fp.clone() };
    assert!(cached_manifest(&fp, Manifest::simple("echo".to_string()), &newer).is_none());
}

#[test]
fn cache_path_honors_chopper_cache_override() {
    let root = cache_root_dir(Some("  /tmp/cache  "), Some("/home/u/.cache/chopper"));
    assert_eq!(root, "/tmp/cache");
    assert_eq!(cache_file_path(&root, "demo"), "/tmp/cache/manifests/demo.bin");
    assert_eq!(cache_root_dir(Some(" "), None), ".chopper-cache");
    assert_eq!(alias_cache_file_name("a/b:c d\\e"), "a_b_c_d_e.bin");
}

#[test]
fn env_flag_enabled_interprets_truthy_values() {
    assert!(!flag_value_enabled(None));
    for v in ["1", "  1  ", " TRUE ", " YeS ", "on", " ON ", "\r\n1\r\n", "\r\nTrUe\r\n", "\u{00A0}TrUe\u{00A0}", "\r\n\u{00A0}TrUe\u{00A0}\r\n", "\r\nYeS\r\n", "\r\nOn\r\n"] {
        assert!(flag_value_enabled(Some(v)), "{v:?}");
    }
    assert!(!flag_value_enabled(Some("0")));
}

#[test]
fn env_flag_enabled_rejects_falsey_and_unknown_values() {
    for v in ["false", "\u{00A0}FaLsE\u{00A0}", "\r\nFaLsE\r\n", "\r\n0\r\n", " No ", "off", " OFF ", "\r\n   \r\n", "\r\n\t \r\n", "  ", "\t\t", "definitely-not", "\r\nmaybe\r\n", "ＴＲＵＥ", "\r\nＴＲＵＥ\r\n", "Ｔrue"] {
        assert!(!flag_value_enabled(Some(v)), "{v:?}");
    }
}

#[test]
fn env_path_override_requires_non_blank_value() {
    assert!(path_override_value(None).is_none());
    assert!(path_override_value(Some("   ")).is_none());
    assert_eq!(path_override_value(Some(" /tmp/chopper ")), Some("/tmp/chopper".to_string()));
    assert_eq!(
        path_override_value(Some("\n\t/tmp/chopper-mixed\t\n")),
        Some("/tmp/chopper-mixed".to_string())
    );
}

#[test]
fn env_path_override_preserves_symbolic_and_windows_like_shapes() {
    assert_eq!(
        path_override_value(Some("\n\t/tmp/chopper symbolic/@v1\t\n")),
        Some("/tmp/chopper symbolic/@v1".to_string())
    );
    assert_eq!(
        path_override_value(Some(r" C:\Users\me\AppData\Local\chopper ")),
        Some(r"C:\Users\me\AppData\Local\chopper".to_string())
    );
    assert_eq!(
        path_override_value(Some("./relative path/@v1")),
        Some("./relative path/@v1".to_string())
    );
    assert_eq!(
        path_override_value(Some(r" \\server\share\chopper symbolic\cache@v2 ")),
        Some(r"\\server\share\chopper symbolic\cache@v2".to_string())
    );
}

#[test]
fn skips_self_referential_wrapper_path_hits() {
    let me = FileIdentity { dev: 1, ino: 99 };
    let hits = Some(vec![
        ("/w/ghostty".to_string(), Some(me)),
        ("/real/ghostty".to_string(), Some(FileIdentity { dev: 1, ino: 5 })),
    ]);
    assert_eq!(resolve_command_path("ghostty", &hits, &vec![me]), "/real/ghostty");
}

#[test]
fn returns_first_hit_when_only_self_candidates_exist() {
    let me = FileIdentity { dev: 1, ino: 99 };
    let hits = Some(vec![("/w/ghostty".to_string(), Some(me))]);
    assert_eq!(resolve_command_path("ghostty", &hits, &vec![me]), "/w/ghostty");
    assert_eq!(resolve_command_path("ghostty", &None, &vec![me]), "ghostty");
    assert_eq!(resolve_command_path("ghostty", &Some(Vec::new()), &vec![me]), "ghostty");
}

#[test]
fn launcher_name_takes_first_hit() {
    let me = FileIdentity { dev: 1, ino: 99 };
    let hits = Some(vec![("/w/chopper".to_string(), Some(me)), ("/x/chopper".to_string(), None)]);
    assert!(is_direct_chopper_name("ChOpPeR"));
    assert_eq!(resolve_command_path("CHOPPER", &hits, &vec![me]), "/w/chopper");
}

#[test]
fn runnable_files_need_an_execute_bit() {
    assert!(chopper::script_requests::runnable_without_confirmation(true, 0o755));
    assert!(chopper::script_requests::runnable_without_confirmation(true, 0o001));
    assert!(!chopper::script_requests::runnable_without_confirmation(true, 0o644));
    assert!(!chopper::script_requests::runnable_without_confirmation(false, 0o755));
}
