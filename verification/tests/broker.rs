use chopper::broker::dbus_interface::{should_enforce_namespace_limit, BrokerRefusal, JournalBroker};
use chopper::broker::options::{parse_action, BrokerAction};
use chopper::broker::policy::{
    clamp_journal_options, count_namespace_dirs, parse_and_clamp_size, validate_namespace_ownership,
    JournalDropInConfig, MAX_NAMESPACES_PER_UID, MAX_RATE_LIMIT_BURST, MIN_RATE_LIMIT_INTERVAL_USEC,
};
use chopper::broker::systemd::{
    dropin_dir_path, dropin_file_paths, namespace_runtime_dir, namespace_socket_units,
    render_dropin_content,
};
use chopper::env_map::StringMap;
use chopper::journal_broker_client::JournalPolicyOptions;

fn options(pairs: &[(&str, &str)]) -> StringMap {
    let mut m = StringMap::new();
    for (k, v) in pairs {
        m.insert(k.to_string(), v.to_string());
    }
    m
}

#[test]
fn namespace_limit_enforced_for_new_namespace_at_limit() {
    assert!(should_enforce_namespace_limit(MAX_NAMESPACES_PER_UID, false));
}

#[test]
fn namespace_limit_not_enforced_for_existing_namespace_at_limit() {
    assert!(!should_enforce_namespace_limit(MAX_NAMESPACES_PER_UID, true));
}

#[test]
fn namespace_limit_not_enforced_below_limit() {
    assert!(!should_enforce_namespace_limit(MAX_NAMESPACES_PER_UID - 1, false));
}

#[test]
fn ownership_validation_accepts_matching_uid() {
    validate_namespace_ownership("u1000-alice-ops", 1000).expect("should accept");
}

#[test]
fn ownership_validation_rejects_mismatching_uid() {
    let err = validate_namespace_ownership("u1000-alice-ops", 1001)
        .expect_err("should reject wrong uid");
    assert!(err.message().contains("not owned by UID 1001"), "{}", err.message());
}

#[test]
fn ownership_validation_rejects_empty_logical_name() {
    let err = validate_namespace_ownership("u1000-", 1000).expect_err("should reject empty suffix");
    assert!(err.message().contains("no logical name"), "{}", err.message());
}

#[test]
fn ownership_validation_rejects_nul_bytes() {
    let err = validate_namespace_ownership("u1000-alice\0ops", 1000).expect_err("should reject NUL");
    assert!(err.message().contains("NUL"), "{}", err.message());
}

#[test]
fn ownership_message_names_expected_prefix() {
    let err = validate_namespace_ownership("u1000-alice-ops", 42).expect_err("wrong uid");
    assert_eq!(
        err.message(),
        "namespace `u1000-alice-ops` is not owned by UID 42; expected prefix `u42-`"
    );
}

#[test]
fn clamp_options_uses_defaults_when_empty() {
    let config = clamp_journal_options(&StringMap::new());
    assert_eq!(config, JournalDropInConfig::default());
}

#[test]
fn clamp_options_parses_and_clamps_max_use() {
    let config = clamp_journal_options(&options(&[("max_use", "1G")]));
    assert_eq!(config.system_max_use, "512M");
}

#[test]
fn clamp_options_accepts_value_within_limit() {
    let config = clamp_journal_options(&options(&[("max_use", "128M")]));
    assert_eq!(config.system_max_use, "128M");
}

#[test]
fn clamp_options_clamps_rate_limit_burst() {
    let config = clamp_journal_options(&options(&[("rate_limit_burst", "99999")]));
    assert_eq!(config.rate_limit_burst, MAX_RATE_LIMIT_BURST);
}

#[test]
fn clamp_options_clamps_rate_limit_interval() {
    let config = clamp_journal_options(&options(&[("rate_limit_interval_usec", "100")]));
    assert_eq!(config.rate_limit_interval_usec, MIN_RATE_LIMIT_INTERVAL_USEC);
}

#[test]
fn clamp_options_ignores_invalid_values() {
    let config = clamp_journal_options(&options(&[
        ("max_use", "not-a-number"),
        ("rate_limit_burst", "abc"),
    ]));
    assert_eq!(config, JournalDropInConfig::default());
}

#[test]
fn parse_size_accepts_various_units() {
    assert_eq!(parse_and_clamp_size("256M", u64::MAX), Some("256M".to_string()));
    assert_eq!(parse_and_clamp_size("1G", u64::MAX), Some("1G".to_string()));
    assert_eq!(parse_and_clamp_size("1024K", u64::MAX), Some("1M".to_string()));
    assert_eq!(parse_and_clamp_size("1048576", u64::MAX), Some("1M".to_string()));
}

#[test]
fn parse_size_rejects_zero_and_empty() {
    assert_eq!(parse_and_clamp_size("0M", u64::MAX), None);
    assert_eq!(parse_and_clamp_size("", u64::MAX), None);
}

#[test]
fn parse_size_keeps_bytes_that_are_not_whole_units() {
    assert_eq!(parse_and_clamp_size("1000", u64::MAX), Some("1000".to_string()));
}

#[test]
fn render_dropin_produces_valid_journal_section() {
    let config = JournalDropInConfig {
        system_max_use: "128M".to_string(),
        rate_limit_interval_usec: 30_000_000,
        rate_limit_burst: 1000,
    };
    let content = render_dropin_content(&config);
    assert!(content.contains("[Journal]"), "{content}");
    assert!(content.contains("SystemMaxUse=128M"), "{content}");
    assert!(content.contains("RateLimitIntervalSec=30s"), "{content}");
    assert!(content.contains("RateLimitBurst=1000"), "{content}");
}

#[test]
fn render_dropin_uses_microseconds_for_sub_second_intervals() {
    let config = JournalDropInConfig {
        system_max_use: "64M".to_string(),
        rate_limit_interval_usec: 500_000,
        rate_limit_burst: 100,
    };
    let content = render_dropin_content(&config);
    assert!(content.contains("RateLimitIntervalSec=500000us"), "{content}");
}

#[test]
fn dropin_dir_path_constructs_correct_path() {
    let path = dropin_dir_path("u1000-alice-ops");
    assert_eq!(path, "/run/systemd/journald@u1000-alice-ops.conf.d");
}

#[test]
fn dropin_files_and_units_are_named_after_the_namespace() {
    let (target, tmp) = dropin_file_paths("ops");
    assert_eq!(target, "/run/systemd/journald@ops.conf.d/chopper.conf");
    assert_eq!(tmp, "/run/systemd/journald@ops.conf.d/.chopper.conf.tmp");
    assert_eq!(namespace_runtime_dir("ops"), "/run/systemd/journal.ops");
    let (socket, varlink) = namespace_socket_units("ops");
    assert_eq!(socket, "systemd-journald@ops.socket");
    assert_eq!(varlink, "systemd-journald-varlink@ops.socket");
}

#[test]
fn namespace_dirs_are_counted_per_uid() {
    let names: Vec<String> = ["journal.u1000-a", "journal.u1000-b", "journal.u1001-c", "other"]
        .iter()
        .map(|s| s.to_string())
        .collect();
    assert_eq!(count_namespace_dirs(&names, 1000), 2);
    assert_eq!(count_namespace_dirs(&names, 1001), 1);
    assert_eq!(count_namespace_dirs(&names, 7), 0);
}

#[test]
fn broker_refuses_foreign_namespace_and_full_quota() {
    let broker = JournalBroker;
    assert!(broker.check_ownership("u1000-alice-ops", 1000).is_ok());
    assert!(matches!(
        broker.check_ownership("u1000-alice-ops", 1001),
        Err(BrokerRefusal::AccessDenied(_))
    ));
    assert!(broker.check_limit(1000, MAX_NAMESPACES_PER_UID, true).is_ok());
    assert!(matches!(
        broker.check_limit(1000, MAX_NAMESPACES_PER_UID, false),
        Err(BrokerRefusal::LimitsExceeded(_))
    ));
}

#[test]
fn policy_options_to_dbus_dict_includes_present_fields() {
    let opts = JournalPolicyOptions {
        max_use: Some("256M".into()),
        rate_limit_interval_usec: Some(30_000_000),
        rate_limit_burst: Some(500),
    };
    let dict = opts.to_dbus_options();
    assert_eq!(dict.get("max_use"), Some(&"256M".to_string()));
    assert_eq!(dict.get("rate_limit_interval_usec"), Some(&"30000000".to_string()));
    assert_eq!(dict.get("rate_limit_burst"), Some(&"500".to_string()));
}

#[test]
fn policy_options_to_dbus_dict_omits_none_fields() {
    let opts = JournalPolicyOptions::default();
    let dict = opts.to_dbus_options();
    assert!(dict.is_empty());
}

#[test]
fn policy_options_to_dbus_dict_partial_fields() {
    let opts = JournalPolicyOptions {
        max_use: Some("64M".into()),
        rate_limit_interval_usec: None,
        rate_limit_burst: None,
    };
    let dict = opts.to_dbus_options();
    assert_eq!(dict.len(), 1);
    assert_eq!(dict.get("max_use"), Some(&"64M".to_string()));
}

fn argv(raw: &[&str]) -> Vec<String> {
    raw.iter().map(|s| s.to_string()).collect()
}

#[test]
fn help_short_circuits_before_run() {
    assert_eq!(parse_action(&argv(&["chopper-journal-broker", "-h"])), BrokerAction::Help);
}

#[test]
fn version_long_circuits_before_run() {
    assert_eq!(
        parse_action(&argv(&["chopper-journal-broker", "--version"])),
        BrokerAction::Version
    );
}

#[test]
fn verbose_runs_broker() {
    assert_eq!(
        parse_action(&argv(&["chopper-journal-broker", "--verbose"])),
        BrokerAction::Run { verbose: true }
    );
}

#[test]
fn help_wins_over_verbose() {
    assert_eq!(
        parse_action(&argv(&["chopper-journal-broker", "--verbose", "--help"])),
        BrokerAction::Help
    );
}

#[test]
fn unknown_args_are_ignored_for_now() {
    assert_eq!(
        parse_action(&argv(&["chopper-journal-broker", "--mystery"])),
        BrokerAction::Run { verbose: false }
    );
}

#[test]
fn broker_refusal_carries_ownership_message() {
    let broker = JournalBroker;
    match broker.check_ownership("u7-x", 8) {
        Err(BrokerRefusal::AccessDenied(m)) => assert_eq!(
            m,
            "namespace ownership check failed: namespace `u7-x` is not owned by UID 8; expected prefix `u8-`"
        ),
        other => panic!("unexpected {other:?}"),
    }
}
