use chopper::alias_validation::{validate_alias_identifier, AliasViolation};
use chopper::arg_validation::{validate_arg_value, ArgViolation};
use chopper::env_validation::{validate_env_key, validate_env_value, EnvKeyViolation, EnvValueViolation};
use chopper::path_mutation_validation::{validate_path_mutation_value, PathMutationViolation};
use chopper::path_validation::{ends_with_dot_component, has_meaningful_relative_segment};
use chopper::string_validation::{reject_nul, StringViolation};

#[test]
fn validator_accepts_typical_alias_identifiers() {
    assert!(validate_alias_identifier("deploy.prod").is_ok());
    assert!(validate_alias_identifier("alpha:beta").is_ok());
    assert!(validate_alias_identifier("emoji🚀").is_ok());
}

#[test]
fn validator_rejects_whitespace_and_pathlike_aliases() {
    let whitespace = validate_alias_identifier("bad alias")
        .expect_err("whitespace aliases should be rejected");
    assert_eq!(whitespace, AliasViolation::ContainsWhitespace);

    let pathlike = validate_alias_identifier("bad/alias")
        .expect_err("path-like aliases should be rejected");
    assert_eq!(pathlike, AliasViolation::ContainsPathSeparator);
}

#[test]
fn validator_rejects_flag_and_separator_aliases() {
    let separator = validate_alias_identifier("--").expect_err("separator should be rejected");
    assert_eq!(separator, AliasViolation::IsSeparator);

    let flaglike = validate_alias_identifier("-alias")
        .expect_err("dash-prefixed aliases should be rejected");
    assert_eq!(flaglike, AliasViolation::StartsWithDash);
}

#[test]
fn validator_rejects_empty_nul_and_dot_aliases() {
    assert_eq!(validate_alias_identifier(""), Err(AliasViolation::Empty));
    assert_eq!(validate_alias_identifier("a\0b"), Err(AliasViolation::ContainsNul));
    assert_eq!(validate_alias_identifier(".."), Err(AliasViolation::IsDotToken));
    assert_eq!(validate_alias_identifier("bad\\alias"), Err(AliasViolation::ContainsPathSeparator));
}

#[test]
fn arg_validator_accepts_empty_and_unicode_values() {
    assert!(validate_arg_value("").is_ok());
    assert!(validate_arg_value("emoji🚀").is_ok());
    assert!(validate_arg_value(" spaced value ").is_ok());
}

#[test]
fn arg_validator_accepts_symbolic_and_pathlike_values() {
    assert!(validate_arg_value("--flag=value").is_ok());
    assert!(validate_arg_value("../relative/path").is_ok());
    assert!(validate_arg_value("semi;colon&and").is_ok());
    assert!(validate_arg_value("$DOLLAR").is_ok());
    assert!(validate_arg_value("brace{value}").is_ok());
    assert!(validate_arg_value(r"windows\path").is_ok());
}

#[test]
fn arg_validator_rejects_nul_byte() {
    let err = validate_arg_value("bad\0arg").expect_err("expected invalid arg");
    assert_eq!(err, ArgViolation::ContainsNul);
}

#[test]
fn env_key_validator_accepts_typical_keys() {
    assert!(validate_env_key("CHOPPER_KEY").is_ok());
    assert!(validate_env_key("_chopper42").is_ok());
}

#[test]
fn env_value_validator_accepts_empty_and_unicode_values() {
    assert!(validate_env_value("").is_ok());
    assert!(validate_env_value("value with spaces").is_ok());
    assert!(validate_env_value("emoji🚀").is_ok());
}

#[test]
fn env_value_validator_accepts_symbolic_and_pathlike_values() {
    assert!(validate_env_value("--flag=value").is_ok());
    assert!(validate_env_value("../relative/path").is_ok());
    assert!(validate_env_value("semi;colon&and").is_ok());
    assert!(validate_env_value("$DOLLAR").is_ok());
    assert!(validate_env_value("brace{value}").is_ok());
    assert!(validate_env_value(r"windows\path").is_ok());
}

#[test]
fn env_key_validator_rejects_equals_sign() {
    let err = validate_env_key("BAD=KEY").expect_err("expected invalid key");
    assert_eq!(err, EnvKeyViolation::ContainsEquals);
}

#[test]
fn env_key_validator_rejects_nul_byte() {
    let err = validate_env_key("BAD\0KEY").expect_err("expected invalid key");
    assert_eq!(err, EnvKeyViolation::ContainsNul);
}

#[test]
fn env_value_validator_rejects_nul_byte() {
    let err = validate_env_value("bad\0value").expect_err("expected invalid value");
    assert_eq!(err, EnvValueViolation::ContainsNul);
}

#[test]
fn reject_nul_accepts_plain_text() {
    assert_eq!(reject_nul("plain"), Ok(()));
    assert_eq!(reject_nul("emoji🚀"), Ok(()));
}

#[test]
fn reject_nul_rejects_nul_bytes() {
    assert_eq!(reject_nul("bad\0value"), Err(StringViolation::ContainsNul));
}

#[test]
fn relative_segment_requires_real_path_component() {
    assert!(!has_meaningful_relative_segment("."));
    assert!(!has_meaningful_relative_segment("../.."));
    assert!(has_meaningful_relative_segment("./scripts/run"));
}

#[test]
fn dot_component_detection_only_checks_trailing_segment() {
    assert!(ends_with_dot_component("scripts/."));
    assert!(ends_with_dot_component("scripts/.."));
    assert!(!ends_with_dot_component("scripts/run"));
}

#[test]
fn path_mutation_values_reject_nul_bytes() {
    assert_eq!(
        validate_path_mutation_value("bad\0value"),
        Err(PathMutationViolation::ContainsNul)
    );
}

#[test]
fn path_mutation_values_allow_blank_and_symbolic_content() {
    assert!(validate_path_mutation_value("").is_ok());
    assert!(validate_path_mutation_value(r"~/bin:@weird ${PATH}").is_ok());
}
