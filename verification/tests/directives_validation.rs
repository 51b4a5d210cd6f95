use args_filter::directives::{apply_directive, compile_block, parse_variable_name};
use args_filter::errors::ConfigError;
use args_filter::rules::ArgsFilterDef;

fn stmt(tokens: &[&[u8]]) -> Vec<Vec<u8>> {
    tokens.iter().map(|t| t.to_vec()).collect()
}

fn compile_err(statements: &[Vec<Vec<u8>>]) -> ConfigError {
    compile_block(statements).expect_err("expected the block to be rejected")
}

#[test]
fn variable_must_start_with_dollar() {
    let err = parse_variable_name(b"filtered_args").unwrap_err();
    assert_eq!(err, ConfigError::VariableMissingDollar);
    assert_eq!(err.message(), "args_filter variable must start with '$'");
}

#[test]
fn variable_name_cannot_be_empty() {
    let err = parse_variable_name(b"$").unwrap_err();
    assert_eq!(err, ConfigError::VariableNameEmpty);
    assert_eq!(err.message(), "args_filter variable name cannot be empty");
}

#[test]
fn variable_name_rejects_invalid_characters() {
    let err = parse_variable_name(b"$filtered-args").unwrap_err();
    assert_eq!(err, ConfigError::VariableNameInvalidChars);
    assert_eq!(
        err.message(),
        "args_filter variable name contains invalid characters"
    );
}

#[test]
fn variable_name_is_lowercased() {
    let name = parse_variable_name(b"$Filtered_Args9").unwrap();
    assert_eq!(name, b"filtered_args9");
}

#[test]
fn initial_directive_duplicate_is_rejected() {
    let err = compile_err(&[stmt(&[b"initial", b"all"]), stmt(&[b"initial", b"none"])]);
    assert_eq!(err, ConfigError::DuplicateInitial);
    assert_eq!(err.message(), "\"initial\" directive is duplicate");
}

#[test]
fn initial_value_must_be_all_or_none() {
    let err = compile_err(&[stmt(&[b"initial", b"maybe"])]);
    assert_eq!(err, ConfigError::InitialBadValue);
    assert_eq!(err.message(), "\"initial\" must be \"all\" or \"none\"");
}

#[test]
fn initial_wrong_arity_is_rejected() {
    let err = compile_err(&[stmt(&[b"initial"])]);
    assert_eq!(err, ConfigError::InitialArity);
    assert_eq!(
        err.message(),
        "invalid number of arguments in \"initial\" directive"
    );
    let err = compile_err(&[stmt(&[b"initial", b"all", b"none"])]);
    assert_eq!(err, ConfigError::InitialArity);
}

#[test]
fn include_mode_must_be_regex_operator_when_three_args() {
    let err = compile_err(&[stmt(&[b"initial", b"all"]), stmt(&[b"include", b"equals", b"^x$"])]);
    assert_eq!(err, ConfigError::IncludeBadOperator);
    assert_eq!(err.message(), "\"include\" expects literal, \"~\", or \"~*\"");
}

#[test]
fn exclude_mode_must_be_regex_operator_when_three_args() {
    let err = compile_err(&[stmt(&[b"initial", b"all"]), stmt(&[b"exclude", b"equals", b"^x$"])]);
    assert_eq!(err, ConfigError::ExcludeBadOperator);
    assert_eq!(err.message(), "\"exclude\" expects literal, \"~\", or \"~*\"");
}

#[test]
fn exclude_regex_must_compile() {
    let err = compile_err(&[stmt(&[b"initial", b"all"]), stmt(&[b"exclude", b"~", b"("])]);
    assert_eq!(err.message(), "failed to compile regex:");
    match err {
        ConfigError::RegexCompile(diag) => assert!(!diag.is_empty()),
        other => panic!("expected a regex compile failure, got {:?}", other),
    }
}

#[test]
fn include_regex_must_compile() {
    let err = compile_err(&[stmt(&[b"include", b"~*", b"["])]);
    assert!(matches!(err, ConfigError::RegexCompile(_)));
}

#[test]
fn unknown_nested_directive_is_rejected() {
    let err = compile_err(&[stmt(&[b"initial", b"all"]), stmt(&[b"unknown_rule", b"x"])]);
    assert_eq!(err, ConfigError::UnknownDirective);
    assert_eq!(err.message(), "unknown directive inside args_filter block");
}

#[test]
fn include_wrong_arity_is_rejected() {
    let err = compile_err(&[stmt(&[b"initial", b"all"]), stmt(&[b"include"])]);
    assert_eq!(err, ConfigError::IncludeArity);
    assert_eq!(
        err.message(),
        "invalid number of arguments in \"include\" directive"
    );
}

#[test]
fn exclude_wrong_arity_is_rejected() {
    let err = compile_err(&[stmt(&[b"initial", b"all"]), stmt(&[b"exclude"])]);
    assert_eq!(err, ConfigError::ExcludeArity);
    assert_eq!(
        err.message(),
        "invalid number of arguments in \"exclude\" directive"
    );
}

#[test]
fn volatile_wrong_arity_is_rejected() {
    let err = compile_err(&[stmt(&[b"initial", b"all"]), stmt(&[b"volatile", b"on"])]);
    assert_eq!(err, ConfigError::VolatileArity);
    assert_eq!(
        err.message(),
        "invalid number of arguments in \"volatile\" directive"
    );
}

#[test]
fn error_in_block_leaves_definition_unchanged() {
    let mut def = ArgsFilterDef::new();
    let bad = stmt(&[b"include", b"~", b"("]);
    let err = apply_directive(&mut def, &bad).unwrap_err();
    assert!(matches!(err, ConfigError::RegexCompile(_)));
    assert!(def.rules.is_empty());
    assert!(!def.initial_set);
}

#[test]
fn valid_block_builds_expected_definition() {
    let def = compile_block(&[
        stmt(&[b"initial", b"all"]),
        stmt(&[b"volatile"]),
        stmt(&[b"exclude", b"~", b"^ads\\."]),
        stmt(&[b"include", b"ads.test"]),
    ])
    .unwrap();
    assert!(def.initial_set);
    assert!(def.volatile);
    assert_eq!(def.rules.len(), 2);
    assert!(!def.is_identity_filter());
}
