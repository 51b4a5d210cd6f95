use args_filter::directives::compile_block;
use args_filter::rules::{ArgsFilterDef, InitialPolicy};

fn stmt(tokens: &[&[u8]]) -> Vec<Vec<u8>> {
    tokens.iter().map(|t| t.to_vec()).collect()
}

fn compiled(statements: &[Vec<Vec<u8>>]) -> ArgsFilterDef {
    compile_block(statements).expect("expected the block to be accepted")
}

#[test]
fn later_rule_overrides_earlier_rule_on_same_key() {
    let mut def = ArgsFilterDef::new();
    def.add_exclude_literal(b"k".to_vec());
    def.add_include_literal(b"k".to_vec());
    assert!(def.should_keep_key(b"k"));

    let mut def = ArgsFilterDef::new();
    def.add_include_literal(b"k".to_vec());
    def.add_exclude_literal(b"k".to_vec());
    assert!(!def.should_keep_key(b"k"));
}

#[test]
fn key_matching_no_rule_keeps_initial_policy() {
    let mut def = ArgsFilterDef::new();
    def.add_include_literal(b"a".to_vec());
    assert!(!def.should_keep_key(b"b"));

    let mut def = compiled(&[stmt(&[b"initial", b"all"])]);
    def.add_exclude_literal(b"a".to_vec());
    assert!(def.should_keep_key(b"b"));
    assert!(!def.should_keep_key(b"a"));
}

#[test]
fn default_definition_keeps_nothing_and_is_not_identity() {
    let def = ArgsFilterDef::new();
    assert_eq!(def.initial, InitialPolicy::KeepNone);
    assert!(!def.should_keep_key(b"anything"));
    assert!(!def.is_identity_filter());
}

#[test]
fn initial_all_with_no_rules_is_identity() {
    let def = compiled(&[stmt(&[b"initial", b"all"])]);
    assert!(def.is_identity_filter());

    let def = compiled(&[stmt(&[b"initial", b"all"]), stmt(&[b"exclude", b"a"])]);
    assert!(!def.is_identity_filter());
}

#[test]
fn regex_rule_matches_raw_key_bytes() {
    let mut def = ArgsFilterDef::new();
    def.add_include_regex(b"^ads\\.", false).unwrap();
    assert!(def.should_keep_key(b"ads.foo"));
    assert!(!def.should_keep_key(b"xads.foo"));
    assert!(!def.should_keep_key(b"ads"));
}

#[test]
fn regex_case_sensitivity_follows_operator() {
    let mut sensitive = ArgsFilterDef::new();
    sensitive.add_include_regex(b"^ADS\\.", false).unwrap();
    assert!(sensitive.should_keep_key(b"ADS.x"));
    assert!(!sensitive.should_keep_key(b"ads.x"));

    let insensitive = compiled(&[stmt(&[b"include", b"~*", b"^ADS\\."])]);
    assert!(insensitive.should_keep_key(b"ads.x"));
    assert!(insensitive.should_keep_key(b"ADS.x"));
}

#[test]
fn volatile_directive_sets_flag_and_is_idempotent() {
    let def = compiled(&[stmt(&[b"volatile"])]);
    assert!(def.volatile);
    let def = compiled(&[stmt(&[b"volatile"]), stmt(&[b"volatile"])]);
    assert!(def.volatile);
    let def = compiled(&[stmt(&[b"initial", b"all"])]);
    assert!(!def.volatile);
}

#[test]
fn initial_all_with_exclude_and_include_override() {
    let def = compiled(&[
        stmt(&[b"initial", b"all"]),
        stmt(&[b"exclude", b"~", b"^ads\\."]),
        stmt(&[b"include", b"ads.test"]),
    ]);
    let out = def.filter_args(b"x=1&ads.foo=2&ads.test=3&y=4");
    assert_eq!(out, b"x=1&ads.test=3&y=4");
}

#[test]
fn initial_none_with_include_and_exclude_override() {
    let def = compiled(&[
        stmt(&[b"initial", b"none"]),
        stmt(&[b"include", b"~", b"^ads\\."]),
        stmt(&[b"include", b"y"]),
        stmt(&[b"exclude", b"ads.test"]),
    ]);
    let out = def.filter_args(b"x=1&ads.foo=2&ads.test=3&y=4");
    assert_eq!(out, b"ads.foo=2&y=4");
}

#[test]
fn initial_none_with_includes() {
    let def = compiled(&[
        stmt(&[b"initial", b"none"]),
        stmt(&[b"include", b"a"]),
        stmt(&[b"include", b"b"]),
    ]);
    let out = def.filter_args(b"a=1&c=3&b=2");
    assert_eq!(out, b"a=1&b=2");
}

#[test]
fn array_style_keys_preserve_all_values_and_order() {
    let def = compiled(&[stmt(&[b"initial", b"none"]), stmt(&[b"include", b"test[]"])]);
    let out = def.filter_args(b"a=0&test[]=1&b=2&test[]=3&test[]=4");
    assert_eq!(out, b"test[]=1&test[]=3&test[]=4");
}

#[test]
fn mixed_literal_and_regex_keeps_original_order() {
    let def = compiled(&[
        stmt(&[b"initial", b"none"]),
        stmt(&[b"include", b"~", b"^test\\[\\]$"]),
        stmt(&[b"include", b"y"]),
        stmt(&[b"exclude", b"test[]"]),
        stmt(&[b"include", b"test[]"]),
    ]);
    let out = def.filter_args(b"x=1&test[]=1&y=2&test[]=3&z=4");
    assert_eq!(out, b"test[]=1&y=2&test[]=3");
}
