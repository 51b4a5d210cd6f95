use args_filter::directives::compile_block;
use args_filter::errors::ConfigError;
use args_filter::registry::FilterRegistry;

fn stmt(tokens: &[&[u8]]) -> Vec<Vec<u8>> {
    tokens.iter().map(|t| t.to_vec()).collect()
}

#[test]
fn lookup_of_unregistered_name_is_none() {
    let registry = FilterRegistry::new();
    assert!(registry.lookup(b"filtered_args").is_none());
    assert!(registry.evaluate(b"filtered_args", b"a=1").is_none());
}

#[test]
fn register_and_lookup_round_trip() {
    let mut registry = FilterRegistry::new();
    let def = compile_block(&[stmt(&[b"initial", b"all"])]).unwrap();
    registry.register(b"filtered_args".to_vec(), def).unwrap();
    assert!(registry.contains(b"filtered_args"));
    let found = registry.lookup(b"filtered_args").unwrap();
    assert!(found.is_identity_filter());
}

#[test]
fn duplicate_registration_is_rejected() {
    let mut registry = FilterRegistry::new();
    registry
        .compile_and_register(b"$filtered_args", &[stmt(&[b"initial", b"all"])])
        .unwrap();
    let err = registry
        .compile_and_register(b"$filtered_args", &[stmt(&[b"initial", b"none"])])
        .unwrap_err();
    assert_eq!(err, ConfigError::DuplicateVariable);
    // The first definition stays as registered.
    assert!(registry.lookup(b"filtered_args").unwrap().is_identity_filter());
}

#[test]
fn block_error_leaves_registry_unchanged() {
    let mut registry = FilterRegistry::new();
    let err = registry
        .compile_and_register(b"$broken", &[stmt(&[b"include", b"~", b"("])])
        .unwrap_err();
    assert!(matches!(err, ConfigError::RegexCompile(_)));
    assert!(!registry.contains(b"broken"));
}

#[test]
fn registered_name_is_normalized_to_lowercase() {
    let mut registry = FilterRegistry::new();
    registry
        .compile_and_register(b"$Filtered_Args", &[stmt(&[b"initial", b"all"])])
        .unwrap();
    assert!(registry.contains(b"filtered_args"));
    assert!(!registry.contains(b"Filtered_Args"));
}

#[test]
fn identity_fast_path_returns_input_unchanged() {
    let mut registry = FilterRegistry::new();
    registry
        .compile_and_register(b"$all_args", &[stmt(&[b"initial", b"all"])])
        .unwrap();
    let out = registry.evaluate(b"all_args", b"a=1&b=%2B&c").unwrap();
    assert_eq!(out, b"a=1&b=%2B&c");
    // Even empty segments pass through untouched on the fast path.
    let out = registry.evaluate(b"all_args", b"&&a&&").unwrap();
    assert_eq!(out, b"&&a&&");
}

#[test]
fn evaluation_filters_by_the_registered_definition() {
    let mut registry = FilterRegistry::new();
    registry
        .compile_and_register(
            b"$kept",
            &[stmt(&[b"initial", b"none"]), stmt(&[b"include", b"a"])],
        )
        .unwrap();
    let out = registry.evaluate(b"kept", b"a=1&b=2").unwrap();
    assert_eq!(out, b"a=1");
    let out = registry.evaluate(b"kept", b"b=2").unwrap();
    assert_eq!(out, b"");
}

#[test]
fn volatile_flag_is_visible_through_lookup() {
    let mut registry = FilterRegistry::new();
    registry
        .compile_and_register(
            b"$nocache",
            &[stmt(&[b"volatile"]), stmt(&[b"include", b"keep"])],
        )
        .unwrap();
    assert!(registry.lookup(b"nocache").unwrap().volatile);
    let out = registry.evaluate(b"nocache", b"keep=1&drop=2").unwrap();
    assert_eq!(out, b"keep=1");
}
