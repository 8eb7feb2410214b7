use ellipsis::config::{Config, VariableResolutionError};

fn config_with_vars(vars: Vec<(&str, &str)>) -> Config {
    Config {
        vars: vars
            .into_iter()
            .map(|(k, v)| (k.to_string(), v.to_string()))
            .collect(),
        hosts: Vec::new(),
        tasks: Vec::new(),
    }
}

#[test]
fn resolve_variable_string_replaces_correctly() {
    let mut config_vars: Vec<(String, String)> = Vec::new();
    config_vars.push(("foo".into(), "/usr/bin/foo".into()));
    config_vars.push(("bar".into(), "/home/bar/.config".into()));
    config_vars.push(("baz".into(), "brew install cargo".into()));

    let config = Config {
        vars: config_vars,
        hosts: Vec::new(),
        tasks: Vec::new(),
    };

    assert_eq!(
        config
            .resolve_variable_string("{{foo}}/bar/baz".into())
            .unwrap(),
        "/usr/bin/foo/bar/baz"
    );

    assert_eq!(
        config
            .resolve_variable_string("{{foo}}/qqq{{bar}}".into())
            .unwrap(),
        "/usr/bin/foo/qqq/home/bar/.config"
    );
}

#[test]
fn strings_without_placeholders_pass_through_unchanged() {
    let config = config_with_vars(vec![("foo", "/usr/bin/foo")]);
    for text in [
        "",
        "plain text",
        "a{b}c",
        "{single} braces {everywhere}",
        "{{}}",
        "{{unclosed",
        "closed}}",
        "{{no closing brace",
        "{{a-b}}",
    ] {
        assert_eq!(
            config.resolve_variable_string(text.to_string()).unwrap(),
            text
        );
    }
}

#[test]
fn undefined_variable_fails_with_its_name() {
    let config = config_with_vars(vec![("foo", "/usr/bin/foo")]);
    match config.resolve_variable_string("{{foo}}/{{missing}}".to_string()) {
        Err(VariableResolutionError::UndefinedVariable(name)) => {
            assert_eq!(name, "missing");
        }
        other => panic!("expected an undefined-variable error, got {:?}", other),
    }
    // The whole call fails: no partially substituted string comes back.
    match config.resolve_variable_string("{{absent}} then {{foo}}".to_string()) {
        Err(VariableResolutionError::UndefinedVariable(name)) => {
            assert_eq!(name, "absent");
        }
        other => panic!("expected an undefined-variable error, got {:?}", other),
    }
}

#[test]
fn nested_variables_resolve_across_passes() {
    let config = config_with_vars(vec![("a", "{{b}}"), ("b", "x")]);
    assert_eq!(
        config.resolve_variable_string("{{a}}".to_string()).unwrap(),
        "x"
    );
}

#[test]
fn deeply_nested_variables_resolve() {
    let config = config_with_vars(vec![("a", "{{b}}/1"), ("b", "{{c}}/2"), ("c", "root")]);
    assert_eq!(
        config
            .resolve_variable_string("{{a}}".to_string())
            .unwrap(),
        "root/2/1"
    );
}

#[test]
fn circular_variables_are_reported_not_looped() {
    let config = config_with_vars(vec![("a", "{{b}}"), ("b", "{{a}}")]);
    assert!(matches!(
        config.resolve_variable_string("{{a}}".to_string()),
        Err(VariableResolutionError::CircularVariableReference(_))
    ));
}

#[test]
fn placeholders_resolve_left_to_right() {
    let config = config_with_vars(vec![("a", "1"), ("b", "2")]);
    assert_eq!(
        config
            .resolve_variable_string("{{a}}{{b}}{{a}}".to_string())
            .unwrap(),
        "121"
    );
}

#[test]
fn variable_resolution_error_messages() {
    let undefined = VariableResolutionError::UndefinedVariable("foo".to_string());
    assert_eq!(undefined.message(), "Undefined variable: foo");
    let circular = VariableResolutionError::CircularVariableReference("a".to_string());
    assert_eq!(circular.message(), "Circular variable reference: a");
}
