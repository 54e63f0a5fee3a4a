use bsh::lang::parser::ast::{Command, Redirect, RedirectInstruction, Redirectee};
use bsh::lang::variable_expansion::{expand_variables, expand_variables_word, VariableExpander};

#[test]
fn test_home_dir_expansion() {
    let command = Command::Simple {
        words: vec!["cmd1".to_string(), "~".to_string()],
        redirects: vec![Redirect {
            redirector: None,
            instruction: RedirectInstruction::Output,
            redirectee: Redirectee::Filename("~".to_string()),
        }],
        background: false,
    };

    let expected_home_dir = "MockHomeDir".to_string();
    assert_eq!(
        expand_variables(&command, Some(expected_home_dir.clone()), Vec::new()),
        Command::Simple {
            words: vec!["cmd1".to_string(), expected_home_dir.clone()],
            redirects: vec![Redirect {
                redirector: None,
                instruction: RedirectInstruction::Output,
                redirectee: Redirectee::Filename(expected_home_dir)
            }],
            background: false,
        }
    );
}

#[test]
fn test_env_var_expansion() {
    let key = "KEY_ENV_VAR_EXPANSION".to_string();
    let value = "test".to_string();
    let command = Command::Simple {
        words: vec!["cmd1".to_string(), format!("${}", key)],
        redirects: vec![Redirect {
            redirector: None,
            instruction: RedirectInstruction::Output,
            redirectee: Redirectee::Filename(format!("${}", key)),
        }],
        background: false,
    };

    let vars = vec![(key, value.clone())];
    assert_eq!(
        expand_variables(&command, None, vars),
        Command::Simple {
            words: vec!["cmd1".to_string(), value.clone()],
            redirects: vec![Redirect {
                redirector: None,
                instruction: RedirectInstruction::Output,
                redirectee: Redirectee::Filename(value),
            }],
            background: false,
        }
    );
}

#[test]
fn unknown_names_expand_to_nothing() {
    let vars = vec![("A".to_string(), "1".to_string())];
    assert_eq!(expand_variables_word("$B", &None, &vars), "");
    assert_eq!(expand_variables_word("~", &None, &vars), "");
    assert_eq!(expand_variables_word("$A", &None, &vars), "1");
    assert_eq!(expand_variables_word("a$A", &None, &vars), "a$A");
    assert_eq!(expand_variables_word("~/x", &Some("h".to_string()), &vars), "~/x");
    assert_eq!(expand_variables_word("$", &None, &vars), "");
}

#[test]
fn last_binding_wins() {
    let vars = vec![
        ("A".to_string(), "1".to_string()),
        ("A".to_string(), "2".to_string()),
    ];
    let expander = VariableExpander::new(None, vars);
    assert_eq!(expander.expand_variables_word("$A"), "2");
}

#[test]
fn expansion_keeps_connections() {
    let parsed = bsh::lang::parser::Command::parse("echo $X | cat >$Y && true").unwrap();
    let vars = vec![("X".to_string(), "x".to_string()), ("Y".to_string(), "y".to_string())];
    let expanded = expand_variables(&parsed.inner, None, vars);
    let expected = bsh::lang::parser::Command::parse("echo x | cat >y && true").unwrap();
    assert_eq!(expanded, expected.inner);
}
