use kickstart::definition::{Definition, VarKind, VariableDefinition};
use kickstart::validate::{validate, IssueReason};
use kickstart::value::VarValue;

fn var(name: &str, kind: VarKind, default: VarValue, choices: Vec<VarValue>) -> VariableDefinition {
    VariableDefinition {
        name: name.to_string(),
        kind,
        default,
        choices,
        prompt: None,
    }
}

fn text(s: &str) -> VarValue {
    VarValue::Text(s.to_string())
}

#[test]
fn duplicate_name_reported_once() {
    let def = Definition {
        variables: vec![
            var("n", VarKind::Boolean, VarValue::Boolean(true), vec![]),
            var("n", VarKind::Boolean, VarValue::Boolean(false), vec![]),
        ],
    };
    let issues = validate(&def);
    assert_eq!(issues.len(), 1);
    assert_eq!(issues[0].name, "n");
    assert_eq!(issues[0].reason, IssueReason::DuplicateName);
}

#[test]
fn choice_default_absent_reported_once() {
    let def = Definition {
        variables: vec![var(
            "c",
            VarKind::Choice,
            text("z"),
            vec![text("x"), text("y")],
        )],
    };
    let issues = validate(&def);
    assert_eq!(issues.len(), 1);
    assert_eq!(issues[0].name, "c");
    assert_eq!(issues[0].reason, IssueReason::DefaultNotInChoices);
}

#[test]
fn empty_choices_reported() {
    let def = Definition {
        variables: vec![var("c", VarKind::Choice, text("z"), vec![])],
    };
    let issues = validate(&def);
    assert_eq!(issues.len(), 1);
    assert_eq!(issues[0].reason, IssueReason::EmptyChoices);
}

#[test]
fn default_type_mismatch_reported() {
    let def = Definition {
        variables: vec![var("k", VarKind::Integer, text("five"), vec![])],
    };
    let issues = validate(&def);
    assert_eq!(issues.len(), 1);
    assert_eq!(issues[0].reason, IssueReason::DefaultTypeMismatch);
}

#[test]
fn valid_definition_yields_no_issue() {
    let def = Definition {
        variables: vec![
            var("a", VarKind::Boolean, VarValue::Boolean(false), vec![]),
            var("b", VarKind::Text, text("hi"), vec![]),
            var("c", VarKind::Integer, VarValue::Integer(3), vec![]),
            var("d", VarKind::Choice, text("x"), vec![text("x"), text("y")]),
        ],
    };
    assert!(validate(&def).is_empty());
}

#[test]
fn issues_come_in_declaration_order() {
    let def = Definition {
        variables: vec![
            var("a", VarKind::Integer, text("bad"), vec![]),
            var("a", VarKind::Boolean, text("worse"), vec![]),
        ],
    };
    let issues = validate(&def);
    assert_eq!(issues.len(), 3);
    assert_eq!(issues[0].name, "a");
    assert_eq!(issues[0].reason, IssueReason::DefaultTypeMismatch);
    assert_eq!(issues[1].reason, IssueReason::DuplicateName);
    assert_eq!(issues[2].reason, IssueReason::DefaultTypeMismatch);
}
