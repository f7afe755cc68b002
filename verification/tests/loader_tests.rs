use kickstart::definition::VarKind;
use kickstart::loader::{load_definition_str, ParseError};
use kickstart::value::VarValue;

#[test]
fn loads_each_kind() {
    let text = r#"
[deny]
type = "bool"
default = false

[name]
type = "string"
default = "demo"
prompt = "Project name"

[workers]
type = "int"
default = 4

[flavour]
type = "choice"
default = "plain"
choices = ["plain", "fancy"]
"#;
    let def = load_definition_str(text).unwrap();
    assert_eq!(def.variables.len(), 4);
    assert_eq!(def.variables[0].name, "deny");
    assert_eq!(def.variables[0].kind, VarKind::Boolean);
    assert_eq!(def.variables[0].default, VarValue::Boolean(false));
    assert_eq!(def.variables[1].name, "name");
    assert_eq!(def.variables[1].kind, VarKind::Text);
    assert_eq!(def.variables[1].prompt, Some("Project name".to_string()));
    assert_eq!(def.variables[2].default, VarValue::Integer(4));
    assert_eq!(def.variables[3].kind, VarKind::Choice);
    assert_eq!(
        def.variables[3].choices,
        vec![
            VarValue::Text("plain".to_string()),
            VarValue::Text("fancy".to_string())
        ]
    );
}

#[test]
fn declaration_order_is_kept() {
    let text = r#"
[zeta]
type = "int"
default = 1

[alpha]
type = "int"
default = 2
"#;
    let def = load_definition_str(text).unwrap();
    assert_eq!(def.variables[0].name, "zeta");
    assert_eq!(def.variables[1].name, "alpha");
}

#[test]
fn invalid_toml_is_a_syntax_error() {
    assert_eq!(load_definition_str("= nonsense ["), Err(ParseError::Syntax));
}

#[test]
fn non_table_entry_is_rejected() {
    assert_eq!(
        load_definition_str("x = 3"),
        Err(ParseError::VariableNotTable("x".to_string()))
    );
}

#[test]
fn missing_type_is_rejected() {
    assert_eq!(
        load_definition_str("[x]\ndefault = 3"),
        Err(ParseError::MissingType("x".to_string()))
    );
}

#[test]
fn unknown_type_is_rejected() {
    assert_eq!(
        load_definition_str("[x]\ntype = \"float\"\ndefault = 3"),
        Err(ParseError::UnknownType("x".to_string()))
    );
    assert_eq!(
        load_definition_str("[x]\ntype = 3\ndefault = 3"),
        Err(ParseError::UnknownType("x".to_string()))
    );
}

#[test]
fn missing_default_is_rejected() {
    assert_eq!(
        load_definition_str("[x]\ntype = \"int\""),
        Err(ParseError::MissingDefault("x".to_string()))
    );
}

#[test]
fn mistyped_default_is_rejected() {
    assert_eq!(
        load_definition_str("[x]\ntype = \"int\"\ndefault = \"five\""),
        Err(ParseError::BadDefault("x".to_string()))
    );
    assert_eq!(
        load_definition_str("[x]\ntype = \"bool\"\ndefault = 1"),
        Err(ParseError::BadDefault("x".to_string()))
    );
    // A float is no scalar a variable can hold.
    assert_eq!(
        load_definition_str("[x]\ntype = \"int\"\ndefault = 1.5"),
        Err(ParseError::BadDefault("x".to_string()))
    );
}

#[test]
fn choice_needs_a_choices_list() {
    assert_eq!(
        load_definition_str("[x]\ntype = \"choice\"\ndefault = \"a\""),
        Err(ParseError::MissingChoices("x".to_string()))
    );
    assert_eq!(
        load_definition_str("[x]\ntype = \"choice\"\ndefault = \"a\"\nchoices = 3"),
        Err(ParseError::BadChoices("x".to_string()))
    );
    assert_eq!(
        load_definition_str("[x]\ntype = \"choice\"\ndefault = \"a\"\nchoices = [[1]]"),
        Err(ParseError::BadChoices("x".to_string()))
    );
}

#[test]
fn empty_choices_load_and_fail_validation_instead() {
    let def = load_definition_str("[x]\ntype = \"choice\"\ndefault = \"a\"\nchoices = []").unwrap();
    let issues = kickstart::validate::validate(&def);
    assert_eq!(issues.len(), 1);
    assert_eq!(
        issues[0].reason,
        kickstart::validate::IssueReason::EmptyChoices
    );
}

#[test]
fn mistyped_prompt_is_rejected() {
    assert_eq!(
        load_definition_str("[x]\ntype = \"int\"\ndefault = 1\nprompt = 7"),
        Err(ParseError::BadPrompt("x".to_string()))
    );
}

#[test]
fn first_defect_in_document_order_wins() {
    let text = r#"
[ok]
type = "int"
default = 1

[broken]
type = "int"

[also_broken]
default = 2
"#;
    assert_eq!(
        load_definition_str(text),
        Err(ParseError::MissingDefault("broken".to_string()))
    );
}
