use kickstart::context::{build_context, build_default_context, ResolvedContext};
use kickstart::loader::load_definition_str;
use kickstart::prompt::PromptError;
use kickstart::render::RenderFailure;
use kickstart::value::VarValue;

const DEF: &str = r#"
[deny]
type = "bool"
default = true

[name]
type = "string"
default = "demo"

[workers]
type = "int"
default = 4

[flavour]
type = "choice"
default = "plain"
choices = ["plain", "fancy"]
"#;

fn lines(items: &[&str]) -> Vec<String> {
    items.iter().map(|s| s.to_string()).collect()
}

#[test]
fn no_input_mode_yields_exactly_the_defaults() {
    let def = load_definition_str(DEF).unwrap();
    // The lines would change every value were any prompt consulted.
    let ctx = build_context(&def, true, &lines(&["n", "other", "9", "2"])).unwrap();
    let expected = vec![
        ("deny".to_string(), VarValue::Boolean(true)),
        ("name".to_string(), VarValue::Text("demo".to_string())),
        ("workers".to_string(), VarValue::Integer(4)),
        ("flavour".to_string(), VarValue::Text("plain".to_string())),
    ];
    assert_eq!(ctx.entries, expected);
    assert_eq!(build_default_context(&def).entries, expected);
}

#[test]
fn interactive_mode_resolves_in_declaration_order() {
    let def = load_definition_str(DEF).unwrap();
    let ctx = build_context(&def, false, &lines(&["n", "other", "9", "2"])).unwrap();
    assert_eq!(
        ctx.entries,
        vec![
            ("deny".to_string(), VarValue::Boolean(false)),
            ("name".to_string(), VarValue::Text("other".to_string())),
            ("workers".to_string(), VarValue::Integer(9)),
            ("flavour".to_string(), VarValue::Text("fancy".to_string())),
        ]
    );
}

#[test]
fn interactive_mode_retries_and_uses_defaults_on_empty() {
    let def = load_definition_str(DEF).unwrap();
    let ctx = build_context(&def, false, &lines(&["what", "", "", "oops", "7", ""])).unwrap();
    assert_eq!(
        ctx.entries,
        vec![
            ("deny".to_string(), VarValue::Boolean(true)),
            ("name".to_string(), VarValue::Text("demo".to_string())),
            ("workers".to_string(), VarValue::Integer(7)),
            ("flavour".to_string(), VarValue::Text("plain".to_string())),
        ]
    );
}

#[test]
fn interactive_mode_fails_when_lines_run_out() {
    let def = load_definition_str(DEF).unwrap();
    let r = build_context(&def, false, &lines(&["y", "other"]));
    assert_eq!(r.unwrap_err(), PromptError::UnreadableInput);
}

// The rendering engine is outside the library: the shell hands it the
// resolved context and brings its outcome back as plain values. These
// tests drive the engine the same way.
fn engine_context(ctx: &ResolvedContext) -> tera::Context {
    let mut t = tera::Context::new();
    for (k, v) in &ctx.entries {
        match v {
            VarValue::Boolean(b) => t.insert(k.as_str(), b),
            VarValue::Integer(i) => t.insert(k.as_str(), i),
            VarValue::Text(s) => t.insert(k.as_str(), s),
        }
    }
    t
}

#[test]
fn template_renders_from_resolved_context() {
    let def = load_definition_str("[name]\ntype = \"string\"\ndefault = \"demo\"").unwrap();
    let ctx = build_context(&def, true, &lines(&[])).unwrap();
    let out = tera::Tera::one_off("{{name}}", &engine_context(&ctx), false).unwrap();
    assert_eq!(out, "demo");
}

#[test]
fn rendering_mixes_kinds_and_text() {
    let def = load_definition_str(DEF).unwrap();
    let ctx = build_default_context(&def);
    let out = tera::Tera::one_off(
        "{{name}}-{{workers}}-{{deny}}-{{flavour}}",
        &engine_context(&ctx),
        false,
    )
    .unwrap();
    assert_eq!(out, "demo-4-true-plain");
}

#[test]
fn rendering_failure_becomes_a_reported_chain() {
    let def = load_definition_str("[name]\ntype = \"string\"\ndefault = \"demo\"").unwrap();
    let ctx = build_default_context(&def);
    let err =
        tera::Tera::one_off("{{ missing_variable }}", &engine_context(&ctx), false).unwrap_err();
    let top = err.to_string();
    let mut causes = Vec::new();
    let mut src = std::error::Error::source(&err);
    while let Some(c) = src {
        causes.push(c.to_string());
        src = c.source();
    }
    let failure = RenderFailure::new(top.clone(), causes);
    let report = failure.report();
    assert!(report.len() >= 1);
    assert_eq!(report[0], top);
}

#[test]
fn failure_report_keeps_cause_order() {
    let failure = RenderFailure::new(
        "top message".to_string(),
        vec!["first cause".to_string(), "second cause".to_string()],
    );
    assert_eq!(
        failure.report(),
        vec![
            "top message".to_string(),
            "first cause".to_string(),
            "second cause".to_string()
        ]
    );
}
