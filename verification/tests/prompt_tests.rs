use kickstart::prompt::{
    ask_bool, ask_choices, ask_integer, ask_string, choice_default_index, interpret_bool,
    interpret_integer, interpret_string, PromptError,
};
use kickstart::value::VarValue;

fn lines(items: &[&str]) -> Vec<String> {
    items.iter().map(|s| s.to_string()).collect()
}

fn text(s: &str) -> VarValue {
    VarValue::Text(s.to_string())
}

#[test]
fn bool_empty_takes_default() {
    let r = ask_bool(&lines(&[""]), 0, true);
    assert_eq!(r, Ok((true, 1)));
}

#[test]
fn bool_yes_literal() {
    let r = ask_bool(&lines(&["YES"]), 0, true);
    assert_eq!(r, Ok((true, 1)));
}

#[test]
fn bool_no_literal() {
    let r = ask_bool(&lines(&["no"]), 0, true);
    assert_eq!(r, Ok((false, 1)));
}

#[test]
fn bool_invalid_then_yes_is_one_retry() {
    let r = ask_bool(&lines(&["maybe", "y"]), 0, true);
    assert_eq!(r, Ok((true, 2)));
}

#[test]
fn bool_input_is_trimmed() {
    let r = ask_bool(&lines(&["  yes  "]), 0, false);
    assert_eq!(r, Ok((true, 1)));
    let r = ask_bool(&lines(&["   "]), 0, false);
    assert_eq!(r, Ok((false, 1)));
}

#[test]
fn bool_exhausted_stream_fails() {
    let r = ask_bool(&lines(&[]), 0, true);
    assert_eq!(r, Err(PromptError::UnreadableInput));
    let r = ask_bool(&lines(&["maybe"]), 0, true);
    assert_eq!(r, Err(PromptError::UnreadableInput));
}

#[test]
fn bool_single_step_literals() {
    assert_eq!(interpret_bool("y", false), Some(true));
    assert_eq!(interpret_bool("Y", false), Some(true));
    assert_eq!(interpret_bool("true", false), Some(true));
    assert_eq!(interpret_bool("n", true), Some(false));
    assert_eq!(interpret_bool("N", true), Some(false));
    assert_eq!(interpret_bool("NO", true), Some(false));
    assert_eq!(interpret_bool("false", true), Some(false));
    assert_eq!(interpret_bool("Yes", true), None);
    assert_eq!(interpret_bool("maybe", true), None);
}

#[test]
fn string_empty_takes_default() {
    let r = ask_string(&lines(&[""]), 0, "fallback");
    assert_eq!(r, Ok(("fallback".to_string(), 1)));
}

#[test]
fn string_any_input_verbatim() {
    let r = ask_string(&lines(&["  spaced out  "]), 0, "fallback");
    assert_eq!(r, Ok(("  spaced out  ".to_string(), 1)));
    assert_eq!(interpret_string("x y", "d"), "x y".to_string());
}

#[test]
fn integer_twelve() {
    let r = ask_integer(&lines(&["12"]), 0, 5);
    assert_eq!(r, Ok((12, 1)));
}

#[test]
fn integer_invalid_then_seven() {
    let r = ask_integer(&lines(&["abc", "7"]), 0, 5);
    assert_eq!(r, Ok((7, 2)));
}

#[test]
fn integer_empty_takes_default() {
    let r = ask_integer(&lines(&[""]), 0, 5);
    assert_eq!(r, Ok((5, 1)));
}

#[test]
fn integer_signs_and_range() {
    assert_eq!(ask_integer(&lines(&["-5"]), 0, 0), Ok((-5, 1)));
    assert_eq!(ask_integer(&lines(&["+42"]), 0, 0), Ok((42, 1)));
    assert_eq!(
        ask_integer(&lines(&["-9223372036854775808"]), 0, 0),
        Ok((i64::MIN, 1))
    );
    assert_eq!(
        ask_integer(&lines(&["9223372036854775807"]), 0, 0),
        Ok((i64::MAX, 1))
    );
    // One past the range retries, then the next line resolves.
    assert_eq!(
        ask_integer(&lines(&["9223372036854775808", "1"]), 0, 0),
        Ok((1, 2))
    );
    assert_eq!(interpret_integer("12a", 0), None);
    assert_eq!(interpret_integer(" 12", 0), None);
    assert_eq!(interpret_integer("+", 0), None);
}

fn abc() -> Vec<VarValue> {
    vec![text("A"), text("B"), text("C")]
}

#[test]
fn choice_empty_takes_default() {
    let r = ask_choices(&lines(&[""]), 0, &text("B"), &abc());
    assert_eq!(r, Ok((text("B"), 1)));
}

#[test]
fn choice_third() {
    let r = ask_choices(&lines(&["3"]), 0, &text("B"), &abc());
    assert_eq!(r, Ok((text("C"), 1)));
}

#[test]
fn choice_out_of_range_then_first() {
    let r = ask_choices(&lines(&["9", "1"]), 0, &text("B"), &abc());
    assert_eq!(r, Ok((text("A"), 2)));
}

#[test]
fn choice_rejects_zero_negative_and_junk() {
    let r = ask_choices(&lines(&["0", "-1", "x", "2"]), 0, &text("B"), &abc());
    assert_eq!(r, Ok((text("B"), 4)));
}

#[test]
fn choice_empty_default_even_when_absent() {
    // The stored default is returned unchanged even when it is not one of
    // the choices.
    let r = ask_choices(&lines(&[""]), 0, &text("Z"), &abc());
    assert_eq!(r, Ok((text("Z"), 1)));
}

#[test]
fn choice_displayed_default_index() {
    assert_eq!(choice_default_index(&text("B"), &abc()), 2);
    assert_eq!(choice_default_index(&text("Z"), &abc()), 1);
    assert_eq!(choice_default_index(&text("C"), &abc()), 3);
}

#[test]
fn resolution_starts_at_given_position() {
    let input = lines(&["maybe", "y", "7"]);
    let b = ask_bool(&input, 0, false).unwrap();
    assert_eq!(b, (true, 2));
    let n = ask_integer(&input, b.1, 0).unwrap();
    assert_eq!(n, (7, 3));
}
