use super_orchestrator::error::{Error, ErrorKind};
use super_orchestrator::json::{parse_json, Json};
use super_orchestrator::parsing::get_separated_val;
use super_orchestrator::text::{
    debug_texts, has_text, join, split_lines, split_text, split_words, starts_with, to_decimal,
    trim, without_prefix,
};

fn only_text(e: &Error) -> &str {
    assert_eq!(e.error_stack.len(), 1);
    match &e.error_stack[0] {
        ErrorKind::StringError(s) => s.as_str(),
        ErrorKind::StrError(s) => s,
        _ => panic!("not a text"),
    }
}

#[test]
fn separated_values_are_found() {
    let s = "
    address: 0x2b4e4d79e3e9dBBB170CCD78419520d1DCBb4B3f
    public: 0x04b141241511b1
    private := \"hello world\"
";
    assert_eq!(
        &get_separated_val(s, "\n", "address", ":").ok().unwrap(),
        "0x2b4e4d79e3e9dBBB170CCD78419520d1DCBb4B3f"
    );
    assert_eq!(
        &get_separated_val(s, "\n", "public", ":").ok().unwrap(),
        "0x04b141241511b1"
    );
    assert_eq!(
        &get_separated_val(s, "\n", "private", ":=").ok().unwrap(),
        "\"hello world\""
    );
}

#[test]
fn a_missing_key_is_an_error() {
    let e = get_separated_val("a: 1", "\n", "b", ":").err().unwrap();
    assert_eq!(only_text(&e), "get_separated_val() -> key \"b\" not found");
    let e = get_separated_val("a 1", "\n", "a", ":").err().unwrap();
    assert_eq!(only_text(&e), "get_separated_val() -> key \"a\" not found");
}

#[test]
fn the_first_value_is_taken() {
    assert_eq!(&get_separated_val("k=1;k=2", ";", "k", "=").ok().unwrap(), "1");
    assert_eq!(&get_separated_val("kk=1;k=2", ";", "k", "=").ok().unwrap(), "2");
    assert_eq!(&get_separated_val("k=", ";", "k", "=").ok().unwrap(), "");
}

const EXAMPLE: &str = "{
    \"Id\": \"id example\",
    \"Created\": 2023,
    \"Args\": [
        \"--entry-name\",
        \"--uuid\"
    ],
    \"State\": {
        \"Status\": \"running\",
        \"Running\": true
    }
}";

fn text_of(j: &Json) -> &str {
    match j {
        Json::Text(s) => s,
        _ => panic!("not a text"),
    }
}

#[test]
fn json_is_stepped_into() {
    let value = parse_json(EXAMPLE).ok().unwrap();
    assert_eq!(text_of(value.get_member("value", "Id").ok().unwrap()), "id example");
    match value.get_member("value", "Created").ok().unwrap() {
        Json::Number(n) => assert_eq!(n, "2023"),
        _ => unreachable!(),
    }
    let args = value.get_member("value", "Args").ok().unwrap();
    assert_eq!(text_of(args.get_element("value", 1).ok().unwrap()), "--uuid");
    let state = value.get_member("value", "State").ok().unwrap();
    assert_eq!(text_of(state.get_member("value", "Status").ok().unwrap()), "running");
    assert!(matches!(state.get_member("value", "Running").ok().unwrap(), Json::Bool(true)));
}

#[test]
fn failed_steps_are_formatted_errors() {
    let value = parse_json(EXAMPLE).ok().unwrap();
    let state = value.get_member("value", "State").ok().unwrap();
    assert_eq!(
        only_text(&state.get_member("value", "nonexistent").err().unwrap()),
        "stacked_get(value ... [\"nonexistent\"] ...) -> indexing failed"
    );
    let args = value.get_member("value", "Args").ok().unwrap();
    assert_eq!(
        only_text(&args.get_element("value", 2).err().unwrap()),
        "stacked_get(value ... [2] ...) -> indexing failed"
    );
    assert!(args.get_member("value", "0").is_err());
    assert!(state.get_element("value", 0).is_err());
}

#[test]
fn json_is_changed_in_place() {
    let mut value = parse_json(EXAMPLE).ok().unwrap();
    *value.get_member_mut("value", "Id").ok().unwrap() = Json::Text("other".to_owned());
    *value.get_member_mut("value", "Args").ok().unwrap().get_element_mut("value", 1).ok().unwrap() =
        Json::Text("--other".to_owned());
    *value.get_member_mut("value", "State").ok().unwrap().get_member_mut("value", "Running").ok().unwrap() =
        Json::Bool(false);
    assert_eq!(text_of(value.get_member("value", "Id").ok().unwrap()), "other");
    let args = value.get_member("value", "Args").ok().unwrap();
    assert_eq!(text_of(args.get_element("value", 0).ok().unwrap()), "--entry-name");
    assert_eq!(text_of(args.get_element("value", 1).ok().unwrap()), "--other");
    let state = value.get_member("value", "State").ok().unwrap();
    assert_eq!(text_of(state.get_member("value", "Status").ok().unwrap()), "running");
    assert!(matches!(state.get_member("value", "Running").ok().unwrap(), Json::Bool(false)));
    let state = value.get_member_mut("value", "State").ok().unwrap();
    assert_eq!(
        only_text(&state.get_member_mut("value", "nonexistent").err().unwrap()),
        "stacked_get_mut(value ... [\"nonexistent\"] ...) -> indexing failed"
    );
    assert_eq!(
        only_text(&state.get_element_mut("value", 3).err().unwrap()),
        "stacked_get_mut(value ... [3] ...) -> indexing failed"
    );
}

#[test]
fn what_is_not_json_is_refused() {
    let e = parse_json("[1,").err().unwrap();
    match &e.error_stack[0] {
        ErrorKind::SerdeJsonError(s) => {
            assert_eq!(s, "Error(\"EOF while parsing a value\", line: 1, column: 3)")
        }
        _ => unreachable!(),
    }
    assert!(matches!(parse_json("null").ok().unwrap(), Json::Null));
}

#[test]
fn texts_are_taken_apart() {
    assert_eq!(split_text("a,b,,c", ","), vec!["a", "b", "", "c"]);
    assert_eq!(split_text("", ","), vec![""]);
    assert_eq!(split_words("  ls \t-l\u{3000}a\n"), vec!["ls", "-l", "a"]);
    assert_eq!(split_lines("a\nb\r\n\nc"), vec!["a", "b", "", "c"]);
    assert_eq!(split_lines("a\n"), vec!["a"]);
    assert_eq!(trim(" \u{a0}a b\n"), "a b");
    assert!(has_text("hello", "ll") && !has_text("hello", "lo "));
    assert!(starts_with("hello", "he") && !starts_with("hello", "el"));
    assert_eq!(without_prefix("hello", "he"), Some("llo".to_owned()));
    assert_eq!(without_prefix("hello", "lo"), None);
}

#[test]
fn texts_are_put_together() {
    let parts = vec!["a".to_owned(), "b\"".to_owned()];
    assert_eq!(join(&parts, ", "), "a, b\"");
    assert_eq!(debug_texts(&parts), format!("{:?}", parts));
    assert_eq!(debug_texts(&Vec::new()), "[]");
    assert_eq!(to_decimal(0), "0");
    assert_eq!(to_decimal(u64::MAX), "18446744073709551615");
}
