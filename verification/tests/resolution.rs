//! Scanner and interpolation behavior on concrete snippets.

use navi::error::PipelineError;
use navi::interp::interpolate;
use navi::pipeline::transform_step;
use navi::scanner::find_variable;

#[test]
fn scanner_no_placeholder() {
    assert!(find_variable("plain text, no variables").is_none());
    assert!(find_variable("").is_none());
    assert!(find_variable("a > b < c").is_none());
}

#[test]
fn scanner_rejects_empty_and_spaced_names() {
    assert!(find_variable("<>").is_none());
    assert!(find_variable("<a b>").is_none());
    assert!(find_variable("< a>").is_none());
    assert!(find_variable("<a").is_none());
}

#[test]
fn scanner_finds_leftmost() {
    let r = find_variable("curl <url> -X <method>").unwrap();
    assert_eq!(r.name, "url");
    assert_eq!(r.start, 5);
    assert_eq!(r.end, 10);
}

#[test]
fn scanner_skips_unclosed_bracket() {
    let r = find_variable("<a<b>").unwrap();
    assert_eq!(r.name, "b");
    assert_eq!(r.start, 2);
    assert_eq!(r.end, 5);
}

#[test]
fn interpolate_replaces_every_occurrence() {
    let out = interpolate("ssh <host>; ping <host>", "host", "prod1");
    assert_eq!(out, "ssh prod1; ping prod1");
}

#[test]
fn interpolate_keeps_other_placeholders() {
    let out = interpolate("go <a> <b>", "a", "A");
    assert_eq!(out, "go A <b>");
    assert_eq!(find_variable(&out).unwrap().name, "b");
}

#[test]
fn interpolate_inserts_value_verbatim() {
    // no escaping: brackets inside the value land in the result as they are
    let out = interpolate("run <x>", "x", "<y>");
    assert_eq!(out, "run <y>");
}

#[test]
fn interpolate_can_reintroduce_token_from_context() {
    // an empty value can close the gap between the pieces of a token
    let out = interpolate("<na<name>me>", "name", "");
    assert_eq!(out, "<name>");
    assert_eq!(find_variable(&out).unwrap().name, "name");
}

#[test]
fn transform_substitutes_environment_value() {
    let r = transform_step(
        Some("ssh <host>".to_string()),
        Some("host".to_string()),
        Some("prod1".to_string()),
    );
    assert_eq!(r.unwrap(), "ssh prod1");
}

#[test]
fn transform_missing_snippet() {
    let r = transform_step(None, Some("host".to_string()), Some("prod1".to_string()));
    assert_eq!(
        r.unwrap_err(),
        PipelineError::MissingEnvironment { variable: "snippet".to_string() }
    );
}

#[test]
fn transform_missing_varname() {
    let r = transform_step(Some("ssh <host>".to_string()), None, None);
    assert_eq!(
        r.unwrap_err(),
        PipelineError::MissingEnvironment { variable: "varname".to_string() }
    );
}

#[test]
fn transform_missing_value() {
    let r = transform_step(Some("ssh <host>".to_string()), Some("host".to_string()), None);
    assert_eq!(
        r.unwrap_err(),
        PipelineError::MissingEnvironment { variable: "host".to_string() }
    );
}

#[test]
fn missing_environment_message_names_the_variable() {
    let e = PipelineError::MissingEnvironment { variable: "snippet".to_string() };
    assert_eq!(e.message(), "The env var \"snippet\" isn't set");
}
