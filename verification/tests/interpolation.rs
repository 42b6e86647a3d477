use compose::env::Env;
use compose::value::Value;
use compose::walker::interpolate;

fn env_of(pairs: &[(&str, &str)]) -> Env {
    let mut e = Env::new();
    for (k, v) in pairs {
        e.set(String::from(*k), String::from(*v));
    }
    e
}

fn interp(env: &Env, s: &str) -> Result<Value, compose::walker::PathError> {
    let mut warns: Vec<String> = Vec::new();
    interpolate(&Value::Str(String::from(s)), env, &mut warns)
}

#[test]
fn simple_named() {
    let env = env_of(&[("VAR", "woop")]);
    let result = interp(&env, "$VAR");
    assert_eq!(result.ok(), Some(Value::Str(String::from("woop"))));
}

#[test]
fn simple_named_missing() {
    let env = env_of(&[]);
    let result = interp(&env, "pre $VAR post");
    assert_eq!(result.ok(), Some(Value::Str(String::from("pre  post"))));
}

#[test]
fn simple_named_missing_warns() {
    let env = env_of(&[]);
    let mut warns: Vec<String> = Vec::new();
    let result = interpolate(&Value::Str(String::from("pre $VAR post")), &env, &mut warns);
    assert_eq!(result.ok(), Some(Value::Str(String::from("pre  post"))));
    assert_eq!(warns, vec![String::from("VAR")]);
}

#[test]
fn braced_named() {
    let env = env_of(&[("VAR", "woop")]);
    let result = interp(&env, "${VAR}");
    assert_eq!(result.ok(), Some(Value::Str(String::from("woop"))));
}

#[test]
fn braced_named_text() {
    let env = env_of(&[("VAR", "woop")]);
    let result = interp(&env, "pre ${VAR} post");
    assert_eq!(result.ok(), Some(Value::Str(String::from("pre woop post"))));
}

#[test]
fn default_named() {
    let env = env_of(&[]);
    let result = interp(&env, "${VAR-default}");
    assert_eq!(result.ok(), Some(Value::Str(String::from("default"))));
}

#[test]
fn no_default_named() {
    let env = env_of(&[("VAR", "woop")]);
    let result = interp(&env, "${VAR-default}");
    assert_eq!(result.ok(), Some(Value::Str(String::from("woop"))));
}

#[test]
fn default_pattern() {
    let env = env_of(&[("DEF", "woop")]);
    let result = interp(&env, "${VAR-$DEF}");
    assert_eq!(result.ok(), Some(Value::Str(String::from("woop"))));
}

#[test]
fn default_named_no_empty() {
    let env = env_of(&[("VAR", "")]);
    let result = interp(&env, "${VAR:-default}");
    assert_eq!(result.ok(), Some(Value::Str(String::from("default"))));
}

#[test]
fn no_default_named_no_empty() {
    let env = env_of(&[("VAR", "woop")]);
    let result = interp(&env, "${VAR:-default}");
    assert_eq!(result.ok(), Some(Value::Str(String::from("woop"))));
}

#[test]
fn default_pattern_no_empty() {
    let env = env_of(&[("VAR", ""), ("DEF", "woop")]);
    let result = interp(&env, "${VAR:-$DEF}");
    assert_eq!(result.ok(), Some(Value::Str(String::from("woop"))));
}

#[test]
fn error_named() {
    let env = env_of(&[]);
    let result = interp(&env, "${VAR?msg}");
    assert_eq!(
        result.err().map(|err| err.message),
        Some(String::from("Required variable \"VAR\" is missing a value: msg"))
    );
}

#[test]
fn error_named_no_empty() {
    let env = env_of(&[("VAR", "")]);
    let result = interp(&env, "${VAR:?msg}");
    assert_eq!(
        result.err().map(|err| err.message),
        Some(String::from("Required variable \"VAR\" is missing a value: msg"))
    );
}

#[test]
fn error_no_message() {
    let env = env_of(&[]);
    let result = interp(&env, "${VAR?}");
    assert_eq!(
        result.err().map(|err| err.message),
        Some(String::from("Required variable \"VAR\" is missing a value"))
    );
}

#[test]
fn error_no_message_no_empty() {
    let env = env_of(&[("VAR", "")]);
    let result = interp(&env, "${VAR:?}");
    assert_eq!(
        result.err().map(|err| err.message),
        Some(String::from("Required variable \"VAR\" is missing a value"))
    );
}

#[test]
fn replacement_named() {
    let env = env_of(&[("VAR", "")]);
    let result = interp(&env, "${VAR+replacement}");
    assert_eq!(result.ok(), Some(Value::Str(String::from("replacement"))));
}

#[test]
fn no_replacement_named() {
    let env = env_of(&[]);
    let result = interp(&env, "${VAR+replacement}");
    assert_eq!(result.ok(), Some(Value::Str(String::new())));
}

#[test]
fn replacement_named_no_empty() {
    let env = env_of(&[("VAR", "woop")]);
    let result = interp(&env, "${VAR:+replacement}");
    assert_eq!(result.ok(), Some(Value::Str(String::from("replacement"))));
}

#[test]
fn no_replacement_named_no_empty() {
    let env = env_of(&[("VAR", "")]);
    let result = interp(&env, "${VAR:+replacement}");
    assert_eq!(result.ok(), Some(Value::Str(String::new())));
}

#[test]
fn nested_braced_default() {
    let env = env_of(&[]);
    let result = interp(&env, "${VAR-${DEF-deep}}");
    assert_eq!(result.ok(), Some(Value::Str(String::from("deep"))));
}

#[test]
fn plain_text_round_trip() {
    let env = env_of(&[]);
    let result = interp(&env, "no references here");
    assert_eq!(result.ok(), Some(Value::Str(String::from("no references here"))));
}

#[test]
fn lone_dollar_is_literal() {
    let env = env_of(&[]);
    let result = interp(&env, "cost: 5$ total");
    assert_eq!(result.ok(), Some(Value::Str(String::from("cost: 5$ total"))));
}

#[test]
fn parse_error_empty_name() {
    let env = env_of(&[]);
    let result = interp(&env, "${}");
    let msg = result.err().map(|err| err.message).unwrap();
    assert_eq!(msg, String::from("invalid variable expansion: ${}"));
}

#[test]
fn parse_error_missing_close() {
    let env = env_of(&[]);
    let result = interp(&env, "pre ${VAR-x");
    let msg = result.err().map(|err| err.message).unwrap();
    assert_eq!(msg, String::from("invalid variable expansion: ${VAR-x"));
}

#[test]
fn parse_error_bad_sigil() {
    let env = env_of(&[]);
    let result = interp(&env, "${VAR%x}");
    assert!(result.is_err());
}

#[test]
fn sequence_and_mapping_walk() {
    let env = env_of(&[("VAR", "woop")]);
    let tree = Value::Mapping(vec![(
        String::from("outer"),
        Value::Sequence(vec![
            Value::Str(String::from("$VAR")),
            Value::Int(3),
            Value::Null,
        ]),
    )]);
    let mut warns: Vec<String> = Vec::new();
    let result = interpolate(&tree, &env, &mut warns).unwrap();
    assert_eq!(
        result,
        Value::Mapping(vec![(
            String::from("outer"),
            Value::Sequence(vec![
                Value::Str(String::from("woop")),
                Value::Int(3),
                Value::Null,
            ]),
        )])
    );
}

#[test]
fn mapping_error_path() {
    let env = env_of(&[]);
    let tree = Value::Mapping(vec![(
        String::from("services"),
        Value::Mapping(vec![(
            String::from("web"),
            Value::Mapping(vec![(
                String::from("image"),
                Value::Str(String::from("${IMG?}")),
            )]),
        )]),
    )]);
    let mut warns: Vec<String> = Vec::new();
    let err = interpolate(&tree, &env, &mut warns).unwrap_err();
    assert_eq!(
        err.path,
        vec![
            String::from("services"),
            String::from("web"),
            String::from("image")
        ]
    );
    assert_eq!(
        err.message,
        String::from("Required variable \"IMG\" is missing a value")
    );
}

#[test]
fn warning_message_text() {
    let msg = compose::eval::warning_message(&String::from("VAR"));
    assert_eq!(
        msg,
        String::from("The \"VAR\" variable is not set, defaulting to a blank string")
    );
}
