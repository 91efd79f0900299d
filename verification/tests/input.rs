use actions_rs::input::{
    bool_input, input, input_env_key, input_required, input_with, mask_input, multiline_input,
    parse_bool, parse_input, split_multiline,
};
use actions_rs::{Environment, Error, InputOptions};

fn env_of(pairs: &[(&str, &str)]) -> Environment {
    let mut env = Environment::new();
    for (k, v) in pairs {
        env.set(k, v);
    }
    env
}

#[test]
fn key_transform() {
    assert_eq!(input_env_key("my input"), "INPUT_MY_INPUT");
    assert_eq!(input_env_key("my-input"), "INPUT_MY-INPUT");
    assert_eq!(input_env_key("myInput"), "INPUT_MYINPUT");
    assert_eq!(input_env_key("a b-c d"), "INPUT_A_B-C_D");
}

#[test]
fn strict_bool_accepts_canonical() {
    for v in ["true", "True", "TRUE"] {
        assert!(parse_bool("x", v).unwrap());
    }
    for v in ["false", "False", "FALSE"] {
        assert!(!parse_bool("x", v).unwrap());
    }
}

#[test]
fn strict_bool_rejects_others() {
    for v in ["yes", "1", "TrUe", "", " true", "0"] {
        let e = parse_bool("flag", v).unwrap_err();
        assert!(
            matches!(e, Error::InvalidBool { .. }),
            "{v:?} should be invalid"
        );
    }
}

#[test]
fn multiline_splits_and_trims_and_drops_empty() {
    assert_eq!(
        split_multiline("a\n  b  \n\n c\n"),
        vec!["a".to_owned(), "b".to_owned(), "c".to_owned()]
    );
    assert!(split_multiline("").is_empty());
}

#[test]
fn inputs_are_read_trimmed() {
    let env = env_of(&[("INPUT_MY-INPUT", "  value \t"), ("INPUT_EMPTY", "   ")]);
    assert_eq!(input(&env, "my-input"), "value");
    assert_eq!(input(&env, "missing"), "");
    assert_eq!(
        input_with(&env, "my-input", InputOptions { required: false, trim: false }).unwrap(),
        "  value \t"
    );
    assert_eq!(input_required(&env, "my-input").unwrap(), "value");
    assert_eq!(
        input_required(&env, "empty").unwrap_err(),
        Error::MissingRequiredInput("empty".to_owned())
    );
    assert_eq!(
        input_required(&env, "missing").unwrap_err(),
        Error::MissingRequiredInput("missing".to_owned())
    );
    let d = InputOptions::default();
    assert!(!d.required && d.trim);
}

#[test]
fn bool_input_reads_trimmed_value() {
    let env = env_of(&[("INPUT_VERBOSE", " TRUE "), ("INPUT_QUIET", "no")]);
    assert_eq!(bool_input(&env, "verbose"), Ok(true));
    assert_eq!(
        bool_input(&env, "quiet"),
        Err(Error::InvalidBool { name: "quiet".to_owned(), value: "no".to_owned() })
    );
    assert!(matches!(bool_input(&env, "absent"), Err(Error::InvalidBool { .. })));
}

#[test]
fn multiline_input_reads_env() {
    let env = env_of(&[("INPUT_FILES", "a.rs\r\n b.rs\n\n")]);
    assert_eq!(multiline_input(&env, "files"), vec!["a.rs".to_owned(), "b.rs".to_owned()]);
}

#[test]
fn mask_input_uses_raw_value() {
    let env = env_of(&[("INPUT_TOKEN", " s3cr3t "), ("INPUT_EMPTY", "")]);
    let c = mask_input(&env, "token").unwrap();
    assert_eq!(c.to_string(), "::add-mask:: s3cr3t ");
    assert!(mask_input(&env, "empty").is_none());
    assert!(mask_input(&env, "absent").is_none());
}

#[test]
fn unicode_whitespace_is_trimmed() {
    let env = env_of(&[("INPUT_X", "\u{3000}\u{a0}v\u{2029}")]);
    assert_eq!(input(&env, "x"), "v");
}

#[test]
fn parse_outcome_becomes_the_input_result() {
    assert_eq!(parse_input::<u32>("count", Ok(42)), Ok(42));
    assert_eq!(
        parse_input::<u32>("count", Err("invalid digit found in string".to_owned())),
        Err(Error::ParseInput {
            name: "count".to_owned(),
            reason: "invalid digit found in string".to_owned(),
        })
    );
    let env = Environment::new();
    assert_eq!(
        input_required(&env, "count"),
        Err(Error::MissingRequiredInput("count".to_owned()))
    );
}
