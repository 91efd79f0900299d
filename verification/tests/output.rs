use actions_rs::file_command::{key_value_message, key_value_message_with, random_token, token_from};
use actions_rs::output::{
    add_path, export_var, export_var_with_delimiter, get_state, is_reserved, save_state,
    set_output, set_output_with_delimiter,
};
use actions_rs::{Environment, Error};

#[test]
fn reserved_names() {
    assert!(is_reserved("GITHUB_SHA"));
    assert!(is_reserved("RUNNER_OS"));
    assert!(is_reserved("NODE_OPTIONS"));
    assert!(!is_reserved("CI"));
    assert!(!is_reserved("MY_VAR"));
}

#[test]
fn export_reserved_errs_without_touching_env() {
    let e = export_var("GITHUB_TOKEN", "x").unwrap_err();
    assert!(matches!(e, Error::ReservedName(_)));
}

#[test]
fn export_reserved_name_is_rejected() {
    let err = export_var("GITHUB_SHA", "x").unwrap_err();
    assert!(matches!(err, Error::ReservedName(_)));
}

#[test]
fn set_output_writes_validated_heredoc() {
    let fc = set_output("result", "hello\nworld").unwrap();
    assert_eq!(fc.file_var, "GITHUB_OUTPUT");
    let first = fc.message.lines().next().unwrap();
    let (key, delim) = first.split_once("<<").unwrap();
    assert_eq!(key, "result");
    assert!(delim.starts_with("ghadelimiter_"), "unexpected delimiter: {delim}");
    assert_eq!(format!("{}\n", fc.message), format!("result<<{delim}\nhello\nworld\n{delim}\n"));
    assert_eq!(fc.fallback.as_ref().unwrap().to_string(), "::set-output name=result::hello%0Aworld");
}

#[test]
fn heredoc_with_given_delimiter() {
    let fc = set_output_with_delimiter("k", "v", "D").unwrap();
    assert_eq!(fc.message, "k<<D\nv\nD");
    let fc = save_state_check();
    assert_eq!(fc.file_var, "GITHUB_STATE");
    assert_eq!(
        key_value_message_with("a", "b", "ghadelimiter_x").unwrap(),
        "a<<ghadelimiter_x\nb\nghadelimiter_x"
    );
}

fn save_state_check() -> actions_rs::FileCommand {
    let fc = save_state("cache_hit", true.to_string().as_str()).unwrap();
    assert_eq!(fc.fallback.as_ref().unwrap().to_string(), "::save-state name=cache_hit::true");
    fc
}

#[test]
fn delimiter_collision_is_rejected() {
    assert_eq!(
        key_value_message_with("k", "x\nEOF\ny", "EOF"),
        Err(Error::DelimiterCollision("k".to_owned()))
    );
    assert_eq!(
        key_value_message_with("kEOF", "v", "EOF"),
        Err(Error::DelimiterCollision("kEOF".to_owned()))
    );
    assert_eq!(
        set_output_with_delimiter("out", "aDELIMb", "DELIM").unwrap_err(),
        Error::DelimiterCollision("out".to_owned())
    );
    assert!(key_value_message("k", "v").is_ok());
}

#[test]
fn export_var_accepts_non_reserved_and_serialises_display() {
    // The caller appends each message and a newline to the GITHUB_ENV file.
    let flag = export_var("MY_FLAG", &true.to_string()).unwrap();
    let count = export_var("MY_COUNT", &42_u32.to_string()).unwrap();
    assert_eq!(flag.file_var, "GITHUB_ENV");
    assert_eq!(count.file_var, "GITHUB_ENV");
    let content = format!("{}\n{}\n", flag.message, count.message);

    assert!(content.contains("MY_FLAG<<ghadelimiter_"));
    assert!(content.contains("\ntrue\n"));
    assert!(content.contains("MY_COUNT<<ghadelimiter_"));
    assert!(content.contains("\n42\n"));
    // The runner no longer honours `::set-env::`: there is no stdout fallback.
    assert!(flag.fallback.is_none());
    assert!(count.fallback.is_none());
}

#[test]
fn export_var_with_given_delimiter() {
    let fc = export_var_with_delimiter("MY_COUNT", &42_u32.to_string(), "Z").unwrap();
    assert_eq!(fc.message, "MY_COUNT<<Z\n42\nZ");
    assert_eq!(
        export_var_with_delimiter("NODE_OPTIONS", "x", "Z").unwrap_err(),
        Error::ReservedName("NODE_OPTIONS".to_owned())
    );
    assert_eq!(
        export_var_with_delimiter("RUNNER_X", "x", "Z").unwrap_err(),
        Error::ReservedName("RUNNER_X".to_owned())
    );
}

#[test]
fn add_path_appends_bare_line() {
    // The caller appends each message and a newline to the GITHUB_PATH file.
    let a = add_path("/opt/tools/bin");
    let b = add_path("/home/runner/.local/bin");
    let content = format!("{}\n{}\n", a.message, b.message);
    assert_eq!(content, "/opt/tools/bin\n/home/runner/.local/bin\n");
}

#[test]
fn missing_env_file_var_is_a_clean_fallback_not_an_error() {
    // With GITHUB_OUTPUT unset the caller issues the deprecated stdout command.
    let fc = set_output("k", "v").expect("fallback must succeed");
    assert_eq!(fc.fallback.as_ref().unwrap().to_string(), "::set-output name=k::v");
}

#[test]
fn add_path_is_a_bare_line() {
    let fc = add_path("/opt/tools/bin");
    assert_eq!(fc.file_var, "GITHUB_PATH");
    assert_eq!(fc.message, "/opt/tools/bin");
    // The runner no longer honours `::add-path::`: there is no stdout fallback.
    assert!(fc.fallback.is_none());
}

#[test]
fn get_state_reads_state_prefixed_var() {
    let mut env = Environment::new();
    env.set("STATE_cache_hit", "true");
    assert_eq!(get_state(&env, "cache_hit"), Some("true".to_owned()));
    assert_eq!(get_state(&env, "other"), None);
    env.set("STATE_empty", "");
    assert_eq!(get_state(&env, "empty"), Some(String::new()));
}

#[test]
fn tokens_are_prefixed_hex() {
    assert_eq!(
        token_from(0, u64::MAX),
        "ghadelimiter_0000000000000000ffffffffffffffff"
    );
    assert_eq!(
        token_from(0x0123456789abcdef, 10),
        "ghadelimiter_0123456789abcdef000000000000000a"
    );
    let t = random_token();
    assert_eq!(t.len(), "ghadelimiter_".len() + 32);
    assert!(t.starts_with("ghadelimiter_"));
    assert!(t["ghadelimiter_".len()..].chars().all(|c| c.is_ascii_hexdigit()));
    assert_ne!(random_token(), random_token());
}

#[test]
fn heredoc_reads_back_as_the_value() {
    // A value that holds line breaks and pieces of the delimiter, but not the
    // delimiter itself, still ends exactly where the writer put the value.
    let value = "line one\nEO\nE0F is not it\n\nEO F";
    let m = key_value_message_with("key", value, "EOF").unwrap();
    let header = "key<<EOF\n";
    assert!(m.starts_with(header));
    let body = &m[header.len()..];
    let end = body.find("\nEOF").unwrap();
    assert_eq!(&body[..end], value);
    assert_eq!(end, value.len());

    let t = token_from(7, 9);
    let m = key_value_message_with("k", "a\nb", &t).unwrap();
    let body = &m[format!("k<<{t}\n").len()..];
    assert_eq!(body.find(&format!("\n{t}")), Some("a\nb".len()));
}

#[test]
fn env_and_path_commands_have_no_stdout_fallback() {
    let fc = export_var_with_delimiter("MY_VAR", "x", "Z").unwrap();
    assert!(fc.fallback.is_none());
    let fc = save_state("s", "v").unwrap();
    assert_eq!(fc.fallback.unwrap().to_string(), "::save-state name=s::v");
}
