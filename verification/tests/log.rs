use actions_rs::log;

#[test]
fn log_commands_render() {
    assert_eq!(log::debug("d").to_string(), "::debug::d");
    assert_eq!(log::notice("n").to_string(), "::notice::n");
    assert_eq!(log::warning("w").to_string(), "::warning::w");
    assert_eq!(log::error("e").to_string(), "::error::e");
    assert_eq!(log::mask("s").to_string(), "::add-mask::s");
    assert_eq!(log::set_secret("s").to_string(), "::add-mask::s");
    assert_eq!(log::set_failed("boom").to_string(), "::error::boom");
    assert_eq!(log::echo(true).to_string(), "::echo::on");
    assert_eq!(log::echo(false).to_string(), "::echo::off");
    assert_eq!(log::start_group("build").to_string(), "::group::build");
    assert_eq!(log::end_group().to_string(), "::endgroup::");
}

#[test]
fn stop_and_resume_use_the_same_token() {
    let guard = log::stop_commands();
    let stop = guard.stop_command().to_string();
    let resume = guard.resume_command().to_string();
    let token = stop.strip_prefix("::stop-commands::").unwrap();
    assert!(token.starts_with("ghadelimiter_"));
    assert_eq!(resume, format!("::{token}::"));
    let fixed = log::StopGuard::with_token("tok");
    assert_eq!(fixed.stop_command().to_string(), "::stop-commands::tok");
    assert_eq!(fixed.resume_command().to_string(), "::tok::");
}

#[test]
fn is_debug_reads_runner_debug() {
    let mut env = actions_rs::Environment::new();
    assert!(!log::is_debug(&env));
    env.set("RUNNER_DEBUG", "1");
    assert!(log::is_debug(&env));
}

#[test]
fn token_lines_need_no_escaping() {
    let t = actions_rs::file_command::token_from(0xdead_beef, u64::MAX);
    let guard = log::StopGuard::with_token(&t);
    assert!(!t.contains(':') && !t.contains('%') && !t.contains('\n') && !t.contains('\r'));
    assert_eq!(guard.stop_command().to_string(), format!("::stop-commands::{t}"));
    assert_eq!(guard.resume_command().to_string(), format!("::{t}::"));
}
