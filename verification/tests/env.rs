use actions_rs::env::{is_ci, is_debug, is_github_actions, vars};
use actions_rs::{Context, Environment, RunnerArch, RunnerOs};

fn env_of(pairs: &[(&str, &str)]) -> Environment {
    let mut env = Environment::new();
    for (k, v) in pairs {
        env.set(k, v);
    }
    env
}

#[test]
fn os_parses_known_and_unknown() {
    assert_eq!(
        RunnerOs::Other("Plan9".into()),
        RunnerOs::Other("Plan9".into())
    );
}

#[test]
fn repo_parts_splits() {
    let ctx = Context::new(env_of(&[(vars::GITHUB_REPOSITORY, "octocat/Hello-World")]));
    assert_eq!(
        ctx.repo_parts(),
        Some(("octocat".to_owned(), "Hello-World".to_owned()))
    );
}

#[test]
fn repo_parts_splits_at_first_slash_only() {
    let ctx = Context::new(env_of(&[(vars::GITHUB_REPOSITORY, "a/b/c")]));
    assert_eq!(ctx.repo_parts(), Some(("a".to_owned(), "b/c".to_owned())));
    let ctx = Context::new(env_of(&[(vars::GITHUB_REPOSITORY, "noslash")]));
    assert_eq!(ctx.repo_parts(), None);
    let ctx = Context::new(Environment::new());
    assert_eq!(ctx.repo_parts(), None);
}

#[test]
fn environment_get_after_set() {
    let mut env = Environment::new();
    assert_eq!(env.get("A"), None);
    env.set("A", "1");
    env.set("B", "2");
    env.set("A", "3");
    assert_eq!(env.get("A"), Some("3".to_owned()));
    assert_eq!(env.get("B"), Some("2".to_owned()));
    assert_eq!(env.get("C"), None);
}

#[test]
fn os_and_arch_parse() {
    for (v, os) in [
        ("Linux", RunnerOs::Linux),
        ("Windows", RunnerOs::Windows),
        ("macOS", RunnerOs::MacOs),
        ("macos", RunnerOs::Other("macos".into())),
    ] {
        assert_eq!(RunnerOs::from_env(&env_of(&[(vars::RUNNER_OS, v)])), Some(os));
    }
    assert_eq!(RunnerOs::from_env(&env_of(&[(vars::RUNNER_OS, "")])), None);
    assert_eq!(RunnerOs::from_env(&Environment::new()), None);
    for (v, arch) in [
        ("X86", RunnerArch::X86),
        ("X64", RunnerArch::X64),
        ("ARM", RunnerArch::Arm),
        ("ARM64", RunnerArch::Arm64),
        ("RISCV", RunnerArch::Other("RISCV".into())),
    ] {
        assert_eq!(RunnerArch::from_env(&env_of(&[(vars::RUNNER_ARCH, v)])), Some(arch));
    }
    assert_eq!(RunnerArch::from_env(&Environment::new()), None);
}

#[test]
fn detection_flags() {
    let env = env_of(&[("GITHUB_ACTIONS", "true"), ("CI", "True"), ("RUNNER_DEBUG", "1")]);
    assert!(is_github_actions(&env));
    assert!(!is_ci(&env));
    assert!(is_debug(&env));
    assert!(!is_github_actions(&Environment::new()));
    assert!(!is_debug(&env_of(&[("RUNNER_DEBUG", "0")])));
}

#[test]
fn context_reads_nonempty_values() {
    let ctx = Context::new(env_of(&[
        (vars::GITHUB_SHA, "abc123"),
        (vars::GITHUB_REF, ""),
        (vars::GITHUB_RUN_ID, "123456789"),
        (vars::GITHUB_RUN_NUMBER, "+7"),
        (vars::GITHUB_EVENT_PATH, "/tmp/event.json"),
        (vars::GITHUB_ACTOR, "octocat"),
    ]));
    assert_eq!(ctx.sha(), Some("abc123".to_owned()));
    assert_eq!(ctx.git_ref(), None);
    assert_eq!(ctx.run_id(), Some(123456789));
    assert_eq!(ctx.run_number(), Some(7));
    assert_eq!(ctx.event_path(), Some("/tmp/event.json".to_owned()));
    assert_eq!(ctx.actor(), Some("octocat".to_owned()));
    assert_eq!(ctx.workflow(), None);
}

#[test]
fn run_id_rejects_non_numbers() {
    for bad in ["-1", "12a", "+", " 1", "18446744073709551616"] {
        let ctx = Context::new(env_of(&[(vars::GITHUB_RUN_ID, bad)]));
        assert_eq!(ctx.run_id(), None, "{bad:?}");
    }
    let ctx = Context::new(env_of(&[(vars::GITHUB_RUN_ID, "18446744073709551615")]));
    assert_eq!(ctx.run_id(), Some(u64::MAX));
}
