//! Canonical names of GitHub-provided environment variables.
//!
//! Use these instead of stringly-typed literals to avoid typos.

use vstd::prelude::*;

verus! {

/// `"true"` when running inside GitHub Actions.
pub const GITHUB_ACTIONS: &'static str = "GITHUB_ACTIONS";

/// `"true"` in any CI (set by Actions and most other CI systems).
pub const CI: &'static str = "CI";

/// `"1"` when step-debug logging is enabled.
pub const RUNNER_DEBUG: &'static str = "RUNNER_DEBUG";

/// Runner OS: `Linux`, `Windows` or `macOS`.
pub const RUNNER_OS: &'static str = "RUNNER_OS";

/// Runner CPU architecture: `X86`, `X64`, `ARM` or `ARM64`.
pub const RUNNER_ARCH: &'static str = "RUNNER_ARCH";

/// Temp directory cleaned up after each job.
pub const RUNNER_TEMP: &'static str = "RUNNER_TEMP";

/// Pre-installed tool cache directory.
pub const RUNNER_TOOL_CACHE: &'static str = "RUNNER_TOOL_CACHE";

/// `owner/repo`.
pub const GITHUB_REPOSITORY: &'static str = "GITHUB_REPOSITORY";

/// Repository owner login.
pub const GITHUB_REPOSITORY_OWNER: &'static str = "GITHUB_REPOSITORY_OWNER";

/// Commit SHA that triggered the run.
pub const GITHUB_SHA: &'static str = "GITHUB_SHA";

/// Full ref, e.g. `refs/heads/main`.
pub const GITHUB_REF: &'static str = "GITHUB_REF";

/// Short ref name, e.g. `main`.
pub const GITHUB_REF_NAME: &'static str = "GITHUB_REF_NAME";

/// `branch` or `tag`.
pub const GITHUB_REF_TYPE: &'static str = "GITHUB_REF_TYPE";

/// PR head ref (empty outside pull requests).
pub const GITHUB_HEAD_REF: &'static str = "GITHUB_HEAD_REF";

/// PR base ref (empty outside pull requests).
pub const GITHUB_BASE_REF: &'static str = "GITHUB_BASE_REF";

/// Event name that triggered the run, e.g. `push`.
pub const GITHUB_EVENT_NAME: &'static str = "GITHUB_EVENT_NAME";

/// Path to the JSON file with the full webhook payload.
pub const GITHUB_EVENT_PATH: &'static str = "GITHUB_EVENT_PATH";

/// Workspace directory (checked-out repo root).
pub const GITHUB_WORKSPACE: &'static str = "GITHUB_WORKSPACE";

/// Workflow name.
pub const GITHUB_WORKFLOW: &'static str = "GITHUB_WORKFLOW";

/// Job id of the current job.
pub const GITHUB_JOB: &'static str = "GITHUB_JOB";

/// Unique numeric id of the run.
pub const GITHUB_RUN_ID: &'static str = "GITHUB_RUN_ID";

/// Per-workflow incrementing run number.
pub const GITHUB_RUN_NUMBER: &'static str = "GITHUB_RUN_NUMBER";

/// Login of the user/app that triggered the run.
pub const GITHUB_ACTOR: &'static str = "GITHUB_ACTOR";

/// Server URL, e.g. `https://github.com`.
pub const GITHUB_SERVER_URL: &'static str = "GITHUB_SERVER_URL";

/// REST API base URL.
pub const GITHUB_API_URL: &'static str = "GITHUB_API_URL";

/// GraphQL API URL.
pub const GITHUB_GRAPHQL_URL: &'static str = "GITHUB_GRAPHQL_URL";

} // verus!
