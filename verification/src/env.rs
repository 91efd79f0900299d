//! Runtime detection and typed access to the GitHub Actions environment.
//!
//! The process environment is read once into an [`Environment`], a plain map
//! from variable names to values; every accessor here is a pure function of
//! that map. The canonical names are exposed as constants in [`vars`].

use vstd::prelude::*;

use crate::command::pairs_view;
use crate::text::{opt_view, parse_u64, parse_u64_spec, split_once, split_once_spec, str_eq, opt_pair_view};

pub mod vars;

verus! {

// ---------------------------------------------------------------------------
// Environment snapshot
// ---------------------------------------------------------------------------

/// The value bound to `k` by a list of assignments, the last one winning.
pub open spec fn lookup(s: Seq<(Seq<char>, Seq<char>)>, k: Seq<char>) -> Option<Seq<char>>
    decreases s.len(),
{
    if s.len() == 0 {
        None
    } else if s.last().0 == k {
        Some(s.last().1)
    } else {
        lookup(s.drop_last(), k)
    }
}

/// The value of variable `k`, if it is set.
pub open spec fn env_var(env: Map<Seq<char>, Seq<char>>, k: Seq<char>) -> Option<Seq<char>> {
    if env.contains_key(k) {
        Some(env[k])
    } else {
        None
    }
}

/// The value of variable `k`, if it is set and not empty.
pub open spec fn nonempty_var(env: Map<Seq<char>, Seq<char>>, k: Seq<char>) -> Option<Seq<char>> {
    match env_var(env, k) {
        Some(v) => if v.len() > 0 {
            Some(v)
        } else {
            None
        },
        None => None,
    }
}

/// A snapshot of environment variables: a map from names to values.
#[derive(Debug, Clone)]
pub struct Environment {
    entries: Vec<(String, String)>,
}

impl View for Environment {
    type V = Map<Seq<char>, Seq<char>>;

    closed spec fn view(&self) -> Map<Seq<char>, Seq<char>> {
        Map::new(
            |k: Seq<char>| lookup(pairs_view(self.entries@), k) is Some,
            |k: Seq<char>| lookup(pairs_view(self.entries@), k)->0,
        )
    }
}

impl Environment {
    /// An environment with no variables set.
    pub fn new() -> (r: Self)
        ensures
            r@ == Map::<Seq<char>, Seq<char>>::empty(),
    {
        let r = Environment { entries: Vec::new() };
        proof {
            assert(pairs_view(r.entries@) =~= Seq::empty());
            assert(r@ =~= Map::<Seq<char>, Seq<char>>::empty());
        }
        r
    }

    /// Set variable `key` to `value`, replacing any earlier value.
    pub fn set(&mut self, key: &str, value: &str)
        ensures
            final(self)@ == old(self)@.insert(key@, value@),
    {
        let ghost before = pairs_view(self.entries@);
        let ghost old_map = self@;
        self.entries.push((String::from_str(key), String::from_str(value)));
        proof {
            let after = pairs_view(self.entries@);
            assert(after =~= before.push((key@, value@)));
            assert(after.drop_last() =~= before);
            assert forall|k: Seq<char>| #[trigger] lookup(after, k) == (if k == key@ {
                Some(value@)
            } else {
                lookup(before, k)
            }) by {}
            assert(self@ =~= old_map.insert(key@, value@));
        }
    }

    /// The value of variable `key`, if it is set.
    pub fn get(&self, key: &str) -> (r: Option<String>)
        ensures
            opt_view(r) == env_var(self@, key@),
    {
        let ghost ps = pairs_view(self.entries@);
        let mut i: usize = self.entries.len();
        proof {
            assert(ps.take(i as int) =~= ps);
        }
        while i > 0
            invariant
                i <= self.entries.len(),
                ps == pairs_view(self.entries@),
                lookup(ps, key@) == lookup(ps.take(i as int), key@),
            decreases i,
        {
            let ghost t = ps.take(i as int);
            proof {
                assert(t.last() == ps[i - 1]);
                assert(t.drop_last() =~= ps.take(i - 1));
            }
            if str_eq(self.entries[i - 1].0.as_str(), key) {
                let v = self.entries[i - 1].1.clone();
                return Some(v);
            }
            i = i - 1;
        }
        proof {
            assert(ps.take(0) =~= Seq::<(Seq<char>, Seq<char>)>::empty());
        }
        None
    }
}

/// Reading a variable gives back the value last set for it, and setting one
/// variable leaves every other unchanged.
pub proof fn law_get_after_set(env: Map<Seq<char>, Seq<char>>, k: Seq<char>, v: Seq<char>, other: Seq<char>)
    ensures
        env_var(env.insert(k, v), k) == Some(v),
        other != k ==> env_var(env.insert(k, v), other) == env_var(env, other),
{
}

/// The value of variable `name`, if it is set and not empty.
fn var(env: &Environment, name: &str) -> (r: Option<String>)
    ensures
        opt_view(r) == nonempty_var(env@, name@),
{
    match env.get(name) {
        Some(v) => if v.as_str().is_empty() {
            None
        } else {
            Some(v)
        },
        None => None,
    }
}

// ---------------------------------------------------------------------------
// Runtime detection
// ---------------------------------------------------------------------------

/// Whether the code is running inside GitHub Actions (`GITHUB_ACTIONS=="true"`).
pub fn is_github_actions(env: &Environment) -> (r: bool)
    ensures
        r == (env_var(env@, vars::GITHUB_ACTIONS@) == Some("true"@)),
{
    match env.get(vars::GITHUB_ACTIONS) {
        Some(v) => str_eq(v.as_str(), "true"),
        None => false,
    }
}

/// Whether running in a CI environment (`CI=="true"`).
pub fn is_ci(env: &Environment) -> (r: bool)
    ensures
        r == (env_var(env@, vars::CI@) == Some("true"@)),
{
    match env.get(vars::CI) {
        Some(v) => str_eq(v.as_str(), "true"),
        None => false,
    }
}

/// Whether step-debug logging is enabled (`RUNNER_DEBUG=="1"`).
pub fn is_debug(env: &Environment) -> (r: bool)
    ensures
        r == (env_var(env@, vars::RUNNER_DEBUG@) == Some("1"@)),
{
    match env.get(vars::RUNNER_DEBUG) {
        Some(v) => str_eq(v.as_str(), "1"),
        None => false,
    }
}

// ---------------------------------------------------------------------------
// Runner OS and architecture
// ---------------------------------------------------------------------------

/// The runner operating system, parsed from `RUNNER_OS`.
#[derive(Debug, Clone, PartialEq, Eq)]
pub enum RunnerOs {
    /// `RUNNER_OS == "Linux"`.
    Linux,
    /// `RUNNER_OS == "Windows"`.
    Windows,
    /// `RUNNER_OS == "macOS"`.
    MacOs,
    /// An unrecognised value (forward-compatible).
    Other(String),
}

/// Whether `os` is what the value `v` of `RUNNER_OS` stands for.
pub open spec fn runner_os_of(v: Seq<char>, os: RunnerOs) -> bool {
    if v == "Linux"@ {
        os == RunnerOs::Linux
    } else if v == "Windows"@ {
        os == RunnerOs::Windows
    } else if v == "macOS"@ {
        os == RunnerOs::MacOs
    } else {
        os matches RunnerOs::Other(s) && s@ == v
    }
}

impl RunnerOs {
    /// Parse `RUNNER_OS`. `None` when unset or empty.
    pub fn from_env(env: &Environment) -> (r: Option<Self>)
        ensures
            match nonempty_var(env@, vars::RUNNER_OS@) {
                None => r is None,
                Some(v) => r matches Some(os) && runner_os_of(v, os),
            },
    {
        match var(env, vars::RUNNER_OS) {
            None => None,
            Some(v) => {
                if str_eq(v.as_str(), "Linux") {
                    Some(RunnerOs::Linux)
                } else if str_eq(v.as_str(), "Windows") {
                    Some(RunnerOs::Windows)
                } else if str_eq(v.as_str(), "macOS") {
                    Some(RunnerOs::MacOs)
                } else {
                    Some(RunnerOs::Other(v))
                }
            },
        }
    }
}

/// The runner CPU architecture, parsed from `RUNNER_ARCH`.
#[derive(Debug, Clone, PartialEq, Eq)]
pub enum RunnerArch {
    /// 32-bit x86.
    X86,
    /// 64-bit x86.
    X64,
    /// 32-bit ARM.
    Arm,
    /// 64-bit ARM.
    Arm64,
    /// An unrecognised value (forward-compatible).
    Other(String),
}

/// Whether `arch` is what the value `v` of `RUNNER_ARCH` stands for.
pub open spec fn runner_arch_of(v: Seq<char>, arch: RunnerArch) -> bool {
    if v == "X86"@ {
        arch == RunnerArch::X86
    } else if v == "X64"@ {
        arch == RunnerArch::X64
    } else if v == "ARM"@ {
        arch == RunnerArch::Arm
    } else if v == "ARM64"@ {
        arch == RunnerArch::Arm64
    } else {
        arch matches RunnerArch::Other(s) && s@ == v
    }
}

impl RunnerArch {
    /// Parse `RUNNER_ARCH`. `None` when unset or empty.
    pub fn from_env(env: &Environment) -> (r: Option<Self>)
        ensures
            match nonempty_var(env@, vars::RUNNER_ARCH@) {
                None => r is None,
                Some(v) => r matches Some(arch) && runner_arch_of(v, arch),
            },
    {
        match var(env, vars::RUNNER_ARCH) {
            None => None,
            Some(v) => {
                if str_eq(v.as_str(), "X86") {
                    Some(RunnerArch::X86)
                } else if str_eq(v.as_str(), "X64") {
                    Some(RunnerArch::X64)
                } else if str_eq(v.as_str(), "ARM") {
                    Some(RunnerArch::Arm)
                } else if str_eq(v.as_str(), "ARM64") {
                    Some(RunnerArch::Arm64)
                } else {
                    Some(RunnerArch::Other(v))
                }
            },
        }
    }
}

// ---------------------------------------------------------------------------
// Run context
// ---------------------------------------------------------------------------

/// The parsed value of a numeric variable: `None` when it is unset, empty or
/// not a `u64`.
pub open spec fn number_var(env: Map<Seq<char>, Seq<char>>, k: Seq<char>) -> Option<u64> {
    match nonempty_var(env, k) {
        Some(v) => parse_u64_spec(v),
        None => None,
    }
}

/// `(owner, repo)` split at the first `/` of the repository, when there is one.
pub open spec fn repo_parts_spec(env: Map<Seq<char>, Seq<char>>) -> Option<
    (Seq<char>, Seq<char>),
> {
    match nonempty_var(env, vars::GITHUB_REPOSITORY@) {
        Some(full) => split_once_spec(full, '/'),
        None => None,
    }
}

/// The parts of the repository put back together with `/` give the
/// repository, and the owner part holds no `/`.
pub proof fn law_repo_parts_rejoin(env: Map<Seq<char>, Seq<char>>)
    ensures
        repo_parts_spec(env) matches Some((owner, repo)) ==> {
            &&& nonempty_var(env, vars::GITHUB_REPOSITORY@) == Some(owner + seq!['/'] + repo)
            &&& !owner.contains('/')
        },
{
    if let Some(full) = nonempty_var(env, vars::GITHUB_REPOSITORY@) {
        if exists|k: int| crate::text::is_first_index(full, '/', k) {
            let k = choose|k: int| crate::text::is_first_index(full, '/', k);
            let owner = full.take(k);
            assert(full.take(k) + seq!['/'] + full.skip(k + 1) =~= full);
            assert forall|j: int| 0 <= j < owner.len() implies owner[j] != '/' by {
                assert(owner[j] == full[j]);
            }
        }
    }
}

/// Typed accessors for the workflow run context.
///
/// Every accessor reads a variable of the environment the context was made
/// from; unset and empty variables both read as `None`. The webhook payload
/// is exposed only as its *path* ([`Context::event_path`]).
#[derive(Debug, Clone)]
pub struct Context {
    env: Environment,
}

impl View for Context {
    type V = Map<Seq<char>, Seq<char>>;

    closed spec fn view(&self) -> Map<Seq<char>, Seq<char>> {
        self.env@
    }
}

impl Context {
    /// A context handle over the environment `env`.
    pub fn new(env: Environment) -> (r: Self)
        ensures
            r@ == env@,
    {
        Context { env }
    }

    /// `owner/repo`, if set.
    pub fn repository(&self) -> (r: Option<String>)
        ensures
            opt_view(r) == nonempty_var(self@, vars::GITHUB_REPOSITORY@),
    {
        var(&self.env, vars::GITHUB_REPOSITORY)
    }

    /// `(owner, repo)` split from [`Context::repository`] at its first `/`.
    pub fn repo_parts(&self) -> (r: Option<(String, String)>)
        ensures
            opt_pair_view(r) == repo_parts_spec(self@),
    {
        match self.repository() {
            Some(full) => split_once(full.as_str(), '/'),
            None => None,
        }
    }

    /// Repository owner login.
    pub fn repository_owner(&self) -> (r: Option<String>)
        ensures
            opt_view(r) == nonempty_var(self@, vars::GITHUB_REPOSITORY_OWNER@),
    {
        var(&self.env, vars::GITHUB_REPOSITORY_OWNER)
    }

    /// Commit SHA that triggered the run.
    pub fn sha(&self) -> (r: Option<String>)
        ensures
            opt_view(r) == nonempty_var(self@, vars::GITHUB_SHA@),
    {
        var(&self.env, vars::GITHUB_SHA)
    }

    /// Full git ref, e.g. `refs/heads/main`.
    pub fn git_ref(&self) -> (r: Option<String>)
        ensures
            opt_view(r) == nonempty_var(self@, vars::GITHUB_REF@),
    {
        var(&self.env, vars::GITHUB_REF)
    }

    /// Short ref name, e.g. `main`.
    pub fn ref_name(&self) -> (r: Option<String>)
        ensures
            opt_view(r) == nonempty_var(self@, vars::GITHUB_REF_NAME@),
    {
        var(&self.env, vars::GITHUB_REF_NAME)
    }

    /// `branch` or `tag`.
    pub fn ref_type(&self) -> (r: Option<String>)
        ensures
            opt_view(r) == nonempty_var(self@, vars::GITHUB_REF_TYPE@),
    {
        var(&self.env, vars::GITHUB_REF_TYPE)
    }

    /// PR head ref (`None` outside pull requests).
    pub fn head_ref(&self) -> (r: Option<String>)
        ensures
            opt_view(r) == nonempty_var(self@, vars::GITHUB_HEAD_REF@),
    {
        var(&self.env, vars::GITHUB_HEAD_REF)
    }

    /// PR base ref (`None` outside pull requests).
    pub fn base_ref(&self) -> (r: Option<String>)
        ensures
            opt_view(r) == nonempty_var(self@, vars::GITHUB_BASE_REF@),
    {
        var(&self.env, vars::GITHUB_BASE_REF)
    }

    /// Event name, e.g. `push`, `pull_request`.
    pub fn event_name(&self) -> (r: Option<String>)
        ensures
            opt_view(r) == nonempty_var(self@, vars::GITHUB_EVENT_NAME@),
    {
        var(&self.env, vars::GITHUB_EVENT_NAME)
    }

    /// Path to the webhook payload JSON file.
    pub fn event_path(&self) -> (r: Option<String>)
        ensures
            opt_view(r) == nonempty_var(self@, vars::GITHUB_EVENT_PATH@),
    {
        var(&self.env, vars::GITHUB_EVENT_PATH)
    }

    /// Workspace directory (checked-out repo root).
    pub fn workspace(&self) -> (r: Option<String>)
        ensures
            opt_view(r) == nonempty_var(self@, vars::GITHUB_WORKSPACE@),
    {
        var(&self.env, vars::GITHUB_WORKSPACE)
    }

    /// Workflow name.
    pub fn workflow(&self) -> (r: Option<String>)
        ensures
            opt_view(r) == nonempty_var(self@, vars::GITHUB_WORKFLOW@),
    {
        var(&self.env, vars::GITHUB_WORKFLOW)
    }

    /// Current job id.
    pub fn job(&self) -> (r: Option<String>)
        ensures
            opt_view(r) == nonempty_var(self@, vars::GITHUB_JOB@),
    {
        var(&self.env, vars::GITHUB_JOB)
    }

    /// Unique numeric run id.
    pub fn run_id(&self) -> (r: Option<u64>)
        ensures
            r == number_var(self@, vars::GITHUB_RUN_ID@),
    {
        match var(&self.env, vars::GITHUB_RUN_ID) {
            Some(v) => parse_u64(v.as_str()),
            None => None,
        }
    }

    /// Per-workflow incrementing run number.
    pub fn run_number(&self) -> (r: Option<u64>)
        ensures
            r == number_var(self@, vars::GITHUB_RUN_NUMBER@),
    {
        match var(&self.env, vars::GITHUB_RUN_NUMBER) {
            Some(v) => parse_u64(v.as_str()),
            None => None,
        }
    }

    /// Login of the triggering user/app.
    pub fn actor(&self) -> (r: Option<String>)
        ensures
            opt_view(r) == nonempty_var(self@, vars::GITHUB_ACTOR@),
    {
        var(&self.env, vars::GITHUB_ACTOR)
    }

    /// Server URL (`https://github.com` or an Enterprise URL).
    pub fn server_url(&self) -> (r: Option<String>)
        ensures
            opt_view(r) == nonempty_var(self@, vars::GITHUB_SERVER_URL@),
    {
        var(&self.env, vars::GITHUB_SERVER_URL)
    }

    /// REST API base URL.
    pub fn api_url(&self) -> (r: Option<String>)
        ensures
            opt_view(r) == nonempty_var(self@, vars::GITHUB_API_URL@),
    {
        var(&self.env, vars::GITHUB_API_URL)
    }

    /// GraphQL API URL.
    pub fn graphql_url(&self) -> (r: Option<String>)
        ensures
            opt_view(r) == nonempty_var(self@, vars::GITHUB_GRAPHQL_URL@),
    {
        var(&self.env, vars::GITHUB_GRAPHQL_URL)
    }
}

} // verus!
