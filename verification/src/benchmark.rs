//! The per-project benchmark pipeline: a three-stage state machine
//! (clone, build, test) that turns the outcome of each external command
//! into the project's next state, plus the orchestration that partitions
//! per-stage outcomes and aggregates results.
//!
//! The application performs the actual subprocess calls and hands each
//! call's outcome to the functions here as an event value; every decision
//! about what that outcome means is made — and verified — in this module.

use vstd::prelude::*;
use vstd::string::StringExecFns;

use crate::utils::GITHUB_URL;
use crate::utils::ProjectConfig;
use crate::utils::ProjectConfigView;

verus! {

/// Mathematical image of a [`Source`].
pub ghost enum SourceView {
    Version(Seq<char>),
    Branch(Seq<char>),
}

/// Foundry source under comparison: either a tagged version or a branch.
#[derive(Debug)]
pub enum Source {
    Version(String),
    Branch(String),
}

impl View for Source {
    type V = SourceView;

    open spec fn view(&self) -> SourceView {
        match self {
            Source::Version(v) => SourceView::Version(v@),
            Source::Branch(b) => SourceView::Branch(b@),
        }
    }
}

impl Source {
    /// The `foundryup` flag selecting this kind of source.
    pub fn short(&self) -> (r: &'static str)
        ensures
            r@ == match self {
                Source::Version(_) => "-v"@,
                Source::Branch(_) => "-b"@,
            },
    {
        match self {
            Source::Version(_) => "-v",
            Source::Branch(_) => "-b",
        }
    }

    /// The kind of source, as a word.
    pub fn ty(&self) -> (r: &'static str)
        ensures
            r@ == match self {
                Source::Version(_) => "version"@,
                Source::Branch(_) => "branch"@,
            },
    {
        match self {
            Source::Branch(_) => "branch",
            Source::Version(_) => "version",
        }
    }

    /// The tag or branch name itself.
    pub fn name(&self) -> (r: &String)
        ensures
            r@ == match self {
                Source::Version(v) => v@,
                Source::Branch(b) => b@,
            },
    {
        match self {
            Source::Branch(b) => b,
            Source::Version(v) => v,
        }
    }

    /// The web page describing this source within the given repository.
    pub fn github_url(&self, foundry_repo: &str) -> (r: String)
        ensures
            r@ == match self {
                Source::Branch(b) => GITHUB_URL@ + "/"@ + foundry_repo@ + "/tree/"@ + b@,
                Source::Version(v) => GITHUB_URL@ + "/"@ + foundry_repo@ + "/releases/tag/"@
                    + v@,
            },
    {
        let mut s: String = GITHUB_URL.to_owned();
        s.append("/");
        s.append(foundry_repo);
        match self {
            Source::Branch(b) => {
                s.append("/tree/");
                s.append(b.as_str());
            },
            Source::Version(v) => {
                s.append("/releases/tag/");
                s.append(v.as_str());
            },
        }
        s
    }
}

impl Clone for Source {
    fn clone(&self) -> (r: Self)
        ensures
            r == *self,
    {
        match self {
            Source::Version(v) => Source::Version(v.clone()),
            Source::Branch(b) => Source::Branch(b.clone()),
        }
    }
}

/// The stage at which a project's pipeline run failed.
#[derive(Clone, Copy, Debug, PartialEq, Eq, Structural)]
pub enum Stage {
    Clone,
    Build,
    Test,
}

impl Stage {
    /// The stage's name as it appears in failure reports.
    pub fn as_str(&self) -> (r: &'static str)
        ensures
            r@ == match self {
                Stage::Clone => "clone"@,
                Stage::Build => "build"@,
                Stage::Test => "test"@,
            },
    {
        match self {
            Stage::Clone => "clone",
            Stage::Build => "build",
            Stage::Test => "test",
        }
    }
}

/// Relies on `tempfile::TempDir`: exclusively owns a freshly created
/// temporary directory and removes it, with its contents, when dropped.
#[verifier::external_type_specification]
#[verifier::external_body]
pub struct ExTempDir(tempfile::TempDir);

/// A project's isolated working directory: the path the external commands
/// run in, and the handle whose drop deletes the directory.
pub struct Workspace {
    pub path: String,
    pub temp_dir: tempfile::TempDir,
}

/// Mathematical image of a [`Ready`] state (the directory handle carries no
/// mathematical content).
pub ghost struct ReadyView {
    pub config: ProjectConfigView,
    pub path: Seq<char>,
}

/// State of a project after it has been successfully cloned. The `temp_dir`
/// field owns the workspace, ensuring cleanup when the state is dropped.
pub struct Ready {
    pub config: ProjectConfig,
    pub path: String,
    pub temp_dir: tempfile::TempDir,
}

impl View for Ready {
    type V = ReadyView;

    open spec fn view(&self) -> ReadyView {
        ReadyView { config: self.config@, path: self.path@ }
    }
}

/// Mathematical image of a [`Built`] state.
pub ghost struct BuiltView {
    pub state: ReadyView,
    pub build_time_millis: u64,
}

/// State of a project after it has been successfully built.
pub struct Built {
    pub state: Ready,
    pub build_time_millis: u64,
}

impl View for Built {
    type V = BuiltView;

    open spec fn view(&self) -> BuiltView {
        BuiltView { state: self.state@, build_time_millis: self.build_time_millis }
    }
}

/// Mathematical image of a [`Tested`] record.
pub ghost struct TestedView {
    pub name: Seq<char>,
    pub url: Seq<char>,
    pub build_time_millis: u64,
    pub avg_test_time_millis: int,
    pub runs: int,
}

/// Final record of a project that passed every stage. Durations are in
/// milliseconds; `avg_test_time_millis` is the mean over exactly `runs`
/// successful test runs, `0` when `runs` is `0`.
pub struct Tested {
    pub name: String,
    pub url: String,
    pub build_time_millis: u64,
    pub avg_test_time_millis: u64,
    pub runs: usize,
}

impl View for Tested {
    type V = TestedView;

    open spec fn view(&self) -> TestedView {
        TestedView {
            name: self.name@,
            url: self.url@,
            build_time_millis: self.build_time_millis,
            avg_test_time_millis: self.avg_test_time_millis as int,
            runs: self.runs as int,
        }
    }
}

impl DeepView for Tested {
    type V = TestedView;

    open spec fn deep_view(&self) -> TestedView {
        self@
    }
}

/// Aggregates everything the reporting layer needs to diff two runs.
pub struct Benchmarks {
    pub foundry_repo: String,
    pub verbosity: String,
    pub ref_source: Source,
    pub ref_tests: Vec<Tested>,
    pub vs_source: Source,
    pub vs_tests: Vec<Tested>,
}

/// Mathematical image of a [`ProjectState`].
pub ghost enum ProjectStateView {
    Cloned(ReadyView),
    Built(BuiltView),
    Tested(TestedView),
    Failed { name: Seq<char>, stage: Stage, error: Seq<char> },
}

/// State of a project during the benchmark pipeline: each stage either
/// advances the state or diverts it to `Failed`; transitions are one-way.
pub enum ProjectState {
    Cloned(Ready),
    Built(Built),
    Tested(Tested),
    Failed { name: String, stage: Stage, error: String },
}

impl View for ProjectState {
    type V = ProjectStateView;

    open spec fn view(&self) -> ProjectStateView {
        match self {
            ProjectState::Cloned(r) => ProjectStateView::Cloned(r@),
            ProjectState::Built(b) => ProjectStateView::Built(b@),
            ProjectState::Tested(t) => ProjectStateView::Tested(t@),
            ProjectState::Failed { name, stage, error } => ProjectStateView::Failed {
                name: name@,
                stage: *stage,
                error: error@,
            },
        }
    }
}

/// Mathematical image of a [`CloneEvent`].
pub ghost enum CloneEventView {
    DirFailed { message: Seq<char> },
    SpawnFailed { path: Seq<char>, message: Seq<char> },
    Completed { path: Seq<char>, success: bool, stderr: Seq<char> },
}

/// Outcome of the workspace-provisioning work for one project: allocating
/// the temporary directory and running the fetch command in it.
pub enum CloneEvent {
    /// The temporary directory could not be created.
    DirFailed { message: String },
    /// The fetch command could not be launched.
    SpawnFailed { workspace: Workspace, message: String },
    /// The fetch command ran and exited; `success` is its exit status.
    Completed { workspace: Workspace, success: bool, stderr: String },
}

impl View for CloneEvent {
    type V = CloneEventView;

    open spec fn view(&self) -> CloneEventView {
        match self {
            CloneEvent::DirFailed { message } => CloneEventView::DirFailed { message: message@ },
            CloneEvent::SpawnFailed { workspace, message } => CloneEventView::SpawnFailed {
                path: workspace.path@,
                message: message@,
            },
            CloneEvent::Completed { workspace, success, stderr } => CloneEventView::Completed {
                path: workspace.path@,
                success: *success,
                stderr: stderr@,
            },
        }
    }
}

/// Mathematical image of a [`BuildEvent`].
pub ghost enum BuildEventView {
    SetupFailed { message: Seq<char> },
    SpawnFailed { message: Seq<char> },
    Completed { success: bool, stderr: Seq<char>, duration_millis: u64 },
}

/// Outcome of the customize-and-build work for one cloned project.
pub enum BuildEvent {
    /// Installing dependencies or writing a setup file failed.
    SetupFailed { message: String },
    /// The build command could not be launched.
    SpawnFailed { message: String },
    /// The build command ran and exited after `duration_millis`.
    Completed { success: bool, stderr: String, duration_millis: u64 },
}

impl View for BuildEvent {
    type V = BuildEventView;

    open spec fn view(&self) -> BuildEventView {
        match self {
            BuildEvent::SetupFailed { message } => BuildEventView::SetupFailed {
                message: message@,
            },
            BuildEvent::SpawnFailed { message } => BuildEventView::SpawnFailed {
                message: message@,
            },
            BuildEvent::Completed { success, stderr, duration_millis } => BuildEventView::Completed {
                success: *success,
                stderr: stderr@,
                duration_millis: *duration_millis,
            },
        }
    }
}

/// The state a project reaches when its clone event is settled: `Cloned` on
/// a successful fetch, otherwise `Failed` at the clone stage carrying the
/// event's error text.
pub open spec fn clone_state_spec(repo: ProjectConfigView, ev: CloneEventView) -> ProjectStateView {
    match ev {
        CloneEventView::DirFailed { message } => ProjectStateView::Failed {
            name: repo.name,
            stage: Stage::Clone,
            error: message,
        },
        CloneEventView::SpawnFailed { path, message } => ProjectStateView::Failed {
            name: repo.name,
            stage: Stage::Clone,
            error: message,
        },
        CloneEventView::Completed { path, success, stderr } => if success {
            ProjectStateView::Cloned(ReadyView { config: repo, path })
        } else {
            ProjectStateView::Failed { name: repo.name, stage: Stage::Clone, error: stderr }
        },
    }
}

/// Settles the clone stage for one project from the provisioning outcome.
/// On failure the workspace handle inside the event is dropped, deleting
/// the directory; on success it moves into the `Cloned` state.
pub fn try_clone_project(repo: &ProjectConfig, event: CloneEvent) -> (r: ProjectState)
    ensures
        r@ == clone_state_spec(repo@, event@),
{
    match event {
        CloneEvent::DirFailed { message } => ProjectState::Failed {
            name: repo.name.clone(),
            stage: Stage::Clone,
            error: message,
        },
        CloneEvent::SpawnFailed { workspace: _, message } => ProjectState::Failed {
            name: repo.name.clone(),
            stage: Stage::Clone,
            error: message,
        },
        CloneEvent::Completed { workspace, success, stderr } => {
            if success {
                ProjectState::Cloned(
                    Ready {
                        config: repo.clone(),
                        path: workspace.path,
                        temp_dir: workspace.temp_dir,
                    },
                )
            } else {
                ProjectState::Failed {
                    name: repo.name.clone(),
                    stage: Stage::Clone,
                    error: stderr,
                }
            }
        },
    }
}

/// The state a cloned project reaches when its build event is settled:
/// `Built` with the measured duration on success, otherwise `Failed` at the
/// build stage carrying the event's error text.
pub open spec fn build_state_spec(ready: ReadyView, ev: BuildEventView) -> ProjectStateView {
    match ev {
        BuildEventView::SetupFailed { message } => ProjectStateView::Failed {
            name: ready.config.name,
            stage: Stage::Build,
            error: message,
        },
        BuildEventView::SpawnFailed { message } => ProjectStateView::Failed {
            name: ready.config.name,
            stage: Stage::Build,
            error: message,
        },
        BuildEventView::Completed { success, stderr, duration_millis } => if success {
            ProjectStateView::Built(BuiltView { state: ready, build_time_millis: duration_millis })
        } else {
            ProjectStateView::Failed {
                name: ready.config.name,
                stage: Stage::Build,
                error: stderr,
            }
        },
    }
}

/// Settles the build stage for one cloned project from the customize-and-
/// build outcome. On failure the consumed state's workspace handle is
/// dropped, deleting the directory; on success it moves into `Built`.
pub fn try_build_project(cloned_state: Ready, event: BuildEvent) -> (r: ProjectState)
    ensures
        r@ == build_state_spec(cloned_state@, event@),
{
    match event {
        BuildEvent::SetupFailed { message } => ProjectState::Failed {
            name: cloned_state.config.name.clone(),
            stage: Stage::Build,
            error: message,
        },
        BuildEvent::SpawnFailed { message } => ProjectState::Failed {
            name: cloned_state.config.name.clone(),
            stage: Stage::Build,
            error: message,
        },
        BuildEvent::Completed { success, stderr, duration_millis } => {
            if success {
                ProjectState::Built(
                    Built { state: cloned_state, build_time_millis: duration_millis },
                )
            } else {
                ProjectState::Failed {
                    name: cloned_state.config.name.clone(),
                    stage: Stage::Build,
                    error: stderr,
                }
            }
        },
    }
}

/// The given lines joined by single newline characters, with no trailing
/// newline.
pub open spec fn join_lines(lines: Seq<Seq<char>>) -> Seq<char>
    decreases lines.len(),
{
    if lines.len() == 0 {
        Seq::empty()
    } else if lines.len() == 1 {
        lines[0]
    } else {
        join_lines(lines.drop_last()) + seq!['\n'] + lines.last()
    }
}

/// One `NAME=value` line per binding, in the bindings' order.
pub open spec fn dotenv_lines(pairs: Seq<(Seq<char>, Seq<char>)>) -> Seq<Seq<char>> {
    pairs.map_values(|p: (Seq<char>, Seq<char>)| p.0 + seq!['='] + p.1)
}

/// The text of the workspace's `remappings.txt`: the remapping strings
/// joined with newlines.
pub fn remappings_file_content(remappings: &Vec<String>) -> (r: String)
    ensures
        r@ == join_lines(remappings.deep_view()),
{
    let mut r = String::new();
    let n = remappings.len();
    let mut i: usize = 0;
    while i < n
        invariant
            n == remappings@.len(),
            i <= n,
            r@ == join_lines(remappings.deep_view().subrange(0, i as int)),
        decreases n - i,
    {
        if i > 0 {
            r.append("\n");
            proof {
                reveal_strlit("\n");
                assert("\n"@ =~= seq!['\n']);
            }
        }
        r.append(remappings[i].as_str());
        proof {
            let full = remappings.deep_view();
            let pre = full.subrange(0, i as int);
            let post = full.subrange(0, i + 1 as int);
            assert(post.drop_last() =~= pre);
            assert(post.last() == full[i as int]);
            assert(full[i as int] == remappings@[i as int]@);
            if i == 0 {
                assert(r@ =~= join_lines(post));
            } else {
                assert(r@ =~= join_lines(post));
            }
        }
        i = i + 1;
    }
    proof {
        assert(remappings.deep_view().subrange(0, n as int) =~= remappings.deep_view());
    }
    r
}

/// The text of the workspace's `.env` file: one `NAME=value` line per
/// binding, joined with newlines.
pub fn env_file_content(env: &crate::utils::EnvVars) -> (r: String)
    ensures
        r@ == join_lines(dotenv_lines(env@)),
{
    let mut r = String::new();
    let n = env.len();
    let mut i: usize = 0;
    while i < n
        invariant
            n == env@.len(),
            i <= n,
            r@ == join_lines(dotenv_lines(env@).subrange(0, i as int)),
        decreases n - i,
    {
        if i > 0 {
            r.append("\n");
            proof {
                reveal_strlit("\n");
                assert("\n"@ =~= seq!['\n']);
            }
        }
        let pair = env.pair_at(i);
        r.append(pair.0.as_str());
        r.append("=");
        r.append(pair.1.as_str());
        proof {
            reveal_strlit("=");
            assert("="@ =~= seq!['=']);
            let full = dotenv_lines(env@);
            let pre = full.subrange(0, i as int);
            let post = full.subrange(0, i + 1 as int);
            assert(post.drop_last() =~= pre);
            assert(post.last() == full[i as int]);
            assert(full[i as int] == env@[i as int].0 + seq!['='] + env@[i as int].1);
            assert(r@ =~= join_lines(post));
        }
        i = i + 1;
    }
    proof {
        assert(dotenv_lines(env@).subrange(0, n as int) =~= dotenv_lines(env@));
    }
    r
}

/// `-v` repeated to the requested verbosity after a single dash:
/// `-v`, `-vv`, and so on.
pub open spec fn verbosity_flag_chars(verbosity: int) -> Seq<char> {
    seq!['-'] + Seq::new(verbosity as nat, |i: int| 'v')
}

/// The verbosity flag handed to the test command.
pub fn verbosity_flag(verbosity: u8) -> (r: String)
    ensures
        r@ == verbosity_flag_chars(verbosity as int),
{
    let mut r: String = "-".to_owned();
    proof {
        reveal_strlit("-");
        assert("-"@ =~= seq!['-']);
        assert(r@ =~= verbosity_flag_chars(0));
    }
    let mut i: u8 = 0;
    while i < verbosity
        invariant
            i <= verbosity,
            r@ == verbosity_flag_chars(i as int),
        decreases verbosity - i,
    {
        r.append("v");
        proof {
            reveal_strlit("v");
            assert("v"@ =~= seq!['v']);
            assert(r@ =~= verbosity_flag_chars(i + 1 as int));
        }
        i = i + 1;
    }
    r
}

/// The exact argument list of the fetch command: a shallow clone of the
/// source URL into the workspace path.
pub fn git_clone_args(url: &str, path: &str) -> (r: Vec<String>)
    ensures
        r.deep_view() == seq!["clone"@, "--depth"@, "1"@, url@, path@],
{
    let mut r: Vec<String> = Vec::new();
    r.push("clone".to_owned());
    r.push("--depth".to_owned());
    r.push("1".to_owned());
    r.push(url.to_owned());
    r.push(path.to_owned());
    proof {
        assert(r.deep_view() =~= seq!["clone"@, "--depth"@, "1"@, url@, path@]);
    }
    r
}

/// The exact argument list of the dependency-install command: the install
/// subcommand followed by the configured arguments.
pub fn forge_install_args(deps: &Vec<String>) -> (r: Vec<String>)
    ensures
        r.deep_view() == seq!["install"@] + deps.deep_view(),
{
    let mut r: Vec<String> = Vec::new();
    r.push("install".to_owned());
    let n = deps.len();
    let mut i: usize = 0;
    while i < n
        invariant
            n == deps@.len(),
            i <= n,
            r@.len() == i + 1,
            r@[0]@ == "install"@,
            forall|j: int| 0 <= j < i ==> #[trigger] r@[j + 1]@ == deps@[j]@,
        decreases n - i,
    {
        r.push(deps[i].clone());
        i = i + 1;
    }
    proof {
        assert forall|k: int| 0 <= k < n + 1 implies r.deep_view()[k] == (seq!["install"@]
            + deps.deep_view())[k] by {
            assert(r.deep_view()[k] == r@[k]@);
            if k > 0 {
                assert(deps.deep_view()[k - 1] == deps@[k - 1]@);
                assert(r@[(k - 1) + 1]@ == deps@[k - 1]@);
            }
        }
        assert(r.deep_view() =~~= seq!["install"@] + deps.deep_view());
    }
    r
}

/// The exact argument list of the test command: the test subcommand, with
/// the verbosity flag appended only when verbosity is positive.
pub fn forge_test_args(verbosity: u8) -> (r: Vec<String>)
    ensures
        r.deep_view() == if verbosity == 0 {
            seq!["test"@]
        } else {
            seq!["test"@, verbosity_flag_chars(verbosity as int)]
        },
{
    let mut r: Vec<String> = Vec::new();
    r.push("test".to_owned());
    if verbosity != 0 {
        r.push(verbosity_flag(verbosity));
        proof {
            assert(r.deep_view() =~= seq!["test"@, verbosity_flag_chars(verbosity as int)]);
        }
    } else {
        proof {
            assert(r.deep_view() =~= seq!["test"@]);
        }
    }
    r
}

/// Sum of the run durations, in milliseconds.
pub open spec fn sum_millis(s: Seq<u64>) -> int
    decreases s.len(),
{
    if s.len() == 0 {
        0
    } else {
        sum_millis(s.drop_last()) + s.last()
    }
}

/// A sum of `n` durations is at most `n` times the largest duration value.
pub proof fn lemma_sum_millis_bound(s: Seq<u64>)
    ensures
        0 <= sum_millis(s) <= s.len() * u64::MAX,
    decreases s.len(),
{
    if s.len() > 0 {
        lemma_sum_millis_bound(s.drop_last());
    }
}

/// The average duration: the sum divided by the number of runs, `0` when
/// there are no runs.
pub open spec fn average_millis(s: Seq<u64>, runs: int) -> int {
    if runs == 0 {
        0
    } else {
        sum_millis(s) / runs
    }
}

/// The record a fully tested project produces.
pub open spec fn tested_record_spec(built: BuiltView, times: Seq<u64>, runs: int) -> TestedView {
    TestedView {
        name: built.state.config.name,
        url: crate::utils::url_of(built.state.config.name),
        build_time_millis: built.build_time_millis,
        avg_test_time_millis: average_millis(times, runs),
        runs: runs,
    }
}

impl Tested {
    /// Builds the terminal record from the consumed `Built` state and the
    /// collected run durations. Consuming the state drops the workspace
    /// handle, deleting the temporary directory.
    pub fn new(built_state: Built, tests_times: Vec<u64>, runs: usize) -> (t: Tested)
        requires
            tests_times@.len() == runs,
        ensures
            t@ == tested_record_spec(built_state@, tests_times@, runs as int),
    {
        let avg: u64 = if runs > 0 {
            let n = tests_times.len();
            let mut total: u128 = 0;
            let mut i: usize = 0;
            while i < n
                invariant
                    n == tests_times@.len(),
                    i <= n,
                    total == sum_millis(tests_times@.subrange(0, i as int)),
                    total <= i * (u64::MAX as int),
                decreases n - i,
            {
                proof {
                    let pre = tests_times@.subrange(0, i as int);
                    let post = tests_times@.subrange(0, i + 1 as int);
                    assert(post.drop_last() =~= pre);
                }
                total = total + tests_times[i] as u128;
                i = i + 1;
            }
            proof {
                assert(tests_times@.subrange(0, n as int) =~= tests_times@);
                lemma_avg_fits(total as int, runs as int);
            }
            (total / (runs as u128)) as u64
        } else {
            0
        };
        Tested {
            name: built_state.state.config.name.clone(),
            url: built_state.state.config.url(),
            build_time_millis: built_state.build_time_millis,
            avg_test_time_millis: avg,
            runs,
        }
    }
}

/// Mathematical image of a [`TestEvent`].
pub ghost enum TestEventView {
    SpawnFailed { message: Seq<char> },
    Completed { success: bool, stdout: Seq<char>, duration_millis: u64 },
}

/// Outcome of one run of the test command against a built project.
pub enum TestEvent {
    /// The test command could not be launched.
    SpawnFailed { message: String },
    /// The test command ran and exited after `duration_millis`.
    Completed { success: bool, stdout: String, duration_millis: u64 },
}

impl View for TestEvent {
    type V = TestEventView;

    open spec fn view(&self) -> TestEventView {
        match self {
            TestEvent::SpawnFailed { message } => TestEventView::SpawnFailed { message: message@ },
            TestEvent::Completed { success, stdout, duration_millis } => TestEventView::Completed {
                success: *success,
                stdout: stdout@,
                duration_millis: *duration_millis,
            },
        }
    }
}

impl DeepView for TestEvent {
    type V = TestEventView;

    open spec fn deep_view(&self) -> TestEventView {
        self@
    }
}

/// How a sequence of test runs ends: all requested runs passed (with their
/// durations), some run failed (with its error text), or the events ran out
/// before the requested count.
pub ghost enum TestVerdict {
    Passed { durations: Seq<u64> },
    FailedRun { error: Seq<char> },
    Incomplete,
}

/// Folds the first `num_runs` test events: stops at the first failure,
/// collects the durations otherwise.
pub open spec fn test_verdict(events: Seq<TestEventView>, num_runs: int) -> TestVerdict
    decreases num_runs,
{
    if num_runs <= 0 {
        TestVerdict::Passed { durations: Seq::empty() }
    } else if events.len() == 0 {
        TestVerdict::Incomplete
    } else {
        match events[0] {
            TestEventView::SpawnFailed { message } => TestVerdict::FailedRun { error: message },
            TestEventView::Completed { success, stdout, duration_millis } => if !success {
                TestVerdict::FailedRun { error: stdout }
            } else {
                match test_verdict(events.drop_first(), num_runs - 1) {
                    TestVerdict::Passed { durations } => TestVerdict::Passed {
                        durations: seq![duration_millis] + durations,
                    },
                    v => v,
                }
            },
        }
    }
}

/// Prepends already-collected durations to a verdict's duration list.
pub open spec fn verdict_prepend(acc: Seq<u64>, v: TestVerdict) -> TestVerdict {
    match v {
        TestVerdict::Passed { durations } => TestVerdict::Passed { durations: acc + durations },
        other => other,
    }
}

/// The state a built project reaches after its test runs: `Tested` when all
/// requested runs passed, otherwise `Failed` at the test stage with the
/// first failing run's output, or a fixed message when fewer events than
/// requested runs were supplied.
pub open spec fn test_state_spec(
    built: BuiltView,
    events: Seq<TestEventView>,
    num_runs: int,
) -> ProjectStateView {
    match test_verdict(events, num_runs) {
        TestVerdict::Passed { durations } => ProjectStateView::Tested(
            tested_record_spec(built, durations, num_runs),
        ),
        TestVerdict::FailedRun { error } => ProjectStateView::Failed {
            name: built.state.config.name,
            stage: Stage::Test,
            error: error,
        },
        TestVerdict::Incomplete => ProjectStateView::Failed {
            name: built.state.config.name,
            stage: Stage::Test,
            error: "incomplete test runs"@,
        },
    }
}

/// The test stage in progress for one built project: the durations of the
/// successful runs so far, out of the requested number.
pub struct TestRun {
    pub built: Built,
    pub num_runs: usize,
    pub times_millis: Vec<u64>,
}

/// What one recorded run outcome leads to: another run is owed, or the
/// project has reached a terminal state.
pub enum TestStep {
    Continue(TestRun),
    Done(ProjectState),
}

impl TestRun {
    /// Never more durations than requested runs.
    pub open spec fn wf(&self) -> bool {
        self.times_millis@.len() <= self.num_runs
    }

    /// Starts the test stage: no runs have happened yet.
    pub fn new(built: Built, num_runs: usize) -> (r: TestRun)
        ensures
            r.built == built,
            r.num_runs == num_runs,
            r.times_millis@ == Seq::<u64>::empty(),
            r.wf(),
    {
        let r = TestRun { built, num_runs, times_millis: Vec::new() };
        proof {
            assert(r.times_millis@ =~= Seq::<u64>::empty());
        }
        r
    }

    /// Whether another run is owed.
    pub fn needs_run(&self) -> (r: bool)
        ensures
            r == (self.times_millis@.len() < self.num_runs),
    {
        self.times_millis.len() < self.num_runs
    }

    /// Records the outcome of one run: a failure ends the project at the
    /// test stage at once, discarding the earlier durations; the final
    /// successful run yields the `Tested` record; any earlier success asks
    /// for another run.
    pub fn step(self, event: TestEvent) -> (r: TestStep)
        requires
            self.wf(),
            self.times_millis@.len() < self.num_runs,
        ensures
            match event@ {
                TestEventView::SpawnFailed { message } => r matches TestStep::Done(s) && s@
                    == (ProjectStateView::Failed {
                    name: self.built@.state.config.name,
                    stage: Stage::Test,
                    error: message,
                }),
                TestEventView::Completed { success, stdout, duration_millis } => if !success {
                    r matches TestStep::Done(s) && s@ == (ProjectStateView::Failed {
                        name: self.built@.state.config.name,
                        stage: Stage::Test,
                        error: stdout,
                    })
                } else if self.times_millis@.len() + 1 == self.num_runs {
                    r matches TestStep::Done(s) && s@ == ProjectStateView::Tested(
                        tested_record_spec(
                            self.built@,
                            self.times_millis@.push(duration_millis),
                            self.num_runs as int,
                        ),
                    )
                } else {
                    r matches TestStep::Continue(t) && t.built == self.built && t.num_runs
                        == self.num_runs && t.times_millis@ == self.times_millis@.push(
                        duration_millis,
                    ) && t.wf()
                },
            },
    {
        match event {
            TestEvent::SpawnFailed { message } => TestStep::Done(
                ProjectState::Failed {
                    name: self.built.state.config.name.clone(),
                    stage: Stage::Test,
                    error: message,
                },
            ),
            TestEvent::Completed { success, stdout, duration_millis } => {
                if !success {
                    TestStep::Done(
                        ProjectState::Failed {
                            name: self.built.state.config.name.clone(),
                            stage: Stage::Test,
                            error: stdout,
                        },
                    )
                } else {
                    let mut times = self.times_millis;
                    times.push(duration_millis);
                    if times.len() == self.num_runs {
                        TestStep::Done(
                            ProjectState::Tested(Tested::new(self.built, times, self.num_runs)),
                        )
                    } else {
                        TestStep::Continue(
                            TestRun {
                                built: self.built,
                                num_runs: self.num_runs,
                                times_millis: times,
                            },
                        )
                    }
                }
            },
        }
    }

    /// Concludes the test stage once every requested run has succeeded.
    pub fn finish(self) -> (r: ProjectState)
        requires
            self.times_millis@.len() == self.num_runs,
        ensures
            r@ == ProjectStateView::Tested(
                tested_record_spec(self.built@, self.times_millis@, self.num_runs as int),
            ),
    {
        ProjectState::Tested(Tested::new(self.built, self.times_millis, self.num_runs))
    }
}

/// Runs the test stage over a pre-gathered list of run outcomes: drives
/// [`TestRun`] over the events, stopping at the first failure, and reports
/// the project failed when fewer events than requested runs were supplied.
pub fn try_test_project(built: Built, events: Vec<TestEvent>, num_runs: usize) -> (r: ProjectState)
    ensures
        r@ == test_state_spec(built@, events.deep_view(), num_runs as int),
{
    let ghost built_view = built@;
    let ghost events_view = events.deep_view();
    let mut tr = TestRun::new(built, num_runs);
    let mut remaining = events;
    proof {
        assert(remaining.deep_view() =~= events_view.subrange(0, events_view.len() as int));
        lemma_verdict_prepend_empty(test_verdict(events_view, num_runs as int));
        assert(tr.times_millis@ + Seq::<u64>::empty() =~= tr.times_millis@);
    }
    loop
        invariant
            built_view == built@,
            events_view == events.deep_view(),
            tr.built@ == built_view,
            tr.num_runs == num_runs,
            tr.wf(),
            tr.times_millis@.len() + remaining@.len() == events_view.len(),
            remaining.deep_view() =~= events_view.subrange(
                tr.times_millis@.len() as int,
                events_view.len() as int,
            ),
            verdict_prepend(
                tr.times_millis@,
                test_verdict(remaining.deep_view(), num_runs - tr.times_millis@.len()),
            ) == test_verdict(events_view, num_runs as int),
            tr.built@.state.config.name == built_view.state.config.name,
        ensures
            tr.built@ == built_view,
            tr.num_runs == num_runs,
            tr.wf(),
            tr.times_millis@.len() == num_runs || remaining@.len() == 0,
            verdict_prepend(
                tr.times_millis@,
                test_verdict(remaining.deep_view(), num_runs - tr.times_millis@.len()),
            ) == test_verdict(events_view, num_runs as int),
        decreases remaining@.len(),
    {
        if !tr.needs_run() {
            break;
        }
        if remaining.len() == 0 {
            break;
        }
        let ghost pre_remaining = remaining.deep_view();
        let ghost pre_times = tr.times_millis@;
        let ev = remaining.remove(0);
        proof {
            assert(ev@ == pre_remaining[0]);
            assert(remaining.deep_view() =~= pre_remaining.drop_first());
        }
        match tr.step(ev) {
            TestStep::Done(s) => {
                proof {
                    lemma_try_test_done(
                        built_view,
                        events_view,
                        pre_remaining,
                        pre_times,
                        ev@,
                        num_runs as int,
                    );
                    match ev@ {
                        TestEventView::SpawnFailed { message } => {
                            assert(test_verdict(events_view, num_runs as int)
                                == (TestVerdict::FailedRun { error: message }));
                            assert(s@ == test_state_spec(built_view, events_view, num_runs as int));
                        },
                        TestEventView::Completed { success, stdout, duration_millis } => {
                            if !success {
                                assert(s@ == test_state_spec(
                                    built_view,
                                    events_view,
                                    num_runs as int,
                                ));
                            } else {
                                assert(success && pre_times.len() + 1 == num_runs);
                                assert(test_verdict(events_view, num_runs as int)
                                    == (TestVerdict::Passed {
                                    durations: pre_times.push(duration_millis),
                                }));
                                assert(s@ == test_state_spec(
                                    built_view,
                                    events_view,
                                    num_runs as int,
                                ));
                            }
                        },
                    }
                }
                return s;
            },
            TestStep::Continue(t) => {
                proof {
                    let inner = test_verdict(
                        pre_remaining.drop_first(),
                        num_runs - pre_times.len() - 1,
                    );
                    lemma_verdict_prepend_chain(pre_times, ev@->Completed_duration_millis, inner);
                    assert(pre_remaining =~= events_view.subrange(
                        pre_times.len() as int,
                        events_view.len() as int,
                    ));
                    assert(pre_remaining.drop_first() =~= events_view.subrange(
                        pre_times.len() + 1 as int,
                        events_view.len() as int,
                    ));
                    assert(remaining.deep_view() =~= events_view.subrange(
                        t.times_millis@.len() as int,
                        events_view.len() as int,
                    ));
                }
                tr = t;
            },
        }
    }
    if tr.needs_run() {
        // The caller supplied fewer run outcomes than requested runs.
        proof {
            assert(remaining.deep_view() =~= Seq::<TestEventView>::empty());
            assert(test_verdict(remaining.deep_view(), num_runs - tr.times_millis@.len())
                is Incomplete);
        }
        return ProjectState::Failed {
            name: tr.built.state.config.name.clone(),
            stage: Stage::Test,
            error: "incomplete test runs".to_owned(),
        };
    }
    proof {
        assert(test_verdict(remaining.deep_view(), 0) == (TestVerdict::Passed {
            durations: Seq::<u64>::empty(),
        }));
        assert(tr.times_millis@ + Seq::<u64>::empty() =~= tr.times_millis@);
    }
    tr.finish()
}

/// Prepending nothing leaves a verdict as it is.
proof fn lemma_verdict_prepend_empty(v: TestVerdict)
    ensures
        verdict_prepend(Seq::<u64>::empty(), v) == v,
{
    match v {
        TestVerdict::Passed { durations } => {
            assert(Seq::<u64>::empty() + durations =~= durations);
        },
        _ => {},
    }
}

/// Prepending the accumulated durations and then one more duration is the
/// same as prepending the extended accumulation.
proof fn lemma_verdict_prepend_chain(acc: Seq<u64>, d: u64, v: TestVerdict)
    ensures
        verdict_prepend(acc, verdict_prepend(seq![d], v)) == verdict_prepend(acc.push(d), v),
{
    match v {
        TestVerdict::Passed { durations } => {
            assert(acc + (seq![d] + durations) =~= acc.push(d) + durations);
        },
        _ => {},
    }
}

/// When a step ends the project, the whole event list's verdict is the
/// step's own outcome.
proof fn lemma_try_test_done(
    built: BuiltView,
    events: Seq<TestEventView>,
    remaining: Seq<TestEventView>,
    times: Seq<u64>,
    ev: TestEventView,
    num_runs: int,
)
    requires
        times.len() < num_runs,
        remaining.len() > 0,
        remaining[0] == ev,
        verdict_prepend(times, test_verdict(remaining, num_runs - times.len())) == test_verdict(
            events,
            num_runs,
        ),
    ensures
        match ev {
            TestEventView::SpawnFailed { message } => test_verdict(events, num_runs)
                == (TestVerdict::FailedRun { error: message }),
            TestEventView::Completed { success, stdout, duration_millis } => {
                &&& (!success ==> test_verdict(events, num_runs) == (TestVerdict::FailedRun {
                    error: stdout,
                }))
                &&& ((success && times.len() + 1 == num_runs) ==> test_verdict(events, num_runs)
                    == (TestVerdict::Passed { durations: times.push(duration_millis) }))
            },
        },
{
    match ev {
        TestEventView::SpawnFailed { message } => {},
        TestEventView::Completed { success, stdout, duration_millis } => {
            if success && times.len() + 1 == num_runs {
                assert(test_verdict(remaining.drop_first(), 0) == (TestVerdict::Passed {
                    durations: Seq::<u64>::empty(),
                }));
                assert(seq![duration_millis] + Seq::<u64>::empty() =~= seq![duration_millis]);
                assert(times + seq![duration_millis] =~= times.push(duration_millis));
            }
        },
    }
}

impl DeepView for Ready {
    type V = ReadyView;

    open spec fn deep_view(&self) -> ReadyView {
        self@
    }
}

impl DeepView for Built {
    type V = BuiltView;

    open spec fn deep_view(&self) -> BuiltView {
        self@
    }
}

impl DeepView for CloneEvent {
    type V = CloneEventView;

    open spec fn deep_view(&self) -> CloneEventView {
        self@
    }
}

impl DeepView for BuildEvent {
    type V = BuildEventView;

    open spec fn deep_view(&self) -> BuildEventView {
        self@
    }
}

/// The clone-stage outcome of every project, in input order.
pub open spec fn clone_states(
    projects: Seq<ProjectConfigView>,
    events: Seq<CloneEventView>,
) -> Seq<ProjectStateView> {
    Seq::new(projects.len(), |i: int| clone_state_spec(projects[i], events[i]))
}

/// The build-stage outcome of every cloned project, in order.
pub open spec fn build_states(
    cloned: Seq<ReadyView>,
    events: Seq<BuildEventView>,
) -> Seq<ProjectStateView> {
    Seq::new(cloned.len(), |i: int| build_state_spec(cloned[i], events[i]))
}

/// The test-stage outcome of every built project, in order.
pub open spec fn test_states(
    built: Seq<BuiltView>,
    events: Seq<Seq<TestEventView>>,
    num_runs: int,
) -> Seq<ProjectStateView> {
    Seq::new(built.len(), |i: int| test_state_spec(built[i], events[i], num_runs))
}

/// The `Cloned` payloads of the states, in order.
pub open spec fn cloned_parts(states: Seq<ProjectStateView>) -> Seq<ReadyView>
    decreases states.len(),
{
    if states.len() == 0 {
        Seq::empty()
    } else {
        cloned_parts(states.drop_last()) + (match states.last() {
            ProjectStateView::Cloned(r) => seq![r],
            _ => Seq::empty(),
        })
    }
}

/// The `Built` payloads of the states, in order.
pub open spec fn built_parts(states: Seq<ProjectStateView>) -> Seq<BuiltView>
    decreases states.len(),
{
    if states.len() == 0 {
        Seq::empty()
    } else {
        built_parts(states.drop_last()) + (match states.last() {
            ProjectStateView::Built(b) => seq![b],
            _ => Seq::empty(),
        })
    }
}

/// The `Tested` payloads of the states, in order.
pub open spec fn tested_parts(states: Seq<ProjectStateView>) -> Seq<TestedView>
    decreases states.len(),
{
    if states.len() == 0 {
        Seq::empty()
    } else {
        tested_parts(states.drop_last()) + (match states.last() {
            ProjectStateView::Tested(t) => seq![t],
            _ => Seq::empty(),
        })
    }
}

/// The names of the failed states, in order, duplicates kept.
pub open spec fn failed_names_of(states: Seq<ProjectStateView>) -> Seq<Seq<char>>
    decreases states.len(),
{
    if states.len() == 0 {
        Seq::empty()
    } else {
        failed_names_of(states.drop_last()) + (match states.last() {
            ProjectStateView::Failed { name, .. } => seq![name],
            _ => Seq::empty(),
        })
    }
}

/// The names with later repetitions dropped: each name keeps its first
/// position.
pub open spec fn dedup_names(names: Seq<Seq<char>>) -> Seq<Seq<char>>
    decreases names.len(),
{
    if names.len() == 0 {
        Seq::empty()
    } else {
        let rest = dedup_names(names.drop_last());
        if rest.contains(names.last()) {
            rest
        } else {
            rest.push(names.last())
        }
    }
}

/// Removes and returns the first element, relating the deep views.
pub(crate) fn take_first<T: DeepView>(v: &mut Vec<T>) -> (x: T)
    requires
        old(v)@.len() > 0,
    ensures
        x.deep_view() == old(v).deep_view()[0],
        final(v).deep_view() == old(v).deep_view().drop_first(),
        final(v)@.len() == old(v)@.len() - 1,
{
    let x = v.remove(0);
    proof {
        assert(old(v).deep_view()[0] == old(v)@[0].deep_view());
        assert forall|j: int| 0 <= j < v@.len() implies v.deep_view()[j] == old(
            v,
        ).deep_view().drop_first()[j] by {
            assert(v.deep_view()[j] == v@[j].deep_view());
            assert(old(v).deep_view()[j + 1] == old(v)@[j + 1].deep_view());
            assert(v@[j] == old(v)@[j + 1]);
        }
        assert(v.deep_view() =~= old(v).deep_view().drop_first());
    }
    x
}

/// Appends an element, relating the deep views.
pub(crate) fn push_elem<T: DeepView>(v: &mut Vec<T>, x: T)
    ensures
        final(v).deep_view() == old(v).deep_view().push(x.deep_view()),
        final(v)@.len() == old(v)@.len() + 1,
{
    let ghost pre = v.deep_view();
    let ghost xv = x.deep_view();
    v.push(x);
    proof {
        assert forall|j: int| 0 <= j < v@.len() implies v.deep_view()[j] == pre.push(xv)[j] by {
            assert(v.deep_view()[j] == v@[j].deep_view());
            if j < v@.len() - 1 {
                assert(pre[j] == old(v)@[j].deep_view());
            }
        }
        assert(v.deep_view() =~= pre.push(xv));
    }
}

/// Settles the clone stage of every project: the `Cloned` states come back
/// in input order, and each failure appends its project's name to `failed`.
pub fn collect_clone_outcomes(
    projects: &Vec<ProjectConfig>,
    events: Vec<CloneEvent>,
    failed: &mut Vec<String>,
) -> (r: Vec<Ready>)
    requires
        events@.len() == projects@.len(),
    ensures
        r.deep_view() == cloned_parts(clone_states(projects.deep_view(), events.deep_view())),
        final(failed).deep_view() == old(failed).deep_view() + failed_names_of(
            clone_states(projects.deep_view(), events.deep_view()),
        ),
{
    let ghost projects_view = projects.deep_view();
    let ghost events_view = events.deep_view();
    let ghost pre_failed = failed.deep_view();
    let n = projects.len();
    let mut remaining = events;
    let mut r: Vec<Ready> = Vec::new();
    let mut i: usize = 0;
    proof {
        assert(pre_failed + Seq::<Seq<char>>::empty() =~= pre_failed);
    }
    while i < n
        invariant
            projects_view == projects.deep_view(),
            events_view == events.deep_view(),
            pre_failed == old(failed).deep_view(),
            n == projects_view.len(),
            events_view.len() == n,
            i <= n,
            remaining@.len() == n - i,
            remaining.deep_view() =~= events_view.subrange(i as int, n as int),
            r.deep_view() == cloned_parts(
                clone_states(projects_view.subrange(0, i as int), events_view.subrange(0, i as int)),
            ),
            failed.deep_view() == pre_failed + failed_names_of(
                clone_states(projects_view.subrange(0, i as int), events_view.subrange(0, i as int)),
            ),
        decreases n - i,
    {
        let ghost pre_remaining = remaining.deep_view();
        let ev = take_first(&mut remaining);
        proof {
            assert(pre_remaining[0] == events_view[i as int]);
            assert(pre_remaining.drop_first() =~= events_view.subrange(i + 1 as int, n as int));
        }
        let project = &projects[i];
        proof {
            assert(project.deep_view() == projects_view[i as int]);
        }
        let state = try_clone_project(project, ev);
        proof {
            let pre_states = clone_states(
                projects_view.subrange(0, i as int),
                events_view.subrange(0, i as int),
            );
            let post_states = clone_states(
                projects_view.subrange(0, i + 1 as int),
                events_view.subrange(0, i + 1 as int),
            );
            assert(post_states.drop_last() =~= pre_states);
            assert(post_states.last() == clone_state_spec(
                projects_view[i as int],
                events_view[i as int],
            ));
            assert(state@ == post_states.last());
        }
        match state {
            ProjectState::Cloned(ready) => {
                push_elem(&mut r, ready);
                proof {
                    assert(r.deep_view() =~= cloned_parts(
                        clone_states(
                            projects_view.subrange(0, i + 1 as int),
                            events_view.subrange(0, i + 1 as int),
                        ),
                    ));
                    assert(failed.deep_view() =~= pre_failed + failed_names_of(
                        clone_states(
                            projects_view.subrange(0, i + 1 as int),
                            events_view.subrange(0, i + 1 as int),
                        ),
                    ));
                }
            },
            ProjectState::Failed { name, stage, error } => {
                push_elem(failed, name);
                proof {
                    assert(r.deep_view() =~= cloned_parts(
                        clone_states(
                            projects_view.subrange(0, i + 1 as int),
                            events_view.subrange(0, i + 1 as int),
                        ),
                    ));
                    assert(failed.deep_view() =~= pre_failed + failed_names_of(
                        clone_states(
                            projects_view.subrange(0, i + 1 as int),
                            events_view.subrange(0, i + 1 as int),
                        ),
                    ));
                }
            },
            ProjectState::Built(_) => {
                proof {
                    assert(false);
                }
                vstd::pervasive::unreached()
            },
            ProjectState::Tested(_) => {
                proof {
                    assert(false);
                }
                vstd::pervasive::unreached()
            },
        }
        i = i + 1;
    }
    proof {
        assert(projects_view.subrange(0, n as int) =~= projects_view);
        assert(events_view.subrange(0, n as int) =~= events_view);
    }
    r
}

/// Settles the build stage of every cloned project: the `Built` states come
/// back in order, and each failure appends its project's name to `failed`.
pub fn collect_build_outcomes(
    cloned: Vec<Ready>,
    events: Vec<BuildEvent>,
    failed: &mut Vec<String>,
) -> (r: Vec<Built>)
    requires
        events@.len() == cloned@.len(),
    ensures
        r.deep_view() == built_parts(build_states(cloned.deep_view(), events.deep_view())),
        final(failed).deep_view() == old(failed).deep_view() + failed_names_of(
            build_states(cloned.deep_view(), events.deep_view()),
        ),
{
    let ghost cloned_view = cloned.deep_view();
    let ghost events_view = events.deep_view();
    let ghost pre_failed = failed.deep_view();
    let n = cloned.len();
    let mut remaining_states = cloned;
    let mut remaining_events = events;
    let mut r: Vec<Built> = Vec::new();
    let mut i: usize = 0;
    proof {
        assert(pre_failed + Seq::<Seq<char>>::empty() =~= pre_failed);
    }
    while i < n
        invariant
            cloned_view == cloned.deep_view(),
            events_view == events.deep_view(),
            pre_failed == old(failed).deep_view(),
            n == cloned_view.len(),
            events_view.len() == n,
            i <= n,
            remaining_states@.len() == n - i,
            remaining_events@.len() == n - i,
            remaining_states.deep_view() =~= cloned_view.subrange(i as int, n as int),
            remaining_events.deep_view() =~= events_view.subrange(i as int, n as int),
            r.deep_view() == built_parts(
                build_states(cloned_view.subrange(0, i as int), events_view.subrange(0, i as int)),
            ),
            failed.deep_view() == pre_failed + failed_names_of(
                build_states(cloned_view.subrange(0, i as int), events_view.subrange(0, i as int)),
            ),
        decreases n - i,
    {
        let ghost pre_rs = remaining_states.deep_view();
        let ghost pre_re = remaining_events.deep_view();
        let ready = take_first(&mut remaining_states);
        let ev = take_first(&mut remaining_events);
        proof {
            assert(pre_rs[0] == cloned_view[i as int]);
            assert(pre_re[0] == events_view[i as int]);
            assert(pre_rs.drop_first() =~= cloned_view.subrange(i + 1 as int, n as int));
            assert(pre_re.drop_first() =~= events_view.subrange(i + 1 as int, n as int));
        }
        let state = try_build_project(ready, ev);
        proof {
            let pre_states = build_states(
                cloned_view.subrange(0, i as int),
                events_view.subrange(0, i as int),
            );
            let post_states = build_states(
                cloned_view.subrange(0, i + 1 as int),
                events_view.subrange(0, i + 1 as int),
            );
            assert(post_states.drop_last() =~= pre_states);
            assert(post_states.last() == build_state_spec(
                cloned_view[i as int],
                events_view[i as int],
            ));
            assert(state@ == post_states.last());
        }
        match state {
            ProjectState::Built(built) => {
                push_elem(&mut r, built);
                proof {
                    assert(r.deep_view() =~= built_parts(
                        build_states(
                            cloned_view.subrange(0, i + 1 as int),
                            events_view.subrange(0, i + 1 as int),
                        ),
                    ));
                    assert(failed.deep_view() =~= pre_failed + failed_names_of(
                        build_states(
                            cloned_view.subrange(0, i + 1 as int),
                            events_view.subrange(0, i + 1 as int),
                        ),
                    ));
                }
            },
            ProjectState::Failed { name, stage, error } => {
                push_elem(failed, name);
                proof {
                    assert(r.deep_view() =~= built_parts(
                        build_states(
                            cloned_view.subrange(0, i + 1 as int),
                            events_view.subrange(0, i + 1 as int),
                        ),
                    ));
                    assert(failed.deep_view() =~= pre_failed + failed_names_of(
                        build_states(
                            cloned_view.subrange(0, i + 1 as int),
                            events_view.subrange(0, i + 1 as int),
                        ),
                    ));
                }
            },
            ProjectState::Cloned(_) => {
                proof {
                    assert(false);
                }
                vstd::pervasive::unreached()
            },
            ProjectState::Tested(_) => {
                proof {
                    assert(false);
                }
                vstd::pervasive::unreached()
            },
        }
        i = i + 1;
    }
    proof {
        assert(cloned_view.subrange(0, n as int) =~= cloned_view);
        assert(events_view.subrange(0, n as int) =~= events_view);
    }
    r
}

/// Runs the test stage over every built project, one project at a time, in
/// order: the `Tested` records come back in order, and each failure appends
/// its project's name to `failed`.
pub fn collect_test_outcomes(
    built: Vec<Built>,
    test_events: Vec<Vec<TestEvent>>,
    num_runs: usize,
    failed: &mut Vec<String>,
) -> (r: Vec<Tested>)
    requires
        test_events@.len() == built@.len(),
    ensures
        r.deep_view() == tested_parts(
            test_states(built.deep_view(), test_events.deep_view(), num_runs as int),
        ),
        final(failed).deep_view() == old(failed).deep_view() + failed_names_of(
            test_states(built.deep_view(), test_events.deep_view(), num_runs as int),
        ),
{
    let ghost built_view = built.deep_view();
    let ghost events_view = test_events.deep_view();
    let ghost pre_failed = failed.deep_view();
    let n = built.len();
    let mut remaining_states = built;
    let mut remaining_events = test_events;
    let mut r: Vec<Tested> = Vec::new();
    let mut i: usize = 0;
    proof {
        assert(pre_failed + Seq::<Seq<char>>::empty() =~= pre_failed);
    }
    while i < n
        invariant
            built_view == built.deep_view(),
            events_view == test_events.deep_view(),
            pre_failed == old(failed).deep_view(),
            n == built_view.len(),
            events_view.len() == n,
            i <= n,
            remaining_states@.len() == n - i,
            remaining_events@.len() == n - i,
            remaining_states.deep_view() =~= built_view.subrange(i as int, n as int),
            remaining_events.deep_view() =~= events_view.subrange(i as int, n as int),
            r.deep_view() == tested_parts(
                test_states(
                    built_view.subrange(0, i as int),
                    events_view.subrange(0, i as int),
                    num_runs as int,
                ),
            ),
            failed.deep_view() == pre_failed + failed_names_of(
                test_states(
                    built_view.subrange(0, i as int),
                    events_view.subrange(0, i as int),
                    num_runs as int,
                ),
            ),
        decreases n - i,
    {
        let ghost pre_rs = remaining_states.deep_view();
        let ghost pre_re = remaining_events.deep_view();
        let one_built = take_first(&mut remaining_states);
        let evs = take_first(&mut remaining_events);
        proof {
            assert(pre_rs[0] == built_view[i as int]);
            assert(pre_re[0] == events_view[i as int]);
            assert(pre_rs.drop_first() =~= built_view.subrange(i + 1 as int, n as int));
            assert(pre_re.drop_first() =~= events_view.subrange(i + 1 as int, n as int));
        }
        let state = try_test_project(one_built, evs, num_runs);
        proof {
            let pre_states = test_states(
                built_view.subrange(0, i as int),
                events_view.subrange(0, i as int),
                num_runs as int,
            );
            let post_states = test_states(
                built_view.subrange(0, i + 1 as int),
                events_view.subrange(0, i + 1 as int),
                num_runs as int,
            );
            assert(post_states.drop_last() =~= pre_states);
            assert(post_states.last() == test_state_spec(
                built_view[i as int],
                events_view[i as int],
                num_runs as int,
            ));
            assert(state@ == post_states.last());
        }
        match state {
            ProjectState::Tested(tested) => {
                push_elem(&mut r, tested);
                proof {
                    assert(r.deep_view() =~= tested_parts(
                        test_states(
                            built_view.subrange(0, i + 1 as int),
                            events_view.subrange(0, i + 1 as int),
                            num_runs as int,
                        ),
                    ));
                    assert(failed.deep_view() =~= pre_failed + failed_names_of(
                        test_states(
                            built_view.subrange(0, i + 1 as int),
                            events_view.subrange(0, i + 1 as int),
                            num_runs as int,
                        ),
                    ));
                }
            },
            ProjectState::Failed { name, stage, error } => {
                push_elem(failed, name);
                proof {
                    assert(r.deep_view() =~= tested_parts(
                        test_states(
                            built_view.subrange(0, i + 1 as int),
                            events_view.subrange(0, i + 1 as int),
                            num_runs as int,
                        ),
                    ));
                    assert(failed.deep_view() =~= pre_failed + failed_names_of(
                        test_states(
                            built_view.subrange(0, i + 1 as int),
                            events_view.subrange(0, i + 1 as int),
                            num_runs as int,
                        ),
                    ));
                }
            },
            ProjectState::Cloned(_) => {
                proof {
                    assert(false);
                }
                vstd::pervasive::unreached()
            },
            ProjectState::Built(_) => {
                proof {
                    assert(false);
                }
                vstd::pervasive::unreached()
            },
        }
        i = i + 1;
    }
    proof {
        assert(built_view.subrange(0, n as int) =~= built_view);
        assert(events_view.subrange(0, n as int) =~= events_view);
    }
    r
}

/// A sum of `n` durations, divided by `n`, fits in a duration value.
proof fn lemma_avg_fits(total: int, n: int)
    requires
        n > 0,
        0 <= total <= n * (u64::MAX as int),
    ensures
        0 <= total / n <= u64::MAX,
{
    vstd::arithmetic::div_mod::lemma_div_is_ordered(total, n * (u64::MAX as int), n);
    vstd::arithmetic::div_mod::lemma_div_multiples_vanish(u64::MAX as int, n);
}

/// What a whole pipeline run returns: the records of the projects that
/// passed every stage, in input order, and the names of the projects that
/// failed at some stage, duplicates collapsed.
pub struct PipelineOutcome {
    pub tested: Vec<Tested>,
    pub failed_names: Vec<String>,
}

/// The `Tested` records the pipeline produces for the given projects and
/// per-stage events.
pub open spec fn pipeline_tested(
    projects: Seq<ProjectConfigView>,
    clone_events: Seq<CloneEventView>,
    build_events: Seq<BuildEventView>,
    test_events: Seq<Seq<TestEventView>>,
    num_runs: int,
) -> Seq<TestedView> {
    let s1 = clone_states(projects, clone_events);
    let s2 = build_states(cloned_parts(s1), build_events);
    let s3 = test_states(built_parts(s2), test_events, num_runs);
    tested_parts(s3)
}

/// The names of every per-stage failure, in the order the stages report
/// them, duplicates kept.
pub open spec fn pipeline_failed_names(
    projects: Seq<ProjectConfigView>,
    clone_events: Seq<CloneEventView>,
    build_events: Seq<BuildEventView>,
    test_events: Seq<Seq<TestEventView>>,
    num_runs: int,
) -> Seq<Seq<char>> {
    let s1 = clone_states(projects, clone_events);
    let s2 = build_states(cloned_parts(s1), build_events);
    let s3 = test_states(built_parts(s2), test_events, num_runs);
    failed_names_of(s1) + failed_names_of(s2) + failed_names_of(s3)
}

/// Whether some string in the vector reads `s`.
fn vec_contains_string(v: &Vec<String>, s: &str) -> (r: bool)
    ensures
        r == v.deep_view().contains(s@),
{
    let n = v.len();
    let mut i: usize = 0;
    while i < n
        invariant
            n == v@.len(),
            i <= n,
            forall|j: int| 0 <= j < i ==> v.deep_view()[j] != s@,
        decreases n - i,
    {
        if crate::utils::str_eq(v[i].as_str(), s) {
            proof {
                assert(v.deep_view()[i as int] == v@[i as int]@);
            }
            return true;
        }
        proof {
            assert(v.deep_view()[i as int] == v@[i as int]@);
        }
        i = i + 1;
    }
    proof {
        assert(!v.deep_view().contains(s@));
    }
    false
}

/// The names with later repetitions dropped, each name at its first
/// position.
pub fn unique_names(names: &Vec<String>) -> (r: Vec<String>)
    ensures
        r.deep_view() == dedup_names(names.deep_view()),
{
    let ghost names_view = names.deep_view();
    let n = names.len();
    let mut r: Vec<String> = Vec::new();
    let mut i: usize = 0;
    proof {
        assert(r.deep_view() =~= dedup_names(names_view.subrange(0, 0)));
    }
    while i < n
        invariant
            names_view == names.deep_view(),
            n == names_view.len(),
            i <= n,
            r.deep_view() == dedup_names(names_view.subrange(0, i as int)),
        decreases n - i,
    {
        proof {
            let pre = names_view.subrange(0, i as int);
            let post = names_view.subrange(0, i + 1 as int);
            assert(post.drop_last() =~= pre);
            assert(post.last() == names_view[i as int]);
            assert(names_view[i as int] == names@[i as int]@);
        }
        if !vec_contains_string(&r, names[i].as_str()) {
            push_elem(&mut r, names[i].clone());
        }
        i = i + 1;
    }
    proof {
        assert(names_view.subrange(0, n as int) =~= names_view);
    }
    r
}

/// Orchestrates the benchmark pipeline over pre-gathered per-stage events:
/// settles the clone stage for every project, the build stage for every
/// cloned project, and the test stage for every built project in input
/// order, collecting the `Tested` records and the deduplicated names of the
/// projects that failed at some stage. An empty project list yields empty
/// results.
pub fn run_pipeline(
    projects: &Vec<ProjectConfig>,
    clone_events: Vec<CloneEvent>,
    build_events: Vec<BuildEvent>,
    test_events: Vec<Vec<TestEvent>>,
    num_runs: usize,
) -> (r: PipelineOutcome)
    requires
        clone_events@.len() == projects@.len(),
        build_events@.len() == cloned_parts(
            clone_states(projects.deep_view(), clone_events.deep_view()),
        ).len(),
        test_events@.len() == built_parts(
            build_states(
                cloned_parts(clone_states(projects.deep_view(), clone_events.deep_view())),
                build_events.deep_view(),
            ),
        ).len(),
    ensures
        r.tested.deep_view() == pipeline_tested(
            projects.deep_view(),
            clone_events.deep_view(),
            build_events.deep_view(),
            test_events.deep_view(),
            num_runs as int,
        ),
        r.failed_names.deep_view() == dedup_names(
            pipeline_failed_names(
                projects.deep_view(),
                clone_events.deep_view(),
                build_events.deep_view(),
                test_events.deep_view(),
                num_runs as int,
            ),
        ),
{
    let ghost s1 = clone_states(projects.deep_view(), clone_events.deep_view());
    let ghost s2 = build_states(cloned_parts(s1), build_events.deep_view());
    let ghost s3 = test_states(built_parts(s2), test_events.deep_view(), num_runs as int);
    let mut failed: Vec<String> = Vec::new();
    proof {
        assert(failed.deep_view() =~= Seq::<Seq<char>>::empty());
    }
    let cloned = collect_clone_outcomes(projects, clone_events, &mut failed);
    proof {
        assert(failed.deep_view() =~= failed_names_of(s1));
    }
    let built = collect_build_outcomes(cloned, build_events, &mut failed);
    proof {
        assert(failed.deep_view() =~= failed_names_of(s1) + failed_names_of(s2));
    }
    let tested = collect_test_outcomes(built, test_events, num_runs, &mut failed);
    proof {
        assert(failed.deep_view() =~= failed_names_of(s1) + failed_names_of(s2)
            + failed_names_of(s3));
    }
    let failed_names = unique_names(&failed);
    PipelineOutcome { tested, failed_names }
}

/// The project name a state carries, whatever the state.
pub open spec fn state_name(s: ProjectStateView) -> Seq<char> {
    match s {
        ProjectStateView::Cloned(r) => r.config.name,
        ProjectStateView::Built(b) => b.state.config.name,
        ProjectStateView::Tested(t) => t.name,
        ProjectStateView::Failed { name, .. } => name,
    }
}

/// The names of the tested records, in order.
pub open spec fn tested_names(ts: Seq<TestedView>) -> Seq<Seq<char>> {
    ts.map_values(|t: TestedView| t.name)
}

/// Every state lands in exactly one of the four part sequences.
pub proof fn lemma_parts_length(s: Seq<ProjectStateView>)
    ensures
        cloned_parts(s).len() + built_parts(s).len() + tested_parts(s).len() + failed_names_of(
            s,
        ).len() == s.len(),
    decreases s.len(),
{
    if s.len() > 0 {
        lemma_parts_length(s.drop_last());
    }
}

/// A state's payload appears in the part sequence of its variant.
pub proof fn lemma_state_membership(s: Seq<ProjectStateView>, i: int)
    requires
        0 <= i < s.len(),
    ensures
        match s[i] {
            ProjectStateView::Cloned(r) => cloned_parts(s).contains(r),
            ProjectStateView::Built(b) => built_parts(s).contains(b),
            ProjectStateView::Tested(t) => tested_parts(s).contains(t),
            ProjectStateView::Failed { name, .. } => failed_names_of(s).contains(name),
        },
    decreases s.len(),
{
    if i == s.len() - 1 {
        match s[i] {
            ProjectStateView::Cloned(r) => {
                assert(cloned_parts(s).last() == r);
            },
            ProjectStateView::Built(b) => {
                assert(built_parts(s).last() == b);
            },
            ProjectStateView::Tested(t) => {
                assert(tested_parts(s).last() == t);
            },
            ProjectStateView::Failed { name, stage, error } => {
                assert(failed_names_of(s).last() == name);
            },
        }
    } else {
        lemma_state_membership(s.drop_last(), i);
        assert(s.drop_last()[i] == s[i]);
        match s[i] {
            ProjectStateView::Cloned(r) => {
                let j = choose|j: int|
                    0 <= j < cloned_parts(s.drop_last()).len() && cloned_parts(s.drop_last())[j]
                        == r;
                assert(cloned_parts(s)[j] == r);
            },
            ProjectStateView::Built(b) => {
                let j = choose|j: int|
                    0 <= j < built_parts(s.drop_last()).len() && built_parts(s.drop_last())[j]
                        == b;
                assert(built_parts(s)[j] == b);
            },
            ProjectStateView::Tested(t) => {
                let j = choose|j: int|
                    0 <= j < tested_parts(s.drop_last()).len() && tested_parts(s.drop_last())[j]
                        == t;
                assert(tested_parts(s)[j] == t);
            },
            ProjectStateView::Failed { name, stage, error } => {
                let j = choose|j: int|
                    0 <= j < failed_names_of(s.drop_last()).len() && failed_names_of(
                        s.drop_last(),
                    )[j] == name;
                assert(failed_names_of(s)[j] == name);
            },
        }
    }
}

/// Every element of `cloned_parts` is the payload of some `Cloned` state.
pub proof fn lemma_cloned_parts_index(s: Seq<ProjectStateView>, j: int)
    requires
        0 <= j < cloned_parts(s).len(),
    ensures
        exists|i: int|
            0 <= i < s.len() && s[i] == ProjectStateView::Cloned(cloned_parts(s)[j]),
    decreases s.len(),
{
    if j < cloned_parts(s.drop_last()).len() {
        lemma_cloned_parts_index(s.drop_last(), j);
        let i = choose|i: int|
            0 <= i < s.drop_last().len() && s.drop_last()[i] == ProjectStateView::Cloned(
                cloned_parts(s.drop_last())[j],
            );
        assert(s[i] == ProjectStateView::Cloned(cloned_parts(s)[j]));
    } else {
        assert(s[s.len() - 1] == ProjectStateView::Cloned(cloned_parts(s)[j]));
    }
}

/// Every element of `built_parts` is the payload of some `Built` state.
pub proof fn lemma_built_parts_index(s: Seq<ProjectStateView>, j: int)
    requires
        0 <= j < built_parts(s).len(),
    ensures
        exists|i: int| 0 <= i < s.len() && s[i] == ProjectStateView::Built(built_parts(s)[j]),
    decreases s.len(),
{
    if j < built_parts(s.drop_last()).len() {
        lemma_built_parts_index(s.drop_last(), j);
        let i = choose|i: int|
            0 <= i < s.drop_last().len() && s.drop_last()[i] == ProjectStateView::Built(
                built_parts(s.drop_last())[j],
            );
        assert(s[i] == ProjectStateView::Built(built_parts(s)[j]));
    } else {
        assert(s[s.len() - 1] == ProjectStateView::Built(built_parts(s)[j]));
    }
}

/// Every element of `tested_parts` is the payload of some `Tested` state.
pub proof fn lemma_tested_parts_index(s: Seq<ProjectStateView>, j: int)
    requires
        0 <= j < tested_parts(s).len(),
    ensures
        exists|i: int|
            0 <= i < s.len() && s[i] == ProjectStateView::Tested(tested_parts(s)[j]),
    decreases s.len(),
{
    if j < tested_parts(s.drop_last()).len() {
        lemma_tested_parts_index(s.drop_last(), j);
        let i = choose|i: int|
            0 <= i < s.drop_last().len() && s.drop_last()[i] == ProjectStateView::Tested(
                tested_parts(s.drop_last())[j],
            );
        assert(s[i] == ProjectStateView::Tested(tested_parts(s)[j]));
    } else {
        assert(s[s.len() - 1] == ProjectStateView::Tested(tested_parts(s)[j]));
    }
}

/// States that are all `Cloned` or `Failed` have no built or tested parts.
pub proof fn lemma_clone_stage_parts(s: Seq<ProjectStateView>)
    requires
        forall|i: int|
            0 <= i < s.len() ==> (#[trigger] s[i]) is Cloned || s[i] is Failed,
    ensures
        built_parts(s).len() == 0,
        tested_parts(s).len() == 0,
        cloned_parts(s).len() + failed_names_of(s).len() == s.len(),
    decreases s.len(),
{
    if s.len() > 0 {
        lemma_clone_stage_parts(s.drop_last());
    }
}

/// States that are all `Built` or `Failed` have no cloned or tested parts.
pub proof fn lemma_build_stage_parts(s: Seq<ProjectStateView>)
    requires
        forall|i: int| 0 <= i < s.len() ==> (#[trigger] s[i]) is Built || s[i] is Failed,
    ensures
        cloned_parts(s).len() == 0,
        tested_parts(s).len() == 0,
        built_parts(s).len() + failed_names_of(s).len() == s.len(),
    decreases s.len(),
{
    if s.len() > 0 {
        lemma_build_stage_parts(s.drop_last());
    }
}

/// States that are all `Tested` or `Failed` have no cloned or built parts.
pub proof fn lemma_test_stage_parts(s: Seq<ProjectStateView>)
    requires
        forall|i: int|
            0 <= i < s.len() ==> (#[trigger] s[i]) is Tested || s[i] is Failed,
    ensures
        cloned_parts(s).len() == 0,
        built_parts(s).len() == 0,
        tested_parts(s).len() + failed_names_of(s).len() == s.len(),
    decreases s.len(),
{
    if s.len() > 0 {
        lemma_test_stage_parts(s.drop_last());
    }
}

/// An element of the left part of a concatenation is in the concatenation.
proof fn lemma_concat_contains_left<T>(a: Seq<T>, b: Seq<T>, x: T)
    requires
        a.contains(x),
    ensures
        (a + b).contains(x),
{
    let k = choose|k: int| 0 <= k < a.len() && a[k] == x;
    assert((a + b)[k] == x);
}

/// An element of the right part of a concatenation is in the concatenation.
proof fn lemma_concat_contains_right<T>(a: Seq<T>, b: Seq<T>, x: T)
    requires
        b.contains(x),
    ensures
        (a + b).contains(x),
{
    let k = choose|k: int| 0 <= k < b.len() && b[k] == x;
    assert((a + b)[a.len() + k] == x);
}

/// No project is silently dropped: the pipeline settles every input project,
/// so the tested records and the per-stage failure names together count the
/// projects, and every project's name appears among the tested names or the
/// failed names.
pub proof fn lemma_no_project_dropped(
    projects: Seq<ProjectConfigView>,
    clone_events: Seq<CloneEventView>,
    build_events: Seq<BuildEventView>,
    test_events: Seq<Seq<TestEventView>>,
    num_runs: int,
)
    requires
        clone_events.len() == projects.len(),
        build_events.len() == cloned_parts(clone_states(projects, clone_events)).len(),
        test_events.len() == built_parts(
            build_states(cloned_parts(clone_states(projects, clone_events)), build_events),
        ).len(),
    ensures
        pipeline_tested(projects, clone_events, build_events, test_events, num_runs).len()
            + pipeline_failed_names(
            projects,
            clone_events,
            build_events,
            test_events,
            num_runs,
        ).len() == projects.len(),
        forall|i: int|
            0 <= i < projects.len() ==> tested_names(
                pipeline_tested(projects, clone_events, build_events, test_events, num_runs),
            ).contains(#[trigger] projects[i].name) || pipeline_failed_names(
                projects,
                clone_events,
                build_events,
                test_events,
                num_runs,
            ).contains(projects[i].name),
        forall|i: int|
            0 <= i < projects.len() ==> tested_names(
                pipeline_tested(projects, clone_events, build_events, test_events, num_runs),
            ).contains(#[trigger] projects[i].name) || dedup_names(
                pipeline_failed_names(
                    projects,
                    clone_events,
                    build_events,
                    test_events,
                    num_runs,
                ),
            ).contains(projects[i].name),
{
    let s1 = clone_states(projects, clone_events);
    let s2 = build_states(cloned_parts(s1), build_events);
    let s3 = test_states(built_parts(s2), test_events, num_runs);
    let tested = tested_parts(s3);
    let failed = failed_names_of(s1) + failed_names_of(s2) + failed_names_of(s3);
    assert forall|i: int| 0 <= i < s1.len() implies (#[trigger] s1[i]) is Cloned || s1[i]
        is Failed by {}
    assert forall|i: int| 0 <= i < s2.len() implies (#[trigger] s2[i]) is Built || s2[i]
        is Failed by {}
    assert forall|i: int| 0 <= i < s3.len() implies (#[trigger] s3[i]) is Tested || s3[i]
        is Failed by {}
    lemma_clone_stage_parts(s1);
    lemma_build_stage_parts(s2);
    lemma_test_stage_parts(s3);
    assert forall|i: int|
        0 <= i < projects.len() implies tested_names(tested).contains(
        #[trigger] projects[i].name,
    ) || failed.contains(projects[i].name) by {
        let name = projects[i].name;
        lemma_state_membership(s1, i);
        match s1[i] {
            ProjectStateView::Failed { name: n1, .. } => {
                lemma_concat_contains_left(
                    failed_names_of(s1),
                    failed_names_of(s2),
                    n1,
                );
                lemma_concat_contains_left(
                    failed_names_of(s1) + failed_names_of(s2),
                    failed_names_of(s3),
                    n1,
                );
            },
            ProjectStateView::Cloned(r) => {
                let j = choose|j: int|
                    0 <= j < cloned_parts(s1).len() && cloned_parts(s1)[j] == r;
                lemma_state_membership(s2, j);
                match s2[j] {
                    ProjectStateView::Failed { name: n2, .. } => {
                        lemma_concat_contains_right(
                            failed_names_of(s1),
                            failed_names_of(s2),
                            n2,
                        );
                        lemma_concat_contains_left(
                            failed_names_of(s1) + failed_names_of(s2),
                            failed_names_of(s3),
                            n2,
                        );
                    },
                    ProjectStateView::Built(b) => {
                        let k = choose|k: int|
                            0 <= k < built_parts(s2).len() && built_parts(s2)[k] == b;
                        lemma_state_membership(s3, k);
                        match s3[k] {
                            ProjectStateView::Failed { name: n3, .. } => {
                                lemma_concat_contains_right(
                                    failed_names_of(s1) + failed_names_of(s2),
                                    failed_names_of(s3),
                                    n3,
                                );
                            },
                            ProjectStateView::Tested(t) => {
                                let m = choose|m: int|
                                    0 <= m < tested_parts(s3).len() && tested_parts(s3)[m]
                                        == t;
                                assert(tested_names(tested)[m] == t.name);
                                assert(tested_names(tested).contains(name));
                            },
                            _ => {},
                        }
                    },
                    _ => {},
                }
            },
            _ => {},
        }
    }
    assert forall|i: int|
        0 <= i < projects.len() implies tested_names(tested).contains(
        #[trigger] projects[i].name,
    ) || dedup_names(failed).contains(projects[i].name) by {
        lemma_dedup_contains(failed, projects[i].name);
    }
}

/// A project whose build command does not exit successfully is failed at the
/// build stage, under its own name, with the event's error text preserved.
pub proof fn lemma_build_failure_tagged(ready: ReadyView, ev: BuildEventView)
    requires
        !(ev matches BuildEventView::Completed { success: true, .. }),
    ensures
        build_state_spec(ready, ev) matches ProjectStateView::Failed { name, stage, .. }
            && name == ready.config.name && stage == Stage::Build,
{
}

/// Every tested record arises from a build event that exited successfully:
/// a project whose build failed never appears in the tested output.
pub proof fn lemma_tested_only_after_successful_build(
    projects: Seq<ProjectConfigView>,
    clone_events: Seq<CloneEventView>,
    build_events: Seq<BuildEventView>,
    test_events: Seq<Seq<TestEventView>>,
    num_runs: int,
    k: int,
)
    requires
        clone_events.len() == projects.len(),
        build_events.len() == cloned_parts(clone_states(projects, clone_events)).len(),
        test_events.len() == built_parts(
            build_states(cloned_parts(clone_states(projects, clone_events)), build_events),
        ).len(),
        0 <= k < pipeline_tested(projects, clone_events, build_events, test_events, num_runs).len(),
    ensures
        exists|j: int|
            {
                &&& 0 <= j < build_events.len()
                &&& (#[trigger] build_events[j]) matches BuildEventView::Completed {
                    success: true,
                    ..
                }
                &&& pipeline_tested(projects, clone_events, build_events, test_events, num_runs)[k].name
                    == cloned_parts(clone_states(projects, clone_events))[j].config.name
            },
{
    let s1 = clone_states(projects, clone_events);
    let s2 = build_states(cloned_parts(s1), build_events);
    let s3 = test_states(built_parts(s2), test_events, num_runs);
    let t = tested_parts(s3)[k];
    lemma_tested_parts_index(s3, k);
    let m = choose|m: int| 0 <= m < s3.len() && s3[m] == ProjectStateView::Tested(t);
    assert(s3[m] == test_state_spec(built_parts(s2)[m], test_events[m], num_runs));
    let b = built_parts(s2)[m];
    assert(t.name == b.state.config.name);
    lemma_built_parts_index(s2, m);
    let j = choose|j: int| 0 <= j < s2.len() && s2[j] == ProjectStateView::Built(b);
    assert(s2[j] == build_state_spec(cloned_parts(s1)[j], build_events[j]));
    assert(build_events[j] matches BuildEventView::Completed { success: true, .. });
    assert(b.state == cloned_parts(s1)[j]);
}

/// A run that fails before the requested count fails the whole project at
/// the test stage: no tested record with fewer runs is produced.
pub proof fn lemma_failing_run_fails_project(
    built: BuiltView,
    events: Seq<TestEventView>,
    num_runs: int,
    k: int,
)
    requires
        0 <= k < num_runs,
        k < events.len(),
        forall|j: int|
            0 <= j < k ==> (#[trigger] events[j]) matches TestEventView::Completed {
                success: true,
                ..
            },
        !(events[k] matches TestEventView::Completed { success: true, .. }),
    ensures
        test_state_spec(built, events, num_runs) matches ProjectStateView::Failed {
            stage,
            name,
            ..
        } && stage == Stage::Test && name == built.state.config.name,
    decreases k,
{
    if k == 0 {
        match events[0] {
            TestEventView::SpawnFailed { message } => {
                assert(test_verdict(events, num_runs) == (TestVerdict::FailedRun {
                    error: message,
                }));
            },
            TestEventView::Completed { success, stdout, duration_millis } => {
                assert(!success);
                assert(test_verdict(events, num_runs) == (TestVerdict::FailedRun {
                    error: stdout,
                }));
            },
        }
    } else {
        assert forall|j: int| 0 <= j < k - 1 implies (#[trigger] events.drop_first()[j]) matches
            TestEventView::Completed { success: true, .. } by {
            assert(events.drop_first()[j] == events[j + 1]);
        }
        assert(events.drop_first()[k - 1] == events[k]);
        lemma_failing_run_fails_project(built, events.drop_first(), num_runs - 1, k - 1);
        let inner = test_verdict(events.drop_first(), num_runs - 1);
        assert(!(inner is Passed));
        assert(events[0] matches TestEventView::Completed { success: true, .. });
        assert(test_verdict(events, num_runs) == inner);
    }
}

/// When every requested run passes, the verdict carries exactly the
/// requested number of durations.
pub proof fn lemma_verdict_passed_count(events: Seq<TestEventView>, num_runs: int)
    requires
        test_verdict(events, num_runs) is Passed,
    ensures
        test_verdict(events, num_runs)->Passed_durations.len() == if num_runs <= 0 {
            0
        } else {
            num_runs
        },
    decreases num_runs,
{
    if num_runs > 0 {
        lemma_verdict_passed_count(events.drop_first(), num_runs - 1);
    }
}

/// A fully tested project's average is the duration sum divided by the
/// number of runs, and zero when no runs were requested.
pub proof fn lemma_average_definition(built: BuiltView, times: Seq<u64>, runs: int)
    ensures
        runs > 0 ==> tested_record_spec(built, times, runs).avg_test_time_millis == sum_millis(
            times,
        ) / runs,
        runs == 0 ==> tested_record_spec(built, times, runs).avg_test_time_millis == 0,
        tested_record_spec(built, times, runs).runs == runs,
{
}

/// An empty project list settles to an empty pipeline outcome.
pub proof fn lemma_empty_pipeline(num_runs: int)
    ensures
        pipeline_tested(Seq::empty(), Seq::empty(), Seq::empty(), Seq::empty(), num_runs)
            == Seq::<TestedView>::empty(),
        pipeline_failed_names(Seq::empty(), Seq::empty(), Seq::empty(), Seq::empty(), num_runs)
            == Seq::<Seq<char>>::empty(),
        dedup_names(Seq::empty()) == Seq::<Seq<char>>::empty(),
{
    let s1 = clone_states(Seq::empty(), Seq::empty());
    assert(s1 =~= Seq::<ProjectStateView>::empty());
    let c1 = cloned_parts(s1);
    assert(c1 =~= Seq::<ReadyView>::empty());
    let s2 = build_states(c1, Seq::empty());
    assert(s2 =~= Seq::<ProjectStateView>::empty());
    let b2 = built_parts(s2);
    assert(b2 =~= Seq::<BuiltView>::empty());
    let s3 = test_states(b2, Seq::empty(), num_runs);
    assert(s3 =~= Seq::<ProjectStateView>::empty());
    assert(tested_parts(s3) =~= Seq::<TestedView>::empty());
    assert(failed_names_of(s1) + failed_names_of(s2) + failed_names_of(s3) =~= Seq::<
        Seq<char>,
    >::empty());
}

/// A name is among the deduplicated names exactly when it is among the
/// names as given.
pub proof fn lemma_dedup_contains(names: Seq<Seq<char>>, x: Seq<char>)
    ensures
        dedup_names(names).contains(x) <==> names.contains(x),
    decreases names.len(),
{
    if names.len() > 0 {
        lemma_dedup_contains(names.drop_last(), x);
        let rest = dedup_names(names.drop_last());
        if names.contains(x) {
            let k = choose|k: int| 0 <= k < names.len() && names[k] == x;
            if k < names.len() - 1 {
                assert(names.drop_last()[k] == x);
                assert(rest.contains(x));
                if !rest.contains(names.last()) {
                    let m = choose|m: int| 0 <= m < rest.len() && rest[m] == x;
                    assert(dedup_names(names)[m] == x);
                }
            } else {
                if rest.contains(names.last()) {
                    assert(rest.contains(x));
                } else {
                    assert(dedup_names(names).last() == x);
                }
            }
        } else {
            if dedup_names(names).contains(x) {
                let m = choose|m: int|
                    0 <= m < dedup_names(names).len() && dedup_names(names)[m] == x;
                if rest.contains(names.last()) {
                    assert(rest[m] == x);
                    assert(names.drop_last().contains(x));
                    let k = choose|k: int|
                        0 <= k < names.drop_last().len() && names.drop_last()[k] == x;
                    assert(names[k] == x);
                } else {
                    if m < rest.len() {
                        assert(rest.contains(x));
                        let k = choose|k: int|
                            0 <= k < names.drop_last().len() && names.drop_last()[k] == x;
                        assert(names[k] == x);
                    } else {
                        assert(x == names.last());
                        assert(names[names.len() - 1] == x);
                    }
                }
            }
        }
    }
}

} // verus!
