//! The order of the launcher's setup work and the choices between its
//! steps: which steps a start-up runs, how the managed interpreter is put
//! in place, and when a failed attempt is tried again with the next
//! source. The steps themselves run outside and report back.
use vstd::prelude::*;
use crate::runtime::{
    is_reusable_venv_python_version, min_reusable_version, venv_python_version_requires_rebuild,
    version_less,
};

verus! {

/// A screen the splash shows between steps, with its progress.
#[derive(Debug, Clone, Copy, PartialEq, Eq, Structural)]
pub enum SplashStage {
    PreparingWorkspace,
    SkippingUpdate,
    Updating,
    InstallingDeps,
    Finishing,
    RecoveryPreparing,
    RecoveryInstallingDeps,
}

impl SplashStage {
    pub open spec fn percent(self) -> u8 {
        match self {
            SplashStage::PreparingWorkspace => 8,
            SplashStage::SkippingUpdate => 18,
            SplashStage::Updating => 18,
            SplashStage::InstallingDeps => 64,
            SplashStage::Finishing => 94,
            SplashStage::RecoveryPreparing => 97,
            SplashStage::RecoveryInstallingDeps => 97,
        }
    }

    /// The progress the splash shows at this stage.
    pub fn progress(&self) -> (p: u8)
        ensures
            p == self.percent(),
    {
        match self {
            SplashStage::PreparingWorkspace => 8,
            SplashStage::SkippingUpdate => 18,
            SplashStage::Updating => 18,
            SplashStage::InstallingDeps => 64,
            SplashStage::Finishing => 94,
            SplashStage::RecoveryPreparing => 97,
            SplashStage::RecoveryInstallingDeps => 97,
        }
    }
}

/// One step of a setup run.
#[derive(Debug, Clone, Copy, PartialEq, Eq, Structural)]
pub enum SetupStep {
    /// Show this screen.
    Splash(SplashStage),
    /// Stop if the user asked to cancel.
    CheckCancel,
    /// Put the interpreter, the environment and the tools in place.
    EnsureRuntimeTools,
    /// Roll back a configuration write that failed half-way.
    AtomicCleanup,
    /// Bring the configuration up to date.
    MigrateConfig,
    /// Update the repository.
    GitUpdate,
    /// Remove the virtual environment.
    RemoveVenv,
    /// Install the project's dependencies.
    UvSync,
}

/// The steps of a start-up: the repository update is left out when it was
/// asked to be skipped and the repository is ready; the dependency sync is
/// left out when it was asked to be skipped.
pub open spec fn setup_steps(skip_repository_update: bool, repo_ready: bool, skip_dependency_sync: bool) -> Seq<SetupStep> {
    let head = seq![
        SetupStep::Splash(SplashStage::PreparingWorkspace),
        SetupStep::EnsureRuntimeTools,
        SetupStep::AtomicCleanup,
        SetupStep::MigrateConfig,
    ];
    let repo = if skip_repository_update && repo_ready {
        seq![SetupStep::Splash(SplashStage::SkippingUpdate)]
    } else {
        seq![SetupStep::Splash(SplashStage::Updating), SetupStep::GitUpdate]
    };
    let deps = if skip_dependency_sync {
        seq![SetupStep::Splash(SplashStage::Finishing)]
    } else {
        seq![
            SetupStep::Splash(SplashStage::InstallingDeps),
            SetupStep::UvSync,
            SetupStep::Splash(SplashStage::Finishing),
        ]
    };
    head + repo + deps
}

/// The steps of a start-up, in order.
pub fn setup_plan(skip_repository_update: bool, repo_ready: bool, skip_dependency_sync: bool) -> (r:
    Vec<SetupStep>)
    ensures
        r@ == setup_steps(skip_repository_update, repo_ready, skip_dependency_sync),
{
    let mut r = vec![
        SetupStep::Splash(SplashStage::PreparingWorkspace),
        SetupStep::EnsureRuntimeTools,
        SetupStep::AtomicCleanup,
        SetupStep::MigrateConfig,
    ];
    if skip_repository_update && repo_ready {
        r.push(SetupStep::Splash(SplashStage::SkippingUpdate));
    } else {
        r.push(SetupStep::Splash(SplashStage::Updating));
        r.push(SetupStep::GitUpdate);
    }
    if skip_dependency_sync {
        r.push(SetupStep::Splash(SplashStage::Finishing));
    } else {
        r.push(SetupStep::Splash(SplashStage::InstallingDeps));
        r.push(SetupStep::UvSync);
        r.push(SetupStep::Splash(SplashStage::Finishing));
    }
    assert(r@ =~= setup_steps(skip_repository_update, repo_ready, skip_dependency_sync));
    r
}

/// What follows a step of a plan.
#[derive(Debug, Clone, Copy, PartialEq, Eq, Structural)]
pub enum PlanNext {
    /// Run the step at this place of the plan.
    Run { index: usize },
    /// Every step ran.
    Done,
    /// The step failed; the plan stops and reports that failure.
    Stop,
}

/// Where a plan of `count` steps starts: at its first step, or done when
/// it has none.
pub fn plan_start(count: usize) -> (r: PlanNext)
    ensures
        count > 0 ==> r == (PlanNext::Run { index: 0 }),
        count == 0 ==> r == PlanNext::Done,
{
    if count > 0 {
        PlanNext::Run { index: 0 }
    } else {
        PlanNext::Done
    }
}

/// After step `index` of a plan of `count` steps ran: a failure stops the
/// plan; otherwise the next step runs, and after the last the plan is done.
pub fn after_step(index: usize, count: usize, succeeded: bool) -> (r: PlanNext)
    requires
        index < count,
    ensures
        !succeeded ==> r == PlanNext::Stop,
        succeeded && index + 1 < count ==> r == (PlanNext::Run { index: (index + 1) as usize }),
        succeeded && index + 1 >= count ==> r == PlanNext::Done,
{
    if !succeeded {
        PlanNext::Stop
    } else if index + 1 < count {
        PlanNext::Run { index: index + 1 }
    } else {
        PlanNext::Done
    }
}

/// The steps of an update of the repository and its dependencies asked
/// for while the launcher runs: the repository first, then the
/// dependencies.
pub open spec fn update_steps() -> Seq<SetupStep> {
    seq![SetupStep::GitUpdate, SetupStep::UvSync]
}

/// The steps of an update of the repository and its dependencies, in order.
pub fn update_plan() -> (r: Vec<SetupStep>)
    ensures
        r@ == update_steps(),
{
    let r = vec![SetupStep::GitUpdate, SetupStep::UvSync];
    assert(r@ =~= update_steps());
    r
}

/// The steps that rebuild the environment after the backend failed to
/// start in time.
pub open spec fn rebuild_steps() -> Seq<SetupStep> {
    seq![
        SetupStep::CheckCancel,
        SetupStep::Splash(SplashStage::RecoveryPreparing),
        SetupStep::RemoveVenv,
        SetupStep::EnsureRuntimeTools,
        SetupStep::CheckCancel,
        SetupStep::Splash(SplashStage::RecoveryInstallingDeps),
        SetupStep::UvSync,
    ]
}

/// The steps that rebuild the environment, in order.
pub fn rebuild_plan() -> (r: Vec<SetupStep>)
    ensures
        r@ == rebuild_steps(),
{
    let r = vec![
        SetupStep::CheckCancel,
        SetupStep::Splash(SplashStage::RecoveryPreparing),
        SetupStep::RemoveVenv,
        SetupStep::EnsureRuntimeTools,
        SetupStep::CheckCancel,
        SetupStep::Splash(SplashStage::RecoveryInstallingDeps),
        SetupStep::UvSync,
    ];
    assert(r@ =~= rebuild_steps());
    r
}

/// What follows an attempt with one of several sources.
#[derive(Debug, Clone, Copy, PartialEq, Eq, Structural)]
pub enum AttemptNext {
    /// It worked; stop.
    Succeeded,
    /// Try the next source.
    Retry { next: usize },
    /// Every source failed.
    Exhausted,
}

/// After attempt `attempt` of `count` (counted from 0): stop on success,
/// else go on with the next source while there is one.
pub fn after_attempt(attempt: usize, count: usize, succeeded: bool) -> (r: AttemptNext)
    requires
        attempt < count,
    ensures
        succeeded ==> r == AttemptNext::Succeeded,
        !succeeded && attempt + 1 < count ==> r == (AttemptNext::Retry { next: (attempt + 1) as usize }),
        !succeeded && attempt + 1 >= count ==> r == AttemptNext::Exhausted,
{
    if succeeded {
        AttemptNext::Succeeded
    } else if attempt + 1 < count {
        AttemptNext::Retry { next: attempt + 1 }
    } else {
        AttemptNext::Exhausted
    }
}

/// The next thing to do about the `requests` package that the deploy
/// scripts import.
#[derive(Debug, Clone, Copy, PartialEq, Eq, Structural)]
pub enum RequestsStep {
    /// It is there; nothing to do.
    Ready,
    /// Install it from the PyPI index at this place of the ranking.
    Install { index: usize },
    /// No index delivered it.
    Failed,
}

/// After checking whether the environment imports `requests`, with
/// `index_count` PyPI indexes to install it from: nothing is installed
/// when the import works; otherwise the first index is tried, and with no
/// index the setup fails.
pub fn after_requests_check(import_succeeded: bool, index_count: usize) -> (r: RequestsStep)
    ensures
        import_succeeded ==> r == RequestsStep::Ready,
        !import_succeeded && index_count > 0 ==> r == (RequestsStep::Install { index: 0 }),
        !import_succeeded && index_count == 0 ==> r == RequestsStep::Failed,
{
    if import_succeeded {
        RequestsStep::Ready
    } else if index_count > 0 {
        RequestsStep::Install { index: 0 }
    } else {
        RequestsStep::Failed
    }
}

/// After installing `requests` from index `index` of `index_count`: done
/// when it worked, else the next index, and after the last one the setup
/// fails.
pub fn after_requests_install(index: usize, index_count: usize, succeeded: bool) -> (r: RequestsStep)
    requires
        index < index_count,
    ensures
        succeeded ==> r == RequestsStep::Ready,
        !succeeded && index + 1 < index_count ==> r == (RequestsStep::Install { index: (index + 1) as usize }),
        !succeeded && index + 1 >= index_count ==> r == RequestsStep::Failed,
{
    match after_attempt(index, index_count, succeeded) {
        AttemptNext::Succeeded => RequestsStep::Ready,
        AttemptNext::Retry { next } => RequestsStep::Install { index: next },
        AttemptNext::Exhausted => RequestsStep::Failed,
    }
}

/// How many times the removal of an entry is tried while cleaning up.
pub const CLEANUP_RETRIES: u64 = 20;

/// The wait, in milliseconds, after failed removal attempt `attempt`
/// (counted from 0): 250 ms, and 100 ms more for each earlier attempt.
pub fn removal_retry_delay_millis(attempt: u64) -> (ms: u64)
    requires
        attempt < CLEANUP_RETRIES,
    ensures
        ms == 250 + 100 * attempt,
{
    250 + attempt * 100
}

/// Why the managed interpreter could not be put in place.
#[derive(Debug, Clone, Copy, PartialEq, Eq, Structural)]
pub enum PythonSetupError {
    /// No mirror delivered it.
    DownloadFailed,
    /// It was installed but is not where it should be.
    PythonNotFound,
    /// The environment could not be created around it.
    VenvCreateFailed,
}

/// The next thing to do while putting the managed interpreter in place.
#[derive(Debug, Clone, Copy, PartialEq, Eq, Structural)]
pub enum PythonStep {
    /// Remove the virtual environment: its interpreter is too old.
    RemoveVenv,
    /// Look for the installed managed interpreter.
    FindManagedPython,
    /// Install the interpreter from this mirror.
    InstallPython { mirror: usize },
    /// Create the virtual environment around the managed interpreter.
    CreateVenv,
    /// The environment is ready.
    Done,
    /// It failed.
    Failed(PythonSetupError),
}

/// What is known while the managed interpreter is put in place: whether
/// the existing environment may be kept, how many mirrors there are, and
/// whether an install has succeeded.
#[derive(Debug, Clone, Copy, PartialEq, Eq, Structural)]
pub struct PythonSetup {
    pub reusable: bool,
    pub mirror_count: usize,
    pub installed: bool,
}

/// Whether the environment's interpreter (if any) is of the reusable line.
pub open spec fn reusable_version(existing: Option<(u16, u16, u16)>) -> bool {
    existing matches Some(v) && v.0 == 3 && v.1 == 14 && !version_less(v, min_reusable_version())
}

/// Whether the environment's interpreter (if any) is too old to keep.
pub open spec fn too_old(existing: Option<(u16, u16, u16)>) -> bool {
    existing matches Some(v) && version_less(v, min_reusable_version())
}

/// The step after a search for the managed interpreter.
pub open spec fn step_after_find(s: PythonSetup, found: bool) -> PythonStep {
    if s.installed {
        if found {
            PythonStep::CreateVenv
        } else {
            PythonStep::Failed(PythonSetupError::PythonNotFound)
        }
    } else if found && s.reusable {
        PythonStep::Done
    } else if found {
        PythonStep::CreateVenv
    } else if s.mirror_count == 0 {
        PythonStep::Failed(PythonSetupError::DownloadFailed)
    } else {
        PythonStep::InstallPython { mirror: 0 }
    }
}

/// The step after an install attempt from mirror `mirror`.
pub open spec fn step_after_install(s: PythonSetup, mirror: usize, success: bool) -> PythonStep {
    if success {
        PythonStep::FindManagedPython
    } else if mirror + 1 < s.mirror_count {
        PythonStep::InstallPython { mirror: (mirror + 1) as usize }
    } else {
        PythonStep::Failed(PythonSetupError::DownloadFailed)
    }
}

impl PythonSetup {
    /// Starts, given the version of the environment's interpreter (if it
    /// answered) and how many mirrors there are: a too old environment is
    /// removed first.
    pub fn start(existing: Option<(u16, u16, u16)>, mirror_count: usize) -> (r: (PythonSetup, PythonStep))
        ensures
            r.0 == (PythonSetup { reusable: reusable_version(existing), mirror_count, installed: false }),
            r.1 == if too_old(existing) {
                PythonStep::RemoveVenv
            } else {
                PythonStep::FindManagedPython
            },
    {
        let (reusable, remove) = match existing {
            Some(v) => (is_reusable_venv_python_version(v), venv_python_version_requires_rebuild(v)),
            None => (false, false),
        };
        let s = PythonSetup { reusable, mirror_count, installed: false };
        if remove {
            (s, PythonStep::RemoveVenv)
        } else {
            (s, PythonStep::FindManagedPython)
        }
    }

    /// Once the environment is removed, look for the interpreter.
    pub fn after_remove(&self) -> (r: PythonStep)
        ensures
            r == PythonStep::FindManagedPython,
    {
        PythonStep::FindManagedPython
    }

    /// Once the search for the interpreter answered: keep a reusable
    /// environment whose interpreter is there; create the environment
    /// around an interpreter that is there; else install one, from the
    /// first mirror.
    pub fn after_find(&self, found: bool) -> (r: PythonStep)
        ensures
            r == step_after_find(*self, found),
    {
        if self.installed {
            if found {
                PythonStep::CreateVenv
            } else {
                PythonStep::Failed(PythonSetupError::PythonNotFound)
            }
        } else if found && self.reusable {
            PythonStep::Done
        } else if found {
            PythonStep::CreateVenv
        } else if self.mirror_count == 0 {
            PythonStep::Failed(PythonSetupError::DownloadFailed)
        } else {
            PythonStep::InstallPython { mirror: 0 }
        }
    }

    /// Once an install from mirror `mirror` answered: look for the
    /// interpreter after a success, else try the next mirror while there is one.
    pub fn after_install(&mut self, mirror: usize, success: bool) -> (r: PythonStep)
        requires
            mirror < old(self).mirror_count,
        ensures
            r == step_after_install(*old(self), mirror, success),
            *final(self) == (PythonSetup { installed: old(self).installed || success, ..*old(self) }),
    {
        if success {
            self.installed = true;
            PythonStep::FindManagedPython
        } else if mirror + 1 < self.mirror_count {
            PythonStep::InstallPython { mirror: mirror + 1 }
        } else {
            PythonStep::Failed(PythonSetupError::DownloadFailed)
        }
    }

    /// Once the environment was created, or not.
    pub fn after_create(&self, success: bool) -> (r: PythonStep)
        ensures
            r == if success {
                PythonStep::Done
            } else {
                PythonStep::Failed(PythonSetupError::VenvCreateFailed)
            },
    {
        if success {
            PythonStep::Done
        } else {
            PythonStep::Failed(PythonSetupError::VenvCreateFailed)
        }
    }
}

/// An environment whose interpreter is of the reusable line and whose
/// managed interpreter is installed is kept as it is: nothing is removed,
/// installed or created.
pub proof fn lemma_reusable_environment_kept(v: (u16, u16, u16), mirror_count: usize)
    requires
        v.0 == 3 && v.1 == 14 && !version_less(v, min_reusable_version()),
    ensures
        !too_old(Some(v)),
        step_after_find(
            PythonSetup { reusable: reusable_version(Some(v)), mirror_count, installed: false },
            true,
        ) == PythonStep::Done,
{
}

/// Installs try the mirrors in order, each once: a failure moves to the
/// next mirror, and after the last one the setup fails.
pub proof fn lemma_mirrors_in_order(s: PythonSetup, mirror: usize)
    requires
        mirror < s.mirror_count,
    ensures
        mirror + 1 < s.mirror_count ==> step_after_install(s, mirror, false) == (PythonStep::InstallPython { mirror: (mirror + 1) as usize }),
        mirror + 1 == s.mirror_count ==> step_after_install(s, mirror, false) == PythonStep::Failed(PythonSetupError::DownloadFailed),
{
}

/// The recovery after a backend that did not start in time removes the
/// virtual environment and nothing else, once, and only after checking
/// that the user has not cancelled; the dependencies are synced again only
/// after a second such check.
pub proof fn lemma_recovery_checks_cancel_first()
    ensures
        rebuild_steps()[0] == SetupStep::CheckCancel,
        forall|i: int|
            0 <= i < rebuild_steps().len() && #[trigger] rebuild_steps()[i] == SetupStep::RemoveVenv
                ==> i == 2,
        forall|i: int|
            0 <= i < rebuild_steps().len() && #[trigger] rebuild_steps()[i] == SetupStep::UvSync
                ==> i == 6 && rebuild_steps()[4] == SetupStep::CheckCancel,
        !rebuild_steps().contains(SetupStep::GitUpdate),
        !rebuild_steps().contains(SetupStep::AtomicCleanup),
        !rebuild_steps().contains(SetupStep::MigrateConfig),
{
    let s = rebuild_steps();
    assert(s.len() == 7);
    assert forall|i: int| 0 <= i < s.len() implies s[i] != SetupStep::GitUpdate && s[i] != SetupStep::AtomicCleanup && s[i] != SetupStep::MigrateConfig by {}
}

/// The recovery rebuilds what it removes: it removes the virtual
/// environment, puts the runtime tools (the interpreter and the
/// environment) back in place after that, and only then syncs the
/// dependencies.
pub proof fn lemma_recovery_rebuilds_before_sync()
    ensures
        rebuild_steps().contains(SetupStep::RemoveVenv),
        rebuild_steps().contains(SetupStep::UvSync),
        forall|i: int, k: int|
            #![trigger rebuild_steps()[i], rebuild_steps()[k]]
            0 <= i < rebuild_steps().len() && 0 <= k < rebuild_steps().len() && rebuild_steps()[i]
                == SetupStep::RemoveVenv && rebuild_steps()[k] == SetupStep::UvSync ==> exists|j: int|
                #![trigger rebuild_steps()[j]]
                i < j < k && rebuild_steps()[j] == SetupStep::EnsureRuntimeTools,
{
    lemma_rebuild_positions();
    let s = rebuild_steps();
    assert(s[2] == SetupStep::RemoveVenv);
    assert(s[6] == SetupStep::UvSync);
    assert(s.contains(SetupStep::RemoveVenv));
    assert(s.contains(SetupStep::UvSync));
}

proof fn lemma_rebuild_positions()
    ensures
        rebuild_steps().len() == 7,
        forall|i: int| 0 <= i < 7 && #[trigger] rebuild_steps()[i] == SetupStep::RemoveVenv ==> i == 2,
        forall|i: int| 0 <= i < 7 && #[trigger] rebuild_steps()[i] == SetupStep::UvSync ==> i == 6,
        rebuild_steps()[3] == SetupStep::EnsureRuntimeTools,
        rebuild_steps()[2] == SetupStep::RemoveVenv,
        rebuild_steps()[6] == SetupStep::UvSync,
{
    let s = rebuild_steps();
    assert forall|i: int| 0 <= i < 7 && #[trigger] s[i] == SetupStep::RemoveVenv implies i == 2 by {
        if i != 2 {
            assert(i == 0 || i == 1 || i == 3 || i == 4 || i == 5 || i == 6);
        }
    }
    assert forall|i: int| 0 <= i < 7 && #[trigger] s[i] == SetupStep::UvSync implies i == 6 by {
        if i != 6 {
            assert(i == 0 || i == 1 || i == 2 || i == 3 || i == 4 || i == 5);
        }
    }
}

/// Every start-up runs the runtime tools, the rollback and the migration
/// before anything else, and ends on the finishing screen; the repository
/// is updated unless skipped with a ready repository, and dependencies
/// are synced unless skipped.
pub proof fn lemma_setup_steps_shape(skip_repository_update: bool, repo_ready: bool, skip_dependency_sync: bool)
    ensures
        setup_steps(skip_repository_update, repo_ready, skip_dependency_sync).take(4) == seq![
            SetupStep::Splash(SplashStage::PreparingWorkspace),
            SetupStep::EnsureRuntimeTools,
            SetupStep::AtomicCleanup,
            SetupStep::MigrateConfig,
        ],
        setup_steps(skip_repository_update, repo_ready, skip_dependency_sync).last() == SetupStep::Splash(SplashStage::Finishing),
        setup_steps(skip_repository_update, repo_ready, skip_dependency_sync).contains(SetupStep::GitUpdate) <==> !(skip_repository_update && repo_ready),
        setup_steps(skip_repository_update, repo_ready, skip_dependency_sync).contains(SetupStep::UvSync) <==> !skip_dependency_sync,
{
    let s = setup_steps(skip_repository_update, repo_ready, skip_dependency_sync);
    assert(s.take(4) =~= seq![
        SetupStep::Splash(SplashStage::PreparingWorkspace),
        SetupStep::EnsureRuntimeTools,
        SetupStep::AtomicCleanup,
        SetupStep::MigrateConfig,
    ]);
    if !(skip_repository_update && repo_ready) {
        assert(s[5] == SetupStep::GitUpdate);
    } else {
        assert forall|i: int| 0 <= i < s.len() implies s[i] != SetupStep::GitUpdate by {}
    }
    let k: int = if skip_repository_update && repo_ready { 5 } else { 6 };
    if !skip_dependency_sync {
        assert(s[k + 1] == SetupStep::UvSync);
    } else {
        assert forall|i: int| 0 <= i < s.len() implies s[i] != SetupStep::UvSync by {}
    }
}

} // verus!
