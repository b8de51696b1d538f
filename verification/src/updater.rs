//! The launcher's self-update: what the update panel shows, what is
//! pending, and what each step of a check or a download decides. The
//! network work and the notifications happen outside; they report back
//! here, and the answer says what to show next.
use vstd::prelude::*;
use vstd::string::*;

verus! {

/// What the update panel shows.
#[derive(Debug, Clone, PartialEq, Eq)]
pub enum UpdateState {
    Idle,
    Checking,
    Available { version: String, title: String, detail: String },
    Updating { progress: u8, title: String, detail: String },
    ReadyToRestart { version: String },
    AlreadyLatest,
    Failed { detail: String },
}

impl UpdateState {
    /// A download in progress.
    pub fn updating(progress: u8, title: String, detail: String) -> (r: Self)
        ensures
            r == (UpdateState::Updating { progress, title, detail }),
    {
        UpdateState::Updating { progress, title, detail }
    }

    /// A downloaded update that takes effect on restart.
    pub fn ready_to_restart(version: String) -> (r: Self)
        ensures
            r == (UpdateState::ReadyToRestart { version }),
    {
        UpdateState::ReadyToRestart { version }
    }

    /// A copy of the state.
    pub fn duplicate(&self) -> (r: Self)
        ensures
            r == *self,
    {
        match self {
            UpdateState::Idle => UpdateState::Idle,
            UpdateState::Checking => UpdateState::Checking,
            UpdateState::Available { version, title, detail } => UpdateState::Available {
                version: version.clone(),
                title: title.clone(),
                detail: detail.clone(),
            },
            UpdateState::Updating { progress, title, detail } => UpdateState::Updating {
                progress: *progress,
                title: title.clone(),
                detail: detail.clone(),
            },
            UpdateState::ReadyToRestart { version } => UpdateState::ReadyToRestart {
                version: version.clone(),
            },
            UpdateState::AlreadyLatest => UpdateState::AlreadyLatest,
            UpdateState::Failed { detail } => UpdateState::Failed { detail: detail.clone() },
        }
    }
}

/// Everything the updater remembers between steps: the panel's state,
/// whether a check or download runs, the downloaded payload (`F`, a file)
/// waiting for a restart, and the version and platform (`P`) of an update
/// that was found and not yet downloaded.
pub struct UpdaterStore<P, F> {
    pub state: UpdateState,
    pub is_updating: bool,
    pub pending_launcher_update: Option<F>,
    pub pending_update_platform: Option<(String, P)>,
}

/// What the result of a finished check or download asks the user to see.
#[derive(Debug, Clone, PartialEq, Eq)]
pub enum UpdateNotice {
    /// An update was found.
    UpdateAvailable { version: String },
    /// The launcher is already up to date.
    AlreadyLatest,
    /// The update was downloaded; a restart applies it.
    ReadyToRestart,
    /// The check or the download failed.
    Failed { detail: String },
}

/// What follows a finished check or download: a notification to show, and
/// after how many milliseconds the panel goes back to idle.
#[derive(Debug)]
pub struct UpdateFollowup {
    pub notice: Option<UpdateNotice>,
    pub reset_to_idle_after_millis: Option<u64>,
}

/// How a request to check for an update was answered.
#[derive(Debug, Clone, Copy, PartialEq, Eq, Structural)]
pub enum CheckStart {
    /// Another check or download runs; nothing was started.
    InProgress,
    /// The check was started; `announce` asks for a "checking" notification.
    Started { announce: bool },
}

/// How a request to download the pending update was answered.
#[derive(Debug)]
pub enum DownloadStart<P> {
    /// Another check or download runs; nothing was started.
    InProgress,
    /// The download of `version` for `platform` was started.
    Started { version: String, platform: P },
}

/// What the check reported.
#[derive(Debug)]
pub enum CheckOutcome<P> {
    /// A newer version exists; `title` and `detail` are the panel's text for it.
    Available { version: String, platform: P, title: String, detail: String },
    /// The launcher is up to date.
    UpToDate,
    /// The check failed with this message.
    Failed { detail: String },
}

/// A refused update request.
#[derive(Debug, Clone, Copy, PartialEq, Eq, Structural)]
pub enum UpdateError {
    /// A download was asked for while no update was found.
    NoPendingUpdate,
}

impl UpdateError {
    pub open spec fn text(self) -> Seq<char> {
        "No pending update available to download"@
    }

    /// The error's message.
    pub fn message(&self) -> (s: String)
        ensures
            s@ == self.text(),
    {
        String::from_str("No pending update available to download")
    }
}

impl CheckStart {
    pub open spec fn text(self) -> Seq<char> {
        match self {
            CheckStart::InProgress => "in_progress"@,
            CheckStart::Started { .. } => "checking_started"@,
        }
    }

    /// The answer's name, as the update command reports it.
    pub fn name(&self) -> (s: String)
        ensures
            s@ == self.text(),
    {
        match self {
            CheckStart::InProgress => String::from_str("in_progress"),
            CheckStart::Started { .. } => String::from_str("checking_started"),
        }
    }
}

impl<P> DownloadStart<P> {
    pub open spec fn text(self) -> Seq<char> {
        match self {
            DownloadStart::InProgress => "in_progress"@,
            DownloadStart::Started { .. } => "download_started"@,
        }
    }

    /// The answer's name, as the update command reports it.
    pub fn name(&self) -> (s: String)
        ensures
            s@ == self.text(),
    {
        match self {
            DownloadStart::InProgress => String::from_str("in_progress"),
            DownloadStart::Started { .. } => String::from_str("download_started"),
        }
    }
}

impl<P, F> UpdaterStore<P, F> {
    /// The store with another panel state.
    pub open spec fn with_state(self, state: UpdateState) -> Self {
        UpdaterStore { state, ..self }
    }

    /// The store once a check has started.
    pub open spec fn check_started(self) -> Self {
        UpdaterStore { state: UpdateState::Checking, is_updating: true, ..self }
    }

    /// The store once a check has reported `outcome`.
    pub open spec fn check_finished(self, outcome: CheckOutcome<P>) -> Self {
        match outcome {
            CheckOutcome::Available { version, platform, title, detail } => UpdaterStore {
                state: UpdateState::Available { version, title, detail },
                is_updating: false,
                pending_update_platform: Some((version, platform)),
                ..self
            },
            CheckOutcome::UpToDate => UpdaterStore {
                state: UpdateState::AlreadyLatest,
                is_updating: false,
                pending_update_platform: None,
                ..self
            },
            CheckOutcome::Failed { detail } => UpdaterStore {
                state: UpdateState::Failed { detail },
                is_updating: false,
                pending_update_platform: None,
                ..self
            },
        }
    }

    /// The store once a download has started, showing `title` and `detail`.
    pub open spec fn download_started(self, title: String, detail: String) -> Self {
        UpdaterStore {
            state: UpdateState::Updating { progress: 8, title, detail },
            is_updating: true,
            ..self
        }
    }

    /// The store once the download of `version` has reported: the payload,
    /// or the failure's message.
    pub open spec fn download_finished(self, version: String, outcome: Result<F, String>) -> Self {
        match outcome {
            Ok(payload) => UpdaterStore {
                state: UpdateState::ReadyToRestart { version },
                is_updating: false,
                pending_launcher_update: Some(payload),
                pending_update_platform: None,
            },
            Err(detail) => UpdaterStore {
                state: UpdateState::Failed { detail },
                is_updating: false,
                ..self
            },
        }
    }

    /// An idle store with nothing pending.
    pub fn new() -> (r: Self)
        ensures
            r.state == UpdateState::Idle,
            !r.is_updating,
            r.pending_launcher_update is None,
            r.pending_update_platform is None,
    {
        UpdaterStore {
            state: UpdateState::Idle,
            is_updating: false,
            pending_launcher_update: None,
            pending_update_platform: None,
        }
    }

    /// What the panel shows.
    pub fn get_update_state(&self) -> (r: UpdateState)
        ensures
            r == self.state,
    {
        self.state.duplicate()
    }

    /// Shows another state on the panel.
    pub fn set_update_state(&mut self, state: UpdateState)
        ensures
            *final(self) == old(self).with_state(state),
    {
        self.state = state;
    }

    /// Whether a check or a download runs.
    pub fn is_update_in_progress(&self) -> (b: bool)
        ensures
            b == self.is_updating,
    {
        self.is_updating
    }

    /// Keeps a downloaded payload for the next restart.
    pub fn set_pending_launcher_update(&mut self, path: F)
        ensures
            *final(self) == (UpdaterStore { pending_launcher_update: Some(path), ..*old(self) }),
    {
        self.pending_launcher_update = Some(path);
    }

    /// Hands out the payload kept for the restart, once.
    pub fn take_pending_launcher_update(&mut self) -> (r: Option<F>)
        ensures
            r == old(self).pending_launcher_update,
            *final(self) == (UpdaterStore { pending_launcher_update: None, ..*old(self) }),
    {
        self.pending_launcher_update.take()
    }

    /// Whether a payload waits for the restart.
    pub fn has_pending_launcher_update(&self) -> (b: bool)
        ensures
            b == self.pending_launcher_update is Some,
    {
        self.pending_launcher_update.is_some()
    }

    /// Remembers the update that a check found.
    pub fn set_pending_update_platform(&mut self, version: String, platform: P)
        ensures
            *final(self) == (UpdaterStore {
                pending_update_platform: Some((version, platform)),
                ..*old(self)
            }),
    {
        self.pending_update_platform = Some((version, platform));
    }

    /// Forgets the update that a check found.
    pub fn clear_pending_update_platform(&mut self)
        ensures
            *final(self) == (UpdaterStore { pending_update_platform: None, ..*old(self) }),
    {
        self.pending_update_platform = None;
    }

    /// Starts a check unless one, or a download, already runs. A check
    /// asked for by the user (not in the background) is announced.
    pub fn begin_update_check(&mut self, is_background: bool) -> (r: CheckStart)
        ensures
            old(self).is_updating ==> r == CheckStart::InProgress && *final(self) == *old(self),
            !old(self).is_updating ==> r == (CheckStart::Started { announce: !is_background })
                && *final(self) == old(self).check_started(),
    {
        if self.is_updating {
            return CheckStart::InProgress;
        }
        self.is_updating = true;
        self.state = UpdateState::Checking;
        CheckStart::Started { announce: !is_background }
    }

    /// Takes in what a check reported and says what follows: a found
    /// update is kept and always announced; "up to date" is announced only
    /// to a user who asked and goes back to idle after 3.5 s; a failure is
    /// announced and goes back to idle after 5 s.
    pub fn finish_update_check(&mut self, outcome: CheckOutcome<P>, is_background: bool) -> (r:
        UpdateFollowup)
        ensures
            *final(self) == old(self).check_finished(outcome),
            match outcome {
                CheckOutcome::Available { version, .. } => r.notice == Some(
                    UpdateNotice::UpdateAvailable { version },
                ) && r.reset_to_idle_after_millis is None,
                CheckOutcome::UpToDate => r.notice == (if is_background {
                    None
                } else {
                    Some(UpdateNotice::AlreadyLatest)
                }) && r.reset_to_idle_after_millis == Some(3500u64),
                CheckOutcome::Failed { detail } => r.notice == Some(UpdateNotice::Failed { detail })
                    && r.reset_to_idle_after_millis == Some(5000u64),
            },
    {
        self.is_updating = false;
        match outcome {
            CheckOutcome::Available { version, platform, title, detail } => {
                let notice = UpdateNotice::UpdateAvailable { version: version.clone() };
                self.pending_update_platform = Some((version.clone(), platform));
                self.state = UpdateState::Available { version, title, detail };
                UpdateFollowup { notice: Some(notice), reset_to_idle_after_millis: None }
            },
            CheckOutcome::UpToDate => {
                self.pending_update_platform = None;
                self.state = UpdateState::AlreadyLatest;
                UpdateFollowup {
                    notice: if is_background {
                        None
                    } else {
                        Some(UpdateNotice::AlreadyLatest)
                    },
                    reset_to_idle_after_millis: Some(3500),
                }
            },
            CheckOutcome::Failed { detail } => {
                let notice = UpdateNotice::Failed { detail: detail.clone() };
                self.pending_update_platform = None;
                self.state = UpdateState::Failed { detail };
                UpdateFollowup { notice: Some(notice), reset_to_idle_after_millis: Some(5000) }
            },
        }
    }

    /// Goes back to idle and forgets a found update.
    pub fn cancel_or_dismiss_update(&mut self)
        ensures
            *final(self) == (UpdaterStore {
                state: UpdateState::Idle,
                pending_update_platform: None,
                ..*old(self)
            }),
    {
        self.pending_update_platform = None;
        self.state = UpdateState::Idle;
    }

    /// Takes in what a download reported and says what follows: the
    /// payload waits for a restart, which is announced; a failure is
    /// announced and goes back to idle after 5 s, keeping the found update.
    pub fn finish_download(&mut self, version: String, outcome: Result<F, String>) -> (r:
        UpdateFollowup)
        ensures
            *final(self) == old(self).download_finished(version, outcome),
            match outcome {
                Ok(_) => r.notice == Some(UpdateNotice::ReadyToRestart)
                    && r.reset_to_idle_after_millis is None,
                Err(detail) => r.notice == Some(UpdateNotice::Failed { detail })
                    && r.reset_to_idle_after_millis == Some(5000u64),
            },
    {
        self.is_updating = false;
        match outcome {
            Ok(payload) => {
                self.pending_launcher_update = Some(payload);
                self.pending_update_platform = None;
                self.state = UpdateState::ReadyToRestart { version };
                UpdateFollowup {
                    notice: Some(UpdateNotice::ReadyToRestart),
                    reset_to_idle_after_millis: None,
                }
            },
            Err(detail) => {
                let notice = UpdateNotice::Failed { detail: detail.clone() };
                self.state = UpdateState::Failed { detail };
                UpdateFollowup { notice: Some(notice), reset_to_idle_after_millis: Some(5000) }
            },
        }
    }
}

/// `r` is what reading the found update gives when `pending` is stored:
/// nothing when nothing is stored, else the version and a clone of the
/// platform.
pub open spec fn pending_read<P: Clone>(pending: Option<(String, P)>, r: Option<(String, P)>) -> bool {
    match pending {
        None => r is None,
        Some((v, p)) => (r matches Some((rv, rp)) && rv == v && cloned(p, rp)),
    }
}

impl<P: Clone, F> UpdaterStore<P, F> {
    /// The update that a check found, if any.
    pub fn get_pending_update_platform(&self) -> (r: Option<(String, P)>)
        ensures
            pending_read(self.pending_update_platform, r),
    {
        match &self.pending_update_platform {
            None => None,
            Some((v, p)) => Some((v.clone(), p.clone())),
        }
    }

    /// Starts downloading the update a check found, showing `title` and
    /// `detail`: refused when none was found; not started while a check or
    /// a download runs.
    pub fn begin_download(&mut self, title: String, detail: String) -> (r: Result<
        DownloadStart<P>,
        UpdateError,
    >)
        ensures
            old(self).pending_update_platform is None ==> r == Err::<DownloadStart<P>, UpdateError>(
                UpdateError::NoPendingUpdate,
            ) && *final(self) == *old(self),
            old(self).pending_update_platform is Some && old(self).is_updating ==> (r matches Ok(
                DownloadStart::InProgress,
            )) && *final(self) == *old(self),
            old(self).pending_update_platform is Some && !old(self).is_updating ==> {
                &&& r matches Ok(DownloadStart::Started { version, platform })
                &&& version == old(self).pending_update_platform.unwrap().0
                &&& cloned(old(self).pending_update_platform.unwrap().1, platform)
                &&& *final(self) == old(self).download_started(title, detail)
            },
    {
        let pending = self.get_pending_update_platform();
        let (version, platform) = match pending {
            Some(p) => p,
            None => {
                return Err(UpdateError::NoPendingUpdate);
            },
        };
        if self.is_updating {
            return Ok(DownloadStart::InProgress);
        }
        self.is_updating = true;
        self.state = UpdateState::Updating { progress: 8, title, detail };
        Ok(DownloadStart::Started { version, platform })
    }
}

/// The panel shows what was last stored.
pub proof fn lemma_state_read_after_write<P, F>(s: UpdaterStore<P, F>, state: UpdateState)
    ensures
        s.with_state(state).state == state,
        s.with_state(state).with_state(s.state) == s,
{
}

/// A downloaded payload is handed out exactly once: the first take after
/// a download gives it, and nothing waits afterwards.
pub proof fn lemma_payload_taken_once<P, F>(s: UpdaterStore<P, F>, version: String, payload: F)
    ensures
        s.download_finished(version, Ok(payload)).pending_launcher_update == Some(payload),
        (UpdaterStore {
            pending_launcher_update: None,
            ..s.download_finished(version, Ok(payload))
        }).pending_launcher_update is None,
{
}

/// Whatever a check reports, afterwards no check runs, and a found update
/// is remembered exactly when the check found one.
pub proof fn lemma_check_releases<P, F>(s: UpdaterStore<P, F>, outcome: CheckOutcome<P>)
    ensures
        !s.check_started().check_finished(outcome).is_updating,
        s.check_started().check_finished(outcome).pending_update_platform is Some <==> outcome is Available,
        s.check_started().check_finished(outcome).pending_launcher_update == s.pending_launcher_update,
{
}

/// Whatever a download reports, afterwards no download runs; a finished
/// download leaves its payload and no found update, a failed one keeps
/// the found update for another try.
pub proof fn lemma_download_releases<P, F>(
    s: UpdaterStore<P, F>,
    title: String,
    detail: String,
    version: String,
    outcome: Result<F, String>,
)
    ensures
        !s.download_started(title, detail).download_finished(version, outcome).is_updating,
        outcome is Ok ==> s.download_started(title, detail).download_finished(
            version,
            outcome,
        ).pending_update_platform is None,
        outcome is Err ==> s.download_started(title, detail).download_finished(
            version,
            outcome,
        ).pending_update_platform == s.pending_update_platform,
{
}

/// Reading the found update gives what was last stored and consumes
/// nothing, for any platform type whose clone is exact: after storing a
/// version and a platform, every read gives them back; after clearing,
/// every read gives nothing.
pub proof fn lemma_pending_platform_reads_back<P: Clone, F>(
    s: UpdaterStore<P, F>,
    version: String,
    platform: P,
    r1: Option<(String, P)>,
    r2: Option<(String, P)>,
)
    requires
        forall|a: P, b: P| #[trigger] cloned(a, b) ==> a == b,
    ensures
        ({
            let set = UpdaterStore { pending_update_platform: Some((version, platform)), ..s };
            pending_read(set.pending_update_platform, r1) && pending_read(set.pending_update_platform, r2)
                ==> r1 == Some((version, platform)) && r2 == Some((version, platform))
        }),
        ({
            let cleared = UpdaterStore { pending_update_platform: None, ..s };
            pending_read(cleared.pending_update_platform, r1) ==> r1 is None
        }),
{
}

/// Platforms held as text, as the launcher holds them, clone exactly, so
/// the reads above give back what was stored.
pub proof fn lemma_text_platform_clones_exactly()
    ensures
        forall|a: String, b: String| #[trigger] cloned(a, b) ==> a == b,
{
}

} // verus!
