use vstd::prelude::*;

verus! {

/// Where an update session stands.
#[derive(Debug, Clone, Copy, PartialEq, Eq, Structural)]
pub enum Stage {
    Idle,
    Checking,
    UpToDate,
    UpdateAvailable,
    Declined,
    Downloading,
    Verifying,
    Extracting,
    Installing,
    Done,
    Failed,
}

/// What happened in the stage under way.
#[derive(Debug, Clone, Copy, PartialEq, Eq, Structural)]
pub enum SessionEvent {
    /// The session starts checking for a release.
    Start,
    /// The release was resolved; whether it is newer than the running version.
    Resolved(bool),
    /// The caller accepted or declined the update.
    Decided(bool),
    /// The archive is on disk.
    Downloaded,
    /// The archive's signature matched.
    Verified,
    /// The archive was unpacked into the scratch directory.
    Extracted,
    /// The new files are in place.
    Installed,
    /// The stage under way failed.
    StageFailed,
}

/// No event leaves these stages.
pub open spec fn is_terminal(s: Stage) -> bool {
    s == Stage::UpToDate || s == Stage::Declined || s == Stage::Done || s == Stage::Failed
}

/// The stage after `s` on event `e`, for a session that checks signatures when
/// `verify` holds; `None` when `e` cannot happen in `s`.
pub open spec fn next_stage(s: Stage, verify: bool, e: SessionEvent) -> Option<Stage> {
    if is_terminal(s) {
        None
    } else {
        match (s, e) {
            (_, SessionEvent::StageFailed) => if s == Stage::Idle {
                None
            } else {
                Some(Stage::Failed)
            },
            (Stage::Idle, SessionEvent::Start) => Some(Stage::Checking),
            (Stage::Checking, SessionEvent::Resolved(newer)) => if newer {
                Some(Stage::UpdateAvailable)
            } else {
                Some(Stage::UpToDate)
            },
            (Stage::UpdateAvailable, SessionEvent::Decided(accept)) => if accept {
                Some(Stage::Downloading)
            } else {
                Some(Stage::Declined)
            },
            (Stage::Downloading, SessionEvent::Downloaded) => if verify {
                Some(Stage::Verifying)
            } else {
                Some(Stage::Extracting)
            },
            (Stage::Verifying, SessionEvent::Verified) => Some(Stage::Extracting),
            (Stage::Extracting, SessionEvent::Extracted) => Some(Stage::Installing),
            (Stage::Installing, SessionEvent::Installed) => Some(Stage::Done),
            _ => None,
        }
    }
}

/// The stages of one update attempt, in order.
pub struct Session {
    pub stage: Stage,
    /// A public key is configured, so the archive's signature is checked.
    pub verify: bool,
}

impl Session {
    /// A session that has not started.
    pub fn new(verify: bool) -> (r: Session)
        ensures
            r.stage == Stage::Idle,
            r.verify == verify,
    {
        Session { stage: Stage::Idle, verify }
    }

    /// Whether the session has ended.
    pub fn is_finished(&self) -> (r: bool)
        ensures
            r == is_terminal(self.stage),
    {
        match self.stage {
            Stage::UpToDate | Stage::Declined | Stage::Done | Stage::Failed => true,
            _ => false,
        }
    }

    /// Moves the session on by `e`; returns `false`, leaving it as it was,
    /// when `e` cannot happen in the current stage.
    pub fn advance(&mut self, e: SessionEvent) -> (r: bool)
        ensures
            final(self).verify == old(self).verify,
            r == next_stage(old(self).stage, old(self).verify, e) is Some,
            r ==> final(self).stage == next_stage(old(self).stage, old(self).verify, e)->0,
            !r ==> final(self).stage == old(self).stage,
    {
        let next = match (self.stage, e) {
            (Stage::UpToDate, _) | (Stage::Declined, _) | (Stage::Done, _) | (Stage::Failed, _) => None,
            (Stage::Idle, SessionEvent::StageFailed) => None,
            (_, SessionEvent::StageFailed) => Some(Stage::Failed),
            (Stage::Idle, SessionEvent::Start) => Some(Stage::Checking),
            (Stage::Checking, SessionEvent::Resolved(newer)) => if newer {
                Some(Stage::UpdateAvailable)
            } else {
                Some(Stage::UpToDate)
            },
            (Stage::UpdateAvailable, SessionEvent::Decided(accept)) => if accept {
                Some(Stage::Downloading)
            } else {
                Some(Stage::Declined)
            },
            (Stage::Downloading, SessionEvent::Downloaded) => if self.verify {
                Some(Stage::Verifying)
            } else {
                Some(Stage::Extracting)
            },
            (Stage::Verifying, SessionEvent::Verified) => Some(Stage::Extracting),
            (Stage::Extracting, SessionEvent::Extracted) => Some(Stage::Installing),
            (Stage::Installing, SessionEvent::Installed) => Some(Stage::Done),
            _ => None,
        };
        match next {
            Some(s) => {
                self.stage = s;
                true
            },
            None => false,
        }
    }
}

/// A session never leaves a terminal stage, and every stage that has started
/// and not ended can fail.
pub proof fn lemma_session_ends(s: Stage, verify: bool, e: SessionEvent)
    ensures
        is_terminal(s) ==> next_stage(s, verify, e) is None,
        !is_terminal(s) && s != Stage::Idle ==> next_stage(s, verify, SessionEvent::StageFailed)
            == Some(Stage::Failed),
{
}

/// The archive is unpacked only after it was verified, or downloaded where no
/// key is configured; it is verified only where a key is configured; files
/// are moved into place only after unpacking.
pub proof fn lemma_stage_order(s: Stage, verify: bool, e: SessionEvent)
    ensures
        next_stage(s, verify, e) == Some(Stage::Extracting) ==> s == Stage::Verifying || (!verify
            && s == Stage::Downloading),
        next_stage(s, verify, e) == Some(Stage::Verifying) ==> verify && s == Stage::Downloading,
        next_stage(s, verify, e) == Some(Stage::Installing) ==> s == Stage::Extracting,
        next_stage(s, verify, e) == Some(Stage::Downloading) ==> s == Stage::UpdateAvailable
            && e == SessionEvent::Decided(true),
{
}

} // verus!
