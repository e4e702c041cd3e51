//! # Notification decisions
//!
//! The overall status of a run, from the outcome of fetching the current
//! address and of each server, and which configured notifications it
//! triggers.
use vstd::prelude::*;

verus! {

/// The outcome of one server's reconciliation.
#[derive(Debug, Clone, Copy, PartialEq, Eq, Structural)]
pub enum ServerOutcome {
    Success { is_ip_changed: bool },
    Failed,
}

/// The overall status of a run.
#[derive(Debug, Clone, Copy, PartialEq, Eq, Structural)]
pub enum Status {
    SuccessButNotChanged,
    SuccessFullyChanged,
    Failed,
}

/// When a notification is sent.
#[derive(Debug, Clone, Copy, PartialEq, Eq, Structural)]
pub enum NotificationTrigger {
    OnSuccess,
    OnSuccessFullyChanged,
    OnFailure,
    /// `OnSuccessFullyChanged` and `OnFailure`
    Both,
    /// `OnSuccess` and `OnFailure`
    Always,
}

/// The status of a run: failed when the address could not be fetched or a
/// server failed; else changed when some server changed a rule; else not
/// changed.
pub open spec fn status_of(ip_fetch_failed: bool, outcomes: Seq<ServerOutcome>) -> Status {
    if ip_fetch_failed || exists|i: int|
        0 <= i < outcomes.len() && #[trigger] outcomes[i] == ServerOutcome::Failed {
        Status::Failed
    } else if exists|i: int|
        0 <= i < outcomes.len() && #[trigger] outcomes[i] == (ServerOutcome::Success {
            is_ip_changed: true,
        }) {
        Status::SuccessFullyChanged
    } else {
        Status::SuccessButNotChanged
    }
}

/// The status of a run (see [`status_of`]).
pub fn run_status(ip_fetch_failed: bool, outcomes: &[ServerOutcome]) -> (r: Status)
    ensures
        r == status_of(ip_fetch_failed, outcomes@),
{
    if ip_fetch_failed {
        return Status::Failed;
    }
    let mut has_failure = false;
    let mut has_changed = false;
    let mut i: usize = 0;
    while i < outcomes.len()
        invariant
            0 <= i <= outcomes@.len(),
            has_failure == exists|j: int|
                0 <= j < i && #[trigger] outcomes@[j] == ServerOutcome::Failed,
            has_changed == exists|j: int|
                0 <= j < i && #[trigger] outcomes@[j] == (ServerOutcome::Success {
                    is_ip_changed: true,
                }),
        decreases outcomes@.len() - i,
    {
        match outcomes[i] {
            ServerOutcome::Failed => {
                has_failure = true;
            },
            ServerOutcome::Success { is_ip_changed } => {
                if is_ip_changed {
                    has_changed = true;
                }
            },
        }
        i = i + 1;
    }
    if has_failure {
        Status::Failed
    } else if has_changed {
        Status::SuccessFullyChanged
    } else {
        Status::SuccessButNotChanged
    }
}

/// Whether a notification with `trigger` is sent for a run with `status`.
pub open spec fn notifies(trigger: NotificationTrigger, status: Status) -> bool {
    match trigger {
        NotificationTrigger::OnSuccess => status != Status::Failed,
        NotificationTrigger::OnFailure => status == Status::Failed,
        NotificationTrigger::OnSuccessFullyChanged => status == Status::SuccessFullyChanged,
        NotificationTrigger::Both => status == Status::SuccessFullyChanged || status
            == Status::Failed,
        NotificationTrigger::Always => true,
    }
}

/// Whether a notification with `trigger` is sent for a run with `status`.
pub fn should_notify(trigger: NotificationTrigger, status: Status) -> (r: bool)
    ensures
        r == notifies(trigger, status),
{
    match trigger {
        NotificationTrigger::OnSuccess => status == Status::SuccessFullyChanged || status
            == Status::SuccessButNotChanged,
        NotificationTrigger::OnFailure => status == Status::Failed,
        NotificationTrigger::OnSuccessFullyChanged => status == Status::SuccessFullyChanged,
        NotificationTrigger::Both => status == Status::SuccessFullyChanged || status
            == Status::Failed,
        NotificationTrigger::Always => true,
    }
}

} // verus!
