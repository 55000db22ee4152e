//! The per-resource report of an apply: what was (or would be) done to a
//! resource, with what result.

use vstd::prelude::*;
use crate::json::Value;
use crate::text::own;

verus! {

/// What an apply does to one resource.
#[derive(Clone, Copy, Debug, PartialEq, Eq, Structural)]
pub enum Action {
    Nothing,
    Create,
    Update,
}

/// How an apply ended for one resource; `Planned` is a preview.
#[derive(Clone, Copy, Debug, PartialEq, Eq, Structural)]
pub enum OutcomeStatus {
    Planned,
    Unchanged,
    Created,
    Updated,
    Skipped,
    Failed,
}

/// The report for one resource: its kind and name, the action, the result,
/// a short message, a remedy hint for failures, and optional details.
#[derive(Clone, Debug)]
pub struct ApplyOutcome {
    pub kind: String,
    pub name: String,
    pub action: Action,
    pub status: OutcomeStatus,
    pub message: String,
    pub hint: Option<String>,
    pub details: Option<Value>,
}

/// The message of a preview of `a`.
pub open spec fn would_message(a: Action) -> Seq<char> {
    match a {
        Action::Nothing => "no change"@,
        Action::Create => "would create"@,
        Action::Update => "would update"@,
    }
}

impl ApplyOutcome {
    /// A finished outcome.
    pub fn new(kind: &str, name: &str, action: Action, status: OutcomeStatus, message: &str) -> (o:
        ApplyOutcome)
        ensures
            o.kind@ == kind@,
            o.name@ == name@,
            o.action == action,
            o.status == status,
            o.message@ == message@,
            o.hint is None,
            o.details is None,
    {
        ApplyOutcome {
            kind: own(kind),
            name: own(name),
            action,
            status,
            message: own(message),
            hint: None,
            details: None,
        }
    }

    /// A preview: `action` would be taken.
    pub fn would(kind: &str, name: &str, action: Action) -> (o: ApplyOutcome)
        ensures
            o.kind@ == kind@,
            o.name@ == name@,
            o.action == action,
            o.status == OutcomeStatus::Planned,
            o.message@ == would_message(action),
            o.hint is None,
            o.details is None,
    {
        let message = match action {
            Action::Nothing => "no change",
            Action::Create => "would create",
            Action::Update => "would update",
        };
        ApplyOutcome {
            kind: own(kind),
            name: own(name),
            action,
            status: OutcomeStatus::Planned,
            message: own(message),
            hint: None,
            details: None,
        }
    }

    /// A failure: the error as message, with a remedy hint.
    pub fn failed(kind: &str, name: &str, action: Action, error: String, hint: &str) -> (o:
        ApplyOutcome)
        ensures
            o.kind@ == kind@,
            o.name@ == name@,
            o.action == action,
            o.status == OutcomeStatus::Failed,
            o.message@ == error@,
            crate::text::ostr(o.hint) == Some(hint@),
            o.details is None,
    {
        ApplyOutcome {
            kind: own(kind),
            name: own(name),
            action,
            status: OutcomeStatus::Failed,
            message: error,
            hint: Some(own(hint)),
            details: None,
        }
    }
}

} // verus!
