//! Waiting for an import to finish.
//!
//! The import trigger is fire-and-forget; completion shows as the
//! requisition's `last-import` time moving away from the value seen before
//! the trigger. The poller reads the requisition, decides with
//! [`poll_step`], and sleeps or stops as the step says.

use vstd::prelude::*;
use crate::provisioning::time::{duration_text, format_duration};
use crate::text::{append_str, own};

verus! {

/// The `--wait`, `--timeout` and `--poll-interval` flags.
#[derive(Clone, Copy, Debug)]
pub struct AsyncFlags {
    pub wait: bool,
    pub timeout_ms: u64,
    pub poll_interval_ms: u64,
}

/// What the poller does after one read of the requisition.
#[derive(Clone, Debug)]
pub enum PollStep {
    /// The import is observed complete, with the new `last-import` time.
    Done(i64),
    /// The requisition disappeared while being watched.
    Failed { handle: String, reason: String },
    /// The timeout passed before the import was observed.
    TimedOut { handle: String, timeout: String },
    /// Read again after the poll interval.
    Sleep,
}

/// Whether a read shows the import complete: a `last-import` time is set
/// and differs from the one seen before the trigger. A time that was
/// cleared is no import.
pub open spec fn converged(pre: Option<i64>, last_import: Option<i64>) -> bool {
    match last_import {
        Some(t) => pre != Some(t),
        None => false,
    }
}

/// The reason given when the requisition vanishes.
pub open spec fn vanished_reason(fs: Seq<char>) -> Seq<char> {
    "requisition '"@ + fs + "' vanished during poll"@
}

/// The step after one read. `seen` is the requisition's `last-import` when
/// the requisition exists, `None` when it is gone; `timed_out` tells whether
/// the timeout has passed since the wait began.
pub open spec fn spec_poll_step(
    fs: Seq<char>,
    pre: Option<i64>,
    seen: Option<Option<i64>>,
    timed_out: bool,
    timeout_ms: u64,
    s: PollStep,
) -> bool {
    match seen {
        None => match s {
            PollStep::Failed { handle, reason } => handle@ == fs && reason@ == vanished_reason(fs),
            _ => false,
        },
        Some(last) => if converged(pre, last) {
            s == PollStep::Done(last.unwrap())
        } else if timed_out {
            match s {
                PollStep::TimedOut { handle, timeout } => handle@ == fs && timeout@ == duration_text(
                    (timeout_ms / 1000) as nat,
                ),
                _ => false,
            }
        } else {
            s is Sleep
        },
    }
}

/// The step after one read (see [`spec_poll_step`]).
pub fn poll_step(
    fs: &str,
    pre: Option<i64>,
    seen: Option<Option<i64>>,
    timed_out: bool,
    timeout_ms: u64,
) -> (s: PollStep)
    ensures
        spec_poll_step(fs@, pre, seen, timed_out, timeout_ms, s),
{
    match seen {
        None => {
            let mut reason = String::new();
            append_str(&mut reason, "requisition '");
            append_str(&mut reason, fs);
            append_str(&mut reason, "' vanished during poll");
            PollStep::Failed { handle: own(fs), reason }
        },
        Some(last) => {
            if let Some(t) = last {
                let differs = match pre {
                    Some(p) => p != t,
                    None => true,
                };
                if differs {
                    return PollStep::Done(t);
                }
            }
            if timed_out {
                PollStep::TimedOut { handle: own(fs), timeout: format_duration(timeout_ms / 1000) }
            } else {
                PollStep::Sleep
            }
        },
    }
}

} // verus!
