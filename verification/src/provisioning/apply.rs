//! The decisions of applying `kind: Requisition` documents.
//!
//! Planning reads the deployed requisition and foreign source (and the
//! server's default foreign source when either side lacks a custom one),
//! builds both sides' composites, diffs them and decides what execution
//! would write and whether the import rescans existing nodes. Execution
//! writes the foreign source first (post or delete), then the
//! requisition, then triggers the import.
//!
//! Several documents are applied in two phases: all are checked for
//! collisions (a requisition name in two files aborts; a foreign id in
//! two files warns) and planned before any is written.

use vstd::prelude::*;
use crate::provisioning::convert::{
    requisition_from_wire, spec_foreign_source_from_wire, spec_requisition_from_wire,
};
use crate::provisioning::diff::{
    diff_requisition, spec_diff, spec_paths, spec_scan_relevant, scan_relevant_paths,
    RequisitionDelta, RequisitionDeltaModel,
};
use crate::provisioning::model::{
    ForeignSourceSpecModel, MetadataModel, RequisitionLocal, RequisitionLocalModel, SpecModel,
};
use crate::provisioning::server::{
    ForeignSourceServer, ForeignSourceServerModel, RequisitionServer, RequisitionServerModel,
};
use crate::text::{append_str, dec, fmt_usize, join, join_strs, own, str_eq, strs};

verus! {

// ---------------------------------------------------------------------------
// Options, plans and outcomes
// ---------------------------------------------------------------------------

/// Whether the import rescans existing nodes: decided from the diff, or
/// forced.
#[derive(Clone, Copy, Debug, PartialEq, Eq, Structural)]
pub enum RescanChoice {
    Auto,
    Force(bool),
}

/// Options of a single apply: a dry run issues no write.
#[derive(Clone, Copy, Debug)]
pub struct ApplyOptions {
    pub dry_run: bool,
    pub rescan_existing: RescanChoice,
}

/// What execution would do for a plan.
#[derive(Clone, Copy, Debug, PartialEq, Eq, Structural)]
pub enum PlanState {
    Unchanged,
    WouldCreate,
    WouldUpdate,
}

/// How an apply ended.
#[derive(Clone, Copy, Debug, PartialEq, Eq, Structural)]
pub enum ApplyState {
    Unchanged,
    DryRun,
    Created,
    Updated,
}

/// What an apply does to the custom foreign source of a requisition.
#[derive(Clone, Copy, Debug, PartialEq, Eq, Structural)]
pub enum ForeignSourceAction {
    NoChange,
    Created,
    Updated,
    Deleted,
}

/// The plan of one document: what execution would do, the delta behind
/// it, the rescan decision, the foreign-source action, the deployed
/// custom foreign source and last-import time as read, and the
/// scan-relevant leaf paths the automatic rescan decision looks at.
pub struct RequisitionPlan {
    pub local: RequisitionLocal,
    pub state: PlanState,
    pub delta: RequisitionDelta,
    pub rescan_existing: bool,
    pub foreign_source_action: ForeignSourceAction,
    pub original_remote_fs: Option<ForeignSourceServer>,
    pub pre_trigger_last_import_ms: Option<i64>,
    pub scan_relevant_leaves: Vec<String>,
}

/// The report of one apply: how it ended, with the plan's findings.
pub struct ApplyOutcome {
    pub state: ApplyState,
    pub delta: RequisitionDelta,
    pub rescan_existing: bool,
    pub foreign_source_action: ForeignSourceAction,
    pub original_remote_fs: Option<ForeignSourceServer>,
    pub pre_trigger_last_import_ms: Option<i64>,
    pub scan_relevant_leaves: Vec<String>,
}

/// The foreign-source action for (deployed has a custom one, document
/// has one).
pub open spec fn spec_fs_action(remote_has_fs: bool, local_has_fs: bool) -> ForeignSourceAction {
    if !remote_has_fs && !local_has_fs {
        ForeignSourceAction::NoChange
    } else if !remote_has_fs && local_has_fs {
        ForeignSourceAction::Created
    } else if remote_has_fs && local_has_fs {
        ForeignSourceAction::Updated
    } else {
        ForeignSourceAction::Deleted
    }
}

/// The foreign-source action: create when only the document has one,
/// update when both do, delete when only the server has one (so the
/// default applies again), nothing when neither does.
pub fn classify_fs_action(remote_has_fs: bool, local_has_fs: bool) -> (a: ForeignSourceAction)
    ensures
        a == spec_fs_action(remote_has_fs, local_has_fs),
{
    match (remote_has_fs, local_has_fs) {
        (false, false) => ForeignSourceAction::NoChange,
        (false, true) => ForeignSourceAction::Created,
        (true, true) => ForeignSourceAction::Updated,
        (true, false) => ForeignSourceAction::Deleted,
    }
}

/// Whether planning needs the server's default foreign source: when the
/// server has no custom one or the document has none.
pub fn needs_default_fs(remote_has_fs: bool, local: &RequisitionLocal) -> (b: bool)
    ensures
        b == (!remote_has_fs || local@.spec.foreign_source is None),
{
    !remote_has_fs || local.spec.foreign_source.is_none()
}

// ---------------------------------------------------------------------------
// Composites
// ---------------------------------------------------------------------------

/// The document side of the diff: the document, with the default foreign
/// source (converted as a server one is) in place of an absent one.
pub open spec fn spec_local_composite(
    local: RequisitionLocalModel,
    default_fs: Option<ForeignSourceServerModel>,
) -> RequisitionLocalModel {
    if local.spec.foreign_source is Some {
        local
    } else {
        RequisitionLocalModel {
            spec: SpecModel {
                foreign_source: match default_fs {
                    Some(f) => Some(spec_foreign_source_from_wire(f)),
                    None => None,
                },
                ..local.spec
            },
            ..local
        }
    }
}

/// A server requisition of that name without nodes or time stamps.
pub open spec fn empty_server_req(name: Seq<char>) -> RequisitionServerModel {
    RequisitionServerModel {
        foreign_source: name,
        date_stamp: None,
        last_import: None,
        node: Seq::empty(),
    }
}

/// The server side of the diff: the deployed requisition (an empty one
/// when there is none) with the custom foreign source, else the default.
pub open spec fn spec_remote_composite(
    name: Seq<char>,
    remote_req: Option<RequisitionServerModel>,
    remote_fs: Option<ForeignSourceServerModel>,
    default_fs: Option<ForeignSourceServerModel>,
) -> RequisitionLocalModel {
    let fs = if remote_fs is Some {
        remote_fs
    } else {
        default_fs
    };
    match remote_req {
        Some(r) => spec_requisition_from_wire(r, fs),
        None => spec_requisition_from_wire(empty_server_req(name), fs),
    }
}

fn empty_requisition(name: &String) -> (r: RequisitionServer)
    ensures
        r@ == empty_server_req(name@),
{
    let r = RequisitionServer {
        foreign_source: name.clone(),
        date_stamp: None,
        last_import: None,
        node: Vec::new(),
    };
    assert(r@.node =~= Seq::empty());
    r
}

/// The document side of the diff (see [`spec_local_composite`]).
pub fn build_local_composite(local: &RequisitionLocal, default_fs: Option<&ForeignSourceServer>) -> (r:
    RequisitionLocal)
    ensures
        r@ == spec_local_composite(
            local@,
            match default_fs {
                Some(f) => Some(f@),
                None => None,
            },
        ),
{
    if local.spec.foreign_source.is_some() {
        return local.duplicate();
    }
    let mut composite = local.duplicate();
    composite.spec.foreign_source = match default_fs {
        Some(fs) => {
            let empty = empty_requisition(&local.metadata.name);
            let converted = requisition_from_wire(&empty, Some(fs));
            converted.spec.foreign_source
        },
        None => None,
    };
    composite
}

/// The server side of the diff (see [`spec_remote_composite`]).
pub fn build_remote_composite(
    fs_name: &String,
    remote_req: Option<&RequisitionServer>,
    remote_fs: Option<&ForeignSourceServer>,
    default_fs: Option<&ForeignSourceServer>,
) -> (r: RequisitionLocal)
    ensures
        r@ == spec_remote_composite(
            fs_name@,
            match remote_req {
                Some(q) => Some(q@),
                None => None,
            },
            match remote_fs {
                Some(f) => Some(f@),
                None => None,
            },
            match default_fs {
                Some(f) => Some(f@),
                None => None,
            },
        ),
{
    let fs_for_composite = match remote_fs {
        Some(f) => Some(f),
        None => default_fs,
    };
    match remote_req {
        Some(r) => requisition_from_wire(r, fs_for_composite),
        None => {
            let empty = empty_requisition(fs_name);
            requisition_from_wire(&empty, fs_for_composite)
        },
    }
}

// ---------------------------------------------------------------------------
// Planning
// ---------------------------------------------------------------------------

/// The delta a plan is built on.
pub open spec fn plan_delta(
    local: RequisitionLocalModel,
    remote_req: Option<RequisitionServerModel>,
    remote_fs: Option<ForeignSourceServerModel>,
    default_fs: Option<ForeignSourceServerModel>,
) -> RequisitionDeltaModel {
    spec_diff(
        spec_local_composite(local, default_fs),
        spec_remote_composite(local.metadata.name, remote_req, remote_fs, default_fs),
    )
}

/// A delta with no change in any bucket.
pub open spec fn delta_empty(d: RequisitionDeltaModel) -> bool {
    d.foreign_source_changes.len() == 0 && d.nodes_added.len() == 0 && d.nodes_removed.len() == 0
        && d.nodes_modified.len() == 0
}

/// The state of a plan: unchanged exactly when the delta is empty, the
/// server has the requisition and the foreign source needs nothing;
/// otherwise a create when the server lacks the requisition, else an
/// update.
pub open spec fn spec_plan_state(
    delta: RequisitionDeltaModel,
    remote_has_req: bool,
    fs_action: ForeignSourceAction,
) -> PlanState {
    if delta_empty(delta) && remote_has_req && fs_action == ForeignSourceAction::NoChange {
        PlanState::Unchanged
    } else if !remote_has_req {
        PlanState::WouldCreate
    } else {
        PlanState::WouldUpdate
    }
}

/// Plans one document from the deployed state as read: the deployed
/// requisition and custom foreign source (each absent when the server
/// has none) and the default foreign source (read when
/// [`needs_default_fs`] says so).
///
/// An unchanged plan rescans nothing and lists no leaves. Otherwise the
/// scan-relevant leaves of the delta are listed, and the import rescans
/// existing nodes when forced to, or, left to decide, when there is one.
pub fn plan_from_remote(
    local: &RequisitionLocal,
    remote_req: Option<&RequisitionServer>,
    remote_fs: Option<ForeignSourceServer>,
    default_fs: Option<&ForeignSourceServer>,
    opts: &ApplyOptions,
) -> (p: RequisitionPlan)
    ensures
        p.local@ == local@,
        p.delta@ == plan_delta(
            local@,
            match remote_req {
                Some(q) => Some(q@),
                None => None,
            },
            match remote_fs {
                Some(f) => Some(f@),
                None => None,
            },
            match default_fs {
                Some(f) => Some(f@),
                None => None,
            },
        ),
        p.foreign_source_action == spec_fs_action(
            remote_fs is Some,
            local@.spec.foreign_source is Some,
        ),
        p.state == spec_plan_state(p.delta@, remote_req is Some, p.foreign_source_action),
        p.original_remote_fs == remote_fs,
        p.pre_trigger_last_import_ms == (match remote_req {
            Some(q) => q.last_import,
            None => None,
        }),
        p.state == PlanState::Unchanged ==> !p.rescan_existing && p.scan_relevant_leaves@.len()
            == 0,
        p.state != PlanState::Unchanged ==> strs(p.scan_relevant_leaves@) == spec_scan_relevant(
            spec_paths(p.delta@),
        ) && p.rescan_existing == (match opts.rescan_existing {
            RescanChoice::Force(b) => b,
            RescanChoice::Auto => spec_scan_relevant(spec_paths(p.delta@)).len() > 0,
        }),
{
    let pre_trigger_last_import_ms = match remote_req {
        Some(r) => r.last_import,
        None => None,
    };
    let local_composite = build_local_composite(local, default_fs);
    let remote_composite = build_remote_composite(
        &local.metadata.name,
        remote_req,
        remote_fs.as_ref(),
        default_fs,
    );
    let delta = diff_requisition(&local_composite, &remote_composite);
    let foreign_source_action = classify_fs_action(
        remote_fs.is_some(),
        local.spec.foreign_source.is_some(),
    );
    let unchanged = delta.is_empty() && remote_req.is_some() && foreign_source_action
        == ForeignSourceAction::NoChange;
    if unchanged {
        return RequisitionPlan {
            local: local.duplicate(),
            state: PlanState::Unchanged,
            delta,
            rescan_existing: false,
            foreign_source_action,
            original_remote_fs: remote_fs,
            pre_trigger_last_import_ms,
            scan_relevant_leaves: Vec::new(),
        };
    }
    let paths = delta.iter_paths();
    let scan_relevant_leaves = scan_relevant_paths(&paths);
    let rescan_existing = match opts.rescan_existing {
        RescanChoice::Force(b) => b,
        RescanChoice::Auto => scan_relevant_leaves.len() > 0,
    };
    let state = if remote_req.is_none() {
        PlanState::WouldCreate
    } else {
        PlanState::WouldUpdate
    };
    RequisitionPlan {
        local: local.duplicate(),
        state,
        delta,
        rescan_existing,
        foreign_source_action,
        original_remote_fs: remote_fs,
        pre_trigger_last_import_ms,
        scan_relevant_leaves,
    }
}

// ---------------------------------------------------------------------------
// Execution
// ---------------------------------------------------------------------------

/// One write of an execution, in the order they are issued.
#[derive(Clone, Copy, Debug, PartialEq, Eq, Structural)]
pub enum WriteStep {
    PostForeignSource,
    DeleteForeignSource,
    PostRequisition,
    TriggerImport,
}

/// The writes a plan owes: none when unchanged; otherwise the
/// foreign-source write its action calls for, then the requisition, then
/// the import.
pub open spec fn spec_write_steps(state: PlanState, a: ForeignSourceAction) -> Seq<WriteStep> {
    if state == PlanState::Unchanged {
        Seq::empty()
    } else {
        let fs = match a {
            ForeignSourceAction::Created => seq![WriteStep::PostForeignSource],
            ForeignSourceAction::Updated => seq![WriteStep::PostForeignSource],
            ForeignSourceAction::Deleted => seq![WriteStep::DeleteForeignSource],
            ForeignSourceAction::NoChange => Seq::empty(),
        };
        fs + seq![WriteStep::PostRequisition, WriteStep::TriggerImport]
    }
}

impl RequisitionPlan {
    /// The writes this plan owes, in order.
    pub fn write_steps(&self) -> (r: Vec<WriteStep>)
        ensures
            r@ == spec_write_steps(self.state, self.foreign_source_action),
    {
        let mut r: Vec<WriteStep> = Vec::new();
        if self.state == PlanState::Unchanged {
            assert(r@ =~= spec_write_steps(self.state, self.foreign_source_action));
            return r;
        }
        match self.foreign_source_action {
            ForeignSourceAction::Created | ForeignSourceAction::Updated => {
                r.push(WriteStep::PostForeignSource);
            },
            ForeignSourceAction::Deleted => {
                r.push(WriteStep::DeleteForeignSource);
            },
            ForeignSourceAction::NoChange => {},
        }
        r.push(WriteStep::PostRequisition);
        r.push(WriteStep::TriggerImport);
        assert(r@ =~= spec_write_steps(self.state, self.foreign_source_action));
        r
    }

    /// The outcome of a plan that writes nothing: a dry run of any plan,
    /// or an unchanged plan reported as unchanged.
    pub fn into_short_circuit(self, state: ApplyState) -> (o: ApplyOutcome)
        requires
            state == ApplyState::DryRun || (self.state == PlanState::Unchanged && state
                == ApplyState::Unchanged),
        ensures
            o.state == state,
            o.delta@ == self.delta@,
            o.rescan_existing == self.rescan_existing,
            o.foreign_source_action == self.foreign_source_action,
            o.original_remote_fs == self.original_remote_fs,
            o.pre_trigger_last_import_ms == self.pre_trigger_last_import_ms,
            o.scan_relevant_leaves@ == self.scan_relevant_leaves@,
    {
        ApplyOutcome {
            state,
            delta: self.delta,
            rescan_existing: self.rescan_existing,
            foreign_source_action: self.foreign_source_action,
            original_remote_fs: self.original_remote_fs,
            pre_trigger_last_import_ms: self.pre_trigger_last_import_ms,
            scan_relevant_leaves: self.scan_relevant_leaves,
        }
    }

    /// The outcome of a plan whose writes all succeeded: created when the
    /// server lacked the requisition, else updated.
    pub fn into_executed(self) -> (o: ApplyOutcome)
        requires
            self.state != PlanState::Unchanged,
        ensures
            o.state == (if self.state == PlanState::WouldCreate {
                ApplyState::Created
            } else {
                ApplyState::Updated
            }),
            o.delta@ == self.delta@,
            o.rescan_existing == self.rescan_existing,
            o.foreign_source_action == self.foreign_source_action,
            o.original_remote_fs == self.original_remote_fs,
            o.pre_trigger_last_import_ms == self.pre_trigger_last_import_ms,
            o.scan_relevant_leaves@ == self.scan_relevant_leaves@,
    {
        let state = if self.state == PlanState::WouldCreate {
            ApplyState::Created
        } else {
            ApplyState::Updated
        };
        ApplyOutcome {
            state,
            delta: self.delta,
            rescan_existing: self.rescan_existing,
            foreign_source_action: self.foreign_source_action,
            original_remote_fs: self.original_remote_fs,
            pre_trigger_last_import_ms: self.pre_trigger_last_import_ms,
            scan_relevant_leaves: self.scan_relevant_leaves,
        }
    }
}


/// What an apply does with its plan: report without writing, or issue
/// the plan's writes in order.
pub enum ApplyNext {
    Done(ApplyOutcome),
    Execute(RequisitionPlan, Vec<WriteStep>),
}

/// The step after planning: an unchanged plan is reported unchanged, a dry
/// run is reported without writing, and any other plan goes on to its
/// writes. A dry run never writes.
pub fn decide_apply(plan: RequisitionPlan, dry_run: bool) -> (r: ApplyNext)
    ensures
        match r {
            ApplyNext::Done(o) => {
                &&& o.state == (if plan.state == PlanState::Unchanged {
                    ApplyState::Unchanged
                } else {
                    ApplyState::DryRun
                })
                &&& (plan.state == PlanState::Unchanged || dry_run)
                &&& o.delta@ == plan.delta@
                &&& o.rescan_existing == plan.rescan_existing
                &&& o.foreign_source_action == plan.foreign_source_action
                &&& o.pre_trigger_last_import_ms == plan.pre_trigger_last_import_ms
            },
            ApplyNext::Execute(p, steps) => {
                &&& plan.state != PlanState::Unchanged
                &&& !dry_run
                &&& p == plan
                &&& steps@ == spec_write_steps(plan.state, plan.foreign_source_action)
            },
        },
{
    if plan.state == PlanState::Unchanged {
        return ApplyNext::Done(plan.into_short_circuit(ApplyState::Unchanged));
    }
    if dry_run {
        return ApplyNext::Done(plan.into_short_circuit(ApplyState::DryRun));
    }
    let steps = plan.write_steps();
    ApplyNext::Execute(plan, steps)
}

/// The first failed write among `results` (the writes issued so far, in
/// order): its error.
pub open spec fn first_failure(results: Seq<Result<(), String>>) -> Option<Seq<char>>
    decreases results.len(),
{
    if results.len() == 0 {
        None
    } else {
        match results[0] {
            Err(e) => Some(e@),
            Ok(()) => first_failure(results.drop_first()),
        }
    }
}

/// The state a plan's execution reports once all its writes succeeded:
/// unchanged (no writes), created or updated.
pub open spec fn executed_state(state: PlanState) -> ApplyState {
    match state {
        PlanState::Unchanged => ApplyState::Unchanged,
        PlanState::WouldCreate => ApplyState::Created,
        PlanState::WouldUpdate => ApplyState::Updated,
    }
}

/// Where an execution goes after some writes: the next write of the plan,
/// the end with the error of a failed write, or the end with the outcome.
pub enum ExecNext {
    Write(RequisitionPlan, WriteStep),
    Failed(String),
    Done(ApplyOutcome),
}

/// Whether `n` is the step after the writes answered `results`: the first
/// failed write ends the execution with its error, and no later write is
/// issued; otherwise the plan's next write is issued; once every write
/// succeeded (at once for an unchanged plan, which owes none) the outcome
/// is reported with the plan's findings.
pub open spec fn is_exec_next(n: ExecNext, plan: RequisitionPlan, results: Seq<Result<(), String>>) -> bool {
    let steps = spec_write_steps(plan.state, plan.foreign_source_action);
    match first_failure(results) {
        Some(e) => n matches ExecNext::Failed(m) && m@ == e,
        None => if results.len() < steps.len() {
            n matches ExecNext::Write(p, s) && p == plan && s == steps[results.len() as int]
        } else {
            n matches ExecNext::Done(o) && o.state == executed_state(plan.state) && o.delta@
                == plan.delta@ && o.rescan_existing == plan.rescan_existing
                && o.foreign_source_action == plan.foreign_source_action && o.original_remote_fs
                == plan.original_remote_fs && o.pre_trigger_last_import_ms
                == plan.pre_trigger_last_import_ms && o.scan_relevant_leaves@
                == plan.scan_relevant_leaves@
        },
    }
}

/// The step of executing `plan` after the writes answered `results`.
pub fn exec_next(plan: RequisitionPlan, results: &Vec<Result<(), String>>) -> (n: ExecNext)
    ensures
        is_exec_next(n, plan, results@),
{
    let ghost r = results@;
    let mut i: usize = 0;
    assert(r.skip(0) =~= r);
    while i < results.len()
        invariant
            i <= results.len(),
            r == results@,
            first_failure(r) == first_failure(r.skip(i as int)),
        decreases results.len() - i,
    {
        assert(r.skip(i as int).drop_first() =~= r.skip(i + 1));
        assert(r.skip(i as int)[0] == r[i as int]);
        match &results[i] {
            Err(e) => {
                return ExecNext::Failed(e.clone());
            },
            Ok(()) => {},
        }
        i = i + 1;
    }
    assert(r.skip(results.len() as int).len() == 0);
    let steps = plan.write_steps();
    if results.len() < steps.len() {
        let s = steps[results.len()];
        ExecNext::Write(plan, s)
    } else if plan.state == PlanState::Unchanged {
        ExecNext::Done(plan.into_short_circuit(ApplyState::Unchanged))
    } else {
        ExecNext::Done(plan.into_executed())
    }
}

// ---------------------------------------------------------------------------
// Laws
// ---------------------------------------------------------------------------

/// An execution stops at its first failed write: whatever answers come
/// after it, the step is the end with that write's error, so no later
/// write is issued.
pub proof fn lemma_exec_stops_at_first_failure(
    plan: RequisitionPlan,
    results: Seq<Result<(), String>>,
    later: Seq<Result<(), String>>,
)
    requires
        first_failure(results) is Some,
    ensures
        first_failure(results + later) == first_failure(results),
        forall|n: ExecNext| is_exec_next(n, plan, results + later) ==> (n matches ExecNext::Failed(m)
            && Some(m@) == first_failure(results)),
    decreases results.len(),
{
    assert((results + later)[0] == results[0]);
    if results[0] is Ok {
        assert((results + later).drop_first() =~= results.drop_first() + later);
        lemma_exec_stops_at_first_failure(plan, results.drop_first(), later);
    }
}

/// While every write succeeds, the writes issued are exactly the plan's
/// writes in order, and the outcome comes after the last.
pub proof fn lemma_exec_issues_plan_writes(plan: RequisitionPlan, results: Seq<Result<(), String>>)
    requires
        forall|i: int| 0 <= i < results.len() ==> results[i] is Ok,
    ensures
        first_failure(results) is None,
        forall|n: ExecNext| #[trigger] is_exec_next(n, plan, results) ==> (if results.len()
            < spec_write_steps(plan.state, plan.foreign_source_action).len() {
            n matches ExecNext::Write(_, s) && s == spec_write_steps(
                plan.state,
                plan.foreign_source_action,
            )[results.len() as int]
        } else {
            n is Done
        }),
    decreases results.len(),
{
    if results.len() > 0 {
        lemma_exec_issues_plan_writes(plan, results.drop_first());
    }
}

/// A changed plan posts the document's foreign source exactly when the
/// document has one, and deletes the server's custom one exactly when the
/// server has one and the document has none; an unchanged plan writes
/// nothing. The requisition post and the import come after any
/// foreign-source write.
pub proof fn lemma_foreign_source_writes(state: PlanState, remote_has_fs: bool, local_has_fs: bool)
    ensures
        ({
            let s = spec_write_steps(state, spec_fs_action(remote_has_fs, local_has_fs));
            &&& state == PlanState::Unchanged ==> s.len() == 0
            &&& state != PlanState::Unchanged ==> {
                &&& s.contains(WriteStep::PostForeignSource) == local_has_fs
                &&& s.contains(WriteStep::DeleteForeignSource) == (remote_has_fs && !local_has_fs)
                &&& s.contains(WriteStep::PostRequisition)
                &&& s.last() == WriteStep::TriggerImport
                &&& (local_has_fs || remote_has_fs) ==> s[0] != WriteStep::PostRequisition
            }
        }),
{
    let s = spec_write_steps(state, spec_fs_action(remote_has_fs, local_has_fs));
    if state != PlanState::Unchanged {
        if local_has_fs {
            assert(s[0] == WriteStep::PostForeignSource);
        } else if remote_has_fs {
            assert(s[0] == WriteStep::DeleteForeignSource);
        }
        assert(s[s.len() - 2] == WriteStep::PostRequisition);
        if s.contains(WriteStep::PostForeignSource) {
            let k = choose|k: int| 0 <= k < s.len() && s[k] == WriteStep::PostForeignSource;
        }
        if s.contains(WriteStep::DeleteForeignSource) {
            let k = choose|k: int| 0 <= k < s.len() && s[k] == WriteStep::DeleteForeignSource;
        }
    }
}

/// A plan owes writes exactly when it is not unchanged, and then it
/// always ends with posting the requisition and triggering the import; a
/// changed plan posts the foreign source exactly when its action creates or
/// updates one, and deletes it exactly when its action deletes it.
pub proof fn lemma_writes_iff_changed(state: PlanState, a: ForeignSourceAction)
    ensures
        (spec_write_steps(state, a).len() == 0) == (state == PlanState::Unchanged),
        state != PlanState::Unchanged ==> {
            let s = spec_write_steps(state, a);
            &&& s.len() >= 2
            &&& s[s.len() - 2] == WriteStep::PostRequisition
            &&& s[s.len() - 1] == WriteStep::TriggerImport
            &&& s.contains(WriteStep::PostForeignSource) == (a is Created || a is Updated)
            &&& s.contains(WriteStep::DeleteForeignSource) == (a is Deleted)
        },
{
    let s = spec_write_steps(state, a);
    if state != PlanState::Unchanged {
        if a is Created || a is Updated {
            assert(s[0] == WriteStep::PostForeignSource);
        }
        if a is Deleted {
            assert(s[0] == WriteStep::DeleteForeignSource);
        }
        if s.contains(WriteStep::PostForeignSource) {
            let k = choose|k: int| 0 <= k < s.len() && s[k] == WriteStep::PostForeignSource;
        }
        if s.contains(WriteStep::DeleteForeignSource) {
            let k = choose|k: int| 0 <= k < s.len() && s[k] == WriteStep::DeleteForeignSource;
        }
    }
}

/// When neither the document nor the server has a custom foreign source,
/// both sides of the diff carry the server's default one, converted the
/// same way: the foreign-source side of the diff compares equal values.
pub proof fn lemma_default_fs_symmetric(
    local: RequisitionLocalModel,
    remote_req: Option<RequisitionServerModel>,
    default_fs: ForeignSourceServerModel,
)
    requires
        local.spec.foreign_source is None,
    ensures
        spec_local_composite(local, Some(default_fs)).spec.foreign_source == spec_remote_composite(
            local.metadata.name,
            remote_req,
            None,
            Some(default_fs),
        ).spec.foreign_source,
        spec_local_composite(local, Some(default_fs)).spec.foreign_source == Some(
            spec_foreign_source_from_wire(default_fs),
        ),
{
}

/// Exporting a deployed requisition in portable style (without a
/// `spec.foreignSource`) from a server without a custom foreign source,
/// and applying that document back, plans no change.
pub proof fn lemma_portable_export_reapply_unchanged(req: RequisitionServerModel, default_fs: ForeignSourceServerModel)
    ensures
        ({
            let local = spec_requisition_from_wire(req, None);
            let delta = plan_delta(local, Some(req), None, Some(default_fs));
            &&& delta_empty(delta)
            &&& spec_plan_state(delta, true, spec_fs_action(false, local.spec.foreign_source is Some))
                == PlanState::Unchanged
        }),
{
    let local = spec_requisition_from_wire(req, None);
    let l = spec_local_composite(local, Some(default_fs));
    let r = spec_remote_composite(local.metadata.name, Some(req), None, Some(default_fs));
    assert(l == r);
    crate::provisioning::diff::lemma_same_canonical_no_change(l, r);
}

/// Exporting a deployed requisition with its custom foreign source and
/// applying that document back finds no difference; the plan still
/// reposts the foreign source the document carries.
pub proof fn lemma_custom_export_reapply_no_delta(
    req: RequisitionServerModel,
    fs: ForeignSourceServerModel,
    default_fs: Option<ForeignSourceServerModel>,
)
    ensures
        ({
            let local = spec_requisition_from_wire(req, Some(fs));
            let delta = plan_delta(local, Some(req), Some(fs), default_fs);
            &&& delta_empty(delta)
            &&& spec_fs_action(true, local.spec.foreign_source is Some) == ForeignSourceAction::Updated
            &&& spec_plan_state(delta, true, spec_fs_action(true, local.spec.foreign_source is Some))
                == PlanState::WouldUpdate
        }),
{
    let local = spec_requisition_from_wire(req, Some(fs));
    let l = spec_local_composite(local, default_fs);
    let r = spec_remote_composite(local.metadata.name, Some(req), Some(fs), default_fs);
    assert(l == r);
    crate::provisioning::diff::lemma_same_canonical_no_change(l, r);
}

/// The foreign source is posted exactly when the document has one,
/// deleted exactly when only the server has one, and left alone exactly
/// when neither has one.
pub proof fn lemma_fs_action_table(remote_has_fs: bool, local_has_fs: bool)
    ensures
        spec_fs_action(remote_has_fs, local_has_fs) == ForeignSourceAction::NoChange <==> (
        !remote_has_fs && !local_has_fs),
        spec_fs_action(remote_has_fs, local_has_fs) == ForeignSourceAction::Deleted <==> (
        remote_has_fs && !local_has_fs),
        (spec_fs_action(remote_has_fs, local_has_fs) == ForeignSourceAction::Created
            || spec_fs_action(remote_has_fs, local_has_fs) == ForeignSourceAction::Updated)
            <==> local_has_fs,
{
}

} // verus!
