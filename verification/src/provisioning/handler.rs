//! The `kind: Requisition` documents of a generic apply: a preview per
//! document from the first phase, and a report per document from the
//! second.
//!
//! A duplicate requisition name across documents refuses the whole bucket
//! before anything is written; a duplicate foreign id is attached as a
//! warning to the previews of the documents that carry it.

use vstd::prelude::*;
use crate::json::{lemma_array_model, lemma_object_model, JsonModel, Value};
use crate::outcome::{would_message, Action, ApplyOutcome, OutcomeStatus};
use crate::provisioning::apply::{ApplyState, PlanState};
use crate::provisioning::model::KIND;
use crate::provisioning::multi::{
    has_hard, CollisionCode, CollisionFinding, MultiApplyFileResult, MultiApplyOutcome,
    MultiApplyPlan, MultiApplyPlanEntry,
};
use crate::text::{append_str, dec, fmt_usize, join, join_strs, own, str_eq, strs};

verus! {

/// The handler of `kind: Requisition` documents in a generic apply.
#[derive(Clone, Copy, Debug, Default)]
pub struct ProvisioningHandler;

/// The action a requisition plan stands for.
pub open spec fn spec_action_of(state: PlanState) -> Action {
    match state {
        PlanState::Unchanged => Action::Nothing,
        PlanState::WouldCreate => Action::Create,
        PlanState::WouldUpdate => Action::Update,
    }
}

/// The action a requisition plan stands for.
pub fn action_of(state: PlanState) -> (a: Action)
    ensures
        a == spec_action_of(state),
{
    match state {
        PlanState::Unchanged => Action::Nothing,
        PlanState::WouldCreate => Action::Create,
        PlanState::WouldUpdate => Action::Update,
    }
}

/// Whether a collision is a warning (a duplicate foreign id) that names
/// the document at `path`.
pub open spec fn warns(f: CollisionFinding, path: Seq<char>) -> bool {
    f.code != CollisionCode::DuplicateMetadataName && strs(f.files@).contains(path)
}

/// The messages of the warnings that name the document at `path`, in order.
pub open spec fn warnings_for(f: Seq<CollisionFinding>, path: Seq<char>) -> Seq<Seq<char>>
    decreases f.len(),
{
    if f.len() == 0 {
        Seq::empty()
    } else if warns(f.last(), path) {
        warnings_for(f.drop_last(), path).push(f.last().message@)
    } else {
        warnings_for(f.drop_last(), path)
    }
}

/// The messages of the duplicate-name collisions, in order.
pub open spec fn hard_messages(f: Seq<CollisionFinding>) -> Seq<Seq<char>>
    decreases f.len(),
{
    if f.len() == 0 {
        Seq::empty()
    } else if f.last().code == CollisionCode::DuplicateMetadataName {
        hard_messages(f.drop_last()).push(f.last().message@)
    } else {
        hard_messages(f.drop_last())
    }
}

/// The details of a preview with warnings: `{"warnings": [...]}`.
pub open spec fn warnings_details(w: Seq<Seq<char>>) -> JsonModel {
    JsonModel::Object(
        seq![("warnings"@, JsonModel::Array(w.map_values(|m: Seq<char>| JsonModel::Str(m))))],
    )
}

/// The model of optional details.
pub open spec fn details_model(d: Option<Value>) -> Option<JsonModel> {
    match d {
        Some(v) => Some(v@),
        None => None,
    }
}

/// The preview of a document with the warnings `w` that name it: the
/// planned action, with the count of warnings in the message and their
/// texts in the details when there are any.
pub open spec fn is_preview_for(o: ApplyOutcome, entry: MultiApplyPlanEntry, w: Seq<Seq<char>>) -> bool {
    let a = spec_action_of(entry.plan.state);
    &&& o.kind@ == KIND@
    &&& o.name@ == entry.plan.local.metadata.name@
    &&& o.action == a
    &&& o.status == OutcomeStatus::Planned
    &&& o.hint is None
    &&& if w.len() == 0 {
        o.message@ == would_message(a) && o.details is None
    } else {
        &&& o.message@ == would_message(a) + " ("@ + dec(w.len()) + " warning(s))"@
        &&& details_model(o.details) == Some(warnings_details(w))
    }
}

fn names_file(files: &Vec<String>, path: &String) -> (b: bool)
    ensures
        b == strs(files@).contains(path@),
{
    let mut i: usize = 0;
    while i < files.len()
        invariant
            i <= files.len(),
            forall|j: int| 0 <= j < i ==> files@[j]@ != path@,
        decreases files.len() - i,
    {
        if str_eq(files[i].as_str(), path.as_str()) {
            assert(strs(files@)[i as int] == path@);
            return true;
        }
        i = i + 1;
    }
    assert forall|j: int| 0 <= j < strs(files@).len() implies strs(files@)[j] != path@ by {}
    false
}

fn collect_warnings(f: &Vec<CollisionFinding>, path: &String) -> (r: Vec<String>)
    ensures
        strs(r@) == warnings_for(f@, path@),
{
    let mut r: Vec<String> = Vec::new();
    let mut i: usize = 0;
    while i < f.len()
        invariant
            i <= f.len(),
            strs(r@) == warnings_for(f@.take(i as int), path@),
        decreases f.len() - i,
    {
        let ghost before = r@;
        if f[i].code != CollisionCode::DuplicateMetadataName && names_file(&f[i].files, path) {
            r.push(f[i].message.clone());
            assert(strs(r@) =~= strs(before).push(f@[i as int].message@));
        }
        assert(f@.take(i + 1).drop_last() == f@.take(i as int));
        assert(f@.take(i + 1).last() == f@[i as int]);
        i = i + 1;
    }
    assert(f@.take(f.len() as int) == f@);
    r
}

/// The preview of one planned document, with the warnings among `findings`
/// that name it (see [`is_preview_for`]).
pub fn preview_for(entry: &MultiApplyPlanEntry, findings: &Vec<CollisionFinding>) -> (o: ApplyOutcome)
    ensures
        is_preview_for(o, *entry, warnings_for(findings@, entry.path@)),
{
    let mut o = ApplyOutcome::would(KIND, entry.plan.local.metadata.name.as_str(), action_of(entry.plan.state));
    let warns = collect_warnings(findings, &entry.path);
    if warns.len() > 0 {
        let n = warns.len();
        let mut m = String::new();
        append_str(&mut m, o.message.as_str());
        append_str(&mut m, " (");
        append_str(&mut m, fmt_usize(n).as_str());
        append_str(&mut m, " warning(s))");
        let mut items: Vec<Value> = Vec::new();
        let mut i: usize = 0;
        while i < warns.len()
            invariant
                i <= warns.len(),
                items@.len() == i,
                forall|j: int| 0 <= j < i ==> #[trigger] items@[j]@ == JsonModel::Str(warns@[j]@),
            decreases warns.len() - i,
        {
            items.push(Value::Str(warns[i].clone()));
            i = i + 1;
        }
        proof {
            lemma_array_model(items);
            let w = strs(warns@);
            assert(crate::json::items_model(items@) =~= w.map_values(|m: Seq<char>| JsonModel::Str(m)));
        }
        let entries = vec![(own("warnings"), Value::Array(items))];
        proof {
            lemma_object_model(entries);
            assert(crate::json::entries_model(entries@) =~= seq![
                ("warnings"@, JsonModel::Array(crate::json::items_model(items@))),
            ]);
        }
        o.message = m;
        o.details = Some(Value::Object(entries));
    }
    o
}

/// The message of a refused bucket: the duplicate-name collisions joined
/// with `"; "`.
pub open spec fn refusal_message(f: Seq<CollisionFinding>) -> Seq<char> {
    join(hard_messages(f), "; "@)
}

fn hard_message_list(f: &Vec<CollisionFinding>) -> (r: Vec<String>)
    ensures
        strs(r@) == hard_messages(f@),
{
    let mut r: Vec<String> = Vec::new();
    let mut i: usize = 0;
    while i < f.len()
        invariant
            i <= f.len(),
            strs(r@) == hard_messages(f@.take(i as int)),
        decreases f.len() - i,
    {
        let ghost before = r@;
        if f[i].code == CollisionCode::DuplicateMetadataName {
            r.push(f[i].message.clone());
            assert(strs(r@) =~= strs(before).push(f@[i as int].message@));
        }
        assert(f@.take(i + 1).drop_last() == f@.take(i as int));
        assert(f@.take(i + 1).last() == f@[i as int]);
        i = i + 1;
    }
    assert(f@.take(f.len() as int) == f@);
    r
}

/// The report of one document after the second phase.
pub open spec fn is_report_for(o: ApplyOutcome, r: MultiApplyFileResult) -> bool {
    let name = match r.foreign_source {
        Some(s) => s@,
        None => Seq::empty(),
    };
    &&& o.kind@ == KIND@
    &&& o.name@ == name
    &&& match r.outcome {
        Ok(a) => {
            &&& o.hint is None
            &&& o.details is None
            &&& match a.state {
                ApplyState::Unchanged => o.action == Action::Nothing && o.status
                    == OutcomeStatus::Unchanged && o.message@ == "in sync"@,
                ApplyState::Created => o.action == Action::Create && o.status
                    == OutcomeStatus::Created && o.message@ == "created"@,
                ApplyState::Updated => o.action == Action::Update && o.status
                    == OutcomeStatus::Updated && o.message@ == "updated"@,
                ApplyState::DryRun => o.action == Action::Nothing && o.status
                    == OutcomeStatus::Skipped && o.message@ == "dry-run"@,
            }
        },
        Err(e) => {
            &&& o.action == Action::Nothing
            &&& o.status == OutcomeStatus::Failed
            &&& o.message@ == e@
            &&& crate::text::ostr(o.hint) == Some(
                "re-run `onmsctl apply -f` after resolving the error"@,
            )
            &&& o.details is None
        },
    }
}

/// The report of one document after the second phase (see
/// [`is_report_for`]).
pub fn outcome_of(r: MultiApplyFileResult) -> (o: ApplyOutcome)
    ensures
        is_report_for(o, r),
{
    let name = match &r.foreign_source {
        Some(s) => s.clone(),
        None => String::new(),
    };
    match r.outcome {
        Ok(po) => match po.state {
            ApplyState::Unchanged => ApplyOutcome::new(
                KIND,
                name.as_str(),
                Action::Nothing,
                OutcomeStatus::Unchanged,
                "in sync",
            ),
            ApplyState::Created => ApplyOutcome::new(
                KIND,
                name.as_str(),
                Action::Create,
                OutcomeStatus::Created,
                "created",
            ),
            ApplyState::Updated => ApplyOutcome::new(
                KIND,
                name.as_str(),
                Action::Update,
                OutcomeStatus::Updated,
                "updated",
            ),
            ApplyState::DryRun => ApplyOutcome::new(
                KIND,
                name.as_str(),
                Action::Nothing,
                OutcomeStatus::Skipped,
                "dry-run",
            ),
        },
        Err(msg) => ApplyOutcome::failed(
            KIND,
            name.as_str(),
            Action::Nothing,
            msg,
            "re-run `onmsctl apply -f` after resolving the error",
        ),
    }
}

impl ProvisioningHandler {
    /// The document kind this handler takes.
    pub fn kind(&self) -> (s: &'static str)
        ensures
            s@ == KIND@,
    {
        KIND
    }

    /// The first phase's answer for the bucket: refused with the
    /// duplicate-name messages when the plan aborted, otherwise a preview
    /// per planned document, in order.
    pub fn plan(&self, plan: &MultiApplyPlan) -> (r: Result<Vec<ApplyOutcome>, String>)
        ensures
            r is Err <==> (plan.parse_errors.len() > 0 || has_hard(plan.collision_findings@)),
            match r {
                Err(m) => m@ == refusal_message(plan.collision_findings@),
                Ok(v) => v.len() == plan.entries.len() && forall|i: int|
                    0 <= i < v.len() ==> is_preview_for(
                        #[trigger] v@[i],
                        plan.entries@[i],
                        warnings_for(plan.collision_findings@, plan.entries@[i].path@),
                    ),
            },
    {
        if plan.is_aborted() {
            let msgs = hard_message_list(&plan.collision_findings);
            return Err(join_strs(&msgs, "; "));
        }
        let mut v: Vec<ApplyOutcome> = Vec::new();
        let mut i: usize = 0;
        while i < plan.entries.len()
            invariant
                i <= plan.entries.len(),
                v.len() == i,
                forall|j: int|
                    0 <= j < i ==> is_preview_for(
                        #[trigger] v@[j],
                        plan.entries@[j],
                        warnings_for(plan.collision_findings@, plan.entries@[j].path@),
                    ),
            decreases plan.entries.len() - i,
        {
            v.push(preview_for(&plan.entries[i], &plan.collision_findings));
            i = i + 1;
        }
        Ok(v)
    }

    /// The second phase's reports: one per file result, in order.
    pub fn execute(&self, out: MultiApplyOutcome) -> (v: Vec<ApplyOutcome>)
        ensures
            v.len() == out.results.len(),
            forall|i: int| 0 <= i < v.len() ==> is_report_for(#[trigger] v@[i], out.results@[i]),
    {
        let mut results = out.results;
        let ghost all = results@;
        let mut rev: Vec<ApplyOutcome> = Vec::new();
        while results.len() > 0
            invariant
                results@ == all.take(results.len() as int),
                results.len() + rev.len() == all.len(),
                forall|j: int|
                    0 <= j < rev.len() ==> is_report_for(
                        #[trigger] rev@[j],
                        all[all.len() - 1 - j],
                    ),
            decreases results.len(),
        {
            let r = results.pop().unwrap();
            assert(all.take(results.len() as int) == all.take(results.len() + 1).drop_last());
            rev.push(outcome_of(r));
        }
        let mut v: Vec<ApplyOutcome> = Vec::new();
        while rev.len() > 0
            invariant
                v.len() + rev.len() == all.len(),
                forall|j: int| 0 <= j < rev.len() ==> is_report_for(
                    #[trigger] rev@[j],
                    all[all.len() - 1 - j],
                ),
                forall|j: int| 0 <= j < v.len() ==> is_report_for(#[trigger] v@[j], all[j]),
            decreases rev.len(),
        {
            let o = rev.pop().unwrap();
            v.push(o);
        }
        v
    }
}

} // verus!
