//! The decisions of applying a `kind: SnmpConfig` document.
//!
//! The kind is a singleton: exactly one document configures the whole
//! server. Planning compares the desired config with the deployed one
//! (ignoring secrets) for the agent endpoint and, when the document has a
//! `spec.trapd` block, for the trap-daemon endpoint; it yields one preview
//! per endpoint and a secret-free summary of what would change. Executing
//! writes only the endpoints that differ, agent first, and reports each
//! endpoint's result separately.

use vstd::prelude::*;
use crate::outcome::{would_message, Action, ApplyOutcome, OutcomeStatus};
use crate::snmp::convert::{spec_to_wire, spec_trapd_to_wire, to_wire, trapd_to_wire};
use crate::snmp::diff::{
    spec_tiers, spec_trapd_unchanged, spec_unchanged, tiers_match, trapd_unchanged, unchanged,
};
use crate::snmp::model::{SnmpConfigLocal, SnmpConfigLocalModel, KIND, SINGLETON_NAME};
use crate::snmp::server::{SnmpConfig, SnmpConfigModel, TrapdConfig, TrapdConfigModel};
use crate::text::{append_str, dec, dec_int, fmt_i64, fmt_usize, join, join_strs, own, strs};

verus! {

/// The handler of the `kind: SnmpConfig` document in a generic apply.
#[derive(Clone, Copy, Debug, Default)]
pub struct SnmpConfigHandler;

impl SnmpConfigHandler {
    /// The document kind this handler takes.
    pub fn kind(&self) -> (s: &'static str)
        ensures
            s@ == KIND@,
    {
        KIND
    }
}

/// The name under which the trap-daemon half of the document is reported.
pub const TRAPD_NAME: &'static str = "default (trapd)";

/// An outcome for `name` of this kind: in sync, or a planned update.
pub open spec fn is_preview(o: ApplyOutcome, name: Seq<char>, unchanged: bool) -> bool {
    &&& o.kind@ == KIND@
    &&& o.name@ == name
    &&& o.hint is None
    &&& o.details is None
    &&& if unchanged {
        &&& o.action == Action::Nothing
        &&& o.status == OutcomeStatus::Unchanged
        &&& o.message@ == "in sync"@
    } else {
        &&& o.action == Action::Update
        &&& o.status == OutcomeStatus::Planned
        &&& o.message@ == would_message(Action::Update)
    }
}

/// The agent (snmp-config) preview for a result.
pub fn agent_preview(unchanged: bool) -> (o: ApplyOutcome)
    ensures
        is_preview(o, SINGLETON_NAME@, unchanged),
{
    if unchanged {
        ApplyOutcome::new(KIND, SINGLETON_NAME, Action::Nothing, OutcomeStatus::Unchanged, "in sync")
    } else {
        ApplyOutcome::would(KIND, SINGLETON_NAME, Action::Update)
    }
}

/// The trap-daemon preview for a result.
pub fn trapd_preview(unchanged: bool) -> (o: ApplyOutcome)
    ensures
        is_preview(o, TRAPD_NAME@, unchanged),
{
    if unchanged {
        ApplyOutcome::new(KIND, TRAPD_NAME, Action::Nothing, OutcomeStatus::Unchanged, "in sync")
    } else {
        ApplyOutcome::would(KIND, TRAPD_NAME, Action::Update)
    }
}

/// The refusal of a bucket that does not hold exactly one document.
pub open spec fn singleton_message(n: nat) -> Seq<char> {
    "kind: SnmpConfig is a singleton — expected exactly one document, got "@ + dec(n)
}

/// Accepts a bucket of exactly one document; refuses any other count.
pub fn check_singleton(count: usize) -> (r: Result<(), String>)
    ensures
        r is Ok <==> count == 1,
        r matches Err(e) ==> e@ == singleton_message(count as nat),
{
    if count != 1 {
        let mut m = own("kind: SnmpConfig is a singleton — expected exactly one document, got ");
        let n = fmt_usize(count);
        append_str(&mut m, n.as_str());
        Err(m)
    } else {
        Ok(())
    }
}

/// `unchanged` or `changed`.
pub open spec fn change_word(ok: bool) -> Seq<char> {
    if ok {
        "unchanged"@
    } else {
        "changed"@
    }
}

/// The secret-free summary of replacing `deployed` by `desired`: which
/// tier changes, with the definition and profile counts.
pub open spec fn snmp_diff_text(deployed: SnmpConfigModel, desired: SnmpConfigModel) -> Seq<char> {
    let t = spec_tiers(desired, deployed);
    "snmp-config: whole-config replace via upload\n  defaults:    "@ + change_word(t[0])
        + "\n  definitions: "@ + change_word(t[1]) + " ("@ + dec(deployed.definition.len())
        + " deployed -> "@ + dec(desired.definition.len()) + " desired)\n  profiles:    "@
        + change_word(t[2]) + " ("@ + dec(deployed.profiles.profile.len()) + " deployed -> "@
        + dec(desired.profiles.profile.len()) + " desired)"@
}

fn change_str(ok: bool) -> (s: &'static str)
    ensures
        s@ == change_word(ok),
{
    if ok {
        "unchanged"
    } else {
        "changed"
    }
}

/// The summary of a whole-config replace; secrets never appear in it.
pub fn render_diff(deployed: &SnmpConfig, desired: &SnmpConfig) -> (s: String)
    ensures
        s@ == snmp_diff_text(deployed@, desired@),
{
    let t = tiers_match(desired, deployed);
    let mut s = own("snmp-config: whole-config replace via upload\n  defaults:    ");
    append_str(&mut s, change_str(t[0]));
    append_str(&mut s, "\n  definitions: ");
    append_str(&mut s, change_str(t[1]));
    append_str(&mut s, " (");
    append_str(&mut s, fmt_usize(deployed.definition.len()).as_str());
    append_str(&mut s, " deployed -> ");
    append_str(&mut s, fmt_usize(desired.definition.len()).as_str());
    append_str(&mut s, " desired)\n  profiles:    ");
    append_str(&mut s, change_str(t[2]));
    append_str(&mut s, " (");
    append_str(&mut s, fmt_usize(deployed.profiles.profile.len()).as_str());
    append_str(&mut s, " deployed -> ");
    append_str(&mut s, fmt_usize(desired.profiles.profile.len()).as_str());
    append_str(&mut s, " desired)");
    s
}

/// A trap port as text, `-` when unset.
pub open spec fn port_text(p: Option<i32>) -> Seq<char> {
    match p {
        Some(v) => dec_int(v as int),
        None => "-"@,
    }
}

/// The secret-free summary of a trap-daemon update: the port and the
/// number of v3 users on each side.
pub open spec fn trapd_diff_text(deployed: TrapdConfigModel, desired: TrapdConfigModel) -> Seq<char> {
    "trapd: trap-daemon config update\n  port:     "@ + port_text(deployed.snmp_trap_port) + " -> "@
        + port_text(desired.snmp_trap_port) + "\n  v3 users: "@ + dec(deployed.snmpv3_user.len())
        + " deployed -> "@ + dec(desired.snmpv3_user.len()) + " desired"@
}

fn port_string(p: Option<i32>) -> (s: String)
    ensures
        s@ == port_text(p),
{
    match p {
        Some(v) => fmt_i64(v as i64),
        None => own("-"),
    }
}

/// The summary of a trap-daemon update; passphrases never appear in it.
pub fn render_trapd_diff(deployed: &TrapdConfig, desired: &TrapdConfig) -> (s: String)
    ensures
        s@ == trapd_diff_text(deployed@, desired@),
{
    let mut s = own("trapd: trap-daemon config update\n  port:     ");
    append_str(&mut s, port_string(deployed.snmp_trap_port).as_str());
    append_str(&mut s, " -> ");
    append_str(&mut s, port_string(desired.snmp_trap_port).as_str());
    append_str(&mut s, "\n  v3 users: ");
    append_str(&mut s, fmt_usize(deployed.snmpv3_user.len()).as_str());
    append_str(&mut s, " deployed -> ");
    append_str(&mut s, fmt_usize(desired.snmpv3_user.len()).as_str());
    append_str(&mut s, " desired");
    s
}

/// A trap-daemon config with nothing set (what the server reports before
/// one is stored).
pub open spec fn empty_trapd() -> TrapdConfigModel {
    TrapdConfigModel {
        snmp_trap_address: None,
        snmp_trap_port: None,
        new_suspect_on_trap: None,
        include_raw_message: None,
        threads: None,
        queue_size: None,
        batch_size: None,
        batch_interval: None,
        use_address_from_varbind: None,
        snmpv3_user: Seq::empty(),
    }
}

fn empty_trapd_config() -> (c: TrapdConfig)
    ensures
        c@ == empty_trapd(),
{
    let c = TrapdConfig {
        snmp_trap_address: None,
        snmp_trap_port: None,
        new_suspect_on_trap: None,
        include_raw_message: None,
        threads: None,
        queue_size: None,
        batch_size: None,
        batch_interval: None,
        use_address_from_varbind: None,
        snmpv3_user: Vec::new(),
    };
    assert(c@.snmpv3_user =~= Seq::empty());
    c
}

/// The deployed trap-daemon config as read: nothing stored reads as an
/// empty config.
pub open spec fn deployed_trapd(d: Option<TrapdConfigModel>) -> TrapdConfigModel {
    match d {
        Some(c) => c,
        None => empty_trapd(),
    }
}

/// The plan of one document: a preview per endpoint, the summary of what
/// changes (absent when nothing does), and the results execution needs
/// (the trap-daemon result is absent without a `spec.trapd` block).
pub struct SnmpPlan {
    pub previews: Vec<ApplyOutcome>,
    pub diff: Option<String>,
    pub agent_unchanged: bool,
    pub trapd_unchanged: Option<bool>,
}

/// The agent result of a plan.
pub open spec fn plan_agent_unchanged(local: SnmpConfigLocalModel, deployed: SnmpConfigModel) -> bool {
    spec_unchanged(spec_to_wire(local), deployed)
}

/// The trap-daemon result of a plan (absent without a `spec.trapd`
/// block).
pub open spec fn plan_trapd_unchanged(
    local: SnmpConfigLocalModel,
    deployed_t: Option<TrapdConfigModel>,
) -> Option<bool> {
    match local.spec.trapd {
        Some(t) => Some(spec_trapd_unchanged(spec_trapd_to_wire(t), deployed_trapd(deployed_t))),
        None => None,
    }
}

/// The summary sections of a plan: the agent's when it changes, then the
/// trap daemon's when it changes.
pub open spec fn plan_sections(
    local: SnmpConfigLocalModel,
    deployed: SnmpConfigModel,
    deployed_t: Option<TrapdConfigModel>,
) -> Seq<Seq<char>> {
    let a = if plan_agent_unchanged(local, deployed) {
        Seq::empty()
    } else {
        seq![snmp_diff_text(deployed, spec_to_wire(local))]
    };
    match local.spec.trapd {
        Some(t) => if spec_trapd_unchanged(spec_trapd_to_wire(t), deployed_trapd(deployed_t)) {
            a
        } else {
            a.push(trapd_diff_text(deployed_trapd(deployed_t), spec_trapd_to_wire(t)))
        },
        None => a,
    }
}

/// Plans one (validated) document against the deployed agent config and,
/// when the document has a `spec.trapd` block, the deployed trap-daemon
/// config as read (`None` when none is stored; ignored without a block).
pub fn plan_snmp(
    local: &SnmpConfigLocal,
    deployed: &SnmpConfig,
    deployed_t: Option<&TrapdConfig>,
) -> (p: SnmpPlan)
    ensures
        p.agent_unchanged == plan_agent_unchanged(local@, deployed@),
        p.trapd_unchanged == plan_trapd_unchanged(
            local@,
            match deployed_t {
                Some(c) => Some(c@),
                None => None,
            },
        ),
        p.previews.len() == (if local@.spec.trapd is Some { 2int } else { 1int }),
        is_preview(p.previews@[0], SINGLETON_NAME@, p.agent_unchanged),
        p.trapd_unchanged matches Some(u) ==> is_preview(p.previews@[1], TRAPD_NAME@, u),
        match p.diff {
            Some(d) => d@ == join(
                plan_sections(
                    local@,
                    deployed@,
                    match deployed_t {
                        Some(c) => Some(c@),
                        None => None,
                    },
                ),
                "\n\n"@,
            ) && plan_sections(
                local@,
                deployed@,
                match deployed_t {
                    Some(c) => Some(c@),
                    None => None,
                },
            ).len() > 0,
            None => plan_sections(
                local@,
                deployed@,
                match deployed_t {
                    Some(c) => Some(c@),
                    None => None,
                },
            ).len() == 0,
        },
{
    let ghost dt = match deployed_t {
        Some(c) => Some(c@),
        None => None,
    };
    let desired = to_wire(local);
    let agent_unchanged = unchanged(&desired, deployed);
    let mut previews: Vec<ApplyOutcome> = Vec::new();
    previews.push(agent_preview(agent_unchanged));
    let mut sections: Vec<String> = Vec::new();
    if !agent_unchanged {
        sections.push(render_diff(deployed, &desired));
    }
    assert(strs(sections@) =~= (if agent_unchanged {
        Seq::empty()
    } else {
        seq![snmp_diff_text(deployed@, spec_to_wire(local@))]
    }));
    let trapd_verdict = match &local.spec.trapd {
        Some(t) => {
            let deployed_tc = match deployed_t {
                Some(c) => c.duplicate(),
                None => empty_trapd_config(),
            };
            let desired_t = trapd_to_wire(t);
            let uc = trapd_unchanged(&desired_t, &deployed_tc);
            previews.push(trapd_preview(uc));
            let ghost before = strs(sections@);
            if !uc {
                sections.push(render_trapd_diff(&deployed_tc, &desired_t));
            }
            assert(strs(sections@) =~= (if uc {
                before
            } else {
                before.push(trapd_diff_text(deployed_trapd(dt), spec_trapd_to_wire(t@)))
            }));
            Some(uc)
        },
        None => None,
    };
    assert(strs(sections@) == plan_sections(local@, deployed@, dt));
    let diff = if sections.len() == 0 {
        None
    } else {
        Some(join_strs(&sections, "\n\n"))
    };
    SnmpPlan { previews, diff, agent_unchanged, trapd_unchanged: trapd_verdict }
}

/// The agent outcome of uploading the whole config: replaced, or failed
/// with the transport error.
pub fn upload_outcome(result: Result<(), String>) -> (o: ApplyOutcome)
    ensures
        o.kind@ == KIND@,
        o.name@ == SINGLETON_NAME@,
        o.action == Action::Update,
        match result {
            Ok(()) => o.status == OutcomeStatus::Updated && o.message@ == "snmp-config replaced"@,
            Err(e) => o.status == OutcomeStatus::Failed && o.message@ == e@
                && crate::text::ostr(o.hint) == Some("verify connectivity and re-apply"@),
        },
{
    match result {
        Ok(()) => ApplyOutcome::new(
            KIND,
            SINGLETON_NAME,
            Action::Update,
            OutcomeStatus::Updated,
            "snmp-config replaced",
        ),
        Err(e) => ApplyOutcome::failed(
            KIND,
            SINGLETON_NAME,
            Action::Update,
            e,
            "verify connectivity and re-apply",
        ),
    }
}

/// The trap-daemon outcome of an update: the passphrase references could
/// not be resolved (`resolved` fails), or the update succeeded or failed.
pub fn trapd_update_outcome(resolved: Result<(), String>, update: Result<(), String>) -> (o:
    ApplyOutcome)
    ensures
        o.kind@ == KIND@,
        o.name@ == TRAPD_NAME@,
        o.action == Action::Update,
        match resolved {
            Err(e) => o.status == OutcomeStatus::Failed && o.message@ == e@
                && crate::text::ostr(o.hint) == Some(
                "resolve the trap-daemon passphrase reference and re-apply"@,
            ),
            Ok(()) => match update {
                Ok(()) => o.status == OutcomeStatus::Updated && o.message@
                    == "trap-daemon config updated"@,
                Err(e) => o.status == OutcomeStatus::Failed && o.message@ == e@
                    && crate::text::ostr(o.hint) == Some(
                    "verify the server exposes the Trapd REST API and re-apply"@,
                ),
            },
        },
{
    match resolved {
        Err(e) => ApplyOutcome::failed(
            KIND,
            TRAPD_NAME,
            Action::Update,
            e,
            "resolve the trap-daemon passphrase reference and re-apply",
        ),
        Ok(()) => match update {
            Ok(()) => ApplyOutcome::new(
                KIND,
                TRAPD_NAME,
                Action::Update,
                OutcomeStatus::Updated,
                "trap-daemon config updated",
            ),
            Err(e) => ApplyOutcome::failed(
                KIND,
                TRAPD_NAME,
                Action::Update,
                e,
                "verify the server exposes the Trapd REST API and re-apply",
            ),
        },
    }
}


/// The result of the agent step: secrets of the document that cannot be
/// read (`resolved` fails) end the execution with that error, before any
/// upload; otherwise the upload's result is reported as an outcome, a
/// failed upload included.
pub fn agent_step_result(resolved: Result<(), String>, upload: Result<(), String>) -> (r: Result<
    ApplyOutcome,
    String,
>)
    ensures
        match resolved {
            Err(e) => r == Err::<ApplyOutcome, String>(e),
            Ok(()) => r matches Ok(o) && o.kind@ == KIND@ && o.name@ == SINGLETON_NAME@ && o.action
                == Action::Update && match upload {
                Ok(()) => o.status == OutcomeStatus::Updated,
                Err(e) => o.status == OutcomeStatus::Failed && o.message@ == e@,
            },
        },
{
    match resolved {
        Err(e) => Err(e),
        Ok(()) => Ok(upload_outcome(upload)),
    }
}

/// What executing an SNMP plan does next.
pub enum SnmpAction {
    /// Report this outcome, with no call: a half that does not change.
    Report(ApplyOutcome),
    /// Resolve the document's secrets and upload the whole agent config;
    /// the upload's result is reported as [`upload_outcome`] gives it.
    UploadAgent,
    /// Resolve the trap-daemon passphrases and update its config; the
    /// result is reported as [`trapd_update_outcome`] gives it.
    UpdateTrapd,
    /// Execution is over.
    Finish,
}

/// Whether `a` is the step after `done` outcomes of a plan with these
/// results: the agent half first (in sync, or uploaded), then the
/// trap-daemon half when the document has one (in sync, or updated), then
/// the end.
pub open spec fn is_snmp_step(a: SnmpAction, agent_unchanged: bool, trapd_unchanged: Option<bool>, done: nat) -> bool {
    if done == 0 {
        if agent_unchanged {
            a matches SnmpAction::Report(o) && is_preview(o, SINGLETON_NAME@, true)
        } else {
            a is UploadAgent
        }
    } else if done == 1 {
        match trapd_unchanged {
            Some(true) => a matches SnmpAction::Report(o) && is_preview(o, TRAPD_NAME@, true),
            Some(false) => a is UpdateTrapd,
            None => a is Finish,
        }
    } else {
        a is Finish
    }
}

/// The next step of executing `plan` after the outcomes `done`, one per
/// half in order (agent, then trap daemon).
pub fn snmp_step(plan: &SnmpPlan, done: &Vec<ApplyOutcome>) -> (a: SnmpAction)
    ensures
        is_snmp_step(a, plan.agent_unchanged, plan.trapd_unchanged, done.len() as nat),
{
    if done.len() == 0 {
        if plan.agent_unchanged {
            SnmpAction::Report(agent_preview(true))
        } else {
            SnmpAction::UploadAgent
        }
    } else if done.len() == 1 {
        match plan.trapd_unchanged {
            Some(true) => SnmpAction::Report(trapd_preview(true)),
            Some(false) => SnmpAction::UpdateTrapd,
            None => SnmpAction::Finish,
        }
    } else {
        SnmpAction::Finish
    }
}

/// Execution writes only what changes: the agent config is uploaded only
/// when it differs, and only as the first step; the trap-daemon config is
/// updated only when the document has a block that differs, and only
/// after the agent half; every execution ends after at most two outcomes.
pub proof fn lemma_snmp_writes_only_changes(
    a: SnmpAction,
    agent_unchanged: bool,
    trapd_unchanged: Option<bool>,
    done: nat,
)
    requires
        is_snmp_step(a, agent_unchanged, trapd_unchanged, done),
    ensures
        a is UploadAgent ==> !agent_unchanged && done == 0,
        a is UpdateTrapd ==> trapd_unchanged == Some(false) && done == 1,
        done >= 2 ==> a is Finish,
        trapd_unchanged is None && done >= 1 ==> a is Finish,
{
}

} // verus!
