//! The human-readable preview of an apply: the requisition and its state,
//! the rescan decision, the foreign-source change, the node changes and,
//! when the default foreign source is in use, a note that changes to it
//! are not shown.

use vstd::prelude::*;
use crate::json::{json_text, to_json, JsonModel, Value};
use crate::provisioning::apply::{ApplyOutcome, ApplyState, ForeignSourceAction};
use crate::provisioning::diff::{
    LeafChange, LeafChangeModel, NodeModificationModel, NodeRefModel, RequisitionDelta,
    RequisitionDeltaModel,
};
use crate::provisioning::model::{RequisitionLocal, RequisitionLocalModel};
use crate::provisioning::server::{
    DetectorServerModel, ForeignSourceServer, ForeignSourceServerModel, PolicyServerModel,
};
use crate::text::{append_str, own};

verus! {

/// The word for an apply state.
pub open spec fn state_word(s: ApplyState) -> Seq<char> {
    match s {
        ApplyState::Unchanged => "unchanged"@,
        ApplyState::DryRun => "dry-run"@,
        ApplyState::Created => "create"@,
        ApplyState::Updated => "update"@,
    }
}

fn state_label(s: ApplyState) -> (r: &'static str)
    ensures
        r@ == state_word(s),
{
    match s {
        ApplyState::Unchanged => "unchanged",
        ApplyState::DryRun => "dry-run",
        ApplyState::Created => "create",
        ApplyState::Updated => "update",
    }
}

/// A value as shown in a change: `<absent>` for null, JSON text otherwise
/// (strings quoted and escaped).
pub open spec fn value_text(v: JsonModel) -> Seq<char> {
    match v {
        JsonModel::Null => "<absent>"@,
        _ => json_text(v),
    }
}

fn render_value(v: &Value) -> (s: String)
    ensures
        s@ == value_text(v@),
{
    match v {
        Value::Null => own("<absent>"),
        _ => to_json(v),
    }
}

/// One changed leaf: `<indent><path>: <from> → <to>`.
pub open spec fn leaf_line(c: LeafChangeModel, indent: Seq<char>) -> Seq<char> {
    indent + c.path + ": "@ + value_text(c.from) + " → "@ + value_text(c.to) + "\n"@
}

/// The lines of changed leaves, in order.
pub open spec fn leaves_text(s: Seq<LeafChangeModel>, indent: Seq<char>) -> Seq<char>
    decreases s.len(),
{
    if s.len() == 0 {
        Seq::empty()
    } else {
        leaves_text(s.drop_last(), indent) + leaf_line(s.last(), indent)
    }
}

fn render_leaves(out: &mut String, s: &Vec<LeafChange>, indent: &str)
    ensures
        final(out)@ == old(out)@ + leaves_text(
            crate::provisioning::diff::leaves_model(s@),
            indent@,
        ),
{
    let ghost m = crate::provisioning::diff::leaves_model(s@);
    let ghost o0 = out@;
    let mut i: usize = 0;
    while i < s.len()
        invariant
            i <= s.len(),
            m == crate::provisioning::diff::leaves_model(s@),
            out@ == o0 + leaves_text(m.take(i as int), indent@),
        decreases s.len() - i,
    {
        let c = &s[i];
        append_str(out, indent);
        append_str(out, c.path.as_str());
        append_str(out, ": ");
        append_str(out, render_value(&c.from).as_str());
        append_str(out, " → ");
        append_str(out, render_value(&c.to).as_str());
        append_str(out, "\n");
        assert(m.take(i + 1).drop_last() == m.take(i as int));
        assert(m.take(i + 1).last() == c@);
        i = i + 1;
    }
    assert(m.take(s.len() as int) == m);
}

/// `      - <name> (<class>)` for each displaced detector.
pub open spec fn detector_lines(s: Seq<DetectorServerModel>) -> Seq<char>
    decreases s.len(),
{
    if s.len() == 0 {
        Seq::empty()
    } else {
        detector_lines(s.drop_last()) + "      - "@ + s.last().name + " ("@ + s.last().class + ")\n"@
    }
}

/// `      - <name> (<class>)` for each displaced policy.
pub open spec fn policy_lines(s: Seq<PolicyServerModel>) -> Seq<char>
    decreases s.len(),
{
    if s.len() == 0 {
        Seq::empty()
    } else {
        policy_lines(s.drop_last()) + "      - "@ + s.last().name + " ("@ + s.last().class + ")\n"@
    }
}

/// What deleting a custom foreign source displaces.
pub open spec fn displaced_text(orig: Option<ForeignSourceServerModel>) -> Seq<char> {
    match orig {
        Some(f) => (if f.detectors.len() > 0 {
            "    displaced detectors:\n"@ + detector_lines(f.detectors)
        } else {
            Seq::empty()
        }) + (if f.policies.len() > 0 {
            "    displaced policies:\n"@ + policy_lines(f.policies)
        } else {
            Seq::empty()
        }),
        None => Seq::empty(),
    }
}

/// The foreign-source section.
pub open spec fn fs_section(
    a: ForeignSourceAction,
    d: RequisitionDeltaModel,
    orig: Option<ForeignSourceServerModel>,
) -> Seq<char> {
    match a {
        ForeignSourceAction::NoChange => if d.foreign_source_changes.len() > 0 {
            "\n"@ + "  foreignSource:\n"@ + leaves_text(d.foreign_source_changes, "    "@)
        } else {
            Seq::empty()
        },
        ForeignSourceAction::Created => "\n"@ + "  + foreignSource: creating custom\n"@ + leaves_text(
            d.foreign_source_changes,
            "    "@,
        ),
        ForeignSourceAction::Updated => "\n"@ + "  ~ foreignSource: updating\n"@ + leaves_text(
            d.foreign_source_changes,
            "    "@,
        ),
        ForeignSourceAction::Deleted => "\n"@
            + "  - foreignSource: deleting custom (will revert to Horizon's default)\n"@
            + displaced_text(orig),
    }
}

fn render_fs_section(out: &mut String, outcome: &ApplyOutcome)
    ensures
        final(out)@ == old(out)@ + fs_section(
            outcome.foreign_source_action,
            outcome.delta@,
            match outcome.original_remote_fs {
                Some(f) => Some(f@),
                None => None,
            },
        ),
{
    let delta = &outcome.delta;
    match outcome.foreign_source_action {
        ForeignSourceAction::NoChange => {
            if delta.foreign_source_changes.len() > 0 {
                append_str(out, "\n");
                append_str(out, "  foreignSource:\n");
                render_leaves(out, &delta.foreign_source_changes, "    ");
            }
        },
        ForeignSourceAction::Created => {
            append_str(out, "\n");
            append_str(out, "  + foreignSource: creating custom\n");
            render_leaves(out, &delta.foreign_source_changes, "    ");
        },
        ForeignSourceAction::Updated => {
            append_str(out, "\n");
            append_str(out, "  ~ foreignSource: updating\n");
            render_leaves(out, &delta.foreign_source_changes, "    ");
        },
        ForeignSourceAction::Deleted => {
            append_str(out, "\n");
            append_str(out, "  - foreignSource: deleting custom (will revert to Horizon's default)\n");
            let ghost before = out@;
            if let Some(orig) = &outcome.original_remote_fs {
                if orig.detectors.len() > 0 {
                    append_str(out, "    displaced detectors:\n");
                    let ghost ds = orig@.detectors;
                    let ghost o1 = out@;
                    let mut i: usize = 0;
                    while i < orig.detectors.len()
                        invariant
                            i <= orig.detectors.len(),
                            ds == orig@.detectors,
                            out@ == o1 + detector_lines(ds.take(i as int)),
                        decreases orig.detectors.len() - i,
                    {
                        append_str(out, "      - ");
                        append_str(out, orig.detectors[i].name.as_str());
                        append_str(out, " (");
                        append_str(out, orig.detectors[i].class.as_str());
                        append_str(out, ")\n");
                        assert(ds.take(i + 1).drop_last() == ds.take(i as int));
                        i = i + 1;
                    }
                    assert(ds.take(orig.detectors.len() as int) == ds);
                }
                let ghost mid = out@;
                if orig.policies.len() > 0 {
                    append_str(out, "    displaced policies:\n");
                    let ghost ps = orig@.policies;
                    let ghost o1 = out@;
                    let mut i: usize = 0;
                    while i < orig.policies.len()
                        invariant
                            i <= orig.policies.len(),
                            ps == orig@.policies,
                            out@ == o1 + policy_lines(ps.take(i as int)),
                        decreases orig.policies.len() - i,
                    {
                        append_str(out, "      - ");
                        append_str(out, orig.policies[i].name.as_str());
                        append_str(out, " (");
                        append_str(out, orig.policies[i].class.as_str());
                        append_str(out, ")\n");
                        assert(ps.take(i + 1).drop_last() == ps.take(i as int));
                        i = i + 1;
                    }
                    assert(ps.take(orig.policies.len() as int) == ps);
                }
                assert(out@ =~= before + displaced_text(Some(orig@)));
            } else {
                assert(out@ =~= before + displaced_text(None));
            }
        },
    }
}

/// `    + <id>` for each added node.
pub open spec fn added_lines(s: Seq<NodeRefModel>, mark: Seq<char>) -> Seq<char>
    decreases s.len(),
{
    if s.len() == 0 {
        Seq::empty()
    } else {
        added_lines(s.drop_last(), mark) + mark + s.last().foreign_id + "\n"@
    }
}

/// `    ~ <id>` and its changed leaves for each modified node.
pub open spec fn modified_lines(s: Seq<NodeModificationModel>) -> Seq<char>
    decreases s.len(),
{
    if s.len() == 0 {
        Seq::empty()
    } else {
        modified_lines(s.drop_last()) + "    ~ "@ + s.last().foreign_id + "\n"@ + leaves_text(
            s.last().leaves,
            "        "@,
        )
    }
}

/// The node section (empty when no node changes).
pub open spec fn node_section(d: RequisitionDeltaModel) -> Seq<char> {
    if d.nodes_added.len() == 0 && d.nodes_removed.len() == 0 && d.nodes_modified.len() == 0 {
        Seq::empty()
    } else {
        "\n"@ + "  nodes:\n"@ + added_lines(d.nodes_added, "    + "@) + added_lines(
            d.nodes_removed,
            "    - "@,
        ) + modified_lines(d.nodes_modified)
    }
}

fn render_refs(out: &mut String, s: &Vec<crate::provisioning::diff::NodeRef>, mark: &str)
    ensures
        final(out)@ == old(out)@ + added_lines(
            s@.map_values(|n: crate::provisioning::diff::NodeRef| n@),
            mark@,
        ),
{
    let ghost m = s@.map_values(|n: crate::provisioning::diff::NodeRef| n@);
    let ghost o0 = out@;
    let mut i: usize = 0;
    while i < s.len()
        invariant
            i <= s.len(),
            m == s@.map_values(|n: crate::provisioning::diff::NodeRef| n@),
            out@ == o0 + added_lines(m.take(i as int), mark@),
        decreases s.len() - i,
    {
        append_str(out, mark);
        append_str(out, s[i].foreign_id.as_str());
        append_str(out, "\n");
        assert(m.take(i + 1).drop_last() == m.take(i as int));
        i = i + 1;
    }
    assert(m.take(s.len() as int) == m);
}

fn render_node_section(out: &mut String, delta: &RequisitionDelta)
    ensures
        final(out)@ == old(out)@ + node_section(delta@),
{
    if delta.nodes_added.len() == 0 && delta.nodes_removed.len() == 0
        && delta.nodes_modified.len() == 0 {
        assert(out@ =~= old(out)@ + node_section(delta@));
        return;
    }
    append_str(out, "\n");
    append_str(out, "  nodes:\n");
    render_refs(out, &delta.nodes_added, "    + ");
    render_refs(out, &delta.nodes_removed, "    - ");
    let ghost ms = delta@.nodes_modified;
    let ghost o1 = out@;
    let mut i: usize = 0;
    while i < delta.nodes_modified.len()
        invariant
            i <= delta.nodes_modified.len(),
            ms == delta@.nodes_modified,
            out@ == o1 + modified_lines(ms.take(i as int)),
        decreases delta.nodes_modified.len() - i,
    {
        let m = &delta.nodes_modified[i];
        append_str(out, "    ~ ");
        append_str(out, m.foreign_id.as_str());
        append_str(out, "\n");
        render_leaves(out, &m.leaves, "        ");
        assert(ms.take(i + 1).drop_last() == ms.take(i as int));
        assert(ms.take(i + 1).last() == m@);
        i = i + 1;
    }
    assert(ms.take(delta.nodes_modified.len() as int) == ms);
    assert(out@ =~= old(out)@ + node_section(delta@));
}

/// The note shown when the document relies on the default foreign source
/// and the apply does not touch the foreign source.
pub open spec fn default_note() -> Seq<char> {
    "\n"@ + "  note: uses Horizon's default foreign-source; out-of-band changes to\n"@
        + "  the default are not surfaced by this diff\n"@
}

/// The preview of an apply of `local`.
pub open spec fn apply_diff_text(local: RequisitionLocalModel, o: ApplyOutcome) -> Seq<char> {
    let head = "Requisition/"@ + local.metadata.name + " ("@ + state_word(o.state) + ")\n"@;
    if o.state == ApplyState::Unchanged {
        head + "  (no changes)\n"@
    } else {
        head + "  rescanExisting: "@ + (if o.rescan_existing {
            "true"@
        } else {
            "false"@
        }) + "\n"@ + fs_section(
            o.foreign_source_action,
            o.delta@,
            match o.original_remote_fs {
                Some(f) => Some(f@),
                None => None,
            },
        ) + node_section(o.delta@) + (if local.spec.foreign_source is None
            && o.foreign_source_action == ForeignSourceAction::NoChange {
            default_note()
        } else {
            Seq::empty()
        })
    }
}

/// Renders the preview of an apply: `Requisition/<name> (<state>)`, then
/// `(no changes)` when unchanged, else the rescan decision, the
/// foreign-source and node sections, and the default-foreign-source
/// note when it applies.
pub fn render_apply_diff(local: &RequisitionLocal, outcome: &ApplyOutcome) -> (s: String)
    ensures
        s@ == apply_diff_text(local@, *outcome),
{
    let mut out = own("Requisition/");
    append_str(&mut out, local.metadata.name.as_str());
    append_str(&mut out, " (");
    append_str(&mut out, state_label(outcome.state));
    append_str(&mut out, ")\n");
    if outcome.state == ApplyState::Unchanged {
        append_str(&mut out, "  (no changes)\n");
        return out;
    }
    append_str(&mut out, "  rescanExisting: ");
    append_str(&mut out, if outcome.rescan_existing { "true" } else { "false" });
    append_str(&mut out, "\n");
    render_fs_section(&mut out, outcome);
    render_node_section(&mut out, &outcome.delta);
    if local.spec.foreign_source.is_none() && outcome.foreign_source_action
        == ForeignSourceAction::NoChange {
        append_str(&mut out, "\n");
        append_str(&mut out, "  note: uses Horizon's default foreign-source; out-of-band changes to\n");
        append_str(&mut out, "  the default are not surfaced by this diff\n");
    }
    out
}

} // verus!
