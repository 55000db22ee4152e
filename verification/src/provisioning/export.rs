//! Reading deployed requisitions back into `kind: Requisition` documents:
//! which foreign source is attached, and the comment header that says where
//! a `spec.foreignSource` block came from or why it is absent.

use vstd::prelude::*;
use crate::provisioning::convert::{requisition_from_wire, spec_requisition_from_wire};
use crate::provisioning::model::{RequisitionLocal, RequisitionLocalModel};
use crate::provisioning::server::{ForeignSourceServer, ForeignSourceServerModel, RequisitionServer};
use crate::provisioning::time::{format_unix_ts, unix_ts_text};
use crate::text::append_str;

verus! {

/// One exported requisition: its name, the document text, and whether the
/// `spec.foreignSource` block is the server's default foreign source.
#[derive(Clone, Debug)]
pub struct ExportOutcome {
    pub foreign_source: String,
    pub yaml: String,
    pub default_fs_inlined: bool,
}

/// The message for a requisition the server does not have.
pub open spec fn missing_message(fs: Seq<char>) -> Seq<char> {
    "no requisition '"@ + fs + "' on the server (GET /rest/requisitions/"@ + fs
        + " returned 404)"@
}

/// The message for a requisition the server does not have.
pub fn missing_requisition_message(fs: &str) -> (s: String)
    ensures
        s@ == missing_message(fs@),
{
    let mut s = String::new();
    append_str(&mut s, "no requisition '");
    append_str(&mut s, fs);
    append_str(&mut s, "' on the server (GET /rest/requisitions/");
    append_str(&mut s, fs);
    append_str(&mut s, " returned 404)");
    s
}

/// Whether the default foreign source must still be read from the server
/// for one requisition: it has no custom one, defaults are asked for, and
/// none was read beforehand.
pub fn needs_default_fetch(has_custom: bool, include_defaults: bool, has_cached: bool) -> (b: bool)
    ensures
        b == (!has_custom && include_defaults && !has_cached),
{
    !has_custom && include_defaults && !has_cached
}

/// The model of an optional foreign source.
pub open spec fn fs_model(f: Option<&ForeignSourceServer>) -> Option<ForeignSourceServerModel> {
    match f {
        Some(x) => Some(x@),
        None => None,
    }
}

/// The exported document of a requisition, and whether the default foreign
/// source was inlined: the custom foreign source when there is one,
/// otherwise `default_fs` (the server's default, present only when defaults
/// were asked for).
pub fn export_local(
    req: &RequisitionServer,
    include_defaults: bool,
    custom: Option<&ForeignSourceServer>,
    default_fs: Option<&ForeignSourceServer>,
) -> (r: (RequisitionLocal, bool))
    ensures
        r.1 == (custom is None && include_defaults),
        r.0@ == spec_requisition_from_wire(
            req@,
            match custom {
                Some(c) => Some(c@),
                None => fs_model(default_fs),
            },
        ),
{
    let inlined = custom.is_none() && include_defaults;
    let chosen = match custom {
        Some(c) => Some(c),
        None => default_fs,
    };
    (requisition_from_wire(req, chosen), inlined)
}

/// The first line of every exported document.
pub open spec fn schema_line() -> Seq<char> {
    "# yaml-language-server: $schema=https://raw.githubusercontent.com/no42-org/onmsctl/main/schemas/requisition.schema.json\n"@
}

/// The comment naming an inlined default foreign source and its time.
pub open spec fn inlined_note(now: Seq<char>) -> Seq<char> {
    "# spec.foreignSource was inlined from Horizon's default foreign-source at "@ + now
        + ".\n# Drop the spec.foreignSource block to revert to portable style (Horizon's default-FS is\n# re-applied at every `apply` — the inlined snapshot does not stay in sync after this export).\n"@
}

/// The comment of a document without `spec.foreignSource`.
pub open spec fn portable_note() -> Seq<char> {
    "# Portable style: spec.foreignSource is omitted; this requisition inherits\n# Horizon's default foreign-source (detectors + policies) at apply time.\n# Run `requisition export <fs> --include-defaults` to snapshot the\n# current default into spec.foreignSource if you need a pinned record.\n"@
}

/// An exported document: the schema line, then the inlining note (with the
/// time `now_secs`) or, for a document without `spec.foreignSource`, the
/// portable-style note, then the serialized document `body`.
pub open spec fn export_text(
    local: RequisitionLocalModel,
    inlined: bool,
    now_secs: int,
    body: Seq<char>,
) -> Seq<char> {
    schema_line() + (if inlined {
        inlined_note(unix_ts_text(now_secs))
    } else if local.spec.foreign_source is None {
        portable_note()
    } else {
        Seq::empty()
    }) + body
}

/// An exported document (see [`export_text`]).
pub fn export_document(local: &RequisitionLocal, inlined: bool, now_secs: i64, body: &str) -> (s:
    String)
    ensures
        s@ == export_text(local@, inlined, now_secs as int, body@),
{
    let mut s = String::new();
    append_str(
        &mut s,
        "# yaml-language-server: $schema=https://raw.githubusercontent.com/no42-org/onmsctl/main/schemas/requisition.schema.json\n",
    );
    let ghost head = s@;
    if inlined {
        let now = format_unix_ts(now_secs);
        append_str(&mut s, "# spec.foreignSource was inlined from Horizon's default foreign-source at ");
        append_str(&mut s, now.as_str());
        append_str(
            &mut s,
            ".\n# Drop the spec.foreignSource block to revert to portable style (Horizon's default-FS is\n# re-applied at every `apply` — the inlined snapshot does not stay in sync after this export).\n",
        );
        assert(s@ == head + inlined_note(now@));
    } else if local.spec.foreign_source.is_none() {
        append_str(
            &mut s,
            "# Portable style: spec.foreignSource is omitted; this requisition inherits\n# Horizon's default foreign-source (detectors + policies) at apply time.\n# Run `requisition export <fs> --include-defaults` to snapshot the\n# current default into spec.foreignSource if you need a pinned record.\n",
        );
    } else {
        assert(s@ == head + Seq::<char>::empty());
    }
    append_str(&mut s, body);
    s
}

} // verus!
