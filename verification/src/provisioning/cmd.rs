//! The decisions and texts of the `requisition` command line: argument
//! checks, the asset-record value handling, the delete confirmation, the
//! rescan explanation, and the one-line reports.

use vstd::prelude::*;
use crate::fmt::{debug_quoted, debug_str};
use crate::ip::{ip_text, ip_to_string, parse_ip, spec_parse_ip};
use crate::json::{json_text, to_json, JsonModel, Value};
use crate::provisioning::apply::{ApplyOutcome, ApplyState, ForeignSourceAction, PlanState, RescanChoice};
use crate::provisioning::finding::{code_text, Finding, FindingCode, FindingModel, Severity};
use crate::provisioning::multi::{
    has_hard, hard_keys, CollisionCode, CollisionFinding, MultiApplyFileResult, MultiApplyOutcome,
    MultiApplyPlan, MultiApplyPlanEntry, MultiApplyState,
};
use crate::provisioning::pipeline::{spec_exit_code, ConversionResult};
use crate::provisioning::time::{format_unix_ts, unix_ts_text};
use crate::provisioning::server::{InterfaceServer, InterfaceServerModel, NodeServer, NodeServerModel};
use crate::text::{
    append_str, dec, dec_int, fmt_i64, fmt_u64, fmt_usize, is_ascii_alnum, is_ascii_alpha, lower_seq, own,
    parse_i64, parse_i64_spec, str_eq, strs, to_lower, trim, trim_spec,
};

verus! {

// ---------------------------------------------------------------------------
// Argument checks
// ---------------------------------------------------------------------------

/// The outcome of checking a database node id argument.
pub open spec fn spec_db_id(s: Seq<char>) -> Result<i64, Seq<char>> {
    match parse_i64_spec(s) {
        None => Err("db-id must be a positive integer; got "@ + debug_str(s)),
        Some(n) => if n <= 0 {
            Err("db-id must be positive; got "@ + dec_int(n as int))
        } else if n > i32::MAX {
            Err(
                "db-id must not exceed i32::MAX (2147483647); Horizon stores node ID as a 32-bit integer. Got "@
                    + dec_int(n as int),
            )
        } else {
            Ok(n)
        },
    }
}

/// A database node id: a positive integer that fits in 32 signed bits.
pub fn db_id(s: &str) -> (r: Result<i64, String>)
    ensures
        match r {
            Ok(n) => spec_db_id(s@) == Ok::<i64, Seq<char>>(n),
            Err(e) => spec_db_id(s@) == Err::<i64, Seq<char>>(e@),
        },
{
    match parse_i64(s) {
        None => {
            let mut m = own("db-id must be a positive integer; got ");
            append_str(&mut m, debug_quoted(s).as_str());
            Err(m)
        },
        Some(n) => {
            if n <= 0 {
                let mut m = own("db-id must be positive; got ");
                append_str(&mut m, fmt_i64(n).as_str());
                Err(m)
            } else if n > 2147483647 {
                let mut m = own(
                    "db-id must not exceed i32::MAX (2147483647); Horizon stores node ID as a 32-bit integer. Got ",
                );
                append_str(&mut m, fmt_i64(n).as_str());
                Err(m)
            } else {
                Ok(n)
            }
        },
    }
}

/// A character allowed after the first in an asset field name.
pub open spec fn field_char(c: char) -> bool {
    is_ascii_alnum(c) || c == '_'
}

/// The outcome of checking an asset field name: an identifier of ASCII
/// letters, digits and `_`, not starting with a digit.
pub open spec fn spec_asset_field(s: Seq<char>) -> Result<Seq<char>, Seq<char>> {
    if s.len() == 0 {
        Err("asset field name must not be empty"@)
    } else if !(is_ascii_alpha(s[0]) || s[0] == '_') {
        Err(
            "asset field name "@ + debug_str(s)
                + " must start with an ASCII letter or '_' (JSON/Java identifier shape)"@,
        )
    } else if !(forall|i: int| 1 <= i < s.len() ==> #[trigger] field_char(s[i])) {
        Err(
            "asset field name "@ + debug_str(s)
                + " contains disallowed characters (allowed: ASCII alphanumeric + '_', identifier shape like 'city', 'serialNumber', 'vendor_phone')"@,
        )
    } else {
        Ok(s)
    }
}

/// An asset field name (see [`spec_asset_field`]).
pub fn asset_field(s: &str) -> (r: Result<String, String>)
    ensures
        match r {
            Ok(v) => spec_asset_field(s@) == Ok::<Seq<char>, Seq<char>>(v@),
            Err(e) => spec_asset_field(s@) == Err::<Seq<char>, Seq<char>>(e@),
        },
{
    let cs = crate::text::chars_of(s);
    if cs.len() == 0 {
        return Err(own("asset field name must not be empty"));
    }
    let first = cs[0];
    if !(crate::text::char_is_ascii_alpha(first) || first == '_') {
        let mut m = own("asset field name ");
        append_str(&mut m, debug_quoted(s).as_str());
        append_str(&mut m, " must start with an ASCII letter or '_' (JSON/Java identifier shape)");
        return Err(m);
    }
    let mut i: usize = 1;
    while i < cs.len()
        invariant
            1 <= i <= cs.len(),
            cs@ == s@,
            s@.len() > 0,
            is_ascii_alpha(s@[0]) || s@[0] == '_',
            forall|j: int| 1 <= j < i ==> #[trigger] field_char(s@[j]),
        decreases cs.len() - i,
    {
        if !(crate::text::char_is_ascii_alnum(cs[i]) || cs[i] == '_') {
            assert(!field_char(s@[i as int]));
            let mut m = own("asset field name ");
            append_str(&mut m, debug_quoted(s).as_str());
            append_str(
                &mut m,
                " contains disallowed characters (allowed: ASCII alphanumeric + '_', identifier shape like 'city', 'serialNumber', 'vendor_phone')",
            );
            return Err(m);
        }
        i = i + 1;
    }
    Ok(own(s))
}

/// A file name is safe to write under an output directory: not empty,
/// not starting with `.`, and made only of ASCII letters, digits, `-`,
/// `_` and `.`.
pub open spec fn spec_safe_filename(s: Seq<char>) -> bool {
    s.len() > 0 && s[0] != '.' && forall|i: int|
        0 <= i < s.len() ==> (is_ascii_alnum(#[trigger] s[i]) || s[i] == '-' || s[i] == '_' || s[i]
            == '.')
}

/// Whether `s` may name a file under an output directory.
pub fn is_safe_filename(s: &str) -> (b: bool)
    ensures
        b == spec_safe_filename(s@),
{
    let cs = crate::text::chars_of(s);
    if cs.len() == 0 || cs[0] == '.' {
        return false;
    }
    let mut i: usize = 0;
    while i < cs.len()
        invariant
            i <= cs.len(),
            cs@ == s@,
            forall|j: int|
                0 <= j < i ==> (is_ascii_alnum(#[trigger] s@[j]) || s@[j] == '-' || s@[j] == '_'
                    || s@[j] == '.'),
        decreases cs.len() - i,
    {
        let c = cs[i];
        if !(crate::text::char_is_ascii_alnum(c) || c == '-' || c == '_' || c == '.') {
            return false;
        }
        i = i + 1;
    }
    true
}

/// A foreign-source name argument: refused when empty or only
/// whitespace, kept as given otherwise.
pub fn nonempty_fs(s: &str) -> (r: Result<String, String>)
    ensures
        trim_spec(s@).len() == 0 <==> r is Err,
        r matches Ok(v) ==> v@ == s@,
        r matches Err(e) ==> e@ == "foreign-source name must not be empty or whitespace-only"@,
{
    let t = trim(s);
    if crate::text::chars_of(t.as_str()).len() == 0 {
        return Err(own("foreign-source name must not be empty or whitespace-only"));
    }
    Ok(own(s))
}

/// A non-empty argument: refused when empty or only whitespace, kept as
/// given otherwise.
pub fn nonempty_string(s: &str) -> (r: Result<String, String>)
    ensures
        trim_spec(s@).len() == 0 <==> r is Err,
        r matches Ok(v) ==> v@ == s@,
        r matches Err(e) ==> e@ == "value must not be empty or whitespace-only"@,
{
    let t = trim(s);
    if crate::text::chars_of(t.as_str()).len() == 0 {
        Err(own("value must not be empty or whitespace-only"))
    } else {
        Ok(own(s))
    }
}

/// An IP address argument: an IPv4 or IPv6 literal, given back in its
/// canonical text.
pub fn ip_addr(s: &str) -> (r: Result<String, String>)
    ensures
        match spec_parse_ip(s@) {
            Some(a) => r matches Ok(v) && v@ == ip_text(a),
            None => r matches Err(e) && e@ == "invalid IP address "@ + debug_str(s@)
                + " (expected IPv4 or IPv6 literal)"@,
        },
{
    match parse_ip(s) {
        Some(a) => Ok(ip_to_string(&a)),
        None => {
            let mut m = own("invalid IP address ");
            append_str(&mut m, debug_quoted(s).as_str());
            append_str(&mut m, " (expected IPv4 or IPv6 literal)");
            Err(m)
        },
    }
}

/// The `--rescan-existing` setting.
#[derive(Clone, Copy, Debug, PartialEq, Eq, Structural)]
pub enum RescanFlag {
    Auto,
    Force(bool),
}

impl RescanFlag {
    /// The rescan choice this setting makes.
    pub fn to_choice(self) -> (c: RescanChoice)
        ensures
            c == (match self {
                RescanFlag::Auto => RescanChoice::Auto,
                RescanFlag::Force(b) => RescanChoice::Force(b),
            }),
    {
        match self {
            RescanFlag::Auto => RescanChoice::Auto,
            RescanFlag::Force(b) => RescanChoice::Force(b),
        }
    }
}

impl From<RescanFlag> for RescanChoice {
    fn from(f: RescanFlag) -> (c: RescanChoice) {
        f.to_choice()
    }
}

impl vstd::std_specs::convert::FromSpecImpl<RescanFlag> for RescanChoice {
    open spec fn obeys_from_spec() -> bool {
        true
    }

    open spec fn from_spec(f: RescanFlag) -> RescanChoice {
        match f {
            RescanFlag::Auto => RescanChoice::Auto,
            RescanFlag::Force(b) => RescanChoice::Force(b),
        }
    }
}

/// The outcome of reading `--rescan-existing`: `true`, `false` or
/// `auto`, ignoring ASCII case.
pub open spec fn spec_rescan_flag(s: Seq<char>) -> Result<RescanFlag, Seq<char>> {
    let l = lower_seq(s);
    if l == "true"@ {
        Ok(RescanFlag::Force(true))
    } else if l == "false"@ {
        Ok(RescanFlag::Force(false))
    } else if l == "auto"@ {
        Ok(RescanFlag::Auto)
    } else {
        Err(
            "rescan-existing must be one of 'true', 'false', or 'auto' (got "@ + debug_str(l)
                + ")"@,
        )
    }
}

/// Reads `--rescan-existing` (see [`spec_rescan_flag`]).
pub fn rescan_flag(s: &str) -> (r: Result<RescanFlag, String>)
    ensures
        match r {
            Ok(f) => spec_rescan_flag(s@) == Ok::<RescanFlag, Seq<char>>(f),
            Err(e) => spec_rescan_flag(s@) == Err::<RescanFlag, Seq<char>>(e@),
        },
{
    let l = to_lower(s);
    if str_eq(l.as_str(), "true") {
        Ok(RescanFlag::Force(true))
    } else if str_eq(l.as_str(), "false") {
        Ok(RescanFlag::Force(false))
    } else if str_eq(l.as_str(), "auto") {
        Ok(RescanFlag::Auto)
    } else {
        let mut m = own("rescan-existing must be one of 'true', 'false', or 'auto' (got ");
        append_str(&mut m, debug_quoted(l.as_str()).as_str());
        append_str(&mut m, ")");
        Err(m)
    }
}

// ---------------------------------------------------------------------------
// Asset record values
// ---------------------------------------------------------------------------

/// How a text reads as a floating-point number: not a number, a number
/// that is not finite, or a finite number with its JSON text.
pub enum FloatText {
    Invalid,
    NonFinite,
    Finite(String),
}

/// The value to store for `raw` in a field that currently holds
/// `current`: a numeric field takes an integer, else a finite number (as
/// `float` reads `raw`), an empty text clears it; a boolean field takes
/// `true` / `false` in any ASCII case, an empty text clears it; any other
/// field takes the text.
pub open spec fn spec_coerce(
    current: Option<JsonModel>,
    raw: Seq<char>,
    float: FloatText,
) -> Result<JsonModel, Seq<char>> {
    match current {
        Some(JsonModel::Number(_)) => if raw.len() == 0 {
            Ok(JsonModel::Null)
        } else if parse_i64_spec(raw) is Some {
            Ok(JsonModel::Number(dec_int(parse_i64_spec(raw)->0 as int)))
        } else {
            match float {
                FloatText::Finite(t) => Ok(JsonModel::Number(t@)),
                FloatText::NonFinite => Err(
                    "field is numeric on the server but value "@ + debug_str(raw)
                        + " is not a finite number"@,
                ),
                FloatText::Invalid => Err(
                    "field is numeric on the server; cannot set to non-numeric value "@
                        + debug_str(raw),
                ),
            }
        },
        Some(JsonModel::Bool(_)) => if raw.len() == 0 {
            Ok(JsonModel::Null)
        } else if lower_seq(raw) == "true"@ {
            Ok(JsonModel::Bool(true))
        } else if lower_seq(raw) == "false"@ {
            Ok(JsonModel::Bool(false))
        } else {
            Err(
                "field is boolean on the server; cannot set to "@ + debug_str(raw)
                    + " (use 'true' or 'false')"@,
            )
        },
        _ => Ok(JsonModel::Str(raw)),
    }
}

/// The value to store for `raw` (see [`spec_coerce`]); `float` is how
/// `raw` reads as a floating-point number.
pub fn coerce_value_to_field_type(current: Option<&Value>, raw: &str, float: FloatText) -> (r:
    Result<Value, String>)
    ensures
        match r {
            Ok(v) => spec_coerce(
                match current {
                    Some(c) => Some(c@),
                    None => None,
                },
                raw@,
                float,
            ) == Ok::<JsonModel, Seq<char>>(v@),
            Err(e) => spec_coerce(
                match current {
                    Some(c) => Some(c@),
                    None => None,
                },
                raw@,
                float,
            ) == Err::<JsonModel, Seq<char>>(e@),
        },
{
    let empty = crate::text::chars_of(raw).len() == 0;
    match current {
        Some(Value::Number(_)) => {
            if empty {
                Ok(Value::Null)
            } else {
                match parse_i64(raw) {
                    Some(i) => Ok(Value::Number(fmt_i64(i))),
                    None => match float {
                        FloatText::Finite(t) => Ok(Value::Number(t)),
                        FloatText::NonFinite => {
                            let mut m = own("field is numeric on the server but value ");
                            append_str(&mut m, debug_quoted(raw).as_str());
                            append_str(&mut m, " is not a finite number");
                            Err(m)
                        },
                        FloatText::Invalid => {
                            let mut m = own(
                                "field is numeric on the server; cannot set to non-numeric value ",
                            );
                            append_str(&mut m, debug_quoted(raw).as_str());
                            Err(m)
                        },
                    },
                }
            }
        },
        Some(Value::Bool(_)) => {
            if empty {
                Ok(Value::Null)
            } else {
                let l = to_lower(raw);
                if str_eq(l.as_str(), "true") {
                    Ok(Value::Bool(true))
                } else if str_eq(l.as_str(), "false") {
                    Ok(Value::Bool(false))
                } else {
                    let mut m = own("field is boolean on the server; cannot set to ");
                    append_str(&mut m, debug_quoted(raw).as_str());
                    append_str(&mut m, " (use 'true' or 'false')");
                    Err(m)
                }
            }
        },
        _ => Ok(Value::Str(own(raw))),
    }
}

/// How an asset value shows in the table listing: nothing for null or
/// an empty text, the text itself, `true` / `false`, the number's text,
/// and `(json) ` before the JSON text of an array or object.
pub open spec fn spec_field_for_table(v: JsonModel) -> Option<Seq<char>> {
    match v {
        JsonModel::Null => None,
        JsonModel::Str(s) => if s.len() == 0 {
            None
        } else {
            Some(s)
        },
        JsonModel::Bool(b) => Some(
            if b {
                "true"@
            } else {
                "false"@
            },
        ),
        JsonModel::Number(n) => Some(n),
        _ => Some("(json) "@ + json_text(v)),
    }
}

/// How an asset value shows in the table listing (see
/// [`spec_field_for_table`]).
pub fn format_field_for_table(v: &Value) -> (r: Option<String>)
    ensures
        match r {
            Some(s) => spec_field_for_table(v@) == Some(s@),
            None => spec_field_for_table(v@) is None,
        },
{
    match v {
        Value::Null => None,
        Value::Str(s) => {
            if crate::text::chars_of(s.as_str()).len() == 0 {
                None
            } else {
                Some(s.clone())
            }
        },
        Value::Bool(b) => Some(own(if *b { "true" } else { "false" })),
        Value::Number(n) => Some(n.clone()),
        _ => {
            let mut m = own("(json) ");
            append_str(&mut m, to_json(v).as_str());
            Some(m)
        },
    }
}

// ---------------------------------------------------------------------------
// Delete confirmation
// ---------------------------------------------------------------------------

/// The confirmation asked before purging a requisition: its name, node
/// count and last import (as a UTC time when the epoch milliseconds are
/// positive, else "never imported").
pub open spec fn delete_prompt(fs: Seq<char>, node_count: nat, last_import_ms: Option<i64>) -> Seq<
    char,
> {
    let clause = match last_import_ms {
        Some(ms) => if ms > 0 {
            ", last imported "@ + unix_ts_text(ms as int / 1000)
        } else {
            ", never imported"@
        },
        None => ", never imported"@,
    };
    "About to purge Requisition/"@ + fs + " ("@ + dec(node_count) + " node(s)"@ + clause
        + "). This deletes BOTH pending and deployed snapshots and cannot be undone.\nType 'yes' or 'y' to confirm (case-insensitive): "@
}

/// The confirmation asked before purging a requisition (see
/// [`delete_prompt`]).
pub fn format_delete_confirmation_prompt(fs: &str, node_count: usize, last_import_ms: Option<i64>) -> (s:
    String)
    ensures
        s@ == delete_prompt(fs@, node_count as nat, last_import_ms),
{
    let clause = match last_import_ms {
        Some(ms) => {
            if ms > 0 {
                let mut c = own(", last imported ");
                append_str(&mut c, format_unix_ts(ms / 1000).as_str());
                c
            } else {
                own(", never imported")
            }
        },
        None => own(", never imported"),
    };
    let mut s = own("About to purge Requisition/");
    append_str(&mut s, fs);
    append_str(&mut s, " (");
    append_str(&mut s, fmt_usize(node_count).as_str());
    append_str(&mut s, " node(s)");
    append_str(&mut s, clause.as_str());
    append_str(
        &mut s,
        "). This deletes BOTH pending and deployed snapshots and cannot be undone.\nType 'yes' or 'y' to confirm (case-insensitive): ",
    );
    s
}

/// Whether an answer confirms the purge: `yes` or `y` in any ASCII case,
/// around whitespace.
pub open spec fn spec_is_confirmation(line: Seq<char>) -> bool {
    let l = lower_seq(trim_spec(line));
    l == "yes"@ || l == "y"@
}

/// Whether an answer confirms the purge (see [`spec_is_confirmation`]).
pub fn is_delete_confirmation(line: &str) -> (b: bool)
    ensures
        b == spec_is_confirmation(line@),
{
    let t = trim(line);
    let l = to_lower(t.as_str());
    str_eq(l.as_str(), "yes") || str_eq(l.as_str(), "y")
}

/// The refusal to purge without `--yes` when not both stdin and stderr
/// are terminals, naming which is not.
pub open spec fn refusal_text(fs: Seq<char>, stdin_tty: bool, stderr_tty: bool) -> Seq<char> {
    let which = if !stdin_tty && !stderr_tty {
        "stdin and stderr are not terminals"@
    } else if !stdin_tty {
        "stdin is not a terminal"@
    } else {
        "stderr is not a terminal (redirected?)"@
    };
    "error: `requisition delete "@ + fs
        + "` requires --yes in non-interactive contexts ("@ + which
        + "). Re-run with: onmsctl requisition delete "@ + fs
        + " --yes — this guards a destructive operation that purges both pending and deployed snapshots in a single call."@
}

/// The refusal to purge without `--yes` outside a terminal.
pub fn non_interactive_refusal(fs: &str, stdin_tty: bool, stderr_tty: bool) -> (s: String)
    requires
        !(stdin_tty && stderr_tty),
    ensures
        s@ == refusal_text(fs@, stdin_tty, stderr_tty),
{
    let which = if !stdin_tty && !stderr_tty {
        "stdin and stderr are not terminals"
    } else if !stdin_tty {
        "stdin is not a terminal"
    } else {
        "stderr is not a terminal (redirected?)"
    };
    let mut s = own("error: `requisition delete ");
    append_str(&mut s, fs);
    append_str(&mut s, "` requires --yes in non-interactive contexts (");
    append_str(&mut s, which);
    append_str(&mut s, "). Re-run with: onmsctl requisition delete ");
    append_str(&mut s, fs);
    append_str(
        &mut s,
        " --yes — this guards a destructive operation that purges both pending and deployed snapshots in a single call.",
    );
    s
}

/// The largest `kind: Requisition` file `apply` reads, in bytes.
pub const MAX_INPUT_BYTES: u64 = 16777216;

/// The notes on flags that have no effect in the chosen mode: `--diff` and
/// `--explain-rescan` with several files, `--stop-on-error` with one.
pub open spec fn mode_notes_text(multi: bool, diff: bool, explain_rescan: bool, stop_on_error: bool) -> Seq<Seq<char>> {
    if multi {
        (if diff {
            seq!["note: --diff has no effect in multi-file mode (use --dry-run + -o yaml for a per-file preview)"@]
        } else {
            Seq::empty()
        }) + (if explain_rescan {
            seq!["note: --explain-rescan has no effect in multi-file mode (use it per-file with --dry-run)"@]
        } else {
            Seq::empty()
        })
    } else if stop_on_error {
        seq!["note: --stop-on-error has no effect in single-file mode (use it with --file <dir>)"@]
    } else {
        Seq::empty()
    }
}

/// The notes on flags that have no effect in the chosen mode (see
/// [`mode_notes_text`]).
pub fn apply_mode_notes(multi: bool, diff: bool, explain_rescan: bool, stop_on_error: bool) -> (v: Vec<String>)
    ensures
        strs(v@) == mode_notes_text(multi, diff, explain_rescan, stop_on_error),
{
    let mut v: Vec<String> = Vec::new();
    if multi {
        if diff {
            v.push(own("note: --diff has no effect in multi-file mode (use --dry-run + -o yaml for a per-file preview)"));
        }
        let ghost first = strs(v@);
        if explain_rescan {
            v.push(own("note: --explain-rescan has no effect in multi-file mode (use it per-file with --dry-run)"));
            assert(strs(v@) =~= first + seq![
                "note: --explain-rescan has no effect in multi-file mode (use it per-file with --dry-run)"@,
            ]);
        } else {
            assert(strs(v@) =~= first + Seq::<Seq<char>>::empty());
        }
    } else if stop_on_error {
        v.push(own("note: --stop-on-error has no effect in single-file mode (use it with --file <dir>)"));
    }
    assert(strs(v@) =~= mode_notes_text(multi, diff, explain_rescan, stop_on_error));
    v
}

/// The refusal of a file over the input cap.
pub open spec fn too_large_text(path: Seq<char>, len: u64) -> Seq<char> {
    path + " is "@ + dec(len as nat) + " bytes, exceeds apply input cap of "@ + dec(MAX_INPUT_BYTES as nat)
        + " bytes"@
}

/// Refuses a file over [`MAX_INPUT_BYTES`].
pub fn check_input_size(path: &str, len: u64) -> (r: Result<(), String>)
    ensures
        match r {
            Ok(()) => len <= MAX_INPUT_BYTES,
            Err(m) => len > MAX_INPUT_BYTES && m@ == too_large_text(path@, len),
        },
{
    if len <= MAX_INPUT_BYTES {
        return Ok(());
    }
    let mut s = own(path);
    append_str(&mut s, " is ");
    append_str(&mut s, fmt_u64(len).as_str());
    append_str(&mut s, " bytes, exceeds apply input cap of ");
    append_str(&mut s, fmt_u64(MAX_INPUT_BYTES).as_str());
    append_str(&mut s, " bytes");
    Err(s)
}

/// Whether `--wait` waits: only after an apply that triggered an import.
pub fn waits_for_import(wait: bool, state: ApplyState) -> (b: bool)
    ensures
        b == (wait && (state == ApplyState::Created || state == ApplyState::Updated)),
{
    wait && match state {
        ApplyState::Created | ApplyState::Updated => true,
        _ => false,
    }
}

/// The line reporting a completed import.
pub open spec fn import_completed_text(name: Seq<char>, ts: i64) -> Seq<char> {
    "Requisition/"@ + name + ": import completed (last-import-ms="@ + dec_int(ts as int) + ")"@
}

/// The line reporting a completed import.
pub fn import_completed_line(name: &str, ts: i64) -> (s: String)
    ensures
        s@ == import_completed_text(name@, ts),
{
    let mut s = own("Requisition/");
    append_str(&mut s, name);
    append_str(&mut s, ": import completed (last-import-ms=");
    append_str(&mut s, fmt_i64(ts).as_str());
    append_str(&mut s, ")");
    s
}

/// The note when the requisition is already gone before confirmation.
pub open spec fn preflight_note_text(fs: Seq<char>) -> Seq<char> {
    "note: requisition '"@ + fs
        + "' is not present on the server (pre-confirm GET returned 404); skipping confirmation."@
}

/// The note when the requisition is already gone before confirmation.
pub fn preflight_absent_note(fs: &str) -> (s: String)
    ensures
        s@ == preflight_note_text(fs@),
{
    let mut s = own("note: requisition '");
    append_str(&mut s, fs);
    append_str(&mut s, "' is not present on the server (pre-confirm GET returned 404); skipping confirmation.");
    s
}

/// The error when the operator declines the purge; `eof` when the input
/// ended instead of answering.
pub open spec fn cancelled_text(fs: Seq<char>, eof: bool) -> Seq<char> {
    if eof {
        "delete cancelled by operator (EOF on stdin): "@ + fs
    } else {
        "delete cancelled by operator: "@ + fs
    }
}

/// The error when the operator declines the purge.
pub fn delete_cancelled(fs: &str, eof: bool) -> (s: String)
    ensures
        s@ == cancelled_text(fs@, eof),
{
    let mut s = if eof {
        own("delete cancelled by operator (EOF on stdin): ")
    } else {
        own("delete cancelled by operator: ")
    };
    append_str(&mut s, fs);
    s
}

/// The warning of a half-done purge: the pending snapshot was deleted but
/// deleting the deployed one failed.
pub open spec fn half_purged_text(fs: Seq<char>) -> Seq<char> {
    "warning: Requisition/"@ + fs
        + " — pending snapshot was deleted, but the deployed snapshot DELETE failed; server is now in a half-purged state. Run `onmsctl requisition status "@
        + fs + "` to check, and re-run `requisition delete "@ + fs
        + "` to retry the deployed purge."@
}

/// The warning when deleting the deployed snapshot failed: present only
/// when the pending snapshot was really deleted before.
pub fn half_purged_warning(fs: &str, pending_absent: bool) -> (r: Option<String>)
    ensures
        match r {
            Some(s) => !pending_absent && s@ == half_purged_text(fs@),
            None => pending_absent,
        },
{
    if pending_absent {
        return None;
    }
    let mut s = own("warning: Requisition/");
    append_str(&mut s, fs);
    append_str(
        &mut s,
        " — pending snapshot was deleted, but the deployed snapshot DELETE failed; server is now in a half-purged state. Run `onmsctl requisition status ",
    );
    append_str(&mut s, fs);
    append_str(&mut s, "` to check, and re-run `requisition delete ");
    append_str(&mut s, fs);
    append_str(&mut s, "` to retry the deployed purge.");
    Some(s)
}

/// The note of a purge that found nothing to delete.
pub open spec fn noop_note_text(fs: Seq<char>) -> Seq<char> {
    "note: Requisition/"@ + fs
        + " was not present on the server (both pending and deployed snapshots returned 404); delete was a no-op."@
}

/// The stderr echo of a confirmed purge.
pub open spec fn purged_echo_text(fs: Seq<char>) -> Seq<char> {
    "Requisition/"@ + fs + " deleted (pending + deployed snapshots purged)."@
}

/// The table line of a purge.
pub open spec fn purged_line_text(fs: Seq<char>) -> Seq<char> {
    "Requisition/"@ + fs + ": deleted (pending + deployed snapshots purged)\n"@
}

/// What a finished purge tells the operator on stderr: the no-op note when
/// both snapshots were already absent (unless the check before
/// confirmation said so already), and the echo of a purge the operator
/// confirmed that did delete something.
pub fn delete_notes(
    fs: &str,
    pending_absent: bool,
    deployed_absent: bool,
    preflight_noted: bool,
    confirmed_interactively: bool,
) -> (r: (Option<String>, Option<String>))
    ensures
        match r.0 {
            Some(s) => pending_absent && deployed_absent && !preflight_noted && s@ == noop_note_text(fs@),
            None => !(pending_absent && deployed_absent && !preflight_noted),
        },
        match r.1 {
            Some(s) => confirmed_interactively && !(pending_absent && deployed_absent) && s@
                == purged_echo_text(fs@),
            None => !(confirmed_interactively && !(pending_absent && deployed_absent)),
        },
{
    let noop = if pending_absent && deployed_absent && !preflight_noted {
        let mut s = own("note: Requisition/");
        append_str(&mut s, fs);
        append_str(
            &mut s,
            " was not present on the server (both pending and deployed snapshots returned 404); delete was a no-op.",
        );
        Some(s)
    } else {
        None
    };
    let echo = if confirmed_interactively && !(pending_absent && deployed_absent) {
        let mut s = own("Requisition/");
        append_str(&mut s, fs);
        append_str(&mut s, " deleted (pending + deployed snapshots purged).");
        Some(s)
    } else {
        None
    };
    (noop, echo)
}

/// The table line of a purge.
pub fn delete_table_line(fs: &str) -> (s: String)
    ensures
        s@ == purged_line_text(fs@),
{
    let mut s = own("Requisition/");
    append_str(&mut s, fs);
    append_str(&mut s, ": deleted (pending + deployed snapshots purged)\n");
    s
}

/// Where a purge stands.
#[derive(Clone, Copy, Debug, PartialEq, Eq, Structural)]
pub enum DeletePhase {
    /// Nothing asked yet.
    Start,
    /// Reading the requisition to show what would be purged.
    Probing,
    /// The prompt is shown; waiting for the operator's answer.
    Prompted,
    /// Deleting the pending snapshot.
    DeletingPending,
    /// Deleting the deployed snapshot.
    DeletingDeployed,
    /// Over.
    Finished,
}

/// A purge of requisition `fs` in progress.
pub struct DeleteState {
    pub fs: String,
    pub phase: DeletePhase,
    /// The operator confirmed a requisition that the probe found.
    pub confirmed: bool,
    /// The probe found nothing and said so.
    pub preflight_noted: bool,
    /// Deleting the pending snapshot answered that it was absent.
    pub pending_absent: bool,
}

/// What happened since the last step.
pub enum DeleteEvent {
    /// The command starts: whether `--yes` was given, and whether standard
    /// input and standard error are terminals.
    Begin { yes: bool, stdin_tty: bool, stderr_tty: bool },
    /// The probe found the requisition.
    Found { node_count: usize, last_import_ms: Option<i64> },
    /// The probe answered that the requisition is absent.
    NotFound,
    /// The operator answered this line.
    Answer(String),
    /// The input ended before an answer.
    AnswerEof,
    /// The DELETE succeeded.
    Deleted,
    /// The DELETE answered that the snapshot is absent (404).
    Absent,
    /// The request (or reading the answer) failed with this error.
    Failed(String),
}

/// What the purge does next.
pub enum DeleteAction {
    /// Read the requisition.
    Probe,
    /// Show this prompt and read the answer.
    Prompt(String),
    /// Print the note (if any), then delete the pending snapshot.
    DeletePending(Option<String>),
    /// Delete the deployed snapshot.
    DeleteDeployed,
    /// Print the warning (if any) and end with this error.
    Fail(Option<String>, String),
    /// Done: whether the pending and the deployed snapshots were absent,
    /// and the no-op note and the echo to print (see [`delete_notes`]).
    Finish(bool, bool, Option<String>, Option<String>),
    /// The event does not belong to this phase: nothing changes.
    Ignore,
}

/// A purge of `fs` that has not started.
pub fn delete_start(fs: String) -> (s: DeleteState)
    ensures
        s.fs@ == fs@,
        s.phase == DeletePhase::Start,
        !s.confirmed && !s.preflight_noted && !s.pending_absent,
{
    DeleteState { fs, phase: DeletePhase::Start, confirmed: false, preflight_noted: false, pending_absent: false }
}

/// The step of a purge: with `--yes` it deletes at once; otherwise it
/// refuses outside a terminal, else reads the requisition and prompts for
/// confirmation (or, when the requisition is absent, notes that and goes
/// on without asking); any answer but a confirmation cancels. It deletes
/// the pending snapshot, then the deployed one, a 404 on either counting as
/// already absent; a failed pending delete ends with its error, a failed
/// deployed delete also warns of a half-done purge when the pending one
/// was deleted; at the end it reports what was absent and the notes.
pub fn delete_step(st: DeleteState, ev: DeleteEvent) -> (r: (DeleteState, DeleteAction))
    ensures
        r.0.fs@ == st.fs@,
        match (st.phase, ev) {
            (DeletePhase::Start, DeleteEvent::Begin { yes, stdin_tty, stderr_tty }) => if yes {
                r.1 matches DeleteAction::DeletePending(None) && r.0.phase == DeletePhase::DeletingPending
                    && r.0.confirmed == st.confirmed && r.0.preflight_noted == st.preflight_noted
            } else if stdin_tty && stderr_tty {
                r.0.phase == DeletePhase::Probing && r.1 is Probe && r.0.confirmed == st.confirmed && r.0.preflight_noted == st.preflight_noted
            } else {
                r.1 matches DeleteAction::Fail(None, e) && r.0.phase == DeletePhase::Finished && e@
                    == refusal_text(st.fs@, stdin_tty, stderr_tty)
            },
            (DeletePhase::Probing, DeleteEvent::Found { node_count, last_import_ms }) => r.1 matches DeleteAction::Prompt(p)
                && r.0.phase == DeletePhase::Prompted && p@ == delete_prompt(
                st.fs@,
                node_count as nat,
                last_import_ms,
            ) && r.0.confirmed == st.confirmed && r.0.preflight_noted == st.preflight_noted,
            (DeletePhase::Probing, DeleteEvent::NotFound) => r.1 matches DeleteAction::DeletePending(Some(n))
                && r.0.phase == DeletePhase::DeletingPending && n@ == preflight_note_text(st.fs@)
                && r.0.preflight_noted && r.0.confirmed == st.confirmed,
            (DeletePhase::Prompted, DeleteEvent::Answer(line)) => if spec_is_confirmation(line@) {
                r.1 matches DeleteAction::DeletePending(None) && r.0.phase == DeletePhase::DeletingPending
                    && r.0.confirmed && r.0.preflight_noted == st.preflight_noted
            } else {
                r.1 matches DeleteAction::Fail(None, e) && r.0.phase == DeletePhase::Finished && e@
                    == cancelled_text(st.fs@, false)
            },
            (DeletePhase::Prompted, DeleteEvent::AnswerEof) => r.1 matches DeleteAction::Fail(None, e)
                && r.0.phase == DeletePhase::Finished && e@ == cancelled_text(st.fs@, true),
            (DeletePhase::DeletingPending, DeleteEvent::Deleted) => r.0.phase == DeletePhase::DeletingDeployed
                && r.1 is DeleteDeployed && !r.0.pending_absent && r.0.confirmed == st.confirmed
                && r.0.preflight_noted == st.preflight_noted,
            (DeletePhase::DeletingPending, DeleteEvent::Absent) => r.0.phase == DeletePhase::DeletingDeployed
                && r.1 is DeleteDeployed && r.0.pending_absent && r.0.confirmed == st.confirmed
                && r.0.preflight_noted == st.preflight_noted,
            (DeletePhase::DeletingDeployed, DeleteEvent::Deleted) => r.1 matches DeleteAction::Finish(pa, da, n0, n1)
                && r.0.phase == DeletePhase::Finished && pa == st.pending_absent && !da && n0 is None && (match n1 {
                Some(s) => st.confirmed && s@ == purged_echo_text(st.fs@),
                None => !st.confirmed,
            }),
            (DeletePhase::DeletingDeployed, DeleteEvent::Absent) => r.1 matches DeleteAction::Finish(pa, da, n0, n1)
                && r.0.phase == DeletePhase::Finished && pa == st.pending_absent && da && (match n0 {
                Some(s) => st.pending_absent && !st.preflight_noted && s@ == noop_note_text(st.fs@),
                None => !(st.pending_absent && !st.preflight_noted),
            }) && (match n1 {
                Some(s) => st.confirmed && !st.pending_absent && s@ == purged_echo_text(st.fs@),
                None => !(st.confirmed && !st.pending_absent),
            }),
            (DeletePhase::DeletingDeployed, DeleteEvent::Failed(e)) => r.1 matches DeleteAction::Fail(w, m)
                && r.0.phase == DeletePhase::Finished && m@ == e@ && (match w {
                Some(s) => !st.pending_absent && s@ == half_purged_text(st.fs@),
                None => st.pending_absent,
            }),
            (DeletePhase::Probing, DeleteEvent::Failed(e)) => r.1 matches DeleteAction::Fail(None, m)
                && r.0.phase == DeletePhase::Finished && m@ == e@,
            (DeletePhase::Prompted, DeleteEvent::Failed(e)) => r.1 matches DeleteAction::Fail(None, m)
                && r.0.phase == DeletePhase::Finished && m@ == e@,
            (DeletePhase::DeletingPending, DeleteEvent::Failed(e)) => r.1 matches DeleteAction::Fail(None, m)
                && r.0.phase == DeletePhase::Finished && m@ == e@,
            _ => r.0.phase == st.phase && r.1 is Ignore && r.0.confirmed == st.confirmed
                && r.0.preflight_noted == st.preflight_noted && r.0.pending_absent == st.pending_absent,
        },
{
    let mut st = st;
    match (st.phase, ev) {
        (DeletePhase::Start, DeleteEvent::Begin { yes, stdin_tty, stderr_tty }) => {
            if yes {
                st.phase = DeletePhase::DeletingPending;
                (st, DeleteAction::DeletePending(None))
            } else if stdin_tty && stderr_tty {
                st.phase = DeletePhase::Probing;
                (st, DeleteAction::Probe)
            } else {
                let e = non_interactive_refusal(st.fs.as_str(), stdin_tty, stderr_tty);
                st.phase = DeletePhase::Finished;
                (st, DeleteAction::Fail(None, e))
            }
        },
        (DeletePhase::Probing, DeleteEvent::Found { node_count, last_import_ms }) => {
            let p = format_delete_confirmation_prompt(st.fs.as_str(), node_count, last_import_ms);
            st.phase = DeletePhase::Prompted;
            (st, DeleteAction::Prompt(p))
        },
        (DeletePhase::Probing, DeleteEvent::NotFound) => {
            let n = preflight_absent_note(st.fs.as_str());
            st.phase = DeletePhase::DeletingPending;
            st.preflight_noted = true;
            (st, DeleteAction::DeletePending(Some(n)))
        },
        (DeletePhase::Prompted, DeleteEvent::Answer(line)) => {
            if is_delete_confirmation(line.as_str()) {
                st.phase = DeletePhase::DeletingPending;
                st.confirmed = true;
                (st, DeleteAction::DeletePending(None))
            } else {
                let e = delete_cancelled(st.fs.as_str(), false);
                st.phase = DeletePhase::Finished;
                (st, DeleteAction::Fail(None, e))
            }
        },
        (DeletePhase::Prompted, DeleteEvent::AnswerEof) => {
            let e = delete_cancelled(st.fs.as_str(), true);
            st.phase = DeletePhase::Finished;
            (st, DeleteAction::Fail(None, e))
        },
        (DeletePhase::DeletingPending, DeleteEvent::Deleted) => {
            st.phase = DeletePhase::DeletingDeployed;
            st.pending_absent = false;
            (st, DeleteAction::DeleteDeployed)
        },
        (DeletePhase::DeletingPending, DeleteEvent::Absent) => {
            st.phase = DeletePhase::DeletingDeployed;
            st.pending_absent = true;
            (st, DeleteAction::DeleteDeployed)
        },
        (DeletePhase::DeletingDeployed, DeleteEvent::Deleted) => {
            let (n0, n1) = delete_notes(st.fs.as_str(), st.pending_absent, false, st.preflight_noted, st.confirmed);
            st.phase = DeletePhase::Finished;
            let pa = st.pending_absent;
            (st, DeleteAction::Finish(pa, false, n0, n1))
        },
        (DeletePhase::DeletingDeployed, DeleteEvent::Absent) => {
            let (n0, n1) = delete_notes(st.fs.as_str(), st.pending_absent, true, st.preflight_noted, st.confirmed);
            st.phase = DeletePhase::Finished;
            let pa = st.pending_absent;
            (st, DeleteAction::Finish(pa, true, n0, n1))
        },
        (DeletePhase::DeletingDeployed, DeleteEvent::Failed(e)) => {
            let w = half_purged_warning(st.fs.as_str(), st.pending_absent);
            st.phase = DeletePhase::Finished;
            (st, DeleteAction::Fail(w, e))
        },
        (DeletePhase::Probing, DeleteEvent::Failed(e)) => {
            st.phase = DeletePhase::Finished;
            (st, DeleteAction::Fail(None, e))
        },
        (DeletePhase::Prompted, DeleteEvent::Failed(e)) => {
            st.phase = DeletePhase::Finished;
            (st, DeleteAction::Fail(None, e))
        },
        (DeletePhase::DeletingPending, DeleteEvent::Failed(e)) => {
            st.phase = DeletePhase::Finished;
            (st, DeleteAction::Fail(None, e))
        },
        _ => (st, DeleteAction::Ignore),
    }
}

// ---------------------------------------------------------------------------
// Listings
// ---------------------------------------------------------------------------

/// The concatenation of a list of texts.
pub open spec fn concat_texts(s: Seq<Seq<char>>) -> Seq<char>
    decreases s.len(),
{
    if s.len() == 0 {
        Seq::empty()
    } else {
        concat_texts(s.drop_last()) + s.last()
    }
}

/// A table listing: the placeholder line when there are no lines, else
/// the lines in order.
pub open spec fn listing_text(lines: Seq<Seq<char>>, none: Seq<char>) -> Seq<char> {
    if lines.len() == 0 {
        none + "\n"@
    } else {
        concat_texts(lines)
    }
}

/// A name on a line of its own.
pub open spec fn name_line(n: Seq<char>) -> Seq<char> {
    n + "\n"@
}

/// The line of a node: foreign id, two spaces, label, and its location
/// when set.
pub open spec fn node_line(n: NodeServerModel) -> Seq<char> {
    n.foreign_id + "  "@ + n.node_label + match n.location {
        Some(l) => " location="@ + l,
        None => Seq::empty(),
    } + "\n"@
}

/// The line of an interface: address, its SNMP role and its status when
/// set.
pub open spec fn interface_line(i: InterfaceServerModel) -> Seq<char> {
    i.ip_addr + "  snmp-primary="@ + i.snmp_primary + match i.status {
        Some(s) => " status="@ + dec_int(s as int),
        None => Seq::empty(),
    } + "\n"@
}

fn listing(lines: Vec<String>, none: &str) -> (s: String)
    ensures
        s@ == listing_text(strs(lines@), none@),
{
    proof {
        reveal_strlit("\n");
    }
    if lines.len() == 0 {
        let mut s = own(none);
        append_str(&mut s, "\n");
        return s;
    }
    let mut s = String::new();
    let mut i: usize = 0;
    let ghost m = strs(lines@);
    assert(m.take(0) =~= Seq::<Seq<char>>::empty());
    while i < lines.len()
        invariant
            i <= lines.len(),
            m == strs(lines@),
            s@ == concat_texts(m.take(i as int)),
        decreases lines.len() - i,
    {
        assert(m.take(i + 1).drop_last() =~= m.take(i as int));
        assert(m.take(i + 1).last() == lines@[i as int]@);
        append_str(&mut s, lines[i].as_str());
        i = i + 1;
    }
    assert(m.take(lines.len() as int) =~= m);
    s
}

/// The table of requisition names: one per line, or `(no requisitions)`.
pub fn requisitions_table(names: &Vec<String>) -> (s: String)
    ensures
        s@ == listing_text(strs(names@).map_values(|n: Seq<char>| name_line(n)), "(no requisitions)"@),
{
    let mut lines: Vec<String> = Vec::new();
    let mut i: usize = 0;
    while i < names.len()
        invariant
            i <= names.len(),
            strs(lines@) == strs(names@).take(i as int).map_values(|n: Seq<char>| name_line(n)),
        decreases names.len() - i,
    {
        let mut l = names[i].clone();
        append_str(&mut l, "\n");
        let ghost before = strs(lines@);
        let ghost li = l@;
        lines.push(l);
        assert(strs(lines@) =~= before.push(li));
        assert(li == name_line(strs(names@)[i as int]));
        assert(strs(names@).take(i + 1).map_values(|n: Seq<char>| name_line(n)) =~= strs(names@).take(
            i as int,
        ).map_values(|n: Seq<char>| name_line(n)).push(name_line(strs(names@)[i as int])));
        i = i + 1;
    }
    assert(strs(names@).take(names.len() as int) =~= strs(names@));
    listing(lines, "(no requisitions)")
}

/// The table of a node's categories: one per line, or `(no categories)`.
pub fn categories_table(names: &Vec<String>) -> (s: String)
    ensures
        s@ == listing_text(strs(names@).map_values(|n: Seq<char>| name_line(n)), "(no categories)"@),
{
    let mut lines: Vec<String> = Vec::new();
    let mut i: usize = 0;
    while i < names.len()
        invariant
            i <= names.len(),
            strs(lines@) == strs(names@).take(i as int).map_values(|n: Seq<char>| name_line(n)),
        decreases names.len() - i,
    {
        let mut l = names[i].clone();
        append_str(&mut l, "\n");
        let ghost before = strs(lines@);
        let ghost li = l@;
        lines.push(l);
        assert(strs(lines@) =~= before.push(li));
        assert(li == name_line(strs(names@)[i as int]));
        assert(strs(names@).take(i + 1).map_values(|n: Seq<char>| name_line(n)) =~= strs(names@).take(
            i as int,
        ).map_values(|n: Seq<char>| name_line(n)).push(name_line(strs(names@)[i as int])));
        i = i + 1;
    }
    assert(strs(names@).take(names.len() as int) =~= strs(names@));
    listing(lines, "(no categories)")
}

/// The table of a requisition's nodes: one line per node, or `(no nodes)`.
pub fn nodes_table(nodes: &Vec<NodeServer>) -> (s: String)
    ensures
        s@ == listing_text(nodes@.map_values(|n: NodeServer| node_line(n@)), "(no nodes)"@),
{
    let mut lines: Vec<String> = Vec::new();
    let mut i: usize = 0;
    while i < nodes.len()
        invariant
            i <= nodes.len(),
            strs(lines@) == nodes@.take(i as int).map_values(|n: NodeServer| node_line(n@)),
        decreases nodes.len() - i,
    {
        let n = &nodes[i];
        let mut l = n.foreign_id.clone();
        append_str(&mut l, "  ");
        append_str(&mut l, n.node_label.as_str());
        match &n.location {
            Some(loc) => {
                append_str(&mut l, " location=");
                append_str(&mut l, loc.as_str());
            },
            None => {},
        }
        append_str(&mut l, "\n");
        assert(l@ =~= node_line(n@));
        let ghost before = strs(lines@);
        let ghost li = l@;
        lines.push(l);
        assert(strs(lines@) =~= before.push(li));
        assert(nodes@.take(i + 1).map_values(|n: NodeServer| node_line(n@)) =~= nodes@.take(
            i as int,
        ).map_values(|n: NodeServer| node_line(n@)).push(node_line(nodes@[i as int]@)));
        i = i + 1;
    }
    assert(nodes@.take(nodes.len() as int) =~= nodes@);
    listing(lines, "(no nodes)")
}

/// The table of a node's interfaces: one line per interface, or
/// `(no interfaces)`.
pub fn interfaces_table(node: &NodeServer) -> (s: String)
    ensures
        s@ == listing_text(
            node@.interface.map_values(|i: InterfaceServerModel| interface_line(i)),
            "(no interfaces)"@,
        ),
{
    let mut lines: Vec<String> = Vec::new();
    let mut i: usize = 0;
    let ghost ifs = node@.interface;
    while i < node.interface.len()
        invariant
            i <= node.interface.len(),
            ifs == node@.interface,
            strs(lines@) == ifs.take(i as int).map_values(|x: InterfaceServerModel| interface_line(x)),
        decreases node.interface.len() - i,
    {
        let x = &node.interface[i];
        assert(ifs[i as int] == x@);
        let mut l = x.ip_addr.clone();
        append_str(&mut l, "  snmp-primary=");
        append_str(&mut l, x.snmp_primary.as_str());
        match x.status {
            Some(st) => {
                append_str(&mut l, " status=");
                append_str(&mut l, fmt_i64(st as i64).as_str());
            },
            None => {},
        }
        append_str(&mut l, "\n");
        assert(l@ =~= interface_line(x@));
        let ghost before = strs(lines@);
        let ghost li = l@;
        lines.push(l);
        assert(strs(lines@) =~= before.push(li));
        assert(ifs.take(i + 1).map_values(|y: InterfaceServerModel| interface_line(y)) =~= ifs.take(
            i as int,
        ).map_values(|y: InterfaceServerModel| interface_line(y)).push(interface_line(ifs[i as int])));
        i = i + 1;
    }
    assert(ifs.take(node.interface.len() as int) =~= ifs);
    listing(lines, "(no interfaces)")
}

// ---------------------------------------------------------------------------
// Reports
// ---------------------------------------------------------------------------

/// Epoch milliseconds as text, `<absent>` when unknown.
pub open spec fn ms_text(ms: Option<i64>) -> Seq<char> {
    match ms {
        Some(v) => dec_int(v as int),
        None => "<absent>"@,
    }
}

/// Epoch milliseconds as text (see [`ms_text`]).
pub fn opt_ms(ms: Option<i64>) -> (s: String)
    ensures
        s@ == ms_text(ms),
{
    match ms {
        Some(v) => fmt_i64(v),
        None => own("<absent>"),
    }
}

/// The largest exit code of the results (0 for none).
pub open spec fn worst_code(r: Seq<ConversionResult>) -> i32
    decreases r.len(),
{
    if r.len() == 0 {
        0
    } else {
        let w = worst_code(r.drop_last());
        let c = spec_exit_code(r.last().findings@);
        if c > w {
            c
        } else {
            w
        }
    }
}

/// The exit code of a conversion run: the worst of its results.
pub fn worst_exit_code(results: &Vec<ConversionResult>) -> (c: i32)
    ensures
        c == worst_code(results@),
{
    let mut worst: i32 = 0;
    let mut i: usize = 0;
    while i < results.len()
        invariant
            i <= results.len(),
            worst == worst_code(results@.take(i as int)),
        decreases results.len() - i,
    {
        assert(results@.take(i + 1).drop_last() == results@.take(i as int));
        let c = results[i].exit_code();
        if c > worst {
            worst = c;
        }
        i = i + 1;
    }
    assert(results@.take(results.len() as int) == results@);
    worst
}

/// The word for a severity.
pub open spec fn severity_word(s: Severity) -> Seq<char> {
    match s {
        Severity::Info => "info"@,
        Severity::Warning => "warning"@,
        Severity::Error => "error"@,
    }
}

/// A finding as reported: `<code> <severity>[ [<file>]]: <message>`.
pub open spec fn finding_text(f: FindingModel) -> Seq<char> {
    code_text(f.code) + " "@ + severity_word(f.severity) + (match f.source_path {
        Some(p) => " ["@ + p + "]"@,
        None => Seq::empty(),
    }) + ": "@ + f.message
}

/// A finding as reported (see [`finding_text`]).
pub fn finding_line(f: &Finding) -> (s: String)
    ensures
        s@ == finding_text(f@),
{
    let mut s = own(f.code.as_str());
    append_str(&mut s, " ");
    append_str(
        &mut s,
        match f.severity {
            Severity::Info => "info",
            Severity::Warning => "warning",
            Severity::Error => "error",
        },
    );
    if let Some(p) = &f.source_path {
        append_str(&mut s, " [");
        append_str(&mut s, p.as_str());
        append_str(&mut s, "]");
    }
    append_str(&mut s, ": ");
    append_str(&mut s, f.message.as_str());
    s
}

/// The refusal of an unknown finding code, listing the known ones.
pub open spec fn unknown_code_text(code: Seq<char>) -> Seq<char> {
    "unknown finding code '"@ + code + "'; known: PR001, PR002, PR003, PR004, PR005"@
}

/// The refusal of an unknown finding code.
pub fn unknown_code_message(code: &str) -> (s: String)
    ensures
        s@ == unknown_code_text(code@),
{
    let mut s = own("unknown finding code '");
    append_str(&mut s, code);
    append_str(&mut s, "'; known: PR001, PR002, PR003, PR004, PR005");
    s
}

/// The YAML documents of a conversion, in order, each but the first
/// preceded by a `---` line; results without a document are skipped.
pub open spec fn yaml_stream(r: Seq<ConversionResult>) -> Seq<char>
    decreases r.len(),
{
    if r.len() == 0 {
        Seq::empty()
    } else {
        let prev = yaml_stream(r.drop_last());
        match r.last().yaml {
            Some(y) => if has_yaml(r.drop_last()) {
                prev + "---\n"@ + y@
            } else {
                prev + y@
            },
            None => prev,
        }
    }
}

/// Whether some result carries a document.
pub open spec fn has_yaml(r: Seq<ConversionResult>) -> bool {
    exists|i: int| 0 <= i < r.len() && #[trigger] r[i].yaml is Some
}

/// The documents of a conversion as one stream for standard output (see
/// [`yaml_stream`]).
pub fn convert_stream(results: &Vec<ConversionResult>) -> (s: String)
    ensures
        s@ == yaml_stream(results@),
{
    let mut s = String::new();
    let mut first = true;
    let mut i: usize = 0;
    while i < results.len()
        invariant
            i <= results.len(),
            s@ == yaml_stream(results@.take(i as int)),
            first == !has_yaml(results@.take(i as int)),
        decreases results.len() - i,
    {
        let ghost t = results@.take(i as int);
        assert(results@.take(i + 1).drop_last() == t);
        assert(results@.take(i + 1).last() == results@[i as int]);
        match &results[i].yaml {
            Some(y) => {
                if !first {
                    append_str(&mut s, "---\n");
                }
                append_str(&mut s, y.as_str());
                first = false;
                assert(results@.take(i + 1)[i as int].yaml is Some);
            },
            None => {
                assert(has_yaml(results@.take(i + 1)) == has_yaml(t)) by {
                    if has_yaml(results@.take(i + 1)) {
                        let j = choose|j: int| 0 <= j < i + 1 && #[trigger] results@.take(i + 1)[j].yaml is Some;
                        assert(t[j] == results@.take(i + 1)[j]);
                    }
                    if has_yaml(t) {
                        let j = choose|j: int| 0 <= j < i && #[trigger] t[j].yaml is Some;
                        assert(t[j] == results@.take(i + 1)[j]);
                    }
                }
            },
        }
        i = i + 1;
    }
    assert(results@.take(results.len() as int) == results@);
    s
}

/// The refusal to write a document whose requisition name could leave the
/// output directory.
pub open spec fn unsafe_name_text(out_dir: Seq<char>, name: Seq<char>) -> Seq<char> {
    "refusing to write to '"@ + out_dir + "/"@ + name
        + ".yaml': foreign-source name contains path-unsafe characters (allowed: alphanumeric, '-', '_', '.')"@
}

/// The file name of a converted document under `out_dir`, or the refusal
/// when the requisition name is not a safe file name.
pub fn output_file_name(out_dir: &str, name: &str) -> (r: Result<String, String>)
    ensures
        match r {
            Ok(f) => spec_safe_filename(name@) && f@ == name@ + ".yaml"@,
            Err(m) => !spec_safe_filename(name@) && m@ == unsafe_name_text(out_dir@, name@),
        },
{
    if is_safe_filename(name) {
        let mut f = own(name);
        append_str(&mut f, ".yaml");
        Ok(f)
    } else {
        let mut m = own("refusing to write to '");
        append_str(&mut m, out_dir);
        append_str(&mut m, "/");
        append_str(&mut m, name);
        append_str(
            &mut m,
            ".yaml': foreign-source name contains path-unsafe characters (allowed: alphanumeric, '-', '_', '.')",
        );
        Err(m)
    }
}

/// The word for a plan state.
pub open spec fn plan_state_text(s: PlanState) -> Seq<char> {
    match s {
        PlanState::Unchanged => "unchanged"@,
        PlanState::WouldCreate => "would-create"@,
        PlanState::WouldUpdate => "would-update"@,
    }
}

/// The word for a plan state.
pub fn plan_state_word(s: PlanState) -> (r: &'static str)
    ensures
        r@ == plan_state_text(s),
{
    match s {
        PlanState::Unchanged => "unchanged",
        PlanState::WouldCreate => "would-create",
        PlanState::WouldUpdate => "would-update",
    }
}

/// The word for how an apply ended.
pub open spec fn state_text(s: ApplyState) -> Seq<char> {
    match s {
        ApplyState::Unchanged => "unchanged"@,
        ApplyState::DryRun => "dry-run"@,
        ApplyState::Created => "created"@,
        ApplyState::Updated => "updated"@,
    }
}

/// The word for how an apply ended.
pub fn state_word(s: ApplyState) -> (r: &'static str)
    ensures
        r@ == state_text(s),
{
    match s {
        ApplyState::Unchanged => "unchanged",
        ApplyState::DryRun => "dry-run",
        ApplyState::Created => "created",
        ApplyState::Updated => "updated",
    }
}

/// The word for a foreign-source action.
pub open spec fn fs_text(a: ForeignSourceAction) -> Seq<char> {
    match a {
        ForeignSourceAction::NoChange => "no-change"@,
        ForeignSourceAction::Created => "created"@,
        ForeignSourceAction::Updated => "updated"@,
        ForeignSourceAction::Deleted => "deleted"@,
    }
}

/// The word for a foreign-source action.
pub fn fs_word(a: ForeignSourceAction) -> (r: &'static str)
    ensures
        r@ == fs_text(a),
{
    match a {
        ForeignSourceAction::NoChange => "no-change",
        ForeignSourceAction::Created => "created",
        ForeignSourceAction::Updated => "updated",
        ForeignSourceAction::Deleted => "deleted",
    }
}

/// `true` or `false`.
pub open spec fn bool_text(b: bool) -> Seq<char> {
    if b {
        "true"@
    } else {
        "false"@
    }
}

fn bool_str(b: bool) -> (s: &'static str)
    ensures
        s@ == bool_text(b),
{
    if b {
        "true"
    } else {
        "false"
    }
}

/// The one-line report of a single apply.
pub open spec fn apply_summary_text(name: Seq<char>, o: ApplyOutcome) -> Seq<char> {
    "Requisition/"@ + name + ": "@ + state_text(o.state) + " (rescanExisting="@ + bool_text(
        o.rescan_existing,
    ) + ", foreignSource="@ + fs_text(o.foreign_source_action) + ")\n"@
}

/// The one-line report of a single apply.
pub fn apply_summary_line(name: &str, o: &ApplyOutcome) -> (s: String)
    ensures
        s@ == apply_summary_text(name@, *o),
{
    let mut s = own("Requisition/");
    append_str(&mut s, name);
    append_str(&mut s, ": ");
    append_str(&mut s, state_word(o.state));
    append_str(&mut s, " (rescanExisting=");
    append_str(&mut s, bool_str(o.rescan_existing));
    append_str(&mut s, ", foreignSource=");
    append_str(&mut s, fs_word(o.foreign_source_action));
    append_str(&mut s, ")\n");
    s
}

/// The lines listing leaf paths: `  - <path>` each.
pub open spec fn path_lines(p: Seq<Seq<char>>) -> Seq<char>
    decreases p.len(),
{
    if p.len() == 0 {
        Seq::empty()
    } else {
        path_lines(p.drop_last()) + "  - "@ + p.last() + "\n"@
    }
}

/// Why the import does or does not rescan existing nodes: the
/// scan-relevant leaves (none, or those that drive or would have driven
/// a rescan when the setting was forced the other way), then the
/// effective value.
pub open spec fn rescan_explanation(o: ApplyOutcome) -> Seq<char> {
    let leaves = strs(o.scan_relevant_leaves@);
    let auto = leaves.len() > 0;
    let head = if leaves.len() == 0 {
        "explain-rescan: no scan-relevant leaves in the diff — auto-decision would be rescanExisting=false.\n"@
    } else if auto != o.rescan_existing {
        "explain-rescan: "@ + dec(leaves.len())
            + " scan-relevant leaf path(s) would have driven rescanExisting=true per design §D3 (overridden by --rescan-existing flag):\n"@
            + path_lines(leaves)
    } else {
        "explain-rescan: "@ + dec(leaves.len())
            + " scan-relevant leaf path(s) drive rescanExisting=true per design §D3:\n"@ + path_lines(
            leaves,
        )
    };
    head + "Effective rescanExisting="@ + bool_text(o.rescan_existing) + "\n"@
}

/// Why the import does or does not rescan (see [`rescan_explanation`]).
pub fn explain_rescan_text(o: &ApplyOutcome) -> (s: String)
    ensures
        s@ == rescan_explanation(*o),
{
    let n = o.scan_relevant_leaves.len();
    let auto_would_be = n > 0;
    let overridden = auto_would_be != o.rescan_existing;
    let mut s = String::new();
    if n == 0 {
        append_str(
            &mut s,
            "explain-rescan: no scan-relevant leaves in the diff — auto-decision would be rescanExisting=false.\n",
        );
    } else {
        append_str(&mut s, "explain-rescan: ");
        append_str(&mut s, fmt_usize(n).as_str());
        if overridden {
            append_str(
                &mut s,
                " scan-relevant leaf path(s) would have driven rescanExisting=true per design §D3 (overridden by --rescan-existing flag):\n",
            );
        } else {
            append_str(
                &mut s,
                " scan-relevant leaf path(s) drive rescanExisting=true per design §D3:\n",
            );
        }
        let ghost leaves = strs(o.scan_relevant_leaves@);
        let ghost s0 = s@;
        let mut i: usize = 0;
        while i < n
            invariant
                i <= n,
                n == o.scan_relevant_leaves.len(),
                leaves == strs(o.scan_relevant_leaves@),
                s@ == s0 + path_lines(leaves.take(i as int)),
            decreases n - i,
        {
            append_str(&mut s, "  - ");
            append_str(&mut s, o.scan_relevant_leaves[i].as_str());
            append_str(&mut s, "\n");
            assert(leaves.take(i + 1).drop_last() == leaves.take(i as int));
            i = i + 1;
        }
        assert(leaves.take(n as int) == leaves);
    }
    append_str(&mut s, "Effective rescanExisting=");
    append_str(&mut s, bool_str(o.rescan_existing));
    append_str(&mut s, "\n");
    assert(s@ =~= rescan_explanation(*o));
    s
}

/// The hint printed when a write failed part-way.
pub open spec fn recovery_hint_text(name: Seq<char>) -> Seq<char> {
    "note: partial writes are possible for Requisition/"@ + name
        + " — the foreign-source POST, requisition POST, and import trigger run as separate calls. Run `onmsctl requisition status "@
        + name + "` to verify server state before retrying."@
}

/// The hint printed when a write failed part-way.
pub fn recovery_hint(name: &str) -> (s: String)
    ensures
        s@ == recovery_hint_text(name@),
{
    let mut s = own("note: partial writes are possible for Requisition/");
    append_str(&mut s, name);
    append_str(
        &mut s,
        " — the foreign-source POST, requisition POST, and import trigger run as separate calls. Run `onmsctl requisition status ",
    );
    append_str(&mut s, name);
    append_str(&mut s, "` to verify server state before retrying.");
    s
}


// ---------------------------------------------------------------------------
// Multi-file reports
// ---------------------------------------------------------------------------

/// The word for how a multi-file apply ended.
pub open spec fn multi_state_text(s: MultiApplyState) -> Seq<char> {
    match s {
        MultiApplyState::AbortedPhase1 => "aborted (phase 1)"@,
        MultiApplyState::Completed => "completed"@,
        MultiApplyState::StoppedEarly => "stopped early"@,
    }
}

/// The word for how a multi-file apply ended.
pub fn multi_state_word(s: MultiApplyState) -> (r: &'static str)
    ensures
        r@ == multi_state_text(s),
{
    match s {
        MultiApplyState::AbortedPhase1 => "aborted (phase 1)",
        MultiApplyState::Completed => "completed",
        MultiApplyState::StoppedEarly => "stopped early",
    }
}

/// The number of failed files.
pub open spec fn failures(r: Seq<MultiApplyFileResult>) -> nat
    decreases r.len(),
{
    if r.len() == 0 {
        0
    } else {
        failures(r.drop_last()) + (if r.last().outcome is Err {
            1nat
        } else {
            0nat
        })
    }
}

/// The number of failed files of a multi-file apply.
pub fn count_failures(o: &MultiApplyOutcome) -> (n: usize)
    ensures
        n == failures(o.results@),
        n <= o.results.len(),
{
    let mut n: usize = 0;
    let mut i: usize = 0;
    while i < o.results.len()
        invariant
            i <= o.results.len(),
            n == failures(o.results@.take(i as int)),
            n <= i,
        decreases o.results.len() - i,
    {
        assert(o.results@.take(i + 1).drop_last() == o.results@.take(i as int));
        if o.results[i].outcome.is_err() {
            n = n + 1;
        }
        i = i + 1;
    }
    assert(o.results@.take(o.results.len() as int) == o.results@);
    n
}

/// A text, or a fallback when absent.
pub open spec fn or_text(o: Option<String>, fallback: Seq<char>) -> Seq<char> {
    match o {
        Some(s) => s@,
        None => fallback,
    }
}

/// The table line of one file's result.
pub open spec fn result_text(r: MultiApplyFileResult) -> Seq<char> {
    match r.outcome {
        Ok(o) => "  ✓ "@ + r.path@ + " -> Requisition/"@ + or_text(r.foreign_source, "?"@) + ": "@
            + state_text(o.state) + " (rescanExisting="@ + bool_text(o.rescan_existing)
            + ", foreignSource="@ + fs_text(o.foreign_source_action) + ")\n"@,
        Err(e) => "  ✗ "@ + r.path@ + " -> "@ + or_text(r.foreign_source, "(parse error)"@) + ": "@
            + e@ + "\n"@,
    }
}

/// The table lines of the results, in order.
pub open spec fn results_text(r: Seq<MultiApplyFileResult>) -> Seq<char>
    decreases r.len(),
{
    if r.len() == 0 {
        Seq::empty()
    } else {
        results_text(r.drop_last()) + result_text(r.last())
    }
}

/// The table report of a multi-file apply: a line per file, then the
/// counts.
pub open spec fn multi_outcome_text(o: MultiApplyOutcome) -> Seq<char> {
    results_text(o.results@) + "Multi-apply "@ + multi_state_text(o.state) + ": "@ + dec(
        (o.results@.len() - failures(o.results@)) as nat,
    ) + " ok, "@ + dec(failures(o.results@)) + " failed, "@ + dec(o.collision_findings@.len())
        + " collision finding(s)\n"@
}

fn opt_or<'a>(o: &'a Option<String>, fallback: &'a str) -> (s: &'a str)
    ensures
        s@ == or_text(*o, fallback@),
{
    match o {
        Some(v) => v.as_str(),
        None => fallback,
    }
}

/// Appends the table line of one file's result.
fn append_result_line(s: &mut String, r: &MultiApplyFileResult)
    ensures
        final(s)@ == old(s)@ + result_text(*r),
{
    match &r.outcome {
        Ok(a) => {
            append_str(s, "  ✓ ");
            append_str(s, r.path.as_str());
            append_str(s, " -> Requisition/");
            append_str(s, opt_or(&r.foreign_source, "?"));
            append_str(s, ": ");
            append_str(s, state_word(a.state));
            append_str(s, " (rescanExisting=");
            append_str(s, bool_str(a.rescan_existing));
            append_str(s, ", foreignSource=");
            append_str(s, fs_word(a.foreign_source_action));
            append_str(s, ")\n");
        },
        Err(e) => {
            append_str(s, "  ✗ ");
            append_str(s, r.path.as_str());
            append_str(s, " -> ");
            append_str(s, opt_or(&r.foreign_source, "(parse error)"));
            append_str(s, ": ");
            append_str(s, e.as_str());
            append_str(s, "\n");
        },
    }
}

/// The table report of a multi-file apply (see [`multi_outcome_text`]).
pub fn render_multi_table(o: &MultiApplyOutcome) -> (s: String)
    ensures
        s@ == multi_outcome_text(*o),
{
    let mut s = String::new();
    let mut i: usize = 0;
    while i < o.results.len()
        invariant
            i <= o.results.len(),
            s@ == results_text(o.results@.take(i as int)),
        decreases o.results.len() - i,
    {
        let r = &o.results[i];
        append_result_line(&mut s, r);
        assert(o.results@.take(i + 1).drop_last() == o.results@.take(i as int));
        assert(o.results@.take(i + 1).last() == *r);
        i = i + 1;
    }
    assert(o.results@.take(o.results.len() as int) == o.results@);
    let failed = count_failures(o);
    append_str(&mut s, "Multi-apply ");
    append_str(&mut s, multi_state_word(o.state));
    append_str(&mut s, ": ");
    append_str(&mut s, fmt_usize(o.results.len() - failed).as_str());
    append_str(&mut s, " ok, ");
    append_str(&mut s, fmt_usize(failed).as_str());
    append_str(&mut s, " failed, ");
    append_str(&mut s, fmt_usize(o.collision_findings.len()).as_str());
    append_str(&mut s, " collision finding(s)\n");
    s
}

/// The header line of the first-phase report.
pub open spec fn plan_header(aborted: bool, n: nat, dry_run: bool) -> Seq<char> {
    if aborted {
        "Phase 1 plan: ABORTED"@
    } else {
        "Phase 1 plan ("@ + dec(n) + " file"@ + (if n == 1 {
            Seq::empty()
        } else {
            "s"@
        }) + "):"@ + (if dry_run {
            " (dry-run)"@
        } else {
            Seq::empty()
        })
    }
}

/// The line of one planned file.
pub open spec fn entry_text(e: MultiApplyPlanEntry) -> Seq<char> {
    "  ✓ "@ + e.path@ + " -> Requisition/"@ + e.plan.local@.metadata.name + ": "@ + plan_state_text(
        e.plan.state,
    ) + " (rescanExisting="@ + bool_text(e.plan.rescan_existing) + ", foreignSource="@ + fs_text(
        e.plan.foreign_source_action,
    ) + ")"@
}

/// The line of one unreadable file.
pub open spec fn parse_error_text(r: MultiApplyFileResult) -> Seq<char> {
    "  ✗ "@ + r.path@ + " -> (parse error): "@ + (match r.outcome {
        Err(e) => e@,
        Ok(_) => "?"@,
    })
}

/// The line of one collision: `error` for a duplicate name, `warn`
/// otherwise.
pub open spec fn collision_text(f: CollisionFinding) -> Seq<char> {
    "collision "@ + (if f.code == CollisionCode::DuplicateMetadataName {
        "error"@
    } else {
        "warn"@
    }) + ": "@ + f.message@
}

/// The first-phase report, line by line: the header, each planned file,
/// each unreadable file, each collision.
pub open spec fn combined_plan_lines(p: MultiApplyPlan, dry_run: bool) -> Seq<Seq<char>> {
    seq![plan_header(p.parse_errors@.len() > 0 || has_hard(p.collision_findings@), p.entries@.len(), dry_run)]
        + p.entries@.map_values(|e: MultiApplyPlanEntry| entry_text(e))
        + p.parse_errors@.map_values(|r: MultiApplyFileResult| parse_error_text(r))
        + p.collision_findings@.map_values(|f: CollisionFinding| collision_text(f))
}

/// The first-phase report, line by line (see [`combined_plan_lines`]).
pub fn render_combined_plan(p: &MultiApplyPlan, dry_run: bool) -> (r: Vec<String>)
    ensures
        strs(r@) == combined_plan_lines(*p, dry_run),
{
    let mut r: Vec<String> = Vec::new();
    let header = if p.is_aborted() {
        own("Phase 1 plan: ABORTED")
    } else {
        let n = p.entries.len();
        let mut h = own("Phase 1 plan (");
        append_str(&mut h, fmt_usize(n).as_str());
        append_str(&mut h, " file");
        if n != 1 {
            append_str(&mut h, "s");
        }
        append_str(&mut h, "):");
        if dry_run {
            append_str(&mut h, " (dry-run)");
        }
        h
    };
    r.push(header);
    let ghost base = strs(r@);
    let mut i: usize = 0;
    while i < p.entries.len()
        invariant
            i <= p.entries.len(),
            r.len() == 1 + i,
            strs(r@) == base + p.entries@.take(i as int).map_values(
                |e: MultiApplyPlanEntry| entry_text(e),
            ),
        decreases p.entries.len() - i,
    {
        let e = &p.entries[i];
        let mut l = own("  ✓ ");
        append_str(&mut l, e.path.as_str());
        append_str(&mut l, " -> Requisition/");
        append_str(&mut l, e.plan.local.metadata.name.as_str());
        append_str(&mut l, ": ");
        append_str(&mut l, plan_state_word(e.plan.state));
        append_str(&mut l, " (rescanExisting=");
        append_str(&mut l, bool_str(e.plan.rescan_existing));
        append_str(&mut l, ", foreignSource=");
        append_str(&mut l, fs_word(e.plan.foreign_source_action));
        append_str(&mut l, ")");
        let ghost before = strs(r@);
        r.push(l);
        assert(strs(r@) =~= before.push(entry_text(*e)));
        assert(p.entries@.take(i + 1).map_values(|e: MultiApplyPlanEntry| entry_text(e))
            =~= p.entries@.take(i as int).map_values(|e: MultiApplyPlanEntry| entry_text(e)).push(
            entry_text(*e),
        ));
        i = i + 1;
    }
    assert(p.entries@.take(p.entries.len() as int) == p.entries@);
    let ghost base2 = strs(r@);
    let mut i: usize = 0;
    while i < p.parse_errors.len()
        invariant
            i <= p.parse_errors.len(),
            strs(r@) == base2 + p.parse_errors@.take(i as int).map_values(
                |x: MultiApplyFileResult| parse_error_text(x),
            ),
        decreases p.parse_errors.len() - i,
    {
        let x = &p.parse_errors[i];
        let mut l = own("  ✗ ");
        append_str(&mut l, x.path.as_str());
        append_str(&mut l, " -> (parse error): ");
        match &x.outcome {
            Err(e) => append_str(&mut l, e.as_str()),
            Ok(_) => append_str(&mut l, "?"),
        }
        let ghost before = strs(r@);
        r.push(l);
        assert(strs(r@) =~= before.push(parse_error_text(*x)));
        assert(p.parse_errors@.take(i + 1).map_values(|x: MultiApplyFileResult| parse_error_text(x))
            =~= p.parse_errors@.take(i as int).map_values(
            |x: MultiApplyFileResult| parse_error_text(x),
        ).push(parse_error_text(*x)));
        i = i + 1;
    }
    assert(p.parse_errors@.take(p.parse_errors.len() as int) == p.parse_errors@);
    let ghost base3 = strs(r@);
    let mut i: usize = 0;
    while i < p.collision_findings.len()
        invariant
            i <= p.collision_findings.len(),
            strs(r@) == base3 + p.collision_findings@.take(i as int).map_values(
                |f: CollisionFinding| collision_text(f),
            ),
        decreases p.collision_findings.len() - i,
    {
        let f = &p.collision_findings[i];
        let mut l = own("collision ");
        append_str(&mut l, if f.is_hard_error() { "error" } else { "warn" });
        append_str(&mut l, ": ");
        append_str(&mut l, f.message.as_str());
        let ghost before = strs(r@);
        r.push(l);
        assert(strs(r@) =~= before.push(collision_text(*f)));
        assert(p.collision_findings@.take(i + 1).map_values(|f: CollisionFinding| collision_text(f))
            =~= p.collision_findings@.take(i as int).map_values(
            |f: CollisionFinding| collision_text(f),
        ).push(collision_text(*f)));
        i = i + 1;
    }
    assert(p.collision_findings@.take(p.collision_findings.len() as int) == p.collision_findings@);
    assert(strs(r@) =~= combined_plan_lines(*p, dry_run));
    r
}

/// The error ending an aborted first phase: the count of duplicate names
/// and the first one, else the count of unreadable files.
pub open spec fn phase1_abort_text(p: MultiApplyPlan) -> Seq<char> {
    let h = hard_keys(p.collision_findings@);
    if h.len() > 0 {
        "phase-1 abort: "@ + dec(h.len()) + " hard collision(s) detected (first: '"@ + h[0]
            + "'); see stderr for the full list"@
    } else {
        "phase-1 abort: "@ + dec(p.parse_errors@.len()) + " parse error(s); see stderr"@
    }
}

/// The error ending an aborted first phase (see [`phase1_abort_text`]).
pub fn phase1_abort_message(p: &MultiApplyPlan) -> (s: String)
    ensures
        s@ == phase1_abort_text(*p),
{
    let mut keys: Vec<String> = Vec::new();
    let ghost f = p.collision_findings@;
    let mut i: usize = 0;
    while i < p.collision_findings.len()
        invariant
            i <= p.collision_findings.len(),
            f == p.collision_findings@,
            strs(keys@) == hard_keys(f.take(i as int)),
        decreases p.collision_findings.len() - i,
    {
        assert(f.take(i + 1).drop_last() == f.take(i as int));
        assert(f.take(i + 1).last() == f[i as int]);
        let ghost before = strs(keys@);
        if p.collision_findings[i].is_hard_error() {
            keys.push(p.collision_findings[i].key.clone());
            assert(strs(keys@) =~= before.push(f[i as int].key@));
        }
        i = i + 1;
    }
    assert(f.take(p.collision_findings.len() as int) == f);
    if keys.len() > 0 {
        let mut s = own("phase-1 abort: ");
        append_str(&mut s, fmt_usize(keys.len()).as_str());
        append_str(&mut s, " hard collision(s) detected (first: '");
        append_str(&mut s, keys[0].as_str());
        append_str(&mut s, "'); see stderr for the full list");
        s
    } else {
        let mut s = own("phase-1 abort: ");
        append_str(&mut s, fmt_usize(p.parse_errors.len()).as_str());
        append_str(&mut s, " parse error(s); see stderr");
        s
    }
}

/// The status line of a deployed requisition: its node count and time
/// stamps.
pub open spec fn status_text(
    fs: Seq<char>,
    nodes: nat,
    date_stamp: Option<i64>,
    last_import: Option<i64>,
) -> Seq<char> {
    "Requisition/"@ + fs + ": nodes="@ + dec(nodes) + ", date-stamp-ms="@ + ms_text(date_stamp)
        + ", last-import-ms="@ + ms_text(last_import) + "\n"@
}

/// The status line of a deployed requisition.
pub fn status_line(req: &crate::provisioning::server::RequisitionServer) -> (s: String)
    ensures
        s@ == status_text(req.foreign_source@, req.node@.len(), req.date_stamp, req.last_import),
{
    let mut s = own("Requisition/");
    append_str(&mut s, req.foreign_source.as_str());
    append_str(&mut s, ": nodes=");
    append_str(&mut s, fmt_usize(req.node.len()).as_str());
    append_str(&mut s, ", date-stamp-ms=");
    append_str(&mut s, opt_ms(req.date_stamp).as_str());
    append_str(&mut s, ", last-import-ms=");
    append_str(&mut s, opt_ms(req.last_import).as_str());
    append_str(&mut s, "\n");
    s
}

} // verus!
