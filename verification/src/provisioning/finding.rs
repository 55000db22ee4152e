//! Structured findings raised while converting requisition XML, with
//! their catalog of codes, default severities and explanations.

use vstd::prelude::*;
use crate::text::{clone_opt, str_eq, to_upper, upper_seq};

verus! {

/// The catalog of finding codes.
#[derive(Clone, Copy, Debug, PartialEq, Eq, Hash, Structural)]
pub enum FindingCode {
    Pr001,
    Pr002,
    Pr003,
    Pr004,
    Pr005,
}

/// How serious a finding is.
#[derive(Clone, Copy, Debug, PartialEq, Eq, Hash, Structural)]
pub enum Severity {
    Info,
    Warning,
    Error,
}

/// The text of a code: `PR` and its three digits.
pub open spec fn code_text(c: FindingCode) -> Seq<char> {
    match c {
        FindingCode::Pr001 => seq!['P', 'R', '0', '0', '1'],
        FindingCode::Pr002 => seq!['P', 'R', '0', '0', '2'],
        FindingCode::Pr003 => seq!['P', 'R', '0', '0', '3'],
        FindingCode::Pr004 => seq!['P', 'R', '0', '0', '4'],
        FindingCode::Pr005 => seq!['P', 'R', '0', '0', '5'],
    }
}

/// The code a text names, ignoring ASCII case.
pub open spec fn spec_parse_code(s: Seq<char>) -> Option<FindingCode> {
    let u = upper_seq(s);
    if u == code_text(FindingCode::Pr001) {
        Some(FindingCode::Pr001)
    } else if u == code_text(FindingCode::Pr002) {
        Some(FindingCode::Pr002)
    } else if u == code_text(FindingCode::Pr003) {
        Some(FindingCode::Pr003)
    } else if u == code_text(FindingCode::Pr004) {
        Some(FindingCode::Pr004)
    } else if u == code_text(FindingCode::Pr005) {
        Some(FindingCode::Pr005)
    } else {
        None
    }
}

/// The default severity of a code: PR004 is informational, the others are
/// warnings.
pub open spec fn spec_default_severity(c: FindingCode) -> Severity {
    match c {
        FindingCode::Pr004 => Severity::Info,
        _ => Severity::Warning,
    }
}

impl FindingCode {
    /// The code's text.
    pub fn as_str(self) -> (s: &'static str)
        ensures
            s@ == code_text(self),
    {
        proof {
            reveal_strlit("PR001");
            reveal_strlit("PR002");
            reveal_strlit("PR003");
            reveal_strlit("PR004");
            reveal_strlit("PR005");
        }
        match self {
            FindingCode::Pr001 => "PR001",
            FindingCode::Pr002 => "PR002",
            FindingCode::Pr003 => "PR003",
            FindingCode::Pr004 => "PR004",
            FindingCode::Pr005 => "PR005",
        }
    }

    /// The code a text names, ignoring ASCII case.
    pub fn parse(s: &str) -> (r: Option<FindingCode>)
        ensures
            r == spec_parse_code(s@),
    {
        let u = to_upper(s);
        let t = u.as_str();
        if str_eq(t, FindingCode::Pr001.as_str()) {
            Some(FindingCode::Pr001)
        } else if str_eq(t, FindingCode::Pr002.as_str()) {
            Some(FindingCode::Pr002)
        } else if str_eq(t, FindingCode::Pr003.as_str()) {
            Some(FindingCode::Pr003)
        } else if str_eq(t, FindingCode::Pr004.as_str()) {
            Some(FindingCode::Pr004)
        } else if str_eq(t, FindingCode::Pr005.as_str()) {
            Some(FindingCode::Pr005)
        } else {
            None
        }
    }

    /// Every code of the catalog, in order.
    pub fn all() -> (r: Vec<FindingCode>)
        ensures
            r@ == seq![
                FindingCode::Pr001,
                FindingCode::Pr002,
                FindingCode::Pr003,
                FindingCode::Pr004,
                FindingCode::Pr005,
            ],
    {
        let r = vec![
            FindingCode::Pr001,
            FindingCode::Pr002,
            FindingCode::Pr003,
            FindingCode::Pr004,
            FindingCode::Pr005,
        ];
        assert(r@ =~= seq![
            FindingCode::Pr001,
            FindingCode::Pr002,
            FindingCode::Pr003,
            FindingCode::Pr004,
            FindingCode::Pr005,
        ]);
        r
    }

    /// The severity a new finding of this code gets.
    pub fn default_severity(self) -> (s: Severity)
        ensures
            s == spec_default_severity(self),
    {
        match self {
            FindingCode::Pr001 => Severity::Warning,
            FindingCode::Pr002 => Severity::Warning,
            FindingCode::Pr003 => Severity::Warning,
            FindingCode::Pr004 => Severity::Info,
            FindingCode::Pr005 => Severity::Warning,
        }
    }
}

/// One finding: its code, severity, message, and the file it was raised
/// for.
#[derive(Clone, Debug, PartialEq, Eq)]
pub struct Finding {
    pub code: FindingCode,
    pub severity: Severity,
    pub message: String,
    pub source_path: Option<String>,
}

/// The mathematical model of a [`Finding`].
pub struct FindingModel {
    pub code: FindingCode,
    pub severity: Severity,
    pub message: Seq<char>,
    pub source_path: Option<Seq<char>>,
}

impl View for Finding {
    type V = FindingModel;

    open spec fn view(&self) -> FindingModel {
        FindingModel {
            code: self.code,
            severity: self.severity,
            message: self.message@,
            source_path: crate::text::ostr(self.source_path),
        }
    }
}

/// A new finding: the code's default severity, no source file.
pub open spec fn new_finding(code: FindingCode, message: Seq<char>) -> FindingModel {
    FindingModel { code, severity: spec_default_severity(code), message, source_path: None }
}

impl Finding {
    /// A finding with the code's default severity and no source file.
    pub fn new(code: FindingCode, message: String) -> (f: Finding)
        ensures
            f@ == new_finding(code, message@),
    {
        Finding { code, severity: code.default_severity(), message, source_path: None }
    }

    /// The same finding, raised for file `path`.
    pub fn with_source(self, path: String) -> (f: Finding)
        ensures
            f@ == (FindingModel { source_path: Some(path@), ..self@ }),
    {
        let mut s = self;
        s.source_path = Some(path);
        s
    }

    /// The same finding, raised for `path` when there is one.
    pub fn opt_source(self, path: Option<&String>) -> (f: Finding)
        ensures
            f@ == (match path {
                Some(p) => FindingModel { source_path: Some(p@), ..self@ },
                None => self@,
            }),
    {
        match path {
            Some(p) => self.with_source(p.clone()),
            None => self,
        }
    }
}

/// The explanation of PR001.
pub const EXPLAIN_PR001: &'static str = "\
PR001 — Unmodeled XML element or attribute.

The migrator encountered an XML element or attribute it doesn't model. \
The input was preserved as best it could be (unknown elements may be \
dropped from the YAML output), but the YAML is no longer a lossless \
round-trip of the source XML.

Common causes: a newer Horizon schema addition the CLI doesn't know \
about; a deprecated XML element still present in legacy files; a \
typo in the source XML.

What to do: inspect the named element/attribute in the source file. \
If it's load-bearing, file an issue against onmsctl with the example.";

/// The explanation of PR002.
pub const EXPLAIN_PR002: &'static str = "\
PR002 — Orphan foreign-source XML.

A foreign-source XML file was supplied (or auto-discovered in \
`--foreign-sources-dir`) whose name does not match any requisition \
XML being converted. Without a matching requisition the foreign-source \
has no apply target.

What to do: rename the foreign-source XML to match its requisition's \
`foreign-source` attribute, OR delete the orphan if it's no longer in \
use, OR pass the matching requisition XML alongside.";

/// The explanation of PR003.
pub const EXPLAIN_PR003: &'static str = "\
PR003 — Policy parameter type mismatch.

A `<parameter>` under a `<policy>` declares a type that doesn't match \
the policy class's expected parameter shape. The value is preserved \
verbatim in the YAML output (no data loss), but the apply may behave \
differently than the operator expects.

What to do: cross-check the policy class's documentation for the \
expected parameter key/value shape. Either correct the source XML \
before conversion, or correct the YAML after conversion and re-apply.";

/// The explanation of PR004.
pub const EXPLAIN_PR004: &'static str = "\
PR004 — No foreign-source XML for this requisition.

A requisition XML was converted with no matching foreign-source XML \
in scope. The emitted YAML omits `spec.foreignSource`, so an `apply` \
against Horizon will inherit Horizon's default foreign-source (no \
custom detectors, no custom policies).

This is INFORMATIONAL — it's exactly what operators using the \
\"portable\" YAML style want. Flag is emitted so operators who DID \
have a foreign-source XML and forgot to include it notice the omission.

What to do: nothing if intentional. Otherwise, locate the matching \
foreign-source XML and re-run convert with `--foreign-sources-dir`.";

/// The explanation of PR005.
pub const EXPLAIN_PR005: &'static str = "\
PR005 — Unrecognized snmp-primary value.

An `<interface>` declared an `@snmp-primary` attribute whose value \
isn't one of `P` (primary), `S` (secondary), or `N` (not eligible). \
The migrator drops the attribute from the emitted YAML — the local \
model rejects unknown variants at parse time, so passing the value \
through would only fail the apply step downstream.

What to do: inspect the source XML for the named interface. Most \
likely a typo. If the source value was intentional, file an issue \
against onmsctl with the example so we can extend the catalog.";

/// The explanation of a code.
pub open spec fn explain_text(code: FindingCode) -> Seq<char> {
    match code {
        FindingCode::Pr001 => EXPLAIN_PR001@,
        FindingCode::Pr002 => EXPLAIN_PR002@,
        FindingCode::Pr003 => EXPLAIN_PR003@,
        FindingCode::Pr004 => EXPLAIN_PR004@,
        FindingCode::Pr005 => EXPLAIN_PR005@,
    }
}

/// The long-form explanation of a code: what it means and what to do.
pub fn explain(code: FindingCode) -> (s: &'static str)
    ensures
        s@ == explain_text(code),
{
    match code {
        FindingCode::Pr001 => EXPLAIN_PR001,
        FindingCode::Pr002 => EXPLAIN_PR002,
        FindingCode::Pr003 => EXPLAIN_PR003,
        FindingCode::Pr004 => EXPLAIN_PR004,
        FindingCode::Pr005 => EXPLAIN_PR005,
    }
}

/// Reading a code's text back gives the code.
pub proof fn lemma_parse_as_str(c: FindingCode)
    ensures
        spec_parse_code(code_text(c)) == Some(c),
{
    let t = code_text(c);
    assert(upper_seq(t) =~= t);
    assert(code_text(FindingCode::Pr001)[4] != code_text(FindingCode::Pr002)[4]);
    assert(code_text(FindingCode::Pr001)[4] != code_text(FindingCode::Pr003)[4]);
    assert(code_text(FindingCode::Pr001)[4] != code_text(FindingCode::Pr004)[4]);
    assert(code_text(FindingCode::Pr001)[4] != code_text(FindingCode::Pr005)[4]);
    assert(code_text(FindingCode::Pr002)[4] != code_text(FindingCode::Pr003)[4]);
    assert(code_text(FindingCode::Pr002)[4] != code_text(FindingCode::Pr004)[4]);
    assert(code_text(FindingCode::Pr002)[4] != code_text(FindingCode::Pr005)[4]);
    assert(code_text(FindingCode::Pr003)[4] != code_text(FindingCode::Pr004)[4]);
    assert(code_text(FindingCode::Pr003)[4] != code_text(FindingCode::Pr005)[4]);
    assert(code_text(FindingCode::Pr004)[4] != code_text(FindingCode::Pr005)[4]);
}


/// Every explanation starts with its code and runs longer than 80
/// characters.
pub proof fn lemma_explain_starts_with_code(code: FindingCode)
    ensures
        code_text(code).is_prefix_of(explain_text(code)),
        explain_text(code).len() > 80,
{
    match code {
        FindingCode::Pr001 => {
            reveal_strlit("\
PR001 — Unmodeled XML element or attribute.

The migrator encountered an XML element or attribute it doesn't model. \
The input was preserved as best it could be (unknown elements may be \
dropped from the YAML output), but the YAML is no longer a lossless \
round-trip of the source XML.

Common causes: a newer Horizon schema addition the CLI doesn't know \
about; a deprecated XML element still present in legacy files; a \
typo in the source XML.

What to do: inspect the named element/attribute in the source file. \
If it's load-bearing, file an issue against onmsctl with the example.");
            assert(EXPLAIN_PR001@ == "\
PR001 — Unmodeled XML element or attribute.

The migrator encountered an XML element or attribute it doesn't model. \
The input was preserved as best it could be (unknown elements may be \
dropped from the YAML output), but the YAML is no longer a lossless \
round-trip of the source XML.

Common causes: a newer Horizon schema addition the CLI doesn't know \
about; a deprecated XML element still present in legacy files; a \
typo in the source XML.

What to do: inspect the named element/attribute in the source file. \
If it's load-bearing, file an issue against onmsctl with the example."@);
            assert(explain_text(code).take(5) =~= code_text(code));
        },
        FindingCode::Pr002 => {
            reveal_strlit("\
PR002 — Orphan foreign-source XML.

A foreign-source XML file was supplied (or auto-discovered in \
`--foreign-sources-dir`) whose name does not match any requisition \
XML being converted. Without a matching requisition the foreign-source \
has no apply target.

What to do: rename the foreign-source XML to match its requisition's \
`foreign-source` attribute, OR delete the orphan if it's no longer in \
use, OR pass the matching requisition XML alongside.");
            assert(EXPLAIN_PR002@ == "\
PR002 — Orphan foreign-source XML.

A foreign-source XML file was supplied (or auto-discovered in \
`--foreign-sources-dir`) whose name does not match any requisition \
XML being converted. Without a matching requisition the foreign-source \
has no apply target.

What to do: rename the foreign-source XML to match its requisition's \
`foreign-source` attribute, OR delete the orphan if it's no longer in \
use, OR pass the matching requisition XML alongside."@);
            assert(explain_text(code).take(5) =~= code_text(code));
        },
        FindingCode::Pr003 => {
            reveal_strlit("\
PR003 — Policy parameter type mismatch.

A `<parameter>` under a `<policy>` declares a type that doesn't match \
the policy class's expected parameter shape. The value is preserved \
verbatim in the YAML output (no data loss), but the apply may behave \
differently than the operator expects.

What to do: cross-check the policy class's documentation for the \
expected parameter key/value shape. Either correct the source XML \
before conversion, or correct the YAML after conversion and re-apply.");
            assert(EXPLAIN_PR003@ == "\
PR003 — Policy parameter type mismatch.

A `<parameter>` under a `<policy>` declares a type that doesn't match \
the policy class's expected parameter shape. The value is preserved \
verbatim in the YAML output (no data loss), but the apply may behave \
differently than the operator expects.

What to do: cross-check the policy class's documentation for the \
expected parameter key/value shape. Either correct the source XML \
before conversion, or correct the YAML after conversion and re-apply."@);
            assert(explain_text(code).take(5) =~= code_text(code));
        },
        FindingCode::Pr004 => {
            reveal_strlit("\
PR004 — No foreign-source XML for this requisition.

A requisition XML was converted with no matching foreign-source XML \
in scope. The emitted YAML omits `spec.foreignSource`, so an `apply` \
against Horizon will inherit Horizon's default foreign-source (no \
custom detectors, no custom policies).

This is INFORMATIONAL — it's exactly what operators using the \
\"portable\" YAML style want. Flag is emitted so operators who DID \
have a foreign-source XML and forgot to include it notice the omission.

What to do: nothing if intentional. Otherwise, locate the matching \
foreign-source XML and re-run convert with `--foreign-sources-dir`.");
            assert(EXPLAIN_PR004@ == "\
PR004 — No foreign-source XML for this requisition.

A requisition XML was converted with no matching foreign-source XML \
in scope. The emitted YAML omits `spec.foreignSource`, so an `apply` \
against Horizon will inherit Horizon's default foreign-source (no \
custom detectors, no custom policies).

This is INFORMATIONAL — it's exactly what operators using the \
\"portable\" YAML style want. Flag is emitted so operators who DID \
have a foreign-source XML and forgot to include it notice the omission.

What to do: nothing if intentional. Otherwise, locate the matching \
foreign-source XML and re-run convert with `--foreign-sources-dir`."@);
            assert(explain_text(code).take(5) =~= code_text(code));
        },
        FindingCode::Pr005 => {
            reveal_strlit("\
PR005 — Unrecognized snmp-primary value.

An `<interface>` declared an `@snmp-primary` attribute whose value \
isn't one of `P` (primary), `S` (secondary), or `N` (not eligible). \
The migrator drops the attribute from the emitted YAML — the local \
model rejects unknown variants at parse time, so passing the value \
through would only fail the apply step downstream.

What to do: inspect the source XML for the named interface. Most \
likely a typo. If the source value was intentional, file an issue \
against onmsctl with the example so we can extend the catalog.");
            assert(EXPLAIN_PR005@ == "\
PR005 — Unrecognized snmp-primary value.

An `<interface>` declared an `@snmp-primary` attribute whose value \
isn't one of `P` (primary), `S` (secondary), or `N` (not eligible). \
The migrator drops the attribute from the emitted YAML — the local \
model rejects unknown variants at parse time, so passing the value \
through would only fail the apply step downstream.

What to do: inspect the source XML for the named interface. Most \
likely a typo. If the source value was intentional, file an issue \
against onmsctl with the example so we can extend the catalog."@);
            assert(explain_text(code).take(5) =~= code_text(code));
        },
    }
}
} // verus!
