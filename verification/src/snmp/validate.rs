//! Semantic validation of a `kind: SnmpConfig` document.

use vstd::prelude::*;
use crate::fmt::{debug_quoted, debug_str};
use crate::ip::{parse_ip, spec_parse_ip};
use crate::snmp::model::{
    DefinitionLocalModel, SnmpConfigLocal, SnmpConfigLocalModel, API_VERSION, KIND, SINGLETON_NAME,
};
use crate::text::{append_str, dec, fmt_usize, own, str_eq, strs};

verus! {

/// Why a document is refused.
#[derive(Debug, Clone, PartialEq, Eq)]
pub enum ConfigError {
    ApiVersion { got: String },
    Kind { got: String },
    SingletonName { got: String },
    /// Definition `index` declares no selector.
    NoSelector { index: usize },
    /// Definition `index` mixes `ipMatches` with `specifics` or `ranges`.
    SelectorMix { index: usize },
    InvalidSpecific { index: usize, ip: String },
    InvalidRangeBegin { index: usize, value: String },
    InvalidRangeEnd { index: usize, value: String },
    /// Definition `index` names a profile label no profile declares.
    UnknownProfileLabel { index: usize, label: String },
}

/// The mathematical model of a [`ConfigError`].
pub enum ConfigErrorModel {
    ApiVersion { got: Seq<char> },
    Kind { got: Seq<char> },
    SingletonName { got: Seq<char> },
    NoSelector { index: nat },
    SelectorMix { index: nat },
    InvalidSpecific { index: nat, ip: Seq<char> },
    InvalidRangeBegin { index: nat, value: Seq<char> },
    InvalidRangeEnd { index: nat, value: Seq<char> },
    UnknownProfileLabel { index: nat, label: Seq<char> },
}

impl View for ConfigError {
    type V = ConfigErrorModel;

    open spec fn view(&self) -> ConfigErrorModel {
        match self {
            ConfigError::ApiVersion { got } => ConfigErrorModel::ApiVersion { got: got@ },
            ConfigError::Kind { got } => ConfigErrorModel::Kind { got: got@ },
            ConfigError::SingletonName { got } => ConfigErrorModel::SingletonName { got: got@ },
            ConfigError::NoSelector { index } => ConfigErrorModel::NoSelector { index: *index as nat },
            ConfigError::SelectorMix { index } => ConfigErrorModel::SelectorMix { index: *index as nat },
            ConfigError::InvalidSpecific { index, ip } => ConfigErrorModel::InvalidSpecific {
                index: *index as nat,
                ip: ip@,
            },
            ConfigError::InvalidRangeBegin { index, value } => ConfigErrorModel::InvalidRangeBegin {
                index: *index as nat,
                value: value@,
            },
            ConfigError::InvalidRangeEnd { index, value } => ConfigErrorModel::InvalidRangeEnd {
                index: *index as nat,
                value: value@,
            },
            ConfigError::UnknownProfileLabel { index, label } => ConfigErrorModel::UnknownProfileLabel {
                index: *index as nat,
                label: label@,
            },
        }
    }
}

/// The first problem of definition `i`, if any: no selector, then
/// `ipMatches` mixed with the others, then the first specific that is no
/// IP, then the first range end that is no IP (begin before end), then a
/// profile label that no profile declares.
#[verifier::opaque]
pub open spec fn definition_error(d: DefinitionLocalModel, i: nat, labels: Seq<Seq<char>>) -> Option<ConfigErrorModel> {
    let has_specifics = d.specifics.len() > 0;
    let has_ranges = d.ranges.len() > 0;
    let has_ip_matches = d.ip_matches.len() > 0;
    if !has_specifics && !has_ranges && !has_ip_matches {
        Some(ConfigErrorModel::NoSelector { index: i })
    } else if has_ip_matches && (has_specifics || has_ranges) {
        Some(ConfigErrorModel::SelectorMix { index: i })
    } else if exists|k: int| 0 <= k < d.specifics.len() && spec_parse_ip(#[trigger] d.specifics[k]) is None {
        let k = choose|k: int|
            0 <= k < d.specifics.len() && spec_parse_ip(#[trigger] d.specifics[k]) is None && forall|m: int|
                0 <= m < k ==> spec_parse_ip(#[trigger] d.specifics[m]) is Some;
        Some(ConfigErrorModel::InvalidSpecific { index: i, ip: d.specifics[k] })
    } else {
        match range_error(d.ranges.map_values(|r: crate::snmp::model::RangeLocalModel| (r.begin, r.end)), i) {
            Some(e) => Some(e),
            None => match d.profile_label {
                Some(l) => if labels.contains(l) {
                    None
                } else {
                    Some(ConfigErrorModel::UnknownProfileLabel { index: i, label: l })
                },
                None => None,
            },
        }
    }
}

/// The first range end (begin, then end, range by range) that is no IP.
pub open spec fn range_error(r: Seq<(Seq<char>, Seq<char>)>, i: nat) -> Option<ConfigErrorModel>
    decreases r.len(),
{
    if r.len() == 0 {
        None
    } else if spec_parse_ip(r[0].0) is None {
        Some(ConfigErrorModel::InvalidRangeBegin { index: i, value: r[0].0 })
    } else if spec_parse_ip(r[0].1) is None {
        Some(ConfigErrorModel::InvalidRangeEnd { index: i, value: r[0].1 })
    } else {
        range_error(r.drop_first(), i)
    }
}

/// The first problem among definitions `i..`.
pub open spec fn first_definition_error(defs: Seq<DefinitionLocalModel>, i: nat, labels: Seq<Seq<char>>) -> Option<
    ConfigErrorModel,
>
    decreases defs.len() - i,
{
    if i >= defs.len() {
        None
    } else {
        match definition_error(defs[i as int], i, labels) {
            Some(e) => Some(e),
            None => first_definition_error(defs, i + 1, labels),
        }
    }
}

/// The judgement on a document: the first problem in the order apiVersion,
/// kind, singleton name, then the definitions in order.
pub open spec fn spec_validate(l: SnmpConfigLocalModel) -> Option<ConfigErrorModel> {
    if l.api_version != API_VERSION@ {
        Some(ConfigErrorModel::ApiVersion { got: l.api_version })
    } else if l.kind != KIND@ {
        Some(ConfigErrorModel::Kind { got: l.kind })
    } else if l.metadata.name != SINGLETON_NAME@ {
        Some(ConfigErrorModel::SingletonName { got: l.metadata.name })
    } else {
        first_definition_error(l.spec.definitions, 0, profile_labels(l.spec.profiles))
    }
}

/// The first invalid specific IP, if any.
fn first_invalid_specific(v: &Vec<String>) -> (r: Option<usize>)
    ensures
        match r {
            Some(k) => k < v.len() && spec_parse_ip(v@[k as int]@) is None && forall|m: int|
                0 <= m < k ==> spec_parse_ip(#[trigger] strs(v@)[m]) is Some,
            None => forall|m: int| 0 <= m < v.len() ==> spec_parse_ip(#[trigger] strs(v@)[m]) is Some,
        },
{
    let mut k: usize = 0;
    while k < v.len()
        invariant
            k <= v.len(),
            forall|m: int| 0 <= m < k ==> spec_parse_ip(#[trigger] strs(v@)[m]) is Some,
        decreases v.len() - k,
    {
        assert(strs(v@)[k as int] == v@[k as int]@);
        if parse_ip(v[k].as_str()).is_none() {
            return Some(k);
        }
        k = k + 1;
    }
    None
}

/// The labels of the declared profiles.
pub open spec fn profile_labels(p: Seq<crate::snmp::model::ProfileLocalModel>) -> Seq<Seq<char>> {
    p.map_values(|x: crate::snmp::model::ProfileLocalModel| x.label)
}

/// The first range end that is no IP (see [`range_error`]).
fn check_ranges(ranges: &Vec<crate::snmp::model::RangeLocal>, i: usize) -> (r: Option<ConfigError>)
    ensures
        match r {
            Some(e) => range_error(
                ranges@.map_values(|x: crate::snmp::model::RangeLocal| (x@.begin, x@.end)),
                i as nat,
            ) == Some(e@),
            None => range_error(
                ranges@.map_values(|x: crate::snmp::model::RangeLocal| (x@.begin, x@.end)),
                i as nat,
            ) is None,
        },
{
    let ghost rs = ranges@.map_values(|x: crate::snmp::model::RangeLocal| (x@.begin, x@.end));
    let mut k: usize = 0;
    assert(rs.skip(0) == rs);
    while k < ranges.len()
        invariant
            k <= ranges.len(),
            rs == ranges@.map_values(|x: crate::snmp::model::RangeLocal| (x@.begin, x@.end)),
            range_error(rs, i as nat) == range_error(rs.skip(k as int), i as nat),
        decreases ranges.len() - k,
    {
        let ghost t = rs.skip(k as int);
        assert(t[0] == (ranges@[k as int]@.begin, ranges@[k as int]@.end));
        assert(t.drop_first() == rs.skip(k + 1));
        if parse_ip(ranges[k].begin.as_str()).is_none() {
            return Some(ConfigError::InvalidRangeBegin { index: i, value: ranges[k].begin.clone() });
        }
        if parse_ip(ranges[k].end.as_str()).is_none() {
            return Some(ConfigError::InvalidRangeEnd { index: i, value: ranges[k].end.clone() });
        }
        k = k + 1;
    }
    assert(rs.skip(ranges.len() as int).len() == 0);
    None
}

/// Whether some profile declares `label`.
fn has_label(profiles: &Vec<crate::snmp::model::ProfileLocal>, label: &str) -> (b: bool)
    ensures
        b == profile_labels(profiles@.map_values(|x: crate::snmp::model::ProfileLocal| x@)).contains(label@),
{
    let ghost labels = profile_labels(profiles@.map_values(|x: crate::snmp::model::ProfileLocal| x@));
    let mut j: usize = 0;
    while j < profiles.len()
        invariant
            j <= profiles.len(),
            labels == profile_labels(profiles@.map_values(|x: crate::snmp::model::ProfileLocal| x@)),
            forall|m: int| 0 <= m < j ==> labels[m] != label@,
        decreases profiles.len() - j,
    {
        assert(labels[j as int] == profiles@[j as int]@.label);
        if str_eq(profiles[j].label.as_str(), label) {
            assert(labels.contains(label@));
            return true;
        }
        j = j + 1;
    }
    false
}

/// The first problem of one definition (see [`definition_error`]).
fn check_definition(
    d: &crate::snmp::model::DefinitionLocal,
    i: usize,
    profiles: &Vec<crate::snmp::model::ProfileLocal>,
) -> (r: Option<ConfigError>)
    ensures
        match r {
            Some(e) => definition_error(
                d@,
                i as nat,
                profile_labels(profiles@.map_values(|x: crate::snmp::model::ProfileLocal| x@)),
            ) == Some(e@),
            None => definition_error(
                d@,
                i as nat,
                profile_labels(profiles@.map_values(|x: crate::snmp::model::ProfileLocal| x@)),
            ) is None,
        },
{
    proof {
        reveal(definition_error);
    }
    let ghost dm = d@;
    let has_specifics = d.specifics.len() > 0;
    let has_ranges = d.ranges.len() > 0;
    let has_ip_matches = d.ip_matches.len() > 0;
    if !has_specifics && !has_ranges && !has_ip_matches {
        return Some(ConfigError::NoSelector { index: i });
    }
    if has_ip_matches && (has_specifics || has_ranges) {
        return Some(ConfigError::SelectorMix { index: i });
    }
    match first_invalid_specific(&d.specifics) {
        Some(k) => {
            proof {
                assert(spec_parse_ip(dm.specifics[k as int]) is None);
                let kk = choose|kk: int|
                    0 <= kk < dm.specifics.len() && spec_parse_ip(#[trigger] dm.specifics[kk]) is None
                        && forall|m: int| 0 <= m < kk ==> spec_parse_ip(#[trigger] dm.specifics[m]) is Some;
                if kk < k {
                    assert(spec_parse_ip(strs(d.specifics@)[kk]) is Some);
                } else if k < kk {
                    assert(spec_parse_ip(dm.specifics[k as int]) is Some);
                }
            }
            return Some(ConfigError::InvalidSpecific { index: i, ip: d.specifics[k].clone() });
        },
        None => {},
    }
    assert(dm.ranges.map_values(|r: crate::snmp::model::RangeLocalModel| (r.begin, r.end))
        =~= d.ranges@.map_values(|x: crate::snmp::model::RangeLocal| (x@.begin, x@.end)));
    match check_ranges(&d.ranges, i) {
        Some(e) => return Some(e),
        None => {},
    }
    match &d.profile_label {
        Some(label) => {
            if !has_label(profiles, label.as_str()) {
                return Some(ConfigError::UnknownProfileLabel { index: i, label: label.clone() });
            }
            None
        },
        None => None,
    }
}

impl SnmpConfigLocal {
    /// Checks the document's structure and selectors (see [`spec_validate`]).
    pub fn validate(&self) -> (r: Result<(), ConfigError>)
        ensures
            match r {
                Ok(()) => spec_validate(self@) is None,
                Err(e) => spec_validate(self@) == Some(e@),
            },
    {
        if !str_eq(self.api_version.as_str(), API_VERSION) {
            return Err(ConfigError::ApiVersion { got: self.api_version.clone() });
        }
        if !str_eq(self.kind.as_str(), KIND) {
            return Err(ConfigError::Kind { got: self.kind.clone() });
        }
        if !str_eq(self.metadata.name.as_str(), SINGLETON_NAME) {
            return Err(ConfigError::SingletonName { got: self.metadata.name.clone() });
        }
        let ghost labels = profile_labels(self@.spec.profiles);
        assert(labels =~= profile_labels(
            self.spec.profiles@.map_values(|x: crate::snmp::model::ProfileLocal| x@),
        ));
        let ghost defs = self@.spec.definitions;
        let mut i: usize = 0;
        while i < self.spec.definitions.len()
            invariant
                i <= self.spec.definitions.len(),
                labels == profile_labels(self.spec.profiles@.map_values(|x: crate::snmp::model::ProfileLocal| x@)),
                defs == self@.spec.definitions,
                labels == profile_labels(self@.spec.profiles),
                self@.api_version == API_VERSION@,
                self@.kind == KIND@,
                self@.metadata.name == SINGLETON_NAME@,
                first_definition_error(defs, 0, labels) == first_definition_error(defs, i as nat, labels),
            decreases self.spec.definitions.len() - i,
        {
            assert(defs[i as int] == self.spec.definitions@[i as int]@);
            match check_definition(&self.spec.definitions[i], i, &self.spec.profiles) {
                Some(e) => return Err(e),
                None => {},
            }
            i = i + 1;
        }
        Ok(())
    }
}

/// The text of a definition index in a message: `spec.definitions[i]`.
pub open spec fn def_ref(i: nat) -> Seq<char> {
    "spec.definitions["@ + dec(i) + "]"@
}

/// The message of a refusal, as an operator reads it.
pub open spec fn error_message(e: ConfigErrorModel) -> Seq<char> {
    match e {
        ConfigErrorModel::ApiVersion { got } => "apiVersion must be \"snmp.opennms.org/v1\", got "@
            + debug_str(got),
        ConfigErrorModel::Kind { got } => "kind must be \"SnmpConfig\", got "@ + debug_str(got),
        ConfigErrorModel::SingletonName { got } =>
            "metadata.name must be \"default\" (snmp-config is a singleton), got "@ + debug_str(got),
        ConfigErrorModel::NoSelector { index } => def_ref(index)
            + " has no selector; declare at least one of `specifics`, `ranges`, or `ipMatches`"@,
        ConfigErrorModel::SelectorMix { index } => def_ref(index)
            + ": `ipMatches` cannot be combined with `specifics` or `ranges` in the same definition"@,
        ConfigErrorModel::InvalidSpecific { index, ip } => def_ref(index) + ": invalid specific IP "@
            + debug_str(ip),
        ConfigErrorModel::InvalidRangeBegin { index, value } => def_ref(index)
            + ": invalid range begin "@ + debug_str(value),
        ConfigErrorModel::InvalidRangeEnd { index, value } => def_ref(index) + ": invalid range end "@
            + debug_str(value),
        ConfigErrorModel::UnknownProfileLabel { index, label } => def_ref(index) + ": profileLabel "@
            + debug_str(label) + " names no declared spec.profiles[].label"@,
    }
}

fn def_ref_of(i: usize) -> (r: String)
    ensures
        r@ == def_ref(i as nat),
{
    let mut r = own("spec.definitions[");
    let d = fmt_usize(i);
    append_str(&mut r, d.as_str());
    append_str(&mut r, "]");
    r
}

impl ConfigError {
    /// The message of this refusal (see [`error_message`]).
    pub fn message(&self) -> (r: String)
        ensures
            r@ == error_message(self@),
    {
        match self {
            ConfigError::ApiVersion { got } => {
                let mut r = own("apiVersion must be \"snmp.opennms.org/v1\", got ");
                append_str(&mut r, debug_quoted(got.as_str()).as_str());
                r
            },
            ConfigError::Kind { got } => {
                let mut r = own("kind must be \"SnmpConfig\", got ");
                append_str(&mut r, debug_quoted(got.as_str()).as_str());
                r
            },
            ConfigError::SingletonName { got } => {
                let mut r = own("metadata.name must be \"default\" (snmp-config is a singleton), got ");
                append_str(&mut r, debug_quoted(got.as_str()).as_str());
                r
            },
            ConfigError::NoSelector { index } => {
                let mut r = def_ref_of(*index);
                append_str(
                    &mut r,
                    " has no selector; declare at least one of `specifics`, `ranges`, or `ipMatches`",
                );
                r
            },
            ConfigError::SelectorMix { index } => {
                let mut r = def_ref_of(*index);
                append_str(
                    &mut r,
                    ": `ipMatches` cannot be combined with `specifics` or `ranges` in the same definition",
                );
                r
            },
            ConfigError::InvalidSpecific { index, ip } => {
                let mut r = def_ref_of(*index);
                append_str(&mut r, ": invalid specific IP ");
                append_str(&mut r, debug_quoted(ip.as_str()).as_str());
                r
            },
            ConfigError::InvalidRangeBegin { index, value } => {
                let mut r = def_ref_of(*index);
                append_str(&mut r, ": invalid range begin ");
                append_str(&mut r, debug_quoted(value.as_str()).as_str());
                r
            },
            ConfigError::InvalidRangeEnd { index, value } => {
                let mut r = def_ref_of(*index);
                append_str(&mut r, ": invalid range end ");
                append_str(&mut r, debug_quoted(value.as_str()).as_str());
                r
            },
            ConfigError::UnknownProfileLabel { index, label } => {
                let mut r = def_ref_of(*index);
                append_str(&mut r, ": profileLabel ");
                append_str(&mut r, debug_quoted(label.as_str()).as_str());
                append_str(&mut r, " names no declared spec.profiles[].label");
                r
            },
        }
    }
}


/// A definition with no problem: at least one selector, `ipMatches` not
/// mixed with the others, every specific and range end an IP address, and
/// a profile label (if any) among the declared ones.
pub open spec fn definition_ok(d: DefinitionLocalModel, labels: Seq<Seq<char>>) -> bool {
    &&& (d.specifics.len() > 0 || d.ranges.len() > 0 || d.ip_matches.len() > 0)
    &&& !(d.ip_matches.len() > 0 && (d.specifics.len() > 0 || d.ranges.len() > 0))
    &&& forall|k: int| 0 <= k < d.specifics.len() ==> spec_parse_ip(#[trigger] d.specifics[k]) is Some
    &&& forall|k: int| 0 <= k < d.ranges.len() ==> spec_parse_ip((#[trigger] d.ranges[k]).begin) is Some
        && spec_parse_ip(d.ranges[k].end) is Some
    &&& d.profile_label matches Some(l) ==> labels.contains(l)
}

proof fn lemma_range_error_none(r: Seq<(Seq<char>, Seq<char>)>, i: nat)
    ensures
        (range_error(r, i) is None) == forall|k: int| 0 <= k < r.len() ==> spec_parse_ip((#[trigger] r[k]).0) is Some
            && spec_parse_ip(r[k].1) is Some,
    decreases r.len(),
{
    if r.len() > 0 {
        lemma_range_error_none(r.drop_first(), i);
        assert forall|k: int| 0 < k < r.len() implies #[trigger] r[k] == r.drop_first()[k - 1] by {}
        if range_error(r, i) is None {
            assert forall|k: int| 0 <= k < r.len() implies spec_parse_ip((#[trigger] r[k]).0) is Some
                && spec_parse_ip(r[k].1) is Some by {
                if k > 0 {
                    assert(r[k] == r.drop_first()[k - 1]);
                }
            }
        }
        if forall|k: int| 0 <= k < r.len() ==> spec_parse_ip((#[trigger] r[k]).0) is Some
            && spec_parse_ip(r[k].1) is Some {
            assert(spec_parse_ip(r[0].0) is Some && spec_parse_ip(r[0].1) is Some);
            assert forall|k: int| 0 <= k < r.drop_first().len() implies spec_parse_ip((#[trigger] r.drop_first()[k]).0) is Some
                && spec_parse_ip(r.drop_first()[k].1) is Some by {
                assert(r.drop_first()[k] == r[k + 1]);
            }
        }
    }
}

proof fn lemma_definition_error_none(d: DefinitionLocalModel, i: nat, labels: Seq<Seq<char>>)
    ensures
        (definition_error(d, i, labels) is None) == definition_ok(d, labels),
{
    reveal(definition_error);
    let rs = d.ranges.map_values(|r: crate::snmp::model::RangeLocalModel| (r.begin, r.end));
    lemma_range_error_none(rs, i);
    assert forall|k: int| 0 <= k < d.ranges.len() implies #[trigger] rs[k] == (d.ranges[k].begin, d.ranges[k].end) by {}
    if definition_ok(d, labels) {
        assert(!exists|k: int| 0 <= k < d.specifics.len() && spec_parse_ip(#[trigger] d.specifics[k]) is None);
        assert forall|k: int| 0 <= k < rs.len() implies spec_parse_ip((#[trigger] rs[k]).0) is Some && spec_parse_ip(
            rs[k].1,
        ) is Some by {
            assert(rs[k] == (d.ranges[k].begin, d.ranges[k].end));
        }
    }
    if definition_error(d, i, labels) is None {
        assert forall|k: int| 0 <= k < d.ranges.len() implies spec_parse_ip((#[trigger] d.ranges[k]).begin) is Some
            && spec_parse_ip(d.ranges[k].end) is Some by {
            assert(rs[k] == (d.ranges[k].begin, d.ranges[k].end));
        }
    }
}

proof fn lemma_first_definition_error_none(defs: Seq<DefinitionLocalModel>, i: nat, labels: Seq<Seq<char>>)
    ensures
        (first_definition_error(defs, i, labels) is None) == forall|j: int| i <= j < defs.len() ==> definition_ok(
            #[trigger] defs[j],
            labels,
        ),
    decreases defs.len() - i,
{
    if i < defs.len() {
        lemma_definition_error_none(defs[i as int], i, labels);
        lemma_first_definition_error_none(defs, i + 1, labels);
    }
}

/// A document is valid exactly when its `apiVersion`, `kind` and name are
/// the singleton's and every definition is without problem
/// ([`definition_ok`]) against the declared profile labels.
pub proof fn lemma_validate_ok(l: SnmpConfigLocalModel)
    ensures
        (spec_validate(l) is None) == (l.api_version == API_VERSION@ && l.kind == KIND@ && l.metadata.name
            == SINGLETON_NAME@ && forall|j: int| 0 <= j < l.spec.definitions.len() ==> definition_ok(
            #[trigger] l.spec.definitions[j],
            profile_labels(l.spec.profiles),
        )),
{
    lemma_first_definition_error_none(l.spec.definitions, 0, profile_labels(l.spec.profiles));
}
} // verus!
