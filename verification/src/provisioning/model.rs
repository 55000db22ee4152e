//! The local (YAML) model of a `kind: Requisition` document.

use vstd::prelude::*;
use crate::json::{duplicate_entries, entries_model, JsonModel, Value};
use crate::text::{clone_opt, clone_strs, lemma_lex_asym, lemma_lex_irrefl, lemma_lex_total,
    lemma_lex_trans, lex_lt, ostr, str_eq, str_lt, strs};

verus! {

/// The only accepted `apiVersion`.
pub const API_VERSION: &'static str = "provisioning.opennms.org/v1";

/// The only accepted `kind`.
pub const KIND: &'static str = "Requisition";

/// The `apiVersion` marker: a document carries exactly [`API_VERSION`].
#[derive(Clone, Copy, Debug, PartialEq, Eq)]
pub struct ApiVersion;

impl ApiVersion {
    /// The text this marker stands for.
    pub fn text(&self) -> (s: &'static str)
        ensures
            s@ == API_VERSION@,
    {
        API_VERSION
    }
}

/// The `kind` marker: a document carries exactly [`KIND`].
#[derive(Clone, Copy, Debug, PartialEq, Eq)]
pub struct Kind;

impl Kind {
    /// The text this marker stands for.
    pub fn text(&self) -> (s: &'static str)
        ensures
            s@ == KIND@,
    {
        KIND
    }
}

/// The SNMP role of an interface: primary, secondary, or not eligible.
#[derive(Clone, Copy, Debug, PartialEq, Eq)]
pub enum SnmpPrimary {
    P,
    S,
    N,
}

// ---------------------------------------------------------------------------
// Assets
// ---------------------------------------------------------------------------

/// Asset names in strictly ascending order (each name once).
pub open spec fn names_ascending(s: Seq<(Seq<char>, Seq<char>)>) -> bool {
    forall|i: int, j: int| 0 <= i < j < s.len() ==> lex_lt(#[trigger] s[i].0, #[trigger] s[j].0)
}

/// The asset records after setting `name` to `value`: an existing record
/// of that name is replaced in place, otherwise the record is inserted
/// before the first greater name.
pub open spec fn asset_insert(s: Seq<(Seq<char>, Seq<char>)>, name: Seq<char>, value: Seq<char>) -> Seq<
    (Seq<char>, Seq<char>),
>
    decreases s.len(),
{
    if s.len() == 0 {
        seq![(name, value)]
    } else if s[0].0 == name {
        seq![(name, value)] + s.drop_first()
    } else if lex_lt(name, s[0].0) {
        seq![(name, value)] + s
    } else {
        seq![s[0]] + asset_insert(s.drop_first(), name, value)
    }
}

/// The value recorded for `name`, if any.
pub open spec fn asset_get(s: Seq<(Seq<char>, Seq<char>)>, name: Seq<char>) -> Option<Seq<char>>
    decreases s.len(),
{
    if s.len() == 0 {
        None
    } else if s[0].0 == name {
        Some(s[0].1)
    } else {
        asset_get(s.drop_first(), name)
    }
}

/// Reading an asset after setting it gives the value set.
pub proof fn lemma_asset_get_insert_same(s: Seq<(Seq<char>, Seq<char>)>, name: Seq<char>, value: Seq<char>)
    ensures
        asset_get(asset_insert(s, name, value), name) == Some(value),
    decreases s.len(),
{
    if s.len() > 0 && s[0].0 != name && !lex_lt(name, s[0].0) {
        let rest = asset_insert(s.drop_first(), name, value);
        lemma_asset_get_insert_same(s.drop_first(), name, value);
        assert((seq![s[0]] + rest).drop_first() =~= rest);
    }
}

/// Setting one asset leaves every other name's value as it was.
pub proof fn lemma_asset_get_insert_other(
    s: Seq<(Seq<char>, Seq<char>)>,
    name: Seq<char>,
    value: Seq<char>,
    other: Seq<char>,
)
    requires
        other != name,
    ensures
        asset_get(asset_insert(s, name, value), other) == asset_get(s, other),
    decreases s.len(),
{
    let r = asset_insert(s, name, value);
    if s.len() == 0 {
        assert(r.drop_first().len() == 0);
    } else if s[0].0 == name {
        assert(r.drop_first() =~= s.drop_first());
    } else if lex_lt(name, s[0].0) {
        assert(r.drop_first() =~= s);
    } else {
        let rest = asset_insert(s.drop_first(), name, value);
        assert(r.drop_first() =~= rest);
        lemma_asset_get_insert_other(s.drop_first(), name, value, other);
    }
}

/// Asset records of a node: name → value, kept ordered by name with each
/// name at most once (the order a sorted map iterates in).
#[derive(Debug, PartialEq, Eq)]
pub struct Assets {
    entries: Vec<(String, String)>,
}

/// The models of a list of name/value pairs.
pub open spec fn pairs_model(s: Seq<(String, String)>) -> Seq<(Seq<char>, Seq<char>)> {
    s.map_values(|p: (String, String)| (p.0@, p.1@))
}

impl Clone for Assets {
    fn clone(&self) -> (r: Assets)
        ensures
            r@ == self@,
    {
        self.duplicate()
    }
}

impl View for Assets {
    type V = Seq<(Seq<char>, Seq<char>)>;

    closed spec fn view(&self) -> Seq<(Seq<char>, Seq<char>)> {
        pairs_model(self.entries@)
    }
}

proof fn lemma_insert_props(s: Seq<(Seq<char>, Seq<char>)>, name: Seq<char>, value: Seq<char>)
    requires
        names_ascending(s),
    ensures
        names_ascending(asset_insert(s, name, value)),
        forall|i: int|
            0 <= i < asset_insert(s, name, value).len() ==> (#[trigger] asset_insert(
                s,
                name,
                value,
            )[i].0 == name || s.contains(asset_insert(s, name, value)[i])),
    decreases s.len(),
{
    let r = asset_insert(s, name, value);
    if s.len() == 0 {
    } else if s[0].0 == name {
        assert forall|i: int| 0 < i < r.len() implies s.contains(r[i]) by {
            assert(r[i] == s[i]);
        }
        assert forall|i: int, j: int| 0 <= i < j < r.len() implies lex_lt(
            #[trigger] r[i].0,
            #[trigger] r[j].0,
        ) by {
            assert(r[j] == s[j]);
            if i > 0 {
                assert(r[i] == s[i]);
            }
        }
    } else if lex_lt(name, s[0].0) {
        assert forall|i: int| 0 < i < r.len() implies s.contains(r[i]) by {
            assert(r[i] == s[i - 1]);
        }
        assert forall|i: int, j: int| 0 <= i < j < r.len() implies lex_lt(
            #[trigger] r[i].0,
            #[trigger] r[j].0,
        ) by {
            assert(r[j] == s[j - 1]);
            if i > 0 {
                assert(r[i] == s[i - 1]);
            } else if j - 1 > 0 {
                assert(lex_lt(s[0].0, s[j - 1].0));
                lemma_lex_trans(name, s[0].0, s[j - 1].0);
            }
        }
    } else {
        let t = s.drop_first();
        assert forall|i: int, j: int| 0 <= i < j < t.len() implies lex_lt(
            #[trigger] t[i].0,
            #[trigger] t[j].0,
        ) by {
            assert(t[i] == s[i + 1] && t[j] == s[j + 1]);
        }
        lemma_insert_props(t, name, value);
        let rt = asset_insert(t, name, value);
        assert(r == seq![s[0]] + rt);
        lemma_lex_total(name, s[0].0);
        assert forall|i: int| 0 <= i < r.len() implies (#[trigger] r[i].0 == name || s.contains(
            r[i],
        )) by {
            if i > 0 {
                assert(r[i] == rt[i - 1]);
                if rt[i - 1].0 != name {
                    assert(t.contains(rt[i - 1]));
                    let k = choose|k: int| 0 <= k < t.len() && t[k] == rt[i - 1];
                    assert(s[k + 1] == t[k]);
                }
            }
        }
        assert forall|i: int, j: int| 0 <= i < j < r.len() implies lex_lt(
            #[trigger] r[i].0,
            #[trigger] r[j].0,
        ) by {
            assert(r[j] == rt[j - 1]);
            if i > 0 {
                assert(r[i] == rt[i - 1]);
            } else {
                if rt[j - 1].0 == name {
                } else {
                    assert(t.contains(rt[j - 1]));
                    let k = choose|k: int| 0 <= k < t.len() && t[k] == rt[j - 1];
                    assert(s[k + 1] == t[k]);
                }
            }
        }
    }
}

impl Assets {
    #[verifier::type_invariant]
    closed spec fn ascending(self) -> bool {
        names_ascending(pairs_model(self.entries@))
    }

    /// No records.
    pub fn new() -> (r: Assets)
        ensures
            r@ == Seq::<(Seq<char>, Seq<char>)>::empty(),
    {
        let r = Assets { entries: Vec::new() };
        assert(r@ =~= Seq::<(Seq<char>, Seq<char>)>::empty());
        r
    }

    /// Sets `name` to `value` (as a sorted map's `insert` does).
    pub fn insert(&mut self, name: String, value: String)
        ensures
            final(self)@ == asset_insert(old(self)@, name@, value@),
    {
        proof {
            use_type_invariant(&*self);
        }
        let mut e: Vec<(String, String)> = Vec::new();
        std::mem::swap(&mut e, &mut self.entries);
        let ghost s = pairs_model(e@);
        let mut i: usize = 0;
        assert(s.take(0) + asset_insert(s.skip(0), name@, value@) =~= asset_insert(s, name@, value@)) by {
            assert(s.skip(0) == s);
        }
        while i < e.len()
            invariant
                i <= e.len(),
                s == pairs_model(e@),
                names_ascending(s),
                asset_insert(s, name@, value@) == s.take(i as int) + asset_insert(
                    s.skip(i as int),
                    name@,
                    value@,
                ),
            ensures
                i <= e.len(),
                s == pairs_model(e@),
                asset_insert(s, name@, value@) == s.take(i as int) + asset_insert(
                    s.skip(i as int),
                    name@,
                    value@,
                ),
                i < e.len() ==> (s[i as int].0 == name@ || lex_lt(name@, s[i as int].0)),
            decreases e.len() - i,
        {
            let ghost t = s.skip(i as int);
            assert(t[0] == s[i as int]);
            assert(t.drop_first() == s.skip(i + 1));
            if str_eq(e[i].0.as_str(), name.as_str()) {
                assert(s[i as int].0 == name@);
                break;
            }
            if str_lt(name.as_str(), e[i].0.as_str()) {
                assert(lex_lt(name@, s[i as int].0));
                break;
            }
            assert(s.take(i + 1) == s.take(i as int).push(s[i as int]));
            assert(s.take(i as int) + asset_insert(t, name@, value@) == s.take(i + 1)
                + asset_insert(s.skip(i + 1), name@, value@));
            i = i + 1;
        }
        proof {
            lemma_insert_props(s, name@, value@);
        }
        let ghost before = e@;
        if i < e.len() && str_eq(e[i].0.as_str(), name.as_str()) {
            let ghost t = s.skip(i as int);
            assert(t.drop_first() == s.skip(i + 1));
            e.set(i, (name, value));
            assert(pairs_model(e@) =~= asset_insert(s, name@, value@));
        } else {
            e.insert(i, (name, value));
            proof {
                if i < before.len() {
                    let t = s.skip(i as int);
                    assert(t[0] == s[i as int]);
                    assert(asset_insert(t, name@, value@) == seq![(name@, value@)] + t);
                } else {
                    assert(s.skip(i as int).len() == 0);
                    assert(asset_insert(s.skip(i as int), name@, value@) == seq![(name@, value@)]);
                }
            }
            assert(pairs_model(e@) =~= asset_insert(s, name@, value@));
        }
        self.entries = e;
    }

    /// The number of records (which are ordered by name, each name at most
    /// once).
    pub fn len(&self) -> (n: usize)
        ensures
            n == self@.len(),
            names_ascending(self@),
    {
        proof {
            use_type_invariant(self);
        }
        self.entries.len()
    }

    /// Whether there are no records.
    pub fn is_empty(&self) -> (b: bool)
        ensures
            b == (self@.len() == 0),
    {
        self.entries.len() == 0
    }

    /// The name of record `i`.
    pub fn name_at(&self, i: usize) -> (r: &String)
        requires
            i < self@.len(),
        ensures
            r@ == self@[i as int].0,
    {
        &self.entries[i].0
    }

    /// The value of record `i`.
    pub fn value_at(&self, i: usize) -> (r: &String)
        requires
            i < self@.len(),
        ensures
            r@ == self@[i as int].1,
    {
        &self.entries[i].1
    }

    /// The value recorded for `name`, if any (see [`asset_get`]).
    pub fn get(&self, name: &str) -> (r: Option<&String>)
        ensures
            match r {
                Some(v) => asset_get(self@, name@) == Some(v@),
                None => asset_get(self@, name@) is None,
            },
    {
        let ghost s = self@;
        let mut i: usize = 0;
        assert(s.skip(0) == s);
        while i < self.entries.len()
            invariant
                i <= self.entries.len(),
                s == pairs_model(self.entries@),
                asset_get(s, name@) == asset_get(s.skip(i as int), name@),
            decreases self.entries.len() - i,
        {
            let ghost t = s.skip(i as int);
            assert(t[0] == s[i as int]);
            assert(t.drop_first() =~= s.skip(i + 1));
            if str_eq(self.entries[i].0.as_str(), name) {
                return Some(&self.entries[i].1);
            }
            i = i + 1;
        }
        assert(s.skip(i as int).len() == 0);
        None
    }

    /// A copy with the same records.
    pub fn duplicate(&self) -> (r: Assets)
        ensures
            r@ == self@,
    {
        proof {
            use_type_invariant(self);
        }
        let mut out: Vec<(String, String)> = Vec::new();
        let mut i: usize = 0;
        while i < self.entries.len()
            invariant
                i <= self.entries.len(),
                out.len() == i,
                pairs_model(out@) == pairs_model(self.entries@).take(i as int),
            decreases self.entries.len() - i,
        {
            let k = self.entries[i].0.clone();
            let v = self.entries[i].1.clone();
            out.push((k, v));
            assert(pairs_model(out@) =~= pairs_model(self.entries@).take(i + 1));
            i = i + 1;
        }
        assert(pairs_model(self.entries@).take(self.entries.len() as int) == pairs_model(
            self.entries@,
        ));
        Assets { entries: out }
    }
}

/// A `kind: Requisition` document: one requisition with its nodes and,
/// optionally, the foreign-source definition that governs them.
#[derive(Clone, Debug, PartialEq, Eq)]
pub struct RequisitionLocal {
    pub api_version: ApiVersion,
    pub kind: Kind,
    pub metadata: Metadata,
    pub spec: Spec,
}

/// The mathematical model of [`RequisitionLocal`].
pub struct RequisitionLocalModel {
    pub api_version: ApiVersion,
    pub kind: Kind,
    pub metadata: MetadataModel,
    pub spec: SpecModel,
}

impl View for RequisitionLocal {
    type V = RequisitionLocalModel;

    open spec fn view(&self) -> RequisitionLocalModel {
        RequisitionLocalModel {
            api_version: self.api_version,
            kind: self.kind,
            metadata: self.metadata@,
            spec: self.spec@,
        }
    }
}

impl RequisitionLocal {
    /// A copy with the same model.
    pub fn duplicate(&self) -> (r: Self)
        ensures
            r@ == self@,
    {
        RequisitionLocal {
            api_version: self.api_version,
            kind: self.kind,
            metadata: self.metadata.duplicate(),
            spec: self.spec.duplicate(),
        }
    }

}

/// Document metadata. `name` is the requisition (foreign-source) name;
/// `unmodeled` carries XML content that has no place in the model, kept
/// so that a converted document loses nothing.
#[derive(Clone, Debug, PartialEq, Eq)]
pub struct Metadata {
    pub name: String,
    pub unmodeled: Option<Vec<(String, Value)>>,
}

/// The mathematical model of [`Metadata`].
pub struct MetadataModel {
    pub name: Seq<char>,
    pub unmodeled: Option<Seq<(Seq<char>, JsonModel)>>,
}

impl View for Metadata {
    type V = MetadataModel;

    open spec fn view(&self) -> MetadataModel {
        MetadataModel {
            name: self.name@,
            unmodeled: match self.unmodeled { Some(v) => Some(entries_model(v@)), None => None },
        }
    }
}

impl Metadata {
    /// A copy with the same model.
    pub fn duplicate(&self) -> (r: Self)
        ensures
            r@ == self@,
    {
        Metadata {
            name: self.name.clone(),
            unmodeled: match &self.unmodeled { Some(v) => Some(duplicate_entries(v)), None => None },
        }
    }

}

/// The requisition body.
#[derive(Clone, Debug, PartialEq, Eq)]
pub struct Spec {
    /// Optional foreign-source definition; when absent the server's default applies.
    pub foreign_source: Option<ForeignSourceSpec>,
    pub nodes: Vec<Node>,
}

/// The mathematical model of [`Spec`].
pub struct SpecModel {
    pub foreign_source: Option<ForeignSourceSpecModel>,
    pub nodes: Seq<NodeModel>,
}

impl View for Spec {
    type V = SpecModel;

    open spec fn view(&self) -> SpecModel {
        SpecModel {
            foreign_source: match self.foreign_source { Some(v) => Some(v@), None => None },
            nodes: self.nodes@.map_values(|v: Node| v@),
        }
    }
}

impl Spec {
    /// A copy with the same model.
    pub fn duplicate(&self) -> (r: Self)
        ensures
            r@ == self@,
    {
        Spec {
            foreign_source: match &self.foreign_source { Some(v) => Some(v.duplicate()), None => None },
            nodes: Node::duplicate_all(&self.nodes),
        }
    }

}

/// Scan cadence plus the ordered detectors and policies of a foreign source.
#[derive(Clone, Debug, PartialEq, Eq)]
pub struct ForeignSourceSpec {
    pub scan_interval: Option<String>,
    pub detectors: Vec<Detector>,
    pub policies: Vec<Policy>,
}

/// The mathematical model of [`ForeignSourceSpec`].
pub struct ForeignSourceSpecModel {
    pub scan_interval: Option<Seq<char>>,
    pub detectors: Seq<DetectorModel>,
    pub policies: Seq<PolicyModel>,
}

impl View for ForeignSourceSpec {
    type V = ForeignSourceSpecModel;

    open spec fn view(&self) -> ForeignSourceSpecModel {
        ForeignSourceSpecModel {
            scan_interval: ostr(self.scan_interval),
            detectors: self.detectors@.map_values(|v: Detector| v@),
            policies: self.policies@.map_values(|v: Policy| v@),
        }
    }
}

impl ForeignSourceSpec {
    /// A copy with the same model.
    pub fn duplicate(&self) -> (r: Self)
        ensures
            r@ == self@,
    {
        ForeignSourceSpec {
            scan_interval: clone_opt(&self.scan_interval),
            detectors: Detector::duplicate_all(&self.detectors),
            policies: Policy::duplicate_all(&self.policies),
        }
    }

}

/// A service detector; `class` defaults server-side when omitted.
#[derive(Clone, Debug, PartialEq, Eq)]
pub struct Detector {
    pub name: String,
    pub class: Option<String>,
    pub parameters: Vec<Parameter>,
}

/// The mathematical model of [`Detector`].
pub struct DetectorModel {
    pub name: Seq<char>,
    pub class: Option<Seq<char>>,
    pub parameters: Seq<ParameterModel>,
}

impl View for Detector {
    type V = DetectorModel;

    open spec fn view(&self) -> DetectorModel {
        DetectorModel {
            name: self.name@,
            class: ostr(self.class),
            parameters: self.parameters@.map_values(|v: Parameter| v@),
        }
    }
}

impl Detector {
    /// A copy with the same model.
    pub fn duplicate(&self) -> (r: Self)
        ensures
            r@ == self@,
    {
        Detector {
            name: self.name.clone(),
            class: clone_opt(&self.class),
            parameters: Parameter::duplicate_all(&self.parameters),
        }
    }

    /// Copies of every element, in order.
    pub fn duplicate_all(v: &Vec<Self>) -> (r: Vec<Self>)
        ensures
            r@.map_values(|x: Self| x@) == v@.map_values(|x: Self| x@),
            r.len() == v.len(),
    {
        let mut r: Vec<Self> = Vec::new();
        let mut i: usize = 0;
        while i < v.len()
            invariant
                i <= v.len(),
                r.len() == i,
                forall|j: int| 0 <= j < i ==> #[trigger] r@[j]@ == v@[j]@,
            decreases v.len() - i,
        {
            r.push(v[i].duplicate());
            i = i + 1;
        }
        assert(r@.map_values(|x: Self| x@) =~= v@.map_values(|x: Self| x@));
        r
    }
}

/// A provisioning policy.
#[derive(Clone, Debug, PartialEq, Eq)]
pub struct Policy {
    pub name: String,
    pub class: String,
    pub parameters: Vec<Parameter>,
}

/// The mathematical model of [`Policy`].
pub struct PolicyModel {
    pub name: Seq<char>,
    pub class: Seq<char>,
    pub parameters: Seq<ParameterModel>,
}

impl View for Policy {
    type V = PolicyModel;

    open spec fn view(&self) -> PolicyModel {
        PolicyModel {
            name: self.name@,
            class: self.class@,
            parameters: self.parameters@.map_values(|v: Parameter| v@),
        }
    }
}

impl Policy {
    /// A copy with the same model.
    pub fn duplicate(&self) -> (r: Self)
        ensures
            r@ == self@,
    {
        Policy {
            name: self.name.clone(),
            class: self.class.clone(),
            parameters: Parameter::duplicate_all(&self.parameters),
        }
    }

    /// Copies of every element, in order.
    pub fn duplicate_all(v: &Vec<Self>) -> (r: Vec<Self>)
        ensures
            r@.map_values(|x: Self| x@) == v@.map_values(|x: Self| x@),
            r.len() == v.len(),
    {
        let mut r: Vec<Self> = Vec::new();
        let mut i: usize = 0;
        while i < v.len()
            invariant
                i <= v.len(),
                r.len() == i,
                forall|j: int| 0 <= j < i ==> #[trigger] r@[j]@ == v@[j]@,
            decreases v.len() - i,
        {
            r.push(v[i].duplicate());
            i = i + 1;
        }
        assert(r@.map_values(|x: Self| x@) =~= v@.map_values(|x: Self| x@));
        r
    }
}

/// A key/value parameter of a detector or policy.
#[derive(Clone, Debug, PartialEq, Eq)]
pub struct Parameter {
    pub key: String,
    pub value: String,
}

/// The mathematical model of [`Parameter`].
pub struct ParameterModel {
    pub key: Seq<char>,
    pub value: Seq<char>,
}

impl View for Parameter {
    type V = ParameterModel;

    open spec fn view(&self) -> ParameterModel {
        ParameterModel {
            key: self.key@,
            value: self.value@,
        }
    }
}

impl Parameter {
    /// A copy with the same model.
    pub fn duplicate(&self) -> (r: Self)
        ensures
            r@ == self@,
    {
        Parameter {
            key: self.key.clone(),
            value: self.value.clone(),
        }
    }

    /// Copies of every element, in order.
    pub fn duplicate_all(v: &Vec<Self>) -> (r: Vec<Self>)
        ensures
            r@.map_values(|x: Self| x@) == v@.map_values(|x: Self| x@),
            r.len() == v.len(),
    {
        let mut r: Vec<Self> = Vec::new();
        let mut i: usize = 0;
        while i < v.len()
            invariant
                i <= v.len(),
                r.len() == i,
                forall|j: int| 0 <= j < i ==> #[trigger] r@[j]@ == v@[j]@,
            decreases v.len() - i,
        {
            r.push(v[i].duplicate());
            i = i + 1;
        }
        assert(r@.map_values(|x: Self| x@) =~= v@.map_values(|x: Self| x@));
        r
    }
}

/// A node, identified within its requisition by `foreign_id`.
#[derive(Clone, Debug, PartialEq, Eq)]
pub struct Node {
    pub foreign_id: String,
    pub label: String,
    pub location: Option<String>,
    pub interfaces: Vec<Interface>,
    pub categories: Vec<String>,
    pub assets: Assets,
}

/// The mathematical model of [`Node`].
pub struct NodeModel {
    pub foreign_id: Seq<char>,
    pub label: Seq<char>,
    pub location: Option<Seq<char>>,
    pub interfaces: Seq<InterfaceModel>,
    pub categories: Seq<Seq<char>>,
    pub assets: Seq<(Seq<char>, Seq<char>)>,
}

impl View for Node {
    type V = NodeModel;

    open spec fn view(&self) -> NodeModel {
        NodeModel {
            foreign_id: self.foreign_id@,
            label: self.label@,
            location: ostr(self.location),
            interfaces: self.interfaces@.map_values(|v: Interface| v@),
            categories: strs(self.categories@),
            assets: self.assets@,
        }
    }
}

impl Node {
    /// A copy with the same model.
    pub fn duplicate(&self) -> (r: Self)
        ensures
            r@ == self@,
    {
        Node {
            foreign_id: self.foreign_id.clone(),
            label: self.label.clone(),
            location: clone_opt(&self.location),
            interfaces: Interface::duplicate_all(&self.interfaces),
            categories: clone_strs(&self.categories),
            assets: self.assets.duplicate(),
        }
    }

    /// Copies of every element, in order.
    pub fn duplicate_all(v: &Vec<Self>) -> (r: Vec<Self>)
        ensures
            r@.map_values(|x: Self| x@) == v@.map_values(|x: Self| x@),
            r.len() == v.len(),
    {
        let mut r: Vec<Self> = Vec::new();
        let mut i: usize = 0;
        while i < v.len()
            invariant
                i <= v.len(),
                r.len() == i,
                forall|j: int| 0 <= j < i ==> #[trigger] r@[j]@ == v@[j]@,
            decreases v.len() - i,
        {
            r.push(v[i].duplicate());
            i = i + 1;
        }
        assert(r@.map_values(|x: Self| x@) =~= v@.map_values(|x: Self| x@));
        r
    }
}

/// An IP interface of a node with its monitored services.
#[derive(Clone, Debug, PartialEq, Eq)]
pub struct Interface {
    pub ip: String,
    pub services: Vec<String>,
    pub snmp_primary: Option<SnmpPrimary>,
}

/// The mathematical model of [`Interface`].
pub struct InterfaceModel {
    pub ip: Seq<char>,
    pub services: Seq<Seq<char>>,
    pub snmp_primary: Option<SnmpPrimary>,
}

impl View for Interface {
    type V = InterfaceModel;

    open spec fn view(&self) -> InterfaceModel {
        InterfaceModel {
            ip: self.ip@,
            services: strs(self.services@),
            snmp_primary: self.snmp_primary,
        }
    }
}

impl Interface {
    /// A copy with the same model.
    pub fn duplicate(&self) -> (r: Self)
        ensures
            r@ == self@,
    {
        Interface {
            ip: self.ip.clone(),
            services: clone_strs(&self.services),
            snmp_primary: self.snmp_primary,
        }
    }

    /// Copies of every element, in order.
    pub fn duplicate_all(v: &Vec<Self>) -> (r: Vec<Self>)
        ensures
            r@.map_values(|x: Self| x@) == v@.map_values(|x: Self| x@),
            r.len() == v.len(),
    {
        let mut r: Vec<Self> = Vec::new();
        let mut i: usize = 0;
        while i < v.len()
            invariant
                i <= v.len(),
                r.len() == i,
                forall|j: int| 0 <= j < i ==> #[trigger] r@[j]@ == v@[j]@,
            decreases v.len() - i,
        {
            r.push(v[i].duplicate());
            i = i + 1;
        }
        assert(r@.map_values(|x: Self| x@) =~= v@.map_values(|x: Self| x@));
        r
    }
}

} // verus!
