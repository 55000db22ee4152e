//! Three-level diff engine for `kind: Requisition` documents.
//!
//! - L1 ([`l1_compare`]): canonical form + text equality, the "nothing to
//!   apply" short-circuit.
//! - L2 ([`diff_requisition`]): nodes added / removed / modified, keyed by
//!   `foreignId`.
//! - L3 ([`LeafChange`]): per-leaf `{path, from, to}` records inside
//!   modified nodes and the foreign source.
//! - Rescan classifier ([`classify_leaf`], [`aggregate_rescan_decision`]):
//!   whether a change needs existing nodes re-scanned.
//!
//! Canonical form, applied to the JSON representation of a document:
//! object keys sorted; `nodes` sorted by `foreignId`; `interfaces` by `ip`;
//! `parameters` by `key`; `categories` and `services` sorted and
//! deduplicated; `detectors` and `policies` keep their order (their
//! evaluation is order-sensitive).

use vstd::prelude::*;
use crate::json::{
    as_str, duplicate_entries, entries_model, field, find_key, items_model, json_text, key_index,
    lemma_array_model, lemma_entries_models, lemma_object_model, model_of, obj_get, to_json,
    JsonModel, Value,
};
use crate::provisioning::model::{
    Detector, DetectorModel, ForeignSourceSpec, ForeignSourceSpecModel, Interface,
    InterfaceModel, Metadata, MetadataModel, Node, NodeModel, Parameter, ParameterModel, Policy,
    PolicyModel, RequisitionLocal, RequisitionLocalModel, SnmpPrimary, API_VERSION, KIND,
};
use crate::sort::{
    key_fn, equal_keys_identical, lemma_sort_map, lemma_sorted_set_subset, models, sort_by, sort_dedup, sort_keyed,
    sorted_by, sorted_set, Keyed,
};
use crate::text::{append_str, dec, fmt_usize, key_lt, lemma_key_total, own, push_char, starts_with, str_eq, strs};

verus! {

// ---------------------------------------------------------------------------
// JSON representation of a document
// ---------------------------------------------------------------------------

/// One entry when `present`, none otherwise (a field that serialization
/// skips when it is empty or absent).
pub open spec fn opt_entry(present: bool, k: Seq<char>, v: JsonModel) -> Seq<(Seq<char>, JsonModel)> {
    if present {
        seq![(k, v)]
    } else {
        Seq::empty()
    }
}

/// A list of strings as a JSON array.
pub open spec fn str_array(s: Seq<Seq<char>>) -> JsonModel {
    JsonModel::Array(s.map_values(|x: Seq<char>| JsonModel::Str(x)))
}

pub open spec fn parameter_json(p: ParameterModel) -> JsonModel {
    JsonModel::Object(seq![("key"@, JsonModel::Str(p.key)), ("value"@, JsonModel::Str(p.value))])
}

pub open spec fn parameters_json(s: Seq<ParameterModel>) -> JsonModel {
    JsonModel::Array(s.map_values(|p: ParameterModel| parameter_json(p)))
}

pub open spec fn detector_json(d: DetectorModel) -> JsonModel {
    JsonModel::Object(
        opt_entry(
            d.class is Some,
            "class"@,
            JsonModel::Str(
                match d.class {
                    Some(c) => c,
                    None => Seq::empty(),
                },
            ),
        ) + seq![("name"@, JsonModel::Str(d.name))] + opt_entry(
            d.parameters.len() > 0,
            "parameters"@,
            parameters_json(d.parameters),
        ),
    )
}

pub open spec fn policy_json(p: PolicyModel) -> JsonModel {
    JsonModel::Object(
        seq![("class"@, JsonModel::Str(p.class)), ("name"@, JsonModel::Str(p.name))] + opt_entry(
            p.parameters.len() > 0,
            "parameters"@,
            parameters_json(p.parameters),
        ),
    )
}

pub open spec fn foreign_source_json(f: ForeignSourceSpecModel) -> JsonModel {
    JsonModel::Object(
        opt_entry(
            f.detectors.len() > 0,
            "detectors"@,
            JsonModel::Array(f.detectors.map_values(|d: DetectorModel| detector_json(d))),
        ) + opt_entry(
            f.policies.len() > 0,
            "policies"@,
            JsonModel::Array(f.policies.map_values(|p: PolicyModel| policy_json(p))),
        ) + opt_entry(
            f.scan_interval is Some,
            "scanInterval"@,
            JsonModel::Str(
                match f.scan_interval {
                    Some(s) => s,
                    None => Seq::empty(),
                },
            ),
        ),
    )
}

/// The JSON text of an SNMP role (`P`, `S` or `N`).
pub open spec fn snmp_primary_json(p: SnmpPrimary) -> JsonModel {
    JsonModel::Str(
        match p {
            SnmpPrimary::P => seq!['P'],
            SnmpPrimary::S => seq!['S'],
            SnmpPrimary::N => seq!['N'],
        },
    )
}

pub open spec fn interface_json(i: InterfaceModel) -> JsonModel {
    JsonModel::Object(
        seq![("ip"@, JsonModel::Str(i.ip))] + opt_entry(
            i.services.len() > 0,
            "services"@,
            str_array(i.services),
        ) + opt_entry(
            i.snmp_primary is Some,
            "snmpPrimary"@,
            snmp_primary_json(
                match i.snmp_primary {
                    Some(p) => p,
                    None => SnmpPrimary::N,
                },
            ),
        ),
    )
}

/// Asset records as an object (already in name order).
pub open spec fn assets_json(a: Seq<(Seq<char>, Seq<char>)>) -> JsonModel {
    JsonModel::Object(a.map_values(|e: (Seq<char>, Seq<char>)| (e.0, JsonModel::Str(e.1))))
}

pub open spec fn node_json(n: NodeModel) -> JsonModel {
    JsonModel::Object(
        opt_entry(n.assets.len() > 0, "assets"@, assets_json(n.assets)) + opt_entry(
            n.categories.len() > 0,
            "categories"@,
            str_array(n.categories),
        ) + seq![("foreignId"@, JsonModel::Str(n.foreign_id))] + opt_entry(
            n.interfaces.len() > 0,
            "interfaces"@,
            JsonModel::Array(n.interfaces.map_values(|i: InterfaceModel| interface_json(i))),
        ) + seq![("label"@, JsonModel::Str(n.label))] + opt_entry(
            n.location is Some,
            "location"@,
            JsonModel::Str(
                match n.location {
                    Some(l) => l,
                    None => Seq::empty(),
                },
            ),
        ),
    )
}

/// A YAML tree as JSON: every object's entries ordered by key.
pub open spec fn yaml_to_json(v: JsonModel) -> JsonModel
    decreases v,
{
    match v {
        JsonModel::Array(items) => JsonModel::Array(yaml_items_to_json(items)),
        JsonModel::Object(e) => JsonModel::Object(
            sort_by(yaml_entries_to_json(e), key_fn::<(String, Value)>()),
        ),
        _ => v,
    }
}

pub open spec fn yaml_items_to_json(items: Seq<JsonModel>) -> Seq<JsonModel>
    decreases items,
{
    Seq::new(
        items.len(),
        |i: int|
            if 0 <= i < items.len() {
                yaml_to_json(items[i])
            } else {
                JsonModel::Null
            },
    )
}

pub open spec fn yaml_entries_to_json(e: Seq<(Seq<char>, JsonModel)>) -> Seq<(Seq<char>, JsonModel)>
    decreases e,
{
    Seq::new(
        e.len(),
        |i: int|
            if 0 <= i < e.len() {
                (e[i].0, yaml_to_json(e[i].1))
            } else {
                (Seq::empty(), JsonModel::Null)
            },
    )
}

pub open spec fn metadata_json(m: MetadataModel) -> JsonModel {
    JsonModel::Object(
        seq![("name"@, JsonModel::Str(m.name))] + opt_entry(
            m.unmodeled is Some,
            "x-onmsctl-unmodeled"@,
            yaml_to_json(
                JsonModel::Object(
                    match m.unmodeled {
                        Some(u) => u,
                        None => Seq::empty(),
                    },
                ),
            ),
        ),
    )
}

/// The JSON representation of a document, as its serialization gives it:
/// camel-case keys in sorted order, empty lists and absent options left
/// out.
pub open spec fn spec_to_json(l: RequisitionLocalModel) -> JsonModel {
    JsonModel::Object(
        seq![
            ("apiVersion"@, JsonModel::Str(API_VERSION@)),
            ("kind"@, JsonModel::Str(KIND@)),
            ("metadata"@, metadata_json(l.metadata)),
            (
                "spec"@,
                JsonModel::Object(
                    opt_entry(
                        l.spec.foreign_source is Some,
                        "foreignSource"@,
                        foreign_source_json(
                            match l.spec.foreign_source {
                                Some(f) => f,
                                None => ForeignSourceSpecModel {
                                    scan_interval: None,
                                    detectors: Seq::empty(),
                                    policies: Seq::empty(),
                                },
                            },
                        ),
                    ) + seq![
                        (
                            "nodes"@,
                            JsonModel::Array(l.spec.nodes.map_values(|n: NodeModel| node_json(n))),
                        ),
                    ],
                ),
            ),
        ],
    )
}

fn str_value(s: &String) -> (r: Value)
    ensures
        r@ == JsonModel::Str(s@),
{
    Value::Str(s.clone())
}

fn object_of(e: Vec<(String, Value)>) -> (r: Value)
    ensures
        r@ == JsonModel::Object(entries_model(e@)),
{
    proof {
        lemma_object_model(e);
    }
    Value::Object(e)
}

fn array_of(items: Vec<Value>) -> (r: Value)
    ensures
        r@ == JsonModel::Array(items_model(items@)),
{
    proof {
        lemma_array_model(items);
    }
    Value::Array(items)
}

fn str_array_value(v: &Vec<String>) -> (r: Value)
    ensures
        r@ == str_array(strs(v@)),
{
    let mut items: Vec<Value> = Vec::new();
    let mut i: usize = 0;
    while i < v.len()
        invariant
            i <= v.len(),
            items.len() == i,
            forall|j: int| 0 <= j < i ==> #[trigger] items@[j]@ == JsonModel::Str(v@[j]@),
        decreases v.len() - i,
    {
        items.push(str_value(&v[i]));
        i = i + 1;
    }
    let r = array_of(items);
    assert(items_model(items@) =~= strs(v@).map_values(|x: Seq<char>| JsonModel::Str(x)));
    r
}

fn parameter_value(p: &Parameter) -> (r: Value)
    ensures
        r@ == parameter_json(p@),
{
    let mut e: Vec<(String, Value)> = Vec::new();
    e.push((own("key"), str_value(&p.key)));
    e.push((own("value"), str_value(&p.value)));
    assert(entries_model(e@) =~= seq![("key"@, JsonModel::Str(p@.key)), ("value"@, JsonModel::Str(p@.value))]);
    object_of(e)
}

fn parameters_value(v: &Vec<Parameter>) -> (r: Value)
    ensures
        r@ == parameters_json(v@.map_values(|x: Parameter| x@)),
{
    let mut items: Vec<Value> = Vec::new();
    let mut i: usize = 0;
    while i < v.len()
        invariant
            i <= v.len(),
            items.len() == i,
            forall|j: int| 0 <= j < i ==> #[trigger] items@[j]@ == parameter_json(v@[j]@),
        decreases v.len() - i,
    {
        items.push(parameter_value(&v[i]));
        i = i + 1;
    }
    let r = array_of(items);
    assert(items_model(items@) =~= v@.map_values(|x: Parameter| x@).map_values(
        |p: ParameterModel| parameter_json(p),
    ));
    r
}

fn detector_value(d: &Detector) -> (r: Value)
    ensures
        r@ == detector_json(d@),
{
    let mut e: Vec<(String, Value)> = Vec::new();
    let ghost m = d@;
    match &d.class {
        Some(c) => e.push((own("class"), str_value(c))),
        None => {},
    }
    e.push((own("name"), str_value(&d.name)));
    if d.parameters.len() > 0 {
        e.push((own("parameters"), parameters_value(&d.parameters)));
    }
    assert(entries_model(e@) =~= opt_entry(
        m.class is Some,
        "class"@,
        JsonModel::Str(
            match m.class {
                Some(c) => c,
                None => Seq::empty(),
            },
        ),
    ) + seq![("name"@, JsonModel::Str(m.name))] + opt_entry(
        m.parameters.len() > 0,
        "parameters"@,
        parameters_json(m.parameters),
    ));
    object_of(e)
}

fn policy_value(p: &Policy) -> (r: Value)
    ensures
        r@ == policy_json(p@),
{
    let mut e: Vec<(String, Value)> = Vec::new();
    let ghost m = p@;
    e.push((own("class"), str_value(&p.class)));
    e.push((own("name"), str_value(&p.name)));
    if p.parameters.len() > 0 {
        e.push((own("parameters"), parameters_value(&p.parameters)));
    }
    assert(entries_model(e@) =~= seq![("class"@, JsonModel::Str(m.class)), ("name"@, JsonModel::Str(m.name))]
        + opt_entry(m.parameters.len() > 0, "parameters"@, parameters_json(m.parameters)));
    object_of(e)
}

fn foreign_source_value(f: &ForeignSourceSpec) -> (r: Value)
    ensures
        r@ == foreign_source_json(f@),
{
    let ghost m = f@;
    let mut e: Vec<(String, Value)> = Vec::new();
    if f.detectors.len() > 0 {
        let mut items: Vec<Value> = Vec::new();
        let mut i: usize = 0;
        while i < f.detectors.len()
            invariant
                i <= f.detectors.len(),
                items.len() == i,
                forall|j: int|
                    0 <= j < i ==> #[trigger] items@[j]@ == detector_json(f.detectors@[j]@),
            decreases f.detectors.len() - i,
        {
            items.push(detector_value(&f.detectors[i]));
            i = i + 1;
        }
        assert(items_model(items@) =~= m.detectors.map_values(|d: DetectorModel| detector_json(d)));
        e.push((own("detectors"), array_of(items)));
    }
    if f.policies.len() > 0 {
        let mut items: Vec<Value> = Vec::new();
        let mut i: usize = 0;
        while i < f.policies.len()
            invariant
                i <= f.policies.len(),
                items.len() == i,
                forall|j: int| 0 <= j < i ==> #[trigger] items@[j]@ == policy_json(f.policies@[j]@),
            decreases f.policies.len() - i,
        {
            items.push(policy_value(&f.policies[i]));
            i = i + 1;
        }
        assert(items_model(items@) =~= m.policies.map_values(|p: PolicyModel| policy_json(p)));
        e.push((own("policies"), array_of(items)));
    }
    match &f.scan_interval {
        Some(s) => e.push((own("scanInterval"), str_value(s))),
        None => {},
    }
    assert(entries_model(e@) =~= opt_entry(
        m.detectors.len() > 0,
        "detectors"@,
        JsonModel::Array(m.detectors.map_values(|d: DetectorModel| detector_json(d))),
    ) + opt_entry(
        m.policies.len() > 0,
        "policies"@,
        JsonModel::Array(m.policies.map_values(|p: PolicyModel| policy_json(p))),
    ) + opt_entry(
        m.scan_interval is Some,
        "scanInterval"@,
        JsonModel::Str(
            match m.scan_interval {
                Some(s) => s,
                None => Seq::empty(),
            },
        ),
    ));
    object_of(e)
}

fn interface_value(i: &Interface) -> (r: Value)
    ensures
        r@ == interface_json(i@),
{
    let ghost m = i@;
    let mut e: Vec<(String, Value)> = Vec::new();
    e.push((own("ip"), str_value(&i.ip)));
    if i.services.len() > 0 {
        e.push((own("services"), str_array_value(&i.services)));
    }
    match i.snmp_primary {
        Some(p) => {
            let t = match p {
                SnmpPrimary::P => "P",
                SnmpPrimary::S => "S",
                SnmpPrimary::N => "N",
            };
            proof {
                reveal_strlit("P");
                reveal_strlit("S");
                reveal_strlit("N");
                assert("P"@ =~= seq!['P']);
                assert("S"@ =~= seq!['S']);
                assert("N"@ =~= seq!['N']);
            }
            let v = Value::Str(own(t));
            assert(v@ == snmp_primary_json(p));
            e.push((own("snmpPrimary"), v));
        },
        None => {},
    }
    assert(entries_model(e@) =~= seq![("ip"@, JsonModel::Str(m.ip))] + opt_entry(
        m.services.len() > 0,
        "services"@,
        str_array(m.services),
    ) + opt_entry(
        m.snmp_primary is Some,
        "snmpPrimary"@,
        snmp_primary_json(
            match m.snmp_primary {
                Some(p) => p,
                None => SnmpPrimary::N,
            },
        ),
    ));
    object_of(e)
}

fn node_value(n: &Node) -> (r: Value)
    ensures
        r@ == node_json(n@),
{
    let ghost m = n@;
    let mut e: Vec<(String, Value)> = Vec::new();
    let count = n.assets.len();
    if count > 0 {
        let mut a: Vec<(String, Value)> = Vec::new();
        let mut i: usize = 0;
        while i < count
            invariant
                i <= count,
                count == n.assets@.len(),
                a.len() == i,
                forall|j: int|
                    0 <= j < i ==> #[trigger] entries_model(a@)[j] == (
                        n.assets@[j].0,
                        JsonModel::Str(n.assets@[j].1),
                    ),
            decreases count - i,
        {
            let ghost before = a@;
            a.push((n.assets.name_at(i).clone(), str_value(n.assets.value_at(i))));
            assert forall|j: int| 0 <= j < i + 1 implies #[trigger] entries_model(a@)[j] == (
                n.assets@[j].0,
                JsonModel::Str(n.assets@[j].1),
            ) by {
                if j < i {
                    assert(a@[j] == before[j]);
                    assert(entries_model(before)[j] == entries_model(a@)[j]);
                }
            }
            i = i + 1;
        }
        assert(entries_model(a@) =~= m.assets.map_values(
            |x: (Seq<char>, Seq<char>)| (x.0, JsonModel::Str(x.1)),
        ));
        e.push((own("assets"), object_of(a)));
    }
    if n.categories.len() > 0 {
        e.push((own("categories"), str_array_value(&n.categories)));
    }
    e.push((own("foreignId"), str_value(&n.foreign_id)));
    if n.interfaces.len() > 0 {
        let mut items: Vec<Value> = Vec::new();
        let mut i: usize = 0;
        while i < n.interfaces.len()
            invariant
                i <= n.interfaces.len(),
                items.len() == i,
                forall|j: int|
                    0 <= j < i ==> #[trigger] items@[j]@ == interface_json(n.interfaces@[j]@),
            decreases n.interfaces.len() - i,
        {
            items.push(interface_value(&n.interfaces[i]));
            i = i + 1;
        }
        assert(items_model(items@) =~= m.interfaces.map_values(
            |x: InterfaceModel| interface_json(x),
        ));
        e.push((own("interfaces"), array_of(items)));
    }
    e.push((own("label"), str_value(&n.label)));
    match &n.location {
        Some(l) => e.push((own("location"), str_value(l))),
        None => {},
    }
    assert(entries_model(e@) =~= opt_entry(m.assets.len() > 0, "assets"@, assets_json(m.assets))
        + opt_entry(m.categories.len() > 0, "categories"@, str_array(m.categories)) + seq![
        ("foreignId"@, JsonModel::Str(m.foreign_id)),
    ] + opt_entry(
        m.interfaces.len() > 0,
        "interfaces"@,
        JsonModel::Array(m.interfaces.map_values(|x: InterfaceModel| interface_json(x))),
    ) + seq![("label"@, JsonModel::Str(m.label))] + opt_entry(
        m.location is Some,
        "location"@,
        JsonModel::Str(
            match m.location {
                Some(l) => l,
                None => Seq::empty(),
            },
        ),
    ));
    object_of(e)
}

fn yaml_json(v: &Value) -> (r: Value)
    ensures
        r@ == yaml_to_json(v@),
    decreases v,
{
    match v {
        Value::Array(items) => {
            proof {
                lemma_array_model(*items);
            }
            array_of(yaml_items(items))
        },
        Value::Object(e) => {
            proof {
                lemma_object_model(*e);
            }
            let pairs = yaml_entries(e);
            proof {
                lemma_entries_models(pairs@);
            }
            let sorted = sort_keyed(pairs);
            proof {
                lemma_entries_models(sorted@);
            }
            object_of(sorted)
        },
        _ => v.duplicate(),
    }
}

#[verifier::loop_isolation(false)]
fn yaml_items(items: &Vec<Value>) -> (r: Vec<Value>)
    ensures
        items_model(r@) == yaml_items_to_json(items_model(items@)),
    decreases items,
{
    let mut out: Vec<Value> = Vec::new();
    let mut i: usize = 0;
    while i < items.len()
        invariant
            i <= items.len(),
            out.len() == i,
            forall|j: int| 0 <= j < i ==> #[trigger] out@[j]@ == yaml_to_json(items@[j]@),
        decreases items.len() - i,
    {
        out.push(yaml_json(&items[i]));
        i = i + 1;
    }
    assert(items_model(out@) =~= yaml_items_to_json(items_model(items@)));
    out
}

#[verifier::loop_isolation(false)]
fn yaml_entries(e: &Vec<(String, Value)>) -> (r: Vec<(String, Value)>)
    ensures
        entries_model(r@) == yaml_entries_to_json(entries_model(e@)),
    decreases e,
{
    let mut out: Vec<(String, Value)> = Vec::new();
    let mut i: usize = 0;
    while i < e.len()
        invariant
            i <= e.len(),
            out.len() == i,
            forall|j: int|
                0 <= j < i ==> #[trigger] out@[j].0@ == e@[j].0@ && out@[j].1@ == yaml_to_json(
                    e@[j].1@,
                ),
        decreases e.len() - i,
    {
        let x = yaml_json(&e[i].1);
        out.push((e[i].0.clone(), x));
        i = i + 1;
    }
    assert(entries_model(out@) =~= yaml_entries_to_json(entries_model(e@)));
    out
}

fn metadata_value(m: &Metadata) -> (r: Value)
    ensures
        r@ == metadata_json(m@),
{
    let ghost mm = m@;
    let mut e: Vec<(String, Value)> = Vec::new();
    e.push((own("name"), str_value(&m.name)));
    match &m.unmodeled {
        Some(u) => {
            let obj = object_of(duplicate_entries(u));
            e.push((own("x-onmsctl-unmodeled"), yaml_json(&obj)));
        },
        None => {},
    }
    assert(entries_model(e@) =~= seq![("name"@, JsonModel::Str(mm.name))] + opt_entry(
        mm.unmodeled is Some,
        "x-onmsctl-unmodeled"@,
        yaml_to_json(
            JsonModel::Object(
                match mm.unmodeled {
                    Some(u) => u,
                    None => Seq::empty(),
                },
            ),
        ),
    ));
    object_of(e)
}

/// The JSON representation of a document (see [`spec_to_json`]).
pub fn to_value(l: &RequisitionLocal) -> (r: Value)
    ensures
        r@ == spec_to_json(l@),
{
    let ghost m = l@;
    let mut spec_e: Vec<(String, Value)> = Vec::new();
    match &l.spec.foreign_source {
        Some(f) => spec_e.push((own("foreignSource"), foreign_source_value(f))),
        None => {},
    }
    let mut nodes: Vec<Value> = Vec::new();
    let mut i: usize = 0;
    while i < l.spec.nodes.len()
        invariant
            i <= l.spec.nodes.len(),
            nodes.len() == i,
            forall|j: int| 0 <= j < i ==> #[trigger] nodes@[j]@ == node_json(l.spec.nodes@[j]@),
        decreases l.spec.nodes.len() - i,
    {
        nodes.push(node_value(&l.spec.nodes[i]));
        i = i + 1;
    }
    assert(items_model(nodes@) =~= m.spec.nodes.map_values(|n: NodeModel| node_json(n)));
    spec_e.push((own("nodes"), array_of(nodes)));
    let mut e: Vec<(String, Value)> = Vec::new();
    e.push((own("apiVersion"), Value::Str(own(API_VERSION))));
    e.push((own("kind"), Value::Str(own(KIND))));
    e.push((own("metadata"), metadata_value(&l.metadata)));
    let ghost fs_default = ForeignSourceSpecModel {
        scan_interval: None,
        detectors: Seq::empty(),
        policies: Seq::empty(),
    };
    assert(entries_model(spec_e@) =~= opt_entry(
        m.spec.foreign_source is Some,
        "foreignSource"@,
        foreign_source_json(
            match m.spec.foreign_source {
                Some(f) => f,
                None => fs_default,
            },
        ),
    ) + seq![("nodes"@, JsonModel::Array(m.spec.nodes.map_values(|n: NodeModel| node_json(n))))]);
    e.push((own("spec"), object_of(spec_e)));
    let r = object_of(e);
    assert(entries_model(e@) =~= seq![
        ("apiVersion"@, JsonModel::Str(API_VERSION@)),
        ("kind"@, JsonModel::Str(KIND@)),
        ("metadata"@, metadata_json(m.metadata)),
        (
            "spec"@,
            JsonModel::Object(
                opt_entry(
                    m.spec.foreign_source is Some,
                    "foreignSource"@,
                    foreign_source_json(
                        match m.spec.foreign_source {
                            Some(f) => f,
                            None => fs_default,
                        },
                    ),
                ) + seq![
                    ("nodes"@, JsonModel::Array(m.spec.nodes.map_values(|n: NodeModel| node_json(n)))),
                ],
            ),
        ),
    ]);
    r
}

// ---------------------------------------------------------------------------
// Canonical form
// ---------------------------------------------------------------------------

/// The field name an array rule is chosen by: a model field name, or the
/// empty text for any other key.
pub open spec fn static_name(k: Seq<char>) -> Seq<char> {
    if k == "apiVersion"@ || k == "kind"@ || k == "metadata"@ || k == "spec"@ || k == "name"@ || k == "foreignSource"@ || k == "scanInterval"@ || k == "detectors"@ || k == "policies"@ || k == "class"@ || k == "parameters"@ || k == "key"@ || k == "value"@ || k == "nodes"@ || k == "foreignId"@ || k == "label"@ || k == "interfaces"@ || k == "categories"@ || k == "assets"@ || k == "ip"@ || k == "services"@ || k == "snmpPrimary"@ {
        k
    } else {
        Seq::empty()
    }
}

/// The text of field `f` of an object when it is a string, else empty.
pub open spec fn field_text(x: JsonModel, f: Seq<char>) -> Seq<char> {
    match as_str(field(x, f)) {
        Some(s) => s,
        None => Seq::empty(),
    }
}

/// Sort key: the text of field `f`.
pub open spec fn by_field(f: Seq<char>) -> spec_fn(JsonModel) -> Seq<Seq<char>> {
    |x: JsonModel| seq![field_text(x, f)]
}

/// The text of a string value, else empty.
pub open spec fn value_text(x: JsonModel) -> Seq<char> {
    match x {
        JsonModel::Str(s) => s,
        _ => Seq::empty(),
    }
}

/// Sort key: the value's own text.
pub open spec fn by_text() -> spec_fn(JsonModel) -> Seq<Seq<char>> {
    |x: JsonModel| seq![value_text(x)]
}

/// `s` without every string equal to the string just before it.
pub open spec fn dedup_strs(s: Seq<JsonModel>) -> Seq<JsonModel>
    decreases s.len(),
{
    if s.len() <= 1 {
        s
    } else if s.last() is Str && s.last() == s[s.len() - 2] {
        dedup_strs(s.drop_last())
    } else {
        dedup_strs(s.drop_last()).push(s.last())
    }
}

/// The rule for an array held by the field named `last`.
pub open spec fn array_rule(last: Seq<char>, items: Seq<JsonModel>) -> Seq<JsonModel> {
    if last == "nodes"@ {
        sort_by(items, by_field("foreignId"@))
    } else if last == "interfaces"@ {
        sort_by(items, by_field("ip"@))
    } else if last == "parameters"@ {
        sort_by(items, by_field("key"@))
    } else if last == "categories"@ || last == "services"@ {
        dedup_strs(sort_by(items, by_text()))
    } else {
        items
    }
}

/// The canonical form of `v`, found under the field named `last`: every
/// object's values normalized under their own keys, every array's items
/// normalized and the array rule applied.
pub open spec fn normalize(v: JsonModel, last: Seq<char>) -> JsonModel
    decreases v,
{
    match v {
        JsonModel::Object(e) => JsonModel::Object(normalize_entries(e)),
        JsonModel::Array(items) => JsonModel::Array(array_rule(last, normalize_items(items, last))),
        _ => v,
    }
}

pub open spec fn normalize_entries(e: Seq<(Seq<char>, JsonModel)>) -> Seq<(Seq<char>, JsonModel)>
    decreases e,
{
    Seq::new(
        e.len(),
        |i: int|
            if 0 <= i < e.len() {
                (e[i].0, normalize(e[i].1, static_name(e[i].0)))
            } else {
                (Seq::empty(), JsonModel::Null)
            },
    )
}

pub open spec fn normalize_items(items: Seq<JsonModel>, last: Seq<char>) -> Seq<JsonModel>
    decreases items,
{
    Seq::new(
        items.len(),
        |i: int|
            if 0 <= i < items.len() {
                normalize(items[i], last)
            } else {
                JsonModel::Null
            },
    )
}

/// The canonical value of a document.
pub open spec fn spec_canonical_value(l: RequisitionLocalModel) -> JsonModel {
    normalize(spec_to_json(l), Seq::empty())
}

/// The canonical text of a document.
pub open spec fn spec_canonical_text(l: RequisitionLocalModel) -> Seq<char> {
    json_text(spec_canonical_value(l))
}

fn static_name_of(k: &str) -> (r: String)
    ensures
        r@ == static_name(k@),
{
    let names: [&str; 22] = ["apiVersion", "kind", "metadata", "spec", "name", "foreignSource", "scanInterval", "detectors", "policies", "class", "parameters", "key", "value", "nodes", "foreignId", "label", "interfaces", "categories", "assets", "ip", "services", "snmpPrimary"];
    let mut i: usize = 0;
    while i < 22
        invariant
            0 <= i <= 22,
            names@.map_values(|x: &str| x@) == seq!["apiVersion"@, "kind"@, "metadata"@, "spec"@, "name"@, "foreignSource"@, "scanInterval"@, "detectors"@, "policies"@, "class"@, "parameters"@, "key"@, "value"@, "nodes"@, "foreignId"@, "label"@, "interfaces"@, "categories"@, "assets"@, "ip"@, "services"@, "snmpPrimary"@],
            forall|j: int| 0 <= j < i ==> (#[trigger] names@[j])@ != k@,
        decreases 22 - i,
    {
        if str_eq(names[i], k) {
            return own(k);
        }
        i = i + 1;
    }
    String::new()
}

fn field_text_of(x: &Value, f: &str) -> (r: String)
    ensures
        r@ == field_text(x@, f@),
{
    match x {
        Value::Object(e) => {
            proof {
                lemma_object_model(*e);
            }
            match obj_get(e, f) {
                Some(Value::Str(s)) => s.clone(),
                _ => String::new(),
            }
        },
        _ => String::new(),
    }
}

fn value_text_of(x: &Value) -> (r: String)
    ensures
        r@ == value_text(x@),
{
    match x {
        Value::Str(s) => s.clone(),
        _ => String::new(),
    }
}

/// Stable sort of `items` by the text `key` computes for each.
fn sort_items_by(items: Vec<Value>, f: Option<&str>) -> (r: Vec<Value>)
    ensures
        items_model(r@) == sort_by(
            items_model(items@),
            match f {
                Some(name) => by_field(name@),
                None => by_text(),
            },
        ),
{
    let ghost k = match f {
        Some(name) => by_field(name@),
        None => by_text(),
    };
    let mut pairs: Vec<(String, Value)> = Vec::new();
    let mut i: usize = 0;
    while i < items.len()
        invariant
            i <= items.len(),
            pairs.len() == i,
            k == (match f {
                Some(name) => by_field(name@),
                None => by_text(),
            }),
            forall|j: int|
                0 <= j < i ==> (#[trigger] pairs@[j]).1@ == items@[j]@ && seq![pairs@[j].0@] == k(
                    items@[j]@,
                ),
        decreases items.len() - i,
    {
        let t = match f {
            Some(name) => field_text_of(&items[i], name),
            None => value_text_of(&items[i]),
        };
        pairs.push((t, items[i].duplicate()));
        i = i + 1;
    }
    let ghost g = |m: JsonModel| (k(m)[0], m);
    let ghost kp = key_fn::<(String, Value)>();
    proof {
        assert(models(pairs@) =~= items_model(items@).map_values(g));
        assert forall|m: JsonModel| #[trigger] kp(g(m)) == k(m) by {
            assert(k(m).len() == 1);
            assert(kp(g(m)) =~= k(m));
        }
        lemma_sort_map(items_model(items@), k, g, kp);
    }
    let sorted = sort_keyed(pairs);
    let mut out: Vec<Value> = Vec::new();
    let mut i: usize = 0;
    while i < sorted.len()
        invariant
            i <= sorted.len(),
            out.len() == i,
            forall|j: int| 0 <= j < i ==> #[trigger] out@[j]@ == sorted@[j].1@,
        decreases sorted.len() - i,
    {
        out.push(sorted[i].1.duplicate());
        i = i + 1;
    }
    proof {
        let target = sort_by(items_model(items@), k);
        assert(models(sorted@) == target.map_values(g));
        assert(models(sorted@).len() == sorted@.len());
        assert(target.map_values(g).len() == target.len());
        assert forall|j: int| 0 <= j < out.len() implies items_model(out@)[j] == target[j] by {
            assert(models(sorted@)[j] == sorted@[j]@);
            assert(target.map_values(g)[j] == g(target[j]));
        }
        assert(items_model(out@) =~= target);
    }
    out
}

/// Removes every string equal to the string just before it.
fn dedup_string_items(items: Vec<Value>) -> (r: Vec<Value>)
    ensures
        items_model(r@) == dedup_strs(items_model(items@)),
{
    let ghost m = items_model(items@);
    let mut out: Vec<Value> = Vec::new();
    let mut i: usize = 0;
    while i < items.len()
        invariant
            i <= items.len(),
            m == items_model(items@),
            items_model(out@) == dedup_strs(m.take(i as int)),
        decreases items.len() - i,
    {
        let ghost t = m.take(i + 1);
        proof {
            assert(t.drop_last() == m.take(i as int));
            assert(t.last() == items@[i as int]@);
        }
        let dup = i > 0 && match &items[i] {
            Value::Str(_) => items[i].same(&items[i - 1]),
            _ => false,
        };
        proof {
            if i > 0 {
                assert(t[t.len() - 2] == items@[i - 1]@);
            }
        }
        if !dup {
            out.push(items[i].duplicate());
            assert(items_model(out@) =~= dedup_strs(t));
        } else {
            assert(items_model(out@) == dedup_strs(t));
        }
        i = i + 1;
    }
    assert(m.take(items.len() as int) == m);
    out
}

/// Applies the array rule for the field named `last`.
fn apply_array_rule(last: &str, items: Vec<Value>) -> (r: Vec<Value>)
    ensures
        items_model(r@) == array_rule(last@, items_model(items@)),
{
    if str_eq(last, "nodes") {
        sort_items_by(items, Some("foreignId"))
    } else if str_eq(last, "interfaces") {
        sort_items_by(items, Some("ip"))
    } else if str_eq(last, "parameters") {
        sort_items_by(items, Some("key"))
    } else if str_eq(last, "categories") || str_eq(last, "services") {
        dedup_string_items(sort_items_by(items, None))
    } else {
        items
    }
}

/// The canonical form of `v` found under the field named `last`.
pub fn normalized(v: &Value, last: &str) -> (r: Value)
    ensures
        r@ == normalize(v@, last@),
    decreases v,
{
    match v {
        Value::Object(e) => {
            proof {
                lemma_object_model(*e);
            }
            object_of(normalized_entries(e))
        },
        Value::Array(items) => {
            proof {
                lemma_array_model(*items);
            }
            let n = normalized_items(items, last);
            array_of(apply_array_rule(last, n))
        },
        _ => v.duplicate(),
    }
}

#[verifier::loop_isolation(false)]
fn normalized_entries(e: &Vec<(String, Value)>) -> (r: Vec<(String, Value)>)
    ensures
        entries_model(r@) == normalize_entries(entries_model(e@)),
    decreases e,
{
    let mut out: Vec<(String, Value)> = Vec::new();
    let mut i: usize = 0;
    while i < e.len()
        invariant
            i <= e.len(),
            out.len() == i,
            forall|j: int|
                0 <= j < i ==> #[trigger] out@[j].0@ == e@[j].0@ && out@[j].1@ == normalize(
                    e@[j].1@,
                    static_name(e@[j].0@),
                ),
        decreases e.len() - i,
    {
        let name = static_name_of(e[i].0.as_str());
        let x = normalized(&e[i].1, name.as_str());
        out.push((e[i].0.clone(), x));
        i = i + 1;
    }
    assert(entries_model(out@) =~= normalize_entries(entries_model(e@)));
    out
}

#[verifier::loop_isolation(false)]
fn normalized_items(items: &Vec<Value>, last: &str) -> (r: Vec<Value>)
    ensures
        items_model(r@) == normalize_items(items_model(items@), last@),
    decreases items,
{
    let mut out: Vec<Value> = Vec::new();
    let mut i: usize = 0;
    while i < items.len()
        invariant
            i <= items.len(),
            out.len() == i,
            forall|j: int| 0 <= j < i ==> #[trigger] out@[j]@ == normalize(items@[j]@, last@),
        decreases items.len() - i,
    {
        out.push(normalized(&items[i], last));
        i = i + 1;
    }
    assert(items_model(out@) =~= normalize_items(items_model(items@), last@));
    out
}

/// The canonical value of a document: its JSON representation with every
/// canonicalization rule applied.
pub fn canonical_value(req: &RequisitionLocal) -> (r: Value)
    ensures
        r@ == spec_canonical_value(req@),
{
    let v = to_value(req);
    normalized(&v, "")
}

/// The canonical text of a document: compact JSON of its canonical value.
/// Documents with the same logical content give the same text whatever
/// the order of keys, nodes, interfaces, parameters and set members.
pub fn canonical_text(req: &RequisitionLocal) -> (r: String)
    ensures
        r@ == spec_canonical_text(req@),
{
    to_json(&canonical_value(req))
}

/// The canonical bytes of a document: the UTF-8 encoding of its canonical
/// text.
pub fn canonicalize(req: &RequisitionLocal) -> (r: Vec<u8>)
    ensures
        r@ == vstd::utf8::encode_utf8(spec_canonical_text(req@)),
{
    let t = canonical_text(req);
    let b = t.as_str().as_bytes();
    let mut out: Vec<u8> = Vec::new();
    let mut i: usize = 0;
    while i < b.len()
        invariant
            i <= b@.len(),
            out@ == b@.take(i as int),
        decreases b@.len() - i,
    {
        out.push(b[i]);
        assert(b@.take(i + 1) == b@.take(i as int).push(b@[i as int]));
        i = i + 1;
    }
    assert(b@.take(b@.len() as int) == b@);
    out
}

/// L1 comparison outcome.
#[derive(Debug, Clone, Copy, PartialEq, Eq, Structural)]
pub enum L1Result {
    /// Both sides have the same canonical text: nothing to apply.
    Unchanged,
    /// The sides differ in some meaningful way.
    Changed,
}

/// The L1 result is `Unchanged` exactly when the canonical texts agree.
pub open spec fn spec_l1(local: RequisitionLocalModel, remote: RequisitionLocalModel) -> L1Result {
    if spec_canonical_text(local) == spec_canonical_text(remote) {
        L1Result::Unchanged
    } else {
        L1Result::Changed
    }
}

/// Compares two documents by their canonical text.
pub fn l1_compare(local: &RequisitionLocal, remote: &RequisitionLocal) -> (r: L1Result)
    ensures
        r == spec_l1(local@, remote@),
{
    let a = canonical_text(local);
    let b = canonical_text(remote);
    if str_eq(a.as_str(), b.as_str()) {
        L1Result::Unchanged
    } else {
        L1Result::Changed
    }
}

// ---------------------------------------------------------------------------
// L3: per-leaf delta
// ---------------------------------------------------------------------------

/// A single leaf change. `from` is the remote (server) side, `to` the local
/// side; either is null when the leaf is absent on that side.
#[derive(Debug, PartialEq, Eq)]
pub struct LeafChange {
    /// Dotted path from the document root, `[N]` for array indices.
    pub path: String,
    pub from: Value,
    pub to: Value,
}

/// The mathematical model of [`LeafChange`].
pub struct LeafChangeModel {
    pub path: Seq<char>,
    pub from: JsonModel,
    pub to: JsonModel,
}

impl View for LeafChange {
    type V = LeafChangeModel;

    open spec fn view(&self) -> LeafChangeModel {
        LeafChangeModel { path: self.path@, from: self.from@, to: self.to@ }
    }
}

impl LeafChange {
    /// A copy with the same model.
    pub fn duplicate(&self) -> (r: LeafChange)
        ensures
            r@ == self@,
    {
        LeafChange { path: self.path.clone(), from: self.from.duplicate(), to: self.to.duplicate() }
    }
}

/// The models of a list of leaf changes.
pub open spec fn leaves_model(s: Seq<LeafChange>) -> Seq<LeafChangeModel> {
    s.map_values(|c: LeafChange| c@)
}

/// The path of object field `k` under `path`.
pub open spec fn key_path(path: Seq<char>, k: Seq<char>) -> Seq<char> {
    if path.len() == 0 {
        k
    } else {
        path + seq!['.'] + k
    }
}

/// The path of array element `i` under `path`.
pub open spec fn index_path(path: Seq<char>, i: nat) -> Seq<char> {
    path + seq!['['] + dec(i) + seq![']']
}

/// One leaf change at `path` when `l` and `r` differ, none otherwise.
pub open spec fn leaf_if_differs(l: JsonModel, r: JsonModel, path: Seq<char>) -> Seq<LeafChangeModel> {
    if l == r {
        Seq::empty()
    } else {
        seq![LeafChangeModel { path, from: r, to: l }]
    }
}

/// The concatenation of a list of lists.
pub open spec fn concat<A>(s: Seq<Seq<A>>) -> Seq<A>
    decreases s.len(),
{
    if s.len() == 0 {
        Seq::empty()
    } else {
        concat(s.drop_last()) + s.last()
    }
}

/// The keys of two objects, sorted and without repeats.
pub open spec fn union_keys(le: Seq<(Seq<char>, JsonModel)>, re: Seq<(Seq<char>, JsonModel)>) -> Seq<
    Seq<char>,
> {
    sorted_set(
        le.map_values(|e: (Seq<char>, JsonModel)| e.0) + re.map_values(
            |e: (Seq<char>, JsonModel)| e.0,
        ),
    )
}

/// The leaf changes between local `l` and remote `r` at `path`: objects
/// are walked over the union of their keys, arrays position by position,
/// a side missing a key or position counts as null, and any other
/// difference is one leaf change.
pub open spec fn diff_leaves(l: JsonModel, r: JsonModel, path: Seq<char>) -> Seq<LeafChangeModel>
    decreases l,
{
    if l == r {
        Seq::empty()
    } else {
        match l {
            JsonModel::Object(le) => match r {
                JsonModel::Object(re) => concat(object_child_diffs(le, re, path)),
                _ => seq![LeafChangeModel { path, from: r, to: l }],
            },
            JsonModel::Array(li) => match r {
                JsonModel::Array(ri) => concat(array_child_diffs(li, ri, path)),
                _ => seq![LeafChangeModel { path, from: r, to: l }],
            },
            _ => seq![LeafChangeModel { path, from: r, to: l }],
        }
    }
}

/// The changes under each key of the union, in key order.
pub open spec fn object_child_diffs(
    le: Seq<(Seq<char>, JsonModel)>,
    re: Seq<(Seq<char>, JsonModel)>,
    path: Seq<char>,
) -> Seq<Seq<LeafChangeModel>>
    decreases le,
{
    let keys = union_keys(le, re);
    Seq::new(
        keys.len(),
        |j: int|
            {
                let k = keys[j];
                let a = key_index(le, k);
                let b = key_index(re, k);
                if 0 <= a < le.len() {
                    if 0 <= b < re.len() {
                        diff_leaves(le[a].1, re[b].1, key_path(path, k))
                    } else {
                        leaf_if_differs(le[a].1, JsonModel::Null, key_path(path, k))
                    }
                } else if 0 <= b < re.len() {
                    leaf_if_differs(JsonModel::Null, re[b].1, key_path(path, k))
                } else {
                    Seq::empty()
                }
            },
    )
}

/// The changes at each position up to the longer length.
pub open spec fn array_child_diffs(li: Seq<JsonModel>, ri: Seq<JsonModel>, path: Seq<char>) -> Seq<
    Seq<LeafChangeModel>,
>
    decreases li,
{
    Seq::new(
        if li.len() >= ri.len() {
            li.len()
        } else {
            ri.len()
        },
        |i: int|
            if 0 <= i < li.len() && i < ri.len() {
                diff_leaves(li[i], ri[i], index_path(path, i as nat))
            } else if 0 <= i < li.len() {
                leaf_if_differs(li[i], JsonModel::Null, index_path(path, i as nat))
            } else {
                leaf_if_differs(JsonModel::Null, ri[i], index_path(path, i as nat))
            },
    )
}

fn key_path_of(path: &str, k: &str) -> (r: String)
    ensures
        r@ == key_path(path@, k@),
{
    if path.is_empty() {
        own(k)
    } else {
        let mut r = own(path);
        push_char(&mut r, '.');
        append_str(&mut r, k);
        r
    }
}

fn index_path_of(path: &str, i: usize) -> (r: String)
    ensures
        r@ == index_path(path@, i as nat),
{
    let mut r = own(path);
    push_char(&mut r, '[');
    let d = fmt_usize(i);
    append_str(&mut r, d.as_str());
    push_char(&mut r, ']');
    r
}

fn push_leaf_if_differs(out: &mut Vec<LeafChange>, l: &Value, r: &Value, path: String)
    ensures
        leaves_model(final(out)@) == leaves_model(old(out)@) + leaf_if_differs(l@, r@, path@),
{
    if !l.same(r) {
        out.push(LeafChange { path, from: r.duplicate(), to: l.duplicate() });
        assert(leaves_model(out@) =~= leaves_model(old(out)@) + leaf_if_differs(l@, r@, path@));
    } else {
        assert(leaves_model(out@) =~= leaves_model(old(out)@) + leaf_if_differs(l@, r@, path@));
    }
}

/// Appends the leaf changes between local `local` and remote `remote` at
/// `path` (see [`diff_leaves`]).
pub fn diff_value(local: &Value, remote: &Value, path: &str, out: &mut Vec<LeafChange>)
    ensures
        leaves_model(final(out)@) == leaves_model(old(out)@) + diff_leaves(local@, remote@, path@),
    decreases local,
{
    if local.same(remote) {
        assert(leaves_model(out@) =~= leaves_model(old(out)@) + diff_leaves(local@, remote@, path@));
        return;
    }
    match (local, remote) {
        (Value::Object(le), Value::Object(re)) => {
            proof {
                lemma_object_model(*le);
                lemma_object_model(*re);
            }
            diff_objects(le, re, path, out);
        },
        (Value::Array(li), Value::Array(ri)) => {
            proof {
                lemma_array_model(*li);
                lemma_array_model(*ri);
            }
            diff_arrays(li, ri, path, out);
        },
        _ => {
            out.push(LeafChange { path: own(path), from: remote.duplicate(), to: local.duplicate() });
            assert(leaves_model(out@) =~= leaves_model(old(out)@) + diff_leaves(
                local@,
                remote@,
                path@,
            ));
        },
    }
}

#[verifier::loop_isolation(false)]
fn diff_objects(
    le: &Vec<(String, Value)>,
    re: &Vec<(String, Value)>,
    path: &str,
    out: &mut Vec<LeafChange>,
)
    ensures
        leaves_model(final(out)@) == leaves_model(old(out)@) + concat(
            object_child_diffs(entries_model(le@), entries_model(re@), path@),
        ),
    decreases le,
{
    let ghost lm = entries_model(le@);
    let ghost rm = entries_model(re@);
    let ghost lk = lm.map_values(|e: (Seq<char>, JsonModel)| e.0);
    let ghost rk = rm.map_values(|e: (Seq<char>, JsonModel)| e.0);
    let mut all: Vec<String> = Vec::new();
    let mut i: usize = 0;
    while i < le.len()
        invariant
            i <= le.len(),
            strs(all@) == lk.take(i as int),
        decreases le.len() - i,
    {
        assert(lk[i as int] == le@[i as int].0@);
        all.push(le[i].0.clone());
        assert(strs(all@) =~= lk.take(i + 1));
        i = i + 1;
    }
    assert(lk.take(le.len() as int) == lk);
    let mut i: usize = 0;
    while i < re.len()
        invariant
            i <= re.len(),
            strs(all@) == lk + rk.take(i as int),
        decreases re.len() - i,
    {
        assert(rk[i as int] == re@[i as int].0@);
        let ghost before = strs(all@);
        all.push(re[i].0.clone());
        assert(strs(all@) =~= before.push(re@[i as int].0@));
        assert(rk.take(i + 1) =~= rk.take(i as int).push(rk[i as int]));
        assert(lk + rk.take(i + 1) =~= (lk + rk.take(i as int)).push(rk[i as int]));
        i = i + 1;
    }
    assert(rk.take(re.len() as int) == rk);
    let keys = sort_dedup(all);
    let ghost parts = object_child_diffs(lm, rm, path@);
    let ghost start = leaves_model(out@);
    assert(strs(keys@) == union_keys(lm, rm));
    let mut j: usize = 0;
    while j < keys.len()
        invariant
            j <= keys.len(),
            strs(keys@) == union_keys(lm, rm),
            parts.len() == keys.len(),
            leaves_model(out@) == start + concat(parts.take(j as int)),
        decreases keys.len() - j,
    {
        let k = keys[j].as_str();
        let a = find_key(le, k);
        let b = find_key(re, k);
        let p = key_path_of(path, k);
        let ghost before = leaves_model(out@);
        if a < le.len() {
            if b < re.len() {
                diff_value(&le[a].1, &re[b].1, p.as_str(), out);
            } else {
                let null = Value::Null;
                push_leaf_if_differs(out, &le[a].1, &null, p);
            }
        } else if b < re.len() {
            let null = Value::Null;
            push_leaf_if_differs(out, &null, &re[b].1, p);
        }
        proof {
            assert(parts[j as int] == {
                let kk = union_keys(lm, rm)[j as int];
                let aa = key_index(lm, kk);
                let bb = key_index(rm, kk);
                if 0 <= aa < lm.len() {
                    if 0 <= bb < rm.len() {
                        diff_leaves(lm[aa].1, rm[bb].1, key_path(path@, kk))
                    } else {
                        leaf_if_differs(lm[aa].1, JsonModel::Null, key_path(path@, kk))
                    }
                } else if 0 <= bb < rm.len() {
                    leaf_if_differs(JsonModel::Null, rm[bb].1, key_path(path@, kk))
                } else {
                    Seq::empty()
                }
            });
            assert(parts.take(j + 1).drop_last() == parts.take(j as int));
            assert(leaves_model(out@) == before + parts[j as int]);
        }
        j = j + 1;
    }
    assert(parts.take(keys.len() as int) == parts);
}

#[verifier::loop_isolation(false)]
fn diff_arrays(li: &Vec<Value>, ri: &Vec<Value>, path: &str, out: &mut Vec<LeafChange>)
    ensures
        leaves_model(final(out)@) == leaves_model(old(out)@) + concat(
            array_child_diffs(items_model(li@), items_model(ri@), path@),
        ),
    decreases li,
{
    let ghost lm = items_model(li@);
    let ghost rm = items_model(ri@);
    let ghost parts = array_child_diffs(lm, rm, path@);
    let ghost start = leaves_model(out@);
    let max = if li.len() >= ri.len() {
        li.len()
    } else {
        ri.len()
    };
    let mut i: usize = 0;
    while i < max
        invariant
            i <= max,
            parts.len() == max,
            leaves_model(out@) == start + concat(parts.take(i as int)),
        decreases max - i,
    {
        let p = index_path_of(path, i);
        let ghost before = leaves_model(out@);
        if i < li.len() && i < ri.len() {
            diff_value(&li[i], &ri[i], p.as_str(), out);
        } else if i < li.len() {
            let null = Value::Null;
            push_leaf_if_differs(out, &li[i], &null, p);
        } else {
            let null = Value::Null;
            push_leaf_if_differs(out, &null, &ri[i], p);
        }
        proof {
            assert(parts.take(i + 1).drop_last() == parts.take(i as int));
            assert(leaves_model(out@) == before + parts[i as int]);
        }
        i = i + 1;
    }
    assert(parts.take(max as int) == parts);
}

// ---------------------------------------------------------------------------
// L2: per-node delta
// ---------------------------------------------------------------------------

/// A node identified by its `foreignId`, with its canonical value.
#[derive(Debug, PartialEq, Eq)]
pub struct NodeRef {
    pub foreign_id: String,
    pub value: Value,
}

/// The mathematical model of [`NodeRef`].
pub struct NodeRefModel {
    pub foreign_id: Seq<char>,
    pub value: JsonModel,
}

impl View for NodeRef {
    type V = NodeRefModel;

    open spec fn view(&self) -> NodeRefModel {
        NodeRefModel { foreign_id: self.foreign_id@, value: self.value@ }
    }
}

/// A node present on both sides that differs; `leaves` are rooted at
/// `spec.nodes[*]`.
#[derive(Debug, PartialEq, Eq)]
pub struct NodeModification {
    pub foreign_id: String,
    pub leaves: Vec<LeafChange>,
}

/// The mathematical model of [`NodeModification`].
pub struct NodeModificationModel {
    pub foreign_id: Seq<char>,
    pub leaves: Seq<LeafChangeModel>,
}

impl View for NodeModification {
    type V = NodeModificationModel;

    open spec fn view(&self) -> NodeModificationModel {
        NodeModificationModel { foreign_id: self.foreign_id@, leaves: leaves_model(self.leaves@) }
    }
}

/// Whole-requisition delta: foreign-source leaf changes and the node list
/// partitioned into added, removed and modified nodes.
#[derive(Debug, PartialEq, Eq)]
pub struct RequisitionDelta {
    /// Leaf changes within `spec.foreignSource`, rooted there.
    pub foreign_source_changes: Vec<LeafChange>,
    /// Nodes present locally but not remotely.
    pub nodes_added: Vec<NodeRef>,
    /// Nodes present remotely but not locally.
    pub nodes_removed: Vec<NodeRef>,
    /// Nodes present on both sides that differ.
    pub nodes_modified: Vec<NodeModification>,
}

/// The mathematical model of [`RequisitionDelta`].
pub struct RequisitionDeltaModel {
    pub foreign_source_changes: Seq<LeafChangeModel>,
    pub nodes_added: Seq<NodeRefModel>,
    pub nodes_removed: Seq<NodeRefModel>,
    pub nodes_modified: Seq<NodeModificationModel>,
}

impl View for RequisitionDelta {
    type V = RequisitionDeltaModel;

    open spec fn view(&self) -> RequisitionDeltaModel {
        RequisitionDeltaModel {
            foreign_source_changes: leaves_model(self.foreign_source_changes@),
            nodes_added: self.nodes_added@.map_values(|n: NodeRef| n@),
            nodes_removed: self.nodes_removed@.map_values(|n: NodeRef| n@),
            nodes_modified: self.nodes_modified@.map_values(|n: NodeModification| n@),
        }
    }
}

/// The value at field `a`, then field `b`.
pub open spec fn pointer(v: JsonModel, a: Seq<char>, b: Seq<char>) -> Option<JsonModel> {
    match field(v, a) {
        Some(x) => field(x, b),
        None => None,
    }
}

/// The node array of a canonical document (empty when absent).
pub open spec fn nodes_of(v: JsonModel) -> Seq<JsonModel> {
    match pointer(v, "spec"@, "nodes"@) {
        Some(JsonModel::Array(items)) => items,
        _ => Seq::empty(),
    }
}

/// A node's `foreignId` (empty when absent).
pub open spec fn fid_of(n: JsonModel) -> Seq<char> {
    field_text(n, "foreignId"@)
}

/// The last node with `foreignId` `f`.
pub open spec fn last_with(nodes: Seq<JsonModel>, f: Seq<char>) -> Option<JsonModel>
    decreases nodes.len(),
{
    if nodes.len() == 0 {
        None
    } else if fid_of(nodes.last()) == f {
        Some(nodes.last())
    } else {
        last_with(nodes.drop_last(), f)
    }
}

/// The distinct `foreignId`s of a node list, in ascending order.
pub open spec fn fid_list(nodes: Seq<JsonModel>) -> Seq<Seq<char>> {
    sorted_set(nodes.map_values(|n: JsonModel| fid_of(n)))
}

/// The node of `l` with `foreignId` `f` when `r` has none.
pub open spec fn added_entry(l: Seq<JsonModel>, r: Seq<JsonModel>, f: Seq<char>) -> Option<NodeRefModel> {
    match (last_with(l, f), last_with(r, f)) {
        (Some(a), None) => Some(NodeRefModel { foreign_id: f, value: a }),
        _ => None,
    }
}

/// The change of the node with `foreignId` `f` when both sides have one
/// and they differ.
pub open spec fn modified_entry(l: Seq<JsonModel>, r: Seq<JsonModel>, f: Seq<char>) -> Option<
    NodeModificationModel,
> {
    match (last_with(l, f), last_with(r, f)) {
        (Some(a), Some(b)) => if a != b {
            Some(NodeModificationModel { foreign_id: f, leaves: diff_leaves(a, b, "spec.nodes[*]"@) })
        } else {
            None
        },
        _ => None,
    }
}

/// Nodes of `l` whose `foreignId` `r` lacks, in `foreignId` order.
pub open spec fn spec_added(l: Seq<JsonModel>, r: Seq<JsonModel>) -> Seq<NodeRefModel> {
    added_over(fid_list(l), l, r)
}

pub open spec fn added_over(fs: Seq<Seq<char>>, l: Seq<JsonModel>, r: Seq<JsonModel>) -> Seq<NodeRefModel>
    decreases fs.len(),
{
    if fs.len() == 0 {
        Seq::empty()
    } else {
        match added_entry(l, r, fs.last()) {
            Some(x) => added_over(fs.drop_last(), l, r).push(x),
            None => added_over(fs.drop_last(), l, r),
        }
    }
}

/// Nodes present on both sides whose values differ, with their leaf
/// changes, in `foreignId` order.
pub open spec fn spec_modified(l: Seq<JsonModel>, r: Seq<JsonModel>) -> Seq<NodeModificationModel> {
    modified_over(fid_list(l), l, r)
}

pub open spec fn modified_over(fs: Seq<Seq<char>>, l: Seq<JsonModel>, r: Seq<JsonModel>) -> Seq<
    NodeModificationModel,
>
    decreases fs.len(),
{
    if fs.len() == 0 {
        Seq::empty()
    } else {
        match modified_entry(l, r, fs.last()) {
            Some(x) => modified_over(fs.drop_last(), l, r).push(x),
            None => modified_over(fs.drop_last(), l, r),
        }
    }
}

/// The canonical foreign-source value of a canonical document, null when
/// absent.
pub open spec fn fs_of(v: JsonModel) -> JsonModel {
    match pointer(v, "spec"@, "foreignSource"@) {
        Some(x) => x,
        None => JsonModel::Null,
    }
}

/// The L2 + L3 delta between the canonical forms of two documents.
pub open spec fn spec_diff(local: RequisitionLocalModel, remote: RequisitionLocalModel) -> RequisitionDeltaModel {
    let lv = spec_canonical_value(local);
    let rv = spec_canonical_value(remote);
    RequisitionDeltaModel {
        foreign_source_changes: diff_leaves(fs_of(lv), fs_of(rv), "spec.foreignSource"@),
        nodes_added: spec_added(nodes_of(lv), nodes_of(rv)),
        nodes_removed: spec_added(nodes_of(rv), nodes_of(lv)),
        nodes_modified: spec_modified(nodes_of(lv), nodes_of(rv)),
    }
}

fn pointer_get<'a>(v: &'a Value, a: &str, b: &str) -> (r: Option<&'a Value>)
    ensures
        match r {
            Some(x) => pointer(v@, a@, b@) == Some(x@),
            None => pointer(v@, a@, b@) is None,
        },
{
    match v {
        Value::Object(e) => {
            proof {
                lemma_object_model(*e);
            }
            match obj_get(e, a) {
                Some(Value::Object(e2)) => {
                    proof {
                        lemma_object_model(*e2);
                    }
                    obj_get(e2, b)
                },
                _ => None,
            }
        },
        _ => None,
    }
}

fn fid_of_value(n: &Value) -> (r: String)
    ensures
        r@ == fid_of(n@),
{
    field_text_of(n, "foreignId")
}

/// The index of the last node with `foreignId` `f`.
fn last_index(nodes: &Vec<Value>, f: &str) -> (r: Option<usize>)
    ensures
        match r {
            Some(i) => i < nodes.len() && last_with(items_model(nodes@), f@) == Some(nodes@[i as int]@),
            None => last_with(items_model(nodes@), f@) is None,
        },
{
    let ghost m = items_model(nodes@);
    let mut i: usize = nodes.len();
    assert(m.take(i as int) == m);
    while i > 0
        invariant
            i <= nodes.len(),
            m == items_model(nodes@),
            last_with(m, f@) == last_with(m.take(i as int), f@),
        decreases i,
    {
        let t = fid_of_value(&nodes[i - 1]);
        let ghost mt = m.take(i as int);
        assert(mt.last() == nodes@[i - 1]@);
        assert(mt.drop_last() == m.take(i - 1));
        if str_eq(t.as_str(), f) {
            return Some(i - 1);
        }
        i = i - 1;
    }
    None
}

/// The distinct `foreignId`s of a node list, ascending.
fn fid_list_of(nodes: &Vec<Value>) -> (r: Vec<String>)
    ensures
        strs(r@) == fid_list(items_model(nodes@)),
{
    let ghost x = items_model(nodes@).map_values(|n: JsonModel| fid_of(n));
    let mut all: Vec<String> = Vec::new();
    let mut i: usize = 0;
    while i < nodes.len()
        invariant
            i <= nodes.len(),
            x == items_model(nodes@).map_values(|n: JsonModel| fid_of(n)),
            strs(all@) == x.take(i as int),
        decreases nodes.len() - i,
    {
        let ghost before = strs(all@);
        let t = fid_of_value(&nodes[i]);
        all.push(t);
        assert(x[i as int] == fid_of(nodes@[i as int]@));
        assert(strs(all@) =~= before.push(x[i as int]));
        assert(x.take(i + 1) =~= x.take(i as int).push(x[i as int]));
        i = i + 1;
    }
    assert(x.take(nodes.len() as int) == x);
    sort_dedup(all)
}

/// The nodes of `l` whose `foreignId` `r` lacks, in `foreignId` order.
fn added_nodes(l: &Vec<Value>, r: &Vec<Value>) -> (out: Vec<NodeRef>)
    ensures
        out@.map_values(|n: NodeRef| n@) == spec_added(items_model(l@), items_model(r@)),
{
    let fids = fid_list_of(l);
    let ghost lm = items_model(l@);
    let ghost rm = items_model(r@);
    let ghost fl = fid_list(lm);
    let mut out: Vec<NodeRef> = Vec::new();
    let mut j: usize = 0;
    while j < fids.len()
        invariant
            j <= fids.len(),
            strs(fids@) == fl,
            fl == fid_list(lm),
            lm == items_model(l@),
            rm == items_model(r@),
            out@.map_values(|n: NodeRef| n@) == added_over(fl.take(j as int), lm, rm),
        decreases fids.len() - j,
    {
        let f = fids[j].as_str();
        let a = last_index(l, f);
        let b = last_index(r, f);
        let ghost t = fl.take(j + 1);
        assert(t.drop_last() == fl.take(j as int));
        assert(t.last() == f@);
        let ghost before = out@.map_values(|n: NodeRef| n@);
        match (a, b) {
            (Some(ai), None) => {
                let x = NodeRef { foreign_id: fids[j].clone(), value: l[ai].duplicate() };
                assert(added_entry(lm, rm, f@) == Some(x@));
                out.push(x);
                assert(out@.map_values(|n: NodeRef| n@) =~= before.push(x@));
            },
            _ => {
                assert(added_entry(lm, rm, f@) is None);
            },
        }
        j = j + 1;
    }
    assert(fl.take(fids.len() as int) == fl);
    out
}

/// The nodes on both sides whose values differ, in `foreignId` order.
fn modified_nodes(l: &Vec<Value>, r: &Vec<Value>) -> (out: Vec<NodeModification>)
    ensures
        out@.map_values(|n: NodeModification| n@) == spec_modified(items_model(l@), items_model(r@)),
{
    let fids = fid_list_of(l);
    let ghost lm = items_model(l@);
    let ghost rm = items_model(r@);
    let ghost fl = fid_list(lm);
    let mut out: Vec<NodeModification> = Vec::new();
    let mut j: usize = 0;
    while j < fids.len()
        invariant
            j <= fids.len(),
            strs(fids@) == fl,
            fl == fid_list(lm),
            lm == items_model(l@),
            rm == items_model(r@),
            out@.map_values(|n: NodeModification| n@) == modified_over(fl.take(j as int), lm, rm),
        decreases fids.len() - j,
    {
        let f = fids[j].as_str();
        let a = last_index(l, f);
        let b = last_index(r, f);
        let ghost t = fl.take(j + 1);
        assert(t.drop_last() == fl.take(j as int));
        assert(t.last() == f@);
        let ghost before = out@.map_values(|n: NodeModification| n@);
        match (a, b) {
            (Some(ai), Some(bi)) => {
                if !l[ai].same(&r[bi]) {
                    let mut leaves: Vec<LeafChange> = Vec::new();
                    diff_value(&l[ai], &r[bi], "spec.nodes[*]", &mut leaves);
                    assert(leaves_model(leaves@) =~= diff_leaves(
                        l@[ai as int]@,
                        r@[bi as int]@,
                        "spec.nodes[*]"@,
                    ));
                    let x = NodeModification { foreign_id: fids[j].clone(), leaves };
                    assert(modified_entry(lm, rm, f@) == Some(x@));
                    out.push(x);
                    assert(out@.map_values(|n: NodeModification| n@) =~= before.push(x@));
                } else {
                    assert(modified_entry(lm, rm, f@) is None);
                }
            },
            _ => {
                assert(modified_entry(lm, rm, f@) is None);
            },
        }
        j = j + 1;
    }
    assert(fl.take(fids.len() as int) == fl);
    out
}

/// Computes the L2 + L3 diff between two documents over their canonical
/// forms: reordered set members and keyed lists surface nothing, while a
/// reordered detector or policy list does.
pub fn diff_requisition(local: &RequisitionLocal, remote: &RequisitionLocal) -> (d: RequisitionDelta)
    ensures
        d@ == spec_diff(local@, remote@),
{
    let lv = canonical_value(local);
    let rv = canonical_value(remote);
    let null_l = Value::Null;
    let null_r = Value::Null;
    let lfs = match pointer_get(&lv, "spec", "foreignSource") {
        Some(x) => x,
        None => &null_l,
    };
    let rfs = match pointer_get(&rv, "spec", "foreignSource") {
        Some(x) => x,
        None => &null_r,
    };
    let mut fs_changes: Vec<LeafChange> = Vec::new();
    diff_value(lfs, rfs, "spec.foreignSource", &mut fs_changes);
    assert(leaves_model(fs_changes@) =~= diff_leaves(fs_of(lv@), fs_of(rv@), "spec.foreignSource"@));
    let empty_l: Vec<Value> = Vec::new();
    let empty_r: Vec<Value> = Vec::new();
    let ln = match pointer_get(&lv, "spec", "nodes") {
        Some(Value::Array(items)) => {
            proof {
                lemma_array_model(*items);
            }
            items
        },
        _ => &empty_l,
    };
    let rn = match pointer_get(&rv, "spec", "nodes") {
        Some(Value::Array(items)) => {
            proof {
                lemma_array_model(*items);
            }
            items
        },
        _ => &empty_r,
    };
    assert(items_model(ln@) == nodes_of(lv@));
    assert(items_model(rn@) == nodes_of(rv@));
    RequisitionDelta {
        foreign_source_changes: fs_changes,
        nodes_added: added_nodes(ln, rn),
        nodes_removed: added_nodes(rn, ln),
        nodes_modified: modified_nodes(ln, rn),
    }
}

impl RequisitionDelta {
    /// `true` when there are no changes at all.
    pub fn is_empty(&self) -> (b: bool)
        ensures
            b == (self@.foreign_source_changes.len() == 0 && self@.nodes_added.len() == 0
                && self@.nodes_removed.len() == 0 && self@.nodes_modified.len() == 0),
    {
        self.foreign_source_changes.len() == 0 && self.nodes_added.len() == 0
            && self.nodes_removed.len() == 0 && self.nodes_modified.len() == 0
    }

    /// Every leaf path in the delta: the foreign-source paths, one
    /// `spec.nodes[*]` per added and per removed node, then the leaf paths
    /// of each modified node.
    pub fn iter_paths(&self) -> (r: Vec<String>)
        ensures
            strs(r@) == spec_paths(self@),
    {
        let ghost d = self@;
        let mut r: Vec<String> = Vec::new();
        let mut i: usize = 0;
        while i < self.foreign_source_changes.len()
            invariant
                i <= self.foreign_source_changes.len(),
                d == self@,
                strs(r@) == leaf_paths(d.foreign_source_changes.take(i as int)),
            decreases self.foreign_source_changes.len() - i,
        {
            let ghost b1 = strs(r@);
            r.push(self.foreign_source_changes[i].path.clone());
            assert(d.foreign_source_changes.take(i + 1).drop_last() == d.foreign_source_changes.take(i as int));
            assert(d.foreign_source_changes.take(i + 1).last().path == self.foreign_source_changes@[i as int].path@);
            assert(strs(r@) =~= b1.push(self.foreign_source_changes@[i as int].path@));
            assert(strs(r@) =~= leaf_paths(d.foreign_source_changes.take(i + 1)));
            i = i + 1;
        }
        assert(d.foreign_source_changes.take(self.foreign_source_changes.len() as int) == d.foreign_source_changes);
        let ghost base = strs(r@);
        let mut k: usize = 0;
        while k < self.nodes_added.len()
            invariant
                k <= self.nodes_added.len(),
                strs(r@) == base + node_marks(k as nat),
            decreases self.nodes_added.len() - k,
        {
            let ghost b = strs(r@);
            let t = own("spec.nodes[*]");
            r.push(t);
            assert(strs(r@) =~= b.push("spec.nodes[*]"@));
            assert(node_marks((k + 1) as nat) == node_marks(k as nat).push("spec.nodes[*]"@));
            assert(strs(r@) =~= base + node_marks((k + 1) as nat));
            k = k + 1;
        }
        let mut k2: usize = 0;
        while k2 < self.nodes_removed.len()
            invariant
                k2 <= self.nodes_removed.len(),
                k == self.nodes_added.len(),
                strs(r@) == base + node_marks((k + k2) as nat),
            decreases self.nodes_removed.len() - k2,
        {
            let ghost b = strs(r@);
            let t = own("spec.nodes[*]");
            r.push(t);
            assert(strs(r@) =~= b.push("spec.nodes[*]"@));
            assert(node_marks((k + k2 + 1) as nat) == node_marks((k + k2) as nat).push("spec.nodes[*]"@));
            assert(strs(r@) =~= base + node_marks((k + k2 + 1) as nat));
            k2 = k2 + 1;
        }
        let mut m: usize = 0;
        let ghost base2 = strs(r@);
        while m < self.nodes_modified.len()
            invariant
                m <= self.nodes_modified.len(),
                d == self@,
                strs(r@) == base2 + modified_paths(d.nodes_modified.take(m as int)),
            decreases self.nodes_modified.len() - m,
        {
            let leaves = &self.nodes_modified[m].leaves;
            let ghost before = strs(r@);
            let mut q: usize = 0;
            while q < leaves.len()
                invariant
                    q <= leaves.len(),
                    strs(r@) == before + leaf_paths(leaves_model(leaves@).take(q as int)),
                decreases leaves.len() - q,
            {
                let ghost b2 = strs(r@);
                r.push(leaves[q].path.clone());
                assert(leaves_model(leaves@).take(q + 1).drop_last() == leaves_model(leaves@).take(q as int));
                assert(leaves_model(leaves@).take(q + 1).last().path == leaves@[q as int].path@);
                assert(strs(r@) =~= b2.push(leaves@[q as int].path@));
                assert(strs(r@) =~= before + leaf_paths(leaves_model(leaves@).take(q + 1)));
                q = q + 1;
            }
            assert(leaves_model(leaves@).take(leaves.len() as int) == leaves_model(leaves@));
            assert(d.nodes_modified.take(m + 1).drop_last() == d.nodes_modified.take(m as int));
            assert(d.nodes_modified[m as int].leaves == leaves_model(leaves@));
            assert(strs(r@) =~= base2 + modified_paths(d.nodes_modified.take(m + 1)));
            m = m + 1;
        }
        assert(d.nodes_modified.take(self.nodes_modified.len() as int) == d.nodes_modified);
        r
    }
}

/// The paths of a list of leaf changes.
pub open spec fn leaf_paths(s: Seq<LeafChangeModel>) -> Seq<Seq<char>>
    decreases s.len(),
{
    if s.len() == 0 {
        Seq::empty()
    } else {
        leaf_paths(s.drop_last()).push(s.last().path)
    }
}

/// The leaf paths of a list of node modifications, in order.
pub open spec fn modified_paths(s: Seq<NodeModificationModel>) -> Seq<Seq<char>>
    decreases s.len(),
{
    if s.len() == 0 {
        Seq::empty()
    } else {
        modified_paths(s.drop_last()) + leaf_paths(s.last().leaves)
    }
}

/// `n` copies of the path `spec.nodes[*]`.
pub open spec fn node_marks(n: nat) -> Seq<Seq<char>>
    decreases n,
{
    if n == 0 {
        Seq::empty()
    } else {
        node_marks((n - 1) as nat).push("spec.nodes[*]"@)
    }
}

/// Every leaf path of a delta; node adds and removes count as
/// `spec.nodes[*]`.
pub open spec fn spec_paths(d: RequisitionDeltaModel) -> Seq<Seq<char>> {
    leaf_paths(d.foreign_source_changes) + node_marks(d.nodes_added.len() + d.nodes_removed.len())
        + modified_paths(d.nodes_modified)
}

// ---------------------------------------------------------------------------
// Rescan classification
// ---------------------------------------------------------------------------

/// Whether a leaf change needs existing nodes re-scanned.
#[derive(Debug, Clone, Copy, PartialEq, Eq, Structural)]
pub enum ScanRelevance {
    /// The leaf is a scan input: import with `rescanExisting=true`.
    Relevant,
    /// The leaf is metadata only.
    Irrelevant,
}

/// The end of the run of ASCII digits starting at `j`.
pub open spec fn digit_end(b: Seq<u8>, j: int) -> int
    decreases b.len() - j,
{
    if 0 <= j < b.len() && 48 <= b[j] <= 57 {
        digit_end(b, j + 1)
    } else {
        j
    }
}

/// The path bytes from position `i` with every `[digits]` replaced by
/// `[*]`; every other byte is kept as the character of the same number.
pub open spec fn norm_from(b: Seq<u8>, i: int) -> Seq<char>
    decreases b.len() - i,
{
    if i < 0 || i >= b.len() {
        Seq::empty()
    } else if b[i] == 91 && digit_end(b, i + 1) > i + 1 && digit_end(b, i + 1) < b.len()
        && b[digit_end(b, i + 1)] == 93 {
        seq!['[', '*', ']'] + norm_from(b, digit_end(b, i + 1) + 1)
    } else {
        seq![b[i] as char] + norm_from(b, i + 1)
    }
}

proof fn lemma_digit_end_bounds(b: Seq<u8>, j: int)
    requires
        0 <= j,
    ensures
        j <= digit_end(b, j),
        digit_end(b, j) <= b.len() || digit_end(b, j) == j,
    decreases b.len() - j,
{
    if 0 <= j < b.len() && 48 <= b[j] <= 57 {
        lemma_digit_end_bounds(b, j + 1);
    }
}

/// A path with its concrete array indices replaced by `[*]`.
pub open spec fn spec_normalize_indices(path: Seq<char>) -> Seq<char> {
    norm_from(vstd::utf8::encode_utf8(path), 0)
}

/// Replaces `[N]` (concrete array indices) with `[*]`.
fn normalize_indices(path: &str) -> (r: String)
    ensures
        r@ == spec_normalize_indices(path@),
{
    let bytes = path.as_bytes();
    let ghost b = bytes@;
    let mut out = String::new();
    let mut i: usize = 0;
    while i < bytes.len()
        invariant
            i <= bytes@.len(),
            b == bytes@,
            out@ + norm_from(b, i as int) == norm_from(b, 0),
        decreases bytes@.len() - i,
    {
        if bytes[i] == 91u8 {
            let mut j: usize = i + 1;
            while j < bytes.len() && 48u8 <= bytes[j] && bytes[j] <= 57u8
                invariant
                    i + 1 <= j <= bytes@.len(),
                    b == bytes@,
                    digit_end(b, (i + 1) as int) == digit_end(b, j as int),
                decreases bytes@.len() - j,
            {
                assert(digit_end(b, j as int) == digit_end(b, j + 1));
                j = j + 1;
            }
            if j > i + 1 && j < bytes.len() && bytes[j] == 93u8 {
                let ghost before = out@;
                push_char(&mut out, '[');
                push_char(&mut out, '*');
                push_char(&mut out, ']');
                assert(out@ + norm_from(b, (j + 1) as int) =~= before + norm_from(b, i as int));
                i = j + 1;
                continue;
            }
        }
        let ghost before = out@;
        proof {
            lemma_digit_end_bounds(b, (i + 1) as int);
        }
        push_char(&mut out, bytes[i] as char);
        assert(out@ + norm_from(b, (i + 1) as int) =~= before + norm_from(b, i as int));
        i = i + 1;
    }
    assert(out@ =~= norm_from(b, 0));
    out
}

/// The paths whose changes are metadata only; a path at or below one of
/// them (followed by `.` or `[`) is scan-irrelevant.
pub open spec fn irrelevant_prefixes() -> Seq<Seq<char>> {
    seq![
        "spec.nodes[*].label"@,
        "spec.nodes[*].categories"@,
        "spec.nodes[*].assets"@,
        "spec.foreignSource.scanInterval"@,
    ]
}

/// `s` is `p` or lies below it.
pub open spec fn at_or_below(s: Seq<char>, p: Seq<char>) -> bool {
    s == p || (p + seq!['.']).is_prefix_of(s) || (p + seq!['[']).is_prefix_of(s)
}

/// The relevance of a leaf path: irrelevant exactly when its normalized
/// form lies at or below one of [`irrelevant_prefixes`]; every other path,
/// known or not, is relevant.
pub open spec fn spec_classify(path: Seq<char>) -> ScanRelevance {
    let s = spec_normalize_indices(path);
    if exists|i: int| 0 <= i < 4 && at_or_below(s, #[trigger] irrelevant_prefixes()[i]) {
        ScanRelevance::Irrelevant
    } else {
        ScanRelevance::Relevant
    }
}

fn under_prefix(s: &str, p: &str) -> (r: bool)
    ensures
        r == at_or_below(s@, p@),
{
    if str_eq(s, p) {
        return true;
    }
    let mut dot = own(p);
    push_char(&mut dot, '.');
    let mut bracket = own(p);
    push_char(&mut bracket, '[');
    starts_with(s, dot.as_str()) || starts_with(s, bracket.as_str())
}

/// Classifies one leaf path (see [`spec_classify`]).
pub fn classify_leaf(path: &str) -> (r: ScanRelevance)
    ensures
        r == spec_classify(path@),
{
    let normalized = normalize_indices(path);
    let s = normalized.as_str();
    let prefixes: [&str; 4] = [
        "spec.nodes[*].label",
        "spec.nodes[*].categories",
        "spec.nodes[*].assets",
        "spec.foreignSource.scanInterval",
    ];
    let mut i: usize = 0;
    while i < 4
        invariant
            0 <= i <= 4,
            prefixes@.map_values(|x: &str| x@) == irrelevant_prefixes(),
            s@ == spec_normalize_indices(path@),
            forall|j: int| 0 <= j < i ==> !at_or_below(s@, #[trigger] irrelevant_prefixes()[j]),
        decreases 4 - i,
    {
        assert(prefixes@[i as int]@ == irrelevant_prefixes()[i as int]);
        if under_prefix(s, prefixes[i]) {
            return ScanRelevance::Irrelevant;
        }
        i = i + 1;
    }
    ScanRelevance::Relevant
}

/// The scan-relevant paths among `paths`, in order.
pub open spec fn spec_scan_relevant(paths: Seq<Seq<char>>) -> Seq<Seq<char>>
    decreases paths.len(),
{
    if paths.len() == 0 {
        Seq::empty()
    } else if spec_classify(paths.last()) == ScanRelevance::Relevant {
        spec_scan_relevant(paths.drop_last()).push(paths.last())
    } else {
        spec_scan_relevant(paths.drop_last())
    }
}

/// Every path that classifies as scan-relevant, in order.
pub fn scan_relevant_paths(paths: &Vec<String>) -> (r: Vec<String>)
    ensures
        strs(r@) == spec_scan_relevant(strs(paths@)),
{
    let ghost m = strs(paths@);
    let mut r: Vec<String> = Vec::new();
    let mut i: usize = 0;
    while i < paths.len()
        invariant
            i <= paths.len(),
            m == strs(paths@),
            strs(r@) == spec_scan_relevant(m.take(i as int)),
        decreases paths.len() - i,
    {
        let ghost t = m.take(i + 1);
        assert(t.drop_last() == m.take(i as int));
        assert(t.last() == paths@[i as int]@);
        let ghost before = strs(r@);
        if classify_leaf(paths[i].as_str()) == ScanRelevance::Relevant {
            r.push(paths[i].clone());
            assert(strs(r@) =~= before.push(paths@[i as int]@));
        }
        i = i + 1;
    }
    assert(m.take(paths.len() as int) == m);
    r
}

/// `true` exactly when at least one path is scan-relevant.
pub fn aggregate_rescan_decision(paths: &Vec<String>) -> (b: bool)
    ensures
        b == (spec_scan_relevant(strs(paths@)).len() > 0),
{
    scan_relevant_paths(paths).len() > 0
}

// ---------------------------------------------------------------------------
// Laws
// ---------------------------------------------------------------------------

/// A delta with no change in any bucket.
pub open spec fn delta_is_empty(d: RequisitionDeltaModel) -> bool {
    d.foreign_source_changes.len() == 0 && d.nodes_added.len() == 0 && d.nodes_removed.len() == 0
        && d.nodes_modified.len() == 0
}

proof fn lemma_last_with_some(nodes: Seq<JsonModel>, i: int)
    requires
        0 <= i < nodes.len(),
    ensures
        last_with(nodes, fid_of(nodes[i])) is Some,
    decreases nodes.len(),
{
    if i < nodes.len() - 1 && fid_of(nodes.last()) != fid_of(nodes[i]) {
        assert(nodes.drop_last()[i] == nodes[i]);
        lemma_last_with_some(nodes.drop_last(), i);
    }
}

proof fn lemma_listed_fid_has_node(nodes: Seq<JsonModel>, f: Seq<char>)
    requires
        fid_list(nodes).contains(f),
    ensures
        last_with(nodes, f) is Some,
{
    let ids = nodes.map_values(|n: JsonModel| fid_of(n));
    lemma_sorted_set_subset(ids, f);
    let i = choose|i: int| 0 <= i < ids.len() && ids[i] == f;
    lemma_last_with_some(nodes, i);
}

proof fn lemma_added_over_self(fs: Seq<Seq<char>>, n: Seq<JsonModel>)
    requires
        forall|i: int| 0 <= i < fs.len() ==> last_with(n, #[trigger] fs[i]) is Some,
    ensures
        added_over(fs, n, n).len() == 0,
    decreases fs.len(),
{
    if fs.len() > 0 {
        assert(last_with(n, fs[fs.len() - 1]) is Some);
        lemma_added_over_self(fs.drop_last(), n);
    }
}

proof fn lemma_modified_over_self(fs: Seq<Seq<char>>, n: Seq<JsonModel>)
    ensures
        modified_over(fs, n, n).len() == 0,
    decreases fs.len(),
{
    if fs.len() > 0 {
        lemma_modified_over_self(fs.drop_last(), n);
    }
}

/// Every document is L1-unchanged against itself.
pub proof fn lemma_l1_reflexive(l: RequisitionLocalModel)
    ensures
        spec_l1(l, l) == L1Result::Unchanged,
{
}

/// Documents with the same canonical value are L1-unchanged and have an
/// empty delta; in particular the delta of a document against itself is
/// empty.
pub proof fn lemma_same_canonical_no_change(a: RequisitionLocalModel, b: RequisitionLocalModel)
    requires
        spec_canonical_value(a) == spec_canonical_value(b),
    ensures
        spec_l1(a, b) == L1Result::Unchanged,
        delta_is_empty(spec_diff(a, b)),
{
    let n = nodes_of(spec_canonical_value(a));
    let fl = fid_list(n);
    assert forall|i: int| 0 <= i < fl.len() implies last_with(n, #[trigger] fl[i]) is Some by {
        lemma_listed_fid_has_node(n, fl[i]);
    }
    lemma_added_over_self(fl, n);
    lemma_modified_over_self(fl, n);
}

/// Normalizing an object keeps its keys, position by position.
proof fn lemma_normalize_entries_keys(e: Seq<(Seq<char>, JsonModel)>, k: Seq<char>)
    ensures
        normalize_entries(e).len() == e.len(),
        key_index(normalize_entries(e), k) == key_index(e, k),
{
    let n = normalize_entries(e);
    assert forall|i: int| 0 <= i < e.len() implies n[i].0 == e[i].0 by {}
    crate::json::lemma_key_index(e, k);
    crate::json::lemma_key_index(n, k);
    let a = key_index(e, k);
    let b = key_index(n, k);
    if a < b {
        if a < e.len() {
            assert(n[a].0 == e[a].0);
        }
    } else if b < a {
        assert(n[b].0 == e[b].0);
    }
}

/// A canonical node still has its `foreignId`.
proof fn lemma_normalized_node_fid(n: NodeModel)
    ensures
        fid_of(normalize(node_json(n), "nodes"@)) == n.foreign_id,
{
    reveal_strlit("assets");
    reveal_strlit("categories");
    reveal_strlit("foreignId");
    let e = opt_entry(n.assets.len() > 0, "assets"@, assets_json(n.assets)) + opt_entry(
        n.categories.len() > 0,
        "categories"@,
        str_array(n.categories),
    ) + seq![("foreignId"@, JsonModel::Str(n.foreign_id))] + opt_entry(
        n.interfaces.len() > 0,
        "interfaces"@,
        JsonModel::Array(n.interfaces.map_values(|i: InterfaceModel| interface_json(i))),
    ) + seq![("label"@, JsonModel::Str(n.label))] + opt_entry(
        n.location is Some,
        "location"@,
        JsonModel::Str(
            match n.location {
                Some(l) => l,
                None => Seq::empty(),
            },
        ),
    );
    assert(node_json(n) == JsonModel::Object(e));
    let p = (if n.assets.len() > 0 {
        1int
    } else {
        0int
    }) + (if n.categories.len() > 0 {
        1int
    } else {
        0int
    });
    assert(e[p].0 == "foreignId"@);
    assert("assets"@[0] != "foreignId"@[0]);
    assert("categories"@[0] != "foreignId"@[0]);
    assert forall|j: int| 0 <= j < p implies e[j].0 != "foreignId"@ by {
        assert(e[j].0 == "assets"@ || e[j].0 == "categories"@);
    }
    crate::json::lemma_key_index(e, "foreignId"@);
    let ki = key_index(e, "foreignId"@);
    if ki < p {
        assert(e[ki].0 == "foreignId"@);
    }
    assert(ki == p);
    lemma_normalize_entries_keys(e, "foreignId"@);
    let ne = normalize_entries(e);
    assert(ne[p] == (e[p].0, normalize(e[p].1, static_name(e[p].0))));
}

/// Reordering the nodes of a document does not change its canonical
/// value, when no two nodes share a `foreignId`.
pub proof fn lemma_canonical_node_order(a: RequisitionLocalModel, b: RequisitionLocalModel)
    requires
        a.metadata == b.metadata,
        a.spec.foreign_source == b.spec.foreign_source,
        a.spec.nodes.to_multiset() == b.spec.nodes.to_multiset(),
        forall|i: int, j: int|
            0 <= i < j < a.spec.nodes.len() ==> (#[trigger] a.spec.nodes[i]).foreign_id
                != (#[trigger] a.spec.nodes[j]).foreign_id,
    ensures
        spec_canonical_value(a) == spec_canonical_value(b),
{
    let g = |n: NodeModel| normalize(node_json(n), "nodes"@);
    let k = by_field("foreignId"@);
    let na = a.spec.nodes.map_values(|n: NodeModel| node_json(n));
    let nb = b.spec.nodes.map_values(|n: NodeModel| node_json(n));
    assert(normalize_items(na, "nodes"@) =~= a.spec.nodes.map_values(g));
    assert(normalize_items(nb, "nodes"@) =~= b.spec.nodes.map_values(g));
    crate::sort::lemma_map_multiset(a.spec.nodes, b.spec.nodes, g);
    let ma = a.spec.nodes.map_values(g);
    assert forall|x: JsonModel, y: JsonModel|
        #![trigger ma.contains(x), ma.contains(y)]
        ma.contains(x) && ma.contains(y) && k(x) == k(y) implies x == y by {
        let i = choose|i: int| 0 <= i < ma.len() && ma[i] == x;
        let j = choose|j: int| 0 <= j < ma.len() && ma[j] == y;
        lemma_normalized_node_fid(a.spec.nodes[i]);
        lemma_normalized_node_fid(a.spec.nodes[j]);
        assert(k(x)[0] == fid_of(x));
        assert(k(y)[0] == fid_of(y));
        if i < j {
            assert(a.spec.nodes[i].foreign_id != a.spec.nodes[j].foreign_id);
        } else if j < i {
            assert(a.spec.nodes[j].foreign_id != a.spec.nodes[i].foreign_id);
        }
    }
    crate::sort::lemma_sort_canonical(ma, b.spec.nodes.map_values(g), k);
    reveal_strlit("nodes");
    reveal_strlit("interfaces");
    reveal_strlit("parameters");
    reveal_strlit("categories");
    reveal_strlit("services");
    assert("nodes"@ == static_name("nodes"@));
    assert(normalize(JsonModel::Array(na), "nodes"@) == normalize(JsonModel::Array(nb), "nodes"@));
    let fs_default = ForeignSourceSpecModel {
        scan_interval: None,
        detectors: Seq::empty(),
        policies: Seq::empty(),
    };
    let fse = opt_entry(
        a.spec.foreign_source is Some,
        "foreignSource"@,
        foreign_source_json(
            match a.spec.foreign_source {
                Some(f) => f,
                None => fs_default,
            },
        ),
    );
    let sa = fse + seq![("nodes"@, JsonModel::Array(na))];
    let sb = fse + seq![("nodes"@, JsonModel::Array(nb))];
    assert(normalize_entries(sa) =~= normalize_entries(sb));
    assert("spec"@ == static_name("spec"@));
    let ta = spec_to_json(a);
    let tb = spec_to_json(b);
    match (ta, tb) {
        (JsonModel::Object(ea), JsonModel::Object(eb)) => {
            assert(ea[3].1 == JsonModel::Object(sa));
            assert(eb[3].1 == JsonModel::Object(sb));
            assert(normalize_entries(ea) =~= normalize_entries(eb));
        },
        _ => {},
    }
}

/// The sort key an array rule uses for the field named `last`.
pub open spec fn rule_key(last: Seq<char>) -> spec_fn(JsonModel) -> Seq<Seq<char>> {
    if last == "nodes"@ {
        by_field("foreignId"@)
    } else if last == "interfaces"@ {
        by_field("ip"@)
    } else if last == "parameters"@ {
        by_field("key"@)
    } else {
        by_text()
    }
}

/// The fields whose arrays are order-insensitive.
pub open spec fn unordered_field(last: Seq<char>) -> bool {
    last == "nodes"@ || last == "interfaces"@ || last == "parameters"@ || last == "categories"@
        || last == "services"@
}

/// Under an order-insensitive field, the order of an array's items does
/// not matter to its canonical form, when any two items whose canonical
/// forms have the same sort key have the same canonical form.
pub proof fn lemma_normalize_array_order(i1: Seq<JsonModel>, i2: Seq<JsonModel>, last: Seq<char>)
    requires
        unordered_field(last),
        i1.to_multiset() == i2.to_multiset(),
        equal_keys_identical(normalize_items(i1, last), rule_key(last)),
    ensures
        normalize(JsonModel::Array(i1), last) == normalize(JsonModel::Array(i2), last),
{
    let g = |x: JsonModel| normalize(x, last);
    assert(normalize_items(i1, last) =~= i1.map_values(g));
    assert(normalize_items(i2, last) =~= i2.map_values(g));
    crate::sort::lemma_map_multiset(i1, i2, g);
    crate::sort::lemma_sort_canonical(normalize_items(i1, last), normalize_items(i2, last), rule_key(last));
}

/// Under an order-insensitive field, only the relative order of items with
/// the same sort key matters to the canonical form: two arrays whose
/// canonical items of every key are the same, in the same order, have the
/// same canonical form.
pub proof fn lemma_normalize_array_order_stable(i1: Seq<JsonModel>, i2: Seq<JsonModel>, last: Seq<char>)
    requires
        unordered_field(last),
        forall|key: Seq<Seq<char>>|
            #[trigger] crate::sort::of_key(normalize_items(i1, last), rule_key(last), key)
                == crate::sort::of_key(normalize_items(i2, last), rule_key(last), key),
    ensures
        normalize(JsonModel::Array(i1), last) == normalize(JsonModel::Array(i2), last),
{
    crate::sort::lemma_sort_by_key_classes(normalize_items(i1, last), normalize_items(i2, last), rule_key(last));
}

/// Every item is a JSON string.
pub open spec fn all_str(s: Seq<JsonModel>) -> bool {
    forall|i: int| 0 <= i < s.len() ==> #[trigger] s[i] is Str
}

proof fn lemma_text_key_eq(x: JsonModel, y: JsonModel)
    requires
        x is Str,
        y is Str,
        by_text()(x) == by_text()(y),
    ensures
        x == y,
{
    assert(by_text()(x)[0] == value_text(x));
    assert(by_text()(y)[0] == value_text(y));
}

proof fn lemma_sorted_prefix(s: Seq<JsonModel>)
    requires
        sorted_by(s, by_text()),
        s.len() > 0,
    ensures
        sorted_by(s.drop_last(), by_text()),
{
    let t = s.drop_last();
    assert forall|i: int, j: int| 0 <= i < j < t.len() implies !key_lt(
        #[trigger] by_text()(t[j]),
        #[trigger] by_text()(t[i]),
    ) by {
        assert(t[i] == s[i] && t[j] == s[j]);
    }
}

/// Dropping repeated neighbours of a sorted string list keeps it sorted,
/// leaves no repetition, and keeps exactly its items.
proof fn lemma_dedup_sorted(s: Seq<JsonModel>)
    requires
        sorted_by(s, by_text()),
        all_str(s),
    ensures
        sorted_by(dedup_strs(s), by_text()),
        dedup_strs(s).no_duplicates(),
        forall|x: JsonModel| dedup_strs(s).contains(x) <==> s.contains(x),
    decreases s.len(),
{
    let k = by_text();
    if s.len() <= 1 {
        return;
    }
    let t = s.drop_last();
    let n = s.len();
    lemma_sorted_prefix(s);
    assert(all_str(t)) by {
        assert forall|i: int| 0 <= i < t.len() implies #[trigger] t[i] is Str by {
            assert(t[i] == s[i]);
        }
    }
    lemma_dedup_sorted(t);
    let dt = dedup_strs(t);
    assert(s =~= t.push(s.last()));
    assert(s[n - 1] is Str);
    if s.last() is Str && s.last() == s[n - 2] {
        assert(dedup_strs(s) == dt);
        assert(t.contains(s.last())) by {
            assert(t[n - 2] == s.last());
        }
        assert forall|x: JsonModel| dedup_strs(s).contains(x) <==> s.contains(x) by {
            if s.contains(x) {
                let i = choose|i: int| 0 <= i < s.len() && s[i] == x;
                if i < n - 1 {
                    assert(t[i] == x);
                }
            }
            if t.contains(x) {
                let i = choose|i: int| 0 <= i < t.len() && t[i] == x;
                assert(s[i] == x);
            }
        }
    } else {
        let d = dt.push(s.last());
        assert(dedup_strs(s) == d);
        // every kept item sorts no later than the last one
        assert forall|i: int| 0 <= i < dt.len() implies !key_lt(k(s.last()), #[trigger] k(dt[i])) by {
            assert(dt.contains(dt[i]));
            assert(t.contains(dt[i]));
            let j = choose|j: int| 0 <= j < t.len() && t[j] == dt[i];
            assert(s[j] == dt[i]);
            assert(!key_lt(k(s[n - 1]), k(s[j])));
        }
        assert(sorted_by(d, k)) by {
            assert forall|i: int, j: int| 0 <= i < j < d.len() implies !key_lt(
                #[trigger] k(d[j]),
                #[trigger] k(d[i]),
            ) by {
                if j == d.len() - 1 {
                    assert(d[j] == s.last());
                    assert(d[i] == dt[i]);
                } else {
                    assert(d[i] == dt[i] && d[j] == dt[j]);
                }
            }
        }
        // the last item occurs nowhere before
        assert(!t.contains(s.last())) by {
            if t.contains(s.last()) {
                let i = choose|i: int| 0 <= i < t.len() && t[i] == s.last();
                assert(s[i] == s.last());
                if i == n - 2 {
                    assert(false);
                } else {
                    assert(!key_lt(k(s[n - 2]), k(s[i])));
                    assert(!key_lt(k(s[n - 1]), k(s[n - 2])));
                    lemma_key_total(k(s[n - 2]), k(s[n - 1]));
                    assert(s[n - 2] is Str);
                    lemma_text_key_eq(s[n - 2], s[n - 1]);
                }
            }
        }
        assert(!dt.contains(s.last()));
        assert(d.no_duplicates()) by {
            assert forall|i: int, j: int| 0 <= i < d.len() && 0 <= j < d.len() && i != j implies d[i]
                != d[j] by {
                if i == d.len() - 1 {
                    assert(d[j] == dt[j]);
                    assert(dt.contains(dt[j]));
                } else if j == d.len() - 1 {
                    assert(d[i] == dt[i]);
                    assert(dt.contains(dt[i]));
                } else {
                    assert(d[i] == dt[i] && d[j] == dt[j]);
                }
            }
        }
        assert forall|x: JsonModel| d.contains(x) <==> s.contains(x) by {
            if s.contains(x) {
                let i = choose|i: int| 0 <= i < s.len() && s[i] == x;
                if i < n - 1 {
                    assert(t[i] == x);
                    assert(t.contains(x));
                    assert(dt.contains(x));
                    let j = choose|j: int| 0 <= j < dt.len() && dt[j] == x;
                    assert(d[j] == x);
                } else {
                    assert(d[d.len() - 1] == x);
                }
            }
            if d.contains(x) {
                let i = choose|i: int| 0 <= i < d.len() && d[i] == x;
                if i < d.len() - 1 {
                    assert(dt[i] == x);
                    assert(dt.contains(x));
                    assert(t.contains(x));
                    let j = choose|j: int| 0 <= j < t.len() && t[j] == x;
                    assert(s[j] == x);
                } else {
                    assert(s[n - 1] == x);
                }
            }
        }
    }
}

proof fn lemma_sorted_strs(c: Seq<Seq<char>>)
    ensures
        sorted_by(sort_by(c.map_values(|x: Seq<char>| JsonModel::Str(x)), by_text()), by_text()),
        all_str(sort_by(c.map_values(|x: Seq<char>| JsonModel::Str(x)), by_text())),
        forall|x: JsonModel|
            sort_by(c.map_values(|x: Seq<char>| JsonModel::Str(x)), by_text()).contains(x) <==> (
            x is Str && c.contains(value_text(x))),
{
    broadcast use vstd::seq_lib::group_to_multiset_ensures;

    let s = c.map_values(|x: Seq<char>| JsonModel::Str(x));
    let a = sort_by(s, by_text());
    crate::sort::lemma_sort_sorted(s, by_text());
    crate::sort::lemma_sort_perm(s, by_text());
    assert forall|x: JsonModel| a.contains(x) <==> s.contains(x) by {
        assert(a.to_multiset().count(x) == s.to_multiset().count(x));
    }
    assert forall|x: JsonModel| s.contains(x) <==> (x is Str && c.contains(value_text(x))) by {
        if s.contains(x) {
            let i = choose|i: int| 0 <= i < s.len() && s[i] == x;
            assert(c[i] == value_text(x));
        }
        if x is Str && c.contains(value_text(x)) {
            let i = choose|i: int| 0 <= i < c.len() && c[i] == value_text(x);
            assert(s[i] == JsonModel::Str(c[i]));
        }
    }
    assert forall|i: int| 0 <= i < a.len() implies #[trigger] a[i] is Str by {
        assert(a.contains(a[i]));
    }
}

/// Neither the order nor repetitions of a node's categories (or an
/// interface's services) matter to its canonical form: lists with the
/// same members normalize alike.
pub proof fn lemma_string_set_members(c1: Seq<Seq<char>>, c2: Seq<Seq<char>>, last: Seq<char>)
    requires
        last == "categories"@ || last == "services"@,
        c1.to_set() == c2.to_set(),
    ensures
        normalize(str_array(c1), last) == normalize(str_array(c2), last),
{
    broadcast use vstd::seq_lib::group_to_multiset_ensures;
    broadcast use vstd::multiset::group_multiset_axioms;

    reveal_strlit("nodes");
    reveal_strlit("interfaces");
    reveal_strlit("parameters");
    reveal_strlit("categories");
    reveal_strlit("services");
    let s1 = c1.map_values(|x: Seq<char>| JsonModel::Str(x));
    let s2 = c2.map_values(|x: Seq<char>| JsonModel::Str(x));
    assert(normalize_items(s1, last) =~= s1);
    assert(normalize_items(s2, last) =~= s2);
    assert(last != "nodes"@) by {
        assert(last.len() != "nodes"@.len());
    }
    assert(last != "interfaces"@) by {
        if last == "categories"@ {
            assert(last[0] != "interfaces"@[0]);
        } else {
            assert(last.len() != "interfaces"@.len());
        }
    }
    assert(last != "parameters"@) by {
        if last == "categories"@ {
            assert(last[0] != "parameters"@[0]);
        } else {
            assert(last.len() != "parameters"@.len());
        }
    }
    let a = sort_by(s1, by_text());
    let b = sort_by(s2, by_text());
    lemma_sorted_strs(c1);
    lemma_sorted_strs(c2);
    lemma_dedup_sorted(a);
    lemma_dedup_sorted(b);
    let da = dedup_strs(a);
    let db = dedup_strs(b);
    assert forall|x: JsonModel| da.contains(x) <==> db.contains(x) by {
        if x is Str {
            assert(c1.contains(value_text(x)) <==> c1.to_set().contains(value_text(x)));
            assert(c2.contains(value_text(x)) <==> c2.to_set().contains(value_text(x)));
        }
    }
    da.lemma_multiset_has_no_duplicates();
    db.lemma_multiset_has_no_duplicates();
    assert(da.to_multiset() =~= db.to_multiset()) by {
        assert forall|x: JsonModel| da.to_multiset().count(x) == db.to_multiset().count(x) by {
            if da.contains(x) {
                assert(da.to_multiset().contains(x));
                assert(db.to_multiset().contains(x));
            }
        }
    }
    assert(equal_keys_identical(da, by_text())) by {
        assert forall|x: JsonModel, y: JsonModel|
            #![trigger da.contains(x), da.contains(y)]
            da.contains(x) && da.contains(y) && by_text()(x) == by_text()(y) implies x == y by {
            lemma_text_key_eq(x, y);
        }
    }
    crate::sort::lemma_sorted_unique(da, db, by_text());
}


/// A non-empty run of ASCII digits.
pub open spec fn is_digit_run(d: Seq<char>) -> bool {
    d.len() > 0 && forall|j: int| 0 <= j < d.len() ==> '0' <= #[trigger] d[j] && d[j] <= '9'
}

proof fn lemma_ascii_byte(v: u32)
    by (bit_vector)
    requires
        v <= 0x7F,
    ensures
        (v & 0x7F) as u8 == v as u8,
        (v as u8) as u32 == v,
{
}

proof fn lemma_encode_concat(a: Seq<char>, b: Seq<char>)
    ensures
        vstd::utf8::encode_utf8(a + b) == vstd::utf8::encode_utf8(a) + vstd::utf8::encode_utf8(b),
    decreases a.len(),
{
    if a.len() > 0 {
        assert((a + b)[0] == a[0]);
        assert((a + b).drop_first() =~= a.drop_first() + b);
        lemma_encode_concat(a.drop_first(), b);
        assert(vstd::utf8::encode_utf8(a + b) =~= vstd::utf8::encode_utf8(a) + vstd::utf8::encode_utf8(b));
    } else {
        assert(a + b =~= b);
        assert(vstd::utf8::encode_utf8(a) =~= Seq::<u8>::empty());
        assert(vstd::utf8::encode_utf8(a) + vstd::utf8::encode_utf8(b) =~= vstd::utf8::encode_utf8(b));
    }
}

proof fn lemma_encode_ascii_char(c: char)
    requires
        (c as u32) <= 0x7F,
    ensures
        vstd::utf8::encode_utf8(seq![c]) == seq![(c as u32) as u8],
{
    lemma_ascii_byte(c as u32);
    assert(seq![c].drop_first() =~= Seq::<char>::empty());
    assert(seq![c][0] == c);
    assert(vstd::utf8::encode_utf8(Seq::<char>::empty()) =~= Seq::<u8>::empty());
    assert(vstd::utf8::encode_scalar(c as u32) =~= seq![vstd::utf8::leading_byte_width_1(c as u32)]);
    assert(vstd::utf8::encode_utf8(seq![c]) == vstd::utf8::encode_scalar(c as u32)
        + vstd::utf8::encode_utf8(Seq::<char>::empty()));
    assert(vstd::utf8::encode_utf8(seq![c]) =~= seq![(c as u32) as u8]);
}

proof fn lemma_encode_digits(d: Seq<char>)
    requires
        forall|j: int| 0 <= j < d.len() ==> '0' <= #[trigger] d[j] && d[j] <= '9',
    ensures
        vstd::utf8::encode_utf8(d).len() == d.len(),
        forall|j: int|
            0 <= j < d.len() ==> 48 <= #[trigger] vstd::utf8::encode_utf8(d)[j] <= 57,
    decreases d.len(),
{
    if d.len() > 0 {
        let c = d[0];
        assert(seq![c] + d.drop_first() =~= d);
        lemma_encode_concat(seq![c], d.drop_first());
        lemma_encode_ascii_char(c);
        lemma_encode_digits(d.drop_first());
        let e = vstd::utf8::encode_utf8(d);
        assert forall|j: int| 0 <= j < d.len() implies 48 <= #[trigger] e[j] <= 57 by {
            if j > 0 {
                assert(d.drop_first()[j - 1] == d[j]);
                assert(e[j] == vstd::utf8::encode_utf8(d.drop_first())[j - 1]);
            }
        }
    }
}

proof fn lemma_digit_run_end(b: Seq<u8>, j: int, n: int)
    requires
        0 <= j,
        0 <= n,
        j + n < b.len(),
        forall|k: int| j <= k < j + n ==> 48 <= #[trigger] b[k] <= 57,
        !(48 <= b[j + n] <= 57),
    ensures
        digit_end(b, j) == j + n,
    decreases n,
{
    if n > 0 {
        lemma_digit_run_end(b, j + 1, n - 1);
    }
}

proof fn lemma_digit_end_concat(b1: Seq<u8>, b2: Seq<u8>, j: int)
    requires
        0 <= j <= b1.len(),
        b2.len() > 0,
        b2[0] == 91,
    ensures
        digit_end(b1 + b2, j) == digit_end(b1, j),
    decreases b1.len() - j,
{
    if j < b1.len() {
        assert((b1 + b2)[j] == b1[j]);
        lemma_digit_end_concat(b1, b2, j + 1);
    } else {
        assert((b1 + b2)[j] == b2[0]);
    }
}

proof fn lemma_norm_shift(a: Seq<u8>, b: Seq<u8>, k: int)
    requires
        0 <= k,
    ensures
        norm_from(a + b, a.len() + k) == norm_from(b, k),
    decreases b.len() - k,
{
    let c = a + b;
    if k < b.len() {
        assert(c[a.len() + k] == b[k]);
        lemma_digit_end_shift(a, b, k + 1);
        lemma_digit_end_bounds(b, k + 1);
        if b[k] == 91 && digit_end(b, k + 1) > k + 1 && digit_end(b, k + 1) < b.len() {
            assert(c[a.len() + digit_end(b, k + 1)] == b[digit_end(b, k + 1)]);
            lemma_norm_shift(a, b, digit_end(b, k + 1) + 1);
        }
        lemma_norm_shift(a, b, k + 1);
    }
}

proof fn lemma_digit_end_shift(a: Seq<u8>, b: Seq<u8>, k: int)
    requires
        0 <= k,
    ensures
        digit_end(a + b, a.len() + k) == a.len() + digit_end(b, k),
    decreases b.len() - k,
{
    if k < b.len() {
        assert((a + b)[a.len() + k] == b[k]);
        lemma_digit_end_shift(a, b, k + 1);
    }
}

proof fn lemma_norm_split(b1: Seq<u8>, b2: Seq<u8>, i: int)
    requires
        0 <= i <= b1.len(),
        b2.len() > 0,
        b2[0] == 91,
    ensures
        norm_from(b1 + b2, i) == norm_from(b1, i) + norm_from(b2, 0),
    decreases b1.len() - i,
{
    let c = b1 + b2;
    if i == b1.len() {
        lemma_norm_shift(b1, b2, 0);
        assert(norm_from(b1, i) + norm_from(b2, 0) =~= norm_from(b2, 0));
    } else {
        assert(c[i] == b1[i]);
        lemma_digit_end_concat(b1, b2, i + 1);
        lemma_digit_end_bounds(b1, i + 1);
        let de = digit_end(b1, i + 1);
        if de < b1.len() {
            assert(c[de] == b1[de]);
        } else if de == b1.len() {
            assert(c[de] == b2[0]);
        }
        if b1[i] == 91 && de > i + 1 && de < b1.len() && b1[de] == 93 {
            lemma_norm_split(b1, b2, de + 1);
            assert(norm_from(c, i) =~= norm_from(b1, i) + norm_from(b2, 0));
        } else {
            lemma_norm_split(b1, b2, i + 1);
            assert(norm_from(c, i) =~= norm_from(b1, i) + norm_from(b2, 0));
        }
    }
}

proof fn lemma_normalize_index(p: Seq<char>, d: Seq<char>, q: Seq<char>)
    requires
        is_digit_run(d),
    ensures
        spec_normalize_indices(p + seq!['['] + d + seq![']'] + q) == norm_from(
            vstd::utf8::encode_utf8(p),
            0,
        ) + seq!['[', '*', ']'] + norm_from(vstd::utf8::encode_utf8(q), 0),
{
    let ep = vstd::utf8::encode_utf8(p);
    let ed = vstd::utf8::encode_utf8(d);
    let eq = vstd::utf8::encode_utf8(q);
    let s = p + seq!['['] + d + seq![']'] + q;
    lemma_encode_concat(p + seq!['['] + d + seq![']'], q);
    lemma_encode_concat(p + seq!['['] + d, seq![']']);
    lemma_encode_concat(p + seq!['['], d);
    lemma_encode_concat(p, seq!['[']);
    lemma_encode_ascii_char('[');
    lemma_encode_ascii_char(']');
    lemma_encode_digits(d);
    let b2 = seq![91u8] + ed + seq![93u8] + eq;
    assert(vstd::utf8::encode_utf8(s) =~= ep + b2);
    assert(b2[0] == 91);
    lemma_norm_split(ep, b2, 0);
    lemma_digit_run_end(b2, 1, ed.len() as int);
    let de: int = ed.len() + 1int;
    assert(b2[de] == 93);
    lemma_norm_shift(seq![91u8] + ed + seq![93u8], eq, 0);
    assert(seq![91u8] + ed + seq![93u8] + eq == b2);
    assert(norm_from(b2, 0) == seq!['[', '*', ']'] + norm_from(b2, de + 1));
    assert(norm_from(vstd::utf8::encode_utf8(s), 0) =~= norm_from(ep, 0) + seq!['[', '*', ']']
        + norm_from(eq, 0));
}

/// Classification ignores which element an index names: a path with one
/// bracketed index `[N]` replaced by another `[M]` (non-empty runs of ASCII
/// digits) has the same class, e.g. `spec.nodes[0].label` and
/// `spec.nodes[999].label`.
pub proof fn lemma_classify_index_free(p: Seq<char>, d1: Seq<char>, d2: Seq<char>, q: Seq<char>)
    requires
        is_digit_run(d1),
        is_digit_run(d2),
    ensures
        spec_classify(p + seq!['['] + d1 + seq![']'] + q) == spec_classify(
            p + seq!['['] + d2 + seq![']'] + q,
        ),
{
    lemma_normalize_index(p, d1, q);
    lemma_normalize_index(p, d2, q);
}

/// The L1 comparison is symmetric.
pub proof fn lemma_l1_symmetric(a: RequisitionLocalModel, b: RequisitionLocalModel)
    ensures
        spec_l1(a, b) == spec_l1(b, a),
{
}


/// Some node of `nodes` has `foreignId` `f`.
pub open spec fn has_fid(nodes: Seq<JsonModel>, f: Seq<char>) -> bool {
    exists|i: int| 0 <= i < nodes.len() && fid_of(#[trigger] nodes[i]) == f
}

proof fn lemma_last_with_iff(nodes: Seq<JsonModel>, f: Seq<char>)
    ensures
        (last_with(nodes, f) is Some) == has_fid(nodes, f),
        last_with(nodes, f) matches Some(n) ==> fid_of(n) == f,
    decreases nodes.len(),
{
    if nodes.len() > 0 {
        lemma_last_with_iff(nodes.drop_last(), f);
        if has_fid(nodes, f) && fid_of(nodes.last()) != f {
            let i = choose|i: int| 0 <= i < nodes.len() && fid_of(#[trigger] nodes[i]) == f;
            assert(nodes.drop_last()[i] == nodes[i]);
        }
        if has_fid(nodes.drop_last(), f) {
            let i = choose|i: int| 0 <= i < nodes.drop_last().len() && fid_of(#[trigger] nodes.drop_last()[i]) == f;
            assert(nodes[i] == nodes.drop_last()[i]);
        }
        if fid_of(nodes.last()) == f {
            assert(fid_of(nodes[nodes.len() - 1]) == f);
        }
    }
}

proof fn lemma_fid_list_members(nodes: Seq<JsonModel>, f: Seq<char>)
    ensures
        fid_list(nodes).contains(f) == has_fid(nodes, f),
{
    let m = nodes.map_values(|n: JsonModel| fid_of(n));
    crate::sort::lemma_sorted_set_members(m, f);
    if m.contains(f) {
        let i = choose|i: int| 0 <= i < m.len() && m[i] == f;
        assert(fid_of(nodes[i]) == f);
    }
    if has_fid(nodes, f) {
        let i = choose|i: int| 0 <= i < nodes.len() && fid_of(#[trigger] nodes[i]) == f;
        assert(m[i] == f);
    }
}

proof fn lemma_added_over_members(fs: Seq<Seq<char>>, l: Seq<JsonModel>, r: Seq<JsonModel>, f: Seq<char>)
    ensures
        (exists|i: int| 0 <= i < added_over(fs, l, r).len() && (#[trigger] added_over(fs, l, r)[i]).foreign_id == f)
            == (fs.contains(f) && last_with(l, f) is Some && last_with(r, f) is None),
    decreases fs.len(),
{
    if fs.len() > 0 {
        let prev = added_over(fs.drop_last(), l, r);
        lemma_added_over_members(fs.drop_last(), l, r, f);
        let g = fs.last();
        let cur = added_over(fs, l, r);
        if fs.contains(f) && f != g {
            let k = choose|k: int| 0 <= k < fs.len() && fs[k] == f;
            assert(fs.drop_last()[k] == f);
        }
        if fs.drop_last().contains(f) {
            let k = choose|k: int| 0 <= k < fs.drop_last().len() && fs.drop_last()[k] == f;
            assert(fs[k] == f);
        }
        if f == g {
            assert(fs[fs.len() - 1] == f);
        }
        match added_entry(l, r, g) {
            Some(x) => {
                assert(cur == prev.push(x));
                assert(x.foreign_id == g);
                if exists|i: int| 0 <= i < prev.len() && (#[trigger] prev[i]).foreign_id == f {
                    let i = choose|i: int| 0 <= i < prev.len() && (#[trigger] prev[i]).foreign_id == f;
                    assert(cur[i] == prev[i]);
                }
                if exists|i: int| 0 <= i < cur.len() && (#[trigger] cur[i]).foreign_id == f {
                    let i = choose|i: int| 0 <= i < cur.len() && (#[trigger] cur[i]).foreign_id == f;
                    if i < prev.len() {
                        assert(prev[i] == cur[i]);
                    }
                }
                if f == g {
                    assert(cur[prev.len() as int].foreign_id == f);
                }
            },
            None => {},
        }
    }
}

proof fn lemma_modified_over_members(fs: Seq<Seq<char>>, l: Seq<JsonModel>, r: Seq<JsonModel>, f: Seq<char>)
    ensures
        (exists|i: int| 0 <= i < modified_over(fs, l, r).len() && (#[trigger] modified_over(fs, l, r)[i]).foreign_id == f)
            == (fs.contains(f) && last_with(l, f) is Some && last_with(r, f) is Some && last_with(l, f) != last_with(r, f)),
    decreases fs.len(),
{
    if fs.len() > 0 {
        let prev = modified_over(fs.drop_last(), l, r);
        lemma_modified_over_members(fs.drop_last(), l, r, f);
        let g = fs.last();
        let cur = modified_over(fs, l, r);
        if fs.contains(f) && f != g {
            let k = choose|k: int| 0 <= k < fs.len() && fs[k] == f;
            assert(fs.drop_last()[k] == f);
        }
        if fs.drop_last().contains(f) {
            let k = choose|k: int| 0 <= k < fs.drop_last().len() && fs.drop_last()[k] == f;
            assert(fs[k] == f);
        }
        if f == g {
            assert(fs[fs.len() - 1] == f);
        }
        match modified_entry(l, r, g) {
            Some(x) => {
                assert(cur == prev.push(x));
                assert(x.foreign_id == g);
                if exists|i: int| 0 <= i < prev.len() && (#[trigger] prev[i]).foreign_id == f {
                    let i = choose|i: int| 0 <= i < prev.len() && (#[trigger] prev[i]).foreign_id == f;
                    assert(cur[i] == prev[i]);
                }
                if exists|i: int| 0 <= i < cur.len() && (#[trigger] cur[i]).foreign_id == f {
                    let i = choose|i: int| 0 <= i < cur.len() && (#[trigger] cur[i]).foreign_id == f;
                    if i < prev.len() {
                        assert(prev[i] == cur[i]);
                    }
                }
                if f == g {
                    assert(cur[prev.len() as int].foreign_id == f);
                }
            },
            None => {},
        }
    }
}

/// Which nodes a diff reports, by `foreignId` over the canonical node
/// lists: added exactly when the local side has a node of that id and the
/// remote side none; removed exactly when the remote side has one and the
/// local side none; modified exactly when both have one and (the last node
/// of that id on each side) they differ.
pub proof fn lemma_diff_node_sets(local: RequisitionLocalModel, remote: RequisitionLocalModel, f: Seq<char>)
    ensures
        ({
            let d = spec_diff(local, remote);
            let l = nodes_of(spec_canonical_value(local));
            let r = nodes_of(spec_canonical_value(remote));
            &&& (exists|i: int| 0 <= i < d.nodes_added.len() && (#[trigger] d.nodes_added[i]).foreign_id == f)
                == (has_fid(l, f) && !has_fid(r, f))
            &&& (exists|i: int| 0 <= i < d.nodes_removed.len() && (#[trigger] d.nodes_removed[i]).foreign_id == f)
                == (has_fid(r, f) && !has_fid(l, f))
            &&& (exists|i: int| 0 <= i < d.nodes_modified.len() && (#[trigger] d.nodes_modified[i]).foreign_id == f)
                == (has_fid(l, f) && has_fid(r, f) && last_with(l, f) != last_with(r, f))
        }),
{
    let l = nodes_of(spec_canonical_value(local));
    let r = nodes_of(spec_canonical_value(remote));
    lemma_last_with_iff(l, f);
    lemma_last_with_iff(r, f);
    lemma_fid_list_members(l, f);
    lemma_fid_list_members(r, f);
    lemma_added_over_members(fid_list(l), l, r, f);
    lemma_added_over_members(fid_list(r), r, l, f);
    lemma_modified_over_members(fid_list(l), l, r, f);
    let dd = spec_diff(local, remote);
    assert(dd.nodes_added == added_over(fid_list(l), l, r));
    assert(dd.nodes_removed == added_over(fid_list(r), r, l));
    assert(dd.nodes_modified == modified_over(fid_list(l), l, r));
}

/// Every change in `s` is a real change under `path`: its two sides
/// differ and its path starts with `path`.
pub open spec fn leaves_under(s: Seq<LeafChangeModel>, path: Seq<char>) -> bool {
    forall|i: int| 0 <= i < s.len() ==> (#[trigger] s[i]).from != s[i].to && path.is_prefix_of(s[i].path)
}

proof fn lemma_concat_leaves(ss: Seq<Seq<LeafChangeModel>>, path: Seq<char>)
    requires
        forall|j: int| 0 <= j < ss.len() ==> leaves_under(#[trigger] ss[j], path),
    ensures
        leaves_under(concat(ss), path),
    decreases ss.len(),
{
    if ss.len() > 0 {
        lemma_concat_leaves(ss.drop_last(), path);
        let a = concat(ss.drop_last());
        let b = ss.last();
        assert(leaves_under(b, path)) by {
            assert(ss[ss.len() - 1] == b);
        }
        assert forall|i: int| 0 <= i < (a + b).len() implies (#[trigger] (a + b)[i]).from != (a
            + b)[i].to && path.is_prefix_of((a + b)[i].path) by {
            if i < a.len() {
                assert((a + b)[i] == a[i]);
            } else {
                assert((a + b)[i] == b[i - a.len()]);
            }
        }
    }
}

proof fn lemma_prefix_trans(a: Seq<char>, b: Seq<char>, c: Seq<char>)
    requires
        a.is_prefix_of(b),
        b.is_prefix_of(c),
    ensures
        a.is_prefix_of(c),
{
    assert forall|i: int| 0 <= i < a.len() implies a[i] == c[i] by {
        assert(a[i] == b[i]);
    }
}

proof fn lemma_leaves_under_weaken(s: Seq<LeafChangeModel>, p: Seq<char>, q: Seq<char>)
    requires
        leaves_under(s, q),
        p.is_prefix_of(q),
    ensures
        leaves_under(s, p),
{
    assert forall|i: int| 0 <= i < s.len() implies (#[trigger] s[i]).from != s[i].to && p.is_prefix_of(
        s[i].path,
    ) by {
        lemma_prefix_trans(p, q, s[i].path);
    }
}

proof fn lemma_leaf_if_differs(l: JsonModel, r: JsonModel, path: Seq<char>)
    ensures
        leaves_under(leaf_if_differs(l, r, path), path),
{
}

/// Every leaf change of a diff is a real change (its sides differ) and
/// lies under the path the diff started at.
pub proof fn lemma_diff_leaves_under(l: JsonModel, r: JsonModel, path: Seq<char>)
    ensures
        leaves_under(diff_leaves(l, r, path), path),
    decreases l,
{
    if l != r {
        match l {
            JsonModel::Object(le) => match r {
                JsonModel::Object(re) => {
                    let ss = object_child_diffs(le, re, path);
                    let keys = union_keys(le, re);
                    assert forall|j: int| 0 <= j < ss.len() implies leaves_under(#[trigger] ss[j], path) by {
                        let k = keys[j];
                        let a = key_index(le, k);
                        let b = key_index(re, k);
                        let kp = key_path(path, k);
                        assert(path.is_prefix_of(kp));
                        if 0 <= a < le.len() {
                            if 0 <= b < re.len() {
                                lemma_diff_leaves_under(le[a].1, re[b].1, kp);
                            } else {
                                lemma_leaf_if_differs(le[a].1, JsonModel::Null, kp);
                            }
                        } else if 0 <= b < re.len() {
                            lemma_leaf_if_differs(JsonModel::Null, re[b].1, kp);
                        }
                        lemma_leaves_under_weaken(ss[j], path, kp);
                    }
                    lemma_concat_leaves(ss, path);
                },
                _ => {},
            },
            JsonModel::Array(li) => match r {
                JsonModel::Array(ri) => {
                    let ss = array_child_diffs(li, ri, path);
                    assert forall|i: int| 0 <= i < ss.len() implies leaves_under(#[trigger] ss[i], path) by {
                        let ip = index_path(path, i as nat);
                        assert(path.is_prefix_of(ip));
                        if 0 <= i < li.len() && i < ri.len() {
                            lemma_diff_leaves_under(li[i], ri[i], ip);
                        } else if 0 <= i < li.len() {
                            lemma_leaf_if_differs(li[i], JsonModel::Null, ip);
                        } else {
                            lemma_leaf_if_differs(JsonModel::Null, ri[i], ip);
                        }
                        lemma_leaves_under_weaken(ss[i], path, ip);
                    }
                    lemma_concat_leaves(ss, path);
                },
                _ => {},
            },
            _ => {},
        }
    }
}

/// Every change a diff reports is real (its sides differ); the
/// foreign-source changes lie under `spec.foreignSource` and each modified
/// node's changes under `spec.nodes[*]`.
pub proof fn lemma_diff_changes_are_real(local: RequisitionLocalModel, remote: RequisitionLocalModel)
    ensures
        ({
            let d = spec_diff(local, remote);
            &&& leaves_under(d.foreign_source_changes, "spec.foreignSource"@)
            &&& forall|i: int| 0 <= i < d.nodes_modified.len() ==> leaves_under(
                (#[trigger] d.nodes_modified[i]).leaves,
                "spec.nodes[*]"@,
            )
        }),
{
    let lv = spec_canonical_value(local);
    let rv = spec_canonical_value(remote);
    lemma_diff_leaves_under(fs_of(lv), fs_of(rv), "spec.foreignSource"@);
    let l = nodes_of(lv);
    let r = nodes_of(rv);
    lemma_modified_leaves(fid_list(l), l, r);
}

proof fn lemma_modified_leaves(fs: Seq<Seq<char>>, l: Seq<JsonModel>, r: Seq<JsonModel>)
    ensures
        forall|i: int| 0 <= i < modified_over(fs, l, r).len() ==> leaves_under(
            (#[trigger] modified_over(fs, l, r)[i]).leaves,
            "spec.nodes[*]"@,
        ),
    decreases fs.len(),
{
    if fs.len() > 0 {
        lemma_modified_leaves(fs.drop_last(), l, r);
        let prev = modified_over(fs.drop_last(), l, r);
        match modified_entry(l, r, fs.last()) {
            Some(x) => {
                match (last_with(l, fs.last()), last_with(r, fs.last())) {
                    (Some(a), Some(b)) => {
                        lemma_diff_leaves_under(a, b, "spec.nodes[*]"@);
                    },
                    _ => {},
                }
                let cur = modified_over(fs, l, r);
                assert forall|i: int| 0 <= i < cur.len() implies leaves_under(
                    (#[trigger] cur[i]).leaves,
                    "spec.nodes[*]"@,
                ) by {
                    if i < prev.len() {
                        assert(cur[i] == prev[i]);
                    }
                }
            },
            None => {},
        }
    }
}

proof fn lemma_added_over_ids(fs: Seq<Seq<char>>, l: Seq<JsonModel>, r: Seq<JsonModel>)
    requires
        crate::sort::strictly_ascending(fs),
    ensures
        forall|i: int| 0 <= i < added_over(fs, l, r).len() ==> fs.contains(
            (#[trigger] added_over(fs, l, r)[i]).foreign_id,
        ),
        forall|i: int, j: int|
            0 <= i < j < added_over(fs, l, r).len() ==> crate::text::lex_lt(
                (#[trigger] added_over(fs, l, r)[i]).foreign_id,
                (#[trigger] added_over(fs, l, r)[j]).foreign_id,
            ),
    decreases fs.len(),
{
    if fs.len() > 0 {
        let t = fs.drop_last();
        assert(crate::sort::strictly_ascending(t)) by {
            assert forall|i: int, j: int| 0 <= i < j < t.len() implies crate::text::lex_lt(#[trigger] t[i], #[trigger] t[j]) by {
                assert(t[i] == fs[i] && t[j] == fs[j]);
            }
        }
        lemma_added_over_ids(t, l, r);
        let prev = added_over(t, l, r);
        let cur = added_over(fs, l, r);
        assert forall|i: int| 0 <= i < prev.len() implies fs.contains(#[trigger] prev[i].foreign_id) && crate::text::lex_lt(
            prev[i].foreign_id,
            fs.last(),
        ) by {
            assert(t.contains(prev[i].foreign_id));
            let k = choose|k: int| 0 <= k < t.len() && t[k] == prev[i].foreign_id;
            assert(fs[k] == t[k]);
        }
        match added_entry(l, r, fs.last()) {
            Some(x) => {
                assert(cur == prev.push(x));
                assert(fs[fs.len() - 1] == x.foreign_id);
                assert forall|i: int| 0 <= i < cur.len() implies fs.contains((#[trigger] cur[i]).foreign_id) by {
                    if i < prev.len() {
                        assert(cur[i] == prev[i]);
                    }
                }
                assert forall|i: int, j: int| 0 <= i < j < cur.len() implies crate::text::lex_lt(
                    (#[trigger] cur[i]).foreign_id,
                    (#[trigger] cur[j]).foreign_id,
                ) by {
                    assert(cur[i] == prev[i]);
                    if j < prev.len() {
                        assert(cur[j] == prev[j]);
                    }
                }
            },
            None => {},
        }
    }
}

proof fn lemma_modified_over_ids(fs: Seq<Seq<char>>, l: Seq<JsonModel>, r: Seq<JsonModel>)
    requires
        crate::sort::strictly_ascending(fs),
    ensures
        forall|i: int| 0 <= i < modified_over(fs, l, r).len() ==> fs.contains(
            (#[trigger] modified_over(fs, l, r)[i]).foreign_id,
        ),
        forall|i: int, j: int|
            0 <= i < j < modified_over(fs, l, r).len() ==> crate::text::lex_lt(
                (#[trigger] modified_over(fs, l, r)[i]).foreign_id,
                (#[trigger] modified_over(fs, l, r)[j]).foreign_id,
            ),
    decreases fs.len(),
{
    if fs.len() > 0 {
        let t = fs.drop_last();
        assert(crate::sort::strictly_ascending(t)) by {
            assert forall|i: int, j: int| 0 <= i < j < t.len() implies crate::text::lex_lt(#[trigger] t[i], #[trigger] t[j]) by {
                assert(t[i] == fs[i] && t[j] == fs[j]);
            }
        }
        lemma_modified_over_ids(t, l, r);
        let prev = modified_over(t, l, r);
        let cur = modified_over(fs, l, r);
        assert forall|i: int| 0 <= i < prev.len() implies fs.contains(#[trigger] prev[i].foreign_id) && crate::text::lex_lt(
            prev[i].foreign_id,
            fs.last(),
        ) by {
            assert(t.contains(prev[i].foreign_id));
            let k = choose|k: int| 0 <= k < t.len() && t[k] == prev[i].foreign_id;
            assert(fs[k] == t[k]);
        }
        match modified_entry(l, r, fs.last()) {
            Some(x) => {
                assert(cur == prev.push(x));
                assert(fs[fs.len() - 1] == x.foreign_id);
                assert forall|i: int| 0 <= i < cur.len() implies fs.contains((#[trigger] cur[i]).foreign_id) by {
                    if i < prev.len() {
                        assert(cur[i] == prev[i]);
                    }
                }
                assert forall|i: int, j: int| 0 <= i < j < cur.len() implies crate::text::lex_lt(
                    (#[trigger] cur[i]).foreign_id,
                    (#[trigger] cur[j]).foreign_id,
                ) by {
                    assert(cur[i] == prev[i]);
                    if j < prev.len() {
                        assert(cur[j] == prev[j]);
                    }
                }
            },
            None => {},
        }
    }
}

/// The added, removed and modified nodes of a diff are each listed in
/// strictly ascending `foreignId` order (so, with
/// [`lemma_diff_node_sets`], each list is the sorted set of its ids).
pub proof fn lemma_diff_node_order(local: RequisitionLocalModel, remote: RequisitionLocalModel)
    ensures
        ({
            let d = spec_diff(local, remote);
            &&& forall|i: int, j: int| 0 <= i < j < d.nodes_added.len() ==> crate::text::lex_lt(
                (#[trigger] d.nodes_added[i]).foreign_id,
                (#[trigger] d.nodes_added[j]).foreign_id,
            )
            &&& forall|i: int, j: int| 0 <= i < j < d.nodes_removed.len() ==> crate::text::lex_lt(
                (#[trigger] d.nodes_removed[i]).foreign_id,
                (#[trigger] d.nodes_removed[j]).foreign_id,
            )
            &&& forall|i: int, j: int| 0 <= i < j < d.nodes_modified.len() ==> crate::text::lex_lt(
                (#[trigger] d.nodes_modified[i]).foreign_id,
                (#[trigger] d.nodes_modified[j]).foreign_id,
            )
        }),
{
    let l = nodes_of(spec_canonical_value(local));
    let r = nodes_of(spec_canonical_value(remote));
    crate::sort::lemma_sorted_set_strict(l.map_values(|n: JsonModel| fid_of(n)));
    crate::sort::lemma_sorted_set_strict(r.map_values(|n: JsonModel| fid_of(n)));
    lemma_added_over_ids(fid_list(l), l, r);
    lemma_added_over_ids(fid_list(r), r, l);
    lemma_modified_over_ids(fid_list(l), l, r);
    let dd = spec_diff(local, remote);
    assert(dd.nodes_added == added_over(fid_list(l), l, r));
    assert(dd.nodes_removed == added_over(fid_list(r), r, l));
    assert(dd.nodes_modified == modified_over(fid_list(l), l, r));
}

proof fn lemma_normalize_entries_concat(a: Seq<(Seq<char>, JsonModel)>, b: Seq<(Seq<char>, JsonModel)>)
    ensures
        normalize_entries(a + b) == normalize_entries(a) + normalize_entries(b),
{
    assert(normalize_entries(a + b) =~= normalize_entries(a) + normalize_entries(b)) by {
        assert forall|j: int| 0 <= j < (a + b).len() implies normalize_entries(a + b)[j] == (normalize_entries(a)
            + normalize_entries(b))[j] by {
            if j < a.len() {
                assert((a + b)[j] == a[j]);
            } else {
                assert((a + b)[j] == b[j - a.len()]);
            }
        }
    }
}

proof fn lemma_normalize_opt_entry(c: bool, k: Seq<char>, v: JsonModel)
    ensures
        normalize_entries(opt_entry(c, k, v)) == opt_entry(c, k, normalize(v, static_name(k))),
{
    assert(normalize_entries(opt_entry(c, k, v)) =~= opt_entry(c, k, normalize(v, static_name(k))));
}

proof fn lemma_normalized_iface_ip(i: InterfaceModel)
    ensures
        field_text(normalize(interface_json(i), "interfaces"@), "ip"@) == i.ip,
{
    let e = seq![("ip"@, JsonModel::Str(i.ip))] + opt_entry(
        i.services.len() > 0,
        "services"@,
        str_array(i.services),
    ) + opt_entry(
        i.snmp_primary is Some,
        "snmpPrimary"@,
        snmp_primary_json(
            match i.snmp_primary {
                Some(p) => p,
                None => SnmpPrimary::N,
            },
        ),
    );
    assert(interface_json(i) == JsonModel::Object(e));
    assert(e[0].0 == "ip"@);
    crate::json::lemma_key_index(e, "ip"@);
    lemma_normalize_entries_keys(e, "ip"@);
    let ne = normalize_entries(e);
    assert(ne[0] == (e[0].0, normalize(e[0].1, static_name(e[0].0))));
}

/// Neither the order nor repetitions of an interface's services matter to
/// its canonical form.
pub proof fn lemma_interface_services_reorder(i1: InterfaceModel, i2: InterfaceModel)
    requires
        i1.ip == i2.ip,
        i1.snmp_primary == i2.snmp_primary,
        i1.services.to_set() == i2.services.to_set(),
    ensures
        normalize(interface_json(i1), "interfaces"@) == normalize(interface_json(i2), "interfaces"@),
{
    reveal_strlit("services");
    assert(i1.services.len() > 0 <==> i2.services.len() > 0) by {
        if i1.services.len() > 0 {
            assert(i1.services.to_set().contains(i1.services[0]));
        }
        if i2.services.len() > 0 {
            assert(i2.services.to_set().contains(i2.services[0]));
        }
    }
    lemma_string_set_members(i1.services, i2.services, "services"@);
    let head = seq![("ip"@, JsonModel::Str(i1.ip))];
    let tail = opt_entry(
        i1.snmp_primary is Some,
        "snmpPrimary"@,
        snmp_primary_json(
            match i1.snmp_primary {
                Some(p) => p,
                None => SnmpPrimary::N,
            },
        ),
    );
    let s1 = opt_entry(i1.services.len() > 0, "services"@, str_array(i1.services));
    let s2 = opt_entry(i2.services.len() > 0, "services"@, str_array(i2.services));
    lemma_normalize_entries_concat(head + s1, tail);
    lemma_normalize_entries_concat(head + s2, tail);
    lemma_normalize_entries_concat(head, s1);
    lemma_normalize_entries_concat(head, s2);
    lemma_normalize_opt_entry(i1.services.len() > 0, "services"@, str_array(i1.services));
    lemma_normalize_opt_entry(i2.services.len() > 0, "services"@, str_array(i2.services));
    assert(static_name("services"@) == "services"@);
    assert(interface_json(i1) == JsonModel::Object(head + s1 + tail));
    assert(interface_json(i2) == JsonModel::Object(head + s2 + tail));
}

/// Neither the order of a node's interfaces (their addresses distinct) nor
/// the order or repetition of its categories matter to its canonical
/// form.
pub proof fn lemma_node_reorder(n1: NodeModel, n2: NodeModel)
    requires
        n1.foreign_id == n2.foreign_id,
        n1.label == n2.label,
        n1.location == n2.location,
        n1.assets == n2.assets,
        n1.categories.to_set() == n2.categories.to_set(),
        n1.interfaces.to_multiset() == n2.interfaces.to_multiset(),
        forall|i: int, j: int|
            0 <= i < j < n1.interfaces.len() ==> (#[trigger] n1.interfaces[i]).ip != (#[trigger] n1.interfaces[j]).ip,
    ensures
        normalize(node_json(n1), "nodes"@) == normalize(node_json(n2), "nodes"@),
{
    broadcast use vstd::seq_lib::group_to_multiset_ensures;

    reveal_strlit("categories");
    reveal_strlit("interfaces");
    assert(n1.categories.len() > 0 <==> n2.categories.len() > 0) by {
        if n1.categories.len() > 0 {
            assert(n1.categories.to_set().contains(n1.categories[0]));
        }
        if n2.categories.len() > 0 {
            assert(n2.categories.to_set().contains(n2.categories[0]));
        }
    }
    vstd::seq_lib::to_multiset_len(n1.interfaces);
    vstd::seq_lib::to_multiset_len(n2.interfaces);
    assert(n1.interfaces.len() == n2.interfaces.len());
    lemma_string_set_members(n1.categories, n2.categories, "categories"@);
    let g = |i: InterfaceModel| interface_json(i);
    let ia = n1.interfaces.map_values(g);
    let ib = n2.interfaces.map_values(g);
    crate::sort::lemma_map_multiset(n1.interfaces, n2.interfaces, g);
    let h = |i: InterfaceModel| normalize(interface_json(i), "interfaces"@);
    assert(normalize_items(ia, "interfaces"@) =~= n1.interfaces.map_values(h));
    let ma = n1.interfaces.map_values(h);
    let k = by_field("ip"@);
    reveal_strlit("nodes");
    assert("interfaces"@[0] != "nodes"@[0]);
    assert(rule_key("interfaces"@) == k);
    assert forall|x: JsonModel, y: JsonModel|
        #![trigger ma.contains(x), ma.contains(y)]
        ma.contains(x) && ma.contains(y) && k(x) == k(y) implies x == y by {
        let p = choose|p: int| 0 <= p < ma.len() && ma[p] == x;
        let q = choose|q: int| 0 <= q < ma.len() && ma[q] == y;
        lemma_normalized_iface_ip(n1.interfaces[p]);
        lemma_normalized_iface_ip(n1.interfaces[q]);
        assert(k(x)[0] == field_text(x, "ip"@));
        assert(k(y)[0] == field_text(y, "ip"@));
        if p < q {
            assert(n1.interfaces[p].ip != n1.interfaces[q].ip);
        } else if q < p {
            assert(n1.interfaces[q].ip != n1.interfaces[p].ip);
        }
    }
    assert(unordered_field("interfaces"@));
    lemma_normalize_array_order(ia, ib, "interfaces"@);
    let loc = JsonModel::Str(
        match n1.location {
            Some(l) => l,
            None => Seq::empty(),
        },
    );
    let a0 = opt_entry(n1.assets.len() > 0, "assets"@, assets_json(n1.assets));
    let c1 = opt_entry(n1.categories.len() > 0, "categories"@, str_array(n1.categories));
    let c2 = opt_entry(n2.categories.len() > 0, "categories"@, str_array(n2.categories));
    let f0 = seq![("foreignId"@, JsonModel::Str(n1.foreign_id))];
    let j1 = opt_entry(n1.interfaces.len() > 0, "interfaces"@, JsonModel::Array(ia));
    let j2 = opt_entry(n2.interfaces.len() > 0, "interfaces"@, JsonModel::Array(ib));
    let l0 = seq![("label"@, JsonModel::Str(n1.label))];
    let o0 = opt_entry(n1.location is Some, "location"@, loc);
    assert(node_json(n1) == JsonModel::Object(a0 + c1 + f0 + j1 + l0 + o0));
    assert(node_json(n2) == JsonModel::Object(a0 + c2 + f0 + j2 + l0 + o0));
    lemma_normalize_opt_entry(n1.categories.len() > 0, "categories"@, str_array(n1.categories));
    lemma_normalize_opt_entry(n2.categories.len() > 0, "categories"@, str_array(n2.categories));
    lemma_normalize_opt_entry(n1.interfaces.len() > 0, "interfaces"@, JsonModel::Array(ia));
    lemma_normalize_opt_entry(n2.interfaces.len() > 0, "interfaces"@, JsonModel::Array(ib));
    assert(static_name("categories"@) == "categories"@);
    assert(static_name("interfaces"@) == "interfaces"@);
    lemma_normalize_entries_concat(a0, c1);
    lemma_normalize_entries_concat(a0, c2);
    lemma_normalize_entries_concat(a0 + c1, f0);
    lemma_normalize_entries_concat(a0 + c2, f0);
    lemma_normalize_entries_concat(a0 + c1 + f0, j1);
    lemma_normalize_entries_concat(a0 + c2 + f0, j2);
    lemma_normalize_entries_concat(a0 + c1 + f0 + j1, l0);
    lemma_normalize_entries_concat(a0 + c2 + f0 + j2, l0);
    lemma_normalize_entries_concat(a0 + c1 + f0 + j1 + l0, o0);
    lemma_normalize_entries_concat(a0 + c2 + f0 + j2 + l0, o0);
}

/// A document whose nodes each normalize like the other document's node at
/// the same position (e.g. reordered as [`lemma_node_reorder`] allows) has
/// the same canonical form, so, with [`lemma_canonical_node_order`], the
/// order of nodes, of each node's interfaces and the order and repetition
/// of categories never make two documents L1-different.
pub proof fn lemma_canonical_nodes_pointwise(a: RequisitionLocalModel, b: RequisitionLocalModel)
    requires
        a.metadata == b.metadata,
        a.spec.foreign_source == b.spec.foreign_source,
        a.spec.nodes.len() == b.spec.nodes.len(),
        forall|i: int|
            0 <= i < a.spec.nodes.len() ==> normalize(node_json(#[trigger] a.spec.nodes[i]), "nodes"@)
                == normalize(node_json(b.spec.nodes[i]), "nodes"@),
    ensures
        spec_canonical_value(a) == spec_canonical_value(b),
        spec_l1(a, b) == L1Result::Unchanged,
{
    let na = a.spec.nodes.map_values(|n: NodeModel| node_json(n));
    let nb = b.spec.nodes.map_values(|n: NodeModel| node_json(n));
    assert(normalize_items(na, "nodes"@) =~= normalize_items(nb, "nodes"@));
    reveal_strlit("nodes");
    reveal_strlit("spec");
    assert("nodes"@ == static_name("nodes"@));
    assert(normalize(JsonModel::Array(na), "nodes"@) == normalize(JsonModel::Array(nb), "nodes"@));
    let fs_default = ForeignSourceSpecModel {
        scan_interval: None,
        detectors: Seq::empty(),
        policies: Seq::empty(),
    };
    let fse = opt_entry(
        a.spec.foreign_source is Some,
        "foreignSource"@,
        foreign_source_json(
            match a.spec.foreign_source {
                Some(f) => f,
                None => fs_default,
            },
        ),
    );
    let sa = fse + seq![("nodes"@, JsonModel::Array(na))];
    let sb = fse + seq![("nodes"@, JsonModel::Array(nb))];
    assert(normalize_entries(sa) =~= normalize_entries(sb));
    assert("spec"@ == static_name("spec"@));
    let ta = spec_to_json(a);
    let tb = spec_to_json(b);
    match (ta, tb) {
        (JsonModel::Object(ea), JsonModel::Object(eb)) => {
            assert(ea[3].1 == JsonModel::Object(sa));
            assert(eb[3].1 == JsonModel::Object(sb));
            assert(normalize_entries(ea) =~= normalize_entries(eb));
        },
        _ => {},
    }
}

proof fn lemma_normalized_parameter_key(p: ParameterModel)
    ensures
        field_text(normalize(parameter_json(p), "parameters"@), "key"@) == p.key,
{
    let e = seq![("key"@, JsonModel::Str(p.key)), ("value"@, JsonModel::Str(p.value))];
    assert(e[0].0 == "key"@);
    crate::json::lemma_key_index(e, "key"@);
    lemma_normalize_entries_keys(e, "key"@);
    let ne = normalize_entries(e);
    assert(ne[0] == (e[0].0, normalize(e[0].1, static_name(e[0].0))));
}

/// The order of a detector's or policy's parameters (their keys distinct)
/// does not matter to their canonical form.
pub proof fn lemma_parameters_reorder(p1: Seq<ParameterModel>, p2: Seq<ParameterModel>)
    requires
        p1.to_multiset() == p2.to_multiset(),
        forall|i: int, j: int| 0 <= i < j < p1.len() ==> (#[trigger] p1[i]).key != (#[trigger] p1[j]).key,
    ensures
        normalize(parameters_json(p1), "parameters"@) == normalize(parameters_json(p2), "parameters"@),
{
    let g = |p: ParameterModel| parameter_json(p);
    let ia = p1.map_values(g);
    let ib = p2.map_values(g);
    crate::sort::lemma_map_multiset(p1, p2, g);
    let h = |p: ParameterModel| normalize(parameter_json(p), "parameters"@);
    assert(normalize_items(ia, "parameters"@) =~= p1.map_values(h));
    let ma = p1.map_values(h);
    let k = by_field("key"@);
    reveal_strlit("nodes");
    reveal_strlit("interfaces");
    reveal_strlit("parameters");
    assert("parameters"@[0] != "nodes"@[0]);
    assert("parameters"@[0] != "interfaces"@[0]);
    assert(rule_key("parameters"@) == k);
    assert forall|x: JsonModel, y: JsonModel|
        #![trigger ma.contains(x), ma.contains(y)]
        ma.contains(x) && ma.contains(y) && k(x) == k(y) implies x == y by {
        let a = choose|a: int| 0 <= a < ma.len() && ma[a] == x;
        let b = choose|b: int| 0 <= b < ma.len() && ma[b] == y;
        lemma_normalized_parameter_key(p1[a]);
        lemma_normalized_parameter_key(p1[b]);
        assert(k(x)[0] == field_text(x, "key"@));
        assert(k(y)[0] == field_text(y, "key"@));
        if a < b {
            assert(p1[a].key != p1[b].key);
        } else if b < a {
            assert(p1[b].key != p1[a].key);
        }
    }
    assert(unordered_field("parameters"@));
    lemma_normalize_array_order(ia, ib, "parameters"@);
    assert(parameters_json(p1) == JsonModel::Array(ia));
    assert(parameters_json(p2) == JsonModel::Array(ib));
}

/// A detector with its parameters reordered (keys distinct) normalizes
/// alike.
pub proof fn lemma_detector_reorder(d1: DetectorModel, d2: DetectorModel)
    requires
        d1.name == d2.name,
        d1.class == d2.class,
        d1.parameters.to_multiset() == d2.parameters.to_multiset(),
        forall|i: int, j: int|
            0 <= i < j < d1.parameters.len() ==> (#[trigger] d1.parameters[i]).key != (#[trigger] d1.parameters[j]).key,
    ensures
        normalize(detector_json(d1), "detectors"@) == normalize(detector_json(d2), "detectors"@),
{
    broadcast use vstd::seq_lib::group_to_multiset_ensures;

    vstd::seq_lib::to_multiset_len(d1.parameters);
    vstd::seq_lib::to_multiset_len(d2.parameters);
    lemma_parameters_reorder(d1.parameters, d2.parameters);
    reveal_strlit("parameters");
    assert(static_name("parameters"@) == "parameters"@);
    let c0 = opt_entry(
        d1.class is Some,
        "class"@,
        JsonModel::Str(
            match d1.class {
                Some(c) => c,
                None => Seq::empty(),
            },
        ),
    );
    let n0 = seq![("name"@, JsonModel::Str(d1.name))];
    let q1 = opt_entry(d1.parameters.len() > 0, "parameters"@, parameters_json(d1.parameters));
    let q2 = opt_entry(d2.parameters.len() > 0, "parameters"@, parameters_json(d2.parameters));
    assert(detector_json(d1) == JsonModel::Object(c0 + n0 + q1));
    assert(detector_json(d2) == JsonModel::Object(c0 + n0 + q2));
    lemma_normalize_opt_entry(d1.parameters.len() > 0, "parameters"@, parameters_json(d1.parameters));
    lemma_normalize_opt_entry(d2.parameters.len() > 0, "parameters"@, parameters_json(d2.parameters));
    lemma_normalize_entries_concat(c0 + n0, q1);
    lemma_normalize_entries_concat(c0 + n0, q2);
}

/// A policy with its parameters reordered (keys distinct) normalizes
/// alike.
pub proof fn lemma_policy_reorder(p1: PolicyModel, p2: PolicyModel)
    requires
        p1.name == p2.name,
        p1.class == p2.class,
        p1.parameters.to_multiset() == p2.parameters.to_multiset(),
        forall|i: int, j: int|
            0 <= i < j < p1.parameters.len() ==> (#[trigger] p1.parameters[i]).key != (#[trigger] p1.parameters[j]).key,
    ensures
        normalize(policy_json(p1), "policies"@) == normalize(policy_json(p2), "policies"@),
{
    broadcast use vstd::seq_lib::group_to_multiset_ensures;

    vstd::seq_lib::to_multiset_len(p1.parameters);
    vstd::seq_lib::to_multiset_len(p2.parameters);
    lemma_parameters_reorder(p1.parameters, p2.parameters);
    reveal_strlit("parameters");
    assert(static_name("parameters"@) == "parameters"@);
    let h0 = seq![("class"@, JsonModel::Str(p1.class)), ("name"@, JsonModel::Str(p1.name))];
    let q1 = opt_entry(p1.parameters.len() > 0, "parameters"@, parameters_json(p1.parameters));
    let q2 = opt_entry(p2.parameters.len() > 0, "parameters"@, parameters_json(p2.parameters));
    assert(policy_json(p1) == JsonModel::Object(h0 + q1));
    assert(policy_json(p2) == JsonModel::Object(h0 + q2));
    lemma_normalize_opt_entry(p1.parameters.len() > 0, "parameters"@, parameters_json(p1.parameters));
    lemma_normalize_opt_entry(p2.parameters.len() > 0, "parameters"@, parameters_json(p2.parameters));
    lemma_normalize_entries_concat(h0, q1);
    lemma_normalize_entries_concat(h0, q2);
}

/// A document whose foreign source's detectors and policies each
/// normalize like the other document's at the same position (e.g. with
/// their parameters reordered as [`lemma_detector_reorder`] and
/// [`lemma_policy_reorder`] allow), all else equal, has the same canonical
/// form. The order of detectors and of policies themselves does matter.
pub proof fn lemma_canonical_fs_pointwise(a: RequisitionLocalModel, b: RequisitionLocalModel)
    requires
        a.metadata == b.metadata,
        a.spec.nodes == b.spec.nodes,
        a.spec.foreign_source matches Some(fa) && b.spec.foreign_source matches Some(fb) && fa.scan_interval
            == fb.scan_interval && fa.detectors.len() == fb.detectors.len() && fa.policies.len()
            == fb.policies.len() && (forall|i: int|
            0 <= i < fa.detectors.len() ==> normalize(detector_json(#[trigger] fa.detectors[i]), "detectors"@)
                == normalize(detector_json(fb.detectors[i]), "detectors"@)) && (forall|i: int|
            0 <= i < fa.policies.len() ==> normalize(policy_json(#[trigger] fa.policies[i]), "policies"@)
                == normalize(policy_json(fb.policies[i]), "policies"@)),
    ensures
        spec_canonical_value(a) == spec_canonical_value(b),
        spec_l1(a, b) == L1Result::Unchanged,
{
    let fa = a.spec.foreign_source.unwrap();
    let fb = b.spec.foreign_source.unwrap();
    reveal_strlit("detectors");
    reveal_strlit("policies");
    reveal_strlit("nodes");
    reveal_strlit("interfaces");
    reveal_strlit("parameters");
    reveal_strlit("categories");
    reveal_strlit("services");
    reveal_strlit("foreignSource");
    reveal_strlit("spec");
    assert(static_name("detectors"@) == "detectors"@);
    assert(static_name("policies"@) == "policies"@);
    assert(static_name("foreignSource"@) == "foreignSource"@);
    assert(static_name("spec"@) == "spec"@);
    let da = fa.detectors.map_values(|x: DetectorModel| detector_json(x));
    let db = fb.detectors.map_values(|x: DetectorModel| detector_json(x));
    let pa = fa.policies.map_values(|x: PolicyModel| policy_json(x));
    let pb = fb.policies.map_values(|x: PolicyModel| policy_json(x));
    assert(normalize_items(da, "detectors"@) =~= normalize_items(db, "detectors"@));
    assert(normalize_items(pa, "policies"@) =~= normalize_items(pb, "policies"@));
    assert("detectors"@[0] != "nodes"@[0] && "detectors"@[0] != "interfaces"@[0] && "detectors"@[0]
        != "parameters"@[0] && "detectors"@[0] != "categories"@[0] && "detectors"@[0] != "services"@[0]);
    assert("policies"@[0] != "nodes"@[0] && "policies"@[0] != "interfaces"@[0] && "policies"@[1]
        != "parameters"@[1] && "policies"@[0] != "categories"@[0] && "policies"@[0] != "services"@[0]);
    assert(normalize(JsonModel::Array(da), "detectors"@) == normalize(JsonModel::Array(db), "detectors"@));
    assert(normalize(JsonModel::Array(pa), "policies"@) == normalize(JsonModel::Array(pb), "policies"@));
    let si = opt_entry(
        fa.scan_interval is Some,
        "scanInterval"@,
        JsonModel::Str(
            match fa.scan_interval {
                Some(s) => s,
                None => Seq::empty(),
            },
        ),
    );
    let ea = opt_entry(fa.detectors.len() > 0, "detectors"@, JsonModel::Array(da)) + opt_entry(
        fa.policies.len() > 0,
        "policies"@,
        JsonModel::Array(pa),
    ) + si;
    let eb = opt_entry(fb.detectors.len() > 0, "detectors"@, JsonModel::Array(db)) + opt_entry(
        fb.policies.len() > 0,
        "policies"@,
        JsonModel::Array(pb),
    ) + si;
    assert(foreign_source_json(fa) == JsonModel::Object(ea));
    assert(foreign_source_json(fb) == JsonModel::Object(eb));
    lemma_normalize_opt_entry(fa.detectors.len() > 0, "detectors"@, JsonModel::Array(da));
    lemma_normalize_opt_entry(fb.detectors.len() > 0, "detectors"@, JsonModel::Array(db));
    lemma_normalize_opt_entry(fa.policies.len() > 0, "policies"@, JsonModel::Array(pa));
    lemma_normalize_opt_entry(fb.policies.len() > 0, "policies"@, JsonModel::Array(pb));
    let xa = opt_entry(fa.detectors.len() > 0, "detectors"@, JsonModel::Array(da));
    let xb = opt_entry(fb.detectors.len() > 0, "detectors"@, JsonModel::Array(db));
    let ya = opt_entry(fa.policies.len() > 0, "policies"@, JsonModel::Array(pa));
    let yb = opt_entry(fb.policies.len() > 0, "policies"@, JsonModel::Array(pb));
    lemma_normalize_entries_concat(xa, ya);
    lemma_normalize_entries_concat(xb, yb);
    lemma_normalize_entries_concat(xa + ya, si);
    lemma_normalize_entries_concat(xb + yb, si);
    assert(normalize(foreign_source_json(fa), "foreignSource"@) == normalize(foreign_source_json(fb), "foreignSource"@));
    let na = JsonModel::Array(a.spec.nodes.map_values(|n: NodeModel| node_json(n)));
    let sa = seq![("foreignSource"@, foreign_source_json(fa))] + seq![("nodes"@, na)];
    let sb = seq![("foreignSource"@, foreign_source_json(fb))] + seq![("nodes"@, na)];
    assert(normalize_entries(sa) =~= normalize_entries(sb));
    let ta = spec_to_json(a);
    let tb = spec_to_json(b);
    match (ta, tb) {
        (JsonModel::Object(ea2), JsonModel::Object(eb2)) => {
            assert(ea2[3].1 == JsonModel::Object(sa));
            assert(eb2[3].1 == JsonModel::Object(sb));
            assert(normalize_entries(ea2) =~= normalize_entries(eb2));
        },
        _ => {},
    }
}

/// The entries of the canonical foreign source of a canonical document.
spec fn fs_entries_of(v: JsonModel) -> Seq<(Seq<char>, JsonModel)> {
    match v {
        JsonModel::Object(top) => if top.len() == 4 {
            match top[3].1 {
                JsonModel::Object(sp) => if sp.len() >= 1 {
                    match sp[0].1 {
                        JsonModel::Object(fse) => fse,
                        _ => Seq::empty(),
                    }
                } else {
                    Seq::empty()
                },
                _ => Seq::empty(),
            }
        } else {
            Seq::empty()
        },
        _ => Seq::empty(),
    }
}

/// The canonical items of a document's detectors and policies, in order
/// (empty without a foreign source): the detectors' and policies' order is
/// kept by the canonical form.
proof fn lemma_canonical_fs_items(a: RequisitionLocalModel)
    requires
        a.spec.foreign_source is Some,
    ensures
        ({
            let f = a.spec.foreign_source.unwrap();
            let v = spec_canonical_value(a);
            let da = f.detectors.map_values(|x: DetectorModel| detector_json(x));
            let pa = f.policies.map_values(|x: PolicyModel| policy_json(x));
            let fse = fs_entries_of(v);
            &&& f.detectors.len() > 0 ==> fse.len() >= 1 && fse[0].1 == JsonModel::Array(
                normalize_items(da, "detectors"@),
            )
            &&& f.policies.len() > 0 ==> {
                let pi: int = if f.detectors.len() > 0 {
                    1
                } else {
                    0
                };
                fse.len() > pi && fse[pi].1 == JsonModel::Array(normalize_items(pa, "policies"@))
            }
        }),
{
    let f = a.spec.foreign_source.unwrap();
    reveal_strlit("detectors");
    reveal_strlit("policies");
    reveal_strlit("nodes");
    reveal_strlit("interfaces");
    reveal_strlit("parameters");
    reveal_strlit("categories");
    reveal_strlit("services");
    reveal_strlit("foreignSource");
    reveal_strlit("spec");
    assert(static_name("detectors"@) == "detectors"@);
    assert(static_name("policies"@) == "policies"@);
    assert(static_name("foreignSource"@) == "foreignSource"@);
    assert(static_name("spec"@) == "spec"@);
    assert("detectors"@[0] != "nodes"@[0] && "detectors"@[0] != "interfaces"@[0] && "detectors"@[0]
        != "parameters"@[0] && "detectors"@[0] != "categories"@[0] && "detectors"@[0] != "services"@[0]);
    assert("policies"@[0] != "nodes"@[0] && "policies"@[0] != "interfaces"@[0] && "policies"@[1]
        != "parameters"@[1] && "policies"@[0] != "categories"@[0] && "policies"@[0] != "services"@[0]);
    let da = f.detectors.map_values(|x: DetectorModel| detector_json(x));
    let pa = f.policies.map_values(|x: PolicyModel| policy_json(x));
    let si = opt_entry(
        f.scan_interval is Some,
        "scanInterval"@,
        JsonModel::Str(
            match f.scan_interval {
                Some(s) => s,
                None => Seq::empty(),
            },
        ),
    );
    let xa = opt_entry(f.detectors.len() > 0, "detectors"@, JsonModel::Array(da));
    let ya = opt_entry(f.policies.len() > 0, "policies"@, JsonModel::Array(pa));
    assert(foreign_source_json(f) == JsonModel::Object(xa + ya + si));
    lemma_normalize_opt_entry(f.detectors.len() > 0, "detectors"@, JsonModel::Array(da));
    lemma_normalize_opt_entry(f.policies.len() > 0, "policies"@, JsonModel::Array(pa));
    lemma_normalize_entries_concat(xa, ya);
    lemma_normalize_entries_concat(xa + ya, si);
    let fse = normalize_entries(xa + ya + si);
    assert(normalize(JsonModel::Array(da), "detectors"@) == JsonModel::Array(normalize_items(da, "detectors"@)));
    assert(normalize(JsonModel::Array(pa), "policies"@) == JsonModel::Array(normalize_items(pa, "policies"@)));
    if f.detectors.len() > 0 {
        assert(fse[0] == normalize_entries(xa)[0]);
    }
    if f.policies.len() > 0 {
        let pi: int = if f.detectors.len() > 0 {
            1
        } else {
            0
        };
        assert(normalize_entries(xa).len() == pi);
        assert(fse[pi] == normalize_entries(ya)[0]);
    }
    let na = JsonModel::Array(a.spec.nodes.map_values(|n: NodeModel| node_json(n)));
    let sa = seq![("foreignSource"@, foreign_source_json(f))] + seq![("nodes"@, na)];
    let t = spec_to_json(a);
    match t {
        JsonModel::Object(ea) => {
            assert(ea[3].1 == JsonModel::Object(sa));
            assert(normalize_entries(ea)[3].1 == normalize(ea[3].1, static_name(ea[3].0)));
            assert(normalize_entries(sa)[0].1 == normalize(sa[0].1, static_name(sa[0].0)));
        },
        _ => {},
    }
}

/// Swapping two detectors whose canonical forms differ changes the
/// canonical form: the order of detectors matters.
pub proof fn lemma_detector_swap_changes(a: RequisitionLocalModel, b: RequisitionLocalModel, i: int, j: int)
    requires
        a.spec.foreign_source matches Some(fa) && b.spec.foreign_source matches Some(fb) && 0 <= i < fa.detectors.len()
            && 0 <= j < fa.detectors.len() && fb.detectors == fa.detectors.update(i, fa.detectors[j]).update(
            j,
            fa.detectors[i],
        ) && normalize(detector_json(fa.detectors[i]), "detectors"@) != normalize(
            detector_json(fa.detectors[j]),
            "detectors"@,
        ),
    ensures
        spec_canonical_value(a) != spec_canonical_value(b),
{
    let fa = a.spec.foreign_source.unwrap();
    let fb = b.spec.foreign_source.unwrap();
    lemma_canonical_fs_items(a);
    lemma_canonical_fs_items(b);
    let da = fa.detectors.map_values(|x: DetectorModel| detector_json(x));
    let db = fb.detectors.map_values(|x: DetectorModel| detector_json(x));
    if spec_canonical_value(a) == spec_canonical_value(b) {
        assert(normalize_items(da, "detectors"@) == normalize_items(db, "detectors"@));
        assert(normalize_items(da, "detectors"@)[i] == normalize(detector_json(fa.detectors[i]), "detectors"@));
        assert(fb.detectors[i] == fa.detectors[j]);
        assert(normalize_items(db, "detectors"@)[i] == normalize(detector_json(fa.detectors[j]), "detectors"@));
    }
}

/// Swapping two policies whose canonical forms differ changes the
/// canonical form: the order of policies matters.
pub proof fn lemma_policy_swap_changes(a: RequisitionLocalModel, b: RequisitionLocalModel, i: int, j: int)
    requires
        a.spec.foreign_source matches Some(fa) && b.spec.foreign_source matches Some(fb) && 0 <= i < fa.policies.len()
            && 0 <= j < fa.policies.len() && fb.detectors == fa.detectors && fb.policies
            == fa.policies.update(i, fa.policies[j]).update(j, fa.policies[i]) && normalize(
            policy_json(fa.policies[i]),
            "policies"@,
        ) != normalize(policy_json(fa.policies[j]), "policies"@),
    ensures
        spec_canonical_value(a) != spec_canonical_value(b),
{
    let fa = a.spec.foreign_source.unwrap();
    let fb = b.spec.foreign_source.unwrap();
    lemma_canonical_fs_items(a);
    lemma_canonical_fs_items(b);
    let pa = fa.policies.map_values(|x: PolicyModel| policy_json(x));
    let pb = fb.policies.map_values(|x: PolicyModel| policy_json(x));
    if spec_canonical_value(a) == spec_canonical_value(b) {
        assert(normalize_items(pa, "policies"@) == normalize_items(pb, "policies"@));
        assert(normalize_items(pa, "policies"@)[i] == normalize(policy_json(fa.policies[i]), "policies"@));
        assert(fb.policies[i] == fa.policies[j]);
        assert(normalize_items(pb, "policies"@)[i] == normalize(policy_json(fa.policies[j]), "policies"@));
    }
}

/// Keys in strictly ascending text order (so each key once).
pub open spec fn keys_ascending(e: Seq<(Seq<char>, JsonModel)>) -> bool {
    forall|i: int, j: int| 0 <= i < j < e.len() ==> crate::text::lex_lt(#[trigger] e[i].0, #[trigger] e[j].0)
}

/// A value with no null anywhere and every object's keys strictly
/// ascending: the shape of a canonical node.
pub open spec fn well_formed(v: JsonModel) -> bool
    decreases v,
{
    match v {
        JsonModel::Null => false,
        JsonModel::Array(items) => forall|i: int| 0 <= i < items.len() ==> well_formed(#[trigger] items[i]),
        JsonModel::Object(e) => keys_ascending(e) && forall|i: int| 0 <= i < e.len() ==> well_formed(
            #[trigger] e[i].1,
        ),
        _ => true,
    }
}

proof fn lemma_concat_len_at_least<A>(ss: Seq<Seq<A>>, j: int)
    requires
        0 <= j < ss.len(),
    ensures
        concat(ss).len() >= ss[j].len(),
    decreases ss.len(),
{
    if j < ss.len() - 1 {
        lemma_concat_len_at_least(ss.drop_last(), j);
    }
}

proof fn lemma_key_index_ascending(e: Seq<(Seq<char>, JsonModel)>, i: int)
    requires
        keys_ascending(e),
        0 <= i < e.len(),
    ensures
        key_index(e, e[i].0) == i,
{
    crate::json::lemma_key_index(e, e[i].0);
    let k = key_index(e, e[i].0);
    if k < i {
        assert(crate::text::lex_lt(e[k].0, e[i].0));
        crate::text::lemma_lex_irrefl(e[i].0);
    }
}

proof fn lemma_key_absent(e: Seq<(Seq<char>, JsonModel)>, k: Seq<char>)
    requires
        forall|i: int| 0 <= i < e.len() ==> (#[trigger] e[i]).0 != k,
    ensures
        key_index(e, k) == e.len(),
{
    crate::json::lemma_key_index(e, k);
}

/// The keys of an object.
pub open spec fn keys_of(e: Seq<(Seq<char>, JsonModel)>) -> Seq<Seq<char>> {
    e.map_values(|x: (Seq<char>, JsonModel)| x.0)
}

proof fn lemma_ascending_same_members(a: Seq<Seq<char>>, b: Seq<Seq<char>>)
    requires
        crate::sort::strictly_ascending(a),
        crate::sort::strictly_ascending(b),
        forall|x: Seq<char>| a.contains(x) <==> b.contains(x),
    ensures
        a == b,
    decreases a.len() + b.len(),
{
    if a.len() == 0 && b.len() == 0 {
        assert(a =~= b);
    } else if a.len() == 0 {
        assert(b.contains(b[0]));
    } else if b.len() == 0 {
        assert(a.contains(a[0]));
    } else {
        let x = a.last();
        let y = b.last();
        assert(a.contains(x));
        assert(b.contains(y));
        let p = choose|p: int| 0 <= p < b.len() && b[p] == x;
        let q = choose|q: int| 0 <= q < a.len() && a[q] == y;
        if x != y {
            if p < b.len() - 1 {
                assert(crate::text::lex_lt(b[p], b[b.len() - 1]));
            }
            if q < a.len() - 1 {
                assert(crate::text::lex_lt(a[q], a[a.len() - 1]));
            }
            crate::text::lemma_lex_asym(x, y);
        }
        let a2 = a.drop_last();
        let b2 = b.drop_last();
        assert forall|z: Seq<char>| a2.contains(z) <==> b2.contains(z) by {
            if a2.contains(z) {
                let k = choose|k: int| 0 <= k < a2.len() && a2[k] == z;
                assert(crate::text::lex_lt(a[k], a[a.len() - 1]));
                crate::text::lemma_lex_irrefl(z);
                assert(a.contains(z));
                let m = choose|m: int| 0 <= m < b.len() && b[m] == z;
                assert(m != b.len() - 1);
                assert(b2[m] == z);
            }
            if b2.contains(z) {
                let k = choose|k: int| 0 <= k < b2.len() && b2[k] == z;
                assert(crate::text::lex_lt(b[k], b[b.len() - 1]));
                crate::text::lemma_lex_irrefl(z);
                assert(b.contains(z));
                let m = choose|m: int| 0 <= m < a.len() && a[m] == z;
                assert(m != a.len() - 1);
                assert(a2[m] == z);
            }
        }
        assert(crate::sort::strictly_ascending(a2));
        assert(crate::sort::strictly_ascending(b2));
        lemma_ascending_same_members(a2, b2);
        assert(a =~= a2.push(x));
        assert(b =~= b2.push(y));
    }
}

proof fn lemma_union_has(le: Seq<(Seq<char>, JsonModel)>, re: Seq<(Seq<char>, JsonModel)>, k: Seq<char>)
    requires
        keys_of(le).contains(k) || keys_of(re).contains(k),
    ensures
        union_keys(le, re).contains(k),
{
    let all = le.map_values(|e: (Seq<char>, JsonModel)| e.0) + re.map_values(|e: (Seq<char>, JsonModel)| e.0);
    crate::sort::lemma_sorted_set_members(all, k);
    if keys_of(le).contains(k) {
        let i = choose|i: int| 0 <= i < keys_of(le).len() && keys_of(le)[i] == k;
        assert(all[i] == k);
    } else {
        let i = choose|i: int| 0 <= i < keys_of(re).len() && keys_of(re)[i] == k;
        assert(all[le.len() + i] == k);
    }
}

/// Two different well-formed values always differ by at least one leaf
/// change.
pub proof fn lemma_diff_leaves_nonempty(l: JsonModel, r: JsonModel, path: Seq<char>)
    requires
        well_formed(l),
        well_formed(r),
        l != r,
    ensures
        diff_leaves(l, r, path).len() > 0,
    decreases l,
{
    match l {
        JsonModel::Object(le) => match r {
            JsonModel::Object(re) => {
                let keys = union_keys(le, re);
                let ss = object_child_diffs(le, re, path);
                if exists|i: int| 0 <= i < le.len() && !keys_of(re).contains(#[trigger] le[i].0) {
                    let i = choose|i: int| 0 <= i < le.len() && !keys_of(re).contains(#[trigger] le[i].0);
                    let k = le[i].0;
                    assert(keys_of(le)[i] == k);
                    lemma_union_has(le, re, k);
                    let j = choose|j: int| 0 <= j < keys.len() && keys[j] == k;
                    lemma_key_index_ascending(le, i);
                    assert forall|m: int| 0 <= m < re.len() implies (#[trigger] re[m]).0 != k by {
                        assert(keys_of(re)[m] == re[m].0);
                    }
                    lemma_key_absent(re, k);
                    assert(well_formed(le[i].1));
                    assert(ss[j] == leaf_if_differs(le[i].1, JsonModel::Null, key_path(path, k)));
                    lemma_concat_len_at_least(ss, j);
                } else if exists|i: int| 0 <= i < re.len() && !keys_of(le).contains(#[trigger] re[i].0) {
                    let i = choose|i: int| 0 <= i < re.len() && !keys_of(le).contains(#[trigger] re[i].0);
                    let k = re[i].0;
                    assert(keys_of(re)[i] == k);
                    lemma_union_has(le, re, k);
                    let j = choose|j: int| 0 <= j < keys.len() && keys[j] == k;
                    lemma_key_index_ascending(re, i);
                    assert forall|m: int| 0 <= m < le.len() implies (#[trigger] le[m]).0 != k by {
                        assert(keys_of(le)[m] == le[m].0);
                    }
                    lemma_key_absent(le, k);
                    assert(well_formed(re[i].1));
                    assert(ss[j] == leaf_if_differs(JsonModel::Null, re[i].1, key_path(path, k)));
                    lemma_concat_len_at_least(ss, j);
                } else {
                    let ka = keys_of(le);
                    let kb = keys_of(re);
                    assert forall|x: Seq<char>| ka.contains(x) <==> kb.contains(x) by {
                        if ka.contains(x) {
                            let i = choose|i: int| 0 <= i < ka.len() && ka[i] == x;
                            assert(le[i].0 == x);
                        }
                        if kb.contains(x) {
                            let i = choose|i: int| 0 <= i < kb.len() && kb[i] == x;
                            assert(re[i].0 == x);
                        }
                    }
                    assert(crate::sort::strictly_ascending(ka));
                    assert(crate::sort::strictly_ascending(kb));
                    lemma_ascending_same_members(ka, kb);
                    assert(le.len() == re.len());
                    if forall|i: int| 0 <= i < le.len() ==> le[i].1 == re[i].1 {
                        assert forall|i: int| 0 <= i < le.len() implies le[i] == re[i] by {
                            assert(ka[i] == kb[i]);
                        }
                        assert(le =~= re);
                    }
                    let i = choose|i: int| 0 <= i < le.len() && le[i].1 != re[i].1;
                    let k = le[i].0;
                    assert(ka[i] == kb[i]);
                    assert(ka[i] == k);
                    assert(ka.contains(k));
                    lemma_union_has(le, re, k);
                    let j = choose|j: int| 0 <= j < keys.len() && keys[j] == k;
                    lemma_key_index_ascending(le, i);
                    lemma_key_index_ascending(re, i);
                    lemma_diff_leaves_nonempty(le[i].1, re[i].1, key_path(path, k));
                    assert(ss[j] == diff_leaves(le[i].1, re[i].1, key_path(path, k)));
                    lemma_concat_len_at_least(ss, j);
                }
            },
            _ => {},
        },
        JsonModel::Array(li) => match r {
            JsonModel::Array(ri) => {
                let ss = array_child_diffs(li, ri, path);
                if li.len() > ri.len() {
                    let k = ri.len() as int;
                    assert(well_formed(li[k]));
                    lemma_concat_len_at_least(ss, k);
                } else if li.len() < ri.len() {
                    let k = li.len() as int;
                    assert(well_formed(ri[k]));
                    lemma_concat_len_at_least(ss, k);
                } else {
                    if forall|i: int| 0 <= i < li.len() ==> li[i] == ri[i] {
                        assert(li =~= ri);
                    }
                    let i = choose|i: int| 0 <= i < li.len() && li[i] != ri[i];
                    lemma_diff_leaves_nonempty(li[i], ri[i], index_path(path, i as nat));
                    lemma_concat_len_at_least(ss, i);
                }
            },
            _ => {},
        },
        _ => {},
    }
}

proof fn lemma_dedup_strs_members(s: Seq<JsonModel>, x: JsonModel)
    ensures
        dedup_strs(s).contains(x) ==> s.contains(x),
    decreases s.len(),
{
    if s.len() > 1 {
        lemma_dedup_strs_members(s.drop_last(), x);
        let t = dedup_strs(s.drop_last());
        if dedup_strs(s).contains(x) {
            if t.contains(x) {
                let k = choose|k: int| 0 <= k < s.drop_last().len() && s.drop_last()[k] == x;
                assert(s[k] == x);
            } else {
                let k = choose|k: int| 0 <= k < dedup_strs(s).len() && dedup_strs(s)[k] == x;
                if s.last() is Str && s.last() == s[s.len() - 2] {
                } else {
                    if k < t.len() {
                        assert(t.push(s.last())[k] == t[k]);
                    }
                    assert(s[s.len() - 1] == x);
                }
            }
        }
    }
}

/// Canonicalization keeps a value well formed.
pub proof fn lemma_normalize_well_formed(v: JsonModel, last: Seq<char>)
    requires
        well_formed(v),
    ensures
        well_formed(normalize(v, last)),
    decreases v,
{
    match v {
        JsonModel::Object(e) => {
            let n = normalize_entries(e);
            assert forall|i: int| 0 <= i < n.len() implies well_formed(#[trigger] n[i].1) by {
                lemma_normalize_well_formed(e[i].1, static_name(e[i].0));
            }
            assert(keys_ascending(n)) by {
                assert forall|i: int, j: int| 0 <= i < j < n.len() implies crate::text::lex_lt(
                    #[trigger] n[i].0,
                    #[trigger] n[j].0,
                ) by {
                    assert(n[i].0 == e[i].0 && n[j].0 == e[j].0);
                }
            }
        },
        JsonModel::Array(items) => {
            let ni = normalize_items(items, last);
            assert forall|i: int| 0 <= i < ni.len() implies well_formed(#[trigger] ni[i]) by {
                lemma_normalize_well_formed(items[i], last);
            }
            let out = array_rule(last, ni);
            assert forall|i: int| 0 <= i < out.len() implies well_formed(#[trigger] out[i]) by {
                let x = out[i];
                assert(out.contains(x));
                if last == "nodes"@ {
                    crate::sort::lemma_sort_members(ni, by_field("foreignId"@), x);
                } else if last == "interfaces"@ {
                    crate::sort::lemma_sort_members(ni, by_field("ip"@), x);
                } else if last == "parameters"@ {
                    crate::sort::lemma_sort_members(ni, by_field("key"@), x);
                } else if last == "categories"@ || last == "services"@ {
                    let sorted = sort_by(ni, by_text());
                    lemma_dedup_strs_members(sorted, x);
                    crate::sort::lemma_sort_members(ni, by_text(), x);
                }
                let k = choose|k: int| 0 <= k < ni.len() && ni[k] == x;
            }
        },
        _ => {},
    }
}

proof fn lemma_str_array_well_formed(s: Seq<Seq<char>>)
    ensures
        well_formed(str_array(s)),
{
    let items = s.map_values(|x: Seq<char>| JsonModel::Str(x));
    assert forall|i: int| 0 <= i < items.len() implies well_formed(#[trigger] items[i]) by {}
}

proof fn lemma_interface_json_well_formed(i: InterfaceModel)
    ensures
        well_formed(interface_json(i)),
{
    reveal_strlit("ip");
    reveal_strlit("services");
    reveal_strlit("snmpPrimary");
    reveal_with_fuel(crate::text::lex_lt, 3);
    lemma_str_array_well_formed(i.services);
    let e = seq![("ip"@, JsonModel::Str(i.ip))] + opt_entry(
        i.services.len() > 0,
        "services"@,
        str_array(i.services),
    ) + opt_entry(
        i.snmp_primary is Some,
        "snmpPrimary"@,
        snmp_primary_json(
            match i.snmp_primary {
                Some(p) => p,
                None => SnmpPrimary::N,
            },
        ),
    );
    assert(interface_json(i) == JsonModel::Object(e));
    assert(crate::text::lex_lt("ip"@, "services"@));
    assert(crate::text::lex_lt("ip"@, "snmpPrimary"@));
    assert(crate::text::lex_lt("services"@, "snmpPrimary"@));
    assert forall|a: int, b: int| 0 <= a < b < e.len() implies crate::text::lex_lt(#[trigger] e[a].0, #[trigger] e[b].0) by {
        assert(e[a].0 == "ip"@ || e[a].0 == "services"@);
        assert(e[b].0 == "services"@ || e[b].0 == "snmpPrimary"@);
        if a == 0 {
            assert(e[a].0 == "ip"@);
        } else {
            assert(e[a].0 == "services"@ && e[b].0 == "snmpPrimary"@);
        }
    }
    assert forall|a: int| 0 <= a < e.len() implies well_formed(#[trigger] e[a].1) by {}
}

/// The JSON of a node is well formed when its asset names ascend (as every
/// document's do).
pub proof fn lemma_node_json_well_formed(n: NodeModel)
    requires
        crate::provisioning::model::names_ascending(n.assets),
    ensures
        well_formed(node_json(n)),
{
    reveal_strlit("assets");
    reveal_strlit("categories");
    reveal_strlit("foreignId");
    reveal_strlit("interfaces");
    reveal_strlit("label");
    reveal_strlit("location");
    reveal_with_fuel(crate::text::lex_lt, 3);
    lemma_str_array_well_formed(n.categories);
    let ij = n.interfaces.map_values(|i: InterfaceModel| interface_json(i));
    assert forall|k: int| 0 <= k < ij.len() implies well_formed(#[trigger] ij[k]) by {
        lemma_interface_json_well_formed(n.interfaces[k]);
    }
    let aj = n.assets.map_values(|e: (Seq<char>, Seq<char>)| (e.0, JsonModel::Str(e.1)));
    assert(keys_ascending(aj)) by {
        assert forall|a: int, b: int| 0 <= a < b < aj.len() implies crate::text::lex_lt(#[trigger] aj[a].0, #[trigger] aj[b].0) by {
            assert(crate::text::lex_lt(n.assets[a].0, n.assets[b].0));
        }
    }
    assert forall|a: int| 0 <= a < aj.len() implies well_formed(#[trigger] aj[a].1) by {}
    assert(well_formed(assets_json(n.assets)));
    let lits = seq!["assets"@, "categories"@, "foreignId"@, "interfaces"@, "label"@, "location"@];
    assert forall|a: int, b: int| 0 <= a < b < 6 implies crate::text::lex_lt(#[trigger] lits[a], #[trigger] lits[b]) by {
        assert(crate::text::lex_lt("assets"@, "categories"@));
        assert(crate::text::lex_lt("assets"@, "foreignId"@));
        assert(crate::text::lex_lt("assets"@, "interfaces"@));
        assert(crate::text::lex_lt("assets"@, "label"@));
        assert(crate::text::lex_lt("assets"@, "location"@));
        assert(crate::text::lex_lt("categories"@, "foreignId"@));
        assert(crate::text::lex_lt("categories"@, "interfaces"@));
        assert(crate::text::lex_lt("categories"@, "label"@));
        assert(crate::text::lex_lt("categories"@, "location"@));
        assert(crate::text::lex_lt("foreignId"@, "interfaces"@));
        assert(crate::text::lex_lt("foreignId"@, "label"@));
        assert(crate::text::lex_lt("foreignId"@, "location"@));
        assert(crate::text::lex_lt("interfaces"@, "label"@));
        assert(crate::text::lex_lt("interfaces"@, "location"@));
        assert(crate::text::lex_lt("label"@, "location"@));
    }
    let loc = JsonModel::Str(
        match n.location {
            Some(l) => l,
            None => Seq::empty(),
        },
    );
    let e = opt_entry(n.assets.len() > 0, "assets"@, assets_json(n.assets)) + opt_entry(
        n.categories.len() > 0,
        "categories"@,
        str_array(n.categories),
    ) + seq![("foreignId"@, JsonModel::Str(n.foreign_id))] + opt_entry(
        n.interfaces.len() > 0,
        "interfaces"@,
        JsonModel::Array(ij),
    ) + seq![("label"@, JsonModel::Str(n.label))] + opt_entry(n.location is Some, "location"@, loc);
    assert(node_json(n) == JsonModel::Object(e));
    // The rank of each entry's key among the six keys grows with its position.
    let ra: int = if n.assets.len() > 0 { 1 } else { 0 };
    let rc: int = ra + if n.categories.len() > 0 { 1int } else { 0int };
    let ri: int = rc + 1 + if n.interfaces.len() > 0 { 1int } else { 0int };
    let rank = |a: int|
        {
            if a < ra {
                0int
            } else if a < rc {
                1int
            } else if a == rc {
                2int
            } else if a < ri {
                3int
            } else if a == ri {
                4int
            } else {
                5int
            }
        };
    assert forall|a: int| 0 <= a < e.len() implies #[trigger] e[a].0 == lits[rank(a)] by {}
    assert forall|a: int, b: int| 0 <= a < b < e.len() implies crate::text::lex_lt(#[trigger] e[a].0, #[trigger] e[b].0) by {
        assert(e[a].0 == lits[rank(a)]);
        assert(e[b].0 == lits[rank(b)]);
        assert(rank(a) < rank(b));
    }
    assert forall|a: int| 0 <= a < e.len() implies well_formed(#[trigger] e[a].1) by {}
}

/// Every node of a document's canonical node list is well formed (asset
/// names ascending, as every document's are).
pub proof fn lemma_canonical_nodes_well_formed(local: RequisitionLocalModel)
    requires
        forall|k: int| 0 <= k < local.spec.nodes.len() ==> crate::provisioning::model::names_ascending(
            (#[trigger] local.spec.nodes[k]).assets,
        ),
    ensures
        forall|i: int|
            0 <= i < nodes_of(spec_canonical_value(local)).len() ==> well_formed(
                #[trigger] nodes_of(spec_canonical_value(local))[i],
            ),
{
    reveal_strlit("apiVersion");
    reveal_strlit("kind");
    reveal_strlit("metadata");
    reveal_strlit("spec");
    reveal_strlit("foreignSource");
    reveal_strlit("nodes");
    let na = local.spec.nodes.map_values(|n: NodeModel| node_json(n));
    let ni = normalize_items(na, "nodes"@);
    assert forall|k: int| 0 <= k < ni.len() implies well_formed(#[trigger] ni[k]) by {
        lemma_node_json_well_formed(local.spec.nodes[k]);
        lemma_normalize_well_formed(na[k], "nodes"@);
    }
    let sorted = sort_by(ni, by_field("foreignId"@));
    assert forall|i: int| 0 <= i < sorted.len() implies well_formed(#[trigger] sorted[i]) by {
        crate::sort::lemma_sort_members(ni, by_field("foreignId"@), sorted[i]);
        assert(sorted.contains(sorted[i]));
    }
    let fs_default = ForeignSourceSpecModel {
        scan_interval: None,
        detectors: Seq::empty(),
        policies: Seq::empty(),
    };
    let fse = opt_entry(
        local.spec.foreign_source is Some,
        "foreignSource"@,
        foreign_source_json(
            match local.spec.foreign_source {
                Some(f) => f,
                None => fs_default,
            },
        ),
    );
    let sa = fse + seq![("nodes"@, JsonModel::Array(na))];
    let t = spec_to_json(local);
    match t {
        JsonModel::Object(ea) => {
            assert(ea[3] == ("spec"@, JsonModel::Object(sa)));
            assert(ea[0].0 != "spec"@ && ea[1].0 != "spec"@ && ea[2].0 != "spec"@) by {
                assert(ea[0].0[0] != "spec"@[0]);
                assert(ea[1].0[0] != "spec"@[0]);
                assert(ea[2].0[0] != "spec"@[0]);
            }
            crate::json::lemma_key_index(ea, "spec"@);
            lemma_normalize_entries_keys(ea, "spec"@);
            let ne = normalize_entries(ea);
            assert(ne[3].1 == normalize(ea[3].1, static_name(ea[3].0)));
            assert(static_name("spec"@) == "spec"@);
            assert(field(spec_canonical_value(local), "spec"@) == Some(ne[3].1));
            crate::json::lemma_key_index(sa, "nodes"@);
            if fse.len() > 0 {
                assert(sa[0].0[0] != "nodes"@[0]);
            }
            assert(sa[fse.len() as int].0 == "nodes"@);
            lemma_normalize_entries_keys(sa, "nodes"@);
            let ns = normalize_entries(sa);
            assert(ns[fse.len() as int].1 == normalize(JsonModel::Array(na), static_name("nodes"@)));
            assert(static_name("nodes"@) == "nodes"@);
            assert(ne[3].1 == JsonModel::Object(ns));
            assert(nodes_of(spec_canonical_value(local)) == sorted);
        },
        _ => {},
    }
}

/// Every node a diff reports as modified carries at least one leaf change
/// (for documents, whose asset names ascend).
pub proof fn lemma_modified_nodes_have_leaves(local: RequisitionLocalModel, remote: RequisitionLocalModel)
    requires
        forall|k: int| 0 <= k < local.spec.nodes.len() ==> crate::provisioning::model::names_ascending(
            (#[trigger] local.spec.nodes[k]).assets,
        ),
        forall|k: int| 0 <= k < remote.spec.nodes.len() ==> crate::provisioning::model::names_ascending(
            (#[trigger] remote.spec.nodes[k]).assets,
        ),
    ensures
        forall|i: int|
            0 <= i < spec_diff(local, remote).nodes_modified.len() ==> (
            #[trigger] spec_diff(local, remote).nodes_modified[i]).leaves.len() > 0,
{
    let l = nodes_of(spec_canonical_value(local));
    let r = nodes_of(spec_canonical_value(remote));
    lemma_canonical_nodes_well_formed(local);
    lemma_canonical_nodes_well_formed(remote);
    lemma_modified_nonempty(fid_list(l), l, r);
    assert(spec_diff(local, remote).nodes_modified == modified_over(fid_list(l), l, r));
}

proof fn lemma_last_with_member(nodes: Seq<JsonModel>, f: Seq<char>)
    ensures
        last_with(nodes, f) matches Some(n) ==> nodes.contains(n),
    decreases nodes.len(),
{
    if nodes.len() > 0 {
        lemma_last_with_member(nodes.drop_last(), f);
        if fid_of(nodes.last()) == f {
            assert(nodes[nodes.len() - 1] == nodes.last());
        } else {
            match last_with(nodes.drop_last(), f) {
                Some(n) => {
                    let k = choose|k: int| 0 <= k < nodes.drop_last().len() && nodes.drop_last()[k] == n;
                    assert(nodes[k] == n);
                },
                None => {},
            }
        }
    }
}

proof fn lemma_modified_nonempty(fs: Seq<Seq<char>>, l: Seq<JsonModel>, r: Seq<JsonModel>)
    requires
        forall|i: int| 0 <= i < l.len() ==> well_formed(#[trigger] l[i]),
        forall|i: int| 0 <= i < r.len() ==> well_formed(#[trigger] r[i]),
    ensures
        forall|i: int| 0 <= i < modified_over(fs, l, r).len() ==> (#[trigger] modified_over(fs, l, r)[i]).leaves.len()
            > 0,
    decreases fs.len(),
{
    if fs.len() > 0 {
        lemma_modified_nonempty(fs.drop_last(), l, r);
        let prev = modified_over(fs.drop_last(), l, r);
        let cur = modified_over(fs, l, r);
        let g = fs.last();
        match modified_entry(l, r, g) {
            Some(x) => {
                match (last_with(l, g), last_with(r, g)) {
                    (Some(a), Some(b)) => {
                        lemma_last_with_member(l, g);
                        lemma_last_with_member(r, g);
                        let p = choose|p: int| 0 <= p < l.len() && l[p] == a;
                        let q = choose|q: int| 0 <= q < r.len() && r[q] == b;
                        lemma_diff_leaves_nonempty(a, b, "spec.nodes[*]"@);
                    },
                    _ => {},
                }
                assert forall|i: int| 0 <= i < cur.len() implies (#[trigger] cur[i]).leaves.len() > 0 by {
                    if i < prev.len() {
                        assert(cur[i] == prev[i]);
                    }
                }
            },
            None => {},
        }
    }
}

proof fn lemma_parameters_json_well_formed(s: Seq<ParameterModel>)
    ensures
        well_formed(parameters_json(s)),
{
    reveal_strlit("key");
    reveal_strlit("value");
    let items = s.map_values(|p: ParameterModel| parameter_json(p));
    assert forall|k: int| 0 <= k < items.len() implies well_formed(#[trigger] items[k]) by {
        let e = seq![("key"@, JsonModel::Str(s[k].key)), ("value"@, JsonModel::Str(s[k].value))];
        assert(items[k] == JsonModel::Object(e));
        assert("key"@[0] != "value"@[0]);
        assert forall|a: int, b: int| 0 <= a < b < e.len() implies crate::text::lex_lt(#[trigger] e[a].0, #[trigger] e[b].0) by {}
        assert forall|a: int| 0 <= a < e.len() implies well_formed(#[trigger] e[a].1) by {}
    }
}

/// The JSON of a foreign source is well formed.
pub proof fn lemma_foreign_source_json_well_formed(f: ForeignSourceSpecModel)
    ensures
        well_formed(foreign_source_json(f)),
{
    reveal_strlit("class");
    reveal_strlit("name");
    reveal_strlit("parameters");
    reveal_strlit("detectors");
    reveal_strlit("policies");
    reveal_strlit("scanInterval");
    let da = f.detectors.map_values(|x: DetectorModel| detector_json(x));
    let pa = f.policies.map_values(|x: PolicyModel| policy_json(x));
    assert forall|k: int| 0 <= k < da.len() implies well_formed(#[trigger] da[k]) by {
        let x = f.detectors[k];
        lemma_parameters_json_well_formed(x.parameters);
        let c0 = opt_entry(
            x.class is Some,
            "class"@,
            JsonModel::Str(
                match x.class {
                    Some(c) => c,
                    None => Seq::empty(),
                },
            ),
        );
        let e = c0 + seq![("name"@, JsonModel::Str(x.name))] + opt_entry(
            x.parameters.len() > 0,
            "parameters"@,
            parameters_json(x.parameters),
        );
        assert(da[k] == JsonModel::Object(e));
        assert forall|a: int, b: int| 0 <= a < b < e.len() implies crate::text::lex_lt(#[trigger] e[a].0, #[trigger] e[b].0) by {
            assert(e[a].0 == "class"@ || e[a].0 == "name"@);
            assert(e[b].0 == "name"@ || e[b].0 == "parameters"@);
            if e[a].0 == "name"@ {
                assert(e[b].0 == "parameters"@);
            }
        }
        assert forall|a: int| 0 <= a < e.len() implies well_formed(#[trigger] e[a].1) by {}
    }
    assert forall|k: int| 0 <= k < pa.len() implies well_formed(#[trigger] pa[k]) by {
        let x = f.policies[k];
        lemma_parameters_json_well_formed(x.parameters);
        let e = seq![("class"@, JsonModel::Str(x.class)), ("name"@, JsonModel::Str(x.name))] + opt_entry(
            x.parameters.len() > 0,
            "parameters"@,
            parameters_json(x.parameters),
        );
        assert(pa[k] == JsonModel::Object(e));
        assert forall|a: int, b: int| 0 <= a < b < e.len() implies crate::text::lex_lt(#[trigger] e[a].0, #[trigger] e[b].0) by {
            assert(e[a].0 == "class"@ || e[a].0 == "name"@);
            assert(e[b].0 == "name"@ || e[b].0 == "parameters"@);
            if e[a].0 == "name"@ {
                assert(e[b].0 == "parameters"@);
            }
        }
        assert forall|a: int| 0 <= a < e.len() implies well_formed(#[trigger] e[a].1) by {}
    }
    let si = opt_entry(
        f.scan_interval is Some,
        "scanInterval"@,
        JsonModel::Str(
            match f.scan_interval {
                Some(s) => s,
                None => Seq::empty(),
            },
        ),
    );
    let e = opt_entry(f.detectors.len() > 0, "detectors"@, JsonModel::Array(da)) + opt_entry(
        f.policies.len() > 0,
        "policies"@,
        JsonModel::Array(pa),
    ) + si;
    assert(foreign_source_json(f) == JsonModel::Object(e));
    assert forall|a: int, b: int| 0 <= a < b < e.len() implies crate::text::lex_lt(#[trigger] e[a].0, #[trigger] e[b].0) by {
        assert(e[a].0 == "detectors"@ || e[a].0 == "policies"@);
        assert(e[b].0 == "policies"@ || e[b].0 == "scanInterval"@);
        if e[a].0 == "policies"@ {
            assert(e[b].0 == "scanInterval"@);
        }
    }
    assert forall|a: int| 0 <= a < e.len() implies well_formed(#[trigger] e[a].1) by {}
}

proof fn lemma_fs_of_canonical(a: RequisitionLocalModel)
    requires
        a.spec.foreign_source is Some,
    ensures
        fs_of(spec_canonical_value(a)) == normalize(foreign_source_json(a.spec.foreign_source.unwrap()), "foreignSource"@),
        fs_of(spec_canonical_value(a)) == JsonModel::Object(fs_entries_of(spec_canonical_value(a))),
{
    reveal_strlit("apiVersion");
    reveal_strlit("kind");
    reveal_strlit("metadata");
    reveal_strlit("spec");
    reveal_strlit("foreignSource");
    reveal_strlit("nodes");
    let f = a.spec.foreign_source.unwrap();
    let na = JsonModel::Array(a.spec.nodes.map_values(|n: NodeModel| node_json(n)));
    let sa = seq![("foreignSource"@, foreign_source_json(f))] + seq![("nodes"@, na)];
    let t = spec_to_json(a);
    match t {
        JsonModel::Object(ea) => {
            assert(ea[3] == ("spec"@, JsonModel::Object(sa)));
            assert(ea[0].0 != "spec"@ && ea[1].0 != "spec"@ && ea[2].0 != "spec"@) by {
                assert(ea[0].0[0] != "spec"@[0]);
                assert(ea[1].0[0] != "spec"@[0]);
                assert(ea[2].0[0] != "spec"@[0]);
            }
            crate::json::lemma_key_index(ea, "spec"@);
            lemma_normalize_entries_keys(ea, "spec"@);
            let ne = normalize_entries(ea);
            assert(ne[3].1 == normalize(ea[3].1, static_name(ea[3].0)));
            assert(static_name("spec"@) == "spec"@);
            assert(static_name("foreignSource"@) == "foreignSource"@);
            crate::json::lemma_key_index(sa, "foreignSource"@);
            lemma_normalize_entries_keys(sa, "foreignSource"@);
            let ns = normalize_entries(sa);
            assert(ns[0].1 == normalize(foreign_source_json(f), "foreignSource"@));
            assert(ne[3].1 == JsonModel::Object(ns));
        },
        _ => {},
    }
}

/// Swapping two detectors whose canonical forms differ is reported by the
/// diff as a change of the foreign source (so apply plans an update): the
/// order of detectors matters.
pub proof fn lemma_detector_swap_reported(a: RequisitionLocalModel, b: RequisitionLocalModel, i: int, j: int)
    requires
        a.spec.foreign_source matches Some(fa) && b.spec.foreign_source matches Some(fb) && 0 <= i < fa.detectors.len()
            && 0 <= j < fa.detectors.len() && fb.detectors == fa.detectors.update(i, fa.detectors[j]).update(
            j,
            fa.detectors[i],
        ) && normalize(detector_json(fa.detectors[i]), "detectors"@) != normalize(
            detector_json(fa.detectors[j]),
            "detectors"@,
        ),
    ensures
        spec_diff(a, b).foreign_source_changes.len() > 0,
{
    let fa = a.spec.foreign_source.unwrap();
    let fb = b.spec.foreign_source.unwrap();
    lemma_fs_of_canonical(a);
    lemma_fs_of_canonical(b);
    lemma_canonical_fs_items(a);
    lemma_canonical_fs_items(b);
    let va = spec_canonical_value(a);
    let vb = spec_canonical_value(b);
    let da = fa.detectors.map_values(|x: DetectorModel| detector_json(x));
    let db = fb.detectors.map_values(|x: DetectorModel| detector_json(x));
    if fs_of(va) == fs_of(vb) {
        assert(fs_entries_of(va) == fs_entries_of(vb));
        assert(normalize_items(da, "detectors"@) == normalize_items(db, "detectors"@));
        assert(normalize_items(da, "detectors"@)[i] == normalize(detector_json(fa.detectors[i]), "detectors"@));
        assert(fb.detectors[i] == fa.detectors[j]);
        assert(normalize_items(db, "detectors"@)[i] == normalize(detector_json(fa.detectors[j]), "detectors"@));
    }
    lemma_foreign_source_json_well_formed(fa);
    lemma_foreign_source_json_well_formed(fb);
    lemma_normalize_well_formed(foreign_source_json(fa), "foreignSource"@);
    lemma_normalize_well_formed(foreign_source_json(fb), "foreignSource"@);
    lemma_diff_leaves_nonempty(fs_of(va), fs_of(vb), "spec.foreignSource"@);
}

/// Swapping two policies whose canonical forms differ is reported by the
/// diff as a change of the foreign source: the order of policies matters.
pub proof fn lemma_policy_swap_reported(a: RequisitionLocalModel, b: RequisitionLocalModel, i: int, j: int)
    requires
        a.spec.foreign_source matches Some(fa) && b.spec.foreign_source matches Some(fb) && 0 <= i < fa.policies.len()
            && 0 <= j < fa.policies.len() && fb.detectors == fa.detectors && fb.policies
            == fa.policies.update(i, fa.policies[j]).update(j, fa.policies[i]) && normalize(
            policy_json(fa.policies[i]),
            "policies"@,
        ) != normalize(policy_json(fa.policies[j]), "policies"@),
    ensures
        spec_diff(a, b).foreign_source_changes.len() > 0,
{
    let fa = a.spec.foreign_source.unwrap();
    let fb = b.spec.foreign_source.unwrap();
    lemma_fs_of_canonical(a);
    lemma_fs_of_canonical(b);
    lemma_canonical_fs_items(a);
    lemma_canonical_fs_items(b);
    let va = spec_canonical_value(a);
    let vb = spec_canonical_value(b);
    let pa = fa.policies.map_values(|x: PolicyModel| policy_json(x));
    let pb = fb.policies.map_values(|x: PolicyModel| policy_json(x));
    if fs_of(va) == fs_of(vb) {
        assert(fs_entries_of(va) == fs_entries_of(vb));
        assert(normalize_items(pa, "policies"@) == normalize_items(pb, "policies"@));
        assert(normalize_items(pa, "policies"@)[i] == normalize(policy_json(fa.policies[i]), "policies"@));
        assert(fb.policies[i] == fa.policies[j]);
        assert(normalize_items(pb, "policies"@)[i] == normalize(policy_json(fa.policies[j]), "policies"@));
    }
    lemma_foreign_source_json_well_formed(fa);
    lemma_foreign_source_json_well_formed(fb);
    lemma_normalize_well_formed(foreign_source_json(fa), "foreignSource"@);
    lemma_normalize_well_formed(foreign_source_json(fb), "foreignSource"@);
    lemma_diff_leaves_nonempty(fs_of(va), fs_of(vb), "spec.foreignSource"@);
}
/// Normalizing never lengthens a path: `[digits]` becomes `[*]`, every
/// other byte one character.
proof fn lemma_norm_from_len(b: Seq<u8>, i: int)
    requires
        0 <= i <= b.len(),
    ensures
        norm_from(b, i).len() <= b.len() - i,
    decreases b.len() - i,
{
    if i < b.len() {
        lemma_digit_end_bounds(b, i + 1);
        let e = digit_end(b, i + 1);
        if b[i] == 91 && e > i + 1 && e < b.len() && b[e] == 93 {
            lemma_norm_from_len(b, e + 1);
        } else {
            lemma_norm_from_len(b, i + 1);
        }
    }
}

/// The paths of a list of leaf changes, one per change, in order.
proof fn lemma_leaf_paths_index(s: Seq<LeafChangeModel>)
    ensures
        leaf_paths(s).len() == s.len(),
        forall|k: int| 0 <= k < s.len() ==> leaf_paths(s)[k] == (#[trigger] s[k]).path,
    decreases s.len(),
{
    if s.len() > 0 {
        lemma_leaf_paths_index(s.drop_last());
        assert forall|k: int| 0 <= k < s.len() implies leaf_paths(s)[k] == (#[trigger] s[k]).path by {
            if k < s.len() - 1 {
                assert(s[k] == s.drop_last()[k]);
            }
        }
    }
}

proof fn lemma_node_marks_index(n: nat)
    ensures
        node_marks(n).len() == n,
        forall|k: int| 0 <= k < n ==> #[trigger] node_marks(n)[k] == "spec.nodes[*]"@,
    decreases n,
{
    if n > 0 {
        lemma_node_marks_index((n - 1) as nat);
    }
}

/// A list of paths holding a scan-relevant one has a scan-relevant path.
proof fn lemma_scan_relevant_nonempty(paths: Seq<Seq<char>>, k: int)
    requires
        0 <= k < paths.len(),
        spec_classify(paths[k]) == ScanRelevance::Relevant,
    ensures
        spec_scan_relevant(paths).len() > 0,
    decreases paths.len(),
{
    if k < paths.len() - 1 {
        assert(paths.drop_last()[k] == paths[k]);
        lemma_scan_relevant_nonempty(paths.drop_last(), k);
        if spec_classify(paths.last()) == ScanRelevance::Relevant {
        }
    }
}

/// The path an added or removed node stands for, `spec.nodes[*]`, is
/// scan-relevant: it lies below none of the metadata-only paths.
pub proof fn lemma_node_mark_relevant()
    ensures
        spec_classify("spec.nodes[*]"@) == ScanRelevance::Relevant,
{
    let p = "spec.nodes[*]"@;
    reveal_strlit("spec.nodes[*]");
    reveal_strlit("spec.nodes[*].label");
    reveal_strlit("spec.nodes[*].categories");
    reveal_strlit("spec.nodes[*].assets");
    reveal_strlit("spec.foreignSource.scanInterval");
    assert(vstd::utf8::is_ascii_chars(p));
    vstd::utf8::is_ascii_chars_encode_utf8(p);
    let b = vstd::utf8::encode_utf8(p);
    lemma_norm_from_len(b, 0);
    let s = spec_normalize_indices(p);
    assert(s.len() <= 13);
    assert forall|i: int| 0 <= i < 4 implies !at_or_below(s, #[trigger] irrelevant_prefixes()[i]) by {
        let q = irrelevant_prefixes()[i];
        assert(q.len() > 13);
        assert(s != q);
        assert((q + seq!['.']).len() > s.len());
        assert((q + seq!['[']).len() > s.len());
    }
}

/// The paths of a delta are its foreign-source change paths, in order;
/// then one `spec.nodes[*]` for every added and every removed node; then
/// the leaf paths of the modified nodes. So a delta that adds or removes a
/// node always has a scan-relevant path, and an automatic rescan decision
/// rescans existing nodes.
pub proof fn lemma_paths_count_node_changes(d: RequisitionDeltaModel)
    ensures
        spec_paths(d).len() == d.foreign_source_changes.len() + d.nodes_added.len()
            + d.nodes_removed.len() + modified_paths(d.nodes_modified).len(),
        forall|k: int| 0 <= k < d.foreign_source_changes.len() ==> spec_paths(d)[k]
            == (#[trigger] d.foreign_source_changes[k]).path,
        forall|k: int| 0 <= k < d.nodes_added.len() + d.nodes_removed.len() ==> #[trigger] spec_paths(
            d,
        )[d.foreign_source_changes.len() + k] == "spec.nodes[*]"@,
        d.nodes_added.len() + d.nodes_removed.len() > 0 ==> spec_scan_relevant(spec_paths(d)).len() > 0,
{
    let f = d.foreign_source_changes;
    let n = d.nodes_added.len() + d.nodes_removed.len();
    lemma_leaf_paths_index(f);
    lemma_node_marks_index(n);
    let ps = spec_paths(d);
    assert(ps == leaf_paths(f) + node_marks(n) + modified_paths(d.nodes_modified));
    assert forall|k: int| 0 <= k < n implies #[trigger] ps[f.len() + k] == "spec.nodes[*]"@ by {
        assert(node_marks(n)[k] == "spec.nodes[*]"@);
    }
    assert forall|k: int| 0 <= k < f.len() implies ps[k] == (#[trigger] f[k]).path by {
        assert(leaf_paths(f)[k] == f[k].path);
    }
    if n > 0 {
        assert(ps[f.len() + 0int] == "spec.nodes[*]"@);
        lemma_node_mark_relevant();
        lemma_scan_relevant_nonempty(ps, f.len() as int);
    }
}

} // verus!
