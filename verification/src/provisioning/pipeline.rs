//! Conversion of a parsed requisition export (requisition XML plus an
//! optional foreign-source XML) into a local `kind: Requisition` document,
//! with the findings raised on the way.
//!
//! Content of the XML that the document has no place for (node location
//! and city, interface status and description, `<meta-data>` elements and
//! any attribute or element outside the catalog) raises a PR001 finding
//! and is kept in a nested annotation on the document's metadata.

use vstd::prelude::*;
use crate::json::{
    duplicate_entries, entries_model, find_key, lemma_array_model, lemma_key_index,
    lemma_object_model, key_index, JsonModel, Value,
};
use crate::provisioning::convert::{parse_snmp_primary, snmp_primary_of};
use crate::provisioning::finding::{
    new_finding, spec_default_severity, Finding, FindingCode, FindingModel, Severity,
};
use crate::provisioning::model::{
    asset_insert, ApiVersion, Assets, Detector, DetectorModel, ForeignSourceSpec,
    ForeignSourceSpecModel, Interface, InterfaceModel, Kind, Metadata, MetadataModel, Node,
    NodeModel, Parameter, ParameterModel, Policy, PolicyModel, RequisitionLocal,
    RequisitionLocalModel, Spec, SpecModel,
};
use crate::provisioning::xml::{
    AssetXmlModel, CategoryXmlModel, DetectorXml, DetectorXmlModel, ForeignSourceXml,
    ForeignSourceXmlModel, InterfaceXml, InterfaceXmlModel, MetaDataXml, MetaDataXmlModel,
    MonitoredServiceXml, MonitoredServiceXmlModel, NodeXml, NodeXmlModel, ParameterXml,
    ParameterXmlModel, PolicyXml, PolicyXmlModel, RequisitionXml, RequisitionXmlModel,
};
use crate::text::{append_str, chars_of, dec, fmt_usize, own, push_char};

verus! {

// ---------------------------------------------------------------------------
// Result of one conversion
// ---------------------------------------------------------------------------

/// The outcome of converting one requisition: its name, the emitted YAML
/// (absent when nothing was emitted) and the findings in the order they
/// were raised.
#[derive(Clone, Debug)]
pub struct ConversionResult {
    pub foreign_source: String,
    pub yaml: Option<String>,
    pub findings: Vec<Finding>,
}

/// Whether some finding has severity `s`.
pub open spec fn has_severity(f: Seq<Finding>, s: Severity) -> bool {
    exists|i: int| 0 <= i < f.len() && #[trigger] f[i].severity == s
}

/// The exit code of a conversion: 2 with an error, else 1 with a warning,
/// else 0.
pub open spec fn spec_exit_code(f: Seq<Finding>) -> i32 {
    if has_severity(f, Severity::Error) {
        2
    } else if has_severity(f, Severity::Warning) {
        1
    } else {
        0
    }
}

fn any_severity(f: &Vec<Finding>, s: Severity) -> (b: bool)
    ensures
        b == has_severity(f@, s),
{
    let mut i: usize = 0;
    while i < f.len()
        invariant
            i <= f.len(),
            forall|j: int| 0 <= j < i ==> f@[j].severity != s,
        decreases f.len() - i,
    {
        if f[i].severity == s {
            return true;
        }
        i = i + 1;
    }
    false
}

impl ConversionResult {
    /// The process exit code: 2 when a finding is an error (no YAML),
    /// 1 when one is a warning, 0 when there are none or only
    /// informational ones.
    pub fn exit_code(&self) -> (c: i32)
        ensures
            c == spec_exit_code(self.findings@),
    {
        if any_severity(&self.findings, Severity::Error) {
            2
        } else if any_severity(&self.findings, Severity::Warning) {
            1
        } else {
            0
        }
    }
}

// ---------------------------------------------------------------------------
// XML → local model
// ---------------------------------------------------------------------------

pub open spec fn spec_convert_parameter(p: ParameterXmlModel) -> ParameterModel {
    ParameterModel { key: p.key, value: p.value }
}

pub open spec fn convert_parameters(s: Seq<ParameterXmlModel>) -> Seq<ParameterModel> {
    s.map_values(|p: ParameterXmlModel| spec_convert_parameter(p))
}

pub open spec fn spec_convert_detector(d: DetectorXmlModel) -> DetectorModel {
    DetectorModel { name: d.name, class: Some(d.class), parameters: convert_parameters(d.parameter) }
}

pub open spec fn spec_convert_policy(p: PolicyXmlModel) -> PolicyModel {
    PolicyModel { name: p.name, class: p.class, parameters: convert_parameters(p.parameter) }
}

/// The foreign-source block of the document for a foreign-source XML.
pub open spec fn spec_convert_fs(f: ForeignSourceXmlModel) -> ForeignSourceSpecModel {
    ForeignSourceSpecModel {
        scan_interval: f.scan_interval,
        detectors: f.detectors.detector.map_values(|d: DetectorXmlModel| spec_convert_detector(d)),
        policies: f.policies.policy.map_values(|p: PolicyXmlModel| spec_convert_policy(p)),
    }
}

/// The SNMP role an XML interface declares: none when the attribute is
/// absent or not one of `P`, `S`, `N`.
pub open spec fn xml_snmp_primary(t: Option<Seq<char>>) -> Option<crate::provisioning::model::SnmpPrimary> {
    match t {
        Some(v) => snmp_primary_of(v),
        None => None,
    }
}

pub open spec fn spec_convert_interface(i: InterfaceXmlModel) -> InterfaceModel {
    InterfaceModel {
        ip: i.ip_addr,
        services: i.monitored_services.map_values(|s: MonitoredServiceXmlModel| s.service_name),
        snmp_primary: xml_snmp_primary(i.snmp_primary),
    }
}

/// The asset map built from XML records in order (a later record of the
/// same name replaces an earlier one).
pub open spec fn assets_from_xml(s: Seq<AssetXmlModel>) -> Seq<(Seq<char>, Seq<char>)>
    decreases s.len(),
{
    if s.len() == 0 {
        Seq::empty()
    } else {
        asset_insert(assets_from_xml(s.drop_last()), s.last().name, s.last().value)
    }
}

/// The document node for an XML node. Its location is not carried over
/// (it is kept in the annotation instead).
pub open spec fn spec_convert_node(n: NodeXmlModel) -> NodeModel {
    NodeModel {
        foreign_id: n.foreign_id,
        label: n.node_label,
        location: None,
        interfaces: n.interfaces.map_values(|i: InterfaceXmlModel| spec_convert_interface(i)),
        categories: n.categories.map_values(|c: CategoryXmlModel| c.name),
        assets: assets_from_xml(n.assets),
    }
}

/// The document built from a requisition XML, an optional foreign-source
/// XML and the annotation of unmodeled content (left out when empty).
pub open spec fn spec_build_local(
    req: RequisitionXmlModel,
    fs: Option<ForeignSourceXmlModel>,
    unmodeled: Seq<(Seq<char>, JsonModel)>,
) -> RequisitionLocalModel {
    RequisitionLocalModel {
        api_version: ApiVersion,
        kind: Kind,
        metadata: MetadataModel {
            name: req.foreign_source,
            unmodeled: if unmodeled.len() == 0 {
                None
            } else {
                Some(unmodeled)
            },
        },
        spec: SpecModel {
            foreign_source: match fs {
                Some(f) => Some(spec_convert_fs(f)),
                None => None,
            },
            nodes: req.nodes.map_values(|n: NodeXmlModel| spec_convert_node(n)),
        },
    }
}

fn convert_parameter(p: &ParameterXml) -> (r: Parameter)
    ensures
        r@ == spec_convert_parameter(p@),
{
    Parameter { key: p.key.clone(), value: p.value.clone() }
}

fn convert_parameter_list(v: &Vec<ParameterXml>) -> (r: Vec<Parameter>)
    ensures
        r@.map_values(|x: Parameter| x@) == convert_parameters(v@.map_values(|x: ParameterXml| x@)),
{
    let mut r: Vec<Parameter> = Vec::new();
    let mut i: usize = 0;
    while i < v.len()
        invariant
            i <= v.len(),
            r.len() == i,
            forall|j: int| 0 <= j < i ==> #[trigger] r@[j]@ == spec_convert_parameter(v@[j]@),
        decreases v.len() - i,
    {
        r.push(convert_parameter(&v[i]));
        i = i + 1;
    }
    assert(r@.map_values(|x: Parameter| x@) =~= convert_parameters(
        v@.map_values(|x: ParameterXml| x@),
    ));
    r
}

fn convert_detector(d: &DetectorXml) -> (r: Detector)
    ensures
        r@ == spec_convert_detector(d@),
{
    Detector {
        name: d.name.clone(),
        class: Some(d.class.clone()),
        parameters: convert_parameter_list(&d.parameter),
    }
}

fn convert_policy(p: &PolicyXml) -> (r: Policy)
    ensures
        r@ == spec_convert_policy(p@),
{
    Policy {
        name: p.name.clone(),
        class: p.class.clone(),
        parameters: convert_parameter_list(&p.parameter),
    }
}

/// The foreign-source block for a foreign-source XML: its scan interval,
/// detectors (each with its class) and policies, in order.
pub fn convert_fs(f: &ForeignSourceXml) -> (r: ForeignSourceSpec)
    ensures
        r@ == spec_convert_fs(f@),
{
    let mut detectors: Vec<Detector> = Vec::new();
    let mut i: usize = 0;
    while i < f.detectors.detector.len()
        invariant
            i <= f.detectors.detector.len(),
            detectors.len() == i,
            forall|j: int|
                0 <= j < i ==> #[trigger] detectors@[j]@ == spec_convert_detector(
                    f.detectors.detector@[j]@,
                ),
        decreases f.detectors.detector.len() - i,
    {
        detectors.push(convert_detector(&f.detectors.detector[i]));
        i = i + 1;
    }
    let mut policies: Vec<Policy> = Vec::new();
    let mut i: usize = 0;
    while i < f.policies.policy.len()
        invariant
            i <= f.policies.policy.len(),
            policies.len() == i,
            forall|j: int|
                0 <= j < i ==> #[trigger] policies@[j]@ == spec_convert_policy(
                    f.policies.policy@[j]@,
                ),
        decreases f.policies.policy.len() - i,
    {
        policies.push(convert_policy(&f.policies.policy[i]));
        i = i + 1;
    }
    let r = ForeignSourceSpec {
        scan_interval: crate::text::clone_opt(&f.scan_interval),
        detectors,
        policies,
    };
    assert(r@.detectors =~= spec_convert_fs(f@).detectors);
    assert(r@.policies =~= spec_convert_fs(f@).policies);
    r
}

/// The document interface for an XML interface: its address, service
/// names in order, and its SNMP role when the attribute names one.
pub fn convert_interface(i: &InterfaceXml) -> (r: Interface)
    ensures
        r@ == spec_convert_interface(i@),
{
    let mut services: Vec<String> = Vec::new();
    let mut k: usize = 0;
    while k < i.monitored_services.len()
        invariant
            k <= i.monitored_services.len(),
            services.len() == k,
            forall|j: int|
                0 <= j < k ==> #[trigger] services@[j]@ == i.monitored_services@[j]@.service_name,
        decreases i.monitored_services.len() - k,
    {
        services.push(i.monitored_services[k].service_name.clone());
        k = k + 1;
    }
    let snmp_primary = match &i.snmp_primary {
        Some(t) => parse_snmp_primary(t.as_str()),
        None => None,
    };
    let r = Interface { ip: i.ip_addr.clone(), services, snmp_primary };
    assert(r@.services =~= spec_convert_interface(i@).services);
    r
}

/// The document node for an XML node: its id, label, interfaces,
/// category names, and assets (a later record of a name replacing an
/// earlier one); no location.
pub fn convert_node(n: &NodeXml) -> (r: Node)
    ensures
        r@ == spec_convert_node(n@),
{
    let mut assets = Assets::new();
    let mut k: usize = 0;
    while k < n.assets.len()
        invariant
            k <= n.assets.len(),
            assets@ == assets_from_xml(n@.assets.take(k as int)),
        decreases n.assets.len() - k,
    {
        assets.insert(n.assets[k].name.clone(), n.assets[k].value.clone());
        assert(n@.assets.take(k + 1).drop_last() == n@.assets.take(k as int));
        k = k + 1;
    }
    assert(n@.assets.take(n.assets.len() as int) == n@.assets);
    let mut interfaces: Vec<Interface> = Vec::new();
    let mut k: usize = 0;
    while k < n.interfaces.len()
        invariant
            k <= n.interfaces.len(),
            interfaces.len() == k,
            forall|j: int|
                0 <= j < k ==> #[trigger] interfaces@[j]@ == spec_convert_interface(
                    n.interfaces@[j]@,
                ),
        decreases n.interfaces.len() - k,
    {
        interfaces.push(convert_interface(&n.interfaces[k]));
        k = k + 1;
    }
    let mut categories: Vec<String> = Vec::new();
    let mut k: usize = 0;
    while k < n.categories.len()
        invariant
            k <= n.categories.len(),
            categories.len() == k,
            forall|j: int| 0 <= j < k ==> #[trigger] categories@[j]@ == n.categories@[j]@.name,
        decreases n.categories.len() - k,
    {
        categories.push(n.categories[k].name.clone());
        k = k + 1;
    }
    let r = Node {
        foreign_id: n.foreign_id.clone(),
        label: n.node_label.clone(),
        location: None,
        interfaces,
        categories,
        assets,
    };
    assert(r@.interfaces =~= spec_convert_node(n@).interfaces);
    assert(r@.categories =~= spec_convert_node(n@).categories);
    r
}

/// The document for a requisition XML and an optional foreign-source XML,
/// carrying `unmodeled` as its annotation when that is not empty.
pub fn build_document(
    req: &RequisitionXml,
    fs: Option<&ForeignSourceXml>,
    unmodeled: Vec<(String, Value)>,
) -> (r: RequisitionLocal)
    ensures
        r@ == spec_build_local(
            req@,
            match fs {
                Some(f) => Some(f@),
                None => None,
            },
            entries_model(unmodeled@),
        ),
{
    let mut nodes: Vec<Node> = Vec::new();
    let mut k: usize = 0;
    while k < req.nodes.len()
        invariant
            k <= req.nodes.len(),
            nodes.len() == k,
            forall|j: int| 0 <= j < k ==> #[trigger] nodes@[j]@ == spec_convert_node(req.nodes@[j]@),
        decreases req.nodes.len() - k,
    {
        nodes.push(convert_node(&req.nodes[k]));
        k = k + 1;
    }
    let foreign_source = match fs {
        Some(f) => Some(convert_fs(f)),
        None => None,
    };
    let unmodeled = if unmodeled.len() == 0 {
        None
    } else {
        Some(unmodeled)
    };
    let r = RequisitionLocal {
        api_version: ApiVersion,
        kind: Kind,
        metadata: Metadata { name: req.foreign_source.clone(), unmodeled },
        spec: Spec { foreign_source, nodes },
    };
    assert(r@.spec.nodes =~= spec_build_local(
        req@,
        match fs {
            Some(f) => Some(f@),
            None => None,
        },
        Seq::empty(),
    ).spec.nodes);
    r
}


// ---------------------------------------------------------------------------
// The annotation of unmodeled content
// ---------------------------------------------------------------------------

/// Findings raised so far, with the annotation entries of one level.
pub struct Scan {
    pub findings: Seq<FindingModel>,
    pub entries: Seq<(Seq<char>, JsonModel)>,
}

/// The models of a list of findings.
pub open spec fn findings_model(s: Seq<Finding>) -> Seq<FindingModel> {
    Seq::new(s.len(), |i: int| s[i]@)
}

/// The model of an optional file name.
pub open spec fn src_model(src: Option<&String>) -> Option<Seq<char>> {
    match src {
        Some(p) => Some(p@),
        None => None,
    }
}

/// A new finding of `code`, raised for file `src` when there is one.
pub open spec fn raised(code: FindingCode, message: Seq<char>, src: Option<Seq<char>>) -> FindingModel {
    match src {
        Some(p) => FindingModel { source_path: Some(p), ..new_finding(code, message) },
        None => new_finding(code, message),
    }
}

/// Entries after setting `k` to `v` (as an insertion-ordered map does):
/// the first entry of that key gets the new value in place, otherwise the
/// entry is appended.
pub open spec fn map_put(e: Seq<(Seq<char>, JsonModel)>, k: Seq<char>, v: JsonModel) -> Seq<
    (Seq<char>, JsonModel),
> {
    let i = key_index(e, k);
    if i < e.len() {
        e.update(i, (k, v))
    } else {
        e.push((k, v))
    }
}

/// A key without its leading `@` (XML attributes are read with one).
pub open spec fn strip_at_spec(k: Seq<char>) -> Seq<char> {
    if k.len() > 0 && k[0] == '@' {
        k.drop_first()
    } else {
        k
    }
}

/// One entry outside the catalog, recorded under its stripped key: a
/// key already present keeps its value and the entry is reported as
/// shadowed; otherwise it is reported and added.
pub open spec fn extra_step(
    st: Scan,
    e: (Seq<char>, JsonModel),
    scope: Seq<char>,
    src: Option<Seq<char>>,
) -> Scan {
    let k = strip_at_spec(e.0);
    if key_index(st.entries, k) < st.entries.len() {
        Scan {
            findings: st.findings.push(
                raised(
                    FindingCode::Pr001,
                    scope + ": '"@ + e.0 + "' collides with catalog key '"@ + k
                        + "' (child shadowed, value not preserved in annotation)"@,
                    src,
                ),
            ),
            entries: st.entries,
        }
    } else {
        Scan {
            findings: st.findings.push(
                raised(
                    FindingCode::Pr001,
                    scope + ": '"@ + k + "' is not modeled in YAML (preserved as annotation)"@,
                    src,
                ),
            ),
            entries: map_put(st.entries, k, e.1),
        }
    }
}

/// Every entry outside the catalog recorded in order.
pub open spec fn extras_fold(
    ex: Seq<(Seq<char>, JsonModel)>,
    scope: Seq<char>,
    src: Option<Seq<char>>,
    st: Scan,
) -> Scan
    decreases ex.len(),
{
    if ex.len() == 0 {
        st
    } else {
        extra_step(extras_fold(ex.drop_last(), scope, src, st), ex.last(), scope, src)
    }
}

/// A `<meta-data>` element as an annotation value.
pub open spec fn md_entry(m: MetaDataXmlModel) -> JsonModel {
    JsonModel::Object(
        seq![
            ("context"@, JsonModel::Str(m.context)),
            ("key"@, JsonModel::Str(m.key)),
            ("value"@, JsonModel::Str(m.value)),
        ],
    )
}

/// A list of `<meta-data>` elements as an annotation value.
pub open spec fn md_value(s: Seq<MetaDataXmlModel>) -> JsonModel {
    JsonModel::Array(s.map_values(|m: MetaDataXmlModel| md_entry(m)))
}

pub open spec fn node_scope(fid: Seq<char>) -> Seq<char> {
    "node '"@ + fid + "'"@
}

pub open spec fn iface_scope(fid: Seq<char>, ip: Seq<char>) -> Seq<char> {
    node_scope(fid) + " interface "@ + ip
}

pub open spec fn svc_scope(fid: Seq<char>, ip: Seq<char>, name: Seq<char>) -> Seq<char> {
    iface_scope(fid, ip) + " service '"@ + name + "'"@
}

pub open spec fn md_note(n: nat) -> Seq<char> {
    ": <meta-data> elements not modeled ("@ + dec(n) + " preserved as annotation)"@
}

/// The unmodeled content of a service.
pub open spec fn svc_scan(
    fid: Seq<char>,
    ip: Seq<char>,
    s: MonitoredServiceXmlModel,
    src: Option<Seq<char>>,
    fs: Seq<FindingModel>,
) -> Scan {
    let scope = svc_scope(fid, ip, s.service_name);
    let st = if s.meta_data.len() > 0 {
        Scan {
            findings: fs.push(
                raised(FindingCode::Pr001, scope + md_note(s.meta_data.len()), src),
            ),
            entries: map_put(Seq::empty(), "meta-data"@, md_value(s.meta_data)),
        }
    } else {
        Scan { findings: fs, entries: Seq::empty() }
    };
    extras_fold(s.extras, scope, src, st)
}

/// The services of an interface with unmodeled content, keyed by name.
pub open spec fn svcs_fold(
    fid: Seq<char>,
    ip: Seq<char>,
    s: Seq<MonitoredServiceXmlModel>,
    src: Option<Seq<char>>,
    st: Scan,
) -> Scan
    decreases s.len(),
{
    if s.len() == 0 {
        st
    } else {
        let prev = svcs_fold(fid, ip, s.drop_last(), src, st);
        let r = svc_scan(fid, ip, s.last(), src, prev.findings);
        Scan {
            findings: r.findings,
            entries: if r.entries.len() > 0 {
                map_put(prev.entries, s.last().service_name, JsonModel::Object(r.entries))
            } else {
                prev.entries
            },
        }
    }
}

/// The findings after checking an interface's SNMP role: a value other
/// than `P`, `S`, `N` raises PR005 (the value is dropped, not kept).
pub open spec fn pr005_check(
    fid: Seq<char>,
    ip: Seq<char>,
    t: Option<Seq<char>>,
    src: Option<Seq<char>>,
    fs: Seq<FindingModel>,
) -> Seq<FindingModel> {
    match t {
        Some(v) => if snmp_primary_of(v) is None {
            fs.push(
                raised(
                    FindingCode::Pr005,
                    iface_scope(fid, ip) + ": snmp-primary='"@ + v + "' is not P/S/N (dropped)"@,
                    src,
                ),
            )
        } else {
            fs
        },
        None => fs,
    }
}

/// The catalog content of an interface that the document does not model:
/// status, description and `<meta-data>`, after the SNMP role check.
pub open spec fn iface_catalog(
    fid: Seq<char>,
    i: InterfaceXmlModel,
    src: Option<Seq<char>>,
    fs: Seq<FindingModel>,
) -> Scan {
    let scope = iface_scope(fid, i.ip_addr);
    let f0 = pr005_check(fid, i.ip_addr, i.snmp_primary, src, fs);
    let s1 = match i.status {
        Some(v) => Scan {
            findings: f0.push(
                raised(
                    FindingCode::Pr001,
                    scope + ": 'status' is not modeled in YAML (preserved as annotation)"@,
                    src,
                ),
            ),
            entries: map_put(Seq::empty(), "status"@, JsonModel::Str(v)),
        },
        None => Scan { findings: f0, entries: Seq::empty() },
    };
    let s2 = match i.descr {
        Some(v) => Scan {
            findings: s1.findings.push(
                raised(
                    FindingCode::Pr001,
                    scope + ": 'descr' is not modeled in YAML (preserved as annotation)"@,
                    src,
                ),
            ),
            entries: map_put(s1.entries, "descr"@, JsonModel::Str(v)),
        },
        None => s1,
    };
    let s3 = if i.meta_data.len() > 0 {
        Scan {
            findings: s2.findings.push(
                raised(FindingCode::Pr001, scope + md_note(i.meta_data.len()), src),
            ),
            entries: map_put(s2.entries, "meta-data"@, md_value(i.meta_data)),
        }
    } else {
        s2
    };
    s3
}

/// The unmodeled content of an interface.
pub open spec fn iface_scan(
    fid: Seq<char>,
    i: InterfaceXmlModel,
    src: Option<Seq<char>>,
    fs: Seq<FindingModel>,
) -> Scan {
    let scope = iface_scope(fid, i.ip_addr);
    let s4 = extras_fold(i.extras, scope, src, iface_catalog(fid, i, src, fs));
    let sv = svcs_fold(
        fid,
        i.ip_addr,
        i.monitored_services,
        src,
        Scan { findings: s4.findings, entries: Seq::empty() },
    );
    Scan {
        findings: sv.findings,
        entries: if sv.entries.len() > 0 {
            map_put(s4.entries, "services"@, JsonModel::Object(sv.entries))
        } else {
            s4.entries
        },
    }
}

/// The interfaces of a node with unmodeled content, keyed by address.
pub open spec fn ifaces_fold(
    fid: Seq<char>,
    s: Seq<InterfaceXmlModel>,
    src: Option<Seq<char>>,
    st: Scan,
) -> Scan
    decreases s.len(),
{
    if s.len() == 0 {
        st
    } else {
        let prev = ifaces_fold(fid, s.drop_last(), src, st);
        let r = iface_scan(fid, s.last(), src, prev.findings);
        Scan {
            findings: r.findings,
            entries: if r.entries.len() > 0 {
                map_put(prev.entries, s.last().ip_addr, JsonModel::Object(r.entries))
            } else {
                prev.entries
            },
        }
    }
}

/// The unmodeled content of a node.
pub open spec fn node_scan(n: NodeXmlModel, src: Option<Seq<char>>, fs: Seq<FindingModel>) -> Scan {
    let scope = node_scope(n.foreign_id);
    let s1 = match n.location {
        Some(v) => Scan {
            findings: fs.push(
                raised(
                    FindingCode::Pr001,
                    scope + ": 'location' is not modeled in YAML (preserved as annotation)"@,
                    src,
                ),
            ),
            entries: map_put(Seq::empty(), "location"@, JsonModel::Str(v)),
        },
        None => Scan { findings: fs, entries: Seq::empty() },
    };
    let s2 = match n.city {
        Some(v) => Scan {
            findings: s1.findings.push(
                raised(
                    FindingCode::Pr001,
                    scope
                        + ": 'city' is not modeled in YAML (preserved as annotation — use asset for round-trip)"@,
                    src,
                ),
            ),
            entries: map_put(s1.entries, "city"@, JsonModel::Str(v)),
        },
        None => s1,
    };
    let s3 = if n.meta_data.len() > 0 {
        Scan {
            findings: s2.findings.push(
                raised(
                    FindingCode::Pr001,
                    scope + ": <meta-data> elements are not modeled in YAML ("@ + dec(
                        n.meta_data.len(),
                    ) + " preserved as annotation)"@,
                    src,
                ),
            ),
            entries: map_put(s2.entries, "meta-data"@, md_value(n.meta_data)),
        }
    } else {
        s2
    };
    let s4 = extras_fold(n.extras, scope, src, s3);
    let ifs = ifaces_fold(
        n.foreign_id,
        n.interfaces,
        src,
        Scan { findings: s4.findings, entries: Seq::empty() },
    );
    Scan {
        findings: ifs.findings,
        entries: if ifs.entries.len() > 0 {
            map_put(s4.entries, "interfaces"@, JsonModel::Object(ifs.entries))
        } else {
            s4.entries
        },
    }
}

/// The nodes with unmodeled content, keyed by foreign id.
pub open spec fn nodes_fold(s: Seq<NodeXmlModel>, src: Option<Seq<char>>, st: Scan) -> Scan
    decreases s.len(),
{
    if s.len() == 0 {
        st
    } else {
        let prev = nodes_fold(s.drop_last(), src, st);
        let r = node_scan(s.last(), src, prev.findings);
        Scan {
            findings: r.findings,
            entries: if r.entries.len() > 0 {
                map_put(prev.entries, s.last().foreign_id, JsonModel::Object(r.entries))
            } else {
                prev.entries
            },
        }
    }
}

/// The whole scan of a requisition: the root's extra attributes and
/// elements, then the nodes under `nodes`.
pub open spec fn spec_flag_unmodeled(req: RequisitionXmlModel, src: Option<Seq<char>>, st: Scan) -> Scan {
    let r = extras_fold(req.extras, "model-import (root)"@, src, st);
    let ns = nodes_fold(req.nodes, src, Scan { findings: r.findings, entries: Seq::empty() });
    Scan {
        findings: ns.findings,
        entries: if ns.entries.len() > 0 {
            map_put(r.entries, "nodes"@, JsonModel::Object(ns.entries))
        } else {
            r.entries
        },
    }
}

/// Adds a finding of `code` with `message`, raised for `src`.
fn raise(findings: &mut Vec<Finding>, code: FindingCode, message: String, src: Option<&String>)
    ensures
        findings_model(final(findings)@) == findings_model(old(findings)@).push(
            raised(code, message@, src_model(src)),
        ),
{
    let f = Finding::new(code, message).opt_source(src);
    findings.push(f);
    assert(findings_model(findings@) =~= findings_model(old(findings)@).push(
        raised(code, message@, src_model(src)),
    ));
}

/// Sets `k` to `v` in an insertion-ordered map: an existing key keeps its
/// place and takes the new value, a new key is appended.
pub fn map_insert(e: &mut Vec<(String, Value)>, k: String, v: Value)
    ensures
        entries_model(final(e)@) == map_put(entries_model(old(e)@), k@, v@),
{
    let i = find_key(e, k.as_str());
    proof {
        lemma_key_index(entries_model(e@), k@);
    }
    if i < e.len() {
        e.set(i, (k, v));
        assert(entries_model(e@) =~= map_put(entries_model(old(e)@), k@, v@));
    } else {
        e.push((k, v));
        assert(entries_model(e@) =~= map_put(entries_model(old(e)@), k@, v@));
    }
}

/// `key` without its leading `@`, if it has one.
pub fn strip_at(key: &str) -> (r: String)
    ensures
        r@ == strip_at_spec(key@),
{
    let cs = chars_of(key);
    if cs.len() > 0 && cs[0] == '@' {
        let mut r = String::new();
        let mut i: usize = 1;
        while i < cs.len()
            invariant
                1 <= i <= cs.len(),
                cs@ == key@,
                r@ == cs@.subrange(1, i as int),
            decreases cs.len() - i,
        {
            push_char(&mut r, cs[i]);
            assert(cs@.subrange(1, i + 1) == cs@.subrange(1, i as int).push(cs@[i as int]));
            i = i + 1;
        }
        assert(cs@.subrange(1, cs.len() as int) == key@.drop_first());
        r
    } else {
        own(key)
    }
}

/// Records the entries of `extras` (attributes and elements outside the
/// catalog) into `target` under their stripped keys, raising PR001 for
/// each; an entry whose key `target` already holds is reported as
/// shadowed and not recorded.
pub fn record_extras(
    extras: &Vec<(String, Value)>,
    target: &mut Vec<(String, Value)>,
    findings: &mut Vec<Finding>,
    scope: &str,
    src: Option<&String>,
)
    ensures
        findings_model(final(findings)@) == extras_fold(
            entries_model(extras@),
            scope@,
            src_model(src),
            Scan { findings: findings_model(old(findings)@), entries: entries_model(old(target)@) },
        ).findings,
        entries_model(final(target)@) == extras_fold(
            entries_model(extras@),
            scope@,
            src_model(src),
            Scan { findings: findings_model(old(findings)@), entries: entries_model(old(target)@) },
        ).entries,
{
    let ghost ex = entries_model(extras@);
    let ghost st0 = Scan {
        findings: findings_model(findings@),
        entries: entries_model(target@),
    };
    let mut i: usize = 0;
    while i < extras.len()
        invariant
            i <= extras.len(),
            ex == entries_model(extras@),
            findings_model(findings@) == extras_fold(ex.take(i as int), scope@, src_model(src), st0).findings,
            entries_model(target@) == extras_fold(ex.take(i as int), scope@, src_model(src), st0).entries,
        decreases extras.len() - i,
    {
        let raw = &extras[i].0;
        let stripped = strip_at(raw.as_str());
        let j = find_key(target, stripped.as_str());
        proof {
            lemma_key_index(entries_model(target@), stripped@);
            assert(ex.take(i + 1).drop_last() == ex.take(i as int));
            assert(ex.take(i + 1).last() == ex[i as int]);
        }
        if j < target.len() {
            let mut m = own(scope);
            append_str(&mut m, ": '");
            append_str(&mut m, raw.as_str());
            append_str(&mut m, "' collides with catalog key '");
            append_str(&mut m, stripped.as_str());
            append_str(&mut m, "' (child shadowed, value not preserved in annotation)");
            raise(findings, FindingCode::Pr001, m, src);
        } else {
            let mut m = own(scope);
            append_str(&mut m, ": '");
            append_str(&mut m, stripped.as_str());
            append_str(&mut m, "' is not modeled in YAML (preserved as annotation)");
            raise(findings, FindingCode::Pr001, m, src);
            let v = extras[i].1.duplicate();
            map_insert(target, stripped, v);
        }
        i = i + 1;
    }
    assert(ex.take(extras.len() as int) == ex);
}


/// A list of `<meta-data>` elements as an annotation value: a sequence of
/// `{context, key, value}` maps.
pub fn meta_data_to_value(items: &Vec<MetaDataXml>) -> (v: Value)
    ensures
        v@ == md_value(items@.map_values(|v: MetaDataXml| v@)),
{
    let mut out: Vec<Value> = Vec::new();
    let mut i: usize = 0;
    while i < items.len()
        invariant
            i <= items.len(),
            out.len() == i,
            forall|j: int| 0 <= j < i ==> #[trigger] out@[j]@ == md_entry(items@[j]@),
        decreases items.len() - i,
    {
        let m = &items[i];
        let e: Vec<(String, Value)> = vec![
            (own("context"), Value::Str(m.context.clone())),
            (own("key"), Value::Str(m.key.clone())),
            (own("value"), Value::Str(m.value.clone())),
        ];
        proof {
            lemma_object_model(e);
            assert(entries_model(e@) =~= seq![
                ("context"@, JsonModel::Str(m@.context)),
                ("key"@, JsonModel::Str(m@.key)),
                ("value"@, JsonModel::Str(m@.value)),
            ]);
        }
        out.push(Value::Object(e));
        i = i + 1;
    }
    proof {
        lemma_array_model(out);
        assert(crate::json::items_model(out@) =~= items@.map_values(|v: MetaDataXml| v@).map_values(
            |m: MetaDataXmlModel| md_entry(m),
        ));
    }
    Value::Array(out)
}

/// The annotation entries of a service with unmodeled content.
fn flag_service(
    fid: &String,
    ip: &String,
    s: &MonitoredServiceXml,
    findings: &mut Vec<Finding>,
    src: Option<&String>,
) -> (m: Vec<(String, Value)>)
    ensures
        findings_model(final(findings)@) == svc_scan(
            fid@,
            ip@,
            s@,
            src_model(src),
            findings_model(old(findings)@),
        ).findings,
        entries_model(m@) == svc_scan(fid@, ip@, s@, src_model(src), findings_model(old(findings)@)).entries,
{
    let mut scope = own("node '");
    append_str(&mut scope, fid.as_str());
    append_str(&mut scope, "'");
    append_str(&mut scope, " interface ");
    append_str(&mut scope, ip.as_str());
    append_str(&mut scope, " service '");
    append_str(&mut scope, s.service_name.as_str());
    append_str(&mut scope, "'");
    assert(scope@ == svc_scope(fid@, ip@, s@.service_name));
    let mut m: Vec<(String, Value)> = Vec::new();
    assert(entries_model(m@) =~= Seq::<(Seq<char>, JsonModel)>::empty());
    if s.meta_data.len() > 0 {
        let mut msg = own(scope.as_str());
        append_str(&mut msg, ": <meta-data> elements not modeled (");
        let n = fmt_usize(s.meta_data.len());
        append_str(&mut msg, n.as_str());
        append_str(&mut msg, " preserved as annotation)");
        assert(msg@ == scope@ + md_note(s@.meta_data.len()));
        raise(findings, FindingCode::Pr001, msg, src);
        map_insert(&mut m, own("meta-data"), meta_data_to_value(&s.meta_data));
    }
    assert(entries_model(m@) == (if s@.meta_data.len() > 0 {
        map_put(Seq::empty(), "meta-data"@, md_value(s@.meta_data))
    } else {
        Seq::empty()
    }));
    record_extras(&s.extras, &mut m, findings, scope.as_str(), src);
    m
}

/// The annotation entries of an interface with unmodeled content.
fn flag_interface(
    fid: &String,
    iface: &InterfaceXml,
    findings: &mut Vec<Finding>,
    src: Option<&String>,
) -> (m: Vec<(String, Value)>)
    ensures
        findings_model(final(findings)@) == iface_scan(
            fid@,
            iface@,
            src_model(src),
            findings_model(old(findings)@),
        ).findings,
        entries_model(m@) == iface_scan(
            fid@,
            iface@,
            src_model(src),
            findings_model(old(findings)@),
        ).entries,
{
    let ghost fs0 = findings_model(findings@);
    let ghost srcm = src_model(src);
    let mut scope = own("node '");
    append_str(&mut scope, fid.as_str());
    append_str(&mut scope, "'");
    append_str(&mut scope, " interface ");
    append_str(&mut scope, iface.ip_addr.as_str());
    assert(scope@ == iface_scope(fid@, iface@.ip_addr));
    if let Some(val) = &iface.snmp_primary {
        if parse_snmp_primary(val.as_str()).is_none() {
            let mut msg = own(scope.as_str());
            append_str(&mut msg, ": snmp-primary='");
            append_str(&mut msg, val.as_str());
            append_str(&mut msg, "' is not P/S/N (dropped)");
            raise(findings, FindingCode::Pr005, msg, src);
        }
    }
    assert(findings_model(findings@) == pr005_check(fid@, iface@.ip_addr, iface@.snmp_primary, srcm, fs0));
    let mut m: Vec<(String, Value)> = Vec::new();
    assert(entries_model(m@) =~= Seq::<(Seq<char>, JsonModel)>::empty());
    if let Some(status) = &iface.status {
        let mut msg = own(scope.as_str());
        append_str(&mut msg, ": 'status' is not modeled in YAML (preserved as annotation)");
        raise(findings, FindingCode::Pr001, msg, src);
        map_insert(&mut m, own("status"), Value::Str(status.clone()));
    }
    if let Some(descr) = &iface.descr {
        let mut msg = own(scope.as_str());
        append_str(&mut msg, ": 'descr' is not modeled in YAML (preserved as annotation)");
        raise(findings, FindingCode::Pr001, msg, src);
        map_insert(&mut m, own("descr"), Value::Str(descr.clone()));
    }
    if iface.meta_data.len() > 0 {
        let mut msg = own(scope.as_str());
        append_str(&mut msg, ": <meta-data> elements not modeled (");
        let n = fmt_usize(iface.meta_data.len());
        append_str(&mut msg, n.as_str());
        append_str(&mut msg, " preserved as annotation)");
        assert(msg@ == scope@ + md_note(iface@.meta_data.len()));
        raise(findings, FindingCode::Pr001, msg, src);
        map_insert(&mut m, own("meta-data"), meta_data_to_value(&iface.meta_data));
    }
    assert(findings_model(findings@) == iface_catalog(fid@, iface@, srcm, fs0).findings);
    assert(entries_model(m@) == iface_catalog(fid@, iface@, srcm, fs0).entries);
    record_extras(&iface.extras, &mut m, findings, scope.as_str(), src);
    let ghost s4 = Scan { findings: findings_model(findings@), entries: entries_model(m@) };
    let ghost svcs = iface@.monitored_services;
    let ghost base = Scan { findings: s4.findings, entries: Seq::empty() };
    let mut svcs_map: Vec<(String, Value)> = Vec::new();
    let mut k: usize = 0;
    while k < iface.monitored_services.len()
        invariant
            k <= iface.monitored_services.len(),
            svcs == iface@.monitored_services,
            srcm == src_model(src),
            findings_model(findings@) == svcs_fold(fid@, iface@.ip_addr, svcs.take(k as int), srcm, base).findings,
            entries_model(svcs_map@) == svcs_fold(fid@, iface@.ip_addr, svcs.take(k as int), srcm, base).entries,
        decreases iface.monitored_services.len() - k,
    {
        let svc = &iface.monitored_services[k];
        proof {
            assert(svcs.take(k + 1).drop_last() == svcs.take(k as int));
            assert(svcs.take(k + 1).last() == svc@);
        }
        let sm = flag_service(fid, &iface.ip_addr, svc, findings, src);
        if sm.len() > 0 {
            proof {
                lemma_object_model(sm);
            }
            map_insert(&mut svcs_map, svc.service_name.clone(), Value::Object(sm));
        }
        k = k + 1;
    }
    assert(svcs.take(iface.monitored_services.len() as int) == svcs);
    if svcs_map.len() > 0 {
        proof {
            lemma_object_model(svcs_map);
        }
        map_insert(&mut m, own("services"), Value::Object(svcs_map));
    }
    m
}

/// The annotation entries of a node with unmodeled content.
fn flag_node(n: &NodeXml, findings: &mut Vec<Finding>, src: Option<&String>) -> (m: Vec<
    (String, Value),
>)
    ensures
        findings_model(final(findings)@) == node_scan(
            n@,
            src_model(src),
            findings_model(old(findings)@),
        ).findings,
        entries_model(m@) == node_scan(n@, src_model(src), findings_model(old(findings)@)).entries,
{
    let ghost srcm = src_model(src);
    let mut scope = own("node '");
    append_str(&mut scope, n.foreign_id.as_str());
    append_str(&mut scope, "'");
    assert(scope@ == node_scope(n@.foreign_id));
    let mut m: Vec<(String, Value)> = Vec::new();
    assert(entries_model(m@) =~= Seq::<(Seq<char>, JsonModel)>::empty());
    if let Some(loc) = &n.location {
        let mut msg = own(scope.as_str());
        append_str(&mut msg, ": 'location' is not modeled in YAML (preserved as annotation)");
        raise(findings, FindingCode::Pr001, msg, src);
        map_insert(&mut m, own("location"), Value::Str(loc.clone()));
    }
    if let Some(city) = &n.city {
        let mut msg = own(scope.as_str());
        append_str(
            &mut msg,
            ": 'city' is not modeled in YAML (preserved as annotation — use asset for round-trip)",
        );
        raise(findings, FindingCode::Pr001, msg, src);
        map_insert(&mut m, own("city"), Value::Str(city.clone()));
    }
    if n.meta_data.len() > 0 {
        let mut msg = own(scope.as_str());
        append_str(&mut msg, ": <meta-data> elements are not modeled in YAML (");
        let c = fmt_usize(n.meta_data.len());
        append_str(&mut msg, c.as_str());
        append_str(&mut msg, " preserved as annotation)");
        raise(findings, FindingCode::Pr001, msg, src);
        map_insert(&mut m, own("meta-data"), meta_data_to_value(&n.meta_data));
    }
    record_extras(&n.extras, &mut m, findings, scope.as_str(), src);
    let ghost s4 = Scan { findings: findings_model(findings@), entries: entries_model(m@) };
    let ghost ifs = n@.interfaces;
    let ghost base = Scan { findings: s4.findings, entries: Seq::empty() };
    let mut ifaces_map: Vec<(String, Value)> = Vec::new();
    let mut k: usize = 0;
    while k < n.interfaces.len()
        invariant
            k <= n.interfaces.len(),
            ifs == n@.interfaces,
            srcm == src_model(src),
            findings_model(findings@) == ifaces_fold(n@.foreign_id, ifs.take(k as int), srcm, base).findings,
            entries_model(ifaces_map@) == ifaces_fold(n@.foreign_id, ifs.take(k as int), srcm, base).entries,
        decreases n.interfaces.len() - k,
    {
        let iface = &n.interfaces[k];
        proof {
            assert(ifs.take(k + 1).drop_last() == ifs.take(k as int));
            assert(ifs.take(k + 1).last() == iface@);
        }
        let im = flag_interface(&n.foreign_id, iface, findings, src);
        if im.len() > 0 {
            proof {
                lemma_object_model(im);
            }
            map_insert(&mut ifaces_map, iface.ip_addr.clone(), Value::Object(im));
        }
        k = k + 1;
    }
    assert(ifs.take(n.interfaces.len() as int) == ifs);
    if ifaces_map.len() > 0 {
        proof {
            lemma_object_model(ifaces_map);
        }
        map_insert(&mut m, own("interfaces"), Value::Object(ifaces_map));
    }
    m
}

/// Walks a requisition for content the document has no place for,
/// raising PR001 for each piece (PR005 for an SNMP role other than `P`,
/// `S`, `N`) and recording it into `unmodeled`: the root's extra
/// attributes and elements at the top, the rest nested under
/// `nodes.<foreign id>`, `interfaces.<address>` and `services.<name>`.
pub fn flag_unmodeled(
    req: &RequisitionXml,
    findings: &mut Vec<Finding>,
    unmodeled: &mut Vec<(String, Value)>,
    src: Option<&String>,
)
    ensures
        findings_model(final(findings)@) == spec_flag_unmodeled(
            req@,
            src_model(src),
            Scan {
                findings: findings_model(old(findings)@),
                entries: entries_model(old(unmodeled)@),
            },
        ).findings,
        entries_model(final(unmodeled)@) == spec_flag_unmodeled(
            req@,
            src_model(src),
            Scan {
                findings: findings_model(old(findings)@),
                entries: entries_model(old(unmodeled)@),
            },
        ).entries,
{
    let ghost srcm = src_model(src);
    record_extras(&req.extras, unmodeled, findings, "model-import (root)", src);
    let ghost base = Scan { findings: findings_model(findings@), entries: Seq::empty() };
    let ghost nodes = req@.nodes;
    let mut nodes_map: Vec<(String, Value)> = Vec::new();
    let mut k: usize = 0;
    while k < req.nodes.len()
        invariant
            k <= req.nodes.len(),
            nodes == req@.nodes,
            srcm == src_model(src),
            findings_model(findings@) == nodes_fold(nodes.take(k as int), srcm, base).findings,
            entries_model(nodes_map@) == nodes_fold(nodes.take(k as int), srcm, base).entries,
        decreases req.nodes.len() - k,
    {
        let n = &req.nodes[k];
        proof {
            assert(nodes.take(k + 1).drop_last() == nodes.take(k as int));
            assert(nodes.take(k + 1).last() == n@);
        }
        let nm = flag_node(n, findings, src);
        if nm.len() > 0 {
            proof {
                lemma_object_model(nm);
            }
            map_insert(&mut nodes_map, n.foreign_id.clone(), Value::Object(nm));
        }
        k = k + 1;
    }
    assert(nodes.take(req.nodes.len() as int) == nodes);
    if nodes_map.len() > 0 {
        proof {
            lemma_object_model(nodes_map);
        }
        map_insert(unmodeled, own("nodes"), Value::Object(nodes_map));
    }
}


// ---------------------------------------------------------------------------
// One requisition, and the orphans of a directory
// ---------------------------------------------------------------------------

/// The message of PR004 for a requisition converted without a
/// foreign-source XML.
pub open spec fn pr004_message(name: Seq<char>) -> Seq<char> {
    "Requisition/"@ + name
        + " has no matching foreign-source XML; emitted YAML inherits Horizon's default-FS"@
}

/// The scan of a requisition from nothing: no findings, no annotation.
pub open spec fn fresh_scan(req: RequisitionXmlModel, src: Option<Seq<char>>) -> Scan {
    spec_flag_unmodeled(req, src, Scan { findings: Seq::empty(), entries: Seq::empty() })
}

/// The findings of converting a requisition: those of its unmodeled
/// content, then PR004 when no foreign-source XML was given.
pub open spec fn spec_conversion_findings(
    req: RequisitionXmlModel,
    fs: Option<ForeignSourceXmlModel>,
    src: Option<Seq<char>>,
) -> Seq<FindingModel> {
    let f = fresh_scan(req, src).findings;
    if fs is None {
        f.push(raised(FindingCode::Pr004, pr004_message(req.foreign_source), src))
    } else {
        f
    }
}

/// The document for a requisition XML and an optional foreign-source XML;
/// the findings about content it has no place for are appended to
/// `findings` (and that content is kept in the annotation).
pub fn build_local(
    req: &RequisitionXml,
    fs: Option<&ForeignSourceXml>,
    findings: &mut Vec<Finding>,
    src: Option<&String>,
) -> (r: RequisitionLocal)
    ensures
        r@ == spec_build_local(
            req@,
            match fs {
                Some(f) => Some(f@),
                None => None,
            },
            spec_flag_unmodeled(
                req@,
                src_model(src),
                Scan { findings: findings_model(old(findings)@), entries: Seq::empty() },
            ).entries,
        ),
        findings_model(final(findings)@) == spec_flag_unmodeled(
            req@,
            src_model(src),
            Scan { findings: findings_model(old(findings)@), entries: Seq::empty() },
        ).findings,
{
    let mut unmodeled: Vec<(String, Value)> = Vec::new();
    assert(entries_model(unmodeled@) =~= Seq::<(Seq<char>, JsonModel)>::empty());
    flag_unmodeled(req, findings, &mut unmodeled, src);
    build_document(req, fs, unmodeled)
}

/// Converts a parsed requisition and optional foreign-source definition:
/// the document and the findings raised for it, each tied to file `src`
/// when one is named.
pub fn convert_parsed(
    req: &RequisitionXml,
    fs: Option<&ForeignSourceXml>,
    src: Option<&String>,
) -> (r: (RequisitionLocal, Vec<Finding>))
    ensures
        r.0@ == spec_build_local(
            req@,
            match fs {
                Some(f) => Some(f@),
                None => None,
            },
            fresh_scan(req@, src_model(src)).entries,
        ),
        findings_model(r.1@) == spec_conversion_findings(
            req@,
            match fs {
                Some(f) => Some(f@),
                None => None,
            },
            src_model(src),
        ),
{
    let mut findings: Vec<Finding> = Vec::new();
    assert(findings_model(findings@) =~= Seq::<FindingModel>::empty());
    let local = build_local(req, fs, &mut findings, src);
    if fs.is_none() {
        let mut msg = own("Requisition/");
        append_str(&mut msg, req.foreign_source.as_str());
        append_str(
            &mut msg,
            " has no matching foreign-source XML; emitted YAML inherits Horizon's default-FS",
        );
        raise(&mut findings, FindingCode::Pr004, msg, src);
    }
    (local, findings)
}

/// The message of PR002 for a foreign-source file named `name` that no
/// requisition matches.
pub open spec fn pr002_message(name: Seq<char>) -> Seq<char> {
    "orphan foreign-source XML '"@ + name + "'; no matching requisition"@
}

/// The foreign-source files by name (a later file of the same name
/// replacing an earlier one), ordered by name.
pub open spec fn files_by_name(s: Seq<(Seq<char>, Seq<char>)>) -> Seq<(Seq<char>, Seq<char>)>
    decreases s.len(),
{
    if s.len() == 0 {
        Seq::empty()
    } else {
        asset_insert(files_by_name(s.drop_last()), s.last().0, s.last().1)
    }
}

/// The entries whose name is not among `names`, in order.
pub open spec fn orphan_entries(
    m: Seq<(Seq<char>, Seq<char>)>,
    names: Seq<Seq<char>>,
) -> Seq<(Seq<char>, Seq<char>)>
    decreases m.len(),
{
    if m.len() == 0 {
        Seq::empty()
    } else if names.contains(m.last().0) {
        orphan_entries(m.drop_last(), names)
    } else {
        orphan_entries(m.drop_last(), names).push(m.last())
    }
}

/// The result reported for an orphan foreign-source file `e` (name,
/// path): no YAML and one PR002 finding tied to the file.
pub open spec fn is_orphan_result(r: ConversionResult, e: (Seq<char>, Seq<char>)) -> bool {
    &&& r.foreign_source@ == e.0
    &&& r.yaml is None
    &&& findings_model(r.findings@) == seq![raised(FindingCode::Pr002, pr002_message(e.0), Some(e.1))]
}

fn contains_str(v: &Vec<String>, s: &str) -> (b: bool)
    ensures
        b == crate::text::strs(v@).contains(s@),
{
    let mut i: usize = 0;
    while i < v.len()
        invariant
            i <= v.len(),
            forall|j: int| 0 <= j < i ==> v@[j]@ != s@,
        decreases v.len() - i,
    {
        if crate::text::str_eq(v[i].as_str(), s) {
            assert(crate::text::strs(v@)[i as int] == s@);
            return true;
        }
        i = i + 1;
    }
    proof {
        if crate::text::strs(v@).contains(s@) {
            let k = choose|k: int| 0 <= k < v.len() && crate::text::strs(v@)[k] == s@;
            assert(v@[k]@ == s@);
        }
    }
    false
}

/// The results for the foreign-source files (name and path of each) that
/// match none of the requisitions named `req_names`: one per name, in
/// name order, each without YAML and with a PR002 finding.
pub fn orphan_results(fs_files: &Vec<(String, String)>, req_names: &Vec<String>) -> (r: Vec<
    ConversionResult,
>)
    ensures
        r.len() == orphan_entries(
            files_by_name(crate::provisioning::model::pairs_model(fs_files@)),
            crate::text::strs(req_names@),
        ).len(),
        forall|j: int|
            0 <= j < r.len() ==> is_orphan_result(
                #[trigger] r@[j],
                orphan_entries(
                    files_by_name(crate::provisioning::model::pairs_model(fs_files@)),
                    crate::text::strs(req_names@),
                )[j],
            ),
{
    let ghost files = crate::provisioning::model::pairs_model(fs_files@);
    let mut by_name = Assets::new();
    let mut k: usize = 0;
    while k < fs_files.len()
        invariant
            k <= fs_files.len(),
            files == crate::provisioning::model::pairs_model(fs_files@),
            by_name@ == files_by_name(files.take(k as int)),
        decreases fs_files.len() - k,
    {
        by_name.insert(fs_files[k].0.clone(), fs_files[k].1.clone());
        assert(files.take(k + 1).drop_last() == files.take(k as int));
        k = k + 1;
    }
    assert(files.take(fs_files.len() as int) == files);
    let ghost m = by_name@;
    let ghost names = crate::text::strs(req_names@);
    let mut r: Vec<ConversionResult> = Vec::new();
    let mut i: usize = 0;
    let n = by_name.len();
    while i < n
        invariant
            i <= n,
            n == m.len(),
            m == by_name@,
            names == crate::text::strs(req_names@),
            r.len() == orphan_entries(m.take(i as int), names).len(),
            forall|j: int|
                0 <= j < r.len() ==> is_orphan_result(
                    #[trigger] r@[j],
                    orphan_entries(m.take(i as int), names)[j],
                ),
        decreases n - i,
    {
        assert(m.take(i + 1).drop_last() == m.take(i as int));
        assert(m.take(i + 1).last() == m[i as int]);
        let name = by_name.name_at(i);
        if !contains_str(req_names, name.as_str()) {
            let mut msg = own("orphan foreign-source XML '");
            append_str(&mut msg, name.as_str());
            append_str(&mut msg, "'; no matching requisition");
            let f = Finding::new(FindingCode::Pr002, msg).with_source(by_name.value_at(i).clone());
            let findings = vec![f];
            assert(findings_model(findings@) =~= seq![
                raised(FindingCode::Pr002, pr002_message(m[i as int].0), Some(m[i as int].1)),
            ]);
            r.push(ConversionResult { foreign_source: name.clone(), yaml: None, findings });
        }
        i = i + 1;
    }
    assert(m.take(n as int) == m);
    r
}


/// The results of converting a directory: the conversions of its
/// requisition files in file order, followed by the results for the
/// foreign-source files (name and path) that match none of the
/// requisitions named `req_names`.
pub fn directory_results(
    conversions: Vec<ConversionResult>,
    fs_files: &Vec<(String, String)>,
    req_names: &Vec<String>,
) -> (r: Vec<ConversionResult>)
    ensures
        r.len() == conversions.len() + orphan_entries(
            files_by_name(crate::provisioning::model::pairs_model(fs_files@)),
            crate::text::strs(req_names@),
        ).len(),
        r@.take(conversions.len() as int) == conversions@,
        forall|j: int|
            0 <= j < r.len() - conversions.len() ==> is_orphan_result(
                #[trigger] r@[conversions.len() + j],
                orphan_entries(
                    files_by_name(crate::provisioning::model::pairs_model(fs_files@)),
                    crate::text::strs(req_names@),
                )[j],
            ),
{
    let orphans = orphan_results(fs_files, req_names);
    let ghost c = conversions@;
    let ghost o = orphans@;
    let mut r = conversions;
    let mut orphans = orphans;
    r.append(&mut orphans);
    assert(r@ =~= c + o);
    assert(r@.take(c.len() as int) =~= c);
    assert forall|j: int| 0 <= j < r.len() - c.len() implies #[trigger] r@[c.len() + j] == o[j] by {}
    r
}

// ---------------------------------------------------------------------------
// What the scan raises
// ---------------------------------------------------------------------------

/// A finding the scan raises: PR001 or PR005, with the code's default
/// severity, tied to the scanned file.
pub open spec fn scan_raised(f: FindingModel, src: Option<Seq<char>>) -> bool {
    &&& (f.code == FindingCode::Pr001 || f.code == FindingCode::Pr005)
    &&& f.severity == spec_default_severity(f.code)
    &&& f.source_path == src
}

/// `b` is `a` followed by findings the scan raises.
pub open spec fn scan_extends(a: Seq<FindingModel>, b: Seq<FindingModel>, src: Option<Seq<char>>) -> bool {
    &&& a.len() <= b.len()
    &&& b.take(a.len() as int) == a
    &&& forall|i: int| a.len() <= i < b.len() ==> scan_raised(#[trigger] b[i], src)
}

proof fn lemma_extends_refl(a: Seq<FindingModel>, src: Option<Seq<char>>)
    ensures
        scan_extends(a, a, src),
{
    assert(a.take(a.len() as int) =~= a);
}

proof fn lemma_extends_raise(
    a: Seq<FindingModel>,
    b: Seq<FindingModel>,
    code: FindingCode,
    m: Seq<char>,
    src: Option<Seq<char>>,
)
    requires
        scan_extends(a, b, src),
        code == FindingCode::Pr001 || code == FindingCode::Pr005,
    ensures
        scan_extends(a, b.push(raised(code, m, src)), src),
{
    let c = b.push(raised(code, m, src));
    assert(c.take(a.len() as int) =~= b.take(a.len() as int));
    assert forall|i: int| a.len() <= i < c.len() implies scan_raised(#[trigger] c[i], src) by {
        if i < b.len() {
            assert(c[i] == b[i]);
        }
    }
}

proof fn lemma_extends_trans(
    a: Seq<FindingModel>,
    b: Seq<FindingModel>,
    c: Seq<FindingModel>,
    src: Option<Seq<char>>,
)
    requires
        scan_extends(a, b, src),
        scan_extends(b, c, src),
    ensures
        scan_extends(a, c, src),
{
    assert(c.take(a.len() as int) =~= c.take(b.len() as int).take(a.len() as int));
    assert forall|i: int| a.len() <= i < c.len() implies scan_raised(#[trigger] c[i], src) by {
        if i < b.len() {
            assert(c.take(b.len() as int)[i] == c[i]);
            assert(b[i] == c[i]);
        }
    }
}

proof fn lemma_extras_fold_extends(
    ex: Seq<(Seq<char>, JsonModel)>,
    scope: Seq<char>,
    src: Option<Seq<char>>,
    st: Scan,
)
    ensures
        scan_extends(st.findings, extras_fold(ex, scope, src, st).findings, src),
    decreases ex.len(),
{
    if ex.len() == 0 {
        lemma_extends_refl(st.findings, src);
    } else {
        let prev = extras_fold(ex.drop_last(), scope, src, st);
        lemma_extras_fold_extends(ex.drop_last(), scope, src, st);
        let e = ex.last();
        let k = strip_at_spec(e.0);
        if key_index(prev.entries, k) < prev.entries.len() {
            lemma_extends_raise(
                st.findings,
                prev.findings,
                FindingCode::Pr001,
                scope + ": '"@ + e.0 + "' collides with catalog key '"@ + k
                    + "' (child shadowed, value not preserved in annotation)"@,
                src,
            );
        } else {
            lemma_extends_raise(
                st.findings,
                prev.findings,
                FindingCode::Pr001,
                scope + ": '"@ + k + "' is not modeled in YAML (preserved as annotation)"@,
                src,
            );
        }
    }
}

proof fn lemma_svc_scan_extends(
    fid: Seq<char>,
    ip: Seq<char>,
    s: MonitoredServiceXmlModel,
    src: Option<Seq<char>>,
    fs: Seq<FindingModel>,
)
    ensures
        scan_extends(fs, svc_scan(fid, ip, s, src, fs).findings, src),
{
    let scope = svc_scope(fid, ip, s.service_name);
    lemma_extends_refl(fs, src);
    let st = if s.meta_data.len() > 0 {
        lemma_extends_raise(fs, fs, FindingCode::Pr001, scope + md_note(s.meta_data.len()), src);
        Scan {
            findings: fs.push(raised(FindingCode::Pr001, scope + md_note(s.meta_data.len()), src)),
            entries: map_put(Seq::empty(), "meta-data"@, md_value(s.meta_data)),
        }
    } else {
        Scan { findings: fs, entries: Seq::empty() }
    };
    lemma_extras_fold_extends(s.extras, scope, src, st);
    lemma_extends_trans(fs, st.findings, svc_scan(fid, ip, s, src, fs).findings, src);
}

proof fn lemma_svcs_fold_extends(
    fid: Seq<char>,
    ip: Seq<char>,
    s: Seq<MonitoredServiceXmlModel>,
    src: Option<Seq<char>>,
    st: Scan,
)
    ensures
        scan_extends(st.findings, svcs_fold(fid, ip, s, src, st).findings, src),
    decreases s.len(),
{
    if s.len() == 0 {
        lemma_extends_refl(st.findings, src);
    } else {
        let prev = svcs_fold(fid, ip, s.drop_last(), src, st);
        lemma_svcs_fold_extends(fid, ip, s.drop_last(), src, st);
        lemma_svc_scan_extends(fid, ip, s.last(), src, prev.findings);
        lemma_extends_trans(
            st.findings,
            prev.findings,
            svc_scan(fid, ip, s.last(), src, prev.findings).findings,
            src,
        );
    }
}

proof fn lemma_iface_catalog_extends(
    fid: Seq<char>,
    i: InterfaceXmlModel,
    src: Option<Seq<char>>,
    fs: Seq<FindingModel>,
)
    ensures
        scan_extends(fs, iface_catalog(fid, i, src, fs).findings, src),
{
    let scope = iface_scope(fid, i.ip_addr);
    lemma_extends_refl(fs, src);
    let f0 = pr005_check(fid, i.ip_addr, i.snmp_primary, src, fs);
    match i.snmp_primary {
        Some(v) => if snmp_primary_of(v) is None {
            lemma_extends_raise(
                fs,
                fs,
                FindingCode::Pr005,
                iface_scope(fid, i.ip_addr) + ": snmp-primary='"@ + v + "' is not P/S/N (dropped)"@,
                src,
            );
        },
        None => {},
    }
    let m1 = scope + ": 'status' is not modeled in YAML (preserved as annotation)"@;
    let m2 = scope + ": 'descr' is not modeled in YAML (preserved as annotation)"@;
    let m3 = scope + md_note(i.meta_data.len());
    let f1 = if i.status is Some {
        lemma_extends_raise(fs, f0, FindingCode::Pr001, m1, src);
        f0.push(raised(FindingCode::Pr001, m1, src))
    } else {
        f0
    };
    let f2 = if i.descr is Some {
        lemma_extends_raise(fs, f1, FindingCode::Pr001, m2, src);
        f1.push(raised(FindingCode::Pr001, m2, src))
    } else {
        f1
    };
    if i.meta_data.len() > 0 {
        lemma_extends_raise(fs, f2, FindingCode::Pr001, m3, src);
    }
}

proof fn lemma_iface_scan_extends(
    fid: Seq<char>,
    i: InterfaceXmlModel,
    src: Option<Seq<char>>,
    fs: Seq<FindingModel>,
)
    ensures
        scan_extends(fs, iface_scan(fid, i, src, fs).findings, src),
{
    let scope = iface_scope(fid, i.ip_addr);
    let c = iface_catalog(fid, i, src, fs);
    lemma_iface_catalog_extends(fid, i, src, fs);
    let s4 = extras_fold(i.extras, scope, src, c);
    lemma_extras_fold_extends(i.extras, scope, src, c);
    lemma_extends_trans(fs, c.findings, s4.findings, src);
    let start = Scan { findings: s4.findings, entries: Seq::empty() };
    lemma_svcs_fold_extends(fid, i.ip_addr, i.monitored_services, src, start);
    lemma_extends_trans(
        fs,
        s4.findings,
        svcs_fold(fid, i.ip_addr, i.monitored_services, src, start).findings,
        src,
    );
}

proof fn lemma_ifaces_fold_extends(
    fid: Seq<char>,
    s: Seq<InterfaceXmlModel>,
    src: Option<Seq<char>>,
    st: Scan,
)
    ensures
        scan_extends(st.findings, ifaces_fold(fid, s, src, st).findings, src),
    decreases s.len(),
{
    if s.len() == 0 {
        lemma_extends_refl(st.findings, src);
    } else {
        let prev = ifaces_fold(fid, s.drop_last(), src, st);
        lemma_ifaces_fold_extends(fid, s.drop_last(), src, st);
        lemma_iface_scan_extends(fid, s.last(), src, prev.findings);
        lemma_extends_trans(
            st.findings,
            prev.findings,
            iface_scan(fid, s.last(), src, prev.findings).findings,
            src,
        );
    }
}

proof fn lemma_node_scan_extends(n: NodeXmlModel, src: Option<Seq<char>>, fs: Seq<FindingModel>)
    ensures
        scan_extends(fs, node_scan(n, src, fs).findings, src),
{
    let scope = node_scope(n.foreign_id);
    lemma_extends_refl(fs, src);
    let m1 = scope + ": 'location' is not modeled in YAML (preserved as annotation)"@;
    let m2 = scope
        + ": 'city' is not modeled in YAML (preserved as annotation — use asset for round-trip)"@;
    let m3 = scope + ": <meta-data> elements are not modeled in YAML ("@ + dec(n.meta_data.len())
        + " preserved as annotation)"@;
    let s1 = match n.location {
        Some(v) => {
            lemma_extends_raise(fs, fs, FindingCode::Pr001, m1, src);
            Scan {
                findings: fs.push(raised(FindingCode::Pr001, m1, src)),
                entries: map_put(Seq::empty(), "location"@, JsonModel::Str(v)),
            }
        },
        None => Scan { findings: fs, entries: Seq::empty() },
    };
    let s2 = match n.city {
        Some(v) => {
            lemma_extends_raise(fs, s1.findings, FindingCode::Pr001, m2, src);
            Scan {
                findings: s1.findings.push(raised(FindingCode::Pr001, m2, src)),
                entries: map_put(s1.entries, "city"@, JsonModel::Str(v)),
            }
        },
        None => s1,
    };
    let s3 = if n.meta_data.len() > 0 {
        lemma_extends_raise(fs, s2.findings, FindingCode::Pr001, m3, src);
        Scan {
            findings: s2.findings.push(raised(FindingCode::Pr001, m3, src)),
            entries: map_put(s2.entries, "meta-data"@, md_value(n.meta_data)),
        }
    } else {
        s2
    };
    let s4 = extras_fold(n.extras, scope, src, s3);
    lemma_extras_fold_extends(n.extras, scope, src, s3);
    lemma_extends_trans(fs, s3.findings, s4.findings, src);
    let start = Scan { findings: s4.findings, entries: Seq::empty() };
    lemma_ifaces_fold_extends(n.foreign_id, n.interfaces, src, start);
    lemma_extends_trans(
        fs,
        s4.findings,
        ifaces_fold(n.foreign_id, n.interfaces, src, start).findings,
        src,
    );
}

proof fn lemma_nodes_fold_extends(s: Seq<NodeXmlModel>, src: Option<Seq<char>>, st: Scan)
    ensures
        scan_extends(st.findings, nodes_fold(s, src, st).findings, src),
    decreases s.len(),
{
    if s.len() == 0 {
        lemma_extends_refl(st.findings, src);
    } else {
        let prev = nodes_fold(s.drop_last(), src, st);
        lemma_nodes_fold_extends(s.drop_last(), src, st);
        lemma_node_scan_extends(s.last(), src, prev.findings);
        lemma_extends_trans(st.findings, prev.findings, node_scan(s.last(), src, prev.findings).findings, src);
    }
}

/// The scan of unmodeled content only appends: the findings it starts
/// with stay first, unchanged, and each finding it adds is PR001 or PR005
/// with the code's default severity, tied to the scanned file.
pub proof fn lemma_flag_unmodeled_appends(req: RequisitionXmlModel, src: Option<Seq<char>>, st: Scan)
    ensures
        scan_extends(st.findings, spec_flag_unmodeled(req, src, st).findings, src),
{
    let r = extras_fold(req.extras, "model-import (root)"@, src, st);
    lemma_extras_fold_extends(req.extras, "model-import (root)"@, src, st);
    let start = Scan { findings: r.findings, entries: Seq::empty() };
    lemma_nodes_fold_extends(req.nodes, src, start);
    lemma_extends_trans(st.findings, r.findings, nodes_fold(req.nodes, src, start).findings, src);
}

/// Converting a requisition raises PR004 exactly once when no
/// foreign-source XML is given (as the last finding) and never otherwise;
/// every finding is tied to the converted file.
pub proof fn lemma_conversion_pr004(
    req: RequisitionXmlModel,
    fs: Option<ForeignSourceXmlModel>,
    src: Option<Seq<char>>,
)
    ensures
        ({
            let f = spec_conversion_findings(req, fs, src);
            &&& forall|i: int| 0 <= i < f.len() ==> (#[trigger] f[i]).source_path == src
            &&& fs is None ==> f.len() > 0 && f.last().code == FindingCode::Pr004 && forall|i: int|
                0 <= i < f.len() - 1 ==> (#[trigger] f[i]).code != FindingCode::Pr004
            &&& fs is Some ==> forall|i: int| 0 <= i < f.len() ==> (#[trigger] f[i]).code != FindingCode::Pr004
        }),
{
    let empty = Scan { findings: Seq::empty(), entries: Seq::empty() };
    lemma_flag_unmodeled_appends(req, src, empty);
    let g = fresh_scan(req, src).findings;
    assert forall|i: int| 0 <= i < g.len() implies scan_raised(#[trigger] g[i], src) by {}
}

/// The number of findings of `s` with code `c`.
pub open spec fn count_code(s: Seq<FindingModel>, c: FindingCode) -> nat
    decreases s.len(),
{
    if s.len() == 0 {
        0
    } else {
        count_code(s.drop_last(), c) + if s.last().code == c {
            1nat
        } else {
            0nat
        }
    }
}

/// An interface whose SNMP role is set to something other than `P`, `S`,
/// `N`.
pub open spec fn bad_primary(i: InterfaceXmlModel) -> bool {
    i.snmp_primary matches Some(v) && snmp_primary_of(v) is None
}

/// The number of such interfaces in `s`.
pub open spec fn bad_primaries(s: Seq<InterfaceXmlModel>) -> nat
    decreases s.len(),
{
    if s.len() == 0 {
        0
    } else {
        bad_primaries(s.drop_last()) + if bad_primary(s.last()) {
            1nat
        } else {
            0nat
        }
    }
}

/// The number of such interfaces over the nodes `s`.
pub open spec fn bad_primaries_in_nodes(s: Seq<NodeXmlModel>) -> nat
    decreases s.len(),
{
    if s.len() == 0 {
        0
    } else {
        bad_primaries_in_nodes(s.drop_last()) + bad_primaries(s.last().interfaces)
    }
}

proof fn lemma_count_push(s: Seq<FindingModel>, f: FindingModel, c: FindingCode)
    ensures
        count_code(s.push(f), c) == count_code(s, c) + if f.code == c {
            1nat
        } else {
            0nat
        },
{
    assert(s.push(f).drop_last() =~= s);
}

proof fn lemma_extras_fold_pr005(ex: Seq<(Seq<char>, JsonModel)>, scope: Seq<char>, src: Option<Seq<char>>, st: Scan)
    ensures
        count_code(extras_fold(ex, scope, src, st).findings, FindingCode::Pr005) == count_code(
            st.findings,
            FindingCode::Pr005,
        ),
    decreases ex.len(),
{
    if ex.len() > 0 {
        let prev = extras_fold(ex.drop_last(), scope, src, st);
        lemma_extras_fold_pr005(ex.drop_last(), scope, src, st);
        let r = extras_fold(ex, scope, src, st);
        assert(r.findings.drop_last() =~= prev.findings);
        lemma_count_push(prev.findings, r.findings.last(), FindingCode::Pr005);
        assert(r.findings =~= prev.findings.push(r.findings.last()));
    }
}

proof fn lemma_svcs_fold_pr005(
    fid: Seq<char>,
    ip: Seq<char>,
    s: Seq<MonitoredServiceXmlModel>,
    src: Option<Seq<char>>,
    st: Scan,
)
    ensures
        count_code(svcs_fold(fid, ip, s, src, st).findings, FindingCode::Pr005) == count_code(
            st.findings,
            FindingCode::Pr005,
        ),
    decreases s.len(),
{
    if s.len() > 0 {
        let prev = svcs_fold(fid, ip, s.drop_last(), src, st);
        lemma_svcs_fold_pr005(fid, ip, s.drop_last(), src, st);
        let x = s.last();
        let scope = svc_scope(fid, ip, x.service_name);
        let m = scope + md_note(x.meta_data.len());
        let start = if x.meta_data.len() > 0 {
            lemma_count_push(prev.findings, raised(FindingCode::Pr001, m, src), FindingCode::Pr005);
            Scan {
                findings: prev.findings.push(raised(FindingCode::Pr001, m, src)),
                entries: map_put(Seq::empty(), "meta-data"@, md_value(x.meta_data)),
            }
        } else {
            Scan { findings: prev.findings, entries: Seq::empty() }
        };
        lemma_extras_fold_pr005(x.extras, scope, src, start);
    }
}

proof fn lemma_iface_scan_pr005(fid: Seq<char>, i: InterfaceXmlModel, src: Option<Seq<char>>, fs: Seq<FindingModel>)
    ensures
        count_code(iface_scan(fid, i, src, fs).findings, FindingCode::Pr005) == count_code(
            fs,
            FindingCode::Pr005,
        ) + if bad_primary(i) {
            1nat
        } else {
            0nat
        },
{
    let scope = iface_scope(fid, i.ip_addr);
    let f0 = pr005_check(fid, i.ip_addr, i.snmp_primary, src, fs);
    match i.snmp_primary {
        Some(v) => if snmp_primary_of(v) is None {
            lemma_count_push(
                fs,
                raised(
                    FindingCode::Pr005,
                    iface_scope(fid, i.ip_addr) + ": snmp-primary='"@ + v + "' is not P/S/N (dropped)"@,
                    src,
                ),
                FindingCode::Pr005,
            );
        },
        None => {},
    }
    let m1 = scope + ": 'status' is not modeled in YAML (preserved as annotation)"@;
    let m2 = scope + ": 'descr' is not modeled in YAML (preserved as annotation)"@;
    let m3 = scope + md_note(i.meta_data.len());
    let f1 = if i.status is Some {
        lemma_count_push(f0, raised(FindingCode::Pr001, m1, src), FindingCode::Pr005);
        f0.push(raised(FindingCode::Pr001, m1, src))
    } else {
        f0
    };
    let f2 = if i.descr is Some {
        lemma_count_push(f1, raised(FindingCode::Pr001, m2, src), FindingCode::Pr005);
        f1.push(raised(FindingCode::Pr001, m2, src))
    } else {
        f1
    };
    if i.meta_data.len() > 0 {
        lemma_count_push(f2, raised(FindingCode::Pr001, m3, src), FindingCode::Pr005);
    }
    let c = iface_catalog(fid, i, src, fs);
    lemma_extras_fold_pr005(i.extras, scope, src, c);
    let s4 = extras_fold(i.extras, scope, src, c);
    lemma_svcs_fold_pr005(
        fid,
        i.ip_addr,
        i.monitored_services,
        src,
        Scan { findings: s4.findings, entries: Seq::empty() },
    );
}

proof fn lemma_ifaces_fold_pr005(fid: Seq<char>, s: Seq<InterfaceXmlModel>, src: Option<Seq<char>>, st: Scan)
    ensures
        count_code(ifaces_fold(fid, s, src, st).findings, FindingCode::Pr005) == count_code(
            st.findings,
            FindingCode::Pr005,
        ) + bad_primaries(s),
    decreases s.len(),
{
    if s.len() > 0 {
        let prev = ifaces_fold(fid, s.drop_last(), src, st);
        lemma_ifaces_fold_pr005(fid, s.drop_last(), src, st);
        lemma_iface_scan_pr005(fid, s.last(), src, prev.findings);
    }
}

proof fn lemma_node_scan_pr005(n: NodeXmlModel, src: Option<Seq<char>>, fs: Seq<FindingModel>)
    ensures
        count_code(node_scan(n, src, fs).findings, FindingCode::Pr005) == count_code(
            fs,
            FindingCode::Pr005,
        ) + bad_primaries(n.interfaces),
{
    let scope = node_scope(n.foreign_id);
    let m1 = scope + ": 'location' is not modeled in YAML (preserved as annotation)"@;
    let m2 = scope
        + ": 'city' is not modeled in YAML (preserved as annotation — use asset for round-trip)"@;
    let m3 = scope + ": <meta-data> elements are not modeled in YAML ("@ + dec(n.meta_data.len())
        + " preserved as annotation)"@;
    let s1 = match n.location {
        Some(v) => {
            lemma_count_push(fs, raised(FindingCode::Pr001, m1, src), FindingCode::Pr005);
            Scan {
                findings: fs.push(raised(FindingCode::Pr001, m1, src)),
                entries: map_put(Seq::empty(), "location"@, JsonModel::Str(v)),
            }
        },
        None => Scan { findings: fs, entries: Seq::empty() },
    };
    let s2 = match n.city {
        Some(v) => {
            lemma_count_push(s1.findings, raised(FindingCode::Pr001, m2, src), FindingCode::Pr005);
            Scan {
                findings: s1.findings.push(raised(FindingCode::Pr001, m2, src)),
                entries: map_put(s1.entries, "city"@, JsonModel::Str(v)),
            }
        },
        None => s1,
    };
    let s3 = if n.meta_data.len() > 0 {
        lemma_count_push(s2.findings, raised(FindingCode::Pr001, m3, src), FindingCode::Pr005);
        Scan {
            findings: s2.findings.push(raised(FindingCode::Pr001, m3, src)),
            entries: map_put(s2.entries, "meta-data"@, md_value(n.meta_data)),
        }
    } else {
        s2
    };
    lemma_extras_fold_pr005(n.extras, scope, src, s3);
    let s4 = extras_fold(n.extras, scope, src, s3);
    lemma_ifaces_fold_pr005(
        n.foreign_id,
        n.interfaces,
        src,
        Scan { findings: s4.findings, entries: Seq::empty() },
    );
}

proof fn lemma_nodes_fold_pr005(s: Seq<NodeXmlModel>, src: Option<Seq<char>>, st: Scan)
    ensures
        count_code(nodes_fold(s, src, st).findings, FindingCode::Pr005) == count_code(
            st.findings,
            FindingCode::Pr005,
        ) + bad_primaries_in_nodes(s),
    decreases s.len(),
{
    if s.len() > 0 {
        let prev = nodes_fold(s.drop_last(), src, st);
        lemma_nodes_fold_pr005(s.drop_last(), src, st);
        lemma_node_scan_pr005(s.last(), src, prev.findings);
    }
}

/// The scan raises PR005 once per interface whose SNMP role is set to
/// something other than `P`, `S`, `N`, and for nothing else.
pub proof fn lemma_flag_unmodeled_pr005_count(req: RequisitionXmlModel, src: Option<Seq<char>>, st: Scan)
    ensures
        count_code(spec_flag_unmodeled(req, src, st).findings, FindingCode::Pr005) == count_code(
            st.findings,
            FindingCode::Pr005,
        ) + bad_primaries_in_nodes(req.nodes),
{
    let r = extras_fold(req.extras, "model-import (root)"@, src, st);
    lemma_extras_fold_pr005(req.extras, "model-import (root)"@, src, st);
    lemma_nodes_fold_pr005(req.nodes, src, Scan { findings: r.findings, entries: Seq::empty() });
}

/// The converted document is named after the requisition and has a
/// foreign-source block exactly when a foreign-source definition was given
/// (the rendered YAML follows the document); its nodes follow the XML's in
/// order.
pub proof fn lemma_build_local_shape(
    req: RequisitionXmlModel,
    fs: Option<ForeignSourceXmlModel>,
    unmodeled: Seq<(Seq<char>, JsonModel)>,
)
    ensures
        ({
            let l = spec_build_local(req, fs, unmodeled);
            &&& l.metadata.name == req.foreign_source
            &&& (l.spec.foreign_source is Some) == (fs is Some)
            &&& l.spec.nodes.len() == req.nodes.len()
        }),
{
}

/// An interface with its SNMP role removed.
pub open spec fn without_role(i: InterfaceXmlModel) -> InterfaceXmlModel {
    InterfaceXmlModel { snmp_primary: None, ..i }
}

/// A node with its interfaces' SNMP roles removed.
pub open spec fn node_without_roles(n: NodeXmlModel) -> NodeXmlModel {
    NodeXmlModel { interfaces: n.interfaces.map_values(|i: InterfaceXmlModel| without_role(i)), ..n }
}

/// A requisition with every interface's SNMP role removed.
pub open spec fn without_roles(req: RequisitionXmlModel) -> RequisitionXmlModel {
    RequisitionXmlModel { nodes: req.nodes.map_values(|n: NodeXmlModel| node_without_roles(n)), ..req }
}

proof fn lemma_extras_fold_entries(
    ex: Seq<(Seq<char>, JsonModel)>,
    scope: Seq<char>,
    src: Option<Seq<char>>,
    st: Scan,
    st2: Scan,
)
    requires
        st.entries == st2.entries,
    ensures
        extras_fold(ex, scope, src, st).entries == extras_fold(ex, scope, src, st2).entries,
    decreases ex.len(),
{
    if ex.len() > 0 {
        lemma_extras_fold_entries(ex.drop_last(), scope, src, st, st2);
    }
}

proof fn lemma_svcs_fold_entries(
    fid: Seq<char>,
    ip: Seq<char>,
    s: Seq<MonitoredServiceXmlModel>,
    src: Option<Seq<char>>,
    st: Scan,
    st2: Scan,
)
    requires
        st.entries == st2.entries,
    ensures
        svcs_fold(fid, ip, s, src, st).entries == svcs_fold(fid, ip, s, src, st2).entries,
    decreases s.len(),
{
    if s.len() > 0 {
        lemma_svcs_fold_entries(fid, ip, s.drop_last(), src, st, st2);
        let p1 = svcs_fold(fid, ip, s.drop_last(), src, st);
        let p2 = svcs_fold(fid, ip, s.drop_last(), src, st2);
        let x = s.last();
        let scope = svc_scope(fid, ip, x.service_name);
        let m = scope + md_note(x.meta_data.len());
        let a1 = if x.meta_data.len() > 0 {
            Scan {
                findings: p1.findings.push(raised(FindingCode::Pr001, m, src)),
                entries: map_put(Seq::empty(), "meta-data"@, md_value(x.meta_data)),
            }
        } else {
            Scan { findings: p1.findings, entries: Seq::empty() }
        };
        let a2 = if x.meta_data.len() > 0 {
            Scan {
                findings: p2.findings.push(raised(FindingCode::Pr001, m, src)),
                entries: map_put(Seq::empty(), "meta-data"@, md_value(x.meta_data)),
            }
        } else {
            Scan { findings: p2.findings, entries: Seq::empty() }
        };
        lemma_extras_fold_entries(x.extras, scope, src, a1, a2);
    }
}

proof fn lemma_iface_scan_entries(fid: Seq<char>, i: InterfaceXmlModel, src: Option<Seq<char>>, fs: Seq<FindingModel>, fs2: Seq<FindingModel>)
    ensures
        iface_scan(fid, i, src, fs).entries == iface_scan(fid, without_role(i), src, fs2).entries,
{
    let j = without_role(i);
    let scope = iface_scope(fid, i.ip_addr);
    let c1 = iface_catalog(fid, i, src, fs);
    let c2 = iface_catalog(fid, j, src, fs2);
    assert(c1.entries == c2.entries);
    lemma_extras_fold_entries(i.extras, scope, src, c1, c2);
    let s1 = extras_fold(i.extras, scope, src, c1);
    let s2 = extras_fold(i.extras, scope, src, c2);
    lemma_svcs_fold_entries(
        fid,
        i.ip_addr,
        i.monitored_services,
        src,
        Scan { findings: s1.findings, entries: Seq::empty() },
        Scan { findings: s2.findings, entries: Seq::empty() },
    );
}

proof fn lemma_ifaces_fold_entries(fid: Seq<char>, s: Seq<InterfaceXmlModel>, src: Option<Seq<char>>, st: Scan, st2: Scan)
    requires
        st.entries == st2.entries,
    ensures
        ifaces_fold(fid, s, src, st).entries == ifaces_fold(
            fid,
            s.map_values(|i: InterfaceXmlModel| without_role(i)),
            src,
            st2,
        ).entries,
    decreases s.len(),
{
    let t = s.map_values(|i: InterfaceXmlModel| without_role(i));
    if s.len() > 0 {
        assert(t.drop_last() =~= s.drop_last().map_values(|i: InterfaceXmlModel| without_role(i)));
        assert(t.last() == without_role(s.last()));
        lemma_ifaces_fold_entries(fid, s.drop_last(), src, st, st2);
        let p1 = ifaces_fold(fid, s.drop_last(), src, st);
        let p2 = ifaces_fold(fid, t.drop_last(), src, st2);
        lemma_iface_scan_entries(fid, s.last(), src, p1.findings, p2.findings);
    }
}

proof fn lemma_node_scan_entries(n: NodeXmlModel, src: Option<Seq<char>>, fs: Seq<FindingModel>, fs2: Seq<FindingModel>)
    ensures
        node_scan(n, src, fs).entries == node_scan(node_without_roles(n), src, fs2).entries,
{
    let m = node_without_roles(n);
    let scope = node_scope(n.foreign_id);
    let m1 = scope + ": 'location' is not modeled in YAML (preserved as annotation)"@;
    let m2 = scope
        + ": 'city' is not modeled in YAML (preserved as annotation — use asset for round-trip)"@;
    let m3 = scope + ": <meta-data> elements are not modeled in YAML ("@ + dec(n.meta_data.len())
        + " preserved as annotation)"@;
    let e1 = match n.location {
        Some(v) => map_put(Seq::empty(), "location"@, JsonModel::Str(v)),
        None => Seq::empty(),
    };
    let e2 = match n.city {
        Some(v) => map_put(e1, "city"@, JsonModel::Str(v)),
        None => e1,
    };
    let e3 = if n.meta_data.len() > 0 {
        map_put(e2, "meta-data"@, md_value(n.meta_data))
    } else {
        e2
    };
    let f1 = match n.location {
        Some(v) => fs.push(raised(FindingCode::Pr001, m1, src)),
        None => fs,
    };
    let f2 = match n.city {
        Some(v) => f1.push(raised(FindingCode::Pr001, m2, src)),
        None => f1,
    };
    let f3 = if n.meta_data.len() > 0 {
        f2.push(raised(FindingCode::Pr001, m3, src))
    } else {
        f2
    };
    let g1 = match n.location {
        Some(v) => fs2.push(raised(FindingCode::Pr001, m1, src)),
        None => fs2,
    };
    let g2 = match n.city {
        Some(v) => g1.push(raised(FindingCode::Pr001, m2, src)),
        None => g1,
    };
    let g3 = if n.meta_data.len() > 0 {
        g2.push(raised(FindingCode::Pr001, m3, src))
    } else {
        g2
    };
    let a = Scan { findings: f3, entries: e3 };
    let b = Scan { findings: g3, entries: e3 };
    lemma_extras_fold_entries(n.extras, scope, src, a, b);
    let s1 = extras_fold(n.extras, scope, src, a);
    let s2 = extras_fold(n.extras, scope, src, b);
    lemma_ifaces_fold_entries(
        n.foreign_id,
        n.interfaces,
        src,
        Scan { findings: s1.findings, entries: Seq::empty() },
        Scan { findings: s2.findings, entries: Seq::empty() },
    );
}

proof fn lemma_nodes_fold_entries(s: Seq<NodeXmlModel>, src: Option<Seq<char>>, st: Scan, st2: Scan)
    requires
        st.entries == st2.entries,
    ensures
        nodes_fold(s, src, st).entries == nodes_fold(
            s.map_values(|n: NodeXmlModel| node_without_roles(n)),
            src,
            st2,
        ).entries,
    decreases s.len(),
{
    let t = s.map_values(|n: NodeXmlModel| node_without_roles(n));
    if s.len() > 0 {
        assert(t.drop_last() =~= s.drop_last().map_values(|n: NodeXmlModel| node_without_roles(n)));
        assert(t.last() == node_without_roles(s.last()));
        lemma_nodes_fold_entries(s.drop_last(), src, st, st2);
        let p1 = nodes_fold(s.drop_last(), src, st);
        let p2 = nodes_fold(t.drop_last(), src, st2);
        lemma_node_scan_entries(s.last(), src, p1.findings, p2.findings);
    }
}

/// No SNMP role is recorded in the annotation: the unmodeled content kept
/// for a requisition is the same as for the requisition with every
/// interface's SNMP role removed (a role is either modeled or reported as
/// PR005 and dropped).
pub proof fn lemma_roles_never_annotated(req: RequisitionXmlModel, src: Option<Seq<char>>, st: Scan)
    ensures
        spec_flag_unmodeled(req, src, st).entries == spec_flag_unmodeled(without_roles(req), src, st).entries,
{
    let r = extras_fold(req.extras, "model-import (root)"@, src, st);
    assert(without_roles(req).extras == req.extras);
    lemma_nodes_fold_entries(
        req.nodes,
        src,
        Scan { findings: r.findings, entries: Seq::empty() },
        Scan { findings: r.findings, entries: Seq::empty() },
    );
}

// ---------------------------------------------------------------------------
// Clean input
// ---------------------------------------------------------------------------

/// A service with nothing the document has no place for.
pub open spec fn clean_service(s: MonitoredServiceXmlModel) -> bool {
    s.meta_data.len() == 0 && s.extras.len() == 0
}

/// An interface with nothing the document has no place for: no status,
/// description, `<meta-data>` or other content, an SNMP role that is
/// absent or one of `P`, `S`, `N`, and clean services.
pub open spec fn clean_interface(i: InterfaceXmlModel) -> bool {
    &&& i.status is None
    &&& i.descr is None
    &&& i.meta_data.len() == 0
    &&& i.extras.len() == 0
    &&& match i.snmp_primary {
        Some(v) => snmp_primary_of(v) is Some,
        None => true,
    }
    &&& forall|j: int| 0 <= j < i.monitored_services.len() ==> clean_service(#[trigger] i.monitored_services[j])
}

/// A node with nothing the document has no place for.
pub open spec fn clean_node(n: NodeXmlModel) -> bool {
    &&& n.location is None
    &&& n.city is None
    &&& n.meta_data.len() == 0
    &&& n.extras.len() == 0
    &&& forall|j: int| 0 <= j < n.interfaces.len() ==> clean_interface(#[trigger] n.interfaces[j])
}

/// A requisition XML whose every part has a place in the document.
pub open spec fn clean_requisition(r: RequisitionXmlModel) -> bool {
    r.extras.len() == 0 && forall|j: int| 0 <= j < r.nodes.len() ==> clean_node(#[trigger] r.nodes[j])
}

proof fn lemma_clean_services(fid: Seq<char>, ip: Seq<char>, s: Seq<MonitoredServiceXmlModel>, src: Option<Seq<char>>, st: Scan)
    requires
        forall|j: int| 0 <= j < s.len() ==> clean_service(#[trigger] s[j]),
    ensures
        svcs_fold(fid, ip, s, src, st) == st,
    decreases s.len(),
{
    if s.len() > 0 {
        lemma_clean_services(fid, ip, s.drop_last(), src, st);
        assert(clean_service(s[s.len() - 1]));
    }
}

proof fn lemma_clean_interface(fid: Seq<char>, i: InterfaceXmlModel, src: Option<Seq<char>>, fs: Seq<FindingModel>)
    requires
        clean_interface(i),
    ensures
        iface_scan(fid, i, src, fs) == (Scan { findings: fs, entries: Seq::empty() }),
{
    lemma_clean_services(fid, i.ip_addr, i.monitored_services, src, Scan { findings: fs, entries: Seq::empty() });
}

proof fn lemma_clean_interfaces(fid: Seq<char>, s: Seq<InterfaceXmlModel>, src: Option<Seq<char>>, st: Scan)
    requires
        forall|j: int| 0 <= j < s.len() ==> clean_interface(#[trigger] s[j]),
    ensures
        ifaces_fold(fid, s, src, st) == st,
    decreases s.len(),
{
    if s.len() > 0 {
        lemma_clean_interfaces(fid, s.drop_last(), src, st);
        assert(clean_interface(s[s.len() - 1]));
        lemma_clean_interface(fid, s.last(), src, st.findings);
    }
}

proof fn lemma_clean_nodes(s: Seq<NodeXmlModel>, src: Option<Seq<char>>, st: Scan)
    requires
        forall|j: int| 0 <= j < s.len() ==> clean_node(#[trigger] s[j]),
    ensures
        nodes_fold(s, src, st) == st,
    decreases s.len(),
{
    if s.len() > 0 {
        lemma_clean_nodes(s.drop_last(), src, st);
        let n = s.last();
        assert(clean_node(s[s.len() - 1]));
        lemma_clean_interfaces(n.foreign_id, n.interfaces, src, Scan { findings: st.findings, entries: Seq::empty() });
    }
}

/// Converting a requisition XML whose every part has a place in the
/// document, with its foreign-source XML, raises no finding and leaves no
/// annotation.
pub proof fn lemma_clean_conversion(req: RequisitionXmlModel, fs: ForeignSourceXmlModel, src: Option<Seq<char>>)
    requires
        clean_requisition(req),
    ensures
        spec_conversion_findings(req, Some(fs), src) == Seq::<FindingModel>::empty(),
        spec_build_local(req, Some(fs), fresh_scan(req, src).entries).metadata.unmodeled is None,
{
    lemma_clean_nodes(req.nodes, src, Scan { findings: Seq::empty(), entries: Seq::empty() });
}

} // verus!
