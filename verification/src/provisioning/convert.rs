//! Conversions between the local document model and the wire model.
//!
//! Both directions are lossy by design. Server → local drops the wire
//! fields the document does not expose (metadata, parents, per-interface
//! status / description / categories, time stamps); local → server fills
//! the fields the document does not carry with empty or absent values.
//! Categories, assets and services change shape between flat lists / a
//! sorted map and lists of records.

use vstd::prelude::*;
use crate::provisioning::model::{
    asset_insert, names_ascending, ApiVersion, Assets, Detector, DetectorModel, ForeignSourceSpec,
    ForeignSourceSpecModel, Interface, InterfaceModel, Kind, Metadata, MetadataModel, Node,
    NodeModel, Parameter, ParameterModel, Policy, PolicyModel, RequisitionLocal,
    RequisitionLocalModel, SnmpPrimary, Spec, SpecModel,
};
use crate::provisioning::server::{
    AssetEntry, AssetEntryModel, CategoryRef, CategoryRefModel, DetectorServer,
    DetectorServerModel, ForeignSourceServer, ForeignSourceServerModel, InterfaceServer,
    InterfaceServerModel, MetaDataEntry, MonitoredServiceServer, MonitoredServiceServerModel,
    NodeServer, NodeServerModel, ParameterEntry, ParameterEntryModel, PolicyServer,
    PolicyServerModel, RequisitionServer, RequisitionServerModel,
};
use crate::text::{clone_opt, clone_strs, lemma_lex_asym, lemma_lex_irrefl, lex_lt, str_eq, strs};

verus! {

// ---------------------------------------------------------------------------
// Server → local
// ---------------------------------------------------------------------------

pub open spec fn spec_parameter_from_wire(p: ParameterEntryModel) -> ParameterModel {
    ParameterModel { key: p.key, value: p.value }
}

pub open spec fn parameters_from_wire(s: Seq<ParameterEntryModel>) -> Seq<ParameterModel> {
    s.map_values(|p: ParameterEntryModel| spec_parameter_from_wire(p))
}

pub open spec fn spec_detector_from_wire(d: DetectorServerModel) -> DetectorModel {
    DetectorModel {
        name: d.name,
        class: Some(d.class),
        parameters: parameters_from_wire(d.parameter),
    }
}

pub open spec fn spec_policy_from_wire(p: PolicyServerModel) -> PolicyModel {
    PolicyModel { name: p.name, class: p.class, parameters: parameters_from_wire(p.parameter) }
}

pub open spec fn spec_foreign_source_from_wire(fs: ForeignSourceServerModel) -> ForeignSourceSpecModel {
    ForeignSourceSpecModel {
        scan_interval: fs.scan_interval,
        detectors: fs.detectors.map_values(|d: DetectorServerModel| spec_detector_from_wire(d)),
        policies: fs.policies.map_values(|p: PolicyServerModel| spec_policy_from_wire(p)),
    }
}

/// The asset map built from wire records in order (a later record of the
/// same name replaces an earlier one).
pub open spec fn assets_from_entries(s: Seq<AssetEntryModel>) -> Seq<(Seq<char>, Seq<char>)>
    decreases s.len(),
{
    if s.len() == 0 {
        Seq::empty()
    } else {
        asset_insert(assets_from_entries(s.drop_last()), s.last().name, s.last().value)
    }
}

/// The SNMP role named by a wire text; any text but `P`, `S`, `N` has none.
pub open spec fn snmp_primary_of(t: Seq<char>) -> Option<SnmpPrimary> {
    if t == seq!['P'] {
        Some(SnmpPrimary::P)
    } else if t == seq!['S'] {
        Some(SnmpPrimary::S)
    } else if t == seq!['N'] {
        Some(SnmpPrimary::N)
    } else {
        None
    }
}

pub open spec fn spec_interface_from_wire(i: InterfaceServerModel) -> InterfaceModel {
    InterfaceModel {
        ip: i.ip_addr,
        services: i.monitored_service.map_values(|s: MonitoredServiceServerModel| s.service_name),
        snmp_primary: snmp_primary_of(i.snmp_primary),
    }
}

pub open spec fn spec_node_from_wire(n: NodeServerModel) -> NodeModel {
    NodeModel {
        foreign_id: n.foreign_id,
        label: n.node_label,
        location: n.location,
        interfaces: n.interface.map_values(|i: InterfaceServerModel| spec_interface_from_wire(i)),
        categories: n.category.map_values(|c: CategoryRefModel| c.name),
        assets: assets_from_entries(n.asset),
    }
}

/// The local document for a server requisition and optional foreign
/// source: named after the requisition, without an unmodeled annotation.
pub open spec fn spec_requisition_from_wire(
    req: RequisitionServerModel,
    fs: Option<ForeignSourceServerModel>,
) -> RequisitionLocalModel {
    RequisitionLocalModel {
        api_version: ApiVersion,
        kind: Kind,
        metadata: MetadataModel { name: req.foreign_source, unmodeled: None },
        spec: SpecModel {
            foreign_source: match fs {
                Some(f) => Some(spec_foreign_source_from_wire(f)),
                None => None,
            },
            nodes: req.node.map_values(|n: NodeServerModel| spec_node_from_wire(n)),
        },
    }
}

fn parameter_from_wire(p: &ParameterEntry) -> (r: Parameter)
    ensures
        r@ == spec_parameter_from_wire(p@),
{
    Parameter { key: p.key.clone(), value: p.value.clone() }
}

fn parameters_from(v: &Vec<ParameterEntry>) -> (r: Vec<Parameter>)
    ensures
        r@.map_values(|x: Parameter| x@) == parameters_from_wire(
            v@.map_values(|x: ParameterEntry| x@),
        ),
{
    let mut r: Vec<Parameter> = Vec::new();
    let mut i: usize = 0;
    while i < v.len()
        invariant
            i <= v.len(),
            r.len() == i,
            forall|j: int| 0 <= j < i ==> #[trigger] r@[j]@ == spec_parameter_from_wire(v@[j]@),
        decreases v.len() - i,
    {
        r.push(parameter_from_wire(&v[i]));
        i = i + 1;
    }
    assert(r@.map_values(|x: Parameter| x@) =~= parameters_from_wire(
        v@.map_values(|x: ParameterEntry| x@),
    ));
    r
}

fn detector_from_wire(d: &DetectorServer) -> (r: Detector)
    ensures
        r@ == spec_detector_from_wire(d@),
{
    Detector {
        name: d.name.clone(),
        class: Some(d.class.clone()),
        parameters: parameters_from(&d.parameter),
    }
}

fn policy_from_wire(p: &PolicyServer) -> (r: Policy)
    ensures
        r@ == spec_policy_from_wire(p@),
{
    Policy { name: p.name.clone(), class: p.class.clone(), parameters: parameters_from(&p.parameter) }
}

fn foreign_source_from_wire(fs: &ForeignSourceServer) -> (r: ForeignSourceSpec)
    ensures
        r@ == spec_foreign_source_from_wire(fs@),
{
    let mut detectors: Vec<Detector> = Vec::new();
    let mut i: usize = 0;
    while i < fs.detectors.len()
        invariant
            i <= fs.detectors.len(),
            detectors.len() == i,
            forall|j: int|
                0 <= j < i ==> #[trigger] detectors@[j]@ == spec_detector_from_wire(
                    fs.detectors@[j]@,
                ),
        decreases fs.detectors.len() - i,
    {
        detectors.push(detector_from_wire(&fs.detectors[i]));
        i = i + 1;
    }
    let mut policies: Vec<Policy> = Vec::new();
    let mut i: usize = 0;
    while i < fs.policies.len()
        invariant
            i <= fs.policies.len(),
            policies.len() == i,
            forall|j: int|
                0 <= j < i ==> #[trigger] policies@[j]@ == spec_policy_from_wire(
                    fs.policies@[j]@,
                ),
        decreases fs.policies.len() - i,
    {
        policies.push(policy_from_wire(&fs.policies[i]));
        i = i + 1;
    }
    let r = ForeignSourceSpec { scan_interval: clone_opt(&fs.scan_interval), detectors, policies };
    assert(r@.detectors =~= spec_foreign_source_from_wire(fs@).detectors);
    assert(r@.policies =~= spec_foreign_source_from_wire(fs@).policies);
    r
}

/// The SNMP role named by a wire text.
pub fn parse_snmp_primary(t: &str) -> (r: Option<SnmpPrimary>)
    ensures
        r == snmp_primary_of(t@),
{
    let cs = crate::text::chars_of(t);
    if cs.len() != 1 {
        assert(t@.len() != 1);
        return None;
    }
    let c = cs[0];
    assert(t@ =~= seq![c]);
    if c == 'P' {
        Some(SnmpPrimary::P)
    } else if c == 'S' {
        Some(SnmpPrimary::S)
    } else if c == 'N' {
        Some(SnmpPrimary::N)
    } else {
        None
    }
}

fn interface_from_wire(i: &InterfaceServer) -> (r: Interface)
    ensures
        r@ == spec_interface_from_wire(i@),
{
    let mut services: Vec<String> = Vec::new();
    let mut k: usize = 0;
    while k < i.monitored_service.len()
        invariant
            k <= i.monitored_service.len(),
            services.len() == k,
            forall|j: int|
                0 <= j < k ==> #[trigger] services@[j]@ == i.monitored_service@[j]@.service_name,
        decreases i.monitored_service.len() - k,
    {
        services.push(i.monitored_service[k].service_name.clone());
        k = k + 1;
    }
    let r = Interface {
        ip: i.ip_addr.clone(),
        services,
        snmp_primary: parse_snmp_primary(i.snmp_primary.as_str()),
    };
    assert(r@.services =~= spec_interface_from_wire(i@).services);
    r
}

fn node_from_wire(n: &NodeServer) -> (r: Node)
    ensures
        r@ == spec_node_from_wire(n@),
{
    let mut assets = Assets::new();
    let mut k: usize = 0;
    while k < n.asset.len()
        invariant
            k <= n.asset.len(),
            assets@ == assets_from_entries(n@.asset.take(k as int)),
        decreases n.asset.len() - k,
    {
        assets.insert(n.asset[k].name.clone(), n.asset[k].value.clone());
        assert(n@.asset.take(k + 1).drop_last() == n@.asset.take(k as int));
        k = k + 1;
    }
    assert(n@.asset.take(n.asset.len() as int) == n@.asset);
    let mut interfaces: Vec<Interface> = Vec::new();
    let mut k: usize = 0;
    while k < n.interface.len()
        invariant
            k <= n.interface.len(),
            interfaces.len() == k,
            forall|j: int|
                0 <= j < k ==> #[trigger] interfaces@[j]@ == spec_interface_from_wire(
                    n.interface@[j]@,
                ),
        decreases n.interface.len() - k,
    {
        interfaces.push(interface_from_wire(&n.interface[k]));
        k = k + 1;
    }
    let mut categories: Vec<String> = Vec::new();
    let mut k: usize = 0;
    while k < n.category.len()
        invariant
            k <= n.category.len(),
            categories.len() == k,
            forall|j: int| 0 <= j < k ==> #[trigger] categories@[j]@ == n.category@[j]@.name,
        decreases n.category.len() - k,
    {
        categories.push(n.category[k].name.clone());
        k = k + 1;
    }
    let r = Node {
        foreign_id: n.foreign_id.clone(),
        label: n.node_label.clone(),
        location: clone_opt(&n.location),
        interfaces,
        categories,
        assets,
    };
    assert(r@.interfaces =~= spec_node_from_wire(n@).interfaces);
    assert(r@.categories =~= spec_node_from_wire(n@).categories);
    r
}

/// Builds the local document for a server requisition and an optional
/// foreign-source definition. Without one, the document omits
/// `spec.foreignSource` (the server's default applies).
pub fn requisition_from_wire(req: &RequisitionServer, fs: Option<&ForeignSourceServer>) -> (r:
    RequisitionLocal)
    ensures
        r@ == spec_requisition_from_wire(
            req@,
            match fs {
                Some(f) => Some(f@),
                None => None,
            },
        ),
{
    let mut nodes: Vec<Node> = Vec::new();
    let mut k: usize = 0;
    while k < req.node.len()
        invariant
            k <= req.node.len(),
            nodes.len() == k,
            forall|j: int| 0 <= j < k ==> #[trigger] nodes@[j]@ == spec_node_from_wire(req.node@[j]@),
        decreases req.node.len() - k,
    {
        nodes.push(node_from_wire(&req.node[k]));
        k = k + 1;
    }
    let foreign_source = match fs {
        Some(f) => Some(foreign_source_from_wire(f)),
        None => None,
    };
    let r = RequisitionLocal {
        api_version: ApiVersion,
        kind: Kind,
        metadata: Metadata { name: req.foreign_source.clone(), unmodeled: None },
        spec: Spec { foreign_source, nodes },
    };
    assert(r@.spec.nodes =~= req@.node.map_values(|n: NodeServerModel| spec_node_from_wire(n)));
    r
}

// ---------------------------------------------------------------------------
// Local → server
// ---------------------------------------------------------------------------

pub open spec fn spec_parameter_to_wire(p: ParameterModel) -> ParameterEntryModel {
    ParameterEntryModel { key: p.key, value: p.value }
}

pub open spec fn parameters_to_wire(s: Seq<ParameterModel>) -> Seq<ParameterEntryModel> {
    s.map_values(|p: ParameterModel| spec_parameter_to_wire(p))
}

/// An absent detector class goes on the wire as the empty text.
pub open spec fn spec_detector_to_wire(d: DetectorModel) -> DetectorServerModel {
    DetectorServerModel {
        name: d.name,
        class: match d.class {
            Some(c) => c,
            None => Seq::empty(),
        },
        parameter: parameters_to_wire(d.parameters),
    }
}

pub open spec fn spec_policy_to_wire(p: PolicyModel) -> PolicyServerModel {
    PolicyServerModel { name: p.name, class: p.class, parameter: parameters_to_wire(p.parameters) }
}

/// The foreign source named `name` on the wire.
pub open spec fn spec_foreign_source_to_wire(name: Seq<char>, fs: ForeignSourceSpecModel) -> ForeignSourceServerModel {
    ForeignSourceServerModel {
        name: name,
        date_stamp: None,
        scan_interval: fs.scan_interval,
        detectors: fs.detectors.map_values(|d: DetectorModel| spec_detector_to_wire(d)),
        policies: fs.policies.map_values(|p: PolicyModel| spec_policy_to_wire(p)),
    }
}

/// The wire text of an SNMP role; an unset role is "not eligible".
pub open spec fn snmp_primary_text(p: Option<SnmpPrimary>) -> Seq<char> {
    match p {
        Some(SnmpPrimary::P) => seq!['P'],
        Some(SnmpPrimary::S) => seq!['S'],
        _ => seq!['N'],
    }
}

pub open spec fn service_to_wire(s: Seq<char>) -> MonitoredServiceServerModel {
    MonitoredServiceServerModel { service_name: s, category: Seq::empty(), meta_data: Seq::empty() }
}

pub open spec fn spec_interface_to_wire(i: InterfaceModel) -> InterfaceServerModel {
    InterfaceServerModel {
        ip_addr: i.ip,
        snmp_primary: snmp_primary_text(i.snmp_primary),
        status: None,
        managed: None,
        descr: None,
        monitored_service: i.services.map_values(|s: Seq<char>| service_to_wire(s)),
        category: Seq::empty(),
        meta_data: Seq::empty(),
    }
}

pub open spec fn spec_node_to_wire(n: NodeModel) -> NodeServerModel {
    NodeServerModel {
        foreign_id: n.foreign_id,
        node_label: n.label,
        location: n.location,
        building: None,
        city: None,
        parent_foreign_source: None,
        parent_foreign_id: None,
        parent_node_label: None,
        interface: n.interfaces.map_values(|i: InterfaceModel| spec_interface_to_wire(i)),
        category: n.categories.map_values(|c: Seq<char>| CategoryRefModel { name: c }),
        asset: n.assets.map_values(
            |a: (Seq<char>, Seq<char>)| AssetEntryModel { name: a.0, value: a.1 },
        ),
        meta_data: Seq::empty(),
    }
}

/// The wire requisition of a document, and its foreign source when the
/// document declares one. The unmodeled annotation does not go on the
/// wire.
pub open spec fn spec_requisition_to_wire(local: RequisitionLocalModel) -> (
    RequisitionServerModel,
    Option<ForeignSourceServerModel>,
) {
    (
        RequisitionServerModel {
            foreign_source: local.metadata.name,
            date_stamp: None,
            last_import: None,
            node: local.spec.nodes.map_values(|n: NodeModel| spec_node_to_wire(n)),
        },
        match local.spec.foreign_source {
            Some(f) => Some(spec_foreign_source_to_wire(local.metadata.name, f)),
            None => None,
        },
    )
}

fn parameters_to(v: &Vec<Parameter>) -> (r: Vec<ParameterEntry>)
    ensures
        r@.map_values(|x: ParameterEntry| x@) == parameters_to_wire(
            v@.map_values(|x: Parameter| x@),
        ),
{
    let mut r: Vec<ParameterEntry> = Vec::new();
    let mut i: usize = 0;
    while i < v.len()
        invariant
            i <= v.len(),
            r.len() == i,
            forall|j: int| 0 <= j < i ==> #[trigger] r@[j]@ == spec_parameter_to_wire(v@[j]@),
        decreases v.len() - i,
    {
        r.push(ParameterEntry { key: v[i].key.clone(), value: v[i].value.clone() });
        i = i + 1;
    }
    assert(r@.map_values(|x: ParameterEntry| x@) =~= parameters_to_wire(
        v@.map_values(|x: Parameter| x@),
    ));
    r
}

fn detector_to_wire(d: &Detector) -> (r: DetectorServer)
    ensures
        r@ == spec_detector_to_wire(d@),
{
    let class = match &d.class {
        Some(c) => c.clone(),
        None => String::new(),
    };
    DetectorServer { name: d.name.clone(), class, parameter: parameters_to(&d.parameters) }
}

fn policy_to_wire(p: &Policy) -> (r: PolicyServer)
    ensures
        r@ == spec_policy_to_wire(p@),
{
    PolicyServer { name: p.name.clone(), class: p.class.clone(), parameter: parameters_to(&p.parameters) }
}

fn foreign_source_to_wire(name: &str, fs: &ForeignSourceSpec) -> (r: ForeignSourceServer)
    ensures
        r@ == spec_foreign_source_to_wire(name@, fs@),
{
    let mut detectors: Vec<DetectorServer> = Vec::new();
    let mut i: usize = 0;
    while i < fs.detectors.len()
        invariant
            i <= fs.detectors.len(),
            detectors.len() == i,
            forall|j: int|
                0 <= j < i ==> #[trigger] detectors@[j]@ == spec_detector_to_wire(
                    fs.detectors@[j]@,
                ),
        decreases fs.detectors.len() - i,
    {
        detectors.push(detector_to_wire(&fs.detectors[i]));
        i = i + 1;
    }
    let mut policies: Vec<PolicyServer> = Vec::new();
    let mut i: usize = 0;
    while i < fs.policies.len()
        invariant
            i <= fs.policies.len(),
            policies.len() == i,
            forall|j: int|
                0 <= j < i ==> #[trigger] policies@[j]@ == spec_policy_to_wire(fs.policies@[j]@),
        decreases fs.policies.len() - i,
    {
        policies.push(policy_to_wire(&fs.policies[i]));
        i = i + 1;
    }
    let r = ForeignSourceServer {
        name: crate::text::own(name),
        date_stamp: None,
        scan_interval: clone_opt(&fs.scan_interval),
        detectors,
        policies,
    };
    assert(r@.detectors =~= spec_foreign_source_to_wire(name@, fs@).detectors);
    assert(r@.policies =~= spec_foreign_source_to_wire(name@, fs@).policies);
    r
}

fn interface_to_wire(i: &Interface) -> (r: InterfaceServer)
    ensures
        r@ == spec_interface_to_wire(i@),
{
    let mut services: Vec<MonitoredServiceServer> = Vec::new();
    let mut k: usize = 0;
    while k < i.services.len()
        invariant
            k <= i.services.len(),
            services.len() == k,
            forall|j: int| 0 <= j < k ==> #[trigger] services@[j]@ == service_to_wire(i.services@[j]@),
        decreases i.services.len() - k,
    {
        let s = MonitoredServiceServer {
            service_name: i.services[k].clone(),
            category: Vec::new(),
            meta_data: Vec::new(),
        };
        assert(s@.category =~= Seq::<CategoryRefModel>::empty());
        assert(s@.meta_data =~= Seq::<crate::provisioning::server::MetaDataEntryModel>::empty());
        services.push(s);
        k = k + 1;
    }
    let text = match i.snmp_primary {
        Some(SnmpPrimary::P) => "P",
        Some(SnmpPrimary::S) => "S",
        _ => "N",
    };
    proof {
        reveal_strlit("P");
        reveal_strlit("S");
        reveal_strlit("N");
        assert("P"@ =~= seq!['P']);
        assert("S"@ =~= seq!['S']);
        assert("N"@ =~= seq!['N']);
    }
    assert(text@ == snmp_primary_text(i@.snmp_primary));
    let r = InterfaceServer {
        ip_addr: i.ip.clone(),
        snmp_primary: crate::text::own(text),
        status: None,
        managed: None,
        descr: None,
        monitored_service: services,
        category: Vec::new(),
        meta_data: Vec::new(),
    };
    assert(r@.monitored_service =~= spec_interface_to_wire(i@).monitored_service);
    assert(r@.category =~= spec_interface_to_wire(i@).category);
    assert(r@.meta_data =~= spec_interface_to_wire(i@).meta_data);
    r
}

fn node_to_wire(n: &Node) -> (r: NodeServer)
    ensures
        r@ == spec_node_to_wire(n@),
{
    let mut interface: Vec<InterfaceServer> = Vec::new();
    let mut k: usize = 0;
    while k < n.interfaces.len()
        invariant
            k <= n.interfaces.len(),
            interface.len() == k,
            forall|j: int|
                0 <= j < k ==> #[trigger] interface@[j]@ == spec_interface_to_wire(
                    n.interfaces@[j]@,
                ),
        decreases n.interfaces.len() - k,
    {
        interface.push(interface_to_wire(&n.interfaces[k]));
        k = k + 1;
    }
    let mut category: Vec<CategoryRef> = Vec::new();
    let mut k: usize = 0;
    while k < n.categories.len()
        invariant
            k <= n.categories.len(),
            category.len() == k,
            forall|j: int|
                0 <= j < k ==> #[trigger] category@[j]@ == (CategoryRefModel {
                    name: n.categories@[j]@,
                }),
        decreases n.categories.len() - k,
    {
        category.push(CategoryRef { name: n.categories[k].clone() });
        k = k + 1;
    }
    let mut asset: Vec<AssetEntry> = Vec::new();
    let mut k: usize = 0;
    let count = n.assets.len();
    while k < count
        invariant
            k <= count,
            count == n.assets@.len(),
            asset.len() == k,
            forall|j: int|
                0 <= j < k ==> (#[trigger] asset@[j]@).name == n.assets@[j].0 && asset@[j]@.value
                    == n.assets@[j].1,
        decreases count - k,
    {
        asset.push(AssetEntry { name: n.assets.name_at(k).clone(), value: n.assets.value_at(k).clone() });
        k = k + 1;
    }
    let r = NodeServer {
        foreign_id: n.foreign_id.clone(),
        node_label: n.label.clone(),
        location: clone_opt(&n.location),
        building: None,
        city: None,
        parent_foreign_source: None,
        parent_foreign_id: None,
        parent_node_label: None,
        interface,
        category,
        asset,
        meta_data: Vec::new(),
    };
    assert(r@.interface =~= spec_node_to_wire(n@).interface);
    assert(r@.category =~= spec_node_to_wire(n@).category);
    assert(r@.asset =~= spec_node_to_wire(n@).asset);
    assert(r@.meta_data =~= spec_node_to_wire(n@).meta_data);
    r
}

/// Builds the wire requisition of a document, and its foreign source when
/// the document declares one.
pub fn requisition_to_wire(local: &RequisitionLocal) -> (r: (RequisitionServer, Option<ForeignSourceServer>))
    ensures
        r.0@ == spec_requisition_to_wire(local@).0,
        match r.1 {
            Some(f) => spec_requisition_to_wire(local@).1 == Some(f@),
            None => spec_requisition_to_wire(local@).1 is None,
        },
{
    let mut node: Vec<NodeServer> = Vec::new();
    let mut k: usize = 0;
    while k < local.spec.nodes.len()
        invariant
            k <= local.spec.nodes.len(),
            node.len() == k,
            forall|j: int|
                0 <= j < k ==> #[trigger] node@[j]@ == spec_node_to_wire(local.spec.nodes@[j]@),
        decreases local.spec.nodes.len() - k,
    {
        node.push(node_to_wire(&local.spec.nodes[k]));
        k = k + 1;
    }
    let req = RequisitionServer {
        foreign_source: local.metadata.name.clone(),
        date_stamp: None,
        last_import: None,
        node,
    };
    assert(req@.node =~= spec_requisition_to_wire(local@).0.node);
    let fs = match &local.spec.foreign_source {
        Some(f) => Some(foreign_source_to_wire(local.metadata.name.as_str(), f)),
        None => None,
    };
    (req, fs)
}

// ---------------------------------------------------------------------------
// Round trip
// ---------------------------------------------------------------------------

/// Inserting a name above every existing one appends the record.
proof fn lemma_insert_append(t: Seq<(Seq<char>, Seq<char>)>, k: Seq<char>, v: Seq<char>)
    requires
        forall|i: int| 0 <= i < t.len() ==> lex_lt(#[trigger] t[i].0, k),
    ensures
        asset_insert(t, k, v) == t.push((k, v)),
    decreases t.len(),
{
    if t.len() > 0 {
        lemma_lex_irrefl(k);
        lemma_lex_asym(t[0].0, k);
        let d = t.drop_first();
        assert forall|i: int| 0 <= i < d.len() implies lex_lt(#[trigger] d[i].0, k) by {
            assert(d[i] == t[i + 1]);
        }
        lemma_insert_append(d, k, v);
        assert(seq![t[0]] + d.push((k, v)) =~= t.push((k, v)));
    }
}

/// Rebuilding an ordered asset map from its records gives it back.
proof fn lemma_assets_round_trip(s: Seq<(Seq<char>, Seq<char>)>)
    requires
        names_ascending(s),
    ensures
        assets_from_entries(
            s.map_values(|a: (Seq<char>, Seq<char>)| AssetEntryModel { name: a.0, value: a.1 }),
        ) == s,
    decreases s.len(),
{
    let e = s.map_values(|a: (Seq<char>, Seq<char>)| AssetEntryModel { name: a.0, value: a.1 });
    if s.len() > 0 {
        let d = s.drop_last();
        assert(names_ascending(d)) by {
            assert forall|i: int, j: int| 0 <= i < j < d.len() implies lex_lt(
                #[trigger] d[i].0,
                #[trigger] d[j].0,
            ) by {
                assert(d[i] == s[i] && d[j] == s[j]);
            }
        }
        lemma_assets_round_trip(d);
        assert(e.drop_last() =~= d.map_values(
            |a: (Seq<char>, Seq<char>)| AssetEntryModel { name: a.0, value: a.1 },
        ));
        assert forall|i: int| 0 <= i < d.len() implies lex_lt(#[trigger] d[i].0, s.last().0) by {
            assert(d[i] == s[i]);
        }
        lemma_insert_append(d, s.last().0, s.last().1);
        assert(d.push((s.last().0, s.last().1)) =~= s);
    }
}

/// The documents whose wire round trip is lossless: no unmodeled
/// annotation, every detector with a class, every interface with an SNMP
/// role, asset names ascending.
pub open spec fn wire_representable(l: RequisitionLocalModel) -> bool {
    &&& l.metadata.unmodeled is None
    &&& (match l.spec.foreign_source {
        Some(f) => forall|i: int| 0 <= i < f.detectors.len() ==> (#[trigger] f.detectors[i]).class is Some,
        None => true,
    })
    &&& forall|i: int, j: int|
        0 <= i < l.spec.nodes.len() && 0 <= j < l.spec.nodes[i].interfaces.len()
            ==> (#[trigger] l.spec.nodes[i].interfaces[j]).snmp_primary is Some
    &&& forall|i: int| 0 <= i < l.spec.nodes.len() ==> names_ascending(#[trigger] l.spec.nodes[i].assets)
}

/// Converting a document to the wire and back gives the document back,
/// for every document the wire can represent.
pub proof fn lemma_wire_round_trip(l: RequisitionLocalModel)
    requires
        wire_representable(l),
    ensures
        spec_requisition_from_wire(spec_requisition_to_wire(l).0, spec_requisition_to_wire(l).1)
            == l,
{
    let w = spec_requisition_to_wire(l);
    let back = spec_requisition_from_wire(w.0, w.1);
    assert forall|i: int| 0 <= i < l.spec.nodes.len() implies spec_node_from_wire(
        spec_node_to_wire(#[trigger] l.spec.nodes[i]),
    ) == l.spec.nodes[i] by {
        let n = l.spec.nodes[i];
        let nw = spec_node_to_wire(n);
        let nb = spec_node_from_wire(nw);
        assert forall|j: int| 0 <= j < n.interfaces.len() implies spec_interface_from_wire(
            spec_interface_to_wire(#[trigger] n.interfaces[j]),
        ) == n.interfaces[j] by {
            let it = n.interfaces[j];
            assert(l.spec.nodes[i].interfaces[j].snmp_primary is Some);
            let ib = spec_interface_from_wire(spec_interface_to_wire(it));
            assert(ib.services =~= it.services);
            assert(seq!['S'][0] != seq!['P'][0]);
            assert(seq!['N'][0] != seq!['P'][0]);
            assert(seq!['N'][0] != seq!['S'][0]);
        }
        assert(nb.interfaces =~= n.interfaces);
        assert(nb.categories =~= n.categories);
        lemma_assets_round_trip(n.assets);
    }
    assert(back.spec.nodes =~= l.spec.nodes);
    match l.spec.foreign_source {
        Some(f) => {
            let fb = spec_foreign_source_from_wire(spec_foreign_source_to_wire(l.metadata.name, f));
            assert forall|i: int| 0 <= i < f.detectors.len() implies spec_detector_from_wire(
                spec_detector_to_wire(#[trigger] f.detectors[i]),
            ) == f.detectors[i] by {
                let d = f.detectors[i];
                assert(spec_detector_from_wire(spec_detector_to_wire(d)).parameters
                    =~= d.parameters);
            }
            assert forall|i: int| 0 <= i < f.policies.len() implies spec_policy_from_wire(
                spec_policy_to_wire(#[trigger] f.policies[i]),
            ) == f.policies[i] by {
                let p = f.policies[i];
                assert(spec_policy_from_wire(spec_policy_to_wire(p)).parameters =~= p.parameters);
            }
            assert(fb.detectors =~= f.detectors);
            assert(fb.policies =~= f.policies);
        },
        None => {},
    }
}


/// The value of the last wire asset record named `name`, if any.
pub open spec fn last_asset_value(s: Seq<AssetEntryModel>, name: Seq<char>) -> Option<Seq<char>>
    decreases s.len(),
{
    if s.len() == 0 {
        None
    } else if s.last().name == name {
        Some(s.last().value)
    } else {
        last_asset_value(s.drop_last(), name)
    }
}

/// Importing assets from the wire: of several records with one name, the
/// last one's value wins; a name without a record has no value.
pub proof fn lemma_assets_last_wins(s: Seq<AssetEntryModel>, name: Seq<char>)
    ensures
        crate::provisioning::model::asset_get(assets_from_entries(s), name) == last_asset_value(s, name),
    decreases s.len(),
{
    if s.len() > 0 {
        lemma_assets_last_wins(s.drop_last(), name);
        if s.last().name == name {
            crate::provisioning::model::lemma_asset_get_insert_same(
                assets_from_entries(s.drop_last()),
                name,
                s.last().value,
            );
        } else {
            crate::provisioning::model::lemma_asset_get_insert_other(
                assets_from_entries(s.drop_last()),
                s.last().name,
                s.last().value,
                name,
            );
        }
    }
}

/// Importing a requisition from the wire: the document is named after the
/// requisition, carries no annotation, has a foreign-source block exactly
/// when one was given, keeps the nodes in wire order, drops an SNMP role
/// other than `P`, `S`, `N`, and gives every detector its wire class.
pub proof fn lemma_from_wire_shape(req: RequisitionServerModel, fs: Option<ForeignSourceServerModel>)
    ensures
        ({
            let r = spec_requisition_from_wire(req, fs);
            &&& r.metadata.name == req.foreign_source
            &&& r.metadata.unmodeled is None
            &&& (r.spec.foreign_source is Some) == (fs is Some)
            &&& r.spec.nodes.len() == req.node.len()
            &&& forall|i: int| 0 <= i < req.node.len() ==> (#[trigger] r.spec.nodes[i]).foreign_id
                == req.node[i].foreign_id
            &&& forall|i: int, j: int|
                0 <= i < req.node.len() && 0 <= j < req.node[i].interface.len() ==> {
                    let t = req.node[i].interface[j].snmp_primary;
                    (#[trigger] r.spec.nodes[i].interfaces[j]).snmp_primary is None <==> (t
                        != seq!['P'] && t != seq!['S'] && t != seq!['N'])
                }
            &&& fs matches Some(f) ==> forall|k: int| 0 <= k < f.detectors.len()
                ==> (#[trigger] r.spec.foreign_source.unwrap().detectors[k]).class == Some(
                f.detectors[k].class,
            )
        }),
{
}

/// Projecting a document onto the wire: the requisition is named after the
/// document, without time stamps; the nodes keep their order and their
/// foreign id, label and location; each node's categories keep their order
/// and its assets their (ascending) order; each interface keeps its
/// address and its services in order; an interface's SNMP role is
/// written `P`, `S`, or `N` (also when absent); the foreign source goes
/// along exactly when the document has one, under the document's name,
/// each detector with its class (empty when absent).
pub proof fn lemma_to_wire_shape(local: RequisitionLocalModel)
    ensures
        ({
            let (r, f) = spec_requisition_to_wire(local);
            let nodes = local.spec.nodes;
            &&& r.foreign_source == local.metadata.name
            &&& r.date_stamp is None && r.last_import is None
            &&& r.node.len() == nodes.len()
            &&& forall|i: int| 0 <= i < nodes.len() ==> {
                let w = #[trigger] r.node[i];
                &&& w.foreign_id == nodes[i].foreign_id
                &&& w.node_label == nodes[i].label
                &&& w.location == nodes[i].location
                &&& w.category.len() == nodes[i].categories.len()
                &&& (forall|k: int| 0 <= k < nodes[i].categories.len() ==> (#[trigger] w.category[k]).name
                    == nodes[i].categories[k])
                &&& w.asset.len() == nodes[i].assets.len()
                &&& (forall|k: int| 0 <= k < nodes[i].assets.len() ==> (#[trigger] w.asset[k]).name
                    == nodes[i].assets[k].0 && w.asset[k].value == nodes[i].assets[k].1)
                &&& w.interface.len() == nodes[i].interfaces.len()
                &&& (forall|k: int| 0 <= k < nodes[i].interfaces.len() ==> (#[trigger] w.interface[k]).snmp_primary
                    == snmp_primary_text(nodes[i].interfaces[k].snmp_primary) && w.interface[k].ip_addr
                    == nodes[i].interfaces[k].ip && w.interface[k].monitored_service.len()
                    == nodes[i].interfaces[k].services.len() && (forall|m: int|
                    0 <= m < nodes[i].interfaces[k].services.len() ==> (
                    #[trigger] w.interface[k].monitored_service[m]).service_name
                        == nodes[i].interfaces[k].services[m]))
            }
            &&& (f is Some) == (local.spec.foreign_source is Some)
            &&& f matches Some(fw) ==> fw.name == local.metadata.name && fw.detectors.len()
                == local.spec.foreign_source.unwrap().detectors.len() && forall|k: int|
                0 <= k < fw.detectors.len() ==> (#[trigger] fw.detectors[k]).class == match local.spec.foreign_source.unwrap().detectors[k].class {
                    Some(c) => c,
                    None => Seq::empty(),
                }
        }),
{
}

} // verus!
