//! Wire-format types of the requisition and foreign-source REST endpoints.

use vstd::prelude::*;
use crate::text::{clone_opt, clone_strs, ostr, strs};

verus! {

/// A requisition as the REST API carries it.
#[derive(Clone, Debug, PartialEq, Eq)]
pub struct RequisitionServer {
    pub foreign_source: String,
    pub date_stamp: Option<i64>,
    pub last_import: Option<i64>,
    pub node: Vec<NodeServer>,
}

/// The mathematical model of [`RequisitionServer`].
pub struct RequisitionServerModel {
    pub foreign_source: Seq<char>,
    pub date_stamp: Option<i64>,
    pub last_import: Option<i64>,
    pub node: Seq<NodeServerModel>,
}

impl View for RequisitionServer {
    type V = RequisitionServerModel;

    open spec fn view(&self) -> RequisitionServerModel {
        RequisitionServerModel {
            foreign_source: self.foreign_source@,
            date_stamp: self.date_stamp,
            last_import: self.last_import,
            node: self.node@.map_values(|v: NodeServer| v@),
        }
    }
}

impl RequisitionServer {
    /// A copy with the same model.
    pub fn duplicate(&self) -> (r: Self)
        ensures
            r@ == self@,
    {
        RequisitionServer {
            foreign_source: self.foreign_source.clone(),
            date_stamp: self.date_stamp,
            last_import: self.last_import,
            node: NodeServer::duplicate_all(&self.node),
        }
    }

}

/// A node on the wire.
#[derive(Clone, Debug, PartialEq, Eq)]
pub struct NodeServer {
    pub foreign_id: String,
    pub node_label: String,
    pub location: Option<String>,
    pub building: Option<String>,
    pub city: Option<String>,
    pub parent_foreign_source: Option<String>,
    pub parent_foreign_id: Option<String>,
    pub parent_node_label: Option<String>,
    pub interface: Vec<InterfaceServer>,
    pub category: Vec<CategoryRef>,
    pub asset: Vec<AssetEntry>,
    pub meta_data: Vec<MetaDataEntry>,
}

/// The mathematical model of [`NodeServer`].
pub struct NodeServerModel {
    pub foreign_id: Seq<char>,
    pub node_label: Seq<char>,
    pub location: Option<Seq<char>>,
    pub building: Option<Seq<char>>,
    pub city: Option<Seq<char>>,
    pub parent_foreign_source: Option<Seq<char>>,
    pub parent_foreign_id: Option<Seq<char>>,
    pub parent_node_label: Option<Seq<char>>,
    pub interface: Seq<InterfaceServerModel>,
    pub category: Seq<CategoryRefModel>,
    pub asset: Seq<AssetEntryModel>,
    pub meta_data: Seq<MetaDataEntryModel>,
}

impl View for NodeServer {
    type V = NodeServerModel;

    open spec fn view(&self) -> NodeServerModel {
        NodeServerModel {
            foreign_id: self.foreign_id@,
            node_label: self.node_label@,
            location: ostr(self.location),
            building: ostr(self.building),
            city: ostr(self.city),
            parent_foreign_source: ostr(self.parent_foreign_source),
            parent_foreign_id: ostr(self.parent_foreign_id),
            parent_node_label: ostr(self.parent_node_label),
            interface: self.interface@.map_values(|v: InterfaceServer| v@),
            category: self.category@.map_values(|v: CategoryRef| v@),
            asset: self.asset@.map_values(|v: AssetEntry| v@),
            meta_data: self.meta_data@.map_values(|v: MetaDataEntry| v@),
        }
    }
}

impl NodeServer {
    /// A copy with the same model.
    pub fn duplicate(&self) -> (r: Self)
        ensures
            r@ == self@,
    {
        NodeServer {
            foreign_id: self.foreign_id.clone(),
            node_label: self.node_label.clone(),
            location: clone_opt(&self.location),
            building: clone_opt(&self.building),
            city: clone_opt(&self.city),
            parent_foreign_source: clone_opt(&self.parent_foreign_source),
            parent_foreign_id: clone_opt(&self.parent_foreign_id),
            parent_node_label: clone_opt(&self.parent_node_label),
            interface: InterfaceServer::duplicate_all(&self.interface),
            category: CategoryRef::duplicate_all(&self.category),
            asset: AssetEntry::duplicate_all(&self.asset),
            meta_data: MetaDataEntry::duplicate_all(&self.meta_data),
        }
    }

    /// Copies of every element, in order.
    pub fn duplicate_all(v: &Vec<Self>) -> (r: Vec<Self>)
        ensures
            r@.map_values(|x: Self| x@) == v@.map_values(|x: Self| x@),
            r.len() == v.len(),
    {
        let mut r: Vec<Self> = Vec::new();
        let mut i: usize = 0;
        while i < v.len()
            invariant
                i <= v.len(),
                r.len() == i,
                forall|j: int| 0 <= j < i ==> #[trigger] r@[j]@ == v@[j]@,
            decreases v.len() - i,
        {
            r.push(v[i].duplicate());
            i = i + 1;
        }
        assert(r@.map_values(|x: Self| x@) =~= v@.map_values(|x: Self| x@));
        r
    }
}

/// An interface on the wire; `snmp_primary` is `P`, `S` or `N`.
#[derive(Clone, Debug, PartialEq, Eq)]
pub struct InterfaceServer {
    pub ip_addr: String,
    pub snmp_primary: String,
    pub status: Option<i32>,
    pub managed: Option<String>,
    pub descr: Option<String>,
    pub monitored_service: Vec<MonitoredServiceServer>,
    pub category: Vec<CategoryRef>,
    pub meta_data: Vec<MetaDataEntry>,
}

/// The mathematical model of [`InterfaceServer`].
pub struct InterfaceServerModel {
    pub ip_addr: Seq<char>,
    pub snmp_primary: Seq<char>,
    pub status: Option<i32>,
    pub managed: Option<Seq<char>>,
    pub descr: Option<Seq<char>>,
    pub monitored_service: Seq<MonitoredServiceServerModel>,
    pub category: Seq<CategoryRefModel>,
    pub meta_data: Seq<MetaDataEntryModel>,
}

impl View for InterfaceServer {
    type V = InterfaceServerModel;

    open spec fn view(&self) -> InterfaceServerModel {
        InterfaceServerModel {
            ip_addr: self.ip_addr@,
            snmp_primary: self.snmp_primary@,
            status: self.status,
            managed: ostr(self.managed),
            descr: ostr(self.descr),
            monitored_service: self.monitored_service@.map_values(|v: MonitoredServiceServer| v@),
            category: self.category@.map_values(|v: CategoryRef| v@),
            meta_data: self.meta_data@.map_values(|v: MetaDataEntry| v@),
        }
    }
}

impl InterfaceServer {
    /// A copy with the same model.
    pub fn duplicate(&self) -> (r: Self)
        ensures
            r@ == self@,
    {
        InterfaceServer {
            ip_addr: self.ip_addr.clone(),
            snmp_primary: self.snmp_primary.clone(),
            status: self.status,
            managed: clone_opt(&self.managed),
            descr: clone_opt(&self.descr),
            monitored_service: MonitoredServiceServer::duplicate_all(&self.monitored_service),
            category: CategoryRef::duplicate_all(&self.category),
            meta_data: MetaDataEntry::duplicate_all(&self.meta_data),
        }
    }

    /// Copies of every element, in order.
    pub fn duplicate_all(v: &Vec<Self>) -> (r: Vec<Self>)
        ensures
            r@.map_values(|x: Self| x@) == v@.map_values(|x: Self| x@),
            r.len() == v.len(),
    {
        let mut r: Vec<Self> = Vec::new();
        let mut i: usize = 0;
        while i < v.len()
            invariant
                i <= v.len(),
                r.len() == i,
                forall|j: int| 0 <= j < i ==> #[trigger] r@[j]@ == v@[j]@,
            decreases v.len() - i,
        {
            r.push(v[i].duplicate());
            i = i + 1;
        }
        assert(r@.map_values(|x: Self| x@) =~= v@.map_values(|x: Self| x@));
        r
    }
}

/// A monitored service on the wire.
#[derive(Clone, Debug, PartialEq, Eq)]
pub struct MonitoredServiceServer {
    pub service_name: String,
    pub category: Vec<CategoryRef>,
    pub meta_data: Vec<MetaDataEntry>,
}

/// The mathematical model of [`MonitoredServiceServer`].
pub struct MonitoredServiceServerModel {
    pub service_name: Seq<char>,
    pub category: Seq<CategoryRefModel>,
    pub meta_data: Seq<MetaDataEntryModel>,
}

impl View for MonitoredServiceServer {
    type V = MonitoredServiceServerModel;

    open spec fn view(&self) -> MonitoredServiceServerModel {
        MonitoredServiceServerModel {
            service_name: self.service_name@,
            category: self.category@.map_values(|v: CategoryRef| v@),
            meta_data: self.meta_data@.map_values(|v: MetaDataEntry| v@),
        }
    }
}

impl MonitoredServiceServer {
    /// A copy with the same model.
    pub fn duplicate(&self) -> (r: Self)
        ensures
            r@ == self@,
    {
        MonitoredServiceServer {
            service_name: self.service_name.clone(),
            category: CategoryRef::duplicate_all(&self.category),
            meta_data: MetaDataEntry::duplicate_all(&self.meta_data),
        }
    }

    /// Copies of every element, in order.
    pub fn duplicate_all(v: &Vec<Self>) -> (r: Vec<Self>)
        ensures
            r@.map_values(|x: Self| x@) == v@.map_values(|x: Self| x@),
            r.len() == v.len(),
    {
        let mut r: Vec<Self> = Vec::new();
        let mut i: usize = 0;
        while i < v.len()
            invariant
                i <= v.len(),
                r.len() == i,
                forall|j: int| 0 <= j < i ==> #[trigger] r@[j]@ == v@[j]@,
            decreases v.len() - i,
        {
            r.push(v[i].duplicate());
            i = i + 1;
        }
        assert(r@.map_values(|x: Self| x@) =~= v@.map_values(|x: Self| x@));
        r
    }
}

/// A category reference on the wire.
#[derive(Clone, Debug, PartialEq, Eq)]
pub struct CategoryRef {
    pub name: String,
}

/// The mathematical model of [`CategoryRef`].
pub struct CategoryRefModel {
    pub name: Seq<char>,
}

impl View for CategoryRef {
    type V = CategoryRefModel;

    open spec fn view(&self) -> CategoryRefModel {
        CategoryRefModel {
            name: self.name@,
        }
    }
}

impl CategoryRef {
    /// A copy with the same model.
    pub fn duplicate(&self) -> (r: Self)
        ensures
            r@ == self@,
    {
        CategoryRef {
            name: self.name.clone(),
        }
    }

    /// Copies of every element, in order.
    pub fn duplicate_all(v: &Vec<Self>) -> (r: Vec<Self>)
        ensures
            r@.map_values(|x: Self| x@) == v@.map_values(|x: Self| x@),
            r.len() == v.len(),
    {
        let mut r: Vec<Self> = Vec::new();
        let mut i: usize = 0;
        while i < v.len()
            invariant
                i <= v.len(),
                r.len() == i,
                forall|j: int| 0 <= j < i ==> #[trigger] r@[j]@ == v@[j]@,
            decreases v.len() - i,
        {
            r.push(v[i].duplicate());
            i = i + 1;
        }
        assert(r@.map_values(|x: Self| x@) =~= v@.map_values(|x: Self| x@));
        r
    }
}

/// An asset record on the wire.
#[derive(Clone, Debug, PartialEq, Eq)]
pub struct AssetEntry {
    pub name: String,
    pub value: String,
}

/// The mathematical model of [`AssetEntry`].
pub struct AssetEntryModel {
    pub name: Seq<char>,
    pub value: Seq<char>,
}

impl View for AssetEntry {
    type V = AssetEntryModel;

    open spec fn view(&self) -> AssetEntryModel {
        AssetEntryModel {
            name: self.name@,
            value: self.value@,
        }
    }
}

impl AssetEntry {
    /// A copy with the same model.
    pub fn duplicate(&self) -> (r: Self)
        ensures
            r@ == self@,
    {
        AssetEntry {
            name: self.name.clone(),
            value: self.value.clone(),
        }
    }

    /// Copies of every element, in order.
    pub fn duplicate_all(v: &Vec<Self>) -> (r: Vec<Self>)
        ensures
            r@.map_values(|x: Self| x@) == v@.map_values(|x: Self| x@),
            r.len() == v.len(),
    {
        let mut r: Vec<Self> = Vec::new();
        let mut i: usize = 0;
        while i < v.len()
            invariant
                i <= v.len(),
                r.len() == i,
                forall|j: int| 0 <= j < i ==> #[trigger] r@[j]@ == v@[j]@,
            decreases v.len() - i,
        {
            r.push(v[i].duplicate());
            i = i + 1;
        }
        assert(r@.map_values(|x: Self| x@) =~= v@.map_values(|x: Self| x@));
        r
    }
}

/// A metadata entry on the wire.
#[derive(Clone, Debug, PartialEq, Eq)]
pub struct MetaDataEntry {
    pub context: String,
    pub key: String,
    pub value: String,
}

/// The mathematical model of [`MetaDataEntry`].
pub struct MetaDataEntryModel {
    pub context: Seq<char>,
    pub key: Seq<char>,
    pub value: Seq<char>,
}

impl View for MetaDataEntry {
    type V = MetaDataEntryModel;

    open spec fn view(&self) -> MetaDataEntryModel {
        MetaDataEntryModel {
            context: self.context@,
            key: self.key@,
            value: self.value@,
        }
    }
}

impl MetaDataEntry {
    /// A copy with the same model.
    pub fn duplicate(&self) -> (r: Self)
        ensures
            r@ == self@,
    {
        MetaDataEntry {
            context: self.context.clone(),
            key: self.key.clone(),
            value: self.value.clone(),
        }
    }

    /// Copies of every element, in order.
    pub fn duplicate_all(v: &Vec<Self>) -> (r: Vec<Self>)
        ensures
            r@.map_values(|x: Self| x@) == v@.map_values(|x: Self| x@),
            r.len() == v.len(),
    {
        let mut r: Vec<Self> = Vec::new();
        let mut i: usize = 0;
        while i < v.len()
            invariant
                i <= v.len(),
                r.len() == i,
                forall|j: int| 0 <= j < i ==> #[trigger] r@[j]@ == v@[j]@,
            decreases v.len() - i,
        {
            r.push(v[i].duplicate());
            i = i + 1;
        }
        assert(r@.map_values(|x: Self| x@) =~= v@.map_values(|x: Self| x@));
        r
    }
}

/// A foreign source as the REST API carries it.
#[derive(Clone, Debug, PartialEq, Eq)]
pub struct ForeignSourceServer {
    pub name: String,
    pub date_stamp: Option<i64>,
    pub scan_interval: Option<String>,
    pub detectors: Vec<DetectorServer>,
    pub policies: Vec<PolicyServer>,
}

/// The mathematical model of [`ForeignSourceServer`].
pub struct ForeignSourceServerModel {
    pub name: Seq<char>,
    pub date_stamp: Option<i64>,
    pub scan_interval: Option<Seq<char>>,
    pub detectors: Seq<DetectorServerModel>,
    pub policies: Seq<PolicyServerModel>,
}

impl View for ForeignSourceServer {
    type V = ForeignSourceServerModel;

    open spec fn view(&self) -> ForeignSourceServerModel {
        ForeignSourceServerModel {
            name: self.name@,
            date_stamp: self.date_stamp,
            scan_interval: ostr(self.scan_interval),
            detectors: self.detectors@.map_values(|v: DetectorServer| v@),
            policies: self.policies@.map_values(|v: PolicyServer| v@),
        }
    }
}

impl ForeignSourceServer {
    /// A copy with the same model.
    pub fn duplicate(&self) -> (r: Self)
        ensures
            r@ == self@,
    {
        ForeignSourceServer {
            name: self.name.clone(),
            date_stamp: self.date_stamp,
            scan_interval: clone_opt(&self.scan_interval),
            detectors: DetectorServer::duplicate_all(&self.detectors),
            policies: PolicyServer::duplicate_all(&self.policies),
        }
    }

}

/// A detector on the wire.
#[derive(Clone, Debug, PartialEq, Eq)]
pub struct DetectorServer {
    pub name: String,
    pub class: String,
    pub parameter: Vec<ParameterEntry>,
}

/// The mathematical model of [`DetectorServer`].
pub struct DetectorServerModel {
    pub name: Seq<char>,
    pub class: Seq<char>,
    pub parameter: Seq<ParameterEntryModel>,
}

impl View for DetectorServer {
    type V = DetectorServerModel;

    open spec fn view(&self) -> DetectorServerModel {
        DetectorServerModel {
            name: self.name@,
            class: self.class@,
            parameter: self.parameter@.map_values(|v: ParameterEntry| v@),
        }
    }
}

impl DetectorServer {
    /// A copy with the same model.
    pub fn duplicate(&self) -> (r: Self)
        ensures
            r@ == self@,
    {
        DetectorServer {
            name: self.name.clone(),
            class: self.class.clone(),
            parameter: ParameterEntry::duplicate_all(&self.parameter),
        }
    }

    /// Copies of every element, in order.
    pub fn duplicate_all(v: &Vec<Self>) -> (r: Vec<Self>)
        ensures
            r@.map_values(|x: Self| x@) == v@.map_values(|x: Self| x@),
            r.len() == v.len(),
    {
        let mut r: Vec<Self> = Vec::new();
        let mut i: usize = 0;
        while i < v.len()
            invariant
                i <= v.len(),
                r.len() == i,
                forall|j: int| 0 <= j < i ==> #[trigger] r@[j]@ == v@[j]@,
            decreases v.len() - i,
        {
            r.push(v[i].duplicate());
            i = i + 1;
        }
        assert(r@.map_values(|x: Self| x@) =~= v@.map_values(|x: Self| x@));
        r
    }
}

/// A policy on the wire.
#[derive(Clone, Debug, PartialEq, Eq)]
pub struct PolicyServer {
    pub name: String,
    pub class: String,
    pub parameter: Vec<ParameterEntry>,
}

/// The mathematical model of [`PolicyServer`].
pub struct PolicyServerModel {
    pub name: Seq<char>,
    pub class: Seq<char>,
    pub parameter: Seq<ParameterEntryModel>,
}

impl View for PolicyServer {
    type V = PolicyServerModel;

    open spec fn view(&self) -> PolicyServerModel {
        PolicyServerModel {
            name: self.name@,
            class: self.class@,
            parameter: self.parameter@.map_values(|v: ParameterEntry| v@),
        }
    }
}

impl PolicyServer {
    /// A copy with the same model.
    pub fn duplicate(&self) -> (r: Self)
        ensures
            r@ == self@,
    {
        PolicyServer {
            name: self.name.clone(),
            class: self.class.clone(),
            parameter: ParameterEntry::duplicate_all(&self.parameter),
        }
    }

    /// Copies of every element, in order.
    pub fn duplicate_all(v: &Vec<Self>) -> (r: Vec<Self>)
        ensures
            r@.map_values(|x: Self| x@) == v@.map_values(|x: Self| x@),
            r.len() == v.len(),
    {
        let mut r: Vec<Self> = Vec::new();
        let mut i: usize = 0;
        while i < v.len()
            invariant
                i <= v.len(),
                r.len() == i,
                forall|j: int| 0 <= j < i ==> #[trigger] r@[j]@ == v@[j]@,
            decreases v.len() - i,
        {
            r.push(v[i].duplicate());
            i = i + 1;
        }
        assert(r@.map_values(|x: Self| x@) =~= v@.map_values(|x: Self| x@));
        r
    }
}

/// A parameter on the wire.
#[derive(Clone, Debug, PartialEq, Eq)]
pub struct ParameterEntry {
    pub key: String,
    pub value: String,
}

/// The mathematical model of [`ParameterEntry`].
pub struct ParameterEntryModel {
    pub key: Seq<char>,
    pub value: Seq<char>,
}

impl View for ParameterEntry {
    type V = ParameterEntryModel;

    open spec fn view(&self) -> ParameterEntryModel {
        ParameterEntryModel {
            key: self.key@,
            value: self.value@,
        }
    }
}

impl ParameterEntry {
    /// A copy with the same model.
    pub fn duplicate(&self) -> (r: Self)
        ensures
            r@ == self@,
    {
        ParameterEntry {
            key: self.key.clone(),
            value: self.value.clone(),
        }
    }

    /// Copies of every element, in order.
    pub fn duplicate_all(v: &Vec<Self>) -> (r: Vec<Self>)
        ensures
            r@.map_values(|x: Self| x@) == v@.map_values(|x: Self| x@),
            r.len() == v.len(),
    {
        let mut r: Vec<Self> = Vec::new();
        let mut i: usize = 0;
        while i < v.len()
            invariant
                i <= v.len(),
                r.len() == i,
                forall|j: int| 0 <= j < i ==> #[trigger] r@[j]@ == v@[j]@,
            decreases v.len() - i,
        {
            r.push(v[i].duplicate());
            i = i + 1;
        }
        assert(r@.map_values(|x: Self| x@) =~= v@.map_values(|x: Self| x@));
        r
    }
}

} // verus!
