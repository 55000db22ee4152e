//! The XML documents a requisition export is made of: `<model-import>`
//! (the requisition) and `<foreign-source>`. Content outside the catalog
//! is kept as `extras`, in document order.

use vstd::prelude::*;
use crate::json::{duplicate_entries, entries_model, JsonModel, Value};
use crate::text::{clone_opt, clone_strs, ostr, strs};

verus! {

/// The root `<model-import>` element of a requisition XML file.
#[derive(Clone, Debug, PartialEq, Eq)]
pub struct RequisitionXml {
    pub foreign_source: String,
    pub date_stamp: Option<String>,
    pub last_import: Option<String>,
    pub nodes: Vec<NodeXml>,
    /// Attributes and child elements outside the catalog, in document order
    /// (attribute names keep their `@` prefix).
    pub extras: Vec<(String, Value)>,
}

/// The mathematical model of [`RequisitionXml`].
pub struct RequisitionXmlModel {
    pub foreign_source: Seq<char>,
    pub date_stamp: Option<Seq<char>>,
    pub last_import: Option<Seq<char>>,
    pub nodes: Seq<NodeXmlModel>,
    pub extras: Seq<(Seq<char>, JsonModel)>,
}

impl View for RequisitionXml {
    type V = RequisitionXmlModel;

    open spec fn view(&self) -> RequisitionXmlModel {
        RequisitionXmlModel {
            foreign_source: self.foreign_source@,
            date_stamp: ostr(self.date_stamp),
            last_import: ostr(self.last_import),
            nodes: self.nodes@.map_values(|v: NodeXml| v@),
            extras: entries_model(self.extras@),
        }
    }
}

impl RequisitionXml {
    /// A copy with the same model.
    pub fn duplicate(&self) -> (r: Self)
        ensures
            r@ == self@,
    {
        RequisitionXml {
            foreign_source: self.foreign_source.clone(),
            date_stamp: clone_opt(&self.date_stamp),
            last_import: clone_opt(&self.last_import),
            nodes: NodeXml::duplicate_all(&self.nodes),
            extras: duplicate_entries(&self.extras),
        }
    }

}

/// A `<node>` element.
#[derive(Clone, Debug, PartialEq, Eq)]
pub struct NodeXml {
    pub foreign_id: String,
    pub node_label: String,
    pub location: Option<String>,
    pub city: Option<String>,
    pub interfaces: Vec<InterfaceXml>,
    pub categories: Vec<CategoryXml>,
    pub assets: Vec<AssetXml>,
    pub meta_data: Vec<MetaDataXml>,
    pub extras: Vec<(String, Value)>,
}

/// The mathematical model of [`NodeXml`].
pub struct NodeXmlModel {
    pub foreign_id: Seq<char>,
    pub node_label: Seq<char>,
    pub location: Option<Seq<char>>,
    pub city: Option<Seq<char>>,
    pub interfaces: Seq<InterfaceXmlModel>,
    pub categories: Seq<CategoryXmlModel>,
    pub assets: Seq<AssetXmlModel>,
    pub meta_data: Seq<MetaDataXmlModel>,
    pub extras: Seq<(Seq<char>, JsonModel)>,
}

impl View for NodeXml {
    type V = NodeXmlModel;

    open spec fn view(&self) -> NodeXmlModel {
        NodeXmlModel {
            foreign_id: self.foreign_id@,
            node_label: self.node_label@,
            location: ostr(self.location),
            city: ostr(self.city),
            interfaces: self.interfaces@.map_values(|v: InterfaceXml| v@),
            categories: self.categories@.map_values(|v: CategoryXml| v@),
            assets: self.assets@.map_values(|v: AssetXml| v@),
            meta_data: self.meta_data@.map_values(|v: MetaDataXml| v@),
            extras: entries_model(self.extras@),
        }
    }
}

impl NodeXml {
    /// A copy with the same model.
    pub fn duplicate(&self) -> (r: Self)
        ensures
            r@ == self@,
    {
        NodeXml {
            foreign_id: self.foreign_id.clone(),
            node_label: self.node_label.clone(),
            location: clone_opt(&self.location),
            city: clone_opt(&self.city),
            interfaces: InterfaceXml::duplicate_all(&self.interfaces),
            categories: CategoryXml::duplicate_all(&self.categories),
            assets: AssetXml::duplicate_all(&self.assets),
            meta_data: MetaDataXml::duplicate_all(&self.meta_data),
            extras: duplicate_entries(&self.extras),
        }
    }

    /// Copies of every element, in order.
    pub fn duplicate_all(v: &Vec<Self>) -> (r: Vec<Self>)
        ensures
            r@.map_values(|x: Self| x@) == v@.map_values(|x: Self| x@),
            r.len() == v.len(),
    {
        let mut r: Vec<Self> = Vec::new();
        let mut i: usize = 0;
        while i < v.len()
            invariant
                i <= v.len(),
                r.len() == i,
                forall|j: int| 0 <= j < i ==> #[trigger] r@[j]@ == v@[j]@,
            decreases v.len() - i,
        {
            r.push(v[i].duplicate());
            i = i + 1;
        }
        assert(r@.map_values(|x: Self| x@) =~= v@.map_values(|x: Self| x@));
        r
    }
}

/// An `<interface>` element.
#[derive(Clone, Debug, PartialEq, Eq)]
pub struct InterfaceXml {
    pub ip_addr: String,
    pub snmp_primary: Option<String>,
    pub status: Option<String>,
    pub descr: Option<String>,
    pub monitored_services: Vec<MonitoredServiceXml>,
    pub meta_data: Vec<MetaDataXml>,
    pub extras: Vec<(String, Value)>,
}

/// The mathematical model of [`InterfaceXml`].
pub struct InterfaceXmlModel {
    pub ip_addr: Seq<char>,
    pub snmp_primary: Option<Seq<char>>,
    pub status: Option<Seq<char>>,
    pub descr: Option<Seq<char>>,
    pub monitored_services: Seq<MonitoredServiceXmlModel>,
    pub meta_data: Seq<MetaDataXmlModel>,
    pub extras: Seq<(Seq<char>, JsonModel)>,
}

impl View for InterfaceXml {
    type V = InterfaceXmlModel;

    open spec fn view(&self) -> InterfaceXmlModel {
        InterfaceXmlModel {
            ip_addr: self.ip_addr@,
            snmp_primary: ostr(self.snmp_primary),
            status: ostr(self.status),
            descr: ostr(self.descr),
            monitored_services: self.monitored_services@.map_values(|v: MonitoredServiceXml| v@),
            meta_data: self.meta_data@.map_values(|v: MetaDataXml| v@),
            extras: entries_model(self.extras@),
        }
    }
}

impl InterfaceXml {
    /// A copy with the same model.
    pub fn duplicate(&self) -> (r: Self)
        ensures
            r@ == self@,
    {
        InterfaceXml {
            ip_addr: self.ip_addr.clone(),
            snmp_primary: clone_opt(&self.snmp_primary),
            status: clone_opt(&self.status),
            descr: clone_opt(&self.descr),
            monitored_services: MonitoredServiceXml::duplicate_all(&self.monitored_services),
            meta_data: MetaDataXml::duplicate_all(&self.meta_data),
            extras: duplicate_entries(&self.extras),
        }
    }

    /// Copies of every element, in order.
    pub fn duplicate_all(v: &Vec<Self>) -> (r: Vec<Self>)
        ensures
            r@.map_values(|x: Self| x@) == v@.map_values(|x: Self| x@),
            r.len() == v.len(),
    {
        let mut r: Vec<Self> = Vec::new();
        let mut i: usize = 0;
        while i < v.len()
            invariant
                i <= v.len(),
                r.len() == i,
                forall|j: int| 0 <= j < i ==> #[trigger] r@[j]@ == v@[j]@,
            decreases v.len() - i,
        {
            r.push(v[i].duplicate());
            i = i + 1;
        }
        assert(r@.map_values(|x: Self| x@) =~= v@.map_values(|x: Self| x@));
        r
    }
}

/// A `<monitored-service>` element.
#[derive(Clone, Debug, PartialEq, Eq)]
pub struct MonitoredServiceXml {
    pub service_name: String,
    pub meta_data: Vec<MetaDataXml>,
    pub extras: Vec<(String, Value)>,
}

/// The mathematical model of [`MonitoredServiceXml`].
pub struct MonitoredServiceXmlModel {
    pub service_name: Seq<char>,
    pub meta_data: Seq<MetaDataXmlModel>,
    pub extras: Seq<(Seq<char>, JsonModel)>,
}

impl View for MonitoredServiceXml {
    type V = MonitoredServiceXmlModel;

    open spec fn view(&self) -> MonitoredServiceXmlModel {
        MonitoredServiceXmlModel {
            service_name: self.service_name@,
            meta_data: self.meta_data@.map_values(|v: MetaDataXml| v@),
            extras: entries_model(self.extras@),
        }
    }
}

impl MonitoredServiceXml {
    /// A copy with the same model.
    pub fn duplicate(&self) -> (r: Self)
        ensures
            r@ == self@,
    {
        MonitoredServiceXml {
            service_name: self.service_name.clone(),
            meta_data: MetaDataXml::duplicate_all(&self.meta_data),
            extras: duplicate_entries(&self.extras),
        }
    }

    /// Copies of every element, in order.
    pub fn duplicate_all(v: &Vec<Self>) -> (r: Vec<Self>)
        ensures
            r@.map_values(|x: Self| x@) == v@.map_values(|x: Self| x@),
            r.len() == v.len(),
    {
        let mut r: Vec<Self> = Vec::new();
        let mut i: usize = 0;
        while i < v.len()
            invariant
                i <= v.len(),
                r.len() == i,
                forall|j: int| 0 <= j < i ==> #[trigger] r@[j]@ == v@[j]@,
            decreases v.len() - i,
        {
            r.push(v[i].duplicate());
            i = i + 1;
        }
        assert(r@.map_values(|x: Self| x@) =~= v@.map_values(|x: Self| x@));
        r
    }
}

/// A `<category>` element.
#[derive(Clone, Debug, PartialEq, Eq)]
pub struct CategoryXml {
    pub name: String,
}

/// The mathematical model of [`CategoryXml`].
pub struct CategoryXmlModel {
    pub name: Seq<char>,
}

impl View for CategoryXml {
    type V = CategoryXmlModel;

    open spec fn view(&self) -> CategoryXmlModel {
        CategoryXmlModel {
            name: self.name@,
        }
    }
}

impl CategoryXml {
    /// A copy with the same model.
    pub fn duplicate(&self) -> (r: Self)
        ensures
            r@ == self@,
    {
        CategoryXml {
            name: self.name.clone(),
        }
    }

    /// Copies of every element, in order.
    pub fn duplicate_all(v: &Vec<Self>) -> (r: Vec<Self>)
        ensures
            r@.map_values(|x: Self| x@) == v@.map_values(|x: Self| x@),
            r.len() == v.len(),
    {
        let mut r: Vec<Self> = Vec::new();
        let mut i: usize = 0;
        while i < v.len()
            invariant
                i <= v.len(),
                r.len() == i,
                forall|j: int| 0 <= j < i ==> #[trigger] r@[j]@ == v@[j]@,
            decreases v.len() - i,
        {
            r.push(v[i].duplicate());
            i = i + 1;
        }
        assert(r@.map_values(|x: Self| x@) =~= v@.map_values(|x: Self| x@));
        r
    }
}

/// An `<asset>` element.
#[derive(Clone, Debug, PartialEq, Eq)]
pub struct AssetXml {
    pub name: String,
    pub value: String,
}

/// The mathematical model of [`AssetXml`].
pub struct AssetXmlModel {
    pub name: Seq<char>,
    pub value: Seq<char>,
}

impl View for AssetXml {
    type V = AssetXmlModel;

    open spec fn view(&self) -> AssetXmlModel {
        AssetXmlModel {
            name: self.name@,
            value: self.value@,
        }
    }
}

impl AssetXml {
    /// A copy with the same model.
    pub fn duplicate(&self) -> (r: Self)
        ensures
            r@ == self@,
    {
        AssetXml {
            name: self.name.clone(),
            value: self.value.clone(),
        }
    }

    /// Copies of every element, in order.
    pub fn duplicate_all(v: &Vec<Self>) -> (r: Vec<Self>)
        ensures
            r@.map_values(|x: Self| x@) == v@.map_values(|x: Self| x@),
            r.len() == v.len(),
    {
        let mut r: Vec<Self> = Vec::new();
        let mut i: usize = 0;
        while i < v.len()
            invariant
                i <= v.len(),
                r.len() == i,
                forall|j: int| 0 <= j < i ==> #[trigger] r@[j]@ == v@[j]@,
            decreases v.len() - i,
        {
            r.push(v[i].duplicate());
            i = i + 1;
        }
        assert(r@.map_values(|x: Self| x@) =~= v@.map_values(|x: Self| x@));
        r
    }
}

/// A `<meta-data>` element.
#[derive(Clone, Debug, PartialEq, Eq)]
pub struct MetaDataXml {
    pub context: String,
    pub key: String,
    pub value: String,
}

/// The mathematical model of [`MetaDataXml`].
pub struct MetaDataXmlModel {
    pub context: Seq<char>,
    pub key: Seq<char>,
    pub value: Seq<char>,
}

impl View for MetaDataXml {
    type V = MetaDataXmlModel;

    open spec fn view(&self) -> MetaDataXmlModel {
        MetaDataXmlModel {
            context: self.context@,
            key: self.key@,
            value: self.value@,
        }
    }
}

impl MetaDataXml {
    /// A copy with the same model.
    pub fn duplicate(&self) -> (r: Self)
        ensures
            r@ == self@,
    {
        MetaDataXml {
            context: self.context.clone(),
            key: self.key.clone(),
            value: self.value.clone(),
        }
    }

    /// Copies of every element, in order.
    pub fn duplicate_all(v: &Vec<Self>) -> (r: Vec<Self>)
        ensures
            r@.map_values(|x: Self| x@) == v@.map_values(|x: Self| x@),
            r.len() == v.len(),
    {
        let mut r: Vec<Self> = Vec::new();
        let mut i: usize = 0;
        while i < v.len()
            invariant
                i <= v.len(),
                r.len() == i,
                forall|j: int| 0 <= j < i ==> #[trigger] r@[j]@ == v@[j]@,
            decreases v.len() - i,
        {
            r.push(v[i].duplicate());
            i = i + 1;
        }
        assert(r@.map_values(|x: Self| x@) =~= v@.map_values(|x: Self| x@));
        r
    }
}

/// The root `<foreign-source>` element of a foreign-source XML file.
#[derive(Clone, Debug, PartialEq, Eq)]
pub struct ForeignSourceXml {
    pub name: String,
    pub date_stamp: Option<String>,
    pub scan_interval: Option<String>,
    pub detectors: DetectorsXml,
    pub policies: PoliciesXml,
}

/// The mathematical model of [`ForeignSourceXml`].
pub struct ForeignSourceXmlModel {
    pub name: Seq<char>,
    pub date_stamp: Option<Seq<char>>,
    pub scan_interval: Option<Seq<char>>,
    pub detectors: DetectorsXmlModel,
    pub policies: PoliciesXmlModel,
}

impl View for ForeignSourceXml {
    type V = ForeignSourceXmlModel;

    open spec fn view(&self) -> ForeignSourceXmlModel {
        ForeignSourceXmlModel {
            name: self.name@,
            date_stamp: ostr(self.date_stamp),
            scan_interval: ostr(self.scan_interval),
            detectors: self.detectors@,
            policies: self.policies@,
        }
    }
}

impl ForeignSourceXml {
    /// A copy with the same model.
    pub fn duplicate(&self) -> (r: Self)
        ensures
            r@ == self@,
    {
        ForeignSourceXml {
            name: self.name.clone(),
            date_stamp: clone_opt(&self.date_stamp),
            scan_interval: clone_opt(&self.scan_interval),
            detectors: self.detectors.duplicate(),
            policies: self.policies.duplicate(),
        }
    }

}

/// The `<detectors>` wrapper.
#[derive(Clone, Debug, Default, PartialEq, Eq)]
pub struct DetectorsXml {
    pub detector: Vec<DetectorXml>,
}

/// The mathematical model of [`DetectorsXml`].
pub struct DetectorsXmlModel {
    pub detector: Seq<DetectorXmlModel>,
}

impl View for DetectorsXml {
    type V = DetectorsXmlModel;

    open spec fn view(&self) -> DetectorsXmlModel {
        DetectorsXmlModel {
            detector: self.detector@.map_values(|v: DetectorXml| v@),
        }
    }
}

impl DetectorsXml {
    /// A copy with the same model.
    pub fn duplicate(&self) -> (r: Self)
        ensures
            r@ == self@,
    {
        DetectorsXml {
            detector: DetectorXml::duplicate_all(&self.detector),
        }
    }

}

/// The `<policies>` wrapper.
#[derive(Clone, Debug, Default, PartialEq, Eq)]
pub struct PoliciesXml {
    pub policy: Vec<PolicyXml>,
}

/// The mathematical model of [`PoliciesXml`].
pub struct PoliciesXmlModel {
    pub policy: Seq<PolicyXmlModel>,
}

impl View for PoliciesXml {
    type V = PoliciesXmlModel;

    open spec fn view(&self) -> PoliciesXmlModel {
        PoliciesXmlModel {
            policy: self.policy@.map_values(|v: PolicyXml| v@),
        }
    }
}

impl PoliciesXml {
    /// A copy with the same model.
    pub fn duplicate(&self) -> (r: Self)
        ensures
            r@ == self@,
    {
        PoliciesXml {
            policy: PolicyXml::duplicate_all(&self.policy),
        }
    }

}

/// A `<detector>` element.
#[derive(Clone, Debug, PartialEq, Eq)]
pub struct DetectorXml {
    pub name: String,
    pub class: String,
    pub parameter: Vec<ParameterXml>,
}

/// The mathematical model of [`DetectorXml`].
pub struct DetectorXmlModel {
    pub name: Seq<char>,
    pub class: Seq<char>,
    pub parameter: Seq<ParameterXmlModel>,
}

impl View for DetectorXml {
    type V = DetectorXmlModel;

    open spec fn view(&self) -> DetectorXmlModel {
        DetectorXmlModel {
            name: self.name@,
            class: self.class@,
            parameter: self.parameter@.map_values(|v: ParameterXml| v@),
        }
    }
}

impl DetectorXml {
    /// A copy with the same model.
    pub fn duplicate(&self) -> (r: Self)
        ensures
            r@ == self@,
    {
        DetectorXml {
            name: self.name.clone(),
            class: self.class.clone(),
            parameter: ParameterXml::duplicate_all(&self.parameter),
        }
    }

    /// Copies of every element, in order.
    pub fn duplicate_all(v: &Vec<Self>) -> (r: Vec<Self>)
        ensures
            r@.map_values(|x: Self| x@) == v@.map_values(|x: Self| x@),
            r.len() == v.len(),
    {
        let mut r: Vec<Self> = Vec::new();
        let mut i: usize = 0;
        while i < v.len()
            invariant
                i <= v.len(),
                r.len() == i,
                forall|j: int| 0 <= j < i ==> #[trigger] r@[j]@ == v@[j]@,
            decreases v.len() - i,
        {
            r.push(v[i].duplicate());
            i = i + 1;
        }
        assert(r@.map_values(|x: Self| x@) =~= v@.map_values(|x: Self| x@));
        r
    }
}

/// A `<policy>` element.
#[derive(Clone, Debug, PartialEq, Eq)]
pub struct PolicyXml {
    pub name: String,
    pub class: String,
    pub parameter: Vec<ParameterXml>,
}

/// The mathematical model of [`PolicyXml`].
pub struct PolicyXmlModel {
    pub name: Seq<char>,
    pub class: Seq<char>,
    pub parameter: Seq<ParameterXmlModel>,
}

impl View for PolicyXml {
    type V = PolicyXmlModel;

    open spec fn view(&self) -> PolicyXmlModel {
        PolicyXmlModel {
            name: self.name@,
            class: self.class@,
            parameter: self.parameter@.map_values(|v: ParameterXml| v@),
        }
    }
}

impl PolicyXml {
    /// A copy with the same model.
    pub fn duplicate(&self) -> (r: Self)
        ensures
            r@ == self@,
    {
        PolicyXml {
            name: self.name.clone(),
            class: self.class.clone(),
            parameter: ParameterXml::duplicate_all(&self.parameter),
        }
    }

    /// Copies of every element, in order.
    pub fn duplicate_all(v: &Vec<Self>) -> (r: Vec<Self>)
        ensures
            r@.map_values(|x: Self| x@) == v@.map_values(|x: Self| x@),
            r.len() == v.len(),
    {
        let mut r: Vec<Self> = Vec::new();
        let mut i: usize = 0;
        while i < v.len()
            invariant
                i <= v.len(),
                r.len() == i,
                forall|j: int| 0 <= j < i ==> #[trigger] r@[j]@ == v@[j]@,
            decreases v.len() - i,
        {
            r.push(v[i].duplicate());
            i = i + 1;
        }
        assert(r@.map_values(|x: Self| x@) =~= v@.map_values(|x: Self| x@));
        r
    }
}

/// A `<parameter>` element.
#[derive(Clone, Debug, PartialEq, Eq)]
pub struct ParameterXml {
    pub key: String,
    pub value: String,
}

/// The mathematical model of [`ParameterXml`].
pub struct ParameterXmlModel {
    pub key: Seq<char>,
    pub value: Seq<char>,
}

impl View for ParameterXml {
    type V = ParameterXmlModel;

    open spec fn view(&self) -> ParameterXmlModel {
        ParameterXmlModel {
            key: self.key@,
            value: self.value@,
        }
    }
}

impl ParameterXml {
    /// A copy with the same model.
    pub fn duplicate(&self) -> (r: Self)
        ensures
            r@ == self@,
    {
        ParameterXml {
            key: self.key.clone(),
            value: self.value.clone(),
        }
    }

    /// Copies of every element, in order.
    pub fn duplicate_all(v: &Vec<Self>) -> (r: Vec<Self>)
        ensures
            r@.map_values(|x: Self| x@) == v@.map_values(|x: Self| x@),
            r.len() == v.len(),
    {
        let mut r: Vec<Self> = Vec::new();
        let mut i: usize = 0;
        while i < v.len()
            invariant
                i <= v.len(),
                r.len() == i,
                forall|j: int| 0 <= j < i ==> #[trigger] r@[j]@ == v@[j]@,
            decreases v.len() - i,
        {
            r.push(v[i].duplicate());
            i = i + 1;
        }
        assert(r@.map_values(|x: Self| x@) =~= v@.map_values(|x: Self| x@));
        r
    }
}

} // verus!
