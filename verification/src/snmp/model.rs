//! The local (YAML) model of a `kind: SnmpConfig` document.

use vstd::prelude::*;
use crate::text::{clone_opt, clone_strs, ostr, strs};
use crate::snmp::secret::{SecretRef, SecretRefModel};

verus! {

/// The only accepted `apiVersion`.
pub const API_VERSION: &'static str = "snmp.opennms.org/v1";

/// The only accepted `kind`.
pub const KIND: &'static str = "SnmpConfig";

/// The only accepted `metadata.name` (singleton).
pub const SINGLETON_NAME: &'static str = "default";

/// SNMPv3 security level (the wire's int 1/2/3).
#[derive(Clone, Copy, Debug, PartialEq, Eq)]
pub enum SecurityLevel {
    NoAuthNoPriv,
    AuthNoPriv,
    AuthPriv,
}

/// A `kind: SnmpConfig` document.
#[derive(Clone, Debug, PartialEq, Eq)]
pub struct SnmpConfigLocal {
    pub api_version: String,
    pub kind: String,
    pub metadata: Metadata,
    pub spec: Spec,
}

/// The mathematical model of [`SnmpConfigLocal`].
pub struct SnmpConfigLocalModel {
    pub api_version: Seq<char>,
    pub kind: Seq<char>,
    pub metadata: MetadataModel,
    pub spec: SpecModel,
}

impl View for SnmpConfigLocal {
    type V = SnmpConfigLocalModel;

    open spec fn view(&self) -> SnmpConfigLocalModel {
        SnmpConfigLocalModel {
            api_version: self.api_version@,
            kind: self.kind@,
            metadata: self.metadata@,
            spec: self.spec@,
        }
    }
}

impl SnmpConfigLocal {
    /// A copy with the same model.
    pub fn duplicate(&self) -> (r: Self)
        ensures
            r@ == self@,
    {
        SnmpConfigLocal {
            api_version: self.api_version.clone(),
            kind: self.kind.clone(),
            metadata: self.metadata.duplicate(),
            spec: self.spec.duplicate(),
        }
    }

    /// Copies of every element, in order.
    pub fn duplicate_all(v: &Vec<Self>) -> (r: Vec<Self>)
        ensures
            r@.map_values(|x: Self| x@) == v@.map_values(|x: Self| x@),
            r.len() == v.len(),
    {
        let mut r: Vec<Self> = Vec::new();
        let mut i: usize = 0;
        while i < v.len()
            invariant
                i <= v.len(),
                r.len() == i,
                forall|j: int| 0 <= j < i ==> #[trigger] r@[j]@ == v@[j]@,
            decreases v.len() - i,
        {
            r.push(v[i].duplicate());
            i = i + 1;
        }
        assert(r@.map_values(|x: Self| x@) =~= v@.map_values(|x: Self| x@));
        r
    }
}

/// Document metadata. `name` must equal [`SINGLETON_NAME`].
#[derive(Clone, Debug, PartialEq, Eq)]
pub struct Metadata {
    pub name: String,
}

/// The mathematical model of [`Metadata`].
pub struct MetadataModel {
    pub name: Seq<char>,
}

impl View for Metadata {
    type V = MetadataModel;

    open spec fn view(&self) -> MetadataModel {
        MetadataModel {
            name: self.name@,
        }
    }
}

impl Metadata {
    /// A copy with the same model.
    pub fn duplicate(&self) -> (r: Self)
        ensures
            r@ == self@,
    {
        Metadata {
            name: self.name.clone(),
        }
    }

    /// Copies of every element, in order.
    pub fn duplicate_all(v: &Vec<Self>) -> (r: Vec<Self>)
        ensures
            r@.map_values(|x: Self| x@) == v@.map_values(|x: Self| x@),
            r.len() == v.len(),
    {
        let mut r: Vec<Self> = Vec::new();
        let mut i: usize = 0;
        while i < v.len()
            invariant
                i <= v.len(),
                r.len() == i,
                forall|j: int| 0 <= j < i ==> #[trigger] r@[j]@ == v@[j]@,
            decreases v.len() - i,
        {
            r.push(v[i].duplicate());
            i = i + 1;
        }
        assert(r@.map_values(|x: Self| x@) =~= v@.map_values(|x: Self| x@));
        r
    }
}

/// The SNMP configuration body.
#[derive(Clone, Debug, Default, PartialEq, Eq)]
pub struct Spec {
    /// Fallback parameters applied when no definition matches.
    pub defaults: Option<Params>,
    /// Named, reusable parameter templates.
    pub profiles: Vec<ProfileLocal>,
    /// Per-target overrides.
    pub definitions: Vec<DefinitionLocal>,
    /// Optional trap-daemon block, reconciled against its own endpoint.
    pub trapd: Option<Trapd>,
}

/// The mathematical model of [`Spec`].
pub struct SpecModel {
    pub defaults: Option<ParamsModel>,
    pub profiles: Seq<ProfileLocalModel>,
    pub definitions: Seq<DefinitionLocalModel>,
    pub trapd: Option<TrapdModel>,
}

impl View for Spec {
    type V = SpecModel;

    open spec fn view(&self) -> SpecModel {
        SpecModel {
            defaults: match self.defaults { Some(v) => Some(v@), None => None },
            profiles: self.profiles@.map_values(|v: ProfileLocal| v@),
            definitions: self.definitions@.map_values(|v: DefinitionLocal| v@),
            trapd: match self.trapd { Some(v) => Some(v@), None => None },
        }
    }
}

impl Spec {
    /// A copy with the same model.
    pub fn duplicate(&self) -> (r: Self)
        ensures
            r@ == self@,
    {
        Spec {
            defaults: match &self.defaults { Some(v) => Some(v.duplicate()), None => None },
            profiles: ProfileLocal::duplicate_all(&self.profiles),
            definitions: DefinitionLocal::duplicate_all(&self.definitions),
            trapd: match &self.trapd { Some(v) => Some(v.duplicate()), None => None },
        }
    }

    /// Copies of every element, in order.
    pub fn duplicate_all(v: &Vec<Self>) -> (r: Vec<Self>)
        ensures
            r@.map_values(|x: Self| x@) == v@.map_values(|x: Self| x@),
            r.len() == v.len(),
    {
        let mut r: Vec<Self> = Vec::new();
        let mut i: usize = 0;
        while i < v.len()
            invariant
                i <= v.len(),
                r.len() == i,
                forall|j: int| 0 <= j < i ==> #[trigger] r@[j]@ == v@[j]@,
            decreases v.len() - i,
        {
            r.push(v[i].duplicate());
            i = i + 1;
        }
        assert(r@.map_values(|x: Self| x@) =~= v@.map_values(|x: Self| x@));
        r
    }
}

/// The SNMP parameter set shared by `defaults`, each profile and each
/// definition. Every field is optional.
#[derive(Clone, Debug, Default, PartialEq, Eq)]
pub struct Params {
    /// `v1` / `v2c` / `v3`.
    pub version: Option<String>,
    pub port: Option<i32>,
    pub timeout: Option<i32>,
    /// Friendly alias for the wire's `retry`.
    pub retries: Option<i32>,
    pub ttl: Option<i64>,
    pub proxy_host: Option<String>,
    pub read_community: Option<SecretRef>,
    pub write_community: Option<SecretRef>,
    pub max_repetitions: Option<i32>,
    pub max_vars_per_pdu: Option<i32>,
    pub max_request_size: Option<i32>,
    pub security_name: Option<String>,
    pub security_level: Option<SecurityLevel>,
    pub auth_protocol: Option<String>,
    pub auth_passphrase: Option<SecretRef>,
    pub privacy_protocol: Option<String>,
    pub privacy_passphrase: Option<SecretRef>,
    pub context_name: Option<String>,
    pub engine_id: Option<String>,
    pub context_engine_id: Option<String>,
    pub enterprise_id: Option<String>,
}

/// The mathematical model of [`Params`].
pub struct ParamsModel {
    pub version: Option<Seq<char>>,
    pub port: Option<i32>,
    pub timeout: Option<i32>,
    pub retries: Option<i32>,
    pub ttl: Option<i64>,
    pub proxy_host: Option<Seq<char>>,
    pub read_community: Option<SecretRefModel>,
    pub write_community: Option<SecretRefModel>,
    pub max_repetitions: Option<i32>,
    pub max_vars_per_pdu: Option<i32>,
    pub max_request_size: Option<i32>,
    pub security_name: Option<Seq<char>>,
    pub security_level: Option<SecurityLevel>,
    pub auth_protocol: Option<Seq<char>>,
    pub auth_passphrase: Option<SecretRefModel>,
    pub privacy_protocol: Option<Seq<char>>,
    pub privacy_passphrase: Option<SecretRefModel>,
    pub context_name: Option<Seq<char>>,
    pub engine_id: Option<Seq<char>>,
    pub context_engine_id: Option<Seq<char>>,
    pub enterprise_id: Option<Seq<char>>,
}

impl View for Params {
    type V = ParamsModel;

    open spec fn view(&self) -> ParamsModel {
        ParamsModel {
            version: ostr(self.version),
            port: self.port,
            timeout: self.timeout,
            retries: self.retries,
            ttl: self.ttl,
            proxy_host: ostr(self.proxy_host),
            read_community: match self.read_community { Some(v) => Some(v@), None => None },
            write_community: match self.write_community { Some(v) => Some(v@), None => None },
            max_repetitions: self.max_repetitions,
            max_vars_per_pdu: self.max_vars_per_pdu,
            max_request_size: self.max_request_size,
            security_name: ostr(self.security_name),
            security_level: self.security_level,
            auth_protocol: ostr(self.auth_protocol),
            auth_passphrase: match self.auth_passphrase { Some(v) => Some(v@), None => None },
            privacy_protocol: ostr(self.privacy_protocol),
            privacy_passphrase: match self.privacy_passphrase { Some(v) => Some(v@), None => None },
            context_name: ostr(self.context_name),
            engine_id: ostr(self.engine_id),
            context_engine_id: ostr(self.context_engine_id),
            enterprise_id: ostr(self.enterprise_id),
        }
    }
}

impl Params {
    /// A copy with the same model.
    pub fn duplicate(&self) -> (r: Self)
        ensures
            r@ == self@,
    {
        Params {
            version: clone_opt(&self.version),
            port: self.port,
            timeout: self.timeout,
            retries: self.retries,
            ttl: self.ttl,
            proxy_host: clone_opt(&self.proxy_host),
            read_community: match &self.read_community { Some(v) => Some(v.duplicate()), None => None },
            write_community: match &self.write_community { Some(v) => Some(v.duplicate()), None => None },
            max_repetitions: self.max_repetitions,
            max_vars_per_pdu: self.max_vars_per_pdu,
            max_request_size: self.max_request_size,
            security_name: clone_opt(&self.security_name),
            security_level: self.security_level,
            auth_protocol: clone_opt(&self.auth_protocol),
            auth_passphrase: match &self.auth_passphrase { Some(v) => Some(v.duplicate()), None => None },
            privacy_protocol: clone_opt(&self.privacy_protocol),
            privacy_passphrase: match &self.privacy_passphrase { Some(v) => Some(v.duplicate()), None => None },
            context_name: clone_opt(&self.context_name),
            engine_id: clone_opt(&self.engine_id),
            context_engine_id: clone_opt(&self.context_engine_id),
            enterprise_id: clone_opt(&self.enterprise_id),
        }
    }

    /// Copies of every element, in order.
    pub fn duplicate_all(v: &Vec<Self>) -> (r: Vec<Self>)
        ensures
            r@.map_values(|x: Self| x@) == v@.map_values(|x: Self| x@),
            r.len() == v.len(),
    {
        let mut r: Vec<Self> = Vec::new();
        let mut i: usize = 0;
        while i < v.len()
            invariant
                i <= v.len(),
                r.len() == i,
                forall|j: int| 0 <= j < i ==> #[trigger] r@[j]@ == v@[j]@,
            decreases v.len() - i,
        {
            r.push(v[i].duplicate());
            i = i + 1;
        }
        assert(r@.map_values(|x: Self| x@) =~= v@.map_values(|x: Self| x@));
        r
    }
}

/// A named parameter template. `label` is required.
#[derive(Clone, Debug, Default, PartialEq, Eq)]
pub struct ProfileLocal {
    pub params: Params,
    pub label: String,
    pub filter_expression: Option<String>,
}

/// The mathematical model of [`ProfileLocal`].
pub struct ProfileLocalModel {
    pub params: ParamsModel,
    pub label: Seq<char>,
    pub filter_expression: Option<Seq<char>>,
}

impl View for ProfileLocal {
    type V = ProfileLocalModel;

    open spec fn view(&self) -> ProfileLocalModel {
        ProfileLocalModel {
            params: self.params@,
            label: self.label@,
            filter_expression: ostr(self.filter_expression),
        }
    }
}

impl ProfileLocal {
    /// A copy with the same model.
    pub fn duplicate(&self) -> (r: Self)
        ensures
            r@ == self@,
    {
        ProfileLocal {
            params: self.params.duplicate(),
            label: self.label.clone(),
            filter_expression: clone_opt(&self.filter_expression),
        }
    }

    /// Copies of every element, in order.
    pub fn duplicate_all(v: &Vec<Self>) -> (r: Vec<Self>)
        ensures
            r@.map_values(|x: Self| x@) == v@.map_values(|x: Self| x@),
            r.len() == v.len(),
    {
        let mut r: Vec<Self> = Vec::new();
        let mut i: usize = 0;
        while i < v.len()
            invariant
                i <= v.len(),
                r.len() == i,
                forall|j: int| 0 <= j < i ==> #[trigger] r@[j]@ == v@[j]@,
            decreases v.len() - i,
        {
            r.push(v[i].duplicate());
            i = i + 1;
        }
        assert(r@.map_values(|x: Self| x@) =~= v@.map_values(|x: Self| x@));
        r
    }
}

/// A per-target override. At least one selector is required.
#[derive(Clone, Debug, Default, PartialEq, Eq)]
pub struct DefinitionLocal {
    pub params: Params,
    pub specifics: Vec<String>,
    pub ranges: Vec<RangeLocal>,
    pub ip_matches: Vec<String>,
    pub location: Option<String>,
    pub profile_label: Option<String>,
}

/// The mathematical model of [`DefinitionLocal`].
pub struct DefinitionLocalModel {
    pub params: ParamsModel,
    pub specifics: Seq<Seq<char>>,
    pub ranges: Seq<RangeLocalModel>,
    pub ip_matches: Seq<Seq<char>>,
    pub location: Option<Seq<char>>,
    pub profile_label: Option<Seq<char>>,
}

impl View for DefinitionLocal {
    type V = DefinitionLocalModel;

    open spec fn view(&self) -> DefinitionLocalModel {
        DefinitionLocalModel {
            params: self.params@,
            specifics: strs(self.specifics@),
            ranges: self.ranges@.map_values(|v: RangeLocal| v@),
            ip_matches: strs(self.ip_matches@),
            location: ostr(self.location),
            profile_label: ostr(self.profile_label),
        }
    }
}

impl DefinitionLocal {
    /// A copy with the same model.
    pub fn duplicate(&self) -> (r: Self)
        ensures
            r@ == self@,
    {
        DefinitionLocal {
            params: self.params.duplicate(),
            specifics: clone_strs(&self.specifics),
            ranges: RangeLocal::duplicate_all(&self.ranges),
            ip_matches: clone_strs(&self.ip_matches),
            location: clone_opt(&self.location),
            profile_label: clone_opt(&self.profile_label),
        }
    }

    /// Copies of every element, in order.
    pub fn duplicate_all(v: &Vec<Self>) -> (r: Vec<Self>)
        ensures
            r@.map_values(|x: Self| x@) == v@.map_values(|x: Self| x@),
            r.len() == v.len(),
    {
        let mut r: Vec<Self> = Vec::new();
        let mut i: usize = 0;
        while i < v.len()
            invariant
                i <= v.len(),
                r.len() == i,
                forall|j: int| 0 <= j < i ==> #[trigger] r@[j]@ == v@[j]@,
            decreases v.len() - i,
        {
            r.push(v[i].duplicate());
            i = i + 1;
        }
        assert(r@.map_values(|x: Self| x@) =~= v@.map_values(|x: Self| x@));
        r
    }
}

/// An inclusive IP range.
#[derive(Clone, Debug, Default, PartialEq, Eq)]
pub struct RangeLocal {
    pub begin: String,
    pub end: String,
}

/// The mathematical model of [`RangeLocal`].
pub struct RangeLocalModel {
    pub begin: Seq<char>,
    pub end: Seq<char>,
}

impl View for RangeLocal {
    type V = RangeLocalModel;

    open spec fn view(&self) -> RangeLocalModel {
        RangeLocalModel {
            begin: self.begin@,
            end: self.end@,
        }
    }
}

impl RangeLocal {
    /// A copy with the same model.
    pub fn duplicate(&self) -> (r: Self)
        ensures
            r@ == self@,
    {
        RangeLocal {
            begin: self.begin.clone(),
            end: self.end.clone(),
        }
    }

    /// Copies of every element, in order.
    pub fn duplicate_all(v: &Vec<Self>) -> (r: Vec<Self>)
        ensures
            r@.map_values(|x: Self| x@) == v@.map_values(|x: Self| x@),
            r.len() == v.len(),
    {
        let mut r: Vec<Self> = Vec::new();
        let mut i: usize = 0;
        while i < v.len()
            invariant
                i <= v.len(),
                r.len() == i,
                forall|j: int| 0 <= j < i ==> #[trigger] r@[j]@ == v@[j]@,
            decreases v.len() - i,
        {
            r.push(v[i].duplicate());
            i = i + 1;
        }
        assert(r@.map_values(|x: Self| x@) =~= v@.map_values(|x: Self| x@));
        r
    }
}

/// The local trap-daemon block (`spec.trapd`).
#[derive(Clone, Debug, Default, PartialEq, Eq)]
pub struct Trapd {
    pub snmp_trap_address: Option<String>,
    pub snmp_trap_port: Option<i32>,
    pub new_suspect_on_trap: Option<bool>,
    pub include_raw_message: Option<bool>,
    pub threads: Option<i32>,
    pub queue_size: Option<i32>,
    pub batch_size: Option<i32>,
    pub batch_interval: Option<i32>,
    pub use_address_from_varbind: Option<bool>,
    pub snmpv3_users: Vec<TrapdV3User>,
}

/// The mathematical model of [`Trapd`].
pub struct TrapdModel {
    pub snmp_trap_address: Option<Seq<char>>,
    pub snmp_trap_port: Option<i32>,
    pub new_suspect_on_trap: Option<bool>,
    pub include_raw_message: Option<bool>,
    pub threads: Option<i32>,
    pub queue_size: Option<i32>,
    pub batch_size: Option<i32>,
    pub batch_interval: Option<i32>,
    pub use_address_from_varbind: Option<bool>,
    pub snmpv3_users: Seq<TrapdV3UserModel>,
}

impl View for Trapd {
    type V = TrapdModel;

    open spec fn view(&self) -> TrapdModel {
        TrapdModel {
            snmp_trap_address: ostr(self.snmp_trap_address),
            snmp_trap_port: self.snmp_trap_port,
            new_suspect_on_trap: self.new_suspect_on_trap,
            include_raw_message: self.include_raw_message,
            threads: self.threads,
            queue_size: self.queue_size,
            batch_size: self.batch_size,
            batch_interval: self.batch_interval,
            use_address_from_varbind: self.use_address_from_varbind,
            snmpv3_users: self.snmpv3_users@.map_values(|v: TrapdV3User| v@),
        }
    }
}

impl Trapd {
    /// A copy with the same model.
    pub fn duplicate(&self) -> (r: Self)
        ensures
            r@ == self@,
    {
        Trapd {
            snmp_trap_address: clone_opt(&self.snmp_trap_address),
            snmp_trap_port: self.snmp_trap_port,
            new_suspect_on_trap: self.new_suspect_on_trap,
            include_raw_message: self.include_raw_message,
            threads: self.threads,
            queue_size: self.queue_size,
            batch_size: self.batch_size,
            batch_interval: self.batch_interval,
            use_address_from_varbind: self.use_address_from_varbind,
            snmpv3_users: TrapdV3User::duplicate_all(&self.snmpv3_users),
        }
    }

    /// Copies of every element, in order.
    pub fn duplicate_all(v: &Vec<Self>) -> (r: Vec<Self>)
        ensures
            r@.map_values(|x: Self| x@) == v@.map_values(|x: Self| x@),
            r.len() == v.len(),
    {
        let mut r: Vec<Self> = Vec::new();
        let mut i: usize = 0;
        while i < v.len()
            invariant
                i <= v.len(),
                r.len() == i,
                forall|j: int| 0 <= j < i ==> #[trigger] r@[j]@ == v@[j]@,
            decreases v.len() - i,
        {
            r.push(v[i].duplicate());
            i = i + 1;
        }
        assert(r@.map_values(|x: Self| x@) =~= v@.map_values(|x: Self| x@));
        r
    }
}

/// An SNMPv3 trap user; `security_name` is its reference key.
#[derive(Clone, Debug, Default, PartialEq, Eq)]
pub struct TrapdV3User {
    pub security_name: String,
    pub engine_id: Option<String>,
    pub security_level: Option<SecurityLevel>,
    pub auth_protocol: Option<String>,
    pub auth_passphrase: Option<SecretRef>,
    pub privacy_protocol: Option<String>,
    pub privacy_passphrase: Option<SecretRef>,
}

/// The mathematical model of [`TrapdV3User`].
pub struct TrapdV3UserModel {
    pub security_name: Seq<char>,
    pub engine_id: Option<Seq<char>>,
    pub security_level: Option<SecurityLevel>,
    pub auth_protocol: Option<Seq<char>>,
    pub auth_passphrase: Option<SecretRefModel>,
    pub privacy_protocol: Option<Seq<char>>,
    pub privacy_passphrase: Option<SecretRefModel>,
}

impl View for TrapdV3User {
    type V = TrapdV3UserModel;

    open spec fn view(&self) -> TrapdV3UserModel {
        TrapdV3UserModel {
            security_name: self.security_name@,
            engine_id: ostr(self.engine_id),
            security_level: self.security_level,
            auth_protocol: ostr(self.auth_protocol),
            auth_passphrase: match self.auth_passphrase { Some(v) => Some(v@), None => None },
            privacy_protocol: ostr(self.privacy_protocol),
            privacy_passphrase: match self.privacy_passphrase { Some(v) => Some(v@), None => None },
        }
    }
}

impl TrapdV3User {
    /// A copy with the same model.
    pub fn duplicate(&self) -> (r: Self)
        ensures
            r@ == self@,
    {
        TrapdV3User {
            security_name: self.security_name.clone(),
            engine_id: clone_opt(&self.engine_id),
            security_level: self.security_level,
            auth_protocol: clone_opt(&self.auth_protocol),
            auth_passphrase: match &self.auth_passphrase { Some(v) => Some(v.duplicate()), None => None },
            privacy_protocol: clone_opt(&self.privacy_protocol),
            privacy_passphrase: match &self.privacy_passphrase { Some(v) => Some(v.duplicate()), None => None },
        }
    }

    /// Copies of every element, in order.
    pub fn duplicate_all(v: &Vec<Self>) -> (r: Vec<Self>)
        ensures
            r@.map_values(|x: Self| x@) == v@.map_values(|x: Self| x@),
            r.len() == v.len(),
    {
        let mut r: Vec<Self> = Vec::new();
        let mut i: usize = 0;
        while i < v.len()
            invariant
                i <= v.len(),
                r.len() == i,
                forall|j: int| 0 <= j < i ==> #[trigger] r@[j]@ == v@[j]@,
            decreases v.len() - i,
        {
            r.push(v[i].duplicate());
            i = i + 1;
        }
        assert(r@.map_values(|x: Self| x@) =~= v@.map_values(|x: Self| x@));
        r
    }
}

} // verus!
