//! Wire-format types of the v2 snmp-config and trap-daemon endpoints.

use vstd::prelude::*;
use crate::text::{clone_opt, clone_strs, ostr, strs};

verus! {

/// The SNMP parameter set shared by the defaults, each definition and each
/// profile on the wire (`Configuration`). Every field is optional; absent
/// fields take the server's schema defaults.
#[derive(Clone, Debug, Default, PartialEq, Eq)]
pub struct Configuration {
    pub port: Option<i32>,
    pub retry: Option<i32>,
    pub timeout: Option<i32>,
    pub ttl: Option<i64>,
    pub proxy_host: Option<String>,
    /// `v1` / `v2c` / `v3`.
    pub version: Option<String>,
    pub read_community: Option<String>,
    pub write_community: Option<String>,
    pub max_vars_per_pdu: Option<i32>,
    pub max_repetitions: Option<i32>,
    pub max_request_size: Option<i32>,
    /// Server-managed: whether stored secrets are encrypted.
    pub encrypted: Option<bool>,
    pub security_name: Option<String>,
    /// `1` = noAuthNoPriv, `2` = authNoPriv, `3` = authPriv.
    pub security_level: Option<i32>,
    pub auth_protocol: Option<String>,
    pub auth_passphrase: Option<String>,
    pub privacy_protocol: Option<String>,
    pub privacy_passphrase: Option<String>,
    pub context_name: Option<String>,
    pub engine_id: Option<String>,
    pub context_engine_id: Option<String>,
    pub enterprise_id: Option<String>,
}

/// The mathematical model of [`Configuration`].
pub struct ConfigurationModel {
    pub port: Option<i32>,
    pub retry: Option<i32>,
    pub timeout: Option<i32>,
    pub ttl: Option<i64>,
    pub proxy_host: Option<Seq<char>>,
    pub version: Option<Seq<char>>,
    pub read_community: Option<Seq<char>>,
    pub write_community: Option<Seq<char>>,
    pub max_vars_per_pdu: Option<i32>,
    pub max_repetitions: Option<i32>,
    pub max_request_size: Option<i32>,
    pub encrypted: Option<bool>,
    pub security_name: Option<Seq<char>>,
    pub security_level: Option<i32>,
    pub auth_protocol: Option<Seq<char>>,
    pub auth_passphrase: Option<Seq<char>>,
    pub privacy_protocol: Option<Seq<char>>,
    pub privacy_passphrase: Option<Seq<char>>,
    pub context_name: Option<Seq<char>>,
    pub engine_id: Option<Seq<char>>,
    pub context_engine_id: Option<Seq<char>>,
    pub enterprise_id: Option<Seq<char>>,
}

impl View for Configuration {
    type V = ConfigurationModel;

    open spec fn view(&self) -> ConfigurationModel {
        ConfigurationModel {
            port: self.port,
            retry: self.retry,
            timeout: self.timeout,
            ttl: self.ttl,
            proxy_host: ostr(self.proxy_host),
            version: ostr(self.version),
            read_community: ostr(self.read_community),
            write_community: ostr(self.write_community),
            max_vars_per_pdu: self.max_vars_per_pdu,
            max_repetitions: self.max_repetitions,
            max_request_size: self.max_request_size,
            encrypted: self.encrypted,
            security_name: ostr(self.security_name),
            security_level: self.security_level,
            auth_protocol: ostr(self.auth_protocol),
            auth_passphrase: ostr(self.auth_passphrase),
            privacy_protocol: ostr(self.privacy_protocol),
            privacy_passphrase: ostr(self.privacy_passphrase),
            context_name: ostr(self.context_name),
            engine_id: ostr(self.engine_id),
            context_engine_id: ostr(self.context_engine_id),
            enterprise_id: ostr(self.enterprise_id),
        }
    }
}

impl Configuration {
    /// A copy with the same model.
    pub fn duplicate(&self) -> (r: Self)
        ensures
            r@ == self@,
    {
        Configuration {
            port: self.port,
            retry: self.retry,
            timeout: self.timeout,
            ttl: self.ttl,
            proxy_host: clone_opt(&self.proxy_host),
            version: clone_opt(&self.version),
            read_community: clone_opt(&self.read_community),
            write_community: clone_opt(&self.write_community),
            max_vars_per_pdu: self.max_vars_per_pdu,
            max_repetitions: self.max_repetitions,
            max_request_size: self.max_request_size,
            encrypted: self.encrypted,
            security_name: clone_opt(&self.security_name),
            security_level: self.security_level,
            auth_protocol: clone_opt(&self.auth_protocol),
            auth_passphrase: clone_opt(&self.auth_passphrase),
            privacy_protocol: clone_opt(&self.privacy_protocol),
            privacy_passphrase: clone_opt(&self.privacy_passphrase),
            context_name: clone_opt(&self.context_name),
            engine_id: clone_opt(&self.engine_id),
            context_engine_id: clone_opt(&self.context_engine_id),
            enterprise_id: clone_opt(&self.enterprise_id),
        }
    }

    /// Copies of every element, in order.
    pub fn duplicate_all(v: &Vec<Self>) -> (r: Vec<Self>)
        ensures
            r@.map_values(|x: Self| x@) == v@.map_values(|x: Self| x@),
            r.len() == v.len(),
    {
        let mut r: Vec<Self> = Vec::new();
        let mut i: usize = 0;
        while i < v.len()
            invariant
                i <= v.len(),
                r.len() == i,
                forall|j: int| 0 <= j < i ==> #[trigger] r@[j]@ == v@[j]@,
            decreases v.len() - i,
        {
            r.push(v[i].duplicate());
            i = i + 1;
        }
        assert(r@.map_values(|x: Self| x@) =~= v@.map_values(|x: Self| x@));
        r
    }
}

/// An IP range selector (`begin`..`end`, inclusive).
#[derive(Clone, Debug, Default, PartialEq, Eq)]
pub struct Range {
    pub begin: String,
    pub end: String,
}

/// The mathematical model of [`Range`].
pub struct RangeModel {
    pub begin: Seq<char>,
    pub end: Seq<char>,
}

impl View for Range {
    type V = RangeModel;

    open spec fn view(&self) -> RangeModel {
        RangeModel {
            begin: self.begin@,
            end: self.end@,
        }
    }
}

impl Range {
    /// A copy with the same model.
    pub fn duplicate(&self) -> (r: Self)
        ensures
            r@ == self@,
    {
        Range {
            begin: self.begin.clone(),
            end: self.end.clone(),
        }
    }

    /// Copies of every element, in order.
    pub fn duplicate_all(v: &Vec<Self>) -> (r: Vec<Self>)
        ensures
            r@.map_values(|x: Self| x@) == v@.map_values(|x: Self| x@),
            r.len() == v.len(),
    {
        let mut r: Vec<Self> = Vec::new();
        let mut i: usize = 0;
        while i < v.len()
            invariant
                i <= v.len(),
                r.len() == i,
                forall|j: int| 0 <= j < i ==> #[trigger] r@[j]@ == v@[j]@,
            decreases v.len() - i,
        {
            r.push(v[i].duplicate());
            i = i + 1;
        }
        assert(r@.map_values(|x: Self| x@) =~= v@.map_values(|x: Self| x@));
        r
    }
}

/// A per-target override: a parameter set plus the selectors and the
/// location it applies at.
#[derive(Clone, Debug, Default, PartialEq, Eq)]
pub struct Definition {
    pub config: Configuration,
    pub specific: Vec<String>,
    pub range: Vec<Range>,
    pub ip_match: Vec<String>,
    pub location: Option<String>,
    pub profile_label: Option<String>,
}

/// The mathematical model of [`Definition`].
pub struct DefinitionModel {
    pub config: ConfigurationModel,
    pub specific: Seq<Seq<char>>,
    pub range: Seq<RangeModel>,
    pub ip_match: Seq<Seq<char>>,
    pub location: Option<Seq<char>>,
    pub profile_label: Option<Seq<char>>,
}

impl View for Definition {
    type V = DefinitionModel;

    open spec fn view(&self) -> DefinitionModel {
        DefinitionModel {
            config: self.config@,
            specific: strs(self.specific@),
            range: self.range@.map_values(|v: Range| v@),
            ip_match: strs(self.ip_match@),
            location: ostr(self.location),
            profile_label: ostr(self.profile_label),
        }
    }
}

impl Definition {
    /// A copy with the same model.
    pub fn duplicate(&self) -> (r: Self)
        ensures
            r@ == self@,
    {
        Definition {
            config: self.config.duplicate(),
            specific: clone_strs(&self.specific),
            range: Range::duplicate_all(&self.range),
            ip_match: clone_strs(&self.ip_match),
            location: clone_opt(&self.location),
            profile_label: clone_opt(&self.profile_label),
        }
    }

    /// Copies of every element, in order.
    pub fn duplicate_all(v: &Vec<Self>) -> (r: Vec<Self>)
        ensures
            r@.map_values(|x: Self| x@) == v@.map_values(|x: Self| x@),
            r.len() == v.len(),
    {
        let mut r: Vec<Self> = Vec::new();
        let mut i: usize = 0;
        while i < v.len()
            invariant
                i <= v.len(),
                r.len() == i,
                forall|j: int| 0 <= j < i ==> #[trigger] r@[j]@ == v@[j]@,
            decreases v.len() - i,
        {
            r.push(v[i].duplicate());
            i = i + 1;
        }
        assert(r@.map_values(|x: Self| x@) =~= v@.map_values(|x: Self| x@));
        r
    }
}

/// A named, reusable parameter template with an optional `filter`.
#[derive(Clone, Debug, Default, PartialEq, Eq)]
pub struct SnmpProfile {
    pub config: Configuration,
    pub label: Option<String>,
    pub filter: Option<String>,
}

/// The mathematical model of [`SnmpProfile`].
pub struct SnmpProfileModel {
    pub config: ConfigurationModel,
    pub label: Option<Seq<char>>,
    pub filter: Option<Seq<char>>,
}

impl View for SnmpProfile {
    type V = SnmpProfileModel;

    open spec fn view(&self) -> SnmpProfileModel {
        SnmpProfileModel {
            config: self.config@,
            label: ostr(self.label),
            filter: ostr(self.filter),
        }
    }
}

impl SnmpProfile {
    /// A copy with the same model.
    pub fn duplicate(&self) -> (r: Self)
        ensures
            r@ == self@,
    {
        SnmpProfile {
            config: self.config.duplicate(),
            label: clone_opt(&self.label),
            filter: clone_opt(&self.filter),
        }
    }

    /// Copies of every element, in order.
    pub fn duplicate_all(v: &Vec<Self>) -> (r: Vec<Self>)
        ensures
            r@.map_values(|x: Self| x@) == v@.map_values(|x: Self| x@),
            r.len() == v.len(),
    {
        let mut r: Vec<Self> = Vec::new();
        let mut i: usize = 0;
        while i < v.len()
            invariant
                i <= v.len(),
                r.len() == i,
                forall|j: int| 0 <= j < i ==> #[trigger] r@[j]@ == v@[j]@,
            decreases v.len() - i,
        {
            r.push(v[i].duplicate());
            i = i + 1;
        }
        assert(r@.map_values(|x: Self| x@) =~= v@.map_values(|x: Self| x@));
        r
    }
}

/// The `profiles` wrapper: `{ "profile": [ … ] }`.
#[derive(Clone, Debug, Default, PartialEq, Eq)]
pub struct SnmpProfiles {
    pub profile: Vec<SnmpProfile>,
}

/// The mathematical model of [`SnmpProfiles`].
pub struct SnmpProfilesModel {
    pub profile: Seq<SnmpProfileModel>,
}

impl View for SnmpProfiles {
    type V = SnmpProfilesModel;

    open spec fn view(&self) -> SnmpProfilesModel {
        SnmpProfilesModel {
            profile: self.profile@.map_values(|v: SnmpProfile| v@),
        }
    }
}

impl SnmpProfiles {
    /// A copy with the same model.
    pub fn duplicate(&self) -> (r: Self)
        ensures
            r@ == self@,
    {
        SnmpProfiles {
            profile: SnmpProfile::duplicate_all(&self.profile),
        }
    }

    /// Copies of every element, in order.
    pub fn duplicate_all(v: &Vec<Self>) -> (r: Vec<Self>)
        ensures
            r@.map_values(|x: Self| x@) == v@.map_values(|x: Self| x@),
            r.len() == v.len(),
    {
        let mut r: Vec<Self> = Vec::new();
        let mut i: usize = 0;
        while i < v.len()
            invariant
                i <= v.len(),
                r.len() == i,
                forall|j: int| 0 <= j < i ==> #[trigger] r@[j]@ == v@[j]@,
            decreases v.len() - i,
        {
            r.push(v[i].duplicate());
            i = i + 1;
        }
        assert(r@.map_values(|x: Self| x@) =~= v@.map_values(|x: Self| x@));
        r
    }
}

/// The whole SNMP configuration: inline defaults, definitions and profiles.
#[derive(Clone, Debug, Default, PartialEq, Eq)]
pub struct SnmpConfig {
    pub defaults: Configuration,
    pub definition: Vec<Definition>,
    pub profiles: SnmpProfiles,
}

/// The mathematical model of [`SnmpConfig`].
pub struct SnmpConfigModel {
    pub defaults: ConfigurationModel,
    pub definition: Seq<DefinitionModel>,
    pub profiles: SnmpProfilesModel,
}

impl View for SnmpConfig {
    type V = SnmpConfigModel;

    open spec fn view(&self) -> SnmpConfigModel {
        SnmpConfigModel {
            defaults: self.defaults@,
            definition: self.definition@.map_values(|v: Definition| v@),
            profiles: self.profiles@,
        }
    }
}

impl SnmpConfig {
    /// A copy with the same model.
    pub fn duplicate(&self) -> (r: Self)
        ensures
            r@ == self@,
    {
        SnmpConfig {
            defaults: self.defaults.duplicate(),
            definition: Definition::duplicate_all(&self.definition),
            profiles: self.profiles.duplicate(),
        }
    }

    /// Copies of every element, in order.
    pub fn duplicate_all(v: &Vec<Self>) -> (r: Vec<Self>)
        ensures
            r@.map_values(|x: Self| x@) == v@.map_values(|x: Self| x@),
            r.len() == v.len(),
    {
        let mut r: Vec<Self> = Vec::new();
        let mut i: usize = 0;
        while i < v.len()
            invariant
                i <= v.len(),
                r.len() == i,
                forall|j: int| 0 <= j < i ==> #[trigger] r@[j]@ == v@[j]@,
            decreases v.len() - i,
        {
            r.push(v[i].duplicate());
            i = i + 1;
        }
        assert(r@.map_values(|x: Self| x@) =~= v@.map_values(|x: Self| x@));
        r
    }
}

/// The effective (merged) agent configuration for one IP at one location,
/// as returned by the lookup endpoint.
#[derive(Clone, Debug, Default, PartialEq, Eq)]
pub struct SnmpAgentConfig {
    pub address: Option<String>,
    pub proxy_for: Option<String>,
    pub port: Option<i32>,
    pub timeout: Option<i32>,
    pub retries: Option<i32>,
    pub version_as_string: Option<String>,
    pub max_vars_per_pdu: Option<i32>,
    pub max_repetitions: Option<i32>,
    pub max_request_size: Option<i32>,
    pub ttl: Option<i64>,
    pub security_level: Option<i32>,
    pub security_name: Option<String>,
    pub auth_protocol: Option<String>,
    pub auth_pass_phrase: Option<String>,
    pub priv_protocol: Option<String>,
    pub priv_pass_phrase: Option<String>,
    pub read_community: Option<String>,
    pub write_community: Option<String>,
    pub context_name: Option<String>,
    pub engine_id: Option<String>,
    pub context_engine_id: Option<String>,
    pub enterprise_id: Option<String>,
    pub profile_label: Option<String>,
}

/// The mathematical model of [`SnmpAgentConfig`].
pub struct SnmpAgentConfigModel {
    pub address: Option<Seq<char>>,
    pub proxy_for: Option<Seq<char>>,
    pub port: Option<i32>,
    pub timeout: Option<i32>,
    pub retries: Option<i32>,
    pub version_as_string: Option<Seq<char>>,
    pub max_vars_per_pdu: Option<i32>,
    pub max_repetitions: Option<i32>,
    pub max_request_size: Option<i32>,
    pub ttl: Option<i64>,
    pub security_level: Option<i32>,
    pub security_name: Option<Seq<char>>,
    pub auth_protocol: Option<Seq<char>>,
    pub auth_pass_phrase: Option<Seq<char>>,
    pub priv_protocol: Option<Seq<char>>,
    pub priv_pass_phrase: Option<Seq<char>>,
    pub read_community: Option<Seq<char>>,
    pub write_community: Option<Seq<char>>,
    pub context_name: Option<Seq<char>>,
    pub engine_id: Option<Seq<char>>,
    pub context_engine_id: Option<Seq<char>>,
    pub enterprise_id: Option<Seq<char>>,
    pub profile_label: Option<Seq<char>>,
}

impl View for SnmpAgentConfig {
    type V = SnmpAgentConfigModel;

    open spec fn view(&self) -> SnmpAgentConfigModel {
        SnmpAgentConfigModel {
            address: ostr(self.address),
            proxy_for: ostr(self.proxy_for),
            port: self.port,
            timeout: self.timeout,
            retries: self.retries,
            version_as_string: ostr(self.version_as_string),
            max_vars_per_pdu: self.max_vars_per_pdu,
            max_repetitions: self.max_repetitions,
            max_request_size: self.max_request_size,
            ttl: self.ttl,
            security_level: self.security_level,
            security_name: ostr(self.security_name),
            auth_protocol: ostr(self.auth_protocol),
            auth_pass_phrase: ostr(self.auth_pass_phrase),
            priv_protocol: ostr(self.priv_protocol),
            priv_pass_phrase: ostr(self.priv_pass_phrase),
            read_community: ostr(self.read_community),
            write_community: ostr(self.write_community),
            context_name: ostr(self.context_name),
            engine_id: ostr(self.engine_id),
            context_engine_id: ostr(self.context_engine_id),
            enterprise_id: ostr(self.enterprise_id),
            profile_label: ostr(self.profile_label),
        }
    }
}

impl SnmpAgentConfig {
    /// A copy with the same model.
    pub fn duplicate(&self) -> (r: Self)
        ensures
            r@ == self@,
    {
        SnmpAgentConfig {
            address: clone_opt(&self.address),
            proxy_for: clone_opt(&self.proxy_for),
            port: self.port,
            timeout: self.timeout,
            retries: self.retries,
            version_as_string: clone_opt(&self.version_as_string),
            max_vars_per_pdu: self.max_vars_per_pdu,
            max_repetitions: self.max_repetitions,
            max_request_size: self.max_request_size,
            ttl: self.ttl,
            security_level: self.security_level,
            security_name: clone_opt(&self.security_name),
            auth_protocol: clone_opt(&self.auth_protocol),
            auth_pass_phrase: clone_opt(&self.auth_pass_phrase),
            priv_protocol: clone_opt(&self.priv_protocol),
            priv_pass_phrase: clone_opt(&self.priv_pass_phrase),
            read_community: clone_opt(&self.read_community),
            write_community: clone_opt(&self.write_community),
            context_name: clone_opt(&self.context_name),
            engine_id: clone_opt(&self.engine_id),
            context_engine_id: clone_opt(&self.context_engine_id),
            enterprise_id: clone_opt(&self.enterprise_id),
            profile_label: clone_opt(&self.profile_label),
        }
    }

    /// Copies of every element, in order.
    pub fn duplicate_all(v: &Vec<Self>) -> (r: Vec<Self>)
        ensures
            r@.map_values(|x: Self| x@) == v@.map_values(|x: Self| x@),
            r.len() == v.len(),
    {
        let mut r: Vec<Self> = Vec::new();
        let mut i: usize = 0;
        while i < v.len()
            invariant
                i <= v.len(),
                r.len() == i,
                forall|j: int| 0 <= j < i ==> #[trigger] r@[j]@ == v@[j]@,
            decreases v.len() - i,
        {
            r.push(v[i].duplicate());
            i = i + 1;
        }
        assert(r@.map_values(|x: Self| x@) =~= v@.map_values(|x: Self| x@));
        r
    }
}

/// The trap daemon configuration on the wire (a flat singleton).
#[derive(Clone, Debug, Default, PartialEq, Eq)]
pub struct TrapdConfig {
    pub snmp_trap_address: Option<String>,
    pub snmp_trap_port: Option<i32>,
    pub new_suspect_on_trap: Option<bool>,
    pub include_raw_message: Option<bool>,
    pub threads: Option<i32>,
    pub queue_size: Option<i32>,
    pub batch_size: Option<i32>,
    pub batch_interval: Option<i32>,
    pub use_address_from_varbind: Option<bool>,
    /// SNMPv3 trap users.
    pub snmpv3_user: Vec<Snmpv3User>,
}

/// The mathematical model of [`TrapdConfig`].
pub struct TrapdConfigModel {
    pub snmp_trap_address: Option<Seq<char>>,
    pub snmp_trap_port: Option<i32>,
    pub new_suspect_on_trap: Option<bool>,
    pub include_raw_message: Option<bool>,
    pub threads: Option<i32>,
    pub queue_size: Option<i32>,
    pub batch_size: Option<i32>,
    pub batch_interval: Option<i32>,
    pub use_address_from_varbind: Option<bool>,
    pub snmpv3_user: Seq<Snmpv3UserModel>,
}

impl View for TrapdConfig {
    type V = TrapdConfigModel;

    open spec fn view(&self) -> TrapdConfigModel {
        TrapdConfigModel {
            snmp_trap_address: ostr(self.snmp_trap_address),
            snmp_trap_port: self.snmp_trap_port,
            new_suspect_on_trap: self.new_suspect_on_trap,
            include_raw_message: self.include_raw_message,
            threads: self.threads,
            queue_size: self.queue_size,
            batch_size: self.batch_size,
            batch_interval: self.batch_interval,
            use_address_from_varbind: self.use_address_from_varbind,
            snmpv3_user: self.snmpv3_user@.map_values(|v: Snmpv3User| v@),
        }
    }
}

impl TrapdConfig {
    /// A copy with the same model.
    pub fn duplicate(&self) -> (r: Self)
        ensures
            r@ == self@,
    {
        TrapdConfig {
            snmp_trap_address: clone_opt(&self.snmp_trap_address),
            snmp_trap_port: self.snmp_trap_port,
            new_suspect_on_trap: self.new_suspect_on_trap,
            include_raw_message: self.include_raw_message,
            threads: self.threads,
            queue_size: self.queue_size,
            batch_size: self.batch_size,
            batch_interval: self.batch_interval,
            use_address_from_varbind: self.use_address_from_varbind,
            snmpv3_user: Snmpv3User::duplicate_all(&self.snmpv3_user),
        }
    }

    /// Copies of every element, in order.
    pub fn duplicate_all(v: &Vec<Self>) -> (r: Vec<Self>)
        ensures
            r@.map_values(|x: Self| x@) == v@.map_values(|x: Self| x@),
            r.len() == v.len(),
    {
        let mut r: Vec<Self> = Vec::new();
        let mut i: usize = 0;
        while i < v.len()
            invariant
                i <= v.len(),
                r.len() == i,
                forall|j: int| 0 <= j < i ==> #[trigger] r@[j]@ == v@[j]@,
            decreases v.len() - i,
        {
            r.push(v[i].duplicate());
            i = i + 1;
        }
        assert(r@.map_values(|x: Self| x@) =~= v@.map_values(|x: Self| x@));
        r
    }
}

/// An SNMPv3 trap user on the wire.
#[derive(Clone, Debug, Default, PartialEq, Eq)]
pub struct Snmpv3User {
    pub engine_id: Option<String>,
    pub security_name: Option<String>,
    pub security_level: Option<i32>,
    pub auth_protocol: Option<String>,
    pub auth_passphrase: Option<String>,
    pub privacy_protocol: Option<String>,
    pub privacy_passphrase: Option<String>,
}

/// The mathematical model of [`Snmpv3User`].
pub struct Snmpv3UserModel {
    pub engine_id: Option<Seq<char>>,
    pub security_name: Option<Seq<char>>,
    pub security_level: Option<i32>,
    pub auth_protocol: Option<Seq<char>>,
    pub auth_passphrase: Option<Seq<char>>,
    pub privacy_protocol: Option<Seq<char>>,
    pub privacy_passphrase: Option<Seq<char>>,
}

impl View for Snmpv3User {
    type V = Snmpv3UserModel;

    open spec fn view(&self) -> Snmpv3UserModel {
        Snmpv3UserModel {
            engine_id: ostr(self.engine_id),
            security_name: ostr(self.security_name),
            security_level: self.security_level,
            auth_protocol: ostr(self.auth_protocol),
            auth_passphrase: ostr(self.auth_passphrase),
            privacy_protocol: ostr(self.privacy_protocol),
            privacy_passphrase: ostr(self.privacy_passphrase),
        }
    }
}

impl Snmpv3User {
    /// A copy with the same model.
    pub fn duplicate(&self) -> (r: Self)
        ensures
            r@ == self@,
    {
        Snmpv3User {
            engine_id: clone_opt(&self.engine_id),
            security_name: clone_opt(&self.security_name),
            security_level: self.security_level,
            auth_protocol: clone_opt(&self.auth_protocol),
            auth_passphrase: clone_opt(&self.auth_passphrase),
            privacy_protocol: clone_opt(&self.privacy_protocol),
            privacy_passphrase: clone_opt(&self.privacy_passphrase),
        }
    }

    /// Copies of every element, in order.
    pub fn duplicate_all(v: &Vec<Self>) -> (r: Vec<Self>)
        ensures
            r@.map_values(|x: Self| x@) == v@.map_values(|x: Self| x@),
            r.len() == v.len(),
    {
        let mut r: Vec<Self> = Vec::new();
        let mut i: usize = 0;
        while i < v.len()
            invariant
                i <= v.len(),
                r.len() == i,
                forall|j: int| 0 <= j < i ==> #[trigger] r@[j]@ == v@[j]@,
            decreases v.len() - i,
        {
            r.push(v[i].duplicate());
            i = i + 1;
        }
        assert(r@.map_values(|x: Self| x@) =~= v@.map_values(|x: Self| x@));
        r
    }
}
impl SnmpProfiles {
    /// Whether the wrapper holds no profile.
    pub fn is_empty(&self) -> (b: bool)
        ensures
            b == (self@.profile.len() == 0),
    {
        self.profile.len() == 0
    }
}

} // verus!
