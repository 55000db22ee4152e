//! Conversions between the local model ([`crate::snmp::model`]) and the
//! wire types ([`crate::snmp::server`]).
//!
//! - [`to_wire`] projects the local document onto the wire shape with every
//!   secret field left `None` (the diff input).
//! - [`inject_secrets`] fills the secret fields of a wire parameter set from
//!   values resolved at apply time (the upload path).
//! - [`from_wire`] maps a server response back to the local model for
//!   export, emitting each secret as a per-occurrence `fromEnv` placeholder.

use vstd::prelude::*;
use crate::snmp::model::{
    MetadataModel, Spec, SpecModel, Metadata, Trapd, TrapdModel, TrapdV3User, TrapdV3UserModel,
    API_VERSION, KIND, SINGLETON_NAME, DefinitionLocal, DefinitionLocalModel, Params, ParamsModel, ProfileLocal, ProfileLocalModel,
    RangeLocal, RangeLocalModel, SecurityLevel, SnmpConfigLocal, SnmpConfigLocalModel,
};
use crate::snmp::secret::{FromEnvRef, FromEnvRefModel, SecretRef, SecretRefModel};
use crate::snmp::server::{
    Snmpv3User, Snmpv3UserModel, TrapdConfig, TrapdConfigModel, Configuration, ConfigurationModel, Definition, DefinitionModel, Range, RangeModel, SnmpConfig,
    SnmpConfigModel, SnmpProfile, SnmpProfileModel, SnmpProfiles, SnmpProfilesModel,
};
use crate::text::{
    append_str, char_is_ascii_alnum, char_upper, chars_of, clone_opt, clone_strs, dec,
    fmt_usize, is_ascii_alnum, ostr, own, string_of, strs, upper,
};

verus! {

// ---------------------------------------------------------------------------
// Security level
// ---------------------------------------------------------------------------

pub open spec fn spec_level_to_wire(l: SecurityLevel) -> i32 {
    match l {
        SecurityLevel::NoAuthNoPriv => 1,
        SecurityLevel::AuthNoPriv => 2,
        SecurityLevel::AuthPriv => 3,
    }
}

pub open spec fn spec_level_from_wire(n: i32) -> Option<SecurityLevel> {
    if n == 1 {
        Some(SecurityLevel::NoAuthNoPriv)
    } else if n == 2 {
        Some(SecurityLevel::AuthNoPriv)
    } else if n == 3 {
        Some(SecurityLevel::AuthPriv)
    } else {
        None
    }
}

pub open spec fn opt_level_to_wire(l: Option<SecurityLevel>) -> Option<i32> {
    match l {
        Some(x) => Some(spec_level_to_wire(x)),
        None => None,
    }
}

pub open spec fn opt_level_from_wire(n: Option<i32>) -> Option<SecurityLevel> {
    match n {
        Some(x) => spec_level_from_wire(x),
        None => None,
    }
}

/// `noAuthNoPriv`/`authNoPriv`/`authPriv` → wire 1/2/3.
pub fn level_to_wire(l: SecurityLevel) -> (n: i32)
    ensures
        n == spec_level_to_wire(l),
{
    match l {
        SecurityLevel::NoAuthNoPriv => 1,
        SecurityLevel::AuthNoPriv => 2,
        SecurityLevel::AuthPriv => 3,
    }
}

/// Wire 1/2/3 → security level; any other number has none.
pub fn level_from_wire(n: i32) -> (l: Option<SecurityLevel>)
    ensures
        l == spec_level_from_wire(n),
{
    if n == 1 {
        Some(SecurityLevel::NoAuthNoPriv)
    } else if n == 2 {
        Some(SecurityLevel::AuthNoPriv)
    } else if n == 3 {
        Some(SecurityLevel::AuthPriv)
    } else {
        None
    }
}

fn opt_level_out(l: Option<SecurityLevel>) -> (n: Option<i32>)
    ensures
        n == opt_level_to_wire(l),
{
    match l {
        Some(x) => Some(level_to_wire(x)),
        None => None,
    }
}

fn opt_level_in(n: Option<i32>) -> (l: Option<SecurityLevel>)
    ensures
        l == opt_level_from_wire(n),
{
    match n {
        Some(x) => level_from_wire(x),
        None => None,
    }
}

/// Reading a level back from its wire number gives the level.
pub proof fn lemma_level_round_trip(l: SecurityLevel)
    ensures
        spec_level_from_wire(spec_level_to_wire(l)) == Some(l),
{
}

/// A wire number that names a level is the number of that level.
pub proof fn lemma_level_round_trip_wire(n: i32)
    ensures
        spec_level_from_wire(n) matches Some(l) ==> spec_level_to_wire(l) == n,
{
}

// ---------------------------------------------------------------------------
// Local → wire
// ---------------------------------------------------------------------------

/// A wire parameter set with every field absent.
pub open spec fn empty_config() -> ConfigurationModel {
    ConfigurationModel {
        port: None,
        retry: None,
        timeout: None,
        ttl: None,
        proxy_host: None,
        version: None,
        read_community: None,
        write_community: None,
        max_vars_per_pdu: None,
        max_repetitions: None,
        max_request_size: None,
        encrypted: None,
        security_name: None,
        security_level: None,
        auth_protocol: None,
        auth_passphrase: None,
        privacy_protocol: None,
        privacy_passphrase: None,
        context_name: None,
        engine_id: None,
        context_engine_id: None,
        enterprise_id: None,
    }
}

/// Local params → wire parameter set, secrets and `encrypted` left `None`.
pub open spec fn spec_params_to_config(p: ParamsModel) -> ConfigurationModel {
    ConfigurationModel {
        version: p.version,
        port: p.port,
        timeout: p.timeout,
        retry: p.retries,
        ttl: p.ttl,
        proxy_host: p.proxy_host,
        read_community: None,
        write_community: None,
        max_repetitions: p.max_repetitions,
        max_vars_per_pdu: p.max_vars_per_pdu,
        max_request_size: p.max_request_size,
        encrypted: None,
        security_name: p.security_name,
        security_level: opt_level_to_wire(p.security_level),
        auth_protocol: p.auth_protocol,
        auth_passphrase: None,
        privacy_protocol: p.privacy_protocol,
        privacy_passphrase: None,
        context_name: p.context_name,
        engine_id: p.engine_id,
        context_engine_id: p.context_engine_id,
        enterprise_id: p.enterprise_id,
    }
}

pub open spec fn spec_range_to_wire(r: RangeLocalModel) -> RangeModel {
    RangeModel { begin: r.begin, end: r.end }
}

pub open spec fn spec_definition_to_wire(d: DefinitionLocalModel) -> DefinitionModel {
    DefinitionModel {
        config: spec_params_to_config(d.params),
        specific: d.specifics,
        range: d.ranges.map_values(|r: RangeLocalModel| spec_range_to_wire(r)),
        ip_match: d.ip_matches,
        location: d.location,
        profile_label: d.profile_label,
    }
}

pub open spec fn spec_profile_to_wire(p: ProfileLocalModel) -> SnmpProfileModel {
    SnmpProfileModel {
        config: spec_params_to_config(p.params),
        label: Some(p.label),
        filter: p.filter_expression,
    }
}

/// The wire projection of a local document (no secrets).
pub open spec fn spec_to_wire(l: SnmpConfigLocalModel) -> SnmpConfigModel {
    SnmpConfigModel {
        defaults: match l.spec.defaults {
            Some(p) => spec_params_to_config(p),
            None => empty_config(),
        },
        definition: l.spec.definitions.map_values(
            |d: DefinitionLocalModel| spec_definition_to_wire(d),
        ),
        profiles: SnmpProfilesModel {
            profile: l.spec.profiles.map_values(|p: ProfileLocalModel| spec_profile_to_wire(p)),
        },
    }
}

fn empty_configuration() -> (c: Configuration)
    ensures
        c@ == empty_config(),
{
    Configuration {
        port: None,
        retry: None,
        timeout: None,
        ttl: None,
        proxy_host: None,
        version: None,
        read_community: None,
        write_community: None,
        max_vars_per_pdu: None,
        max_repetitions: None,
        max_request_size: None,
        encrypted: None,
        security_name: None,
        security_level: None,
        auth_protocol: None,
        auth_passphrase: None,
        privacy_protocol: None,
        privacy_passphrase: None,
        context_name: None,
        engine_id: None,
        context_engine_id: None,
        enterprise_id: None,
    }
}

/// Map local params → wire parameter set, leaving secret fields `None`.
pub fn params_to_config(p: &Params) -> (c: Configuration)
    ensures
        c@ == spec_params_to_config(p@),
{
    Configuration {
        version: clone_opt(&p.version),
        port: p.port,
        timeout: p.timeout,
        retry: p.retries,
        ttl: p.ttl,
        proxy_host: clone_opt(&p.proxy_host),
        read_community: None,
        write_community: None,
        max_repetitions: p.max_repetitions,
        max_vars_per_pdu: p.max_vars_per_pdu,
        max_request_size: p.max_request_size,
        encrypted: None,
        security_name: clone_opt(&p.security_name),
        security_level: opt_level_out(p.security_level),
        auth_protocol: clone_opt(&p.auth_protocol),
        auth_passphrase: None,
        privacy_protocol: clone_opt(&p.privacy_protocol),
        privacy_passphrase: None,
        context_name: clone_opt(&p.context_name),
        engine_id: clone_opt(&p.engine_id),
        context_engine_id: clone_opt(&p.context_engine_id),
        enterprise_id: clone_opt(&p.enterprise_id),
    }
}

/// Map one local definition onto the wire shape.
pub fn definition_to_wire(d: &DefinitionLocal) -> (w: Definition)
    ensures
        w@ == spec_definition_to_wire(d@),
{
    let mut range: Vec<Range> = Vec::new();
    let mut i: usize = 0;
    while i < d.ranges.len()
        invariant
            i <= d.ranges.len(),
            range.len() == i,
            forall|j: int|
                0 <= j < i ==> #[trigger] range@[j]@ == spec_range_to_wire(d.ranges@[j]@),
        decreases d.ranges.len() - i,
    {
        let r = &d.ranges[i];
        range.push(Range { begin: r.begin.clone(), end: r.end.clone() });
        i = i + 1;
    }
    let w = Definition {
        config: params_to_config(&d.params),
        specific: clone_strs(&d.specifics),
        range,
        ip_match: clone_strs(&d.ip_matches),
        location: clone_opt(&d.location),
        profile_label: clone_opt(&d.profile_label),
    };
    assert(w@.range =~= d@.ranges.map_values(|r: RangeLocalModel| spec_range_to_wire(r)));
    w
}

/// Map one local profile onto the wire shape (the label becomes `Some`).
pub fn profile_to_wire(p: &ProfileLocal) -> (w: SnmpProfile)
    ensures
        w@ == spec_profile_to_wire(p@),
{
    SnmpProfile {
        config: params_to_config(&p.params),
        label: Some(p.label.clone()),
        filter: clone_opt(&p.filter_expression),
    }
}

/// Project the local document onto the wire shape. Secret fields are left
/// `None`; pure.
pub fn to_wire(local: &SnmpConfigLocal) -> (w: SnmpConfig)
    ensures
        w@ == spec_to_wire(local@),
{
    let defaults = match &local.spec.defaults {
        Some(p) => params_to_config(p),
        None => empty_configuration(),
    };
    let mut definition: Vec<Definition> = Vec::new();
    let mut i: usize = 0;
    while i < local.spec.definitions.len()
        invariant
            i <= local.spec.definitions.len(),
            definition.len() == i,
            forall|j: int|
                0 <= j < i ==> #[trigger] definition@[j]@ == spec_definition_to_wire(
                    local.spec.definitions@[j]@,
                ),
        decreases local.spec.definitions.len() - i,
    {
        definition.push(definition_to_wire(&local.spec.definitions[i]));
        i = i + 1;
    }
    let mut profile: Vec<SnmpProfile> = Vec::new();
    let mut k: usize = 0;
    while k < local.spec.profiles.len()
        invariant
            k <= local.spec.profiles.len(),
            profile.len() == k,
            forall|j: int|
                0 <= j < k ==> #[trigger] profile@[j]@ == spec_profile_to_wire(
                    local.spec.profiles@[j]@,
                ),
        decreases local.spec.profiles.len() - k,
    {
        profile.push(profile_to_wire(&local.spec.profiles[k]));
        k = k + 1;
    }
    let w = SnmpConfig { defaults, definition, profiles: SnmpProfiles { profile } };
    assert(w@.definition =~= local@.spec.definitions.map_values(
        |d: DefinitionLocalModel| spec_definition_to_wire(d),
    ));
    assert(w@.profiles.profile =~= local@.spec.profiles.map_values(
        |p: ProfileLocalModel| spec_profile_to_wire(p),
    ));
    w
}

// ---------------------------------------------------------------------------
// Secret injection (upload path)
// ---------------------------------------------------------------------------

/// Secret values resolved for one parameter set, one per secret field.
/// A value is present only where the local parameter set names a reference
/// and that reference resolved.
#[derive(Clone, Debug, Default, PartialEq, Eq)]
pub struct ResolvedSecrets {
    pub read_community: Option<String>,
    pub write_community: Option<String>,
    pub auth_passphrase: Option<String>,
    pub privacy_passphrase: Option<String>,
}

/// The model of [`ResolvedSecrets`].
pub struct ResolvedSecretsModel {
    pub read_community: Option<Seq<char>>,
    pub write_community: Option<Seq<char>>,
    pub auth_passphrase: Option<Seq<char>>,
    pub privacy_passphrase: Option<Seq<char>>,
}

impl View for ResolvedSecrets {
    type V = ResolvedSecretsModel;

    open spec fn view(&self) -> ResolvedSecretsModel {
        ResolvedSecretsModel {
            read_community: ostr(self.read_community),
            write_community: ostr(self.write_community),
            auth_passphrase: ostr(self.auth_passphrase),
            privacy_passphrase: ostr(self.privacy_passphrase),
        }
    }
}

/// `v` where present, else `old`.
pub open spec fn overlay(old: Option<Seq<char>>, v: Option<Seq<char>>) -> Option<Seq<char>> {
    match v {
        Some(x) => Some(x),
        None => old,
    }
}

/// A wire parameter set with the resolved secrets written in.
pub open spec fn spec_inject(c: ConfigurationModel, s: ResolvedSecretsModel) -> ConfigurationModel {
    ConfigurationModel {
        read_community: overlay(c.read_community, s.read_community),
        write_community: overlay(c.write_community, s.write_community),
        auth_passphrase: overlay(c.auth_passphrase, s.auth_passphrase),
        privacy_passphrase: overlay(c.privacy_passphrase, s.privacy_passphrase),
        ..c
    }
}

fn overlay_exec(slot: &mut Option<String>, v: &Option<String>)
    ensures
        ostr(*final(slot)) == overlay(ostr(*old(slot)), ostr(*v)),
{
    if let Some(x) = v {
        *slot = Some(x.clone());
    }
}

/// Write resolved secret values into a wire parameter set. Non-secret
/// fields are untouched.
pub fn inject_secrets(secrets: &ResolvedSecrets, c: &mut Configuration)
    ensures
        final(c)@ == spec_inject(old(c)@, secrets@),
{
    overlay_exec(&mut c.read_community, &secrets.read_community);
    overlay_exec(&mut c.write_community, &secrets.write_community);
    overlay_exec(&mut c.auth_passphrase, &secrets.auth_passphrase);
    overlay_exec(&mut c.privacy_passphrase, &secrets.privacy_passphrase);
}


/// The upload payload: [`spec_to_wire`] with resolved secrets written into
/// the defaults and into each definition's and profile's parameters.
pub open spec fn spec_to_wire_with(
    l: SnmpConfigLocalModel,
    defaults: ResolvedSecretsModel,
    definitions: Seq<ResolvedSecretsModel>,
    profiles: Seq<ResolvedSecretsModel>,
) -> SnmpConfigModel {
    let w = spec_to_wire(l);
    SnmpConfigModel {
        defaults: spec_inject(w.defaults, defaults),
        definition: Seq::new(
            w.definition.len(),
            |i: int|
                (DefinitionModel {
                    config: spec_inject(w.definition[i].config, definitions[i]),
                    ..w.definition[i]
                }),
        ),
        profiles: SnmpProfilesModel {
            profile: Seq::new(
                w.profiles.profile.len(),
                |i: int|
                    (SnmpProfileModel {
                        config: spec_inject(w.profiles.profile[i].config, profiles[i]),
                        ..w.profiles.profile[i]
                    }),
            ),
        },
    }
}

/// The upload payload of a document, given the secrets its references
/// resolved to: for the defaults, and for each definition and profile in
/// order (absent values leave a field as it is).
pub fn to_wire_with_secrets(
    local: &SnmpConfigLocal,
    defaults: &ResolvedSecrets,
    definitions: &Vec<ResolvedSecrets>,
    profiles: &Vec<ResolvedSecrets>,
) -> (w: SnmpConfig)
    requires
        definitions.len() == local.spec.definitions.len(),
        profiles.len() == local.spec.profiles.len(),
    ensures
        w@ == spec_to_wire_with(
            local@,
            defaults@,
            definitions@.map_values(|s: ResolvedSecrets| s@),
            profiles@.map_values(|s: ResolvedSecrets| s@),
        ),
{
    let mut wire = to_wire(local);
    let ghost w0 = wire@;
    inject_secrets(defaults, &mut wire.defaults);
    let mut defs: Vec<Definition> = Vec::new();
    let mut i: usize = 0;
    while i < wire.definition.len()
        invariant
            i <= wire.definition.len(),
            wire.definition@.map_values(|d: Definition| d@) == w0.definition,
            wire.definition.len() == definitions.len(),
            defs.len() == i,
            forall|j: int|
                0 <= j < i ==> #[trigger] defs@[j]@ == (DefinitionModel {
                    config: spec_inject(w0.definition[j].config, definitions@[j]@),
                    ..w0.definition[j]
                }),
        decreases wire.definition.len() - i,
    {
        let mut d = wire.definition[i].duplicate();
        inject_secrets(&definitions[i], &mut d.config);
        defs.push(d);
        i = i + 1;
    }
    let mut profs: Vec<SnmpProfile> = Vec::new();
    let mut i: usize = 0;
    while i < wire.profiles.profile.len()
        invariant
            i <= wire.profiles.profile.len(),
            wire.profiles.profile@.map_values(|p: SnmpProfile| p@) == w0.profiles.profile,
            wire.profiles.profile.len() == profiles.len(),
            profs.len() == i,
            forall|j: int|
                0 <= j < i ==> #[trigger] profs@[j]@ == (SnmpProfileModel {
                    config: spec_inject(w0.profiles.profile[j].config, profiles@[j]@),
                    ..w0.profiles.profile[j]
                }),
        decreases wire.profiles.profile.len() - i,
    {
        let mut p = wire.profiles.profile[i].duplicate();
        inject_secrets(&profiles[i], &mut p.config);
        profs.push(p);
        i = i + 1;
    }
    let r = SnmpConfig {
        defaults: wire.defaults,
        definition: defs,
        profiles: SnmpProfiles { profile: profs },
    };
    assert(r@.definition =~= spec_to_wire_with(
        local@,
        defaults@,
        definitions@.map_values(|s: ResolvedSecrets| s@),
        profiles@.map_values(|s: ResolvedSecrets| s@),
    ).definition);
    assert(r@.profiles.profile =~= spec_to_wire_with(
        local@,
        defaults@,
        definitions@.map_values(|s: ResolvedSecrets| s@),
        profiles@.map_values(|s: ResolvedSecrets| s@),
    ).profiles.profile);
    r
}

// ---------------------------------------------------------------------------
// Wire → local (export)
// ---------------------------------------------------------------------------

pub open spec fn sanitize_char(c: char) -> char {
    if is_ascii_alnum(c) {
        upper(c)
    } else {
        '_'
    }
}

/// Uppercase, with every non-alphanumeric character replaced by `_`.
pub open spec fn spec_sanitize(s: Seq<char>) -> Seq<char> {
    s.map_values(|c: char| sanitize_char(c))
}

/// The placeholder environment-variable name for a secret `field` of a
/// tier `scope`: `SNMP_<field>_<scope>`.
pub open spec fn spec_secret_env(field: Seq<char>, scope: Seq<char>) -> Seq<char> {
    "SNMP_"@ + field + "_"@ + scope
}

/// A `fromEnv` reference to `name` when the wire carries a value.
pub open spec fn spec_placeholder(name: Seq<char>, v: Option<Seq<char>>) -> Option<SecretRefModel> {
    match v {
        Some(_) => Some(SecretRefModel::FromEnv(FromEnvRefModel { from_env: name })),
        None => None,
    }
}

pub open spec fn spec_config_to_params(c: ConfigurationModel, scope: Seq<char>) -> ParamsModel {
    ParamsModel {
        version: c.version,
        port: c.port,
        timeout: c.timeout,
        retries: c.retry,
        ttl: c.ttl,
        proxy_host: c.proxy_host,
        read_community: spec_placeholder(
            spec_secret_env("READ_COMMUNITY"@, scope),
            c.read_community,
        ),
        write_community: spec_placeholder(
            spec_secret_env("WRITE_COMMUNITY"@, scope),
            c.write_community,
        ),
        max_repetitions: c.max_repetitions,
        max_vars_per_pdu: c.max_vars_per_pdu,
        max_request_size: c.max_request_size,
        security_name: c.security_name,
        security_level: opt_level_from_wire(c.security_level),
        auth_protocol: c.auth_protocol,
        auth_passphrase: spec_placeholder(
            spec_secret_env("AUTH_PASSPHRASE"@, scope),
            c.auth_passphrase,
        ),
        privacy_protocol: c.privacy_protocol,
        privacy_passphrase: spec_placeholder(
            spec_secret_env("PRIVACY_PASSPHRASE"@, scope),
            c.privacy_passphrase,
        ),
        context_name: c.context_name,
        engine_id: c.engine_id,
        context_engine_id: c.context_engine_id,
        enterprise_id: c.enterprise_id,
    }
}

pub open spec fn or_empty(o: Option<Seq<char>>) -> Seq<char> {
    match o {
        Some(s) => s,
        None => Seq::empty(),
    }
}

/// The placeholder scope of the profile at index `i`: its sanitized label,
/// or the index when unlabeled.
pub open spec fn profile_scope(label: Seq<char>, i: nat) -> Seq<char> {
    if label.len() == 0 {
        "PROFILE_"@ + dec(i)
    } else {
        "PROFILE_"@ + spec_sanitize(label)
    }
}

/// The placeholder scope of the definition at index `i`: the index plus the
/// sanitized location when it has a non-empty one.
pub open spec fn definition_scope(location: Option<Seq<char>>, i: nat) -> Seq<char> {
    match location {
        Some(l) => if l.len() > 0 {
            "DEF_"@ + dec(i) + "_"@ + spec_sanitize(l)
        } else {
            "DEF_"@ + dec(i)
        },
        None => "DEF_"@ + dec(i),
    }
}

pub open spec fn spec_profile_from_wire(p: SnmpProfileModel, i: nat) -> ProfileLocalModel {
    ProfileLocalModel {
        params: spec_config_to_params(p.config, profile_scope(or_empty(p.label), i)),
        label: or_empty(p.label),
        filter_expression: p.filter,
    }
}

pub open spec fn spec_range_from_wire(r: RangeModel) -> RangeLocalModel {
    RangeLocalModel { begin: r.begin, end: r.end }
}

pub open spec fn spec_definition_from_wire(d: DefinitionModel, i: nat) -> DefinitionLocalModel {
    DefinitionLocalModel {
        params: spec_config_to_params(d.config, definition_scope(d.location, i)),
        specifics: d.specific,
        ranges: d.range.map_values(|r: RangeModel| spec_range_from_wire(r)),
        ip_matches: d.ip_match,
        location: d.location,
        profile_label: d.profile_label,
    }
}

/// The exported local document for a server configuration.
pub open spec fn spec_from_wire(w: SnmpConfigModel) -> SnmpConfigLocalModel {
    SnmpConfigLocalModel {
        api_version: API_VERSION@,
        kind: KIND@,
        metadata: MetadataModel { name: SINGLETON_NAME@ },
        spec: SpecModel {
            defaults: Some(spec_config_to_params(w.defaults, "DEFAULTS"@)),
            profiles: Seq::new(
                w.profiles.profile.len(),
                |i: int| spec_profile_from_wire(w.profiles.profile[i], i as nat),
            ),
            definitions: Seq::new(
                w.definition.len(),
                |i: int| spec_definition_from_wire(w.definition[i], i as nat),
            ),
            trapd: None,
        },
    }
}

/// Uppercase a tier label into a shell-identifier-safe fragment.
pub fn sanitize(s: &str) -> (r: String)
    ensures
        r@ == spec_sanitize(s@),
{
    let v = chars_of(s);
    let mut out: Vec<char> = Vec::new();
    let mut i: usize = 0;
    while i < v.len()
        invariant
            i <= v.len(),
            v@ == s@,
            out.len() == i,
            forall|j: int| 0 <= j < i ==> #[trigger] out@[j] == sanitize_char(v@[j]),
        decreases v.len() - i,
    {
        let c = v[i];
        if char_is_ascii_alnum(c) {
            out.push(char_upper(c));
        } else {
            out.push('_');
        }
        i = i + 1;
    }
    assert(out@ =~= spec_sanitize(s@));
    string_of(&out)
}

/// `SNMP_<field>_<scope>`.
pub fn secret_env(field: &str, scope: &str) -> (r: String)
    ensures
        r@ == spec_secret_env(field@, scope@),
{
    let mut r = own("SNMP_");
    append_str(&mut r, field);
    append_str(&mut r, "_");
    append_str(&mut r, scope);
    r
}

/// A placeholder reference when the wire carries a value (never the value).
pub fn placeholder(env_name: &str, wire_value: &Option<String>) -> (r: Option<SecretRef>)
    ensures
        match r {
            Some(x) => spec_placeholder(env_name@, ostr(*wire_value)) == Some(x@),
            None => spec_placeholder(env_name@, ostr(*wire_value)).is_none(),
        },
{
    match wire_value {
        Some(_) => Some(SecretRef::FromEnv(FromEnvRef { from_env: own(env_name) })),
        None => None,
    }
}

pub open spec fn opt_secret_model(r: Option<SecretRef>) -> Option<SecretRefModel> {
    match r {
        Some(x) => Some(x@),
        None => None,
    }
}

fn placeholder_for(field: &str, scope: &str, wire_value: &Option<String>) -> (r: Option<SecretRef>)
    ensures
        opt_secret_model(r) == spec_placeholder(spec_secret_env(field@, scope@), ostr(*wire_value)),
{
    let name = secret_env(field, scope);
    placeholder(name.as_str(), wire_value)
}

/// Wire parameter set → local params for export; secrets become
/// placeholders scoped by `scope`.
pub fn config_to_params(c: &Configuration, scope: &str) -> (p: Params)
    ensures
        p@ == spec_config_to_params(c@, scope@),
{
    Params {
        version: clone_opt(&c.version),
        port: c.port,
        timeout: c.timeout,
        retries: c.retry,
        ttl: c.ttl,
        proxy_host: clone_opt(&c.proxy_host),
        read_community: placeholder_for("READ_COMMUNITY", scope, &c.read_community),
        write_community: placeholder_for("WRITE_COMMUNITY", scope, &c.write_community),
        max_repetitions: c.max_repetitions,
        max_vars_per_pdu: c.max_vars_per_pdu,
        max_request_size: c.max_request_size,
        security_name: clone_opt(&c.security_name),
        security_level: opt_level_in(c.security_level),
        auth_protocol: clone_opt(&c.auth_protocol),
        auth_passphrase: placeholder_for("AUTH_PASSPHRASE", scope, &c.auth_passphrase),
        privacy_protocol: clone_opt(&c.privacy_protocol),
        privacy_passphrase: placeholder_for("PRIVACY_PASSPHRASE", scope, &c.privacy_passphrase),
        context_name: clone_opt(&c.context_name),
        engine_id: clone_opt(&c.engine_id),
        context_engine_id: clone_opt(&c.context_engine_id),
        enterprise_id: clone_opt(&c.enterprise_id),
    }
}

fn or_empty_exec(o: &Option<String>) -> (r: String)
    ensures
        r@ == or_empty(ostr(*o)),
{
    match o {
        Some(s) => s.clone(),
        None => String::new(),
    }
}

fn profile_from_wire(p: &SnmpProfile, i: usize) -> (r: ProfileLocal)
    ensures
        r@ == spec_profile_from_wire(p@, i as nat),
{
    let label = or_empty_exec(&p.label);
    let mut scope = own("PROFILE_");
    if label.as_str().is_empty() {
        let n = fmt_usize(i);
        append_str(&mut scope, n.as_str());
    } else {
        let t = sanitize(label.as_str());
        append_str(&mut scope, t.as_str());
    }
    ProfileLocal {
        params: config_to_params(&p.config, scope.as_str()),
        label,
        filter_expression: clone_opt(&p.filter),
    }
}

fn definition_from_wire(d: &Definition, i: usize) -> (r: DefinitionLocal)
    ensures
        r@ == spec_definition_from_wire(d@, i as nat),
{
    let mut scope = own("DEF_");
    let n = fmt_usize(i);
    append_str(&mut scope, n.as_str());
    match &d.location {
        Some(loc) => {
            if !loc.as_str().is_empty() {
                append_str(&mut scope, "_");
                let t = sanitize(loc.as_str());
                append_str(&mut scope, t.as_str());
            }
        },
        None => {},
    }
    let mut ranges: Vec<RangeLocal> = Vec::new();
    let mut k: usize = 0;
    while k < d.range.len()
        invariant
            k <= d.range.len(),
            ranges.len() == k,
            forall|j: int|
                0 <= j < k ==> #[trigger] ranges@[j]@ == spec_range_from_wire(d.range@[j]@),
        decreases d.range.len() - k,
    {
        let r = &d.range[k];
        ranges.push(RangeLocal { begin: r.begin.clone(), end: r.end.clone() });
        k = k + 1;
    }
    let r = DefinitionLocal {
        params: config_to_params(&d.config, scope.as_str()),
        specifics: clone_strs(&d.specific),
        ranges,
        ip_matches: clone_strs(&d.ip_match),
        location: clone_opt(&d.location),
        profile_label: clone_opt(&d.profile_label),
    };
    assert(r@.ranges =~= d@.range.map_values(|x: RangeModel| spec_range_from_wire(x)));
    r
}

/// Map a server response back to the local model for export. Secret fields
/// become `fromEnv` placeholders, one distinct name per tier and field.
pub fn from_wire(wire: &SnmpConfig) -> (local: SnmpConfigLocal)
    ensures
        local@ == spec_from_wire(wire@),
{
    let mut profiles: Vec<ProfileLocal> = Vec::new();
    let mut i: usize = 0;
    while i < wire.profiles.profile.len()
        invariant
            i <= wire.profiles.profile.len(),
            profiles.len() == i,
            forall|j: int|
                0 <= j < i ==> #[trigger] profiles@[j]@ == spec_profile_from_wire(
                    wire.profiles.profile@[j]@,
                    j as nat,
                ),
        decreases wire.profiles.profile.len() - i,
    {
        profiles.push(profile_from_wire(&wire.profiles.profile[i], i));
        i = i + 1;
    }
    let mut definitions: Vec<DefinitionLocal> = Vec::new();
    let mut k: usize = 0;
    while k < wire.definition.len()
        invariant
            k <= wire.definition.len(),
            definitions.len() == k,
            forall|j: int|
                0 <= j < k ==> #[trigger] definitions@[j]@ == spec_definition_from_wire(
                    wire.definition@[j]@,
                    j as nat,
                ),
        decreases wire.definition.len() - k,
    {
        definitions.push(definition_from_wire(&wire.definition[k], k));
        k = k + 1;
    }
    let local = SnmpConfigLocal {
        api_version: own(API_VERSION),
        kind: own(KIND),
        metadata: Metadata { name: own(SINGLETON_NAME) },
        spec: Spec {
            defaults: Some(config_to_params(&wire.defaults, "DEFAULTS")),
            profiles,
            definitions,
            trapd: None,
        },
    };
    let ghost want = spec_from_wire(wire@);
    assert(local@.spec.profiles =~= want.spec.profiles);
    assert(local@.spec.definitions =~= want.spec.definitions);
    local
}

// ---------------------------------------------------------------------------
// Trap daemon
// ---------------------------------------------------------------------------

pub open spec fn spec_v3_user_to_wire(u: TrapdV3UserModel) -> Snmpv3UserModel {
    Snmpv3UserModel {
        engine_id: u.engine_id,
        security_name: Some(u.security_name),
        security_level: opt_level_to_wire(u.security_level),
        auth_protocol: u.auth_protocol,
        auth_passphrase: None,
        privacy_protocol: u.privacy_protocol,
        privacy_passphrase: None,
    }
}

/// The wire projection of the local trap-daemon block (no passphrases).
pub open spec fn spec_trapd_to_wire(t: TrapdModel) -> TrapdConfigModel {
    TrapdConfigModel {
        snmp_trap_address: t.snmp_trap_address,
        snmp_trap_port: t.snmp_trap_port,
        new_suspect_on_trap: t.new_suspect_on_trap,
        include_raw_message: t.include_raw_message,
        threads: t.threads,
        queue_size: t.queue_size,
        batch_size: t.batch_size,
        batch_interval: t.batch_interval,
        use_address_from_varbind: t.use_address_from_varbind,
        snmpv3_user: t.snmpv3_users.map_values(|u: TrapdV3UserModel| spec_v3_user_to_wire(u)),
    }
}

/// The trap-daemon payload with resolved passphrases written into each
/// user (auth, privacy) in order; an absent value leaves a field as it is.
pub open spec fn spec_trapd_to_wire_with(
    t: TrapdModel,
    users: Seq<(Option<Seq<char>>, Option<Seq<char>>)>,
) -> TrapdConfigModel {
    let w = spec_trapd_to_wire(t);
    TrapdConfigModel {
        snmpv3_user: Seq::new(
            w.snmpv3_user.len(),
            |i: int|
                (Snmpv3UserModel {
                    auth_passphrase: overlay(w.snmpv3_user[i].auth_passphrase, users[i].0),
                    privacy_passphrase: overlay(w.snmpv3_user[i].privacy_passphrase, users[i].1),
                    ..w.snmpv3_user[i]
                }),
        ),
        ..w
    }
}

/// The trap-daemon payload of a `spec.trapd` block, given the
/// passphrases its users' references resolved to (auth, privacy).
pub fn trapd_to_wire_with_secrets(t: &Trapd, users: &Vec<(Option<String>, Option<String>)>) -> (w:
    TrapdConfig)
    requires
        users.len() == t.snmpv3_users.len(),
    ensures
        w@ == spec_trapd_to_wire_with(
            t@,
            users@.map_values(|u: (Option<String>, Option<String>)| (ostr(u.0), ostr(u.1))),
        ),
{
    let wire = trapd_to_wire(t);
    let ghost w0 = wire@;
    let mut out: Vec<Snmpv3User> = Vec::new();
    let mut i: usize = 0;
    while i < wire.snmpv3_user.len()
        invariant
            i <= wire.snmpv3_user.len(),
            wire@ == w0,
            wire.snmpv3_user.len() == users.len(),
            out.len() == i,
            forall|j: int|
                0 <= j < i ==> #[trigger] out@[j]@ == (Snmpv3UserModel {
                    auth_passphrase: overlay(w0.snmpv3_user[j].auth_passphrase, ostr(users@[j].0)),
                    privacy_passphrase: overlay(
                        w0.snmpv3_user[j].privacy_passphrase,
                        ostr(users@[j].1),
                    ),
                    ..w0.snmpv3_user[j]
                }),
        decreases wire.snmpv3_user.len() - i,
    {
        let mut u = wire.snmpv3_user[i].duplicate();
        overlay_exec(&mut u.auth_passphrase, &users[i].0);
        overlay_exec(&mut u.privacy_passphrase, &users[i].1);
        out.push(u);
        i = i + 1;
    }
    let r = TrapdConfig {
        snmp_trap_address: clone_opt(&wire.snmp_trap_address),
        snmp_trap_port: wire.snmp_trap_port,
        new_suspect_on_trap: wire.new_suspect_on_trap,
        include_raw_message: wire.include_raw_message,
        threads: wire.threads,
        queue_size: wire.queue_size,
        batch_size: wire.batch_size,
        batch_interval: wire.batch_interval,
        use_address_from_varbind: wire.use_address_from_varbind,
        snmpv3_user: out,
    };
    assert(r@.snmpv3_user =~= spec_trapd_to_wire_with(
        t@,
        users@.map_values(|u: (Option<String>, Option<String>)| (ostr(u.0), ostr(u.1))),
    ).snmpv3_user);
    r
}

/// The placeholder scope of a trap user: its sanitized security name, or
/// its index when unnamed.
pub open spec fn trapd_scope(name: Option<Seq<char>>, i: nat) -> Seq<char> {
    match name {
        Some(n) => if n.len() > 0 {
            "TRAPD_"@ + spec_sanitize(n)
        } else {
            "TRAPD_USER_"@ + dec(i)
        },
        None => "TRAPD_USER_"@ + dec(i),
    }
}

pub open spec fn spec_v3_user_from_wire(u: Snmpv3UserModel, i: nat) -> TrapdV3UserModel {
    TrapdV3UserModel {
        security_name: or_empty(u.security_name),
        engine_id: u.engine_id,
        security_level: opt_level_from_wire(u.security_level),
        auth_protocol: u.auth_protocol,
        auth_passphrase: spec_placeholder(
            spec_secret_env("AUTH_PASSPHRASE"@, trapd_scope(u.security_name, i)),
            u.auth_passphrase,
        ),
        privacy_protocol: u.privacy_protocol,
        privacy_passphrase: spec_placeholder(
            spec_secret_env("PRIVACY_PASSPHRASE"@, trapd_scope(u.security_name, i)),
            u.privacy_passphrase,
        ),
    }
}

/// The exported local trap-daemon block for a server configuration.
pub open spec fn spec_trapd_from_wire(t: TrapdConfigModel) -> TrapdModel {
    TrapdModel {
        snmp_trap_address: t.snmp_trap_address,
        snmp_trap_port: t.snmp_trap_port,
        new_suspect_on_trap: t.new_suspect_on_trap,
        include_raw_message: t.include_raw_message,
        threads: t.threads,
        queue_size: t.queue_size,
        batch_size: t.batch_size,
        batch_interval: t.batch_interval,
        use_address_from_varbind: t.use_address_from_varbind,
        snmpv3_users: Seq::new(
            t.snmpv3_user.len(),
            |i: int| spec_v3_user_from_wire(t.snmpv3_user[i], i as nat),
        ),
    }
}

/// Map a local v3 trap user → wire, leaving passphrases `None`.
pub fn v3_user_to_wire(u: &TrapdV3User) -> (w: Snmpv3User)
    ensures
        w@ == spec_v3_user_to_wire(u@),
{
    Snmpv3User {
        engine_id: clone_opt(&u.engine_id),
        security_name: Some(u.security_name.clone()),
        security_level: opt_level_out(u.security_level),
        auth_protocol: clone_opt(&u.auth_protocol),
        auth_passphrase: None,
        privacy_protocol: clone_opt(&u.privacy_protocol),
        privacy_passphrase: None,
    }
}

/// Project the local trap-daemon block onto the wire shape. Pure.
pub fn trapd_to_wire(t: &Trapd) -> (w: TrapdConfig)
    ensures
        w@ == spec_trapd_to_wire(t@),
{
    let mut users: Vec<Snmpv3User> = Vec::new();
    let mut i: usize = 0;
    while i < t.snmpv3_users.len()
        invariant
            i <= t.snmpv3_users.len(),
            users.len() == i,
            forall|j: int|
                0 <= j < i ==> #[trigger] users@[j]@ == spec_v3_user_to_wire(t.snmpv3_users@[j]@),
        decreases t.snmpv3_users.len() - i,
    {
        users.push(v3_user_to_wire(&t.snmpv3_users[i]));
        i = i + 1;
    }
    let w = TrapdConfig {
        snmp_trap_address: clone_opt(&t.snmp_trap_address),
        snmp_trap_port: t.snmp_trap_port,
        new_suspect_on_trap: t.new_suspect_on_trap,
        include_raw_message: t.include_raw_message,
        threads: t.threads,
        queue_size: t.queue_size,
        batch_size: t.batch_size,
        batch_interval: t.batch_interval,
        use_address_from_varbind: t.use_address_from_varbind,
        snmpv3_user: users,
    };
    assert(w@.snmpv3_user =~= t@.snmpv3_users.map_values(
        |u: TrapdV3UserModel| spec_v3_user_to_wire(u),
    ));
    w
}

fn trapd_scope_exec(name: &Option<String>, i: usize) -> (r: String)
    ensures
        r@ == trapd_scope(ostr(*name), i as nat),
{
    match name {
        Some(n) => {
            if !n.as_str().is_empty() {
                let mut r = own("TRAPD_");
                let t = sanitize(n.as_str());
                append_str(&mut r, t.as_str());
                return r;
            }
        },
        None => {},
    }
    let mut r = own("TRAPD_USER_");
    let d = fmt_usize(i);
    append_str(&mut r, d.as_str());
    r
}

fn v3_user_from_wire(u: &Snmpv3User, i: usize) -> (r: TrapdV3User)
    ensures
        r@ == spec_v3_user_from_wire(u@, i as nat),
{
    let scope = trapd_scope_exec(&u.security_name, i);
    TrapdV3User {
        security_name: or_empty_exec(&u.security_name),
        engine_id: clone_opt(&u.engine_id),
        security_level: opt_level_in(u.security_level),
        auth_protocol: clone_opt(&u.auth_protocol),
        auth_passphrase: placeholder_for("AUTH_PASSPHRASE", scope.as_str(), &u.auth_passphrase),
        privacy_protocol: clone_opt(&u.privacy_protocol),
        privacy_passphrase: placeholder_for(
            "PRIVACY_PASSPHRASE",
            scope.as_str(),
            &u.privacy_passphrase,
        ),
    }
}

/// Map a server trap-daemon response back to the local model for export.
/// Passphrases become per-user `fromEnv` placeholders.
pub fn trapd_from_wire(t: &TrapdConfig) -> (r: Trapd)
    ensures
        r@ == spec_trapd_from_wire(t@),
{
    let mut users: Vec<TrapdV3User> = Vec::new();
    let mut i: usize = 0;
    while i < t.snmpv3_user.len()
        invariant
            i <= t.snmpv3_user.len(),
            users.len() == i,
            forall|j: int|
                0 <= j < i ==> #[trigger] users@[j]@ == spec_v3_user_from_wire(
                    t.snmpv3_user@[j]@,
                    j as nat,
                ),
        decreases t.snmpv3_user.len() - i,
    {
        users.push(v3_user_from_wire(&t.snmpv3_user[i], i));
        i = i + 1;
    }
    let r = Trapd {
        snmp_trap_address: clone_opt(&t.snmp_trap_address),
        snmp_trap_port: t.snmp_trap_port,
        new_suspect_on_trap: t.new_suspect_on_trap,
        include_raw_message: t.include_raw_message,
        threads: t.threads,
        queue_size: t.queue_size,
        batch_size: t.batch_size,
        batch_interval: t.batch_interval,
        use_address_from_varbind: t.use_address_from_varbind,
        snmpv3_users: users,
    };
    assert(r@.snmpv3_users =~= spec_trapd_from_wire(t@).snmpv3_users);
    r
}


/// Which of a configuration's secrets are set.
pub open spec fn secrets_set(c: ConfigurationModel) -> (bool, bool, bool, bool) {
    (
        c.read_community is Some,
        c.write_community is Some,
        c.auth_passphrase is Some,
        c.privacy_passphrase is Some,
    )
}

/// Whether two configurations set the same secrets in every tier.
pub open spec fn same_secrets_set(a: SnmpConfigModel, b: SnmpConfigModel) -> bool {
    &&& secrets_set(a.defaults) == secrets_set(b.defaults)
    &&& a.definition.len() == b.definition.len()
    &&& forall|i: int|
        0 <= i < a.definition.len() ==> secrets_set(#[trigger] a.definition[i].config) == secrets_set(
            b.definition[i].config,
        )
    &&& a.profiles.profile.len() == b.profiles.profile.len()
    &&& forall|i: int|
        0 <= i < a.profiles.profile.len() ==> secrets_set(#[trigger] a.profiles.profile[i].config)
            == secrets_set(b.profiles.profile[i].config)
}

proof fn lemma_params_secret_blind(x: ConfigurationModel, y: ConfigurationModel, scope: Seq<char>)
    requires
        crate::snmp::diff::secret_free(x) == crate::snmp::diff::secret_free(y),
        secrets_set(x) == secrets_set(y),
    ensures
        spec_config_to_params(x, scope) == spec_config_to_params(y, scope),
{
    let fx = crate::snmp::diff::secret_free(x);
    let fy = crate::snmp::diff::secret_free(y);
    assert(fx.version == fy.version && fx.port == fy.port && fx.timeout == fy.timeout);
    assert(fx.retry == fy.retry && fx.ttl == fy.ttl && fx.proxy_host == fy.proxy_host);
    assert(fx.max_repetitions == fy.max_repetitions && fx.max_vars_per_pdu == fy.max_vars_per_pdu);
    assert(fx.max_request_size == fy.max_request_size && fx.security_name == fy.security_name);
    assert(fx.security_level == fy.security_level && fx.auth_protocol == fy.auth_protocol);
    assert(fx.privacy_protocol == fy.privacy_protocol && fx.context_name == fy.context_name);
    assert(fx.engine_id == fy.engine_id && fx.context_engine_id == fy.context_engine_id);
    assert(fx.enterprise_id == fy.enterprise_id);
}

/// An export never carries a secret's value: deployed configurations that
/// differ only in the values of their secrets (and the `encrypted` flag),
/// not in which secrets are set, export to the same document.
pub proof fn lemma_export_secret_blind(a: SnmpConfigModel, b: SnmpConfigModel)
    requires
        crate::snmp::diff::without_secrets(a) == crate::snmp::diff::without_secrets(b),
        same_secrets_set(a, b),
    ensures
        spec_from_wire(a) == spec_from_wire(b),
{
    let wa = crate::snmp::diff::without_secrets(a);
    let wb = crate::snmp::diff::without_secrets(b);
    lemma_params_secret_blind(a.defaults, b.defaults, "DEFAULTS"@);
    let pa = spec_from_wire(a).spec.profiles;
    let pb = spec_from_wire(b).spec.profiles;
    assert(pa =~= pb) by {
        assert forall|i: int| 0 <= i < pa.len() implies pa[i] == pb[i] by {
            let x = a.profiles.profile[i];
            let y = b.profiles.profile[i];
            assert(wa.profiles.profile[i] == wb.profiles.profile[i]);
            assert(x.label == y.label && x.filter == y.filter);
            assert(secrets_set(x.config) == secrets_set(y.config));
            lemma_params_secret_blind(x.config, y.config, profile_scope(or_empty(x.label), i as nat));
        }
    }
    let da = spec_from_wire(a).spec.definitions;
    let db = spec_from_wire(b).spec.definitions;
    assert(da =~= db) by {
        assert forall|i: int| 0 <= i < da.len() implies da[i] == db[i] by {
            let x = a.definition[i];
            let y = b.definition[i];
            assert(wa.definition[i] == wb.definition[i]);
            assert(x.specific == y.specific && x.ip_match == y.ip_match && x.range == y.range);
            assert(x.location == y.location && x.profile_label == y.profile_label);
            assert(secrets_set(x.config) == secrets_set(y.config));
            lemma_params_secret_blind(x.config, y.config, definition_scope(x.location, i as nat));
        }
    }
}

/// A trap-daemon export never carries a passphrase: configurations that
/// differ only in the values of their users' passphrases, not in which are
/// set, export to the same block.
pub proof fn lemma_trapd_export_passphrase_blind(a: TrapdConfigModel, b: TrapdConfigModel)
    requires
        crate::snmp::diff::without_passphrases(a) == crate::snmp::diff::without_passphrases(b),
        a.snmpv3_user.len() == b.snmpv3_user.len(),
        forall|i: int|
            0 <= i < a.snmpv3_user.len() ==> (#[trigger] a.snmpv3_user[i]).auth_passphrase is Some
                == b.snmpv3_user[i].auth_passphrase is Some && a.snmpv3_user[i].privacy_passphrase is Some
                == b.snmpv3_user[i].privacy_passphrase is Some,
    ensures
        spec_trapd_from_wire(a) == spec_trapd_from_wire(b),
{
    let wa = crate::snmp::diff::without_passphrases(a);
    let wb = crate::snmp::diff::without_passphrases(b);
    assert(a.snmp_trap_port == wa.snmp_trap_port && b.snmp_trap_port == wb.snmp_trap_port);
    let ua = spec_trapd_from_wire(a).snmpv3_users;
    let ub = spec_trapd_from_wire(b).snmpv3_users;
    assert(ua =~= ub) by {
        assert forall|i: int| 0 <= i < ua.len() implies ua[i] == ub[i] by {
            assert(wa.snmpv3_user[i] == wb.snmpv3_user[i]);
            let x = a.snmpv3_user[i];
            let y = b.snmpv3_user[i];
            assert(crate::snmp::diff::strip_user(x) == crate::snmp::diff::strip_user(y));
            assert(x.security_name == y.security_name && x.engine_id == y.engine_id);
            assert(x.security_level == y.security_level && x.auth_protocol == y.auth_protocol);
            assert(x.privacy_protocol == y.privacy_protocol);
        }
    }
}


/// A wire security level that the document can express: absent, or one of
/// 1, 2, 3.
pub open spec fn expressible_level(n: Option<i32>) -> bool {
    match n {
        Some(x) => 1 <= x <= 3,
        None => true,
    }
}

/// A deployed configuration that a document can express exactly: every
/// security level expressible and every profile labelled.
pub open spec fn expressible(w: SnmpConfigModel) -> bool {
    &&& expressible_level(w.defaults.security_level)
    &&& forall|i: int| 0 <= i < w.definition.len() ==> expressible_level((#[trigger] w.definition[i]).config.security_level)
    &&& forall|i: int|
        0 <= i < w.profiles.profile.len() ==> expressible_level((#[trigger] w.profiles.profile[i]).config.security_level)
            && w.profiles.profile[i].label is Some
}

proof fn lemma_params_back(c: ConfigurationModel, scope: Seq<char>)
    requires
        expressible_level(c.security_level),
    ensures
        spec_params_to_config(spec_config_to_params(c, scope)) == crate::snmp::diff::secret_free(c),
{
    match c.security_level {
        Some(n) => lemma_level_round_trip_wire(n),
        None => {},
    }
}

/// Exporting a deployed configuration and applying the document back
/// changes nothing: its wire form is the deployed one without secrets,
/// which compares unchanged against the deployed one. This holds for every
/// configuration a document can express (security levels 1 to 3, labelled
/// profiles).
pub proof fn lemma_export_reapply_unchanged(w: SnmpConfigModel)
    requires
        expressible(w),
    ensures
        spec_to_wire(spec_from_wire(w)) == crate::snmp::diff::without_secrets(w),
        crate::snmp::diff::spec_unchanged(spec_to_wire(spec_from_wire(w)), w),
{
    let l = spec_from_wire(w);
    let back = spec_to_wire(l);
    let ws = crate::snmp::diff::without_secrets(w);
    lemma_params_back(w.defaults, "DEFAULTS"@);
    assert(back.definition =~= ws.definition) by {
        assert forall|i: int| 0 <= i < back.definition.len() implies back.definition[i] == ws.definition[i] by {
            let d = w.definition[i];
            lemma_params_back(d.config, definition_scope(d.location, i as nat));
            let dl = spec_definition_from_wire(d, i as nat);
            assert(dl.ranges.map_values(|r: RangeLocalModel| spec_range_to_wire(r)) =~= d.range);
        }
    }
    assert(back.profiles.profile =~= ws.profiles.profile) by {
        assert forall|i: int| 0 <= i < back.profiles.profile.len() implies back.profiles.profile[i]
            == ws.profiles.profile[i] by {
            let p = w.profiles.profile[i];
            lemma_params_back(p.config, profile_scope(or_empty(p.label), i as nat));
        }
    }
    assert(back == ws);
    let wws = crate::snmp::diff::without_secrets(ws);
    assert(wws.definition =~= ws.definition);
    assert(wws.profiles.profile =~= ws.profiles.profile);
    assert(wws == ws);
    crate::snmp::diff::lemma_canonical_secret_blind(back, w);
    crate::snmp::diff::lemma_unchanged_reflexive(w);
}


/// A deployed trap-daemon config that a document can express exactly:
/// every user named, with an expressible security level.
pub open spec fn trapd_expressible(w: TrapdConfigModel) -> bool {
    forall|i: int|
        0 <= i < w.snmpv3_user.len() ==> (#[trigger] w.snmpv3_user[i]).security_name is Some
            && expressible_level(w.snmpv3_user[i].security_level)
}

/// Exporting a deployed trap-daemon config and applying the block back
/// changes nothing: its wire form is the deployed one without passphrases,
/// which compares unchanged against the deployed one.
pub proof fn lemma_trapd_export_reapply_unchanged(w: TrapdConfigModel)
    requires
        trapd_expressible(w),
    ensures
        spec_trapd_to_wire(spec_trapd_from_wire(w)) == crate::snmp::diff::without_passphrases(w),
        crate::snmp::diff::spec_trapd_unchanged(spec_trapd_to_wire(spec_trapd_from_wire(w)), w),
{
    let back = spec_trapd_to_wire(spec_trapd_from_wire(w));
    let ws = crate::snmp::diff::without_passphrases(w);
    assert(back.snmpv3_user =~= ws.snmpv3_user) by {
        assert forall|i: int| 0 <= i < back.snmpv3_user.len() implies back.snmpv3_user[i] == ws.snmpv3_user[i] by {
            let u = w.snmpv3_user[i];
            match u.security_level {
                Some(n) => lemma_level_round_trip_wire(n),
                None => {},
            }
        }
    }
    assert(back == ws);
    let wws = crate::snmp::diff::without_passphrases(ws);
    assert(wws.snmpv3_user =~= ws.snmpv3_user);
    crate::snmp::diff::lemma_trapd_unchanged_reflexive(w);
    crate::snmp::diff::lemma_trapd_passphrase_blind(w, back, w, w);
}


/// The secret fields of a tier, as placeholder names spell them.
pub open spec fn secret_fields() -> Seq<Seq<char>> {
    seq!["READ_COMMUNITY"@, "WRITE_COMMUNITY"@, "AUTH_PASSPHRASE"@, "PRIVACY_PASSPHRASE"@]
}

proof fn lemma_secret_field_heads()
    ensures
        secret_fields()[0].len() > 0 && secret_fields()[0][0] == 'R',
        secret_fields()[1].len() > 0 && secret_fields()[1][0] == 'W',
        secret_fields()[2].len() > 0 && secret_fields()[2][0] == 'A',
        secret_fields()[3].len() > 0 && secret_fields()[3][0] == 'P',
{
    reveal_strlit("READ_COMMUNITY");
    reveal_strlit("WRITE_COMMUNITY");
    reveal_strlit("AUTH_PASSPHRASE");
    reveal_strlit("PRIVACY_PASSPHRASE");
}

/// The character of a placeholder name at position `k` of its scope.
proof fn lemma_env_scope_char(field: Seq<char>, scope: Seq<char>, k: int)
    requires
        0 <= k < scope.len(),
    ensures
        spec_secret_env(field, scope)[5 + field.len() + 1 + k] == scope[k],
{
    reveal_strlit("SNMP_");
    reveal_strlit("_");
}

/// Placeholder names of an export never collide across secret fields, nor
/// across tiers of different kinds: for one field, the defaults' name,
/// any profile's and any definition's differ.
pub proof fn lemma_placeholder_names_distinct(
    f1: int,
    f2: int,
    s1: Seq<char>,
    s2: Seq<char>,
    label: Seq<char>,
    i: nat,
    loc: Option<Seq<char>>,
    j: nat,
)
    requires
        0 <= f1 < 4,
        0 <= f2 < 4,
    ensures
        f1 != f2 ==> spec_secret_env(secret_fields()[f1], s1) != spec_secret_env(secret_fields()[f2], s2),
        spec_secret_env(secret_fields()[f1], "DEFAULTS"@) != spec_secret_env(
            secret_fields()[f1],
            profile_scope(label, i),
        ),
        spec_secret_env(secret_fields()[f1], "DEFAULTS"@) != spec_secret_env(
            secret_fields()[f1],
            definition_scope(loc, j),
        ),
        spec_secret_env(secret_fields()[f1], profile_scope(label, i)) != spec_secret_env(
            secret_fields()[f1],
            definition_scope(loc, j),
        ),
{
    reveal_strlit("SNMP_");
    reveal_strlit("DEFAULTS");
    reveal_strlit("PROFILE_");
    reveal_strlit("DEF_");
    lemma_secret_field_heads();
    let f = secret_fields()[f1];
    if f1 != f2 {
        let g = secret_fields()[f2];
        assert(spec_secret_env(f, s1)[5] == f[0]);
        assert(spec_secret_env(g, s2)[5] == g[0]);
    }
    let d = "DEFAULTS"@;
    let p = profile_scope(label, i);
    let q = definition_scope(loc, j);
    assert(p[0] == 'P');
    assert(q[0] == 'D' && q[3] == '_');
    assert(d[0] == 'D' && d[3] == 'A');
    lemma_env_scope_char(f, d, 0);
    lemma_env_scope_char(f, p, 0);
    lemma_env_scope_char(f, q, 0);
    lemma_env_scope_char(f, d, 3);
    lemma_env_scope_char(f, q, 3);
}

/// Whether `p` holds, for each secret of `c`, a `fromEnv` placeholder
/// exactly when `c` carries a value, named for the field and `scope`.
pub open spec fn placeholders_for(p: ParamsModel, c: ConfigurationModel, scope: Seq<char>) -> bool {
    &&& p.read_community == spec_placeholder(spec_secret_env("READ_COMMUNITY"@, scope), c.read_community)
    &&& p.write_community == spec_placeholder(spec_secret_env("WRITE_COMMUNITY"@, scope), c.write_community)
    &&& p.auth_passphrase == spec_placeholder(spec_secret_env("AUTH_PASSPHRASE"@, scope), c.auth_passphrase)
    &&& p.privacy_passphrase == spec_placeholder(
        spec_secret_env("PRIVACY_PASSPHRASE"@, scope),
        c.privacy_passphrase,
    )
}

/// An export is the singleton document (`snmp.opennms.org/v1`,
/// `SnmpConfig`, named `default`) with defaults and without a trap-daemon
/// block; its profiles and definitions follow the server's, in order; and
/// every secret is a `fromEnv` placeholder exactly where the server has a
/// value (the defaults under `DEFAULTS`, each profile and definition under
/// its own scope).
pub proof fn lemma_export_shape(w: SnmpConfigModel)
    ensures
        ({
            let l = spec_from_wire(w);
            &&& l.api_version == API_VERSION@
            &&& l.kind == KIND@
            &&& l.metadata.name == SINGLETON_NAME@
            &&& l.spec.trapd is None
            &&& l.spec.defaults matches Some(p) && placeholders_for(p, w.defaults, "DEFAULTS"@)
            &&& l.spec.profiles.len() == w.profiles.profile.len()
            &&& forall|i: int| 0 <= i < w.profiles.profile.len() ==> placeholders_for(
                (#[trigger] l.spec.profiles[i]).params,
                w.profiles.profile[i].config,
                profile_scope(or_empty(w.profiles.profile[i].label), i as nat),
            )
            &&& l.spec.definitions.len() == w.definition.len()
            &&& forall|i: int| 0 <= i < w.definition.len() ==> placeholders_for(
                (#[trigger] l.spec.definitions[i]).params,
                w.definition[i].config,
                definition_scope(w.definition[i].location, i as nat),
            )
        }),
{
}

/// A parameter set with no secret and no `encrypted` flag.
pub open spec fn config_secret_free(c: ConfigurationModel) -> bool {
    &&& c.read_community is None
    &&& c.write_community is None
    &&& c.auth_passphrase is None
    &&& c.privacy_passphrase is None
    &&& c.encrypted is None
}

/// The upload payload of a document carries no secret: every tier's
/// secrets and `encrypted` flag are absent; the definitions and profiles
/// follow the document's in order, each profile under its label, and the
/// defaults are empty when the document has none.
pub proof fn lemma_to_wire_secret_free(l: SnmpConfigLocalModel)
    ensures
        ({
            let w = spec_to_wire(l);
            &&& config_secret_free(w.defaults)
            &&& l.spec.defaults is None ==> w.defaults == empty_config()
            &&& w.definition.len() == l.spec.definitions.len()
            &&& forall|i: int| 0 <= i < w.definition.len() ==> config_secret_free((#[trigger] w.definition[i]).config)
            &&& w.profiles.profile.len() == l.spec.profiles.len()
            &&& forall|i: int| 0 <= i < w.profiles.profile.len() ==> config_secret_free(
                (#[trigger] w.profiles.profile[i]).config,
            ) && w.profiles.profile[i].label == Some(l.spec.profiles[i].label)
        }),
{
}

/// A wire security level that the document model can hold: absent or 1-3.
pub open spec fn level_representable(n: Option<i32>) -> bool {
    match n {
        Some(x) => 1 <= x <= 3,
        None => true,
    }
}

/// A server configuration whose export can be uploaded back unchanged:
/// every profile has a label and every security level is 1-3 or absent.
pub open spec fn export_representable(w: SnmpConfigModel) -> bool {
    &&& level_representable(w.defaults.security_level)
    &&& forall|i: int| 0 <= i < w.definition.len() ==> level_representable(
        (#[trigger] w.definition[i]).config.security_level,
    )
    &&& forall|i: int| 0 <= i < w.profiles.profile.len() ==> (#[trigger] w.profiles.profile[i]).label is Some
        && level_representable(w.profiles.profile[i].config.security_level)
}

proof fn lemma_params_round_trip(c: ConfigurationModel, scope: Seq<char>)
    requires
        level_representable(c.security_level),
    ensures
        spec_params_to_config(spec_config_to_params(c, scope)) == crate::snmp::diff::secret_free(c),
{
}

/// Uploading an export gives back the server's configuration with its
/// secrets (and `encrypted` flag) removed, for every configuration the
/// document model can hold.
pub proof fn lemma_export_upload_round_trip(w: SnmpConfigModel)
    requires
        export_representable(w),
    ensures
        spec_to_wire(spec_from_wire(w)) == crate::snmp::diff::without_secrets(w),
{
    let l = spec_from_wire(w);
    let r = spec_to_wire(l);
    let s = crate::snmp::diff::without_secrets(w);
    lemma_params_round_trip(w.defaults, "DEFAULTS"@);
    assert(r.definition =~= s.definition) by {
        assert forall|i: int| 0 <= i < w.definition.len() implies r.definition[i] == s.definition[i] by {
            let d = w.definition[i];
            lemma_params_round_trip(d.config, definition_scope(d.location, i as nat));
            let ld = spec_definition_from_wire(d, i as nat);
            assert(ld.ranges.map_values(|x: RangeLocalModel| spec_range_to_wire(x)) =~= d.range);
        }
    }
    assert(r.profiles.profile =~= s.profiles.profile) by {
        assert forall|i: int| 0 <= i < w.profiles.profile.len() implies r.profiles.profile[i]
            == s.profiles.profile[i] by {
            let p = w.profiles.profile[i];
            lemma_params_round_trip(p.config, profile_scope(or_empty(p.label), i as nat));
        }
    }
}

/// A trap-daemon configuration whose export can be uploaded back
/// unchanged: every user has a security name and a level 1-3 or none.
pub open spec fn trapd_representable(t: TrapdConfigModel) -> bool {
    forall|i: int| 0 <= i < t.snmpv3_user.len() ==> (#[trigger] t.snmpv3_user[i]).security_name is Some
        && level_representable(t.snmpv3_user[i].security_level)
}

/// Uploading an exported trap-daemon block gives back the server's
/// configuration with every user's passphrases removed.
pub proof fn lemma_trapd_upload_round_trip(t: TrapdConfigModel)
    requires
        trapd_representable(t),
    ensures
        spec_trapd_to_wire(spec_trapd_from_wire(t)) == crate::snmp::diff::without_passphrases(t),
{
    let r = spec_trapd_to_wire(spec_trapd_from_wire(t));
    let s = crate::snmp::diff::without_passphrases(t);
    assert(r.snmpv3_user =~= s.snmpv3_user) by {
        assert forall|i: int| 0 <= i < t.snmpv3_user.len() implies r.snmpv3_user[i] == s.snmpv3_user[i] by {
            let u = t.snmpv3_user[i];
            assert(u.security_name is Some);
        }
    }
}

/// The wire numbers are the SNMPv3 security levels: `noAuthNoPriv` is 1,
/// `authNoPriv` 2, `authPriv` 3, read back the same way; every other number
/// names no level.
pub proof fn lemma_level_numbers()
    ensures
        spec_level_to_wire(SecurityLevel::NoAuthNoPriv) == 1,
        spec_level_to_wire(SecurityLevel::AuthNoPriv) == 2,
        spec_level_to_wire(SecurityLevel::AuthPriv) == 3,
        spec_level_from_wire(1) == Some(SecurityLevel::NoAuthNoPriv),
        spec_level_from_wire(2) == Some(SecurityLevel::AuthNoPriv),
        spec_level_from_wire(3) == Some(SecurityLevel::AuthPriv),
        forall|n: i32| !(1 <= n <= 3) ==> spec_level_from_wire(n) is None,
{
}

/// The upload carries each tier's security level as its SNMPv3 number, and
/// an export reads a server's number back as that level.
pub proof fn lemma_levels_on_the_wire(l: SnmpConfigLocalModel, w: SnmpConfigModel)
    ensures
        l.spec.defaults matches Some(p) ==> spec_to_wire(l).defaults.security_level == match p.security_level {
            Some(SecurityLevel::NoAuthNoPriv) => Some(1i32),
            Some(SecurityLevel::AuthNoPriv) => Some(2i32),
            Some(SecurityLevel::AuthPriv) => Some(3i32),
            None => None,
        },
        spec_from_wire(w).spec.defaults.unwrap().security_level == match w.defaults.security_level {
            Some(1i32) => Some(SecurityLevel::NoAuthNoPriv),
            Some(2i32) => Some(SecurityLevel::AuthNoPriv),
            Some(3i32) => Some(SecurityLevel::AuthPriv),
            _ => None,
        },
{
}
} // verus!
