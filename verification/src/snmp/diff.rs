//! Idempotency comparison of SNMP configurations.
//!
//! `apply` compares the desired wire config against the deployed one.
//! Secrets are write-only and take no part in the comparison, and the
//! order-insensitive lists (definitions, profiles, each definition's
//! selectors, the trap daemon's users) are sorted into a canonical order
//! first. Every parameter the desired side leaves unset is "don't care": the
//! server fills it with its schema default.

use vstd::prelude::*;
use crate::snmp::convert::or_empty;
use crate::snmp::server::{
    Configuration, ConfigurationModel, Definition, DefinitionModel, Range, RangeModel, SnmpConfig,
    SnmpConfigModel, SnmpProfile, SnmpProfileModel, SnmpProfiles, SnmpProfilesModel,
    Snmpv3User, Snmpv3UserModel, TrapdConfig, TrapdConfigModel,
};
use crate::sort::{
    lemma_sort_len, lemma_sort_perm, lemma_sort_sorted, sorted_by, lemma_sort_by_key_classes, lemma_sort_idempotent, lemma_sort_members, of_key, key_fn, equal_keys_identical, keys_lt, lemma_sort_canonical, lemma_sort_map, models, sort_by, sort_keyed,
    sort_strings, sort_strs, Keyed,
};
use crate::text::{
    append_str, clone_opt, clone_strs, join, join_strs, key_lt, lemma_key_irrefl,
    lemma_lex_irrefl, opt_str_eq, own, push_char, str_eq, str_lt, strs, strs_eq,
};

verus! {

// ---------------------------------------------------------------------------
// Canonical form
// ---------------------------------------------------------------------------

/// A parameter set with its write-only secrets (and the server-managed
/// `encrypted` flag) removed.
pub open spec fn secret_free(c: ConfigurationModel) -> ConfigurationModel {
    ConfigurationModel {
        read_community: None,
        write_community: None,
        auth_passphrase: None,
        privacy_passphrase: None,
        encrypted: None,
        ..c
    }
}

/// The text of a range in a definition's sort key: `begin-end`.
pub open spec fn range_text(r: RangeModel) -> Seq<char> {
    r.begin + seq!['-'] + r.end
}

/// A definition's sort key: its location (empty when unset), then its
/// specifics, IP patterns and ranges, each joined with commas.
pub open spec fn spec_def_key(d: DefinitionModel) -> Seq<Seq<char>> {
    seq![
        or_empty(d.location),
        join(d.specific, seq![',']),
        join(d.ip_match, seq![',']),
        join(range_texts(d.range), seq![',']),
    ]
}

/// The texts of a list of ranges.
pub open spec fn range_texts(s: Seq<RangeModel>) -> Seq<Seq<char>> {
    s.map_values(|r: RangeModel| range_text(r))
}

/// Every definition in canonical form, in order.
pub open spec fn canon_defs(s: Seq<DefinitionModel>) -> Seq<DefinitionModel> {
    s.map_values(|d: DefinitionModel| canon_def(d))
}

/// Every profile in canonical form, in order.
pub open spec fn canon_profiles(s: Seq<SnmpProfileModel>) -> Seq<SnmpProfileModel> {
    s.map_values(|p: SnmpProfileModel| canon_profile(p))
}

/// The sort key of an optional name: an unset name sorts before every set one.
pub open spec fn opt_key(o: Option<Seq<char>>) -> Seq<Seq<char>> {
    match o {
        Some(s) => seq![s],
        None => Seq::empty(),
    }
}

/// A definition with secrets removed and its selector lists sorted.
pub open spec fn canon_def(d: DefinitionModel) -> DefinitionModel {
    DefinitionModel {
        config: secret_free(d.config),
        specific: sort_strs(d.specific),
        range: sort_by(d.range, key_fn::<Range>()),
        ip_match: sort_strs(d.ip_match),
        ..d
    }
}

/// A profile with secrets removed.
pub open spec fn canon_profile(p: SnmpProfileModel) -> SnmpProfileModel {
    SnmpProfileModel { config: secret_free(p.config), ..p }
}

/// The canonical, secret-free form of a configuration: secrets removed at
/// every tier, selectors sorted, definitions sorted by [`spec_def_key`] and
/// profiles by label.
pub open spec fn spec_canonical(c: SnmpConfigModel) -> SnmpConfigModel {
    SnmpConfigModel {
        defaults: secret_free(c.defaults),
        definition: sort_by(canon_defs(c.definition), key_fn::<Definition>()),
        profiles: SnmpProfilesModel {
            profile: sort_by(canon_profiles(c.profiles.profile), key_fn::<SnmpProfile>()),
        },
    }
}

impl Keyed for Range {
    open spec fn mkey(m: RangeModel) -> Seq<Seq<char>> {
        seq![m.begin, m.end]
    }

    fn sorts_before(&self, other: &Self) -> (b: bool) {
        let mut a: Vec<String> = Vec::new();
        a.push(self.begin.clone());
        a.push(self.end.clone());
        let mut o: Vec<String> = Vec::new();
        o.push(other.begin.clone());
        o.push(other.end.clone());
        assert(strs(a@) == Self::mkey(self@));
        assert(strs(o@) == Self::mkey(other@));
        keys_lt(&a, &o)
    }
}

impl Keyed for Definition {
    open spec fn mkey(m: DefinitionModel) -> Seq<Seq<char>> {
        spec_def_key(m)
    }

    fn sorts_before(&self, other: &Self) -> (b: bool) {
        let (a0, a1, a2, a3) = def_key(self);
        let (b0, b1, b2, b3) = def_key(other);
        let a = vec![a0, a1, a2, a3];
        let o = vec![b0, b1, b2, b3];
        assert(strs(a@) == Self::mkey(self@));
        assert(strs(o@) == Self::mkey(other@));
        keys_lt(&a, &o)
    }
}

impl Keyed for SnmpProfile {
    open spec fn mkey(m: SnmpProfileModel) -> Seq<Seq<char>> {
        opt_key(m.label)
    }

    fn sorts_before(&self, other: &Self) -> (b: bool) {
        opt_lt(&self.label, &other.label)
    }
}

impl Keyed for Snmpv3User {
    open spec fn mkey(m: Snmpv3UserModel) -> Seq<Seq<char>> {
        opt_key(m.security_name)
    }

    fn sorts_before(&self, other: &Self) -> (b: bool) {
        opt_lt(&self.security_name, &other.security_name)
    }
}


/// Whether optional name `a` sorts strictly before `b`.
fn opt_lt(a: &Option<String>, b: &Option<String>) -> (r: bool)
    ensures
        r == key_lt(opt_key(crate::text::ostr(*a)), opt_key(crate::text::ostr(*b))),
{
    match (a, b) {
        (Some(x), Some(y)) => {
            proof {
                let ka = opt_key(crate::text::ostr(*a));
                let kb = opt_key(crate::text::ostr(*b));
                assert(ka.drop_first().len() == 0);
                assert(kb.drop_first().len() == 0);
                lemma_key_irrefl(ka.drop_first());
                lemma_lex_irrefl(x@);
                assert(ka.drop_first() == kb.drop_first());
            }
            str_lt(x.as_str(), y.as_str())
        },
        (None, Some(_)) => true,
        _ => false,
    }
}

/// The text of `r` in a sort key.
fn range_string(r: &Range) -> (s: String)
    ensures
        s@ == range_text(r@),
{
    let mut s = own(r.begin.as_str());
    push_char(&mut s, '-');
    append_str(&mut s, r.end.as_str());
    s
}

/// Stable sort key for a definition: location, then joined selectors.
fn def_key(d: &Definition) -> (k: (String, String, String, String))
    ensures
        seq![k.0@, k.1@, k.2@, k.3@] == spec_def_key(d@),
{
    let mut texts: Vec<String> = Vec::new();
    let mut i: usize = 0;
    while i < d.range.len()
        invariant
            i <= d.range.len(),
            strs(texts@) == range_texts(d@.range.take(i as int)),
        decreases d.range.len() - i,
    {
        let ghost before = strs(texts@);
        let t = range_string(&d.range[i]);
        texts.push(t);
        assert(strs(texts@) =~= before.push(range_text(d@.range[i as int])));
        assert(d@.range.take(i + 1) == d@.range.take(i as int).push(d@.range[i as int]));
        assert(range_texts(d@.range.take(i + 1)) =~= range_texts(d@.range.take(i as int)).push(
            range_text(d@.range[i as int]),
        ));
        i = i + 1;
    }
    assert(d@.range.take(d.range.len() as int) == d@.range);
    assert(strs(texts@) == range_texts(d@.range));
    let location = match &d.location {
        Some(l) => l.clone(),
        None => String::new(),
    };
    proof {
        reveal_strlit(",");
    }
    assert(","@ =~= seq![',']);
    (location, join_strs(&d.specific, ","), join_strs(&d.ip_match, ","), join_strs(&texts, ","))
}

/// Removes the write-only secrets and the server-managed `encrypted` flag.
fn blank_secrets(c: &mut Configuration)
    ensures
        final(c)@ == secret_free(old(c)@),
{
    c.read_community = None;
    c.write_community = None;
    c.auth_passphrase = None;
    c.privacy_passphrase = None;
    c.encrypted = None;
}

/// One definition in canonical form.
fn canonical_definition(d: &Definition) -> (r: Definition)
    ensures
        r@ == canon_def(d@),
{
    let mut config = d.config.duplicate();
    blank_secrets(&mut config);
    let specific = sort_strings(clone_strs(&d.specific));
    let ip_match = sort_strings(clone_strs(&d.ip_match));
    let range = sort_keyed(Range::duplicate_all(&d.range));
    let r = Definition {
        config,
        specific,
        range,
        ip_match,
        location: clone_opt(&d.location),
        profile_label: clone_opt(&d.profile_label),
    };
    assert(r@.range == sort_by(d@.range, key_fn::<Range>())) by {
        assert(models(d.range@) =~= d@.range);
        assert(models(r.range@) =~= r@.range);
    }
    r
}

/// Canonical, secret-free form of a wire config: secrets blanked and the
/// order-insensitive lists sorted into a deterministic order.
pub fn canonical_struct(cfg: &SnmpConfig) -> (r: SnmpConfig)
    ensures
        r@ == spec_canonical(cfg@),
{
    let mut defaults = cfg.defaults.duplicate();
    blank_secrets(&mut defaults);

    let mut defs: Vec<Definition> = Vec::new();
    let mut i: usize = 0;
    while i < cfg.definition.len()
        invariant
            i <= cfg.definition.len(),
            models(defs@) == canon_defs(cfg@.definition.take(i as int)),
        decreases cfg.definition.len() - i,
    {
        let ghost before = models(defs@);
        let d = canonical_definition(&cfg.definition[i]);
        defs.push(d);
        assert(models(defs@) =~= before.push(canon_def(cfg@.definition[i as int])));
        assert(cfg@.definition.take(i + 1) == cfg@.definition.take(i as int).push(
            cfg@.definition[i as int],
        ));
        assert(canon_defs(cfg@.definition.take(i + 1)) =~= canon_defs(
            cfg@.definition.take(i as int),
        ).push(canon_def(cfg@.definition[i as int])));
        i = i + 1;
    }
    assert(cfg@.definition.take(cfg.definition.len() as int) == cfg@.definition);
    let defs = sort_keyed(defs);

    let mut profs: Vec<SnmpProfile> = Vec::new();
    let mut j: usize = 0;
    while j < cfg.profiles.profile.len()
        invariant
            j <= cfg.profiles.profile.len(),
            models(profs@) == canon_profiles(cfg@.profiles.profile.take(j as int)),
        decreases cfg.profiles.profile.len() - j,
    {
        let ghost before = models(profs@);
        let p = &cfg.profiles.profile[j];
        let mut config = p.config.duplicate();
        blank_secrets(&mut config);
        let q = SnmpProfile { config, label: clone_opt(&p.label), filter: clone_opt(&p.filter) };
        assert(q@ == canon_profile(cfg@.profiles.profile[j as int]));
        profs.push(q);
        assert(models(profs@) =~= before.push(canon_profile(cfg@.profiles.profile[j as int])));
        assert(cfg@.profiles.profile.take(j + 1) == cfg@.profiles.profile.take(j as int).push(
            cfg@.profiles.profile[j as int],
        ));
        assert(canon_profiles(cfg@.profiles.profile.take(j + 1)) =~= canon_profiles(
            cfg@.profiles.profile.take(j as int),
        ).push(canon_profile(cfg@.profiles.profile[j as int])));
        j = j + 1;
    }
    assert(cfg@.profiles.profile.take(cfg.profiles.profile.len() as int)
        == cfg@.profiles.profile);
    let profs = sort_keyed(profs);

    let r = SnmpConfig { defaults, definition: defs, profiles: SnmpProfiles { profile: profs } };
    assert(r@.definition == models(defs@));
    assert(r@.profiles.profile == models(profs@));
    r
}

// ---------------------------------------------------------------------------
// Subset comparison
// ---------------------------------------------------------------------------

/// `d` leaves the parameter unset, or sets it to the deployed value.
pub open spec fn field_ok<A>(d: Option<A>, h: Option<A>) -> bool {
    d is None || d == h
}

/// Every parameter the desired set `d` sets equals the deployed one in `h`.
pub open spec fn subset_match(d: ConfigurationModel, h: ConfigurationModel) -> bool {
    &&& field_ok(d.port, h.port)
    &&& field_ok(d.retry, h.retry)
    &&& field_ok(d.timeout, h.timeout)
    &&& field_ok(d.ttl, h.ttl)
    &&& field_ok(d.proxy_host, h.proxy_host)
    &&& field_ok(d.version, h.version)
    &&& field_ok(d.read_community, h.read_community)
    &&& field_ok(d.write_community, h.write_community)
    &&& field_ok(d.max_vars_per_pdu, h.max_vars_per_pdu)
    &&& field_ok(d.max_repetitions, h.max_repetitions)
    &&& field_ok(d.max_request_size, h.max_request_size)
    &&& field_ok(d.encrypted, h.encrypted)
    &&& field_ok(d.security_name, h.security_name)
    &&& field_ok(d.security_level, h.security_level)
    &&& field_ok(d.auth_protocol, h.auth_protocol)
    &&& field_ok(d.auth_passphrase, h.auth_passphrase)
    &&& field_ok(d.privacy_protocol, h.privacy_protocol)
    &&& field_ok(d.privacy_passphrase, h.privacy_passphrase)
    &&& field_ok(d.context_name, h.context_name)
    &&& field_ok(d.engine_id, h.engine_id)
    &&& field_ok(d.context_engine_id, h.context_engine_id)
    &&& field_ok(d.enterprise_id, h.enterprise_id)
}

fn ok_i32(d: Option<i32>, h: Option<i32>) -> (r: bool)
    ensures
        r == field_ok(d, h),
{
    match (d, h) {
        (None, _) => true,
        (Some(x), Some(y)) => x == y,
        (Some(_), None) => false,
    }
}

fn ok_i64(d: Option<i64>, h: Option<i64>) -> (r: bool)
    ensures
        r == field_ok(d, h),
{
    match (d, h) {
        (None, _) => true,
        (Some(x), Some(y)) => x == y,
        (Some(_), None) => false,
    }
}

fn ok_bool(d: Option<bool>, h: Option<bool>) -> (r: bool)
    ensures
        r == field_ok(d, h),
{
    match (d, h) {
        (None, _) => true,
        (Some(x), Some(y)) => x == y,
        (Some(_), None) => false,
    }
}

fn ok_str(d: &Option<String>, h: &Option<String>) -> (r: bool)
    ensures
        r == field_ok(crate::text::ostr(*d), crate::text::ostr(*h)),
{
    d.is_none() || opt_str_eq(d, h)
}

/// `true` when the parameters `desired` explicitly sets all match
/// `deployed`; parameters absent from `desired` are ignored.
fn config_subset_match(desired: &Configuration, deployed: &Configuration) -> (r: bool)
    ensures
        r == subset_match(desired@, deployed@),
{
    ok_i32(desired.port, deployed.port) && ok_i32(desired.retry, deployed.retry) && ok_i32(
        desired.timeout,
        deployed.timeout,
    ) && ok_i64(desired.ttl, deployed.ttl) && ok_str(&desired.proxy_host, &deployed.proxy_host)
        && ok_str(&desired.version, &deployed.version) && ok_str(
        &desired.read_community,
        &deployed.read_community,
    ) && ok_str(&desired.write_community, &deployed.write_community) && ok_i32(
        desired.max_vars_per_pdu,
        deployed.max_vars_per_pdu,
    ) && ok_i32(desired.max_repetitions, deployed.max_repetitions) && ok_i32(
        desired.max_request_size,
        deployed.max_request_size,
    ) && ok_bool(desired.encrypted, deployed.encrypted) && ok_str(
        &desired.security_name,
        &deployed.security_name,
    ) && ok_i32(desired.security_level, deployed.security_level) && ok_str(
        &desired.auth_protocol,
        &deployed.auth_protocol,
    ) && ok_str(&desired.auth_passphrase, &deployed.auth_passphrase) && ok_str(
        &desired.privacy_protocol,
        &deployed.privacy_protocol,
    ) && ok_str(&desired.privacy_passphrase, &deployed.privacy_passphrase) && ok_str(
        &desired.context_name,
        &deployed.context_name,
    ) && ok_str(&desired.engine_id, &deployed.engine_id) && ok_str(
        &desired.context_engine_id,
        &deployed.context_engine_id,
    ) && ok_str(&desired.enterprise_id, &deployed.enterprise_id)
}

// ---------------------------------------------------------------------------
// Per-tier result
// ---------------------------------------------------------------------------

/// Two canonical definitions match: same selectors, location and profile
/// label, and the desired parameters are a subset of the deployed ones.
pub open spec fn def_match(a: DefinitionModel, b: DefinitionModel) -> bool {
    &&& a.specific == b.specific
    &&& a.range == b.range
    &&& a.ip_match == b.ip_match
    &&& a.location == b.location
    &&& a.profile_label == b.profile_label
    &&& subset_match(a.config, b.config)
}

/// Two canonical profiles match: same label and filter, subset parameters.
pub open spec fn profile_match(a: SnmpProfileModel, b: SnmpProfileModel) -> bool {
    &&& a.label == b.label
    &&& a.filter == b.filter
    &&& subset_match(a.config, b.config)
}

/// Equal length, and element `i` of `a` matches element `i` of `b`.
pub open spec fn defs_match(a: Seq<DefinitionModel>, b: Seq<DefinitionModel>) -> bool {
    a.len() == b.len() && forall|i: int| 0 <= i < a.len() ==> def_match(#[trigger] a[i], b[i])
}

/// Equal length, and element `i` of `a` matches element `i` of `b`.
pub open spec fn profiles_match(a: Seq<SnmpProfileModel>, b: Seq<SnmpProfileModel>) -> bool {
    a.len() == b.len() && forall|i: int|
        0 <= i < a.len() ==> profile_match(#[trigger] a[i], b[i])
}

/// The per-tier result `[defaults, definitions, profiles]`, over the
/// canonical forms of both sides.
pub open spec fn spec_tiers(desired: SnmpConfigModel, deployed: SnmpConfigModel) -> Seq<bool> {
    let w = spec_canonical(desired);
    let h = spec_canonical(deployed);
    seq![
        subset_match(w.defaults, h.defaults),
        defs_match(w.definition, h.definition),
        profiles_match(w.profiles.profile, h.profiles.profile),
    ]
}

/// The deployed configuration satisfies the desired one in every tier.
pub open spec fn spec_unchanged(desired: SnmpConfigModel, deployed: SnmpConfigModel) -> bool {
    let t = spec_tiers(desired, deployed);
    t[0] && t[1] && t[2]
}

fn ranges_eq(a: &Vec<Range>, b: &Vec<Range>) -> (r: bool)
    ensures
        r == (models(a@) == models(b@)),
{
    if a.len() != b.len() {
        assert(models(a@).len() != models(b@).len());
        return false;
    }
    let mut i: usize = 0;
    while i < a.len()
        invariant
            i <= a.len(),
            a.len() == b.len(),
            models(a@).take(i as int) == models(b@).take(i as int),
        decreases a.len() - i,
    {
        if !(a[i].begin == b[i].begin && a[i].end == b[i].end) {
            assert(models(a@)[i as int] != models(b@)[i as int]);
            return false;
        }
        assert(models(a@).take(i + 1) == models(a@).take(i as int).push(a@[i as int]@));
        assert(models(b@).take(i + 1) == models(b@).take(i as int).push(b@[i as int]@));
        i = i + 1;
    }
    assert(models(a@).take(a.len() as int) == models(a@));
    assert(models(b@).take(b.len() as int) == models(b@));
    true
}

fn definition_matches(a: &Definition, b: &Definition) -> (r: bool)
    ensures
        r == def_match(a@, b@),
{
    let r = strs_eq(&a.specific, &b.specific) && ranges_eq(&a.range, &b.range) && strs_eq(
        &a.ip_match,
        &b.ip_match,
    ) && opt_str_eq(&a.location, &b.location) && opt_str_eq(&a.profile_label, &b.profile_label)
        && config_subset_match(&a.config, &b.config);
    assert(models(a.range@) =~= a@.range);
    assert(models(b.range@) =~= b@.range);
    r
}

/// Per-tier idempotency result `[defaults, definitions, profiles]`, each
/// `true` when that tier is unchanged. Membership of definitions and
/// profiles is compared exactly; each tier's parameters use subset
/// semantics.
pub fn tiers_match(desired: &SnmpConfig, deployed: &SnmpConfig) -> (r: [bool; 3])
    ensures
        r@ == spec_tiers(desired@, deployed@),
{
    let want = canonical_struct(desired);
    let have = canonical_struct(deployed);

    let defaults = config_subset_match(&want.defaults, &have.defaults);

    let mut definitions = want.definition.len() == have.definition.len();
    if definitions {
        let mut i: usize = 0;
        while i < want.definition.len()
            invariant
                i <= want.definition.len(),
                want.definition.len() == have.definition.len(),
                definitions == forall|j: int|
                    0 <= j < i ==> def_match(#[trigger] want@.definition[j], have@.definition[j]),
            decreases want.definition.len() - i,
        {
            let m = definition_matches(&want.definition[i], &have.definition[i]);
            assert(m == def_match(want@.definition[i as int], have@.definition[i as int]));
            definitions = definitions && m;
            i = i + 1;
        }
    }

    let mut profiles = want.profiles.profile.len() == have.profiles.profile.len();
    if profiles {
        let mut i: usize = 0;
        while i < want.profiles.profile.len()
            invariant
                i <= want.profiles.profile.len(),
                want.profiles.profile.len() == have.profiles.profile.len(),
                profiles == forall|j: int|
                    0 <= j < i ==> profile_match(
                        #[trigger] want@.profiles.profile[j],
                        have@.profiles.profile[j],
                    ),
            decreases want.profiles.profile.len() - i,
        {
            let a = &want.profiles.profile[i];
            let b = &have.profiles.profile[i];
            let m = opt_str_eq(&a.label, &b.label) && opt_str_eq(&a.filter, &b.filter)
                && config_subset_match(&a.config, &b.config);
            assert(m == profile_match(
                want@.profiles.profile[i as int],
                have@.profiles.profile[i as int],
            ));
            profiles = profiles && m;
            i = i + 1;
        }
    }
    let r = [defaults, definitions, profiles];
    assert(r@ =~= spec_tiers(desired@, deployed@));
    r
}

/// `true` when the deployed config already satisfies the desired document
/// (every tier unchanged per [`tiers_match`]).
pub fn unchanged(desired: &SnmpConfig, deployed: &SnmpConfig) -> (r: bool)
    ensures
        r == spec_unchanged(desired@, deployed@),
{
    let t = tiers_match(desired, deployed);
    t[0] && t[1] && t[2]
}

// ---------------------------------------------------------------------------
// Trap daemon
// ---------------------------------------------------------------------------

/// Every non-secret field the desired user sets equals the deployed one
/// (passphrases excluded).
pub open spec fn user_subset_match(d: Snmpv3UserModel, h: Snmpv3UserModel) -> bool {
    &&& field_ok(d.engine_id, h.engine_id)
    &&& field_ok(d.security_level, h.security_level)
    &&& field_ok(d.auth_protocol, h.auth_protocol)
    &&& field_ok(d.privacy_protocol, h.privacy_protocol)
}

/// Equal length, and user `i` of `a` has the security name of user `i` of
/// `b` and a subset of its settings.
pub open spec fn users_match(a: Seq<Snmpv3UserModel>, b: Seq<Snmpv3UserModel>) -> bool {
    a.len() == b.len() && forall|i: int|
        0 <= i < a.len() ==> (#[trigger] a[i]).security_name == b[i].security_name
            && user_subset_match(a[i], b[i])
}

/// Every scalar the desired trap-daemon config sets equals the deployed one.
pub open spec fn trapd_scalars_ok(d: TrapdConfigModel, h: TrapdConfigModel) -> bool {
    &&& field_ok(d.snmp_trap_address, h.snmp_trap_address)
    &&& field_ok(d.snmp_trap_port, h.snmp_trap_port)
    &&& field_ok(d.new_suspect_on_trap, h.new_suspect_on_trap)
    &&& field_ok(d.include_raw_message, h.include_raw_message)
    &&& field_ok(d.threads, h.threads)
    &&& field_ok(d.queue_size, h.queue_size)
    &&& field_ok(d.batch_size, h.batch_size)
    &&& field_ok(d.batch_interval, h.batch_interval)
    &&& field_ok(d.use_address_from_varbind, h.use_address_from_varbind)
}

/// The users of a trap-daemon config ordered by security name.
pub open spec fn spec_sorted_users(c: TrapdConfigModel) -> Seq<Snmpv3UserModel> {
    sort_by(c.snmpv3_user, key_fn::<Snmpv3User>())
}

/// The deployed trap-daemon config satisfies the desired one: subset
/// semantics on the scalars, and the user lists match after sorting by
/// security name.
pub open spec fn spec_trapd_unchanged(d: TrapdConfigModel, h: TrapdConfigModel) -> bool {
    trapd_scalars_ok(d, h) && users_match(spec_sorted_users(d), spec_sorted_users(h))
}

/// `true` when the deployed trap-daemon config already satisfies the desired
/// one. Passphrases take no part; the user list is compared as a whole by
/// security name, each matched user with subset semantics.
pub fn trapd_unchanged(desired: &TrapdConfig, deployed: &TrapdConfig) -> (r: bool)
    ensures
        r == spec_trapd_unchanged(desired@, deployed@),
{
    let scalars = ok_str(&desired.snmp_trap_address, &deployed.snmp_trap_address) && ok_i32(
        desired.snmp_trap_port,
        deployed.snmp_trap_port,
    ) && ok_bool(desired.new_suspect_on_trap, deployed.new_suspect_on_trap) && ok_bool(
        desired.include_raw_message,
        deployed.include_raw_message,
    ) && ok_i32(desired.threads, deployed.threads) && ok_i32(
        desired.queue_size,
        deployed.queue_size,
    ) && ok_i32(desired.batch_size, deployed.batch_size) && ok_i32(
        desired.batch_interval,
        deployed.batch_interval,
    ) && ok_bool(desired.use_address_from_varbind, deployed.use_address_from_varbind);
    if !scalars {
        return false;
    }
    let want = sorted_users(desired);
    let have = sorted_users(deployed);
    if want.len() != have.len() {
        return false;
    }
    let mut ok = true;
    let mut i: usize = 0;
    while i < want.len()
        invariant
            i <= want.len(),
            want.len() == have.len(),
            ok == forall|j: int|
                0 <= j < i ==> (#[trigger] models(want@)[j]).security_name
                    == models(have@)[j].security_name && user_subset_match(
                    models(want@)[j],
                    models(have@)[j],
                ),
        decreases want.len() - i,
    {
        let m = opt_str_eq(&want[i].security_name, &have[i].security_name)
            && v3_user_subset_match(&want[i], &have[i]);
        assert(models(want@)[i as int] == want@[i as int]@);
        assert(models(have@)[i as int] == have@[i as int]@);
        ok = ok && m;
        i = i + 1;
    }
    ok
}

/// Users sorted by security name, so that the membership comparison is
/// aligned whatever the order on either side.
fn sorted_users(cfg: &TrapdConfig) -> (r: Vec<Snmpv3User>)
    ensures
        models(r@) == spec_sorted_users(cfg@),
{
    let users = Snmpv3User::duplicate_all(&cfg.snmpv3_user);
    assert(models(users@) =~= cfg@.snmpv3_user);
    sort_keyed(users)
}

/// Non-secret subset match for one v3 user (passphrases excluded).
fn v3_user_subset_match(desired: &Snmpv3User, deployed: &Snmpv3User) -> (r: bool)
    ensures
        r == user_subset_match(desired@, deployed@),
{
    ok_str(&desired.engine_id, &deployed.engine_id) && ok_i32(
        desired.security_level,
        deployed.security_level,
    ) && ok_str(&desired.auth_protocol, &deployed.auth_protocol) && ok_str(
        &desired.privacy_protocol,
        &deployed.privacy_protocol,
    )
}

// ---------------------------------------------------------------------------
// Laws
// ---------------------------------------------------------------------------

/// A configuration with the secrets removed at every tier, order kept.
pub open spec fn without_secrets(c: SnmpConfigModel) -> SnmpConfigModel {
    SnmpConfigModel {
        defaults: secret_free(c.defaults),
        definition: c.definition.map_values(
            |d: DefinitionModel| DefinitionModel { config: secret_free(d.config), ..d },
        ),
        profiles: SnmpProfilesModel {
            profile: c.profiles.profile.map_values(
                |p: SnmpProfileModel| SnmpProfileModel { config: secret_free(p.config), ..p },
            ),
        },
    }
}

/// The canonical form depends on a configuration only through its
/// secret-free part.
pub proof fn lemma_canonical_secret_blind(a: SnmpConfigModel, b: SnmpConfigModel)
    requires
        without_secrets(a) == without_secrets(b),
    ensures
        spec_canonical(a) == spec_canonical(b),
{
    let wa = without_secrets(a);
    let wb = without_secrets(b);
    assert(a.definition.len() == wa.definition.len());
    assert(b.definition.len() == wb.definition.len());
    assert(canon_defs(a.definition) =~= canon_defs(b.definition)) by {
        assert forall|i: int| 0 <= i < a.definition.len() implies canon_def(
            #[trigger] a.definition[i],
        ) == canon_def(b.definition[i]) by {
            let x = a.definition[i];
            let y = b.definition[i];
            assert(wa.definition[i] == DefinitionModel { config: secret_free(x.config), ..x });
            assert(wb.definition[i] == DefinitionModel { config: secret_free(y.config), ..y });
            assert(wa.definition[i] == wb.definition[i]);
            assert(x.specific == y.specific && x.ip_match == y.ip_match && x.range == y.range);
            assert(x.location == y.location && x.profile_label == y.profile_label);
            assert(secret_free(x.config) == secret_free(y.config));
        }
    }
    assert(a.profiles.profile.len() == wa.profiles.profile.len());
    assert(b.profiles.profile.len() == wb.profiles.profile.len());
    assert(canon_profiles(a.profiles.profile) =~= canon_profiles(b.profiles.profile)) by {
        assert forall|i: int| 0 <= i < a.profiles.profile.len() implies canon_profile(
            #[trigger] a.profiles.profile[i],
        ) == canon_profile(b.profiles.profile[i]) by {
            let x = a.profiles.profile[i];
            let y = b.profiles.profile[i];
            assert(wa.profiles.profile[i] == SnmpProfileModel { config: secret_free(x.config), ..x });
            assert(wb.profiles.profile[i] == SnmpProfileModel { config: secret_free(y.config), ..y });
            assert(wa.profiles.profile[i] == wb.profiles.profile[i]);
            assert(x.label == y.label && x.filter == y.filter);
            assert(secret_free(x.config) == secret_free(y.config));
        }
    }
    assert(secret_free(a.defaults) == secret_free(wa.defaults));
    assert(secret_free(b.defaults) == secret_free(wb.defaults));
}

/// Every configuration is unchanged against itself.
pub proof fn lemma_unchanged_reflexive(c: SnmpConfigModel)
    ensures
        spec_unchanged(c, c),
{
}

/// Secrets do not affect the result. Configurations that differ only in
/// their secrets (and the `encrypted` flag) get the same result.
pub proof fn lemma_unchanged_secret_blind(
    a: SnmpConfigModel,
    a2: SnmpConfigModel,
    b: SnmpConfigModel,
    b2: SnmpConfigModel,
)
    requires
        without_secrets(a) == without_secrets(a2),
        without_secrets(b) == without_secrets(b2),
    ensures
        spec_unchanged(a, b) == spec_unchanged(a2, b2),
        spec_tiers(a, b) == spec_tiers(a2, b2),
{
    lemma_canonical_secret_blind(a, a2);
    lemma_canonical_secret_blind(b, b2);
}

/// Reordering the selectors of a definition does not change its canonical
/// form.
pub proof fn lemma_canon_def_reorder(d: DefinitionModel, d2: DefinitionModel)
    requires
        d.config == d2.config,
        d.location == d2.location,
        d.profile_label == d2.profile_label,
        d.specific.to_multiset() == d2.specific.to_multiset(),
        d.ip_match.to_multiset() == d2.ip_match.to_multiset(),
        d.range.to_multiset() == d2.range.to_multiset(),
    ensures
        canon_def(d) == canon_def(d2),
{
    let ks = key_fn::<String>();
    let kr = key_fn::<Range>();
    assert(equal_keys_identical(d.specific, ks)) by {
        assert forall|x: Seq<char>, y: Seq<char>|
            #![trigger d.specific.contains(x), d.specific.contains(y)]
            d.specific.contains(x) && d.specific.contains(y) && ks(x) == ks(y) implies x == y by {
            assert(ks(x)[0] == x && ks(y)[0] == y);
        }
    }
    assert(equal_keys_identical(d.ip_match, ks)) by {
        assert forall|x: Seq<char>, y: Seq<char>|
            #![trigger d.ip_match.contains(x), d.ip_match.contains(y)]
            d.ip_match.contains(x) && d.ip_match.contains(y) && ks(x) == ks(y) implies x == y by {
            assert(ks(x)[0] == x && ks(y)[0] == y);
        }
    }
    assert(equal_keys_identical(d.range, kr)) by {
        assert forall|x: RangeModel, y: RangeModel|
            #![trigger d.range.contains(x), d.range.contains(y)]
            d.range.contains(x) && d.range.contains(y) && kr(x) == kr(y) implies x == y by {
            assert(kr(x)[0] == x.begin && kr(y)[0] == y.begin);
            assert(kr(x)[1] == x.end && kr(y)[1] == y.end);
        }
    }
    lemma_sort_canonical(d.specific, d2.specific, ks);
    lemma_sort_canonical(d.ip_match, d2.ip_match, ks);
    lemma_sort_canonical(d.range, d2.range, kr);
}

/// Order does not matter: two configurations whose canonical definitions
/// and profiles are the same up to order have the same canonical form,
/// provided any two definitions with the same sort key are identical, and
/// likewise any two profiles with the same label (duplicates allowed).
pub proof fn lemma_canonical_reorder(a: SnmpConfigModel, a2: SnmpConfigModel)
    requires
        secret_free(a.defaults) == secret_free(a2.defaults),
        canon_defs(a.definition).to_multiset() == canon_defs(a2.definition).to_multiset(),
        canon_profiles(a.profiles.profile).to_multiset() == canon_profiles(
            a2.profiles.profile,
        ).to_multiset(),
        equal_keys_identical(canon_defs(a.definition), key_fn::<Definition>()),
        equal_keys_identical(canon_profiles(a.profiles.profile), key_fn::<SnmpProfile>()),
    ensures
        spec_canonical(a) == spec_canonical(a2),
{
    lemma_sort_canonical(
        canon_defs(a.definition),
        canon_defs(a2.definition),
        key_fn::<Definition>(),
    );
    lemma_sort_canonical(
        canon_profiles(a.profiles.profile),
        canon_profiles(a2.profiles.profile),
        key_fn::<SnmpProfile>(),
    );
}

/// Reordering definitions, profiles or selectors is not a change: such a
/// reordering is unchanged against the first, and gets the same result
/// against any third configuration, on either side (definitions with the same
/// sort key being identical, and profiles with the same label).
pub proof fn lemma_unchanged_reorder(a: SnmpConfigModel, a2: SnmpConfigModel, b: SnmpConfigModel)
    requires
        secret_free(a.defaults) == secret_free(a2.defaults),
        canon_defs(a.definition).to_multiset() == canon_defs(a2.definition).to_multiset(),
        canon_profiles(a.profiles.profile).to_multiset() == canon_profiles(
            a2.profiles.profile,
        ).to_multiset(),
        equal_keys_identical(canon_defs(a.definition), key_fn::<Definition>()),
        equal_keys_identical(canon_profiles(a.profiles.profile), key_fn::<SnmpProfile>()),
    ensures
        spec_unchanged(a, a2),
        spec_unchanged(a, b) == spec_unchanged(a2, b),
        spec_unchanged(b, a) == spec_unchanged(b, a2),
{
    lemma_canonical_reorder(a, a2);
}

/// Order between sort keys does not matter either when definitions (or
/// profiles) share a key but differ: two configurations whose canonical
/// definitions of each sort key are the same in the same relative order,
/// and likewise profiles of each label, have the same canonical form, are
/// unchanged against each other, and get the same result against any
/// third configuration.
pub proof fn lemma_unchanged_reorder_stable(a: SnmpConfigModel, a2: SnmpConfigModel, b: SnmpConfigModel)
    requires
        secret_free(a.defaults) == secret_free(a2.defaults),
        forall|key: Seq<Seq<char>>|
            #[trigger] of_key(canon_defs(a.definition), key_fn::<Definition>(), key) == of_key(
                canon_defs(a2.definition),
                key_fn::<Definition>(),
                key,
            ),
        forall|key: Seq<Seq<char>>|
            #[trigger] of_key(canon_profiles(a.profiles.profile), key_fn::<SnmpProfile>(), key)
                == of_key(canon_profiles(a2.profiles.profile), key_fn::<SnmpProfile>(), key),
    ensures
        spec_canonical(a) == spec_canonical(a2),
        spec_unchanged(a, a2),
        spec_unchanged(a, b) == spec_unchanged(a2, b),
        spec_unchanged(b, a) == spec_unchanged(b, a2),
{
    lemma_sort_by_key_classes(canon_defs(a.definition), canon_defs(a2.definition), key_fn::<Definition>());
    lemma_sort_by_key_classes(
        canon_profiles(a.profiles.profile),
        canon_profiles(a2.profiles.profile),
        key_fn::<SnmpProfile>(),
    );
}

proof fn lemma_canon_def_idempotent(x: DefinitionModel)
    ensures
        canon_def(canon_def(x)) == canon_def(x),
{
    lemma_sort_idempotent(x.specific, key_fn::<String>());
    lemma_sort_idempotent(x.ip_match, key_fn::<String>());
    lemma_sort_idempotent(x.range, key_fn::<Range>());
}

/// The canonical form is canonical: taking it twice is taking it once.
pub proof fn lemma_canonical_idempotent(c: SnmpConfigModel)
    ensures
        spec_canonical(spec_canonical(c)) == spec_canonical(c),
{
    let ds = sort_by(canon_defs(c.definition), key_fn::<Definition>());
    assert forall|i: int| 0 <= i < ds.len() implies canon_def(#[trigger] ds[i]) == ds[i] by {
        lemma_sort_members(canon_defs(c.definition), key_fn::<Definition>(), ds[i]);
        assert(ds.contains(ds[i]));
        let j = choose|j: int| 0 <= j < canon_defs(c.definition).len() && canon_defs(c.definition)[j] == ds[i];
        lemma_canon_def_idempotent(c.definition[j]);
    }
    assert(canon_defs(ds) =~= ds);
    lemma_sort_idempotent(canon_defs(c.definition), key_fn::<Definition>());
    let ps = sort_by(canon_profiles(c.profiles.profile), key_fn::<SnmpProfile>());
    assert forall|i: int| 0 <= i < ps.len() implies canon_profile(#[trigger] ps[i]) == ps[i] by {
        lemma_sort_members(canon_profiles(c.profiles.profile), key_fn::<SnmpProfile>(), ps[i]);
        assert(ps.contains(ps[i]));
        let j = choose|j: int|
            0 <= j < canon_profiles(c.profiles.profile).len() && canon_profiles(c.profiles.profile)[j]
                == ps[i];
        assert(ps[i] == canon_profile(c.profiles.profile[j]));
    }
    assert(canon_profiles(ps) =~= ps);
    lemma_sort_idempotent(canon_profiles(c.profiles.profile), key_fn::<SnmpProfile>());
}

/// The canonical form of a configuration is secret-free in every tier; in
/// it each definition's specifics and IP patterns are sorted and its
/// ranges sorted by (begin, end), the definitions are sorted by their sort
/// key and the profiles by label; and it holds the same definitions and
/// profiles as the configuration (secrets removed, selectors sorted), each
/// as often.
pub proof fn lemma_canonical_shape(c: SnmpConfigModel)
    ensures
        ({
            let k = spec_canonical(c);
            &&& k.defaults == secret_free(c.defaults)
            &&& sorted_by(k.definition, key_fn::<Definition>())
            &&& sorted_by(k.profiles.profile, key_fn::<SnmpProfile>())
            &&& k.definition.to_multiset() == canon_defs(c.definition).to_multiset()
            &&& k.profiles.profile.to_multiset() == canon_profiles(c.profiles.profile).to_multiset()
            &&& forall|i: int| 0 <= i < k.definition.len() ==> {
                let x = #[trigger] k.definition[i];
                &&& x.config == secret_free(x.config)
                &&& sorted_by(x.specific, key_fn::<String>())
                &&& sorted_by(x.ip_match, key_fn::<String>())
                &&& sorted_by(x.range, key_fn::<Range>())
            }
            &&& forall|i: int| 0 <= i < k.profiles.profile.len() ==> (#[trigger] k.profiles.profile[i]).config
                == secret_free(k.profiles.profile[i].config)
        }),
{
    let k = spec_canonical(c);
    lemma_sort_sorted(canon_defs(c.definition), key_fn::<Definition>());
    lemma_sort_sorted(canon_profiles(c.profiles.profile), key_fn::<SnmpProfile>());
    lemma_sort_perm(canon_defs(c.definition), key_fn::<Definition>());
    lemma_sort_perm(canon_profiles(c.profiles.profile), key_fn::<SnmpProfile>());
    assert forall|i: int| 0 <= i < k.definition.len() implies {
        let x = #[trigger] k.definition[i];
        &&& x.config == secret_free(x.config)
        &&& sorted_by(x.specific, key_fn::<String>())
        &&& sorted_by(x.ip_match, key_fn::<String>())
        &&& sorted_by(x.range, key_fn::<Range>())
    } by {
        let x = k.definition[i];
        lemma_sort_members(canon_defs(c.definition), key_fn::<Definition>(), x);
        assert(k.definition.contains(x));
        let j = choose|j: int| 0 <= j < canon_defs(c.definition).len() && canon_defs(c.definition)[j] == x;
        let y = c.definition[j];
        lemma_sort_sorted(y.specific, key_fn::<String>());
        lemma_sort_sorted(y.ip_match, key_fn::<String>());
        lemma_sort_sorted(y.range, key_fn::<Range>());
    }
    assert forall|i: int| 0 <= i < k.profiles.profile.len() implies (#[trigger] k.profiles.profile[i]).config
        == secret_free(k.profiles.profile[i].config) by {
        let x = k.profiles.profile[i];
        lemma_sort_members(canon_profiles(c.profiles.profile), key_fn::<SnmpProfile>(), x);
        assert(k.profiles.profile.contains(x));
        let j = choose|j: int|
            0 <= j < canon_profiles(c.profiles.profile).len() && canon_profiles(c.profiles.profile)[j] == x;
    }
}

/// The non-secret parameters `d` sets all equal those of `h` (the
/// secrets and `encrypted` not compared).
pub open spec fn nonsecret_subset(d: ConfigurationModel, h: ConfigurationModel) -> bool {
    &&& field_ok(d.port, h.port)
    &&& field_ok(d.retry, h.retry)
    &&& field_ok(d.timeout, h.timeout)
    &&& field_ok(d.ttl, h.ttl)
    &&& field_ok(d.proxy_host, h.proxy_host)
    &&& field_ok(d.version, h.version)
    &&& field_ok(d.max_vars_per_pdu, h.max_vars_per_pdu)
    &&& field_ok(d.max_repetitions, h.max_repetitions)
    &&& field_ok(d.max_request_size, h.max_request_size)
    &&& field_ok(d.security_name, h.security_name)
    &&& field_ok(d.security_level, h.security_level)
    &&& field_ok(d.auth_protocol, h.auth_protocol)
    &&& field_ok(d.privacy_protocol, h.privacy_protocol)
    &&& field_ok(d.context_name, h.context_name)
    &&& field_ok(d.engine_id, h.engine_id)
    &&& field_ok(d.context_engine_id, h.context_engine_id)
    &&& field_ok(d.enterprise_id, h.enterprise_id)
}

/// The three tier results: the defaults tier holds exactly when every
/// non-secret parameter the desired defaults set equals the deployed one;
/// the definitions tier only for as many definitions on each side, the
/// profiles tier only for as many profiles; every configuration matches
/// itself in all three; and a configuration is unchanged exactly when all
/// three hold.
pub proof fn lemma_tiers(d: SnmpConfigModel, e: SnmpConfigModel)
    ensures
        ({
            let r = spec_tiers(d, e);
            &&& r.len() == 3
            &&& r[0] == nonsecret_subset(d.defaults, e.defaults)
            &&& r[1] ==> d.definition.len() == e.definition.len()
            &&& r[2] ==> d.profiles.profile.len() == e.profiles.profile.len()
            &&& spec_unchanged(d, e) == (r[0] && r[1] && r[2])
        }),
        spec_tiers(d, d) == seq![true, true, true],
{
    lemma_sort_len(canon_defs(d.definition), key_fn::<Definition>());
    lemma_sort_len(canon_defs(e.definition), key_fn::<Definition>());
    lemma_sort_len(canon_profiles(d.profiles.profile), key_fn::<SnmpProfile>());
    lemma_sort_len(canon_profiles(e.profiles.profile), key_fn::<SnmpProfile>());
    lemma_unchanged_reflexive(d);
    assert(spec_tiers(d, d) =~= seq![true, true, true]);
}

/// A trap-daemon config with the user passphrases removed, order kept.
pub open spec fn without_passphrases(c: TrapdConfigModel) -> TrapdConfigModel {
    TrapdConfigModel { snmpv3_user: c.snmpv3_user.map_values(|u: Snmpv3UserModel| strip_user(u)), ..c }
}

/// A user with its passphrases removed.
pub open spec fn strip_user(u: Snmpv3UserModel) -> Snmpv3UserModel {
    Snmpv3UserModel { auth_passphrase: None, privacy_passphrase: None, ..u }
}

/// Every trap-daemon config is unchanged against itself.
pub proof fn lemma_trapd_unchanged_reflexive(c: TrapdConfigModel)
    ensures
        spec_trapd_unchanged(c, c),
{
}

proof fn lemma_users_match_stripped(a: Seq<Snmpv3UserModel>, b: Seq<Snmpv3UserModel>)
    ensures
        users_match(a, b) == users_match(
            a.map_values(|u: Snmpv3UserModel| strip_user(u)),
            b.map_values(|u: Snmpv3UserModel| strip_user(u)),
        ),
{
    let f = |u: Snmpv3UserModel| strip_user(u);
    let sa = a.map_values(f);
    let sb = b.map_values(f);
    if a.len() == b.len() {
        assert forall|i: int| 0 <= i < a.len() implies ((#[trigger] a[i]).security_name
            == b[i].security_name && user_subset_match(a[i], b[i])) == (sa[i].security_name
            == sb[i].security_name && user_subset_match(sa[i], sb[i])) by {
            assert(sa[i] == strip_user(a[i]));
            assert(sb[i] == strip_user(b[i]));
        }
        if users_match(sa, sb) {
            assert forall|i: int| 0 <= i < a.len() implies (#[trigger] a[i]).security_name
                == b[i].security_name && user_subset_match(a[i], b[i]) by {
                assert(sa[i].security_name == sb[i].security_name && user_subset_match(
                    sa[i],
                    sb[i],
                ));
            }
        }
        if users_match(a, b) {
            assert forall|i: int| 0 <= i < sa.len() implies (#[trigger] sa[i]).security_name
                == sb[i].security_name && user_subset_match(sa[i], sb[i]) by {
                assert(a[i].security_name == b[i].security_name && user_subset_match(a[i], b[i]));
            }
        }
    }
}

/// Passphrases take no part in the trap-daemon result.
pub proof fn lemma_trapd_passphrase_blind(
    a: TrapdConfigModel,
    a2: TrapdConfigModel,
    b: TrapdConfigModel,
    b2: TrapdConfigModel,
)
    requires
        without_passphrases(a) == without_passphrases(a2),
        without_passphrases(b) == without_passphrases(b2),
    ensures
        spec_trapd_unchanged(a, b) == spec_trapd_unchanged(a2, b2),
{
    let k = key_fn::<Snmpv3User>();
    let f = |u: Snmpv3UserModel| strip_user(u);
    assert forall|y: Snmpv3UserModel| #[trigger] k(f(y)) == k(y) by {}
    lemma_sort_map(a.snmpv3_user, k, f, k);
    lemma_sort_map(a2.snmpv3_user, k, f, k);
    lemma_sort_map(b.snmpv3_user, k, f, k);
    lemma_sort_map(b2.snmpv3_user, k, f, k);
    assert(without_passphrases(a).snmpv3_user == a.snmpv3_user.map_values(f));
    assert(without_passphrases(a2).snmpv3_user == a2.snmpv3_user.map_values(f));
    assert(without_passphrases(b).snmpv3_user == b.snmpv3_user.map_values(f));
    assert(without_passphrases(b2).snmpv3_user == b2.snmpv3_user.map_values(f));
    lemma_users_match_stripped(spec_sorted_users(a), spec_sorted_users(b));
    lemma_users_match_stripped(spec_sorted_users(a2), spec_sorted_users(b2));
    assert(trapd_scalars_ok(a, b) == trapd_scalars_ok(without_passphrases(a), without_passphrases(b)));
    assert(trapd_scalars_ok(a2, b2) == trapd_scalars_ok(
        without_passphrases(a2),
        without_passphrases(b2),
    ));
}

/// Reordering the users is not a change, when any two users with the same
/// security name are identical.
pub proof fn lemma_trapd_reorder(a: TrapdConfigModel, a2: TrapdConfigModel, b: TrapdConfigModel)
    requires
        a2 == (TrapdConfigModel { snmpv3_user: a2.snmpv3_user, ..a }),
        a.snmpv3_user.to_multiset() == a2.snmpv3_user.to_multiset(),
        equal_keys_identical(a.snmpv3_user, key_fn::<Snmpv3User>()),
    ensures
        spec_trapd_unchanged(a, a2),
        spec_trapd_unchanged(a, b) == spec_trapd_unchanged(a2, b),
        spec_trapd_unchanged(b, a) == spec_trapd_unchanged(b, a2),
{
    lemma_sort_canonical(a.snmpv3_user, a2.snmpv3_user, key_fn::<Snmpv3User>());
}

/// Reordering the users is not a change either when users share a security
/// name but differ, as long as the users of each name keep their relative
/// order.
pub proof fn lemma_trapd_reorder_stable(a: TrapdConfigModel, a2: TrapdConfigModel, b: TrapdConfigModel)
    requires
        a2 == (TrapdConfigModel { snmpv3_user: a2.snmpv3_user, ..a }),
        forall|key: Seq<Seq<char>>|
            #[trigger] of_key(a.snmpv3_user, key_fn::<Snmpv3User>(), key) == of_key(
                a2.snmpv3_user,
                key_fn::<Snmpv3User>(),
                key,
            ),
    ensures
        spec_trapd_unchanged(a, a2),
        spec_trapd_unchanged(a, b) == spec_trapd_unchanged(a2, b),
        spec_trapd_unchanged(b, a) == spec_trapd_unchanged(b, a2),
{
    lemma_sort_by_key_classes(a.snmpv3_user, a2.snmpv3_user, key_fn::<Snmpv3User>());
    lemma_trapd_unchanged_reflexive(a);
}

/// What a list holds, its sorted form holds too.
proof fn lemma_sort_keeps<T>(a: Seq<T>, k: spec_fn(T) -> Seq<Seq<char>>, x: T)
    requires
        a.contains(x),
    ensures
        sort_by(a, k).contains(x),
{
    broadcast use vstd::seq_lib::group_to_multiset_ensures;

    lemma_sort_perm(a, k);
    assert(a.to_multiset().count(x) > 0);
    assert(sort_by(a, k).to_multiset().count(x) > 0);
}

/// When the definitions tier holds, the canonical definitions agree
/// position by position on their location, profile label and (sorted)
/// selectors; so every desired definition has a deployed one with the same
/// location, profile label and selectors, and every deployed one a desired
/// one.
pub proof fn lemma_definitions_tier_agrees(d: SnmpConfigModel, e: SnmpConfigModel)
    requires
        spec_tiers(d, e)[1],
    ensures
        ({
            let kd = spec_canonical(d).definition;
            let ke = spec_canonical(e).definition;
            &&& kd.len() == ke.len()
            &&& forall|i: int| 0 <= i < kd.len() ==> {
                &&& (#[trigger] kd[i]).location == ke[i].location
                &&& kd[i].profile_label == ke[i].profile_label
                &&& kd[i].specific == ke[i].specific
                &&& kd[i].range == ke[i].range
                &&& kd[i].ip_match == ke[i].ip_match
            }
        }),
        forall|i: int| 0 <= i < d.definition.len() ==> exists|j: int|
            0 <= j < e.definition.len() && (#[trigger] e.definition[j]).location
                == (#[trigger] d.definition[i]).location && e.definition[j].profile_label
                == d.definition[i].profile_label && sort_strs(e.definition[j].specific)
                == sort_strs(d.definition[i].specific) && sort_strs(e.definition[j].ip_match)
                == sort_strs(d.definition[i].ip_match),
        forall|j: int| 0 <= j < e.definition.len() ==> exists|i: int|
            0 <= i < d.definition.len() && (#[trigger] d.definition[i]).location
                == (#[trigger] e.definition[j]).location && d.definition[i].profile_label
                == e.definition[j].profile_label,
{
    let kd = spec_canonical(d).definition;
    let ke = spec_canonical(e).definition;
    let cd = canon_defs(d.definition);
    let ce = canon_defs(e.definition);
    lemma_sort_len(cd, key_fn::<Definition>());
    lemma_sort_len(ce, key_fn::<Definition>());
    assert forall|i: int| 0 <= i < d.definition.len() implies exists|j: int|
        0 <= j < e.definition.len() && (#[trigger] e.definition[j]).location
            == (#[trigger] d.definition[i]).location && e.definition[j].profile_label
            == d.definition[i].profile_label && sort_strs(e.definition[j].specific)
            == sort_strs(d.definition[i].specific) && sort_strs(e.definition[j].ip_match)
            == sort_strs(d.definition[i].ip_match) by {
        let x = cd[i];
        assert(cd.contains(x));
        lemma_sort_keeps(cd, key_fn::<Definition>(), x);
        let p = choose|p: int| 0 <= p < kd.len() && kd[p] == x;
        assert(def_match(kd[p], ke[p]));
        let y = ke[p];
        assert(ke.contains(y));
        lemma_sort_members(ce, key_fn::<Definition>(), y);
        let j = choose|j: int| 0 <= j < ce.len() && ce[j] == y;
        assert(e.definition[j].location == y.location);
    }
    assert forall|j: int| 0 <= j < e.definition.len() implies exists|i: int|
        0 <= i < d.definition.len() && (#[trigger] d.definition[i]).location
            == (#[trigger] e.definition[j]).location && d.definition[i].profile_label
            == e.definition[j].profile_label by {
        let y = ce[j];
        assert(ce.contains(y));
        lemma_sort_keeps(ce, key_fn::<Definition>(), y);
        let p = choose|p: int| 0 <= p < ke.len() && ke[p] == y;
        assert(def_match(kd[p], ke[p]));
        let x = kd[p];
        assert(kd.contains(x));
        lemma_sort_members(cd, key_fn::<Definition>(), x);
        let i = choose|i: int| 0 <= i < cd.len() && cd[i] == x;
        assert(d.definition[i].location == x.location);
    }
}

/// A desired definition whose location no deployed definition has fails
/// the definitions tier, so the configuration is not unchanged: moving a
/// definition to another location is always uploaded.
pub proof fn lemma_relocated_definition_changes(d: SnmpConfigModel, e: SnmpConfigModel, i: int)
    requires
        0 <= i < d.definition.len(),
        forall|j: int| 0 <= j < e.definition.len() ==> (#[trigger] e.definition[j]).location
            != d.definition[i].location,
    ensures
        !spec_tiers(d, e)[1],
        !spec_unchanged(d, e),
{
    if spec_tiers(d, e)[1] {
        lemma_definitions_tier_agrees(d, e);
        assert(d.definition[i] == d.definition[i]);
    }
}

/// When the profiles tier holds, the canonical profiles agree position by
/// position on label and filter; so every desired profile has a deployed
/// one with the same label and filter, and every deployed one a desired one.
pub proof fn lemma_profiles_tier_agrees(d: SnmpConfigModel, e: SnmpConfigModel)
    requires
        spec_tiers(d, e)[2],
    ensures
        ({
            let kd = spec_canonical(d).profiles.profile;
            let ke = spec_canonical(e).profiles.profile;
            &&& kd.len() == ke.len()
            &&& forall|i: int| 0 <= i < kd.len() ==> (#[trigger] kd[i]).label == ke[i].label
                && kd[i].filter == ke[i].filter
        }),
        forall|i: int| 0 <= i < d.profiles.profile.len() ==> exists|j: int|
            0 <= j < e.profiles.profile.len() && (#[trigger] e.profiles.profile[j]).label
                == (#[trigger] d.profiles.profile[i]).label && e.profiles.profile[j].filter
                == d.profiles.profile[i].filter,
        forall|j: int| 0 <= j < e.profiles.profile.len() ==> exists|i: int|
            0 <= i < d.profiles.profile.len() && (#[trigger] d.profiles.profile[i]).label
                == (#[trigger] e.profiles.profile[j]).label && d.profiles.profile[i].filter
                == e.profiles.profile[j].filter,
{
    let kd = spec_canonical(d).profiles.profile;
    let ke = spec_canonical(e).profiles.profile;
    let cd = canon_profiles(d.profiles.profile);
    let ce = canon_profiles(e.profiles.profile);
    lemma_sort_len(cd, key_fn::<SnmpProfile>());
    lemma_sort_len(ce, key_fn::<SnmpProfile>());
    assert forall|i: int| 0 <= i < d.profiles.profile.len() implies exists|j: int|
        0 <= j < e.profiles.profile.len() && (#[trigger] e.profiles.profile[j]).label
            == (#[trigger] d.profiles.profile[i]).label && e.profiles.profile[j].filter
            == d.profiles.profile[i].filter by {
        let x = cd[i];
        assert(cd.contains(x));
        lemma_sort_keeps(cd, key_fn::<SnmpProfile>(), x);
        let p = choose|p: int| 0 <= p < kd.len() && kd[p] == x;
        assert(profile_match(kd[p], ke[p]));
        let y = ke[p];
        assert(ke.contains(y));
        lemma_sort_members(ce, key_fn::<SnmpProfile>(), y);
        let j = choose|j: int| 0 <= j < ce.len() && ce[j] == y;
        assert(e.profiles.profile[j].label == y.label);
    }
    assert forall|j: int| 0 <= j < e.profiles.profile.len() implies exists|i: int|
        0 <= i < d.profiles.profile.len() && (#[trigger] d.profiles.profile[i]).label
            == (#[trigger] e.profiles.profile[j]).label && d.profiles.profile[i].filter
            == e.profiles.profile[j].filter by {
        let y = ce[j];
        assert(ce.contains(y));
        lemma_sort_keeps(ce, key_fn::<SnmpProfile>(), y);
        let p = choose|p: int| 0 <= p < ke.len() && ke[p] == y;
        assert(profile_match(kd[p], ke[p]));
        let x = kd[p];
        assert(kd.contains(x));
        lemma_sort_members(cd, key_fn::<SnmpProfile>(), x);
        let i = choose|i: int| 0 <= i < cd.len() && cd[i] == x;
        assert(d.profiles.profile[i].label == x.label);
    }
}

} // verus!
