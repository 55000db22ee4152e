//! Client-side selector matching for location discovery.
//!
//! The locations to query for an IP are those of every definition whose
//! selector matches it: a `specific` is an exact IP, a `range` an inclusive
//! `begin..end` compared numerically within one address family, an
//! `ipMatch` an IPv4 IPLIKE pattern (per octet `*`, `n`, `a-b`, or a comma
//! list of those). A definition without a location stands for the
//! `Default` location. IPv6 IPLIKE patterns never match here.

use vstd::prelude::*;
use crate::ip::{ip_le, ip_le_exec, parse_ip, same_family, spec_parse_ip, IpAddr, IpModel};
use crate::snmp::server::{Definition, DefinitionModel, Range, RangeModel, SnmpConfig, SnmpConfigModel};
use crate::sort::{sort_dedup, sorted_set};
use crate::text::{
    all_digits, first_index, lemma_first_index, own, parse_u8, parse_u8_spec, split_chars, split_on, split_once, split_once_chars, str_eq,
    strs,
};

verus! {

/// The label used when a definition omits an explicit `location`.
pub const DEFAULT_LOCATION: &'static str = "Default";

/// One IPLIKE term: `a-b` (inclusive), or a single number.
pub open spec fn term_matches(term: Seq<char>, oct: u8) -> bool {
    match split_once(term, '-') {
        Some((a, b)) => match (parse_u8_spec(a), parse_u8_spec(b)) {
            (Some(x), Some(y)) => x <= oct && oct <= y,
            _ => false,
        },
        None => parse_u8_spec(term) == Some(oct),
    }
}

/// One IPLIKE octet pattern: `*`, or a comma list of terms one of which
/// matches.
pub open spec fn spec_octet_matches(pat: Seq<char>, oct: u8) -> bool {
    pat == seq!['*'] || exists|i: int|
        0 <= i < split_on(pat, ',').len() && term_matches(#[trigger] split_on(pat, ',')[i], oct)
}

/// An IPv4 IPLIKE pattern: four dot-separated octet patterns matching the
/// address's octets; other addresses never match.
pub open spec fn spec_iplike_v4(pattern: Seq<char>, ip: IpModel) -> bool {
    match ip {
        IpModel::V4(o) => {
            let parts = split_on(pattern, '.');
            parts.len() == 4 && forall|i: int| 0 <= i < 4 ==> spec_octet_matches(#[trigger] parts[i], o[i])
        },
        IpModel::V6(_) => false,
    }
}

/// Both ends of the range parse, are of the address's family, and enclose
/// it.
pub open spec fn spec_range_contains(r: RangeModel, ip: IpModel) -> bool {
    match (spec_parse_ip(r.begin), spec_parse_ip(r.end)) {
        (Some(b), Some(e)) => same_family(b, ip) && same_family(e, ip) && ip_le(b, ip) && ip_le(ip, e),
        _ => false,
    }
}

/// Some selector of the definition matches the address.
pub open spec fn spec_definition_matches(d: DefinitionModel, ip: IpModel) -> bool {
    (exists|i: int| 0 <= i < d.specific.len() && spec_parse_ip(#[trigger] d.specific[i]) == Some(ip))
        || (exists|i: int| 0 <= i < d.range.len() && spec_range_contains(#[trigger] d.range[i], ip))
        || (exists|i: int| 0 <= i < d.ip_match.len() && spec_iplike_v4(#[trigger] d.ip_match[i], ip))
}

/// The location a definition stands for.
pub open spec fn location_of(d: DefinitionModel) -> Seq<char> {
    match d.location {
        Some(l) => l,
        None => DEFAULT_LOCATION@,
    }
}

/// The locations of the matching definitions, in order.
pub open spec fn matching_locations(defs: Seq<DefinitionModel>, ip: IpModel) -> Seq<Seq<char>>
    decreases defs.len(),
{
    if defs.len() == 0 {
        Seq::empty()
    } else if spec_definition_matches(defs.last(), ip) {
        matching_locations(defs.drop_last(), ip).push(location_of(defs.last()))
    } else {
        matching_locations(defs.drop_last(), ip)
    }
}

/// Match one IPLIKE octet term list against an octet value.
pub fn octet_matches(pat: &str, oct: u8) -> (b: bool)
    ensures
        b == spec_octet_matches(pat@, oct),
{
    proof {
        reveal_strlit("*");
    }
    if str_eq(pat, "*") {
        assert("*"@ =~= seq!['*']);
        return true;
    }
    assert("*"@ =~= seq!['*']);
    let terms = split_chars(pat, ',');
    let mut i: usize = 0;
    while i < terms.len()
        invariant
            i <= terms.len(),
            strs(terms@) == split_on(pat@, ','),
            forall|j: int| 0 <= j < i ==> !term_matches(#[trigger] split_on(pat@, ',')[j], oct),
        decreases terms.len() - i,
    {
        assert(split_on(pat@, ',')[i as int] == terms@[i as int]@);
        let t = terms[i].as_str();
        let m = match split_once_chars(t, '-') {
            Some((a, b)) => match (parse_u8(a.as_str()), parse_u8(b.as_str())) {
                (Some(x), Some(y)) => oct >= x && oct <= y,
                _ => false,
            },
            None => match parse_u8(t) {
                Some(n) => n == oct,
                None => false,
            },
        };
        if m {
            assert(term_matches(split_on(pat@, ',')[i as int], oct));
            return true;
        }
        i = i + 1;
    }
    false
}

/// IPv4 IPLIKE match; non-IPv4 addresses never match.
#[verifier::loop_isolation(false)]
pub fn iplike_v4(pattern: &str, ip: &IpAddr) -> (b: bool)
    ensures
        b == spec_iplike_v4(pattern@, ip@),
{
    match ip {
        IpAddr::V4(o) => {
            let parts = split_chars(pattern, '.');
            if parts.len() != 4 {
                assert(split_on(pattern@, '.').len() != 4);
                return false;
            }
            let mut i: usize = 0;
            while i < 4
                invariant
                    0 <= i <= 4,
                    parts.len() == 4,
                    strs(parts@) == split_on(pattern@, '.'),
                    forall|j: int| 0 <= j < i ==> spec_octet_matches(#[trigger] split_on(pattern@, '.')[j], o@[j]),
                decreases 4 - i,
            {
                assert(split_on(pattern@, '.')[i as int] == parts@[i as int]@);
                if !octet_matches(parts[i].as_str(), o[i]) {
                    return false;
                }
                i = i + 1;
            }
            true
        },
        IpAddr::V6(_) => false,
    }
}

/// Inclusive numeric range check within one address family.
pub fn range_contains(r: &Range, ip: &IpAddr) -> (b: bool)
    ensures
        b == spec_range_contains(r@, ip@),
{
    match (parse_ip(r.begin.as_str()), parse_ip(r.end.as_str())) {
        (Some(begin), Some(end)) => {
            let fb = match (&begin, ip) {
                (IpAddr::V4(_), IpAddr::V4(_)) | (IpAddr::V6(_), IpAddr::V6(_)) => true,
                _ => false,
            };
            let fe = match (&end, ip) {
                (IpAddr::V4(_), IpAddr::V4(_)) | (IpAddr::V6(_), IpAddr::V6(_)) => true,
                _ => false,
            };
            fb && fe && ip_le_exec(&begin, ip) && ip_le_exec(ip, &end)
        },
        _ => false,
    }
}

/// `true` when any of the definition's selectors matches `ip`.
pub fn definition_matches(d: &Definition, ip: &IpAddr) -> (b: bool)
    ensures
        b == spec_definition_matches(d@, ip@),
{
    let mut i: usize = 0;
    while i < d.specific.len()
        invariant
            i <= d.specific.len(),
            forall|j: int| 0 <= j < i ==> spec_parse_ip(#[trigger] d@.specific[j]) != Some(ip@),
        decreases d.specific.len() - i,
    {
        assert(d@.specific[i as int] == d.specific@[i as int]@);
        match parse_ip(d.specific[i].as_str()) {
            Some(a) => {
                if a.same(ip) {
                    return true;
                }
            },
            None => {},
        }
        i = i + 1;
    }
    let mut i: usize = 0;
    while i < d.range.len()
        invariant
            i <= d.range.len(),
            forall|j: int| 0 <= j < i ==> !spec_range_contains(#[trigger] d@.range[j], ip@),
        decreases d.range.len() - i,
    {
        assert(d@.range[i as int] == d.range@[i as int]@);
        if range_contains(&d.range[i], ip) {
            return true;
        }
        i = i + 1;
    }
    let mut i: usize = 0;
    while i < d.ip_match.len()
        invariant
            i <= d.ip_match.len(),
            forall|j: int| 0 <= j < i ==> !spec_iplike_v4(#[trigger] d@.ip_match[j], ip@),
        decreases d.ip_match.len() - i,
    {
        assert(d@.ip_match[i as int] == d.ip_match@[i as int]@);
        if iplike_v4(d.ip_match[i].as_str(), ip) {
            return true;
        }
        i = i + 1;
    }
    false
}

/// Locations (sorted, each once) whose definition selectors match `ip`.
pub fn locations_for_ip(cfg: &SnmpConfig, ip: &IpAddr) -> (r: Vec<String>)
    ensures
        strs(r@) == sorted_set(matching_locations(cfg@.definition, ip@)),
{
    let ghost defs = cfg@.definition;
    let mut locs: Vec<String> = Vec::new();
    let mut i: usize = 0;
    while i < cfg.definition.len()
        invariant
            i <= cfg.definition.len(),
            defs == cfg@.definition,
            strs(locs@) == matching_locations(defs.take(i as int), ip@),
        decreases cfg.definition.len() - i,
    {
        let ghost t = defs.take(i + 1);
        assert(t.drop_last() == defs.take(i as int));
        assert(t.last() == cfg.definition@[i as int]@);
        let d = &cfg.definition[i];
        if definition_matches(d, ip) {
            let l = match &d.location {
                Some(l) => l.clone(),
                None => own(DEFAULT_LOCATION),
            };
            let ghost before = strs(locs@);
            locs.push(l);
            assert(strs(locs@) =~= before.push(location_of(d@)));
        }
        i = i + 1;
    }
    assert(defs.take(cfg.definition.len() as int) == defs);
    sort_dedup(locs)
}

/// A number that parses as an octet holds neither `-` nor `,` nor `.`.
proof fn lemma_number_has_no_separator(t: Seq<char>, c: char)
    requires
        parse_u8_spec(t) is Some,
        c == '-' || c == ',' || c == '.',
    ensures
        forall|j: int| 0 <= j < t.len() ==> t[j] != c,
        first_index(t, c) == t.len(),
{
    let d = if t.len() > 0 && t[0] == '+' { t.skip(1) } else { t };
    assert(all_digits(d));
    assert forall|j: int| 0 <= j < t.len() implies t[j] != c by {
        if t.len() > 0 && t[0] == '+' {
            if j > 0 {
                assert(t[j] == d[j - 1]);
            }
        } else {
            assert(t[j] == d[j]);
        }
    }
    lemma_first_index(t, c);
}

/// The first `c` of a text whose first `c` stands at position `k`.
proof fn lemma_first_index_at(s: Seq<char>, c: char, k: int)
    requires
        0 <= k < s.len(),
        s[k] == c,
        forall|j: int| 0 <= j < k ==> s[j] != c,
    ensures
        first_index(s, c) == k,
{
    lemma_first_index(s, c);
    let f = first_index(s, c);
    if f > k {
        assert(s[k] != c);
    }
}

/// A text with no `c` in it splits on `c` into itself alone.
proof fn lemma_split_on_absent(s: Seq<char>, c: char)
    requires
        forall|j: int| 0 <= j < s.len() ==> s[j] != c,
    ensures
        split_on(s, c) == seq![s],
{
    lemma_first_index(s, c);
    if first_index(s, c) < s.len() {
        assert(s[first_index(s, c)] != c);
    }
}

/// An IPLIKE range term `a-b`, both ends octet numbers, matches an octet
/// exactly when the octet lies between them, both ends included.
pub proof fn lemma_range_term_matches(a: Seq<char>, b: Seq<char>, oct: u8)
    requires
        parse_u8_spec(a) is Some,
        parse_u8_spec(b) is Some,
    ensures
        spec_octet_matches(a + seq!['-'] + b, oct) <==> (parse_u8_spec(a).unwrap() <= oct
            && oct <= parse_u8_spec(b).unwrap()),
{
    let s = a + seq!['-'] + b;
    lemma_number_has_no_separator(a, '-');
    lemma_number_has_no_separator(a, ',');
    lemma_number_has_no_separator(b, ',');
    assert(s[a.len() as int] == '-');
    assert forall|j: int| 0 <= j < a.len() implies s[j] != '-' by {
        assert(s[j] == a[j]);
    }
    lemma_first_index_at(s, '-', a.len() as int);
    assert(s.take(a.len() as int) =~= a);
    assert(s.skip(a.len() + 1int) =~= b);
    assert(split_once(s, '-') == Some((a, b)));
    assert forall|j: int| 0 <= j < s.len() implies s[j] != ',' by {
        if j < a.len() {
            assert(s[j] == a[j]);
        } else if j > a.len() {
            assert(s[j] == b[j - a.len() - 1]);
        }
    }
    lemma_split_on_absent(s, ',');
    assert(s.len() != 1);
    assert(s != seq!['*']);
    assert(split_on(s, ',')[0] == s);
}

/// A single-number IPLIKE term matches exactly the octet it names.
pub proof fn lemma_number_term_matches(t: Seq<char>, oct: u8)
    requires
        parse_u8_spec(t) is Some,
    ensures
        spec_octet_matches(t, oct) <==> parse_u8_spec(t) == Some(oct),
{
    lemma_number_has_no_separator(t, '-');
    lemma_number_has_no_separator(t, ',');
    assert(split_once(t, '-') is None);
    lemma_split_on_absent(t, ',');
    assert(split_on(t, ',')[0] == t);
    if t == seq!['*'] {
        assert(t[0] != '*');
    }
}

/// A comma list of IPLIKE terms matches an octet exactly when its first
/// term or the rest of the list does (neither being the bare wildcard).
pub proof fn lemma_term_list_matches(t: Seq<char>, rest: Seq<char>, oct: u8)
    requires
        forall|j: int| 0 <= j < t.len() ==> t[j] != ',',
        t != seq!['*'],
        rest != seq!['*'],
    ensures
        spec_octet_matches(t + seq![','] + rest, oct) <==> (spec_octet_matches(t, oct)
            || spec_octet_matches(rest, oct)),
{
    let s = t + seq![','] + rest;
    assert(s[t.len() as int] == ',');
    assert forall|j: int| 0 <= j < t.len() implies s[j] != ',' by {
        assert(s[j] == t[j]);
    }
    lemma_first_index_at(s, ',', t.len() as int);
    assert(s.take(t.len() as int) =~= t);
    assert(s.skip(t.len() + 1int) =~= rest);
    let whole = split_on(s, ',');
    let tail = split_on(rest, ',');
    assert(whole == seq![t] + tail);
    lemma_split_on_absent(t, ',');
    assert(split_on(t, ',')[0] == t);
    if s == seq!['*'] {
        assert(s[t.len() as int] == '*');
    }
    if spec_octet_matches(s, oct) {
        let i = choose|i: int| 0 <= i < whole.len() && term_matches(#[trigger] whole[i], oct);
        if i > 0 {
            assert(whole[i] == tail[i - 1]);
        }
    }
    if spec_octet_matches(rest, oct) {
        let i = choose|i: int| 0 <= i < tail.len() && term_matches(#[trigger] tail[i], oct);
        assert(whole[i + 1] == tail[i]);
    }
    if spec_octet_matches(t, oct) {
        assert(whole[0] == t);
    }
}


/// The IPLIKE wildcard `*` matches every octet.
pub proof fn lemma_wildcard_matches(oct: u8)
    ensures
        spec_octet_matches(seq!['*'], oct),
{
}

} // verus!
