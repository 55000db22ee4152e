//! IP addresses: the textual grammar accepted for IPv4 and IPv6 literals
//! (dotted quads without leading zeros; eight colon-separated groups of one
//! to four hex digits, one `::` standing for at least one zero group, an
//! embedded dotted quad in the last two groups) and the canonical text of
//! an address (shortest IPv6 form with the longest zero run compressed).

use vstd::prelude::*;
use crate::text::{chars_of, dec, fmt_u64, join, push_char, append_str};

verus! {

/// An IP address.
#[derive(Debug, Clone, Copy, PartialEq, Eq)]
pub enum IpAddr {
    V4([u8; 4]),
    V6([u16; 8]),
}

/// The mathematical model of an [`IpAddr`].
pub enum IpModel {
    V4(Seq<u8>),
    V6(Seq<u16>),
}

impl View for IpAddr {
    type V = IpModel;

    open spec fn view(&self) -> IpModel {
        match self {
            IpAddr::V4(o) => IpModel::V4(o@),
            IpAddr::V6(g) => IpModel::V6(g@),
        }
    }
}

impl IpAddr {
    /// Whether the two addresses are equal.
    #[verifier::loop_isolation(false)]
    pub fn same(&self, other: &IpAddr) -> (r: bool)
        ensures
            r == (self@ == other@),
    {
        match (self, other) {
            (IpAddr::V4(a), IpAddr::V4(b)) => {
                let r = a[0] == b[0] && a[1] == b[1] && a[2] == b[2] && a[3] == b[3];
                if r {
                    assert(a@ =~= b@);
                }
                r
            },
            (IpAddr::V6(a), IpAddr::V6(b)) => {
                let mut i: usize = 0;
                while i < 8
                    invariant
                        0 <= i <= 8,
                        forall|j: int| 0 <= j < i ==> a@[j] == b@[j],
                    decreases 8 - i,
                {
                    if a[i] != b[i] {
                        assert(a@[i as int] != b@[i as int]);
                        return false;
                    }
                    i = i + 1;
                }
                assert(a@ =~= b@);
                true
            },
            _ => false,
        }
    }
}

// ---------------------------------------------------------------------------
// Grammar
// ---------------------------------------------------------------------------

/// The value of a digit in `radix` (10 or 16; hex digits in either case).
pub open spec fn digit_of(c: char, radix: u32) -> Option<u32> {
    if '0' <= c && c <= '9' {
        Some(((c as u32) - 48) as u32)
    } else if radix == 16 && 'a' <= c && c <= 'f' {
        Some(((c as u32) - 87) as u32)
    } else if radix == 16 && 'A' <= c && c <= 'F' {
        Some(((c as u32) - 55) as u32)
    } else {
        None
    }
}

/// The end of the run of `radix` digits starting at `p`.
pub open spec fn run_end(s: Seq<char>, p: int, radix: u32) -> int
    decreases s.len() - p,
{
    if 0 <= p < s.len() && digit_of(s[p], radix) is Some {
        run_end(s, p + 1, radix)
    } else {
        p
    }
}

/// The value of the digits `s[p..e]`.
pub open spec fn run_value(s: Seq<char>, p: int, e: int, radix: u32) -> int
    decreases e - p,
{
    if e <= p {
        0
    } else {
        run_value(s, p, e - 1, radix) * radix + match digit_of(s[e - 1], radix) {
            Some(d) => d as int,
            None => 0,
        }
    }
}

/// A number at `p`: the whole run of digits, at most `max` of them, with a
/// value at most `bound`, and (unless `zero_ok`) no leading zero in a
/// number of two or more digits. Gives the value and the position after.
pub open spec fn read_number(s: Seq<char>, p: int, radix: u32, max: int, bound: int, zero_ok: bool) -> Option<(int, int)> {
    let e = run_end(s, p, radix);
    if e - p == 0 || e - p > max || run_value(s, p, e, radix) > bound || (!zero_ok && s[p] == '0'
        && e - p > 1) {
        None
    } else {
        Some((run_value(s, p, e, radix), e))
    }
}

/// Item `i` of a separated list at `p`: the separator first unless `i` is
/// zero, then a number.
pub open spec fn sep_number(
    s: Seq<char>,
    p: int,
    i: int,
    sep: char,
    radix: u32,
    max: int,
    bound: int,
    zero_ok: bool,
) -> Option<(int, int)> {
    if i == 0 {
        read_number(s, p, radix, max, bound, zero_ok)
    } else if 0 <= p < s.len() && s[p] == sep {
        read_number(s, p + 1, radix, max, bound, zero_ok)
    } else {
        None
    }
}

/// Octets `i..4` of a dotted quad at `p`.
pub open spec fn read_v4_from(s: Seq<char>, p: int, i: int) -> Option<(Seq<u8>, int)>
    decreases 4 - i,
{
    if i >= 4 {
        Some((Seq::empty(), p))
    } else {
        match sep_number(s, p, i, '.', 10, 3, 255, false) {
            Some((v, e)) => match read_v4_from(s, e, i + 1) {
                Some((rest, e2)) => Some((seq![v as u8] + rest, e2)),
                None => None,
            },
            None => None,
        }
    }
}

/// A dotted quad at `p`.
pub open spec fn read_ipv4(s: Seq<char>, p: int) -> Option<(Seq<u8>, int)> {
    read_v4_from(s, p, 0)
}

/// Groups `i..limit` of an IPv6 address at `p`: each a hex group (after a
/// colon unless first), where an embedded dotted quad may stand for the
/// next two groups when two or more groups remain. Gives the groups read,
/// whether a dotted quad ended them, and the position after.
pub open spec fn read_groups(s: Seq<char>, p: int, i: int, limit: int) -> (Seq<u16>, bool, int)
    decreases limit - i,
{
    if i >= limit {
        (Seq::empty(), false, p)
    } else {
        let v4 = if i < limit - 1 {
            if i == 0 {
                read_ipv4(s, p)
            } else if 0 <= p < s.len() && s[p] == ':' {
                read_ipv4(s, p + 1)
            } else {
                None
            }
        } else {
            None
        };
        match v4 {
            Some((o, e)) => (
                seq![(o[0] as int * 256 + o[1] as int) as u16, (o[2] as int * 256 + o[3] as int) as u16],
                true,
                e,
            ),
            None => match sep_number(s, p, i, ':', 16, 4, 65535, true) {
                Some((g, e)) => {
                    let r = read_groups(s, e, i + 1, limit);
                    (seq![g as u16] + r.0, r.1, r.2)
                },
                None => (Seq::empty(), false, p),
            },
        }
    }
}

/// An IPv6 address at `p`: eight groups, or the groups before a `::`, as
/// many zero groups as are missing (at least one), and the groups after.
pub open spec fn read_ipv6(s: Seq<char>, p: int) -> Option<(Seq<u16>, int)> {
    let h = read_groups(s, p, 0, 8);
    if h.0.len() == 8 {
        Some((h.0, h.2))
    } else if h.1 {
        None
    } else if 0 <= h.2 && h.2 + 1 < s.len() && s[h.2] == ':' && s[h.2 + 1] == ':' {
        let t = read_groups(s, h.2 + 2, 0, 8 - (h.0.len() + 1));
        Some((h.0 + Seq::new((8 - h.0.len() - t.0.len()) as nat, |i: int| 0u16) + t.0, t.2))
    } else {
        None
    }
}

/// The address a text denotes: a dotted quad, or else an IPv6 address,
/// covering the whole text.
pub open spec fn spec_parse_ip(s: Seq<char>) -> Option<IpModel> {
    match read_ipv4(s, 0) {
        Some((o, e)) => if e == s.len() {
            Some(IpModel::V4(o))
        } else {
            None
        },
        None => match read_ipv6(s, 0) {
            Some((g, e)) => if e == s.len() {
                Some(IpModel::V6(g))
            } else {
                None
            },
            None => None,
        },
    }
}

// ---------------------------------------------------------------------------
// Parser
// ---------------------------------------------------------------------------

fn digit_value(c: char, radix: u32) -> (r: Option<u32>)
    ensures
        r == digit_of(c, radix),
{
    if '0' <= c && c <= '9' {
        Some((c as u32) - 48)
    } else if radix == 16 && 'a' <= c && c <= 'f' {
        Some((c as u32) - 87)
    } else if radix == 16 && 'A' <= c && c <= 'F' {
        Some((c as u32) - 55)
    } else {
        None
    }
}

/// A value above every bound used; a capped run value is exact below it.
const CAP: u32 = 70000;

proof fn lemma_run_step(s: Seq<char>, p: int, e: int, radix: u32)
    requires
        p <= e,
        0 <= e < s.len(),
        digit_of(s[e], radix) is Some,
        radix == 10 || radix == 16,
    ensures
        run_value(s, p, e + 1, radix) == run_value(s, p, e, radix) * radix + digit_of(s[e], radix).unwrap(),
        run_value(s, p, e, radix) >= 0,
        run_value(s, p, e, radix) >= CAP ==> run_value(s, p, e + 1, radix) >= CAP,
    decreases e - p,
{
    if p < e {
        lemma_run_nonneg(s, p, e, radix);
    }
    if radix == 10 {
        assert(run_value(s, p, e, radix) * 10 >= run_value(s, p, e, radix)) by (nonlinear_arith)
            requires
                run_value(s, p, e, radix) >= 0,
        ;
    } else {
        assert(run_value(s, p, e, radix) * 16 >= run_value(s, p, e, radix)) by (nonlinear_arith)
            requires
                run_value(s, p, e, radix) >= 0,
        ;
    }
}

proof fn lemma_run_nonneg(s: Seq<char>, p: int, e: int, radix: u32)
    requires
        radix == 10 || radix == 16,
    ensures
        run_value(s, p, e, radix) >= 0,
    decreases e - p,
{
    if p < e {
        lemma_run_nonneg(s, p, e - 1, radix);
        let v = run_value(s, p, e - 1, radix);
        assert(v * radix >= 0) by (nonlinear_arith)
            requires
                v >= 0,
                radix >= 0,
        ;
    }
}

/// A number at `p` (see [`read_number`]).
fn parse_number(s: &Vec<char>, p: usize, radix: u32, max: usize, bound: u32, zero_ok: bool) -> (r:
    Option<(u32, usize)>)
    requires
        p <= s.len(),
        radix == 10 || radix == 16,
        bound < CAP,
    ensures
        match r {
            Some((v, e)) => read_number(s@, p as int, radix, max as int, bound as int, zero_ok) == Some(
                (v as int, e as int),
            ),
            None => read_number(s@, p as int, radix, max as int, bound as int, zero_ok) is None,
        },
{
    let mut e: usize = p;
    let mut value: u32 = 0;
    proof {
        lemma_run_nonneg(s@, p as int, p as int, radix);
    }
    while e < s.len() && digit_value(s[e], radix).is_some()
        invariant
            p <= e <= s.len(),
            radix == 10 || radix == 16,
            run_end(s@, p as int, radix) == run_end(s@, e as int, radix),
            value <= CAP,
            value == CAP <==> run_value(s@, p as int, e as int, radix) >= CAP,
            value < CAP ==> value == run_value(s@, p as int, e as int, radix),
        decreases s.len() - e,
    {
        let d = digit_value(s[e], radix).unwrap();
        proof {
            lemma_run_step(s@, p as int, e as int, radix);
        }
        if value == CAP {
        } else {
            let next: u32 = value * radix + d;
            value = if next >= CAP {
                CAP
            } else {
                next
            };
        }
        e = e + 1;
    }
    proof {
        lemma_run_nonneg(s@, p as int, e as int, radix);
    }
    let count = e - p;
    if count == 0 || count > max || value > bound || (!zero_ok && s[p] == '0' && count > 1) {
        None
    } else {
        Some((value, e))
    }
}

fn parse_sep_number(
    s: &Vec<char>,
    p: usize,
    i: usize,
    sep: char,
    radix: u32,
    max: usize,
    bound: u32,
    zero_ok: bool,
) -> (r: Option<(u32, usize)>)
    requires
        p <= s.len(),
        radix == 10 || radix == 16,
        bound < CAP,
    ensures
        match r {
            Some((v, e)) => sep_number(s@, p as int, i as int, sep, radix, max as int, bound as int, zero_ok)
                == Some((v as int, e as int)),
            None => sep_number(s@, p as int, i as int, sep, radix, max as int, bound as int, zero_ok) is None,
        },
{
    if i == 0 {
        parse_number(s, p, radix, max, bound, zero_ok)
    } else if p < s.len() && s[p] == sep {
        parse_number(s, p + 1, radix, max, bound, zero_ok)
    } else {
        None
    }
}

proof fn lemma_number_end(s: Seq<char>, p: int, radix: u32, max: int, bound: int, zero_ok: bool)
    requires
        0 <= p <= s.len(),
        radix == 10 || radix == 16,
    ensures
        match read_number(s, p, radix, max, bound, zero_ok) {
            Some((v, e)) => p < e <= s.len() && 0 <= v <= bound,
            None => true,
        },
{
    lemma_run_end_bounds(s, p, radix);
    lemma_run_nonneg(s, p, run_end(s, p, radix), radix);
}

proof fn lemma_run_end_bounds(s: Seq<char>, p: int, radix: u32)
    requires
        0 <= p <= s.len(),
    ensures
        p <= run_end(s, p, radix) <= s.len(),
    decreases s.len() - p,
{
    if 0 <= p < s.len() && digit_of(s[p], radix) is Some {
        lemma_run_end_bounds(s, p + 1, radix);
    }
}

/// Octets `i..4` of a dotted quad at `p`.
fn parse_v4_from(s: &Vec<char>, p: usize, i: usize) -> (r: Option<(Vec<u8>, usize)>)
    requires
        p <= s.len(),
        i <= 4,
    ensures
        match r {
            Some((o, e)) => read_v4_from(s@, p as int, i as int) == Some((o@, e as int)) && e <= s.len(),
            None => read_v4_from(s@, p as int, i as int) is None,
        },
    decreases 4 - i,
{
    if i >= 4 {
        return Some((Vec::new(), p));
    }
    proof {
        if i == 0 {
            lemma_number_end(s@, p as int, 10, 3, 255, false);
        } else if p < s.len() {
            lemma_number_end(s@, p + 1, 10, 3, 255, false);
        }
    }
    match parse_sep_number(s, p, i, '.', 10, 3, 255, false) {
        Some((v, e)) => match parse_v4_from(s, e, i + 1) {
            Some((rest, e2)) => {
                let mut o: Vec<u8> = Vec::new();
                o.push(v as u8);
                let mut k: usize = 0;
                while k < rest.len()
                    invariant
                        k <= rest.len(),
                        o@ == seq![v as u8] + rest@.take(k as int),
                    decreases rest.len() - k,
                {
                    o.push(rest[k]);
                    assert(rest@.take(k + 1) == rest@.take(k as int).push(rest@[k as int]));
                    k = k + 1;
                }
                assert(rest@.take(rest.len() as int) == rest@);
                Some((o, e2))
            },
            None => None,
        },
        None => None,
    }
}

/// A dotted quad at `p`.
fn parse_ipv4(s: &Vec<char>, p: usize) -> (r: Option<(Vec<u8>, usize)>)
    requires
        p <= s.len(),
    ensures
        match r {
            Some((o, e)) => read_ipv4(s@, p as int) == Some((o@, e as int)) && e <= s.len(),
            None => read_ipv4(s@, p as int) is None,
        },
{
    parse_v4_from(s, p, 0)
}

proof fn lemma_v4_len(s: Seq<char>, p: int, i: int)
    requires
        0 <= i <= 4,
    ensures
        match read_v4_from(s, p, i) {
            Some((o, e)) => o.len() == 4 - i,
            None => true,
        },
    decreases 4 - i,
{
    if i < 4 {
        match sep_number(s, p, i, '.', 10, 3, 255, false) {
            Some((v, e)) => lemma_v4_len(s, e, i + 1),
            None => {},
        }
    }
}

/// Groups `i..limit` of an IPv6 address at `p` (see [`read_groups`]).
fn parse_groups(s: &Vec<char>, p: usize, i: usize, limit: usize) -> (r: (Vec<u16>, bool, usize))
    requires
        p <= s.len(),
        i <= limit <= 8,
    ensures
        read_groups(s@, p as int, i as int, limit as int) == (r.0@, r.1, r.2 as int),
        r.2 <= s.len(),
        r.0.len() <= limit - i,
    decreases limit - i,
{
    if i >= limit {
        return (Vec::new(), false, p);
    }
    let v4 = if i + 1 < limit {
        if i == 0 {
            parse_ipv4(s, p)
        } else if p < s.len() && s[p] == ':' {
            parse_ipv4(s, p + 1)
        } else {
            None
        }
    } else {
        None
    };
    match v4 {
        Some((o, e)) => {
            proof {
                if i == 0 {
                    lemma_v4_len(s@, p as int, 0);
                } else {
                    lemma_v4_len(s@, p + 1, 0);
                }
            }
            let mut g: Vec<u16> = Vec::new();
            g.push((o[0] as u16) * 256 + (o[1] as u16));
            g.push((o[2] as u16) * 256 + (o[3] as u16));
            assert(g@ =~= seq![
                (o@[0] as int * 256 + o@[1] as int) as u16,
                (o@[2] as int * 256 + o@[3] as int) as u16,
            ]);
            (g, true, e)
        },
        None => {
            proof {
                if i == 0 {
                    lemma_number_end(s@, p as int, 16, 4, 65535, true);
                } else if p < s.len() {
                    lemma_number_end(s@, p + 1, 16, 4, 65535, true);
                }
            }
            match parse_sep_number(s, p, i, ':', 16, 4, 65535, true) {
                Some((v, e)) => {
                    let (rest, flag, e2) = parse_groups(s, e, i + 1, limit);
                    let mut g: Vec<u16> = Vec::new();
                    g.push(v as u16);
                    let mut k: usize = 0;
                    while k < rest.len()
                        invariant
                            k <= rest.len(),
                            g@ == seq![v as u16] + rest@.take(k as int),
                        decreases rest.len() - k,
                    {
                        g.push(rest[k]);
                        assert(rest@.take(k + 1) == rest@.take(k as int).push(rest@[k as int]));
                        k = k + 1;
                    }
                    assert(rest@.take(rest.len() as int) == rest@);
                    (g, flag, e2)
                },
                None => (Vec::new(), false, p),
            }
        },
    }
}

/// An IPv6 address at `p` (see [`read_ipv6`]).
fn parse_ipv6(s: &Vec<char>, p: usize) -> (r: Option<(Vec<u16>, usize)>)
    requires
        p <= s.len(),
    ensures
        match r {
            Some((g, e)) => read_ipv6(s@, p as int) == Some((g@, e as int)),
            None => read_ipv6(s@, p as int) is None,
        },
{
    let (head, v4, p1) = parse_groups(s, p, 0, 8);
    if head.len() == 8 {
        return Some((head, p1));
    }
    if v4 {
        return None;
    }
    if p1 < s.len() && s[p1] == ':' && p1 + 1 < s.len() && s[p1 + 1] == ':' {
        let limit = 8 - (head.len() + 1);
        let (tail, _, p2) = parse_groups(s, p1 + 2, 0, limit);
        let mut g: Vec<u16> = Vec::new();
        let mut k: usize = 0;
        while k < head.len()
            invariant
                k <= head.len(),
                g@ == head@.take(k as int),
            decreases head.len() - k,
        {
            g.push(head[k]);
            assert(head@.take(k + 1) == head@.take(k as int).push(head@[k as int]));
            k = k + 1;
        }
        assert(head@.take(head.len() as int) == head@);
        let zeros = 8 - head.len() - tail.len();
        let mut z: usize = 0;
        while z < zeros
            invariant
                z <= zeros,
                g@ == head@ + Seq::new(z as nat, |i: int| 0u16),
            decreases zeros - z,
        {
            g.push(0u16);
            assert(g@ =~= head@ + Seq::new((z + 1) as nat, |i: int| 0u16));
            z = z + 1;
        }
        let mut k: usize = 0;
        while k < tail.len()
            invariant
                k <= tail.len(),
                g@ == head@ + Seq::new(zeros as nat, |i: int| 0u16) + tail@.take(k as int),
            decreases tail.len() - k,
        {
            g.push(tail[k]);
            assert(tail@.take(k + 1) == tail@.take(k as int).push(tail@[k as int]));
            k = k + 1;
        }
        assert(tail@.take(tail.len() as int) == tail@);
        Some((g, p2))
    } else {
        None
    }
}

/// Parses an IPv4 or IPv6 literal (see [`spec_parse_ip`]).
#[verifier::spinoff_prover]
pub fn parse_ip(text: &str) -> (r: Option<IpAddr>)
    ensures
        match r {
            Some(a) => spec_parse_ip(text@) == Some(a@),
            None => spec_parse_ip(text@) is None,
        },
{
    let s = chars_of(text);
    match parse_ipv4(&s, 0) {
        Some((o, e)) => {
            proof {
                lemma_v4_len(s@, 0, 0);
            }
            if e == s.len() {
                let a = [o[0], o[1], o[2], o[3]];
                assert(a@ =~= o@);
                Some(IpAddr::V4(a))
            } else {
                None
            }
        },
        None => whole_ipv6(&s),
    }
}

/// The IPv6 reading of the whole text, where it has no IPv4 reading.
fn whole_ipv6(s: &Vec<char>) -> (r: Option<IpAddr>)
    ensures
        match r {
            Some(a) => match read_ipv6(s@, 0) {
                Some((g, e)) => e == s.len() && a@ == IpModel::V6(g),
                None => false,
            },
            None => match read_ipv6(s@, 0) {
                Some((g, e)) => e != s.len(),
                None => true,
            },
        },
{
    match parse_ipv6(s, 0) {
        Some((g, e)) => {
            if e == s.len() {
                proof {
                    lemma_ipv6_len(s@, 0);
                }
                let a = [g[0], g[1], g[2], g[3], g[4], g[5], g[6], g[7]];
                assert(a@ =~= g@);
                Some(IpAddr::V6(a))
            } else {
                None
            }
        },
        None => None,
    }
}

proof fn lemma_groups_len(s: Seq<char>, p: int, i: int, limit: int)
    requires
        i <= limit,
    ensures
        read_groups(s, p, i, limit).0.len() <= limit - i,
        read_groups(s, p, i, limit).1 ==> read_groups(s, p, i, limit).0.len() >= 2,
    decreases limit - i,
{
    if i < limit {
        let v4 = if i < limit - 1 {
            if i == 0 {
                read_ipv4(s, p)
            } else if 0 <= p < s.len() && s[p] == ':' {
                read_ipv4(s, p + 1)
            } else {
                None
            }
        } else {
            None
        };
        match v4 {
            Some(_) => {},
            None => match sep_number(s, p, i, ':', 16, 4, 65535, true) {
                Some((g, e)) => lemma_groups_len(s, e, i + 1, limit),
                None => {},
            },
        }
    }
}

proof fn lemma_ipv6_len(s: Seq<char>, p: int)
    ensures
        match read_ipv6(s, p) {
            Some((g, e)) => g.len() == 8,
            None => true,
        },
{
    lemma_groups_len(s, p, 0, 8);
    let h = read_groups(s, p, 0, 8);
    if h.0.len() < 8 && !h.1 && 0 <= h.2 && h.2 + 1 < s.len() {
        lemma_groups_len(s, h.2 + 2, 0, 8 - (h.0.len() + 1));
    }
}

// ---------------------------------------------------------------------------
// Canonical text
// ---------------------------------------------------------------------------

/// A lowercase hexadecimal digit.
pub open spec fn hex_digit(d: nat) -> char {
    if d < 10 {
        ((d + 48) as u32) as char
    } else {
        ((d + 87) as u32) as char
    }
}

/// `n` in lowercase hexadecimal without leading zeros.
pub open spec fn hex(n: nat) -> Seq<char>
    decreases n,
{
    if n < 16 {
        seq![hex_digit(n)]
    } else {
        hex(n / 16).push(hex_digit(n % 16))
    }
}

/// The dotted-quad text of four octets.
pub open spec fn v4_text(o: Seq<u8>) -> Seq<char> {
    dec(o[0] as nat) + seq!['.'] + dec(o[1] as nat) + seq!['.'] + dec(o[2] as nat) + seq!['.'] + dec(
        o[3] as nat,
    )
}

/// Groups in hex, colon-separated.
pub open spec fn groups_text(g: Seq<u16>) -> Seq<char> {
    join(g.map_values(|x: u16| hex(x as nat)), seq![':'])
}

/// The first longest run of zero groups from position `i` on, given the
/// current run (`cs`, `cl`) and the best so far (`bs`, `bl`).
pub open spec fn zero_run(g: Seq<u16>, i: int, cs: int, cl: int, bs: int, bl: int) -> (int, int)
    decreases g.len() - i,
{
    if i < 0 || i >= g.len() {
        (bs, bl)
    } else if g[i] == 0 {
        let ncs = if cl == 0 {
            i
        } else {
            cs
        };
        let ncl = cl + 1;
        if ncl > bl {
            zero_run(g, i + 1, ncs, ncl, ncs, ncl)
        } else {
            zero_run(g, i + 1, ncs, ncl, bs, bl)
        }
    } else {
        zero_run(g, i + 1, 0, 0, bs, bl)
    }
}

/// The canonical text of an IPv6 address: an IPv4-mapped address as
/// `::ffff:` and its dotted quad; otherwise the groups in hex with the
/// first longest run of two or more zero groups written `::`.
pub open spec fn v6_text(g: Seq<u16>) -> Seq<char> {
    if g.take(6) == seq![0u16, 0u16, 0u16, 0u16, 0u16, 0xffffu16] {
        seq![':', ':', 'f', 'f', 'f', 'f', ':'] + v4_text(
            seq![(g[6] / 256) as u8, (g[6] % 256) as u8, (g[7] / 256) as u8, (g[7] % 256) as u8],
        )
    } else {
        let z = zero_run(g, 0, 0, 0, 0, 0);
        if z.1 > 1 {
            groups_text(g.take(z.0)) + seq![':', ':'] + groups_text(g.skip(z.0 + z.1))
        } else {
            groups_text(g)
        }
    }
}

/// The canonical text of an address.
pub open spec fn ip_text(a: IpModel) -> Seq<char> {
    match a {
        IpModel::V4(o) => v4_text(o),
        IpModel::V6(g) => v6_text(g),
    }
}

fn hex_char(d: u16) -> (c: char)
    requires
        d < 16,
    ensures
        c == hex_digit(d as nat),
{
    if d < 10 {
        ((d as u8) + 48) as char
    } else {
        ((d as u8) + 87) as char
    }
}

/// `n` in lowercase hexadecimal.
fn fmt_hex(n: u16) -> (s: String)
    ensures
        s@ == hex(n as nat),
{
    let mut s = String::new();
    if n < 16 {
        push_char(&mut s, hex_char(n));
    } else if n < 256 {
        push_char(&mut s, hex_char(n / 16));
        push_char(&mut s, hex_char(n % 16));
        assert(hex(n as nat) == hex((n / 16) as nat).push(hex_digit((n % 16) as nat)));
    } else if n < 4096 {
        push_char(&mut s, hex_char(n / 256));
        push_char(&mut s, hex_char((n / 16) % 16));
        push_char(&mut s, hex_char(n % 16));
        assert((n / 16) / 16 == n / 256);
        assert(hex((n / 16) as nat) == hex((n / 256) as nat).push(hex_digit(((n / 16) % 16) as nat)));
        assert(hex(n as nat) == hex((n / 16) as nat).push(hex_digit((n % 16) as nat)));
    } else {
        push_char(&mut s, hex_char(n / 4096));
        push_char(&mut s, hex_char((n / 256) % 16));
        push_char(&mut s, hex_char((n / 16) % 16));
        push_char(&mut s, hex_char(n % 16));
        assert((n / 16) / 16 == n / 256);
        assert((n / 256) / 16 == n / 4096);
        assert(hex((n / 256) as nat) == hex((n / 4096) as nat).push(hex_digit(((n / 256) % 16) as nat)));
        assert(hex((n / 16) as nat) == hex((n / 256) as nat).push(hex_digit(((n / 16) % 16) as nat)));
        assert(hex(n as nat) == hex((n / 16) as nat).push(hex_digit((n % 16) as nat)));
    }
    s
}

fn write_v4(out: &mut String, o: &[u8; 4])
    ensures
        final(out)@ == old(out)@ + v4_text(o@),
{
    let a = fmt_u64(o[0] as u64);
    let b = fmt_u64(o[1] as u64);
    let c = fmt_u64(o[2] as u64);
    let d = fmt_u64(o[3] as u64);
    append_str(out, a.as_str());
    push_char(out, '.');
    append_str(out, b.as_str());
    push_char(out, '.');
    append_str(out, c.as_str());
    push_char(out, '.');
    append_str(out, d.as_str());
    assert(out@ =~= old(out)@ + v4_text(o@));
}

/// Appends groups `lo..hi` in hex, colon-separated.
fn write_groups(out: &mut String, g: &[u16; 8], lo: usize, hi: usize)
    requires
        lo <= hi <= 8,
    ensures
        final(out)@ == old(out)@ + groups_text(g@.subrange(lo as int, hi as int)),
{
    let ghost start = out@;
    let ghost texts = g@.subrange(lo as int, hi as int).map_values(|x: u16| hex(x as nat));
    let mut i: usize = lo;
    while i < hi
        invariant
            lo <= i <= hi,
            hi <= 8,
            texts == g@.subrange(lo as int, hi as int).map_values(|x: u16| hex(x as nat)),
            out@ == start + join(texts.take((i - lo) as int), seq![':']),
        decreases hi - i,
    {
        if i > lo {
            push_char(out, ':');
        }
        let t = fmt_hex(g[i]);
        append_str(out, t.as_str());
        proof {
            let k = (i - lo) as int;
            let tk = texts.take(k + 1);
            assert(tk.drop_last() == texts.take(k));
            assert(tk.last() == hex(g@[i as int] as nat));
            if k == 0 {
                assert(join(tk, seq![':']) == tk[0]);
            }
        }
        assert(out@ =~= start + join(texts.take((i + 1 - lo) as int), seq![':']));
        i = i + 1;
    }
    assert(texts.take((hi - lo) as int) == texts);
}

/// The canonical text of an address (see [`ip_text`]).
pub fn ip_to_string(a: &IpAddr) -> (s: String)
    ensures
        s@ == ip_text(a@),
{
    let mut out = String::new();
    match a {
        IpAddr::V4(o) => {
            write_v4(&mut out, o);
        },
        IpAddr::V6(g) => {
            if g[0] == 0 && g[1] == 0 && g[2] == 0 && g[3] == 0 && g[4] == 0 && g[5] == 0xffff {
                assert(g@.take(6) =~= seq![0u16, 0u16, 0u16, 0u16, 0u16, 0xffffu16]);
                let o: [u8; 4] = [(g[6] / 256) as u8, (g[6] % 256) as u8, (g[7] / 256) as u8, (g[7] % 256) as u8];
                push_char(&mut out, ':');
                push_char(&mut out, ':');
                push_char(&mut out, 'f');
                push_char(&mut out, 'f');
                push_char(&mut out, 'f');
                push_char(&mut out, 'f');
                push_char(&mut out, ':');
                write_v4(&mut out, &o);
                assert(o@ =~= seq![(g@[6] / 256) as u8, (g@[6] % 256) as u8, (g@[7] / 256) as u8, (g@[7] % 256) as u8]);
            } else {
                proof {
                    if g@.take(6) == seq![0u16, 0u16, 0u16, 0u16, 0u16, 0xffffu16] {
                        assert(g@[0] == g@.take(6)[0]);
                        assert(g@[1] == g@.take(6)[1]);
                        assert(g@[2] == g@.take(6)[2]);
                        assert(g@[3] == g@.take(6)[3]);
                        assert(g@[4] == g@.take(6)[4]);
                        assert(g@[5] == g@.take(6)[5]);
                    }
                }
                let mut cs: usize = 0;
                let mut cl: usize = 0;
                let mut bs: usize = 0;
                let mut bl: usize = 0;
                let mut i: usize = 0;
                while i < 8
                    invariant
                        0 <= i <= 8,
                        cl <= i,
                        bl <= i,
                        cs + cl <= i,
                        bs + bl <= 8,
                        zero_run(g@, i as int, cs as int, cl as int, bs as int, bl as int) == zero_run(
                            g@,
                            0,
                            0,
                            0,
                            0,
                            0,
                        ),
                    decreases 8 - i,
                {
                    if g[i] == 0 {
                        if cl == 0 {
                            cs = i;
                        }
                        cl = cl + 1;
                        if cl > bl {
                            bs = cs;
                            bl = cl;
                        }
                    } else {
                        cs = 0;
                        cl = 0;
                    }
                    i = i + 1;
                }
                if bl > 1 {
                    write_groups(&mut out, g, 0, bs);
                    push_char(&mut out, ':');
                    push_char(&mut out, ':');
                    write_groups(&mut out, g, bs + bl, 8);
                    assert(g@.subrange(0, bs as int) =~= g@.take(bs as int));
                    assert(g@.subrange((bs + bl) as int, 8) =~= g@.skip((bs + bl) as int));
                } else {
                    write_groups(&mut out, g, 0, 8);
                    assert(g@.subrange(0, 8) =~= g@);
                }
            }
        },
    }
    assert(out@ =~= ip_text(a@));
    out
}

// ---------------------------------------------------------------------------
// Order
// ---------------------------------------------------------------------------

/// Whether the two addresses are of the same family.
pub open spec fn same_family(a: IpModel, b: IpModel) -> bool {
    (a is V4) == (b is V4)
}

/// Lexicographic "at most" on two number sequences of equal length.
pub open spec fn lex_le(a: Seq<int>, b: Seq<int>) -> bool
    decreases a.len(),
{
    if a.len() == 0 || b.len() == 0 {
        true
    } else if a[0] != b[0] {
        a[0] < b[0]
    } else {
        lex_le(a.drop_first(), b.drop_first())
    }
}

/// The numbers of an address (octets or groups), most significant first.
pub open spec fn parts(a: IpModel) -> Seq<int> {
    match a {
        IpModel::V4(o) => o.map_values(|x: u8| x as int),
        IpModel::V6(g) => g.map_values(|x: u16| x as int),
    }
}

/// Address order (as `std::net::IpAddr` orders): every IPv4 address
/// before every IPv6 one; within a family numeric, most significant part
/// first.
pub open spec fn ip_le(a: IpModel, b: IpModel) -> bool {
    if same_family(a, b) {
        lex_le(parts(a), parts(b))
    } else {
        a is V4
    }
}

/// `a <= b`.
pub fn ip_le_exec(a: &IpAddr, b: &IpAddr) -> (r: bool)
    ensures
        r == ip_le(a@, b@),
{
    let ghost sa = parts(a@);
    let ghost sb = parts(b@);
    assert(sa.skip(0) == sa);
    assert(sb.skip(0) == sb);
    match (a, b) {
        (IpAddr::V4(x), IpAddr::V4(y)) => {
            let mut i: usize = 0;
            while i < 4
                invariant
                    0 <= i <= 4,
                    sa == x@.map_values(|v: u8| v as int),
                    sa == parts(a@),
                    sb == parts(b@),
                    sb == y@.map_values(|v: u8| v as int),
                    lex_le(sa, sb) == lex_le(sa.skip(i as int), sb.skip(i as int)),
                decreases 4 - i,
            {
                assert(sa.skip(i as int)[0] == x@[i as int] as int);
                assert(sb.skip(i as int)[0] == y@[i as int] as int);
                if x[i] != y[i] {
                    assert(sa.skip(i as int).len() > 0 && sb.skip(i as int).len() > 0);
                    return x[i] < y[i];
                }
                assert(sa.skip(i as int).drop_first() == sa.skip(i + 1));
                assert(sb.skip(i as int).drop_first() == sb.skip(i + 1));
                i = i + 1;
            }
            true
        },
        (IpAddr::V6(x), IpAddr::V6(y)) => {
            let mut i: usize = 0;
            while i < 8
                invariant
                    0 <= i <= 8,
                    sa == x@.map_values(|v: u16| v as int),
                    sa == parts(a@),
                    sb == parts(b@),
                    sb == y@.map_values(|v: u16| v as int),
                    lex_le(sa, sb) == lex_le(sa.skip(i as int), sb.skip(i as int)),
                decreases 8 - i,
            {
                assert(sa.skip(i as int)[0] == x@[i as int] as int);
                assert(sb.skip(i as int)[0] == y@[i as int] as int);
                if x[i] != y[i] {
                    assert(sa.skip(i as int).len() > 0 && sb.skip(i as int).len() > 0);
                    return x[i] < y[i];
                }
                assert(sa.skip(i as int).drop_first() == sa.skip(i + 1));
                assert(sb.skip(i as int).drop_first() == sb.skip(i + 1));
                i = i + 1;
            }
            true
        },
        (IpAddr::V4(_), IpAddr::V6(_)) => true,
        (IpAddr::V6(_), IpAddr::V4(_)) => false,
    }
}

} // verus!
