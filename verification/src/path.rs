//! File paths compared as `std::path::Path` compares them: component by
//! component, repeated separators and interior `.` segments ignored.

use vstd::prelude::*;
use crate::sort::{key_fn, keys_lt, models, sort_by, sort_keyed, Keyed};
use crate::text::{append_str, own, split_chars, split_on, starts_with, str_eq, strs, strs_eq};

verus! {

/// One path component, encoded so that the order of the codes is the
/// order of components: the root (`0`), then a leading `.` (`1`), then
/// `..` (`2`), then names (`3` followed by the name) by their text.
pub open spec fn component_code(seg: Seq<char>) -> Seq<char> {
    if seg == seq!['.', '.'] {
        seq!['2']
    } else {
        seq!['3'] + seg
    }
}

/// The components of the segments `segs`, empty and `.` segments skipped.
pub open spec fn body_components(segs: Seq<Seq<char>>) -> Seq<Seq<char>>
    decreases segs.len(),
{
    if segs.len() == 0 {
        Seq::empty()
    } else {
        let rest = body_components(segs.drop_last());
        let seg = segs.last();
        if seg.len() == 0 || seg == seq!['.'] {
            rest
        } else {
            rest.push(component_code(seg))
        }
    }
}

/// The components of path `p` (split at `/`): the root when `p` starts
/// with `/`, else `.` when its first segment is `.`, then its segments.
pub open spec fn path_components(p: Seq<char>) -> Seq<Seq<char>> {
    let segs = split_on(p, '/');
    if p.len() > 0 && p[0] == '/' {
        seq![seq!['0']] + body_components(segs)
    } else if segs[0] == seq!['.'] {
        seq![seq!['1']] + body_components(segs)
    } else {
        body_components(segs)
    }
}

/// Paths ordered by their components.
pub open spec fn path_key() -> spec_fn(Seq<char>) -> Seq<Seq<char>> {
    |p: Seq<char>| path_components(p)
}

/// `s` with every path equal (by components) to its predecessor removed.
pub open spec fn dedup_paths(s: Seq<Seq<char>>) -> Seq<Seq<char>>
    decreases s.len(),
{
    if s.len() <= 1 {
        s
    } else if path_components(s[s.len() - 1]) == path_components(s[s.len() - 2]) {
        dedup_paths(s.drop_last())
    } else {
        dedup_paths(s.drop_last()).push(s.last())
    }
}

/// The paths of `s` sorted by components (stable), each path once, the
/// first of equal paths kept as written.
pub open spec fn path_set(s: Seq<Seq<char>>) -> Seq<Seq<char>> {
    dedup_paths(sort_by(s, path_key()))
}

fn component_of(seg: &str) -> (r: String)
    ensures
        r@ == component_code(seg@),
{
    proof {
        reveal_strlit("..");
        reveal_strlit("2");
        reveal_strlit("3");
        assert(".."@ =~= seq!['.', '.']);
        assert("2"@ =~= seq!['2']);
        assert("3"@ =~= seq!['3']);
    }
    if str_eq(seg, "..") {
        own("2")
    } else {
        let mut c = own("3");
        append_str(&mut c, seg);
        c
    }
}

/// The components of path `p`.
pub fn components(p: &str) -> (r: Vec<String>)
    ensures
        strs(r@) == path_components(p@),
{
    proof {
        reveal_strlit("/");
        reveal_strlit(".");
        reveal_strlit("0");
        reveal_strlit("1");
        reveal_strlit("");
        assert("/"@ =~= seq!['/']);
        assert("."@ =~= seq!['.']);
        assert("0"@ =~= seq!['0']);
        assert("1"@ =~= seq!['1']);
        assert(""@ =~= Seq::<char>::empty());
    }
    let segs = split_chars(p, '/');
    let ghost ss = strs(segs@);
    assert(ss.len() >= 1);
    let mut r: Vec<String> = Vec::new();
    let rooted = starts_with(p, "/");
    assert(rooted == (p@.len() > 0 && p@[0] == '/')) by {
        if p@.len() > 0 && p@[0] == '/' {
            assert("/"@ =~= p@.take(1));
        }
        if rooted {
            assert(p@[0] == "/"@[0]);
        }
    }
    if rooted {
        r.push(own("0"));
    } else if str_eq(segs[0].as_str(), ".") {
        r.push(own("1"));
    }
    let ghost head = strs(r@);
    assert(ss.take(0) == Seq::<Seq<char>>::empty());
    assert(head + body_components(ss.take(0)) =~= head);
    let mut i: usize = 0;
    while i < segs.len()
        invariant
            i <= segs.len(),
            ss == strs(segs@),
            strs(r@) == head + body_components(ss.take(i as int)),
        decreases segs.len() - i,
    {
        assert(ss.take(i + 1).drop_last() == ss.take(i as int));
        assert(ss.take(i + 1).last() == segs@[i as int]@);
        let seg = segs[i].as_str();
        proof {
            reveal_strlit("");
            reveal_strlit(".");
            assert("."@ =~= seq!['.']);
            assert(""@ =~= Seq::<char>::empty());
        }
        if !str_eq(seg, "") && !str_eq(seg, ".") {
            assert(seg@.len() != 0) by {
                if seg@.len() == 0 {
                    assert(seg@ =~= ""@);
                }
            }
            let ghost before = strs(r@);
            r.push(component_of(seg));
            assert(strs(r@) =~= before.push(component_code(seg@)));
            assert(body_components(ss.take(i + 1)) == body_components(ss.take(i as int)).push(
                component_code(seg@),
            ));
            assert(strs(r@) =~= head + body_components(ss.take(i + 1)));
        } else {
            assert(seg@.len() == 0 || seg@ == seq!['.']);
            assert(body_components(ss.take(i + 1)) == body_components(ss.take(i as int)));
        }
        i = i + 1;
    }
    assert(ss.take(segs.len() as int) == ss);
    assert(strs(r@) =~= path_components(p@));
    r
}

/// A path as written, ordered by its components.
pub struct PathText {
    pub text: String,
}

impl View for PathText {
    type V = Seq<char>;

    open spec fn view(&self) -> Seq<char> {
        self.text@
    }
}

impl Keyed for PathText {
    open spec fn mkey(m: Seq<char>) -> Seq<Seq<char>> {
        path_components(m)
    }

    fn sorts_before(&self, other: &Self) -> (b: bool) {
        let a = components(self.text.as_str());
        let o = components(other.text.as_str());
        keys_lt(&a, &o)
    }
}

/// Sorts paths by their components (`sort` of `Path`s, stable) and drops
/// each path equal to its predecessor (`dedup`).
pub fn sort_dedup_paths(v: Vec<String>) -> (r: Vec<String>)
    ensures
        strs(r@) == path_set(strs(v@)),
{
    let mut w: Vec<PathText> = Vec::new();
    let mut i: usize = 0;
    let ghost sv = strs(v@);
    while i < v.len()
        invariant
            i <= v.len(),
            sv == strs(v@),
            models(w@) == sv.take(i as int),
        decreases v.len() - i,
    {
        let ghost before = models(w@);
        let t = v[i].clone();
        assert(t@ == sv[i as int]);
        w.push(PathText { text: t });
        assert(models(w@) =~= before.push(sv[i as int]));
        assert(sv.take(i + 1) =~= sv.take(i as int).push(sv[i as int]));
        i = i + 1;
    }
    assert(sv.take(v.len() as int) == sv);
    let sorted = sort_keyed(w);
    assert(key_fn::<PathText>() =~= path_key());
    let ghost m = models(sorted@);
    assert(m == sort_by(sv, path_key()));
    let mut r: Vec<String> = Vec::new();
    let mut last: Vec<String> = Vec::new();
    let mut j: usize = 0;
    while j < sorted.len()
        invariant
            j <= sorted.len(),
            m == models(sorted@),
            strs(r@) == dedup_paths(m.take(j as int)),
            j > 0 ==> strs(last@) == path_components(m[j - 1]),
        decreases sorted.len() - j,
    {
        let ghost s = m.take(j + 1);
        assert(s.drop_last() == m.take(j as int));
        assert(s.last() == sorted@[j as int]@);
        let comps = components(sorted[j].text.as_str());
        if j > 0 {
            assert(s[s.len() - 2] == m[j - 1]);
            if strs_eq(&comps, &last) {
                assert(strs(r@) == dedup_paths(s));
            } else {
                r.push(sorted[j].text.clone());
                assert(strs(r@) =~= dedup_paths(s));
            }
        } else {
            r.push(sorted[j].text.clone());
            assert(strs(r@) =~= dedup_paths(s));
        }
        last = comps;
        j = j + 1;
    }
    assert(m.take(sorted.len() as int) == m);
    r
}

} // verus!
