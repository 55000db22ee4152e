//! Applying several `kind: Requisition` files in two phases: the
//! cross-file collision tests and the barrier between planning and writing.

use vstd::prelude::*;
use crate::provisioning::apply::{ApplyOutcome, ApplyState, PlanState, RequisitionPlan, RescanChoice};
use crate::provisioning::model::{NodeModel, RequisitionLocal, RequisitionLocalModel};
use crate::sort::{sort_dedup, sorted_set};
use crate::path::{path_set, sort_dedup_paths};
use crate::text::{append_str, dec, fmt_usize, join, join_strs, own, str_eq, strs};

verus! {

/// Options of a multi-file apply: the rescan choice for every file, and
/// whether the first failed file stops the rest.
#[derive(Clone, Copy, Debug)]
pub struct MultiApplyOptions {
    pub rescan_existing: RescanChoice,
    pub stop_on_error: bool,
}

/// How a multi-file apply ended.
#[derive(Clone, Copy, Debug, PartialEq, Eq, Structural)]
pub enum MultiApplyState {
    AbortedPhase1,
    Completed,
    StoppedEarly,
}

/// The class of a cross-file collision.
#[derive(Clone, Copy, Debug, PartialEq, Eq, Hash, Structural)]
pub enum CollisionCode {
    /// The same requisition name in several files: nothing is written.
    DuplicateMetadataName,
    /// The same foreign id in several files: a warning.
    DuplicateForeignId,
}

/// A cross-file collision: its class, the colliding key, the files and a
/// message.
#[derive(Clone, Debug)]
pub struct CollisionFinding {
    pub code: CollisionCode,
    pub key: String,
    pub files: Vec<String>,
    pub message: String,
}

/// The mathematical model of a [`CollisionFinding`].
pub struct CollisionFindingModel {
    pub code: CollisionCode,
    pub key: Seq<char>,
    pub files: Seq<Seq<char>>,
    pub message: Seq<char>,
}

impl View for CollisionFinding {
    type V = CollisionFindingModel;

    open spec fn view(&self) -> CollisionFindingModel {
        CollisionFindingModel {
            code: self.code,
            key: self.key@,
            files: strs(self.files@),
            message: self.message@,
        }
    }
}

impl CollisionFinding {
    /// Whether this collision aborts the apply (a duplicate name).
    pub fn is_hard_error(&self) -> (b: bool)
        ensures
            b == (self.code == CollisionCode::DuplicateMetadataName),
    {
        self.code == CollisionCode::DuplicateMetadataName
    }
}

/// The result of one file: its path, its requisition name when it was
/// read, and the outcome or the error.
pub struct MultiApplyFileResult {
    pub path: String,
    pub foreign_source: Option<String>,
    pub outcome: Result<ApplyOutcome, String>,
}

/// A file's plan.
pub struct MultiApplyPlanEntry {
    pub path: String,
    pub plan: RequisitionPlan,
}

/// The first phase over all files: the plans when nothing aborted, the
/// read errors or collisions otherwise (warnings ride along), and the
/// number of files.
pub struct MultiApplyPlan {
    pub entries: Vec<MultiApplyPlanEntry>,
    pub parse_errors: Vec<MultiApplyFileResult>,
    pub collision_findings: Vec<CollisionFinding>,
    pub input_count: usize,
}

/// The report of a multi-file apply.
pub struct MultiApplyOutcome {
    pub results: Vec<MultiApplyFileResult>,
    pub collision_findings: Vec<CollisionFinding>,
    pub state: MultiApplyState,
}

/// Whether some collision is a duplicate name.
pub open spec fn has_hard(f: Seq<CollisionFinding>) -> bool {
    exists|i: int| 0 <= i < f.len() && #[trigger] f[i].code == CollisionCode::DuplicateMetadataName
}

fn any_hard(f: &Vec<CollisionFinding>) -> (b: bool)
    ensures
        b == has_hard(f@),
{
    let mut i: usize = 0;
    while i < f.len()
        invariant
            i <= f.len(),
            forall|j: int| 0 <= j < i ==> f@[j].code != CollisionCode::DuplicateMetadataName,
        decreases f.len() - i,
    {
        if f[i].is_hard_error() {
            return true;
        }
        i = i + 1;
    }
    false
}

impl MultiApplyPlan {
    /// Whether the first phase aborted: a file could not be read, or a
    /// requisition name occurs in several files.
    pub fn is_aborted(&self) -> (b: bool)
        ensures
            b == (self.parse_errors.len() > 0 || has_hard(self.collision_findings@)),
    {
        self.parse_errors.len() > 0 || any_hard(&self.collision_findings)
    }
}

// ---------------------------------------------------------------------------
// Collisions
// ---------------------------------------------------------------------------

/// The (path, requisition name) pairs of the parsed files.
pub open spec fn name_pairs(p: Seq<(String, RequisitionLocal)>) -> Seq<(Seq<char>, Seq<char>)> {
    Seq::new(p.len(), |i: int| (p[i].0@, p[i].1@.metadata.name))
}

/// The (path, foreign id) pairs of every node of the parsed files, file
/// by file.
pub open spec fn fid_pairs(p: Seq<(String, RequisitionLocal)>) -> Seq<(Seq<char>, Seq<char>)>
    decreases p.len(),
{
    if p.len() == 0 {
        Seq::empty()
    } else {
        fid_pairs(p.drop_last()) + node_pairs(p.last().0@, p.last().1@.spec.nodes)
    }
}

/// The (path, foreign id) pairs of the nodes of one file.
pub open spec fn node_pairs(path: Seq<char>, nodes: Seq<NodeModel>) -> Seq<(Seq<char>, Seq<char>)> {
    Seq::new(nodes.len(), |i: int| (path, nodes[i].foreign_id))
}

/// The paths paired with key `k`, in order.
pub open spec fn paths_for(s: Seq<(Seq<char>, Seq<char>)>, k: Seq<char>) -> Seq<Seq<char>>
    decreases s.len(),
{
    if s.len() == 0 {
        Seq::empty()
    } else if s.last().1 == k {
        paths_for(s.drop_last(), k).push(s.last().0)
    } else {
        paths_for(s.drop_last(), k)
    }
}

/// The keys of the pairs, sorted, each once.
pub open spec fn pair_keys(s: Seq<(Seq<char>, Seq<char>)>) -> Seq<Seq<char>> {
    sorted_set(s.map_values(|e: (Seq<char>, Seq<char>)| e.1))
}

pub open spec fn name_message(name: Seq<char>, files: Seq<Seq<char>>) -> Seq<char> {
    "metadata.name '"@ + name + "' declared in "@ + dec(files.len()) + " files: "@ + join(
        files,
        ", "@,
    )
}

pub open spec fn fid_message(fid: Seq<char>, files: Seq<Seq<char>>) -> Seq<char> {
    "foreignId '"@ + fid + "' appears in "@ + dec(files.len()) + " files: "@ + join(files, ", "@)
        + " (Horizon scopes foreign-id per requisition — likely a copy-paste mistake)"@
}

/// The collisions of one class over the keys `keys`: a finding for each
/// key with more than one file (`files_of` giving a key's files).
pub open spec fn key_findings(
    code: CollisionCode,
    keys: Seq<Seq<char>>,
    s: Seq<(Seq<char>, Seq<char>)>,
) -> Seq<CollisionFindingModel>
    decreases keys.len(),
{
    if keys.len() == 0 {
        Seq::empty()
    } else {
        let k = keys.last();
        let files = files_of(code, s, k);
        let prev = key_findings(code, keys.drop_last(), s);
        if files.len() > 1 {
            prev.push(
                CollisionFindingModel {
                    code,
                    key: k,
                    files,
                    message: if code == CollisionCode::DuplicateMetadataName {
                        name_message(k, files)
                    } else {
                        fid_message(k, files)
                    },
                },
            )
        } else {
            prev
        }
    }
}

/// The files of key `k`: every file declaring a requisition name, in
/// order; for a foreign id, the files of its nodes sorted as paths (by
/// component), each path once.
pub open spec fn files_of(code: CollisionCode, s: Seq<(Seq<char>, Seq<char>)>, k: Seq<char>) -> Seq<
    Seq<char>,
> {
    if code == CollisionCode::DuplicateMetadataName {
        paths_for(s, k)
    } else {
        path_set(paths_for(s, k))
    }
}

/// The collisions of the parsed files: duplicate requisition names by
/// name, then duplicate foreign ids by id.
pub open spec fn spec_collisions(p: Seq<(String, RequisitionLocal)>) -> Seq<CollisionFindingModel> {
    key_findings(CollisionCode::DuplicateMetadataName, pair_keys(name_pairs(p)), name_pairs(p))
        + key_findings(CollisionCode::DuplicateForeignId, pair_keys(fid_pairs(p)), fid_pairs(p))
}

/// The models of a list of findings.
pub open spec fn collisions_model(f: Seq<CollisionFinding>) -> Seq<CollisionFindingModel> {
    Seq::new(f.len(), |i: int| f[i]@)
}

fn paths_matching(s: &Vec<(String, String)>, k: &String) -> (r: Vec<String>)
    ensures
        strs(r@) == paths_for(crate::provisioning::model::pairs_model(s@), k@),
{
    let ghost m = crate::provisioning::model::pairs_model(s@);
    let mut r: Vec<String> = Vec::new();
    let mut i: usize = 0;
    while i < s.len()
        invariant
            i <= s.len(),
            m == crate::provisioning::model::pairs_model(s@),
            strs(r@) == paths_for(m.take(i as int), k@),
        decreases s.len() - i,
    {
        assert(m.take(i + 1).drop_last() == m.take(i as int));
        assert(m.take(i + 1).last() == m[i as int]);
        let ghost before = strs(r@);
        if str_eq(s[i].1.as_str(), k.as_str()) {
            r.push(s[i].0.clone());
            assert(strs(r@) =~= before.push(m[i as int].0));
        }
        i = i + 1;
    }
    assert(m.take(s.len() as int) == m);
    r
}

fn keys_of(s: &Vec<(String, String)>) -> (r: Vec<String>)
    ensures
        strs(r@) == crate::provisioning::model::pairs_model(s@).map_values(
            |e: (Seq<char>, Seq<char>)| e.1,
        ),
{
    let mut r: Vec<String> = Vec::new();
    let mut i: usize = 0;
    while i < s.len()
        invariant
            i <= s.len(),
            r.len() == i,
            forall|j: int| 0 <= j < i ==> #[trigger] r@[j]@ == s@[j].1@,
        decreases s.len() - i,
    {
        r.push(s[i].1.clone());
        i = i + 1;
    }
    assert(strs(r@) =~= crate::provisioning::model::pairs_model(s@).map_values(
        |e: (Seq<char>, Seq<char>)| e.1,
    ));
    r
}

fn findings_for_keys(code: CollisionCode, s: &Vec<(String, String)>, out: &mut Vec<CollisionFinding>)
    ensures
        collisions_model(final(out)@) == collisions_model(old(out)@) + key_findings(
            code,
            pair_keys(crate::provisioning::model::pairs_model(s@)),
            crate::provisioning::model::pairs_model(s@),
        ),
{
    let ghost m = crate::provisioning::model::pairs_model(s@);
    let ghost base = collisions_model(out@);
    let keys = sort_dedup(keys_of(s));
    let ghost km = strs(keys@);
    let mut i: usize = 0;
    while i < keys.len()
        invariant
            i <= keys.len(),
            km == strs(keys@),
            km == pair_keys(m),
            m == crate::provisioning::model::pairs_model(s@),
            collisions_model(out@) == base + key_findings(code, km.take(i as int), m),
        decreases keys.len() - i,
    {
        let k = &keys[i];
        assert(km.take(i + 1).drop_last() == km.take(i as int));
        assert(km.take(i + 1).last() == k@);
        let all = paths_matching(s, k);
        let files = if code == CollisionCode::DuplicateMetadataName {
            all
        } else {
            sort_dedup_paths(all)
        };
        assert(strs(files@) == files_of(code, m, k@));
        let ghost before = collisions_model(out@);
        if files.len() > 1 {
            let joined = join_strs(&files, ", ");
            let n = fmt_usize(files.len());
            let message = if code == CollisionCode::DuplicateMetadataName {
                let mut msg = own("metadata.name '");
                append_str(&mut msg, k.as_str());
                append_str(&mut msg, "' declared in ");
                append_str(&mut msg, n.as_str());
                append_str(&mut msg, " files: ");
                append_str(&mut msg, joined.as_str());
                msg
            } else {
                let mut msg = own("foreignId '");
                append_str(&mut msg, k.as_str());
                append_str(&mut msg, "' appears in ");
                append_str(&mut msg, n.as_str());
                append_str(&mut msg, " files: ");
                append_str(&mut msg, joined.as_str());
                append_str(
                    &mut msg,
                    " (Horizon scopes foreign-id per requisition — likely a copy-paste mistake)",
                );
                msg
            };
            let f = CollisionFinding { code, key: k.clone(), files, message };
            out.push(f);
            assert(collisions_model(out@) =~= before.push(f@));
        }
        i = i + 1;
    }
    assert(km.take(keys.len() as int) == km);
}

/// The collisions across the parsed files (path, document): a requisition
/// name declared in several files (hard: nothing is written), then a
/// foreign id used in several files (a warning), each class by key in
/// order; a name lists its files in input order, a foreign id its files
/// sorted as paths (component by component), each path once.
pub fn check_collisions(parsed: &Vec<(String, RequisitionLocal)>) -> (r: Vec<CollisionFinding>)
    ensures
        collisions_model(r@) == spec_collisions(parsed@),
{
    let ghost p = parsed@;
    let mut by_name: Vec<(String, String)> = Vec::new();
    let mut i: usize = 0;
    while i < parsed.len()
        invariant
            i <= parsed.len(),
            p == parsed@,
            crate::provisioning::model::pairs_model(by_name@) == name_pairs(p.take(i as int)),
        decreases parsed.len() - i,
    {
        let ghost before = crate::provisioning::model::pairs_model(by_name@);
        let a = parsed[i].0.clone();
        let b = parsed[i].1.metadata.name.clone();
        assert(b@ == p[i as int].1@.metadata.name);
        by_name.push((a, b));
        assert(crate::provisioning::model::pairs_model(by_name@) =~= before.push(
            (p[i as int].0@, p[i as int].1@.metadata.name),
        ));
        assert(name_pairs(p.take(i + 1)) =~= name_pairs(p.take(i as int)).push(
            (p[i as int].0@, p[i as int].1@.metadata.name),
        ));
        i = i + 1;
    }
    assert(p.take(parsed.len() as int) == p);
    let mut by_fid: Vec<(String, String)> = Vec::new();
    let mut i: usize = 0;
    while i < parsed.len()
        invariant
            i <= parsed.len(),
            p == parsed@,
            crate::provisioning::model::pairs_model(by_fid@) == fid_pairs(p.take(i as int)),
        decreases parsed.len() - i,
    {
        let path = &parsed[i].0;
        let nodes = &parsed[i].1.spec.nodes;
        let ghost base = crate::provisioning::model::pairs_model(by_fid@);
        let ghost nm = parsed@[i as int].1@.spec.nodes;
        let mut k: usize = 0;
        while k < nodes.len()
            invariant
                k <= nodes.len(),
                nodes@.map_values(|v: crate::provisioning::model::Node| v@) == nm,
                crate::provisioning::model::pairs_model(by_fid@) == base + node_pairs(
                    path@,
                    nm.take(k as int),
                ),
            decreases nodes.len() - k,
        {
            let ghost before = crate::provisioning::model::pairs_model(by_fid@);
            by_fid.push((path.clone(), nodes[k].foreign_id.clone()));
            assert(node_pairs(path@, nm.take(k + 1)) =~= node_pairs(path@, nm.take(k as int)).push(
                (path@, nm[k as int].foreign_id),
            ));
            assert(crate::provisioning::model::pairs_model(by_fid@) =~= before.push(
                (path@, nm[k as int].foreign_id),
            ));
            k = k + 1;
        }
        assert(nm.take(nodes.len() as int) == nm);
        assert(p.take(i + 1).drop_last() == p.take(i as int));
        i = i + 1;
    }
    assert(p.take(parsed.len() as int) == p);
    let mut r: Vec<CollisionFinding> = Vec::new();
    assert(collisions_model(r@) =~= Seq::<CollisionFindingModel>::empty());
    findings_for_keys(CollisionCode::DuplicateMetadataName, &by_name, &mut r);
    findings_for_keys(CollisionCode::DuplicateForeignId, &by_fid, &mut r);
    r
}

// ---------------------------------------------------------------------------
// Admitting the first phase
// ---------------------------------------------------------------------------

/// The documents that were read, with their paths, in order.
pub open spec fn read_oks(r: Seq<(String, Result<RequisitionLocal, String>)>) -> Seq<(String, RequisitionLocal)>
    decreases r.len(),
{
    if r.len() == 0 {
        Seq::empty()
    } else {
        match r.last().1 {
            Ok(l) => read_oks(r.drop_last()).push((r.last().0, l)),
            Err(_) => read_oks(r.drop_last()),
        }
    }
}

/// The files that could not be read: (path, error), in order.
pub open spec fn read_errs(r: Seq<(String, Result<RequisitionLocal, String>)>) -> Seq<(Seq<char>, Seq<char>)>
    decreases r.len(),
{
    if r.len() == 0 {
        Seq::empty()
    } else {
        match r.last().1 {
            Ok(_) => read_errs(r.drop_last()),
            Err(e) => read_errs(r.drop_last()).push((r.last().0@, e@)),
        }
    }
}

/// Whether a model of collisions holds a duplicate name.
pub open spec fn hard_model(m: Seq<CollisionFindingModel>) -> bool {
    exists|i: int| 0 <= i < m.len() && #[trigger] m[i].code == CollisionCode::DuplicateMetadataName
}

/// The results recording the unreadable files `e`: per file its path, no
/// requisition name, and the error.
pub open spec fn are_read_errors(r: Seq<MultiApplyFileResult>, e: Seq<(Seq<char>, Seq<char>)>) -> bool {
    &&& r.len() == e.len()
    &&& forall|i: int|
        0 <= i < r.len() ==> {
            &&& (#[trigger] r[i]).path@ == e[i].0
            &&& r[i].foreign_source is None
            &&& match r[i].outcome {
                Err(m) => m@ == e[i].1,
                Ok(_) => false,
            }
        }
}

/// The first phase before the per-file plans: aborted, or the documents
/// to plan with the collisions that ride along as warnings.
pub enum Phase1 {
    Aborted(MultiApplyPlan),
    Ready(Vec<(String, RequisitionLocal)>, Vec<CollisionFinding>),
}

/// The admission step of the first phase over the files in the order they are
/// planned, each read into a document or an error. Any unreadable file
/// aborts with the read errors and no collision check; otherwise a
/// duplicate requisition name aborts with the collisions; otherwise the
/// documents go on to be planned. An aborted plan never names both
/// causes.
pub fn phase1_admit(reads: Vec<(String, Result<RequisitionLocal, String>)>, input_count: usize) -> (r: Phase1)
    ensures
        read_errs(reads@).len() > 0 ==> match r {
            Phase1::Aborted(p) => {
                &&& p.entries.len() == 0
                &&& p.collision_findings.len() == 0
                &&& p.input_count == input_count
                &&& are_read_errors(p.parse_errors@, read_errs(reads@))
            },
            Phase1::Ready(..) => false,
        },
        read_errs(reads@).len() == 0 ==> match r {
            Phase1::Aborted(p) => {
                &&& hard_model(spec_collisions(read_oks(reads@)))
                &&& p.entries.len() == 0
                &&& p.parse_errors.len() == 0
                &&& p.input_count == input_count
                &&& collisions_model(p.collision_findings@) == spec_collisions(read_oks(reads@))
            },
            Phase1::Ready(parsed, c) => {
                &&& !hard_model(spec_collisions(read_oks(reads@)))
                &&& parsed@ == read_oks(reads@)
                &&& collisions_model(c@) == spec_collisions(read_oks(reads@))
                &&& !has_hard(c@)
            },
        },
        match r {
            Phase1::Aborted(p) => (p.parse_errors.len() == 0 || p.collision_findings.len() == 0)
                && (p.parse_errors.len() > 0 || has_hard(p.collision_findings@)),
            Phase1::Ready(..) => true,
        },
{
    let mut reads = reads;
    let ghost all = reads@;
    let ghost n = all.len();
    let mut rev: Vec<(String, Result<RequisitionLocal, String>)> = Vec::new();
    while reads.len() > 0
        invariant
            reads@ == all.take(reads.len() as int),
            reads.len() + rev.len() == n,
            n == all.len(),
            forall|j: int| 0 <= j < rev.len() ==> #[trigger] rev@[j] == all[n - 1 - j],
        decreases reads.len(),
    {
        let x = reads.pop().unwrap();
        assert(all.take(reads.len() as int) == all.take(reads.len() + 1).drop_last());
        rev.push(x);
    }
    let mut oks: Vec<(String, RequisitionLocal)> = Vec::new();
    let mut errs: Vec<MultiApplyFileResult> = Vec::new();
    let ghost mut k: int = 0;
    while rev.len() > 0
        invariant
            k + rev.len() == n,
            n == all.len(),
            0 <= k <= n,
            forall|j: int| 0 <= j < rev.len() ==> #[trigger] rev@[j] == all[n - 1 - j],
            oks@ == read_oks(all.take(k)),
            are_read_errors(errs@, read_errs(all.take(k))),
        decreases rev.len(),
    {
        let x = rev.pop().unwrap();
        assert(x == all[k]);
        assert(all.take(k + 1).drop_last() == all.take(k));
        assert(all.take(k + 1).last() == all[k]);
        let ghost e0 = read_errs(all.take(k));
        let (path, res) = x;
        match res {
            Ok(l) => {
                oks.push((path, l));
            },
            Err(e) => {
                errs.push(MultiApplyFileResult { path, foreign_source: None, outcome: Err(e) });
                assert(read_errs(all.take(k + 1)) == e0.push((all[k].0@, e@)));
            },
        }
        proof {
            k = k + 1;
        }
    }
    assert(all.take(n as int) == all);
    if errs.len() > 0 {
        return Phase1::Aborted(
            MultiApplyPlan {
                entries: Vec::new(),
                parse_errors: errs,
                collision_findings: Vec::new(),
                input_count,
            },
        );
    }
    let c = check_collisions(&oks);
    proof {
        let m = collisions_model(c@);
        if has_hard(c@) {
            let i = choose|i: int| 0 <= i < c@.len() && #[trigger] c@[i].code == CollisionCode::DuplicateMetadataName;
            assert(m[i].code == CollisionCode::DuplicateMetadataName);
        }
        if hard_model(m) {
            let i = choose|i: int| 0 <= i < m.len() && #[trigger] m[i].code == CollisionCode::DuplicateMetadataName;
            assert(c@[i].code == CollisionCode::DuplicateMetadataName);
        }
    }
    if any_hard(&c) {
        Phase1::Aborted(
            MultiApplyPlan { entries: Vec::new(), parse_errors: Vec::new(), collision_findings: c, input_count },
        )
    } else {
        Phase1::Ready(oks, c)
    }
}

// ---------------------------------------------------------------------------
// The barrier before writing
// ---------------------------------------------------------------------------

/// The keys of the hard collisions, in order.
pub open spec fn hard_keys(f: Seq<CollisionFinding>) -> Seq<Seq<char>>
    decreases f.len(),
{
    if f.len() == 0 {
        Seq::empty()
    } else if f.last().code == CollisionCode::DuplicateMetadataName {
        hard_keys(f.drop_last()).push(f.last().key@)
    } else {
        hard_keys(f.drop_last())
    }
}

/// The paths of the unreadable files.
pub open spec fn error_paths(e: Seq<MultiApplyFileResult>) -> Seq<Seq<char>> {
    Seq::new(e.len(), |i: int| e[i].path@)
}

/// The parts of the refusal to execute an aborted plan.
pub open spec fn abort_bits(p: MultiApplyPlan) -> Seq<Seq<char>> {
    let e = p.parse_errors@;
    let h = hard_keys(p.collision_findings@);
    let a = if e.len() > 0 {
        seq![dec(e.len()) + " parse error(s) ["@ + join(error_paths(e), ", "@) + "]"@]
    } else {
        Seq::empty()
    };
    if h.len() > 0 {
        a.push(dec(h.len()) + " hard collision(s) ["@ + join(h, ", "@) + "]"@)
    } else {
        a
    }
}

/// The refusal to execute an aborted plan: the unreadable files and the
/// duplicate names.
pub open spec fn abort_message(p: MultiApplyPlan) -> Seq<char> {
    "execute_multi called on aborted MultiApplyPlan (caller bug): "@ + join(abort_bits(p), "; "@)
}

/// The message refusing to execute an aborted plan.
pub fn aborted_plan_message(plan: &MultiApplyPlan) -> (s: String)
    ensures
        s@ == abort_message(*plan),
{
    let mut bits: Vec<String> = Vec::new();
    if plan.parse_errors.len() > 0 {
        let mut paths: Vec<String> = Vec::new();
        let mut i: usize = 0;
        while i < plan.parse_errors.len()
            invariant
                i <= plan.parse_errors.len(),
                paths.len() == i,
                forall|j: int| 0 <= j < i ==> #[trigger] paths@[j]@ == plan.parse_errors@[j].path@,
            decreases plan.parse_errors.len() - i,
        {
            paths.push(plan.parse_errors[i].path.clone());
            i = i + 1;
        }
        assert(strs(paths@) =~= error_paths(plan.parse_errors@));
        let mut b = fmt_usize(plan.parse_errors.len());
        append_str(&mut b, " parse error(s) [");
        append_str(&mut b, join_strs(&paths, ", ").as_str());
        append_str(&mut b, "]");
        bits.push(b);
    }
    let mut keys: Vec<String> = Vec::new();
    let mut i: usize = 0;
    let ghost f = plan.collision_findings@;
    while i < plan.collision_findings.len()
        invariant
            i <= plan.collision_findings.len(),
            f == plan.collision_findings@,
            strs(keys@) == hard_keys(f.take(i as int)),
        decreases plan.collision_findings.len() - i,
    {
        assert(f.take(i + 1).drop_last() == f.take(i as int));
        assert(f.take(i + 1).last() == f[i as int]);
        let ghost before = strs(keys@);
        if plan.collision_findings[i].is_hard_error() {
            keys.push(plan.collision_findings[i].key.clone());
            assert(strs(keys@) =~= before.push(f[i as int].key@));
        }
        i = i + 1;
    }
    assert(f.take(plan.collision_findings.len() as int) == f);
    let ghost before = strs(bits@);
    if keys.len() > 0 {
        let mut b = fmt_usize(keys.len());
        append_str(&mut b, " hard collision(s) [");
        append_str(&mut b, join_strs(&keys, ", ").as_str());
        append_str(&mut b, "]");
        bits.push(b);
        assert(strs(bits@) =~= before.push(b@));
    }
    assert(strs(bits@) =~= abort_bits(*plan));
    let mut s = own("execute_multi called on aborted MultiApplyPlan (caller bug): ");
    append_str(&mut s, join_strs(&bits, "; ").as_str());
    s
}

/// The end state of the second phase: stopped early when a failure
/// stopped it.
pub fn multi_state(stopped_early: bool) -> (s: MultiApplyState)
    ensures
        s == (if stopped_early {
            MultiApplyState::StoppedEarly
        } else {
            MultiApplyState::Completed
        }),
{
    if stopped_early {
        MultiApplyState::StoppedEarly
    } else {
        MultiApplyState::Completed
    }
}


/// What the second phase does next.
pub enum MultiAction {
    /// Answer entry `i` (unchanged) without any call.
    Unchanged(usize),
    /// Execute entry `i`'s plan.
    Execute(usize),
    /// End the phase in this state.
    Finish(MultiApplyState),
}

/// The plan states of the entries, in order.
pub open spec fn entry_states(e: Seq<MultiApplyPlanEntry>) -> Seq<PlanState> {
    e.map_values(|x: MultiApplyPlanEntry| x.plan.state)
}

/// The step after the results `done` (one per entry, in order): stopped
/// early when the last result failed and a failure stops the phase;
/// completed when every entry has its result; otherwise the next entry,
/// answered unchanged without a call when its plan is unchanged, else
/// executed.
pub open spec fn spec_multi_step(
    states: Seq<PlanState>,
    done: Seq<MultiApplyFileResult>,
    stop_on_error: bool,
) -> MultiAction {
    if stop_on_error && done.len() > 0 && done.last().outcome is Err {
        MultiAction::Finish(MultiApplyState::StoppedEarly)
    } else if done.len() >= states.len() {
        MultiAction::Finish(MultiApplyState::Completed)
    } else if states[done.len() as int] == PlanState::Unchanged {
        MultiAction::Unchanged(done.len() as usize)
    } else {
        MultiAction::Execute(done.len() as usize)
    }
}

/// The plan states of `plan`'s entries, in order.
pub fn plan_states(plan: &MultiApplyPlan) -> (r: Vec<PlanState>)
    ensures
        r@ == entry_states(plan.entries@),
{
    let mut r: Vec<PlanState> = Vec::new();
    let mut i: usize = 0;
    while i < plan.entries.len()
        invariant
            i <= plan.entries.len(),
            r@ == entry_states(plan.entries@.take(i as int)),
        decreases plan.entries.len() - i,
    {
        r.push(plan.entries[i].plan.state);
        assert(entry_states(plan.entries@.take(i + 1)) =~= entry_states(plan.entries@.take(i as int)).push(
            plan.entries@[i as int].plan.state,
        ));
        i = i + 1;
    }
    assert(plan.entries@.take(plan.entries.len() as int) == plan.entries@);
    r
}

/// The next step of the second phase over entries in the plan states
/// `states` (see [`plan_states`]) after the results `done`.
pub fn multi_step(states: &Vec<PlanState>, done: &Vec<MultiApplyFileResult>, stop_on_error: bool) -> (a:
    MultiAction)
    ensures
        a == spec_multi_step(states@, done@, stop_on_error),
{
    let n = done.len();
    if stop_on_error && n > 0 && done[n - 1].outcome.is_err() {
        return MultiAction::Finish(multi_state(true));
    }
    if n >= states.len() {
        return MultiAction::Finish(multi_state(false));
    }
    if states[n] == PlanState::Unchanged {
        MultiAction::Unchanged(n)
    } else {
        MultiAction::Execute(n)
    }
}

/// The result of an unchanged entry, answered without any call: its path,
/// its requisition name, and the plan reported unchanged.
pub fn unchanged_result(entry: MultiApplyPlanEntry) -> (r: MultiApplyFileResult)
    requires
        entry.plan.state == PlanState::Unchanged,
    ensures
        r.path@ == entry.path@,
        crate::text::ostr(r.foreign_source) == Some(entry.plan.local@.metadata.name),
        r.outcome matches Ok(o) && o.state == ApplyState::Unchanged && o.delta@ == entry.plan.delta@
            && o.rescan_existing == entry.plan.rescan_existing && o.foreign_source_action
            == entry.plan.foreign_source_action && o.pre_trigger_last_import_ms
            == entry.plan.pre_trigger_last_import_ms,
{
    let name = entry.plan.local.metadata.name.clone();
    let outcome = entry.plan.into_short_circuit(ApplyState::Unchanged);
    MultiApplyFileResult { path: entry.path, foreign_source: Some(name), outcome: Ok(outcome) }
}

/// The result of an executed entry: its path, the requisition name its
/// plan was made for, and the outcome or the error of the execution.
pub fn executed_result(path: String, plan_name: String, outcome: Result<ApplyOutcome, String>) -> (r:
    MultiApplyFileResult)
    ensures
        r.path@ == path@,
        crate::text::ostr(r.foreign_source) == Some(plan_name@),
        r.outcome == outcome,
{
    MultiApplyFileResult { path, foreign_source: Some(plan_name), outcome }
}

/// The report of the second phase: the results in entry order, the
/// collision warnings of the first phase, and the end state.
pub fn finish_multi(plan: MultiApplyPlan, results: Vec<MultiApplyFileResult>, state: MultiApplyState) -> (o:
    MultiApplyOutcome)
    ensures
        o.results@ == results@,
        o.collision_findings@ == plan.collision_findings@,
        o.state == state,
{
    MultiApplyOutcome { results, collision_findings: plan.collision_findings, state }
}


// ---------------------------------------------------------------------------
// When a collision aborts
// ---------------------------------------------------------------------------

proof fn lemma_key_findings_code(code: CollisionCode, keys: Seq<Seq<char>>, s: Seq<(Seq<char>, Seq<char>)>)
    ensures
        forall|i: int| 0 <= i < key_findings(code, keys, s).len() ==> (#[trigger] key_findings(code, keys, s)[i]).code == code,
    decreases keys.len(),
{
    if keys.len() > 0 {
        lemma_key_findings_code(code, keys.drop_last(), s);
    }
}

proof fn lemma_key_findings_nonempty(code: CollisionCode, keys: Seq<Seq<char>>, s: Seq<(Seq<char>, Seq<char>)>)
    ensures
        key_findings(code, keys, s).len() > 0 <==> exists|i: int| 0 <= i < keys.len() && #[trigger] files_of(code, s, keys[i]).len() > 1,
    decreases keys.len(),
{
    if keys.len() > 0 {
        let d = keys.drop_last();
        lemma_key_findings_nonempty(code, d, s);
        if exists|i: int| 0 <= i < d.len() && #[trigger] files_of(code, s, d[i]).len() > 1 {
            let i = choose|i: int| 0 <= i < d.len() && #[trigger] files_of(code, s, d[i]).len() > 1;
            assert(keys[i] == d[i]);
        }
        if exists|i: int| 0 <= i < keys.len() && #[trigger] files_of(code, s, keys[i]).len() > 1 {
            let i = choose|i: int| 0 <= i < keys.len() && #[trigger] files_of(code, s, keys[i]).len() > 1;
            if i < keys.len() - 1 {
                assert(d[i] == keys[i]);
            }
        }
    }
}

proof fn lemma_paths_for_len(s: Seq<(Seq<char>, Seq<char>)>, k: Seq<char>)
    ensures
        paths_for(s, k).len() > 0 <==> exists|i: int| 0 <= i < s.len() && (#[trigger] s[i]).1 == k,
        paths_for(s, k).len() > 1 <==> exists|i: int, j: int|
            0 <= i < j < s.len() && (#[trigger] s[i]).1 == k && (#[trigger] s[j]).1 == k,
    decreases s.len(),
{
    if s.len() > 0 {
        let t = s.drop_last();
        lemma_paths_for_len(t, k);
        assert forall|i: int| 0 <= i < t.len() implies t[i] == s[i] by {}
        if exists|i: int| 0 <= i < s.len() && (#[trigger] s[i]).1 == k {
            let i = choose|i: int| 0 <= i < s.len() && (#[trigger] s[i]).1 == k;
            if i < s.len() - 1 {
                assert(t[i].1 == k);
            }
        }
        if exists|i: int, j: int| 0 <= i < j < s.len() && (#[trigger] s[i]).1 == k && (#[trigger] s[j]).1 == k {
            let (i, j) = choose|i: int, j: int| 0 <= i < j < s.len() && (#[trigger] s[i]).1 == k && (#[trigger] s[j]).1 == k;
            assert(t[i].1 == k);
            if j < s.len() - 1 {
                assert(t[j].1 == k);
            }
        }
        if exists|i: int, j: int| 0 <= i < j < t.len() && (#[trigger] t[i]).1 == k && (#[trigger] t[j]).1 == k {
            let (i, j) = choose|i: int, j: int| 0 <= i < j < t.len() && (#[trigger] t[i]).1 == k && (#[trigger] t[j]).1 == k;
            assert(s[i].1 == k && s[j].1 == k);
        }
        if s.last().1 == k && exists|i: int| 0 <= i < t.len() && (#[trigger] t[i]).1 == k {
            let i = choose|i: int| 0 <= i < t.len() && (#[trigger] t[i]).1 == k;
            assert(s[i].1 == k && s[s.len() - 1].1 == k);
        }
    }
}



/// A multi-file apply aborts on collisions exactly when two of the files
/// declare the same requisition name; a foreign id shared across files is
/// never a reason to abort.
pub proof fn lemma_hard_iff_shared_name(p: Seq<(String, RequisitionLocal)>)
    ensures
        hard_model(spec_collisions(p)) <==> exists|i: int, j: int|
            0 <= i < j < p.len() && (#[trigger] p[i]).1@.metadata.name == (#[trigger] p[j]).1@.metadata.name,
{
    let np = name_pairs(p);
    let fp = fid_pairs(p);
    let keys = pair_keys(np);
    let a = key_findings(CollisionCode::DuplicateMetadataName, keys, np);
    let b = key_findings(CollisionCode::DuplicateForeignId, pair_keys(fp), fp);
    let c = spec_collisions(p);
    assert(c == a + b);
    lemma_key_findings_code(CollisionCode::DuplicateMetadataName, keys, np);
    lemma_key_findings_code(CollisionCode::DuplicateForeignId, pair_keys(fp), fp);
    lemma_key_findings_nonempty(CollisionCode::DuplicateMetadataName, keys, np);
    assert(hard_model(c) <==> a.len() > 0) by {
        if a.len() > 0 {
            assert(c[0] == a[0]);
            assert(c[0].code == CollisionCode::DuplicateMetadataName);
        }
        if hard_model(c) {
            let i = choose|i: int| 0 <= i < c.len() && #[trigger] c[i].code == CollisionCode::DuplicateMetadataName;
            if i >= a.len() {
                assert(c[i] == b[i - a.len()]);
            }
        }
    }
    let shared = exists|i: int, j: int|
        0 <= i < j < p.len() && (#[trigger] p[i]).1@.metadata.name == (#[trigger] p[j]).1@.metadata.name;
    if shared {
        let (i, j) = choose|i: int, j: int|
            0 <= i < j < p.len() && (#[trigger] p[i]).1@.metadata.name == (#[trigger] p[j]).1@.metadata.name;
        let k = p[i].1@.metadata.name;
        assert(np[i].1 == k && np[j].1 == k);
        lemma_paths_for_len(np, k);
        let names = np.map_values(|e: (Seq<char>, Seq<char>)| e.1);
        assert(names[i] == k);
        crate::sort::lemma_sorted_set_members(names, k);
        let m = choose|m: int| 0 <= m < keys.len() && keys[m] == k;
        assert(files_of(CollisionCode::DuplicateMetadataName, np, keys[m]).len() > 1);
    }
    if a.len() > 0 {
        let m = choose|m: int| 0 <= m < keys.len() && #[trigger] files_of(CollisionCode::DuplicateMetadataName, np, keys[m]).len() > 1;
        lemma_paths_for_len(np, keys[m]);
        let (i, j) = choose|i: int, j: int|
            0 <= i < j < np.len() && (#[trigger] np[i]).1 == keys[m] && (#[trigger] np[j]).1 == keys[m];
        assert(p[i].1@.metadata.name == p[j].1@.metadata.name);
    }
}

} // verus!
