//! Review-only plans for exact-duplicate groups.
//!
//! A plan never mutates files: for each group it names a deterministic
//! review default to keep (the first path in path order), the other paths as
//! candidates, and the preconditions a future apply step must re-check.

use vstd::prelude::*;
use crate::domain::{
    key_text, path_less, DuplicateGroup, ExactDuplicateEvidence, FileObservation, FilePrecondition,
    NativePath, PathText, Plan, PlanAction, PlanSafety, PlanSummary, ScanReport, PLAN_SCHEMA_VERSION,
};
use crate::duplicates::path_views;
use crate::reporting::hyphenated_uuid;
use crate::filesystem::PhysicalReclaimability;
use crate::sorting::{path_items_of, path_keyed, sort_by_path, spec_sort_by_path, lemma_sort_by_path_keeps};
use crate::text::{compare_strings, owned};

verus! {

pub const PLAN_MODE: &'static str = "exact_duplicates_review";
pub const PLAN_SAFETY_DESCRIPTION: &'static str = "This v0.1 plan is evidence for review only. optiflow v0.1 has no apply or deletion command.";
pub const APPLY_BEHAVIOR: &'static str = "re-stat, recalculate the complete BLAKE3 hash, and perform byte-for-byte confirmation before any mutation";
pub const ACTION_REASON: &'static str = "members have identical byte length and complete BLAKE3 content hashes; the lexicographically first path is only a deterministic review default, not a quality judgment";

/// Lower-case hyphenated UUID text of version 7 and the RFC 4122 variant.
pub open spec fn uuid_v7_text(s: Seq<char>) -> bool {
    &&& hyphenated_uuid(s)
    &&& forall|i: int| 0 <= i < 36 ==> !('A' <= #[trigger] s[i] && s[i] <= 'F')
    &&& s[14] == '7'
    &&& (s[19] == '8' || s[19] == '9' || s[19] == 'a' || s[19] == 'b')
}

/// A fresh time-ordered (version 7) UUID in hyphenated form.
///
/// Wraps `uuid::Uuid::now_v7` and its `Display`. The value depends on the
/// clock and on chance; what is claimed is its form: lower-case hyphenated
/// hex with version 7 and the RFC 4122 variant.
#[verifier::external_body]
fn new_uuid_v7() -> (id: String)
    ensures
        uuid_v7_text(id@),
{
    uuid::Uuid::now_v7().to_string()
}

/// The current time in RFC 3339 form.
///
/// Wraps `chrono::Utc::now` and `DateTime::to_rfc3339`; the value depends on
/// the clock, so nothing is claimed of it.
#[verifier::external_body]
fn now_rfc3339() -> (time: String)
{
    chrono::Utc::now().to_rfc3339()
}

/// The index of the last observation whose path has key `key`.
pub open spec fn find_observation(obs: Seq<FileObservation>, key: Seq<char>, n: int) -> Option<int>
    decreases n,
{
    if n <= 0 {
        None
    } else if key_text(obs[n - 1].path@) == key {
        Some(n - 1)
    } else {
        find_observation(obs, key, n - 1)
    }
}

/// The observation recorded for path `p`, if any: the last one with the
/// same key.
pub open spec fn observation_for(obs: Seq<FileObservation>, p: PathText) -> Option<int> {
    find_observation(obs, key_text(p), obs.len() as int)
}

/// The members of a group ordered by path, as member indices.
pub open spec fn sorted_members(g: DuplicateGroup) -> Seq<usize> {
    path_items_of(spec_sort_by_path(Seq::new(g.members@.len(), |i: int| (g.members@[i].path@, i as usize))))
}

/// Every path of member `j`: its path, then its aliases.
pub open spec fn member_paths(g: DuplicateGroup, j: int) -> Seq<PathText> {
    seq![g.members@[j].path@] + path_views(g.members@[j].alias_paths@)
}

/// The paths of the members `s`, in order.
pub open spec fn paths_of_members(g: DuplicateGroup, s: Seq<usize>) -> Seq<PathText>
    decreases s.len(),
{
    if s.len() == 0 {
        seq![]
    } else {
        paths_of_members(g, s.drop_last()) + member_paths(g, s.last() as int)
    }
}

/// The precondition recorded for one observation of a group.
pub open spec fn precondition_matches(c: FilePrecondition, o: FileObservation, g: DuplicateGroup) -> bool {
    &&& c.path@ == o.path@
    &&& c.expected_size_bytes == o.size_bytes
    &&& c.expected_modified_unix_ns == o.modified_unix_ns
    &&& c.expected_complete_content_hash@ == g.evidence.complete_content_hash@
    &&& c.required_apply_behavior@ == APPLY_BEHAVIOR@
}

/// The observations recorded for the paths `ps`, in order, skipping paths
/// that have none.
pub open spec fn observed(obs: Seq<FileObservation>, ps: Seq<PathText>) -> Seq<int>
    decreases ps.len(),
{
    if ps.len() == 0 {
        seq![]
    } else {
        let rest = observed(obs, ps.drop_last());
        match observation_for(obs, ps.last()) {
            Some(i) => rest.push(i),
            None => rest,
        }
    }
}

/// The observations behind every path of the group, in member order.
pub open spec fn group_observations(obs: Seq<FileObservation>, g: DuplicateGroup) -> Seq<int> {
    observed(obs, paths_of_members(g, Seq::new(g.members@.len(), |i: int| i as usize)))
}

/// The action planned for a group with at least one member.
pub open spec fn action_matches(obs: Seq<FileObservation>, a: PlanAction, g: DuplicateGroup, id: Seq<char>) -> bool {
    let s = sorted_members(g);
    let keep = s[0] as int;
    let pre = group_observations(obs, g);
    &&& a.action_id@ == id
    &&& a.classification@ == "exact"@
    &&& a.proposed_operation@ == "review_and_select"@
    &&& a.keep_path@ == g.members@[keep].path@
    &&& path_views(a.keep_alias_paths@) == path_views(g.members@[keep].alias_paths@)
    &&& path_views(a.candidate_paths@) == paths_of_members(g, s.skip(1))
    &&& a.potential_reclaimable_bytes == g.reclaimable_bytes
    &&& a.physical_reclaimability.status == g.physical_reclaimability.status
    &&& a.physical_reclaimability.reason_codes@ == g.physical_reclaimability.reason_codes@
    &&& a.reason@ == ACTION_REASON@
    &&& a.evidence.algorithm@ == g.evidence.algorithm@
    &&& a.evidence.complete_content_hash@ == g.evidence.complete_content_hash@
    &&& a.evidence.identical_size_bytes == g.evidence.identical_size_bytes
    &&& a.evidence.member_count == g.evidence.member_count
    &&& a.evidence.observed_path_count == g.evidence.observed_path_count
    &&& a.preconditions@.len() == pre.len()
    &&& forall|i: int| 0 <= i < pre.len() ==> precondition_matches(#[trigger] a.preconditions@[i], obs[pre[i]], g)
}

proof fn lemma_find_observation(obs: Seq<FileObservation>, key: Seq<char>, n: int)
    requires
        n <= obs.len(),
    ensures
        find_observation(obs, key, n) matches Some(k) ==> 0 <= k < n && key_text(obs[k].path@) == key,
    decreases n,
{
    if n > 0 {
        lemma_find_observation(obs, key, n - 1);
    }
}

proof fn lemma_observed_are_recorded(obs: Seq<FileObservation>, ps: Seq<PathText>)
    ensures
        forall|i: int| 0 <= i < observed(obs, ps).len() ==> {
            let k = #[trigger] observed(obs, ps)[i];
            &&& 0 <= k < obs.len()
            &&& observation_for(obs, obs[k].path@) == Some(k)
        },
    decreases ps.len(),
{
    if ps.len() > 0 {
        lemma_observed_are_recorded(obs, ps.drop_last());
        let p = ps.last();
        lemma_find_observation(obs, key_text(p), obs.len() as int);
        match observation_for(obs, p) {
            Some(k) => {
                assert(key_text(obs[k].path@) == key_text(p));
                assert(observation_for(obs, obs[k].path@) == observation_for(obs, p));
            },
            None => {},
        }
    }
}

/// Each precondition of a planned action records the path of an observed
/// file together with the size and modification time that the scan
/// recorded for that path, and the complete content hash that the action's
/// evidence names: what an apply step must find unchanged.
pub proof fn lemma_preconditions_record_observed_state(
    obs: Seq<FileObservation>,
    a: PlanAction,
    g: DuplicateGroup,
    id: Seq<char>,
)
    requires
        action_matches(obs, a, g, id),
    ensures
        forall|i: int| 0 <= i < a.preconditions@.len() ==> (match observation_for(obs, (#[trigger] a.preconditions@[i]).path@) {
            Some(k) => {
                &&& 0 <= k < obs.len()
                &&& a.preconditions@[i].expected_size_bytes == obs[k].size_bytes
                &&& a.preconditions@[i].expected_modified_unix_ns == obs[k].modified_unix_ns
                &&& a.preconditions@[i].path@ == obs[k].path@
                &&& a.preconditions@[i].expected_complete_content_hash@ == g.evidence.complete_content_hash@
                &&& a.preconditions@[i].expected_complete_content_hash@ == a.evidence.complete_content_hash@
            },
            None => false,
        }),
{
    let pre = group_observations(obs, g);
    lemma_observed_are_recorded(obs, paths_of_members(g, Seq::new(g.members@.len(), |i: int| i as usize)));
    assert forall|i: int| 0 <= i < a.preconditions@.len() implies (match observation_for(obs, (#[trigger] a.preconditions@[i]).path@) {
        Some(k) => {
            &&& 0 <= k < obs.len()
            &&& a.preconditions@[i].expected_size_bytes == obs[k].size_bytes
            &&& a.preconditions@[i].expected_modified_unix_ns == obs[k].modified_unix_ns
            &&& a.preconditions@[i].path@ == obs[k].path@
            &&& a.preconditions@[i].expected_complete_content_hash@ == g.evidence.complete_content_hash@
            &&& a.preconditions@[i].expected_complete_content_hash@ == a.evidence.complete_content_hash@
        },
        None => false,
    }) by {
        assert(precondition_matches(a.preconditions@[i], obs[pre[i]], g));
        let k = pre[i];
        assert(observation_for(obs, obs[k].path@) == Some(k));
    }
}

/// The indices of the groups that get an action: those with at least one
/// member.
pub open spec fn planned_indices(gs: Seq<DuplicateGroup>) -> Seq<int>
    decreases gs.len(),
{
    if gs.len() == 0 {
        seq![]
    } else {
        let rest = planned_indices(gs.drop_last());
        if gs.last().members@.len() > 0 {
            rest.push(gs.len() - 1)
        } else {
            rest
        }
    }
}

proof fn lemma_planned_indices_range(gs: Seq<DuplicateGroup>)
    ensures
        forall|i: int| 0 <= i < planned_indices(gs).len() ==> 0 <= #[trigger] planned_indices(gs)[i] < gs.len(),
    decreases gs.len(),
{
    if gs.len() > 0 {
        lemma_planned_indices_range(gs.drop_last());
        let rest = planned_indices(gs.drop_last());
        assert forall|i: int| 0 <= i < planned_indices(gs).len() implies 0 <= #[trigger] planned_indices(gs)[i] < gs.len() by {
            if i < rest.len() {
                assert(planned_indices(gs)[i] == rest[i]);
            }
        }
    }
}

/// `a + b` in 64-bit wrapping arithmetic.
pub open spec fn wrap_add(a: int, b: int) -> int {
    if a + b > u64::MAX { a + b - 0x1_0000_0000_0000_0000 } else { a + b }
}

/// The sum of the candidate counts of actions, wrapping at 64 bits.
pub open spec fn candidate_total(actions: Seq<PlanAction>) -> int
    decreases actions.len(),
{
    if actions.len() == 0 {
        0
    } else {
        wrap_add(candidate_total(actions.drop_last()), actions.last().candidate_paths@.len() as int)
    }
}

/// The sum of the reclaimable bytes of the groups at `idx`, wrapping at 64
/// bits.
pub open spec fn reclaimable_total(gs: Seq<DuplicateGroup>, idx: Seq<int>) -> int
    decreases idx.len(),
{
    if idx.len() == 0 {
        0
    } else {
        wrap_add(reclaimable_total(gs, idx.drop_last()), gs[idx.last()].reclaimable_bytes as int)
    }
}

fn find_observation_exec(obs: &Vec<FileObservation>, p: &NativePath) -> (r: Option<usize>)
    ensures
        r matches Some(i) ==> observation_for(obs@, p@) == Some(i as int) && i < obs@.len(),
        r is None ==> observation_for(obs@, p@) is None,
{
    let key = p.sqlite_key();
    let mut n = obs.len();
    while n > 0
        invariant
            n <= obs@.len(),
            key@ == key_text(p@),
            find_observation(obs@, key_text(p@), obs@.len() as int) == find_observation(obs@, key_text(p@), n as int),
        decreases n,
    {
        let k = obs[n - 1].path.sqlite_key();
        if compare_strings(k.as_str(), key.as_str()) == 0 {
            return Some(n - 1);
        }
        n = n - 1;
    }
    None
}

fn precondition_for(o: &FileObservation, g: &DuplicateGroup) -> (c: FilePrecondition)
    ensures
        precondition_matches(c, *o, *g),
{
    FilePrecondition {
        path: o.path.copy(),
        expected_size_bytes: o.size_bytes,
        expected_modified_unix_ns: o.modified_unix_ns,
        expected_complete_content_hash: g.evidence.complete_content_hash.clone(),
        required_apply_behavior: owned(APPLY_BEHAVIOR),
    }
}

/// Appends the preconditions of the observations behind `p`.
fn push_precondition(out: &mut Vec<FilePrecondition>, obs: &Vec<FileObservation>, g: &DuplicateGroup, p: &NativePath, Ghost(done): Ghost<Seq<PathText>>)
    requires
        old(out)@.len() == observed(obs@, done).len(),
        forall|i: int| 0 <= i < old(out)@.len() ==> precondition_matches(#[trigger] old(out)@[i], obs@[observed(obs@, done)[i]], *g),
    ensures
        final(out)@.len() == observed(obs@, done.push(p@)).len(),
        forall|i: int| 0 <= i < final(out)@.len() ==> precondition_matches(#[trigger] final(out)@[i], obs@[observed(obs@, done.push(p@))[i]], *g),
{
    assert(done.push(p@).drop_last() =~= done);
    assert(done.push(p@).last() == p@);
    let ghost before = out@;
    match find_observation_exec(obs, p) {
        Some(i) => {
            out.push(precondition_for(&obs[i], g));
            proof {
                let now = observed(obs@, done.push(p@));
                assert(now == observed(obs@, done).push(i as int));
                assert forall|k: int| 0 <= k < out@.len() implies precondition_matches(#[trigger] out@[k], obs@[now[k]], *g) by {
                    if k < before.len() {
                        assert(out@[k] == before[k]);
                        assert(now[k] == observed(obs@, done)[k]);
                    }
                }
            }
        },
        None => {},
    }
}

/// The preconditions for every observed path of a group, in member order.
fn group_preconditions(obs: &Vec<FileObservation>, g: &DuplicateGroup) -> (out: Vec<FilePrecondition>)
    ensures
        out@.len() == group_observations(obs@, *g).len(),
        forall|i: int| 0 <= i < out@.len() ==> precondition_matches(#[trigger] out@[i], obs@[group_observations(obs@, *g)[i]], *g),
{
    let ghost all = Seq::new(g.members@.len(), |i: int| i as usize);
    let mut out: Vec<FilePrecondition> = Vec::new();
    let mut j: usize = 0;
    assert(all.take(0) =~= Seq::<usize>::empty());
    while j < g.members.len()
        invariant
            all == Seq::new(g.members@.len(), |i: int| i as usize),
            j <= g.members@.len(),
            out@.len() == observed(obs@, paths_of_members(*g, all.take(j as int))).len(),
            forall|i: int| 0 <= i < out@.len() ==> precondition_matches(#[trigger] out@[i], obs@[observed(obs@, paths_of_members(*g, all.take(j as int)))[i]], *g),
        decreases g.members@.len() - j,
    {
        let m = &g.members[j];
        let ghost before = paths_of_members(*g, all.take(j as int));
        push_precondition(&mut out, obs, g, &m.path, Ghost(before));
        let ghost mut done = before.push(m.path@);
        let mut a: usize = 0;
        while a < m.alias_paths.len()
            invariant
                m == &g.members@[j as int],
                a <= m.alias_paths@.len(),
                done == before + member_paths(*g, j as int).take(a + 1),
                out@.len() == observed(obs@, done).len(),
                forall|i: int| 0 <= i < out@.len() ==> precondition_matches(#[trigger] out@[i], obs@[observed(obs@, done)[i]], *g),
            decreases m.alias_paths@.len() - a,
        {
            push_precondition(&mut out, obs, g, &m.alias_paths[a], Ghost(done));
            proof {
                assert(member_paths(*g, j as int).take(a + 2) =~= member_paths(*g, j as int).take(a + 1).push(m.alias_paths@[a as int]@));
                done = done.push(m.alias_paths@[a as int]@);
            }
            a = a + 1;
        }
        proof {
            assert(member_paths(*g, j as int).take(a + 1) =~= member_paths(*g, j as int));
            assert(all.take(j + 1).drop_last() =~= all.take(j as int));
            assert(all.take(j + 1).last() == j);
        }
        j = j + 1;
    }
    assert(all.take(g.members@.len() as int) =~= all);
    out
}

fn copy_paths(ps: &Vec<NativePath>) -> (out: Vec<NativePath>)
    ensures
        path_views(out@) == path_views(ps@),
{
    let mut out: Vec<NativePath> = Vec::new();
    let mut i: usize = 0;
    while i < ps.len()
        invariant
            i <= ps@.len(),
            path_views(out@) == path_views(ps@.take(i as int)),
        decreases ps@.len() - i,
    {
        let ghost before = out@;
        let c = ps[i].copy();
        out.push(c);
        assert(ps@.take(i + 1) =~= ps@.take(i as int).push(ps@[i as int]));
        assert(path_views(out@) =~= path_views(before).push(c@));
        assert(path_views(ps@.take(i + 1)) =~= path_views(ps@.take(i as int)).push(ps@[i as int]@));
        i = i + 1;
    }
    assert(ps@.take(ps@.len() as int) =~= ps@);
    out
}

/// Appends a member's path and aliases.
fn push_member_paths(out: &mut Vec<NativePath>, g: &DuplicateGroup, j: usize)
    requires
        j < g.members@.len(),
    ensures
        path_views(final(out)@) == path_views(old(out)@) + member_paths(*g, j as int),
{
    let m = &g.members[j];
    let ghost start = out@;
    let first = m.path.copy();
    out.push(first);
    assert(path_views(out@) =~= path_views(start).push(first@));
    assert(member_paths(*g, j as int).take(1) =~= seq![m.path@]);
    let mut a: usize = 0;
    while a < m.alias_paths.len()
        invariant
            m == &g.members@[j as int],
            a <= m.alias_paths@.len(),
            path_views(out@) == path_views(start) + member_paths(*g, j as int).take(a + 1),
            start == old(out)@,
        decreases m.alias_paths@.len() - a,
    {
        let ghost before = out@;
        let c = m.alias_paths[a].copy();
        out.push(c);
        assert(path_views(out@) =~= path_views(before).push(c@));
        assert(member_paths(*g, j as int).take(a + 2) =~= member_paths(*g, j as int).take(a + 1).push(m.alias_paths@[a as int]@));
        a = a + 1;
    }
    assert(member_paths(*g, j as int).take(a + 1) =~= member_paths(*g, j as int));
}

proof fn lemma_sorted_members_range(g: DuplicateGroup)
    ensures
        sorted_members(g).len() == g.members@.len(),
        forall|q: int| 0 <= q < sorted_members(g).len() ==> (#[trigger] sorted_members(g)[q]) < g.members@.len(),
{
    let b = Seq::new(g.members@.len(), |i: int| (g.members@[i].path@, i as usize));
    lemma_sort_by_path_keeps(b);
    let s = spec_sort_by_path(b);
    assert forall|q: int| 0 <= q < sorted_members(g).len() implies (#[trigger] sorted_members(g)[q]) < g.members@.len() by {
        assert(s.contains(s[q]));
        assert(b.contains(s[q]));
        let w = choose|w: int| 0 <= w < b.len() && b[w] == s[q];
    }
}

/// The action of one group with at least one member.
fn plan_action(obs: &Vec<FileObservation>, g: &DuplicateGroup, action_id: String) -> (a: PlanAction)
    requires
        g.members@.len() > 0,
    ensures
        action_matches(obs@, a, *g, action_id@),
        a.candidate_paths@.len() == paths_of_members(*g, sorted_members(*g).skip(1)).len(),
{
    let n = g.members.len();
    let mut indices: Vec<usize> = Vec::new();
    let mut keys: Vec<NativePath> = Vec::new();
    let mut i: usize = 0;
    while i < n
        invariant
            n == g.members@.len(),
            i <= n,
            indices@.len() == i,
            keys@.len() == i,
            forall|q: int| 0 <= q < i ==> (#[trigger] indices@[q]) == q && keys@[q]@ == g.members@[q].path@,
        decreases n - i,
    {
        indices.push(i);
        keys.push(g.members[i].path.copy());
        i = i + 1;
    }
    assert(path_keyed(keys@, indices@) =~= Seq::new(g.members@.len(), |i: int| (g.members@[i].path@, i as usize)));
    let sorted = sort_by_path(indices, keys);
    proof {
        lemma_sorted_members_range(*g);
    }
    let keep = sorted[0];
    let mut candidates: Vec<NativePath> = Vec::new();
    let mut k: usize = 1;
    assert(sorted@.skip(1).take(0) =~= Seq::<usize>::empty());
    while k < sorted.len()
        invariant
            1 <= k <= sorted@.len(),
            sorted@ == sorted_members(*g),
            forall|q: int| 0 <= q < sorted@.len() ==> (#[trigger] sorted@[q]) < g.members@.len(),
            path_views(candidates@) == paths_of_members(*g, sorted@.skip(1).take(k - 1)),
        decreases sorted@.len() - k,
    {
        push_member_paths(&mut candidates, g, sorted[k]);
        assert(sorted@.skip(1).take(k as int).drop_last() =~= sorted@.skip(1).take(k - 1));
        assert(sorted@.skip(1).take(k as int).last() == sorted@[k as int]);
        k = k + 1;
    }
    assert(sorted@.skip(1).take(sorted@.len() - 1) =~= sorted@.skip(1));
    let ghost cand = path_views(candidates@);
    let pre = group_preconditions(obs, g);
    PlanAction {
        action_id,
        classification: owned("exact"),
        proposed_operation: owned("review_and_select"),
        keep_path: g.members[keep].path.copy(),
        keep_alias_paths: copy_paths(&g.members[keep].alias_paths),
        candidate_paths: candidates,
        potential_reclaimable_bytes: g.reclaimable_bytes,
        physical_reclaimability: g.physical_reclaimability.copy(),
        reason: owned(ACTION_REASON),
        evidence: g.evidence.copy(),
        preconditions: pre,
    }
}

/// The review plan of a report's duplicate groups, with the given plan id,
/// creation time and action ids (the action of group `i` gets id `i`; a
/// group without members gets no action).
pub fn exact_duplicate_plan_with(
    report: &ScanReport,
    plan_id: String,
    created_at: String,
    action_ids: Vec<String>,
) -> (plan: Plan)
    requires
        action_ids@.len() == report.duplicate_groups@.len(),
    ensures
        plan.schema_version@ == PLAN_SCHEMA_VERSION@,
        plan.plan_id@ == plan_id@,
        plan.source_run_id@ == report.run.run_id@,
        plan.source_artifact_set_id.is_some() == report.run.artifact_set_id.is_some(),
        plan.source_artifact_set_id matches Some(s) ==> s@ == report.run.artifact_set_id.unwrap()@,
        plan.created_at@ == created_at@,
        plan.mode@ == PLAN_MODE@,
        !plan.safety.mutates_files,
        plan.safety.requires_explicit_apply,
        plan.safety.description@ == PLAN_SAFETY_DESCRIPTION@,
        plan.actions@.len() == planned_indices(report.duplicate_groups@).len(),
        forall|i: int| 0 <= i < plan.actions@.len() ==> action_matches(
            report.observations@,
            #[trigger] plan.actions@[i],
            report.duplicate_groups@[planned_indices(report.duplicate_groups@)[i]],
            action_ids@[planned_indices(report.duplicate_groups@)[i]]@,
        ),
        plan.summary.action_count == plan.actions@.len(),
        plan.summary.candidate_file_count == candidate_total(plan.actions@),
        plan.summary.potential_reclaimable_bytes == reclaimable_total(
            report.duplicate_groups@,
            planned_indices(report.duplicate_groups@),
        ),
{
    let gs = &report.duplicate_groups;
    let mut actions: Vec<PlanAction> = Vec::new();
    let mut candidate_count: u64 = 0;
    let mut reclaimable: u64 = 0;
    let mut q: usize = 0;
    assert(gs@.take(0) =~= Seq::<DuplicateGroup>::empty());
    while q < gs.len()
        invariant
            action_ids@.len() == gs@.len(),
            q <= gs@.len(),
            planned_indices(gs@.take(q as int)).len() == actions@.len(),
            forall|i: int| 0 <= i < planned_indices(gs@.take(q as int)).len() ==>
                0 <= #[trigger] planned_indices(gs@.take(q as int))[i] < q,
            forall|i: int| 0 <= i < actions@.len() ==> action_matches(
                report.observations@,
                #[trigger] actions@[i],
                gs@[planned_indices(gs@.take(q as int))[i]],
                action_ids@[planned_indices(gs@.take(q as int))[i]]@,
            ),
            candidate_count == candidate_total(actions@),
            reclaimable == reclaimable_total(gs@, planned_indices(gs@.take(q as int))),
        decreases gs@.len() - q,
    {
        let ghost before = planned_indices(gs@.take(q as int));
        assert(gs@.take(q + 1).drop_last() =~= gs@.take(q as int));
        assert(gs@.take(q + 1).last() == gs@[q as int]);
        if gs[q].members.len() > 0 {
            let a = plan_action(&report.observations, &gs[q], action_ids[q].clone());
            candidate_count = candidate_count.wrapping_add(a.candidate_paths.len() as u64);
            reclaimable = reclaimable.wrapping_add(gs[q].reclaimable_bytes);
            let ghost old_actions = actions@;
            actions.push(a);
            proof {
                let now = planned_indices(gs@.take(q + 1));
                assert(now == before.push(q as int));
                assert(actions@.drop_last() =~= old_actions);
                assert(now.drop_last() =~= before);
                assert forall|i: int| 0 <= i < actions@.len() implies action_matches(
                    report.observations@,
                    #[trigger] actions@[i],
                    gs@[now[i]],
                    action_ids@[now[i]]@,
                ) by {
                    if i < old_actions.len() {
                        assert(actions@[i] == old_actions[i]);
                        assert(now[i] == before[i]);
                    }
                }
            }
        }
        q = q + 1;
    }
    assert(gs@.take(gs@.len() as int) =~= gs@);
    Plan {
        schema_version: owned(PLAN_SCHEMA_VERSION),
        plan_id,
        source_run_id: report.run.run_id.clone(),
        source_artifact_set_id: match &report.run.artifact_set_id {
            Some(s) => Some(s.clone()),
            None => None,
        },
        created_at,
        mode: owned(PLAN_MODE),
        safety: PlanSafety {
            mutates_files: false,
            requires_explicit_apply: true,
            description: owned(PLAN_SAFETY_DESCRIPTION),
        },
        summary: PlanSummary {
            action_count: actions.len() as u64,
            candidate_file_count: candidate_count,
            potential_reclaimable_bytes: reclaimable,
        },
        actions,
    }
}

/// The review plan of a report's duplicate groups, with a fresh plan id,
/// the current time, and a fresh id per action.
pub fn exact_duplicate_plan(report: &ScanReport) -> (plan: Plan)
    ensures
        plan.schema_version@ == PLAN_SCHEMA_VERSION@,
        plan.source_run_id@ == report.run.run_id@,
        plan.mode@ == PLAN_MODE@,
        !plan.safety.mutates_files,
        plan.safety.requires_explicit_apply,
        plan.actions@.len() == planned_indices(report.duplicate_groups@).len(),
        forall|i: int| 0 <= i < plan.actions@.len() ==> action_matches(
            report.observations@,
            #[trigger] plan.actions@[i],
            report.duplicate_groups@[planned_indices(report.duplicate_groups@)[i]],
            plan.actions@[i].action_id@,
        ),
        uuid_v7_text(plan.plan_id@),
        forall|i: int| 0 <= i < plan.actions@.len() ==> uuid_v7_text(#[trigger] plan.actions@[i].action_id@),
        plan.summary.action_count == plan.actions@.len(),
        plan.summary.candidate_file_count == candidate_total(plan.actions@),
        plan.summary.potential_reclaimable_bytes == reclaimable_total(
            report.duplicate_groups@,
            planned_indices(report.duplicate_groups@),
        ),
{
    let mut ids: Vec<String> = Vec::new();
    let mut i: usize = 0;
    while i < report.duplicate_groups.len()
        invariant
            i <= report.duplicate_groups@.len(),
            ids@.len() == i,
            forall|k: int| 0 <= k < i ==> uuid_v7_text(#[trigger] ids@[k]@),
        decreases report.duplicate_groups@.len() - i,
    {
        ids.push(new_uuid_v7());
        i = i + 1;
    }
    let plan_id = new_uuid_v7();
    let created_at = now_rfc3339();
    let ghost id_views = ids@;
    let plan = exact_duplicate_plan_with(report, plan_id, created_at, ids);
    proof {
        lemma_planned_indices_range(report.duplicate_groups@);
        assert forall|i: int| 0 <= i < plan.actions@.len() implies uuid_v7_text(#[trigger] plan.actions@[i].action_id@) by {
            let g = planned_indices(report.duplicate_groups@)[i];
            assert(uuid_v7_text(id_views[g]@));
        }
    }
    plan
}

} // verus!
