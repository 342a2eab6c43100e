//! Artifact sets: a marker naming the members a run or plan published
//! together, and the judgement of whether a set on disk is committed.

use vstd::prelude::*;
use crate::digest::{blake3_hex, blake3_hex_of};
use crate::domain::{NativePath, PathText};
use crate::duplicates::string_views;
use crate::text::{compare_strings, has_infix, has_infix_spec, owned};

verus! {

pub const ARTIFACT_SET_SCHEMA: &'static str = "optiflow.artifact-set.v1";
pub const SCAN_MARKER_FILE_NAME: &'static str = "artifact-set.json";

#[derive(Debug, Clone, Copy, PartialEq, Eq, Structural)]
pub enum ArtifactSetKind {
    Scan,
    Plan,
}

#[derive(Debug, Clone, Copy, PartialEq, Eq, Structural)]
pub enum ArtifactSetCommitState {
    Committed,
}

#[derive(Debug, Clone, PartialEq, Eq)]
pub struct ArtifactDigest {
    pub algorithm: String,
    pub value: String,
}

#[derive(Debug, Clone, PartialEq, Eq)]
pub struct ArtifactSetMember {
    pub kind: String,
    pub schema: String,
    pub path: NativePath,
    pub size_bytes: u64,
    pub digest: ArtifactDigest,
}

#[derive(Debug, Clone, PartialEq, Eq)]
pub struct ArtifactSetManifest {
    pub schema: String,
    pub set_id: String,
    pub set_kind: ArtifactSetKind,
    pub run_id: String,
    pub created_at: String,
    pub state: ArtifactSetCommitState,
    pub source_set_id: Option<String>,
    pub members: Vec<ArtifactSetMember>,
}

#[derive(Debug, Clone, Copy, PartialEq, Eq, Structural)]
pub enum ArtifactSetStatus {
    Committed,
    Incomplete,
    Incompatible,
}

/// What inspecting an artifact set found.
#[derive(Debug, Clone)]
pub struct ArtifactSetInspection {
    pub status: ArtifactSetStatus,
    pub manifest: Option<ArtifactSetManifest>,
    pub detail: String,
}

/// An inspection of the given status, with no manifest and this detail.
pub open spec fn inspected_as(i: ArtifactSetInspection, status: ArtifactSetStatus, detail: Seq<char>) -> bool {
    i.status == status && i.manifest is None && i.detail@ == detail
}

impl ArtifactSetInspection {
    /// A committed set whose members all match the marker.
    pub fn committed(manifest: ArtifactSetManifest) -> (i: Self)
        ensures
            i.status == ArtifactSetStatus::Committed,
            i.manifest == Some(manifest),
            i.detail@ == "artifact set is committed and all members match the marker"@,
    {
        ArtifactSetInspection {
            status: ArtifactSetStatus::Committed,
            manifest: Some(manifest),
            detail: owned("artifact set is committed and all members match the marker"),
        }
    }

    /// A set that is not, or not yet, complete.
    pub fn incomplete(detail: String) -> (i: Self)
        ensures
            inspected_as(i, ArtifactSetStatus::Incomplete, detail@),
    {
        ArtifactSetInspection { status: ArtifactSetStatus::Incomplete, manifest: None, detail }
    }

    /// A set this reader cannot accept.
    pub fn incompatible(detail: String) -> (i: Self)
        ensures
            inspected_as(i, ArtifactSetStatus::Incompatible, detail@),
    {
        ArtifactSetInspection { status: ArtifactSetStatus::Incompatible, manifest: None, detail }
    }
}

/// The member kinds a set of each kind must hold, each once.
pub open spec fn expected_kinds(kind: ArtifactSetKind) -> Set<Seq<char>> {
    match kind {
        ArtifactSetKind::Scan => set!["effective_policy"@, "report"@, "run"@],
        ArtifactSetKind::Plan => set!["plan"@],
    }
}

/// The members' kinds.
pub open spec fn member_kinds(members: Seq<ArtifactSetMember>) -> Seq<Seq<char>> {
    members.map_values(|m: ArtifactSetMember| m.kind@)
}

/// No two members share a kind, and the kinds are exactly those expected.
pub open spec fn kinds_fit(members: Seq<ArtifactSetMember>, kind: ArtifactSetKind) -> bool {
    &&& forall|i: int, j: int| 0 <= i < j < members.len() ==> (#[trigger] members[i]).kind@ != (#[trigger] members[j]).kind@
    &&& member_kinds(members).to_set() == expected_kinds(kind)
}

/// Two members name the same path.
pub open spec fn paths_repeat(members: Seq<ArtifactSetMember>) -> bool {
    exists|i: int, j: int| 0 <= i < j < members.len() && (#[trigger] members[i]).path@ == (#[trigger] members[j]).path@
}

/// What the marker's own content makes of a set: `None` when the members
/// still have to be checked against the files.
pub open spec fn marker_verdict(m: ArtifactSetManifest, kind: ArtifactSetKind) -> Option<(ArtifactSetStatus, Seq<char>)> {
    if m.set_kind != kind {
        Some((ArtifactSetStatus::Incompatible, "artifact-set marker kind does not match its reader"@))
    } else if !kinds_fit(m.members@, kind) {
        Some((ArtifactSetStatus::Incompatible, "artifact set has missing, duplicate, or unexpected member kinds"@))
    } else if paths_repeat(m.members@) {
        Some((ArtifactSetStatus::Incompatible, "artifact-set marker contains duplicate member paths"@))
    } else {
        None
    }
}

fn kind_expected(kind: ArtifactSetKind, k: &str) -> (r: bool)
    ensures
        r == expected_kinds(kind).contains(k@),
{
    match kind {
        ArtifactSetKind::Scan => compare_strings(k, "effective_policy") == 0 || compare_strings(k, "report") == 0
            || compare_strings(k, "run") == 0,
        ArtifactSetKind::Plan => compare_strings(k, "plan") == 0,
    }
}

fn kinds_fit_of(members: &Vec<ArtifactSetMember>, kind: ArtifactSetKind) -> (r: bool)
    ensures
        r == kinds_fit(members@, kind),
{
    let n = members.len();
    let mut i: usize = 0;
    while i < n
        invariant
            n == members@.len(),
            i <= n,
            forall|a: int, b: int| 0 <= a < b < i ==> (#[trigger] members@[a]).kind@ != (#[trigger] members@[b]).kind@,
            forall|a: int| 0 <= a < i ==> expected_kinds(kind).contains(#[trigger] members@[a].kind@),
        decreases n - i,
    {
        if !kind_expected(kind, members[i].kind.as_str()) {
            proof {
                assert(member_kinds(members@)[i as int] == members@[i as int].kind@);
                assert(member_kinds(members@).to_set().contains(members@[i as int].kind@));
            }
            return false;
        }
        let mut j: usize = 0;
        while j < i
            invariant
                j <= i < n,
                n == members@.len(),
                forall|a: int| 0 <= a < j ==> (#[trigger] members@[a]).kind@ != members@[i as int].kind@,
            decreases i - j,
        {
            if compare_strings(members[j].kind.as_str(), members[i].kind.as_str()) == 0 {
                return false;
            }
            j = j + 1;
        }
        i = i + 1;
    }
    // Every member kind is expected and none repeats; the expected kinds
    // are all present exactly when there are as many members as kinds.
    let count_ok = match kind {
        ArtifactSetKind::Scan => n == 3,
        ArtifactSetKind::Plan => n == 1,
    };
    proof {
        let ks = member_kinds(members@);
        let ex = expected_kinds(kind);
        assert(forall|a: int| 0 <= a < n ==> ks[a] == members@[a].kind@);
        assert(ks.to_set().subset_of(ex));
        assert(ks.no_duplicates()) by {
            assert forall|a: int, b: int| 0 <= a < ks.len() && 0 <= b < ks.len() && a != b implies ks[a] != ks[b] by {
                if a < b {
                    assert(members@[a].kind@ != members@[b].kind@);
                } else {
                    assert(members@[b].kind@ != members@[a].kind@);
                }
            }
        }
        ks.unique_seq_to_set();
        match kind {
            ArtifactSetKind::Scan => {
                assert(ex =~= set!["effective_policy"@, "report"@, "run"@]);
                lemma_three_distinct();
                if count_ok {
                    vstd::set_lib::lemma_subset_equality(ks.to_set(), ex);
                } else {
                    if ks.to_set() == ex {
                        assert(ks.to_set().len() == 3);
                    }
                }
            },
            ArtifactSetKind::Plan => {
                assert(ex =~= set!["plan"@]);
                if count_ok {
                    assert(ks.to_set().len() == 1);
                    vstd::set_lib::lemma_subset_equality(ks.to_set(), ex);
                } else {
                    if ks.to_set() == ex {
                        assert(ks.to_set().len() == 1);
                    }
                }
            },
        }
    }
    count_ok
}

proof fn lemma_three_distinct()
    ensures
        set!["effective_policy"@, "report"@, "run"@].len() == 3,
{
    broadcast use vstd::set_lib::group_set_properties;

    reveal_strlit("effective_policy");
    reveal_strlit("report");
    reveal_strlit("run");
    assert("effective_policy"@ != "report"@) by {
        assert("effective_policy"@.len() != "report"@.len());
    }
    assert("effective_policy"@ != "run"@) by {
        assert("effective_policy"@.len() != "run"@.len());
    }
    assert("report"@ != "run"@) by {
        assert("report"@.len() != "run"@.len());
    }
}

fn paths_repeat_of(members: &Vec<ArtifactSetMember>) -> (r: bool)
    ensures
        r == paths_repeat(members@),
{
    let n = members.len();
    let mut j: usize = 0;
    while j < n
        invariant
            n == members@.len(),
            j <= n,
            forall|a: int, b: int| 0 <= a < b < j ==> (#[trigger] members@[a]).path@ != (#[trigger] members@[b]).path@,
        decreases n - j,
    {
        let mut i: usize = 0;
        while i < j
            invariant
                i <= j < n,
                n == members@.len(),
                forall|a: int| 0 <= a < i ==> (#[trigger] members@[a]).path@ != members@[j as int].path@,
            decreases j - i,
        {
            if members[i].path.same(&members[j].path) {
                return true;
            }
            i = i + 1;
        }
        j = j + 1;
    }
    false
}

/// Judges a decoded marker by its own content, for a reader of sets of
/// kind `kind`: `None` when the members must still be checked.
pub fn judge_marker(manifest: &ArtifactSetManifest, kind: ArtifactSetKind) -> (r: Option<ArtifactSetInspection>)
    ensures
        match marker_verdict(*manifest, kind) {
            None => r is None,
            Some((status, detail)) => r matches Some(i) && inspected_as(i, status, detail),
        },
{
    if manifest.set_kind != kind {
        return Some(ArtifactSetInspection::incompatible(owned("artifact-set marker kind does not match its reader")));
    }
    if !kinds_fit_of(&manifest.members, kind) {
        return Some(ArtifactSetInspection::incompatible(owned("artifact set has missing, duplicate, or unexpected member kinds")));
    }
    if paths_repeat_of(&manifest.members) {
        return Some(ArtifactSetInspection::incompatible(owned("artifact-set marker contains duplicate member paths")));
    }
    None
}

/// Checks a member's bytes against the size and digest its marker records.
pub fn check_member(member: &ArtifactSetMember, bytes: &[u8]) -> (r: Result<(), String>)
    ensures
        bytes@.len() != member.size_bytes ==> (r matches Err(m) && m@ == "artifact-set member size does not match marker"@),
        bytes@.len() == member.size_bytes && blake3_hex(bytes@) != member.digest.value@
            ==> (r matches Err(m) && m@ == "artifact-set member digest does not match marker"@),
        bytes@.len() == member.size_bytes && blake3_hex(bytes@) == member.digest.value@ ==> r is Ok,
{
    if bytes.len() as u128 != member.size_bytes as u128 {
        return Err(owned("artifact-set member size does not match marker"));
    }
    let digest = blake3_hex_of(bytes);
    if compare_strings(digest.as_str(), member.digest.value.as_str()) != 0 {
        return Err(owned("artifact-set member digest does not match marker"));
    }
    Ok(())
}

/// The verdict on a plan set whose marker inspection came out as `found`,
/// given whether a pending commit marker is present: an incomplete set with
/// a pending marker needs recovery.
pub fn plan_verdict(found: ArtifactSetInspection, pending_marker_exists: bool) -> (r: ArtifactSetInspection)
    ensures
        (found.status == ArtifactSetStatus::Incomplete && pending_marker_exists) ==> inspected_as(r, ArtifactSetStatus::Incomplete,
            "plan member was published but its pending commit marker requires recovery"@),
        !(found.status == ArtifactSetStatus::Incomplete && pending_marker_exists) ==> r == found,
{
    if found.status == ArtifactSetStatus::Incomplete && pending_marker_exists {
        return ArtifactSetInspection::incomplete(owned("plan member was published but its pending commit marker requires recovery"));
    }
    found
}


/// The key under which a member document declares its schema: a policy
/// names it `schema`, the other documents `schema_version`.
pub fn schema_key(kind: &str) -> (key: &'static str)
    ensures
        key@ == if kind@ == "effective_policy"@ { "schema"@ } else { "schema_version"@ },
{
    if compare_strings(kind, "effective_policy") == 0 { "schema" } else { "schema_version" }
}

/// The JSON pointer at which a member document of a set of kind `set_kind`
/// names the set it belongs to or comes from, for the members that do.
pub open spec fn spec_binding_pointer(set_kind: ArtifactSetKind, kind: Seq<char>) -> Option<Seq<char>> {
    match set_kind {
        ArtifactSetKind::Scan => if kind == "run"@ {
            Some("/artifact_set_id"@)
        } else if kind == "report"@ {
            Some("/run/artifact_set_id"@)
        } else {
            None
        },
        ArtifactSetKind::Plan => if kind == "plan"@ { Some("/source_artifact_set_id"@) } else { None },
    }
}

pub fn binding_pointer(set_kind: ArtifactSetKind, kind: &str) -> (r: Option<&'static str>)
    ensures
        match (r, spec_binding_pointer(set_kind, kind@)) {
            (Some(a), Some(b)) => a@ == b,
            (None, None) => true,
            _ => false,
        },
{
    match set_kind {
        ArtifactSetKind::Scan => {
            if compare_strings(kind, "run") == 0 {
                Some("/artifact_set_id")
            } else if compare_strings(kind, "report") == 0 {
                Some("/run/artifact_set_id")
            } else {
                None
            }
        },
        ArtifactSetKind::Plan => if compare_strings(kind, "plan") == 0 { Some("/source_artifact_set_id") } else { None },
    }
}

pub open spec fn same_text_option(a: Option<String>, b: Option<String>) -> bool {
    match (a, b) {
        (Some(x), Some(y)) => x@ == y@,
        (None, None) => true,
        _ => false,
    }
}

/// Checks what a member document declares against its marker: its schema,
/// and for the documents that name a set, that they name this set (a run or
/// a report) or this set's source (a plan).
pub fn check_binding(manifest: &ArtifactSetManifest, member: &ArtifactSetMember, declared_schema: &Option<String>, declared_set: &Option<String>) -> (r: Result<(), String>)
    ensures
        !(declared_schema matches Some(s) && s@ == member.schema@) ==> (r matches Err(m) && m@ == "artifact-set member schema does not match its marker"@),
        (declared_schema matches Some(s) && s@ == member.schema@) ==> match spec_binding_pointer(manifest.set_kind, member.kind@) {
            None => r is Ok,
            Some(_) => match manifest.set_kind {
                ArtifactSetKind::Scan => if declared_set matches Some(d) && d@ == manifest.set_id@ {
                    r is Ok
                } else if member.kind@ == "run"@ {
                    r matches Err(m) && m@ == "run artifact does not bind to its artifact-set marker"@
                } else {
                    r matches Err(m) && m@ == "report artifact does not bind to its artifact-set marker"@
                },
                ArtifactSetKind::Plan => if same_text_option(*declared_set, manifest.source_set_id) {
                    r is Ok
                } else {
                    r matches Err(m) && m@ == "plan source set does not match its artifact-set marker"@
                },
            },
        },
{
    let schema_ok = match declared_schema {
        Some(s) => compare_strings(s.as_str(), member.schema.as_str()) == 0,
        None => false,
    };
    if !schema_ok {
        return Err(owned("artifact-set member schema does not match its marker"));
    }
    if binding_pointer(manifest.set_kind, member.kind.as_str()).is_none() {
        return Ok(());
    }
    match manifest.set_kind {
        ArtifactSetKind::Scan => {
            let bound = match declared_set {
                Some(d) => compare_strings(d.as_str(), manifest.set_id.as_str()) == 0,
                None => false,
            };
            if bound {
                Ok(())
            } else if compare_strings(member.kind.as_str(), "run") == 0 {
                Err(owned("run artifact does not bind to its artifact-set marker"))
            } else {
                Err(owned("report artifact does not bind to its artifact-set marker"))
            }
        },
        ArtifactSetKind::Plan => {
            let same = match (declared_set, &manifest.source_set_id) {
                (Some(a), Some(b)) => compare_strings(a.as_str(), b.as_str()) == 0,
                (None, None) => true,
                _ => false,
            };
            if same { Ok(()) } else { Err(owned("plan source set does not match its artifact-set marker")) }
        },
    }
}

/// The infix that marks a staging entry of an artifact set.
pub const STAGING_INFIX: &'static str = ".artifact-set-staging-";

/// The hidden staging name of set `set_id` for the entry `file_name`.
pub open spec fn spec_staging_name(file_name: Seq<char>, set_id: Seq<char>) -> Seq<char> {
    seq!['.'] + file_name + STAGING_INFIX@ + set_id
}

/// The staging name of set `set_id` for the entry `file_name`.
pub fn staging_name(file_name: &str, set_id: &str) -> (r: String)
    ensures
        r@ == spec_staging_name(file_name@, set_id@),
{
    let mut t: Vec<char> = Vec::new();
    t.push('.');
    crate::json::push_str(&mut t, file_name);
    crate::json::push_str(&mut t, STAGING_INFIX);
    crate::json::push_str(&mut t, set_id);
    crate::text::string_of(&t)
}

/// Whether a directory entry is a staging entry of some artifact set.
pub fn is_staging_name(name: &str) -> (r: bool)
    ensures
        r == has_infix_spec(name@, STAGING_INFIX@),
{
    has_infix(name, STAGING_INFIX)
}

/// Whether `name` is a staging file of the plan published as `plan_name`.
pub open spec fn spec_plan_staging_entry(name: Seq<char>, plan_name: Seq<char>) -> bool {
    let prefix = seq!['.'] + plan_name + STAGING_INFIX@;
    name.len() >= prefix.len() && name.take(prefix.len() as int) == prefix
}

/// Whether `name` is a staging file of the plan published as `plan_name`.
pub fn is_plan_staging_entry(name: &str, plan_name: &str) -> (r: bool)
    ensures
        r == spec_plan_staging_entry(name@, plan_name@),
{
    let mut prefix: Vec<char> = Vec::new();
    prefix.push('.');
    crate::json::push_str(&mut prefix, plan_name);
    crate::json::push_str(&mut prefix, STAGING_INFIX);
    let ghost p = prefix@;
    assert(p =~= seq!['.'] + plan_name@ + STAGING_INFIX@);
    let chars = crate::text::chars_of(name);
    if chars.len() < prefix.len() {
        return false;
    }
    let mut i: usize = 0;
    while i < prefix.len()
        invariant
            chars@ == name@,
            prefix@ == p,
            p == seq!['.'] + plan_name@ + STAGING_INFIX@,
            p.len() <= chars@.len(),
            i <= p.len(),
            forall|k: int| 0 <= k < i ==> chars@[k] == p[k],
        decreases p.len() - i,
    {
        if chars[i] != prefix[i] {
            assert(name@.take(p.len() as int)[i as int] != p[i as int]);
            return false;
        }
        i = i + 1;
    }
    assert(name@.take(p.len() as int) =~= p);
    true
}

/// What recovering a plan set does next, from what is on disk once its
/// stale staging files are removed.
#[derive(Debug)]
pub enum PlanRecovery {
    /// Report this inspection.
    Report(ArtifactSetInspection),
    /// Inspect the plan set as it stands.
    Inspect,
    /// Remove the orphaned pending marker, then report this inspection.
    DiscardPending(ArtifactSetInspection),
    /// Inspect the pending marker and decide on it.
    JudgePending,
}

/// Decides how a plan set is recovered: a missing directory has nothing to
/// recover; a published marker, or no pending marker, leaves the set to be
/// inspected; a pending marker without its plan is an orphan to discard;
/// otherwise the pending marker is judged.
pub fn plan_recovery(parent_exists: bool, marker_exists: bool, pending_exists: bool, output_exists: bool) -> (r: PlanRecovery)
    ensures
        !parent_exists ==> (r matches PlanRecovery::Report(i)
            && inspected_as(i, ArtifactSetStatus::Incomplete, "plan artifact-set directory does not exist"@)),
        parent_exists && (marker_exists || !pending_exists) ==> r is Inspect,
        parent_exists && !marker_exists && pending_exists && !output_exists ==> (r matches PlanRecovery::DiscardPending(i)
            && inspected_as(i, ArtifactSetStatus::Incomplete, "orphaned plan staging state was discarded"@)),
        parent_exists && !marker_exists && pending_exists && output_exists ==> r is JudgePending,
{
    if !parent_exists {
        return PlanRecovery::Report(ArtifactSetInspection::incomplete(owned("plan artifact-set directory does not exist")));
    }
    if marker_exists || !pending_exists {
        return PlanRecovery::Inspect;
    }
    if !output_exists {
        return PlanRecovery::DiscardPending(ArtifactSetInspection::incomplete(owned("orphaned plan staging state was discarded")));
    }
    PlanRecovery::JudgePending
}

/// Whether a pending plan marker is promoted to the published marker: only
/// when its inspection found the set committed.
pub fn promotes_pending(pending: &ArtifactSetInspection) -> (r: bool)
    ensures
        r == (pending.status == ArtifactSetStatus::Committed),
{
    pending.status == ArtifactSetStatus::Committed
}

/// Whether a plan may be committed over what recovery found: never over a
/// committed set.
pub fn refuses_plan_commit(recovered: &ArtifactSetInspection, output_exists: bool, pending_exists: bool) -> (r: bool)
    ensures
        r == (recovered.status == ArtifactSetStatus::Committed || output_exists || pending_exists),
{
    recovered.status == ArtifactSetStatus::Committed || output_exists || pending_exists
}

} // verus!
