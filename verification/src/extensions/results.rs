//! The checks on what an extension returns for an invocation.

use vstd::prelude::*;
use crate::extensions::availability::same_digest;
use crate::extensions::catalog::{capability_index, optional_text, LoadedExtension};
use crate::extensions::exchange::{
    all_held, holds_reference, holds_text, holds_text_of, same_digest_of, same_reference,
    same_reference_of,
};
use crate::extensions::manifest_rules::{digest_of_matches, note_of};
use crate::text::{compare_strings, owned};
use crate::extensions::manifest_rules::{digest_matches, note};
use crate::extensions::model::{
    operation_identity_json, CapabilityDeclaration, CapabilityKind, DeclaredCoverage,
    EvidenceContribution, ExtensionCoverageStatus, ExtensionIdentity, ExtensionInvocationV1,
    ExtensionOutcome, ExtensionResultV1, ProgressEvent, ValidationContribution,
    EXTENSION_RESULT_SCHEMA,
};

verus! {

/// Two extension identities are the same.
pub open spec fn same_identity(a: ExtensionIdentity, b: ExtensionIdentity) -> bool {
    a.extension_id@ == b.extension_id@ && a.version@ == b.version@ && same_digest(a.manifest_digest, b.manifest_digest)
}

/// The evidence a result contributes directly, followed by the evidence of
/// its validations.
pub open spec fn all_evidence(r: ExtensionResultV1) -> Seq<EvidenceContribution> {
    r.evidence@ + r.validations@.map_values(|v: ValidationContribution| v.evidence)
}

/// The identifiers of every contribution, in the order they are checked.
pub open spec fn contribution_ids(r: ExtensionResultV1) -> Seq<Seq<char>> {
    all_evidence(r).map_values(|e: EvidenceContribution| e.evidence_id@)
        + r.reports@.map_values(|x: crate::extensions::model::ReportContribution| x.report_id@)
        + r.policy_contributions@.map_values(|x: crate::extensions::model::PolicyContribution| x.policy_id@)
        + r.plan_operations@.map_values(|x: crate::extensions::model::PlanOperationContribution| x.operation_id@)
}

/// The `p`-th identifier appeared before.
pub open spec fn repeats(ids: Seq<Seq<char>>, p: int) -> bool {
    exists|q: int| 0 <= q < p && ids[q] == #[trigger] ids[p] && q < ids.len()
}

/// The first problem with an evidence contribution, from the `i`-th on.
pub open spec fn evidence_problem_from(r: ExtensionResultV1, c: CapabilityDeclaration, i: int) -> Option<Seq<char>>
    decreases all_evidence(r).len() - i,
{
    let ev = all_evidence(r);
    if i < 0 || i >= ev.len() {
        None
    } else {
        let id = ev[i].evidence_id@;
        if repeats(contribution_ids(r), i) {
            Some(note("evidence contribution "@, id, " is duplicated"@))
        } else if !holds_text(c.produces@, ev[i].schema@) {
            Some(note("evidence contribution "@, id, " uses an undeclared output schema"@))
        } else if !digest_matches(ev[i].fingerprint, ev[i].value@) {
            Some(note("evidence contribution "@, id, " has a mismatched fingerprint"@))
        } else {
            evidence_problem_from(r, c, i + 1)
        }
    }
}

/// The first problem with a report, from the `i`-th on.
pub open spec fn report_problem_from(r: ExtensionResultV1, c: CapabilityDeclaration, i: int) -> Option<Seq<char>>
    decreases r.reports@.len() - i,
{
    let xs = r.reports@;
    if i < 0 || i >= xs.len() {
        None
    } else {
        let id = xs[i].report_id@;
        if repeats(contribution_ids(r), all_evidence(r).len() + i) {
            Some(note("report contribution "@, id, " is duplicated"@))
        } else if !holds_text(c.produces@, xs[i].schema@) {
            Some(note("report contribution "@, id, " uses an undeclared output schema"@))
        } else if !digest_matches(xs[i].fingerprint, xs[i].value@) {
            Some(note("report contribution "@, id, " has a mismatched fingerprint"@))
        } else {
            report_problem_from(r, c, i + 1)
        }
    }
}

/// The first problem with a policy contribution, from the `i`-th on.
pub open spec fn policy_problem_from(r: ExtensionResultV1, c: CapabilityDeclaration, i: int) -> Option<Seq<char>>
    decreases r.policy_contributions@.len() - i,
{
    let xs = r.policy_contributions@;
    if i < 0 || i >= xs.len() {
        None
    } else {
        let id = xs[i].policy_id@;
        if repeats(contribution_ids(r), all_evidence(r).len() + r.reports@.len() + i) {
            Some(note("policy contribution "@, id, " is duplicated"@))
        } else if !holds_text(c.produces@, xs[i].schema@) {
            Some(note("policy contribution "@, id, " uses an undeclared output schema"@))
        } else if !digest_matches(xs[i].fingerprint, xs[i].value@) {
            Some(note("policy contribution "@, id, " has a mismatched fingerprint"@))
        } else {
            policy_problem_from(r, c, i + 1)
        }
    }
}

/// What is wrong with the `i`-th plan operation, if anything.
pub open spec fn operation_rule(r: ExtensionResultV1, inv: ExtensionInvocationV1, c: CapabilityDeclaration, i: int) -> Option<Seq<char>> {
    let op = r.plan_operations@[i];
    let id = op.operation_id@;
    if repeats(contribution_ids(r), all_evidence(r).len() + r.reports@.len() + r.policy_contributions@.len() + i) {
        Some(note("plan operation "@, id, " is duplicated"@))
    } else if exists|k: int| 0 <= k < op.input_artifacts@.len()
        && !holds_reference(inv.input_artifacts@, #[trigger] op.input_artifacts@[k]) {
        Some(note("plan operation "@, id, " references evidence outside its invocation"@))
    } else if c.content_changes && (op.input_artifacts@.len() == 0 || op.expected_output_schemas@.len() == 0) {
        Some(note("content-changing plan operation "@, id, " must bind inputs and outputs"@))
    } else if !op.preconditions.is_complete_spec() || op.mutates_source || !op.requires_core_execution {
        Some(note("plan operation "@, id, " bypasses a required core safety boundary"@))
    } else if exists|k: int| 0 <= k < op.expected_output_schemas@.len()
        && !holds_text(c.produces@, (#[trigger] op.expected_output_schemas@[k])@) {
        Some(note("plan operation "@, id, " uses an undeclared output schema"@))
    } else if !digest_matches(op.fingerprint, vstd::utf8::encode_utf8(operation_identity_json(op))) {
        Some(note("plan operation "@, id, " has a mismatched fingerprint"@))
    } else {
        None
    }
}

/// The first problem with a plan operation, from the `i`-th on.
pub open spec fn operation_problem_from(r: ExtensionResultV1, inv: ExtensionInvocationV1, c: CapabilityDeclaration, i: int) -> Option<Seq<char>>
    decreases r.plan_operations@.len() - i,
{
    if i < 0 || i >= r.plan_operations@.len() {
        None
    } else {
        match operation_rule(r, inv, c, i) {
            Some(p) => Some(p),
            None => operation_problem_from(r, inv, c, i + 1),
        }
    }
}

/// The provenance names exactly the invocation, capability and lock it
/// came from.
pub open spec fn provenance_bound(ext: LoadedExtension, inv: ExtensionInvocationV1, r: ExtensionResultV1, c: CapabilityDeclaration) -> bool {
    let p = r.provenance;
    &&& same_identity(p.extension, inv.extension)
    &&& p.capability_id@ == c.capability_id@
    &&& p.capability_version@ == c.capability_version@
    &&& same_digest(p.configuration_fingerprint, inv.configuration.fingerprint)
    &&& p.authorization_lock_id@ == ext.lock.lock_id@
    &&& same_digest(p.authorization_lock_digest, ext.lock_digest)
    &&& same_digest(p.grants_digest, ext.lock.grants_digest)
    &&& p.execution_mode@ == ext.lock.selected_execution_mode@
}

/// The provenance lists the content digests of the invocation's inputs, in
/// order.
pub open spec fn inputs_fingerprinted(inv: ExtensionInvocationV1, r: ExtensionResultV1) -> bool {
    let fps = r.provenance.input_fingerprints@;
    &&& fps.len() == inv.input_artifacts@.len()
    &&& forall|i: int| 0 <= i < fps.len() ==> same_digest(#[trigger] fps[i], inv.input_artifacts@[i].content_digest)
}

/// The result carries exactly the invocation's checkpoints.
pub open spec fn checkpoints_kept(inv: ExtensionInvocationV1, r: ExtensionResultV1) -> bool {
    let a = r.checkpoint_references@;
    let b = inv.checkpoint_references@;
    &&& a.len() == b.len()
    &&& forall|i: int| 0 <= i < a.len() ==> same_reference(#[trigger] a[i], b[i])
}

/// The identifiers of the invocation's input artifacts.
pub open spec fn input_ids(inv: ExtensionInvocationV1) -> Set<Seq<char>> {
    inv.input_artifacts@.map_values(|a: crate::extensions::model::ImmutableArtifactReference| a.artifact_id@).to_set()
}

/// The identifiers of the artifacts the result consumed.
pub open spec fn consumed_ids(r: ExtensionResultV1) -> Set<Seq<char>> {
    r.consumed_artifacts@.map_values(|s: String| s@).to_set()
}

/// The outcome reports no usable product.
pub open spec fn unsuccessful(o: ExtensionOutcome) -> bool {
    o == ExtensionOutcome::Unavailable || o == ExtensionOutcome::Cancelled || o == ExtensionOutcome::Failed
}

/// The result contributes something or reports an effect.
pub open spec fn publishes(r: ExtensionResultV1) -> bool {
    ||| r.evidence@.len() > 0
    ||| r.policy_contributions@.len() > 0
    ||| r.plan_operations@.len() > 0
    ||| r.validations@.len() > 0
    ||| r.reports@.len() > 0
    ||| !r.observed_effects.empty_set()
}

/// Two consecutive progress events go backwards or disagree on the total.
pub open spec fn progress_breaks(p: Seq<ProgressEvent>) -> bool {
    exists|i: int| 0 <= i < p.len() - 1 && steps_back(#[trigger] p[i], p[i + 1])
}

/// Event `b`, following `a`, goes backwards or disagrees on the total.
pub open spec fn steps_back(a: ProgressEvent, b: ProgressEvent) -> bool {
    ||| a.sequence >= b.sequence
    ||| a.completed > b.completed
    ||| (a.total is Some && b.total is Some && a.total != b.total)
}

/// A progress event counts past its own total.
pub open spec fn progress_overflows(p: Seq<ProgressEvent>) -> bool {
    exists|i: int| 0 <= i < p.len() && (#[trigger] p[i]).total is Some && p[i].completed > p[i].total->Some_0
}

/// What is wrong with the result from its coverage on, given the capability
/// it answers for.
pub open spec fn content_rule(ext: LoadedExtension, inv: ExtensionInvocationV1, r: ExtensionResultV1, c: CapabilityDeclaration) -> Option<Seq<char>> {
    let status = r.coverage.status;
    if status == ExtensionCoverageStatus::Complete && r.coverage.limitations@.len() > 0 {
        Some("complete extension coverage cannot include limitations"@)
    } else if status == ExtensionCoverageStatus::Partial && r.coverage.limitations@.len() == 0 {
        Some("partial extension coverage must explain its limitations"@)
    } else if c.coverage.mode == DeclaredCoverage::PartialByDesign && status == ExtensionCoverageStatus::Complete {
        Some("a partial-by-design capability cannot claim complete coverage"@)
    } else if status == ExtensionCoverageStatus::Complete && consumed_ids(r) != input_ids(inv) {
        Some("complete coverage must consume every invoked artifact"@)
    } else if unsuccessful(r.outcome) && status != ExtensionCoverageStatus::Partial {
        Some("an unsuccessful extension result must report partial coverage"@)
    } else if unsuccessful(r.outcome) && publishes(r) {
        Some("an unsuccessful extension result cannot publish contributions"@)
    } else if r.evidence@.len() > 0 && c.kind != CapabilityKind::Inspector && c.kind != CapabilityKind::Analyzer {
        Some("only inspector or analyzer capabilities may contribute evidence"@)
    } else if evidence_problem_from(r, c, 0) is Some {
        evidence_problem_from(r, c, 0)
    } else if r.reports@.len() > 0 && c.kind != CapabilityKind::ReportProvider {
        Some("only report-provider capabilities may contribute reports"@)
    } else if report_problem_from(r, c, 0) is Some {
        report_problem_from(r, c, 0)
    } else if r.policy_contributions@.len() > 0 && c.kind != CapabilityKind::PolicyContributor {
        Some("only policy-contributor capabilities may contribute policy"@)
    } else if policy_problem_from(r, c, 0) is Some {
        policy_problem_from(r, c, 0)
    } else if r.plan_operations@.len() > 0 && c.kind != CapabilityKind::Planner {
        Some("only planner capabilities may contribute plan operations"@)
    } else if operation_problem_from(r, inv, c, 0) is Some {
        operation_problem_from(r, inv, c, 0)
    } else if r.validations@.len() > 0 && c.kind != CapabilityKind::Validator {
        Some("only validator capabilities may contribute validations"@)
    } else if exists|i: int| 0 <= i < r.validations@.len() && ((#[trigger] r.validations@[i]).validator_id@ != c.capability_id@
        || r.validations@[i].validator_version@ != c.capability_version@) {
        Some("validation identity does not match the selected capability"@)
    } else if c.kind == CapabilityKind::LifecycleObserver && (publishes(r) || r.checkpoint_references@.len() > 0) {
        Some("a lifecycle observer cannot return contributions or effects"@)
    } else if progress_breaks(r.progress@) {
        Some("extension progress sequence must increase and counts must remain monotonic"@)
    } else if progress_overflows(r.progress@) {
        Some("extension progress cannot exceed its declared total"@)
    } else {
        None
    }
}

/// The first rule the result breaks for the invocation, in the order they
/// are checked, or `None` when it follows all of them.
pub open spec fn result_problem(ext: LoadedExtension, inv: ExtensionInvocationV1, r: ExtensionResultV1) -> Option<Seq<char>> {
    let ci = capability_index(ext.manifest.capabilities@, r.capability_id@);
    let c = ext.manifest.capabilities@[ci];
    if r.schema@ != EXTENSION_RESULT_SCHEMA@ {
        Some("extension result schema is unsupported"@)
    } else if r.invocation_id@ != inv.invocation_id@ || !same_identity(r.extension, inv.extension)
        || r.capability_id@ != inv.capability_id@ {
        Some("extension result identity does not match its invocation"@)
    } else if ci < 0 {
        Some("extension result names an undeclared capability"@)
    } else if !provenance_bound(ext, inv, r, c) {
        Some("extension result provenance is not bound to its invocation"@)
    } else if !inputs_fingerprinted(inv, r) {
        Some("extension result input fingerprints do not match the invocation"@)
    } else if !checkpoints_kept(inv, r) {
        Some("extension result checkpoint evidence does not match the invocation"@)
    } else if !consumed_ids(r).subset_of(input_ids(inv)) {
        Some("extension result claims an input artifact outside its invocation"@)
    } else if !r.observed_effects.subset_of(c.effects) || !r.observed_effects.subset_of(inv.authorization.granted_effects) {
        Some("extension result reports an undeclared or unauthorized effect"@)
    } else {
        content_rule(ext, inv, r, c)
    }
}

fn same_identity_of(a: &ExtensionIdentity, b: &ExtensionIdentity) -> (r: bool)
    ensures
        r == same_identity(*a, *b),
{
    compare_strings(a.extension_id.as_str(), b.extension_id.as_str()) == 0
        && compare_strings(a.version.as_str(), b.version.as_str()) == 0
        && same_digest_of(&a.manifest_digest, &b.manifest_digest)
}

fn provenance_bound_of(ext: &LoadedExtension, inv: &ExtensionInvocationV1, r: &ExtensionResultV1, c: &CapabilityDeclaration) -> (b: bool)
    ensures
        b == provenance_bound(*ext, *inv, *r, *c),
{
    let p = &r.provenance;
    same_identity_of(&p.extension, &inv.extension)
        && compare_strings(p.capability_id.as_str(), c.capability_id.as_str()) == 0
        && compare_strings(p.capability_version.as_str(), c.capability_version.as_str()) == 0
        && same_digest_of(&p.configuration_fingerprint, &inv.configuration.fingerprint)
        && compare_strings(p.authorization_lock_id.as_str(), ext.lock.lock_id.as_str()) == 0
        && same_digest_of(&p.authorization_lock_digest, &ext.lock_digest)
        && same_digest_of(&p.grants_digest, &ext.lock.grants_digest)
        && compare_strings(p.execution_mode.as_str(), ext.lock.selected_execution_mode.as_str()) == 0
}

fn inputs_fingerprinted_of(inv: &ExtensionInvocationV1, r: &ExtensionResultV1) -> (b: bool)
    ensures
        b == inputs_fingerprinted(*inv, *r),
{
    let fps = &r.provenance.input_fingerprints;
    if fps.len() != inv.input_artifacts.len() {
        return false;
    }
    let mut k: usize = 0;
    while k < fps.len()
        invariant
            k <= fps@.len(),
            fps@ == r.provenance.input_fingerprints@,
            fps@.len() == inv.input_artifacts@.len(),
            forall|i: int| 0 <= i < k ==> same_digest(#[trigger] fps@[i], inv.input_artifacts@[i].content_digest),
        decreases fps@.len() - k,
    {
        if !same_digest_of(&fps[k], &inv.input_artifacts[k].content_digest) {
            return false;
        }
        k = k + 1;
    }
    true
}

fn checkpoints_kept_of(inv: &ExtensionInvocationV1, r: &ExtensionResultV1) -> (b: bool)
    ensures
        b == checkpoints_kept(*inv, *r),
{
    let a = &r.checkpoint_references;
    let c = &inv.checkpoint_references;
    if a.len() != c.len() {
        return false;
    }
    let mut k: usize = 0;
    while k < a.len()
        invariant
            k <= a@.len(),
            a@ == r.checkpoint_references@,
            c@ == inv.checkpoint_references@,
            a@.len() == c@.len(),
            forall|i: int| 0 <= i < k ==> same_reference(#[trigger] a@[i], c@[i]),
        decreases a@.len() - k,
    {
        if !same_reference_of(&a[k], &c[k]) {
            return false;
        }
        k = k + 1;
    }
    true
}

fn input_id_held(inv: &ExtensionInvocationV1, id: &str) -> (b: bool)
    ensures
        b == input_ids(*inv).contains(id@),
{
    let arts = &inv.input_artifacts;
    let ghost ids = arts@.map_values(|a: crate::extensions::model::ImmutableArtifactReference| a.artifact_id@);
    let mut k: usize = 0;
    while k < arts.len()
        invariant
            k <= arts@.len(),
            arts@ == inv.input_artifacts@,
            ids == arts@.map_values(|a: crate::extensions::model::ImmutableArtifactReference| a.artifact_id@),
            forall|i: int| 0 <= i < k ==> ids[i] != id@,
        decreases arts@.len() - k,
    {
        if compare_strings(arts[k].artifact_id.as_str(), id) == 0 {
            assert(ids[k as int] == id@);
            return true;
        }
        k = k + 1;
    }
    false
}

fn consumed_held(r: &ExtensionResultV1, id: &str) -> (b: bool)
    ensures
        b == consumed_ids(*r).contains(id@),
{
    let xs = &r.consumed_artifacts;
    let ghost ids = xs@.map_values(|s: String| s@);
    let mut k: usize = 0;
    while k < xs.len()
        invariant
            k <= xs@.len(),
            xs@ == r.consumed_artifacts@,
            ids == xs@.map_values(|s: String| s@),
            forall|i: int| 0 <= i < k ==> ids[i] != id@,
        decreases xs@.len() - k,
    {
        if compare_strings(xs[k].as_str(), id) == 0 {
            assert(ids[k as int] == id@);
            return true;
        }
        k = k + 1;
    }
    false
}

fn consumed_within_inputs(inv: &ExtensionInvocationV1, r: &ExtensionResultV1) -> (b: bool)
    ensures
        b == consumed_ids(*r).subset_of(input_ids(*inv)),
{
    let xs = &r.consumed_artifacts;
    let ghost ids = xs@.map_values(|s: String| s@);
    let mut k: usize = 0;
    while k < xs.len()
        invariant
            k <= xs@.len(),
            xs@ == r.consumed_artifacts@,
            ids == xs@.map_values(|s: String| s@),
            forall|i: int| 0 <= i < k ==> input_ids(*inv).contains(#[trigger] ids[i]),
        decreases xs@.len() - k,
    {
        if !input_id_held(inv, xs[k].as_str()) {
            assert(consumed_ids(*r).contains(ids[k as int]));
            return false;
        }
        k = k + 1;
    }
    assert forall|t: Seq<char>| consumed_ids(*r).contains(t) implies input_ids(*inv).contains(t) by {
        let i = choose|i: int| 0 <= i < ids.len() && ids[i] == t;
    }
    true
}

fn inputs_within_consumed(inv: &ExtensionInvocationV1, r: &ExtensionResultV1) -> (b: bool)
    ensures
        b == input_ids(*inv).subset_of(consumed_ids(*r)),
{
    let arts = &inv.input_artifacts;
    let ghost ids = arts@.map_values(|a: crate::extensions::model::ImmutableArtifactReference| a.artifact_id@);
    let mut k: usize = 0;
    while k < arts.len()
        invariant
            k <= arts@.len(),
            arts@ == inv.input_artifacts@,
            ids == arts@.map_values(|a: crate::extensions::model::ImmutableArtifactReference| a.artifact_id@),
            forall|i: int| 0 <= i < k ==> consumed_ids(*r).contains(#[trigger] ids[i]),
        decreases arts@.len() - k,
    {
        if !consumed_held(r, arts[k].artifact_id.as_str()) {
            assert(input_ids(*inv).contains(ids[k as int]));
            return false;
        }
        k = k + 1;
    }
    assert forall|t: Seq<char>| input_ids(*inv).contains(t) implies consumed_ids(*r).contains(t) by {
        let i = choose|i: int| 0 <= i < ids.len() && ids[i] == t;
    }
    true
}

/// The number of contributions a result carries.
pub open spec fn contribution_count(r: ExtensionResultV1) -> nat {
    r.evidence@.len() + r.validations@.len() + r.reports@.len() + r.policy_contributions@.len() + r.plan_operations@.len()
}

proof fn lemma_contribution_ids_len(r: ExtensionResultV1)
    ensures
        contribution_ids(r).len() == contribution_count(r),
        all_evidence(r).len() == r.evidence@.len() + r.validations@.len(),
{
}

fn evidence_at(r: &ExtensionResultV1, p: u128) -> (e: &EvidenceContribution)
    requires
        p < all_evidence(*r).len(),
    ensures
        *e == all_evidence(*r)[p as int],
{
    let n1 = r.evidence.len();
    if p < n1 as u128 {
        let i = p as usize;
        &r.evidence[i]
    } else {
        let n2 = r.validations.len();
        let d: u128 = p - n1 as u128;
        assert(d < n2);
        let i = d as usize;
        &r.validations[i].evidence
    }
}

fn contribution_id_at(r: &ExtensionResultV1, p: u128) -> (id: &str)
    requires
        p < contribution_count(*r),
    ensures
        id@ == contribution_ids(*r)[p as int],
{
    proof {
        lemma_contribution_ids_len(*r);
    }
    let ne = r.evidence.len() as u128 + r.validations.len() as u128;
    let nr = r.reports.len() as u128;
    let np = r.policy_contributions.len() as u128;
    if p < ne {
        evidence_at(r, p).evidence_id.as_str()
    } else if p < ne + nr {
        let i = (p - ne) as usize;
        r.reports[i].report_id.as_str()
    } else if p < ne + nr + np {
        let i = (p - ne - nr) as usize;
        r.policy_contributions[i].policy_id.as_str()
    } else {
        let no = r.plan_operations.len();
        let d: u128 = p - ne - nr - np;
        assert(d < no);
        let i = d as usize;
        r.plan_operations[i].operation_id.as_str()
    }
}

fn repeats_of(r: &ExtensionResultV1, p: u128) -> (b: bool)
    requires
        p < contribution_count(*r),
    ensures
        b == repeats(contribution_ids(*r), p as int),
{
    proof {
        lemma_contribution_ids_len(*r);
    }
    let ghost ids = contribution_ids(*r);
    let id = contribution_id_at(r, p);
    let mut q: u128 = 0;
    while q < p
        invariant
            q <= p < ids.len(),
            ids == contribution_ids(*r),
            id@ == ids[p as int],
            forall|k: int| 0 <= k < q ==> ids[k] != ids[p as int],
        decreases p - q,
    {
        if compare_strings(contribution_id_at(r, q), id) == 0 {
            assert(ids[q as int] == ids[p as int]);
            return true;
        }
        q = q + 1;
    }
    false
}

fn evidence_problem(r: &ExtensionResultV1, c: &CapabilityDeclaration) -> (o: Option<String>)
    ensures
        optional_text(o) == evidence_problem_from(*r, *c, 0),
{
    proof {
        lemma_contribution_ids_len(*r);
    }
    let n: u128 = r.evidence.len() as u128 + r.validations.len() as u128;
    let mut i: u128 = 0;
    while i < n
        invariant
            i <= n,
            n == all_evidence(*r).len(),
            n <= contribution_count(*r),
            evidence_problem_from(*r, *c, 0) == evidence_problem_from(*r, *c, i as int),
        decreases n - i,
    {
        let e = evidence_at(r, i);
        let id = e.evidence_id.as_str();
        if repeats_of(r, i) {
            return Some(note_of("evidence contribution ", id, " is duplicated"));
        }
        if !holds_text_of(&c.produces, e.schema.as_str()) {
            return Some(note_of("evidence contribution ", id, " uses an undeclared output schema"));
        }
        if !digest_of_matches(&e.fingerprint, e.value.as_slice()) {
            return Some(note_of("evidence contribution ", id, " has a mismatched fingerprint"));
        }
        i = i + 1;
    }
    None
}

fn report_problem(r: &ExtensionResultV1, c: &CapabilityDeclaration) -> (o: Option<String>)
    ensures
        optional_text(o) == report_problem_from(*r, *c, 0),
{
    proof {
        lemma_contribution_ids_len(*r);
    }
    let base: u128 = r.evidence.len() as u128 + r.validations.len() as u128;
    let mut i: usize = 0;
    while i < r.reports.len()
        invariant
            i <= r.reports@.len(),
            base == all_evidence(*r).len(),
            base <= 2 * (usize::MAX as int),
            report_problem_from(*r, *c, 0) == report_problem_from(*r, *c, i as int),
        decreases r.reports@.len() - i,
    {
        let x = &r.reports[i];
        let id = x.report_id.as_str();
        if repeats_of(r, base + i as u128) {
            return Some(note_of("report contribution ", id, " is duplicated"));
        }
        if !holds_text_of(&c.produces, x.schema.as_str()) {
            return Some(note_of("report contribution ", id, " uses an undeclared output schema"));
        }
        if !digest_of_matches(&x.fingerprint, x.value.as_slice()) {
            return Some(note_of("report contribution ", id, " has a mismatched fingerprint"));
        }
        i = i + 1;
    }
    None
}

fn policy_problem(r: &ExtensionResultV1, c: &CapabilityDeclaration) -> (o: Option<String>)
    ensures
        optional_text(o) == policy_problem_from(*r, *c, 0),
{
    proof {
        lemma_contribution_ids_len(*r);
    }
    let base: u128 = r.evidence.len() as u128 + r.validations.len() as u128 + r.reports.len() as u128;
    let mut i: usize = 0;
    while i < r.policy_contributions.len()
        invariant
            i <= r.policy_contributions@.len(),
            base == all_evidence(*r).len() + r.reports@.len(),
            base <= 3 * (usize::MAX as int),
            policy_problem_from(*r, *c, 0) == policy_problem_from(*r, *c, i as int),
        decreases r.policy_contributions@.len() - i,
    {
        let x = &r.policy_contributions[i];
        let id = x.policy_id.as_str();
        if repeats_of(r, base + i as u128) {
            return Some(note_of("policy contribution ", id, " is duplicated"));
        }
        if !holds_text_of(&c.produces, x.schema.as_str()) {
            return Some(note_of("policy contribution ", id, " uses an undeclared output schema"));
        }
        if !digest_of_matches(&x.fingerprint, x.value.as_slice()) {
            return Some(note_of("policy contribution ", id, " has a mismatched fingerprint"));
        }
        i = i + 1;
    }
    None
}

fn all_produced(outputs: &Vec<String>, produces: &Vec<String>) -> (b: bool)
    ensures
        b == !(exists|k: int| 0 <= k < outputs@.len() && !holds_text(produces@, (#[trigger] outputs@[k])@)),
{
    let mut k: usize = 0;
    while k < outputs.len()
        invariant
            k <= outputs@.len(),
            forall|i: int| 0 <= i < k ==> holds_text(produces@, (#[trigger] outputs@[i])@),
        decreases outputs@.len() - k,
    {
        if !holds_text_of(produces, outputs[k].as_str()) {
            assert(!holds_text(produces@, outputs@[k as int]@));
            return false;
        }
        k = k + 1;
    }
    true
}

fn operation_rule_of(r: &ExtensionResultV1, inv: &ExtensionInvocationV1, c: &CapabilityDeclaration, i: usize) -> (o: Option<String>)
    requires
        i < r.plan_operations@.len(),
    ensures
        optional_text(o) == operation_rule(*r, *inv, *c, i as int),
{
    proof {
        lemma_contribution_ids_len(*r);
    }
    let base: u128 = r.evidence.len() as u128 + r.validations.len() as u128 + r.reports.len() as u128
        + r.policy_contributions.len() as u128;
    let op = &r.plan_operations[i];
    let id = op.operation_id.as_str();
    if repeats_of(r, base + i as u128) {
        return Some(note_of("plan operation ", id, " is duplicated"));
    }
    if !all_held(&op.input_artifacts, &inv.input_artifacts) {
        return Some(note_of("plan operation ", id, " references evidence outside its invocation"));
    }
    if c.content_changes && (op.input_artifacts.len() == 0 || op.expected_output_schemas.len() == 0) {
        return Some(note_of("content-changing plan operation ", id, " must bind inputs and outputs"));
    }
    if !op.preconditions.is_complete() || op.mutates_source || !op.requires_core_execution {
        return Some(note_of("plan operation ", id, " bypasses a required core safety boundary"));
    }
    if !all_produced(&op.expected_output_schemas, &c.produces) {
        return Some(note_of("plan operation ", id, " uses an undeclared output schema"));
    }
    let expected = op.expected_fingerprint();
    if !same_digest_of(&op.fingerprint, &expected) {
        return Some(note_of("plan operation ", id, " has a mismatched fingerprint"));
    }
    None
}

fn operation_problem(r: &ExtensionResultV1, inv: &ExtensionInvocationV1, c: &CapabilityDeclaration) -> (o: Option<String>)
    ensures
        optional_text(o) == operation_problem_from(*r, *inv, *c, 0),
{
    let mut i: usize = 0;
    while i < r.plan_operations.len()
        invariant
            i <= r.plan_operations@.len(),
            operation_problem_from(*r, *inv, *c, 0) == operation_problem_from(*r, *inv, *c, i as int),
        decreases r.plan_operations@.len() - i,
    {
        let p = operation_rule_of(r, inv, c, i);
        if p.is_some() {
            return p;
        }
        i = i + 1;
    }
    None
}

fn validations_match(r: &ExtensionResultV1, c: &CapabilityDeclaration) -> (b: bool)
    ensures
        b == !(exists|i: int| 0 <= i < r.validations@.len() && ((#[trigger] r.validations@[i]).validator_id@ != c.capability_id@
            || r.validations@[i].validator_version@ != c.capability_version@)),
{
    let mut k: usize = 0;
    while k < r.validations.len()
        invariant
            k <= r.validations@.len(),
            forall|i: int| 0 <= i < k ==> !((#[trigger] r.validations@[i]).validator_id@ != c.capability_id@
                || r.validations@[i].validator_version@ != c.capability_version@),
        decreases r.validations@.len() - k,
    {
        let v = &r.validations[k];
        if compare_strings(v.validator_id.as_str(), c.capability_id.as_str()) != 0
            || compare_strings(v.validator_version.as_str(), c.capability_version.as_str()) != 0 {
            assert(r.validations@[k as int].validator_id@ != c.capability_id@
                || r.validations@[k as int].validator_version@ != c.capability_version@);
            return false;
        }
        k = k + 1;
    }
    true
}

fn progress_breaks_of(p: &Vec<ProgressEvent>) -> (b: bool)
    ensures
        b == progress_breaks(p@),
{
    let n = p.len();
    let mut k: usize = 1;
    while k < n
        invariant
            1 <= k,
            n == p@.len(),
            k <= n || n == 0,
            forall|i: int| 0 <= i < k - 1 && i < n - 1 ==> !steps_back(#[trigger] p@[i], p@[i + 1]),
        decreases n - k,
    {
        let a = &p[k - 1];
        let b = &p[k];
        let totals_differ = match (a.total, b.total) {
            (Some(x), Some(y)) => x != y,
            _ => false,
        };
        if a.sequence >= b.sequence || a.completed > b.completed || totals_differ {
            assert(steps_back(p@[k - 1], p@[(k - 1) + 1]));
            return true;
        }
        k = k + 1;
    }
    false
}

fn progress_overflows_of(p: &Vec<ProgressEvent>) -> (b: bool)
    ensures
        b == progress_overflows(p@),
{
    let mut k: usize = 0;
    while k < p.len()
        invariant
            k <= p@.len(),
            forall|i: int| 0 <= i < k ==> !((#[trigger] p@[i]).total is Some && p@[i].completed > p@[i].total->Some_0),
        decreases p@.len() - k,
    {
        match p[k].total {
            Some(t) => {
                if p[k].completed > t {
                    assert(p@[k as int].total is Some);
                    return true;
                }
            },
            None => {},
        }
        k = k + 1;
    }
    false
}

fn publishes_of(r: &ExtensionResultV1) -> (b: bool)
    ensures
        b == publishes(*r),
{
    r.evidence.len() > 0 || r.policy_contributions.len() > 0 || r.plan_operations.len() > 0
        || r.validations.len() > 0 || r.reports.len() > 0 || !r.observed_effects.is_empty()
}

fn unsuccessful_of(o: ExtensionOutcome) -> (b: bool)
    ensures
        b == unsuccessful(o),
{
    o == ExtensionOutcome::Unavailable || o == ExtensionOutcome::Cancelled || o == ExtensionOutcome::Failed
}

fn content_rule_of(ext: &LoadedExtension, inv: &ExtensionInvocationV1, r: &ExtensionResultV1, c: &CapabilityDeclaration) -> (o: Option<String>)
    ensures
        optional_text(o) == content_rule(*ext, *inv, *r, *c),
{
    let status = r.coverage.status;
    if status == ExtensionCoverageStatus::Complete && r.coverage.limitations.len() > 0 {
        return Some(owned("complete extension coverage cannot include limitations"));
    }
    if status == ExtensionCoverageStatus::Partial && r.coverage.limitations.len() == 0 {
        return Some(owned("partial extension coverage must explain its limitations"));
    }
    if c.coverage.mode == DeclaredCoverage::PartialByDesign && status == ExtensionCoverageStatus::Complete {
        return Some(owned("a partial-by-design capability cannot claim complete coverage"));
    }
    if status == ExtensionCoverageStatus::Complete {
        let within = consumed_within_inputs(inv, r);
        let covers = inputs_within_consumed(inv, r);
        proof {
            if within && covers {
                assert(consumed_ids(*r) =~= input_ids(*inv));
            }
        }
        if !(within && covers) {
            return Some(owned("complete coverage must consume every invoked artifact"));
        }
    }
    let failed = unsuccessful_of(r.outcome);
    if failed && status != ExtensionCoverageStatus::Partial {
        return Some(owned("an unsuccessful extension result must report partial coverage"));
    }
    if failed && publishes_of(r) {
        return Some(owned("an unsuccessful extension result cannot publish contributions"));
    }
    if r.evidence.len() > 0 && c.kind != CapabilityKind::Inspector && c.kind != CapabilityKind::Analyzer {
        return Some(owned("only inspector or analyzer capabilities may contribute evidence"));
    }
    let p = evidence_problem(r, c);
    if p.is_some() {
        return p;
    }
    if r.reports.len() > 0 && c.kind != CapabilityKind::ReportProvider {
        return Some(owned("only report-provider capabilities may contribute reports"));
    }
    let p = report_problem(r, c);
    if p.is_some() {
        return p;
    }
    if r.policy_contributions.len() > 0 && c.kind != CapabilityKind::PolicyContributor {
        return Some(owned("only policy-contributor capabilities may contribute policy"));
    }
    let p = policy_problem(r, c);
    if p.is_some() {
        return p;
    }
    if r.plan_operations.len() > 0 && c.kind != CapabilityKind::Planner {
        return Some(owned("only planner capabilities may contribute plan operations"));
    }
    let p = operation_problem(r, inv, c);
    if p.is_some() {
        return p;
    }
    if r.validations.len() > 0 && c.kind != CapabilityKind::Validator {
        return Some(owned("only validator capabilities may contribute validations"));
    }
    if !validations_match(r, c) {
        return Some(owned("validation identity does not match the selected capability"));
    }
    if c.kind == CapabilityKind::LifecycleObserver && (publishes_of(r) || r.checkpoint_references.len() > 0) {
        return Some(owned("a lifecycle observer cannot return contributions or effects"));
    }
    if progress_breaks_of(&r.progress) {
        return Some(owned("extension progress sequence must increase and counts must remain monotonic"));
    }
    if progress_overflows_of(&r.progress) {
        return Some(owned("extension progress cannot exceed its declared total"));
    }
    None
}

/// Checks what an extension returned for an invocation, reporting the first
/// rule it breaks.
pub fn validate_result(extension: &LoadedExtension, invocation: &ExtensionInvocationV1, result: &ExtensionResultV1) -> (r: Result<(), String>)
    ensures
        match result_problem(*extension, *invocation, *result) {
            None => r is Ok,
            Some(problem) => r matches Err(message) && message@ == problem,
        },
{
    let res = result;
    let inv = invocation;
    if compare_strings(res.schema.as_str(), EXTENSION_RESULT_SCHEMA) != 0 {
        return Err(owned("extension result schema is unsupported"));
    }
    if compare_strings(res.invocation_id.as_str(), inv.invocation_id.as_str()) != 0
        || !same_identity_of(&res.extension, &inv.extension)
        || compare_strings(res.capability_id.as_str(), inv.capability_id.as_str()) != 0 {
        return Err(owned("extension result identity does not match its invocation"));
    }
    proof {
        crate::extensions::catalog::lemma_capability_index_range(extension.manifest.capabilities@, res.capability_id@);
    }
    let c = match extension.capability(res.capability_id.as_str()) {
        Some(c) => c,
        None => {
            return Err(owned("extension result names an undeclared capability"));
        },
    };
    if !provenance_bound_of(extension, inv, res, c) {
        return Err(owned("extension result provenance is not bound to its invocation"));
    }
    if !inputs_fingerprinted_of(inv, res) {
        return Err(owned("extension result input fingerprints do not match the invocation"));
    }
    if !checkpoints_kept_of(inv, res) {
        return Err(owned("extension result checkpoint evidence does not match the invocation"));
    }
    if !consumed_within_inputs(inv, res) {
        return Err(owned("extension result claims an input artifact outside its invocation"));
    }
    if !res.observed_effects.is_subset(&c.effects) || !res.observed_effects.is_subset(&inv.authorization.granted_effects) {
        return Err(owned("extension result reports an undeclared or unauthorized effect"));
    }
    match content_rule_of(extension, inv, res, c) {
        Some(p) => Err(p),
        None => Ok(()),
    }
}

} // verus!
