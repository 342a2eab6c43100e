//! The effective policy and its semantic fingerprints.

use vstd::prelude::*;
use crate::cli::OutputFormat;
use crate::digest::{blake3_hex, blake3_hex_of};
use crate::domain::{NativePath, PathText, ScanOptions, path_of_bytes};
use crate::json::{json_bool, json_member, json_string, decimal_digits, push_decimal, push_json_bool, push_json_string, push_key, push_str};
use crate::text::{compare_strings, owned, string_of};

verus! {

pub const EFFECTIVE_POLICY_SCHEMA: &'static str = "optiflow.effective-policy.v1";
pub const DIGEST_ALGORITHM: &'static str = "blake3-256";

#[derive(Debug, Clone, Copy, PartialEq, Eq, Structural)]
pub enum PolicySourceKind {
    CompiledDefault,
    UserConfiguration,
    ProjectConfiguration,
    ExplicitConfiguration,
    Environment,
    CommandLine,
    LockedInvariant,
}

#[derive(Debug, Clone, Copy, PartialEq, Eq, Structural)]
pub enum ConfigurationSourceStatus {
    Loaded,
    Absent,
    Suppressed,
}

#[derive(Debug, Clone, PartialEq, Eq)]
pub struct ConfigurationSourceRecord {
    pub source: PolicySourceKind,
    pub status: ConfigurationSourceStatus,
    pub path: Option<NativePath>,
}

#[derive(Debug, Clone, PartialEq, Eq)]
pub struct PolicyProvenance {
    pub source: PolicySourceKind,
    pub detail: String,
    pub path: Option<NativePath>,
}

#[derive(Debug, Clone, Copy, PartialEq, Eq, Structural)]
pub enum ExactGroupingProfile {
    SizeAndBlake3_256,
}

#[derive(Debug, Clone, Copy, PartialEq, Eq, Structural)]
pub enum StabilityRequirement {
    Required,
}

#[derive(Debug, Clone, Copy, PartialEq, Eq, Structural)]
pub enum UnstableObservationPolicy {
    Exclude,
}

/// The settings that change what counts as evidence.
#[derive(Debug, Clone, Copy, PartialEq, Eq, Structural)]
pub struct EvidencePolicy {
    pub follow_symlinks: bool,
    pub include_hidden: bool,
    pub cross_filesystems: bool,
    pub probe_media: bool,
    pub exact_grouping_profile: ExactGroupingProfile,
    pub observation_stability: StabilityRequirement,
    pub unstable_observations: UnstableObservationPolicy,
    pub maximum_observation_attempts: u32,
}

#[derive(Debug, Clone, PartialEq, Eq)]
pub struct OperationalPolicy {
    pub state_directory: NativePath,
}

#[derive(Debug, Clone, Copy, PartialEq, Eq, Structural)]
pub struct PresentationPolicy {
    pub output_format: OutputFormat,
}

/// Invariants that no configuration can change.
#[derive(Debug, Clone, Copy, PartialEq, Eq, Structural)]
pub struct SafetyInvariants {
    pub source_mutation: bool,
    pub apply_enabled: bool,
    pub shell_execution: bool,
    pub artifact_validation_required: bool,
    pub atomic_artifact_commit_required: bool,
    pub current_stability_required_for_exact_groups: bool,
}

#[derive(Debug, Clone, PartialEq, Eq)]
pub struct PolicyDigest {
    pub algorithm: String,
    pub value: String,
}

#[derive(Debug, Clone, PartialEq, Eq)]
pub struct PolicyFingerprints {
    pub effective_configuration: PolicyDigest,
    pub evidence_policy: PolicyDigest,
}

/// The fully resolved policy with its provenance and fingerprints.
#[derive(Debug, Clone)]
pub struct EffectivePolicyV1 {
    pub schema: String,
    pub evidence_policy: EvidencePolicy,
    pub operational_policy: OperationalPolicy,
    pub presentation_policy: PresentationPolicy,
    pub safety_invariants: SafetyInvariants,
    pub fingerprints: PolicyFingerprints,
    /// Each setting with where its value came from, ordered by the
    /// setting's name.
    pub provenance: Vec<SettingProvenance>,
}

/// One setting of the effective policy and where its value came from.
#[derive(Debug, Clone)]
pub struct SettingProvenance {
    pub setting: String,
    pub provenance: PolicyProvenance,
}

/// What the scan and output stages need from the resolved policy.
#[derive(Debug, Clone)]
pub struct RuntimePolicy {
    pub state_directory: Vec<u8>,
    pub scan: ScanOptions,
    pub output_format: OutputFormat,
}

pub open spec fn spec_locked_safety_invariants() -> SafetyInvariants {
    SafetyInvariants {
        source_mutation: false,
        apply_enabled: false,
        shell_execution: false,
        artifact_validation_required: true,
        atomic_artifact_commit_required: true,
        current_stability_required_for_exact_groups: true,
    }
}

fn locked_safety_invariants() -> (s: SafetyInvariants)
    ensures
        s == spec_locked_safety_invariants(),
{
    SafetyInvariants {
        source_mutation: false,
        apply_enabled: false,
        shell_execution: false,
        artifact_validation_required: true,
        atomic_artifact_commit_required: true,
        current_stability_required_for_exact_groups: true,
    }
}

/// A boolean member followed by a comma.
pub open spec fn bool_member(key: Seq<char>, b: bool) -> Seq<char> {
    json_member(key, json_bool(b)) + seq![',']
}

/// A string member followed by a comma.
pub open spec fn text_member(key: Seq<char>, v: Seq<char>) -> Seq<char> {
    json_member(key, json_string(v)) + seq![',']
}

pub open spec fn evidence_json(e: EvidencePolicy) -> Seq<char> {
    seq!['{'] + bool_member("follow_symlinks"@, e.follow_symlinks)
        + bool_member("include_hidden"@, e.include_hidden)
        + bool_member("cross_filesystems"@, e.cross_filesystems)
        + bool_member("probe_media"@, e.probe_media)
        + text_member("exact_grouping_profile"@, "size_and_blake3_256"@)
        + text_member("observation_stability"@, "required"@)
        + text_member("unstable_observations"@, "exclude"@)
        + json_member("maximum_observation_attempts"@, decimal_digits(e.maximum_observation_attempts as nat))
        + seq!['}']
}

pub open spec fn path_json(p: PathText) -> Seq<char> {
    match p {
        PathText::Utf8(s) => seq!['{'] + json_member("encoding"@, json_string("utf8"@)) + seq![',']
            + json_member("value"@, json_string(s)) + seq!['}'],
        PathText::UnixBytes(s) => seq!['{'] + json_member("encoding"@, json_string("unix_bytes"@))
            + seq![','] + json_member("base64"@, json_string(s)) + seq!['}'],
    }
}

pub open spec fn format_name(f: OutputFormat) -> Seq<char> {
    match f {
        OutputFormat::Human => "human"@,
        OutputFormat::Json => "json"@,
    }
}

pub open spec fn safety_json(s: SafetyInvariants) -> Seq<char> {
    seq!['{'] + bool_member("source_mutation"@, s.source_mutation)
        + bool_member("apply_enabled"@, s.apply_enabled)
        + bool_member("shell_execution"@, s.shell_execution)
        + bool_member("artifact_validation_required"@, s.artifact_validation_required)
        + bool_member("atomic_artifact_commit_required"@, s.atomic_artifact_commit_required)
        + json_member(
            "current_stability_required_for_exact_groups"@,
            json_bool(s.current_stability_required_for_exact_groups),
        ) + seq!['}']
}

/// The canonical text hashed into the effective-configuration fingerprint.
pub open spec fn effective_identity_json(
    e: EvidencePolicy,
    state_directory: PathText,
    format: OutputFormat,
    s: SafetyInvariants,
) -> Seq<char> {
    seq!['{'] + json_member("evidence_policy"@, evidence_json(e)) + seq![',']
        + json_member("operational_policy"@, operational_json(state_directory)) + seq![',']
        + json_member("presentation_policy"@, presentation_json(format)) + seq![',']
        + json_member("safety_invariants"@, safety_json(s)) + seq!['}']
}

pub open spec fn operational_json(state_directory: PathText) -> Seq<char> {
    seq!['{'] + json_member("state_directory"@, path_json(state_directory)) + seq!['}']
}

pub open spec fn presentation_json(format: OutputFormat) -> Seq<char> {
    seq!['{'] + json_member("output_format"@, json_string(format_name(format))) + seq!['}']
}

/// The canonical text hashed into the evidence-policy fingerprint: only the
/// evidence settings and the evidence-relevant safety invariants.
pub open spec fn evidence_identity_json(e: EvidencePolicy, s: SafetyInvariants) -> Seq<char> {
    seq!['{'] + json_member("evidence_policy"@, evidence_json(e)) + seq![',']
        + bool_member("source_mutation"@, s.source_mutation)
        + bool_member("apply_enabled"@, s.apply_enabled)
        + bool_member("artifact_validation_required"@, s.artifact_validation_required)
        + json_member(
            "current_stability_required_for_exact_groups"@,
            json_bool(s.current_stability_required_for_exact_groups),
        ) + seq!['}']
}

/// The digest value of a canonical JSON text.
pub open spec fn text_digest(text: Seq<char>) -> Seq<char> {
    blake3_hex(vstd::utf8::encode_utf8(text))
}

pub open spec fn is_digest_of(d: PolicyDigest, text: Seq<char>) -> bool {
    d.algorithm@ == DIGEST_ALGORITHM@ && d.value@ == text_digest(text)
}

/// The fingerprints that belong to the four policy parts.
pub open spec fn fingerprints_of(
    f: PolicyFingerprints,
    e: EvidencePolicy,
    state_directory: PathText,
    format: OutputFormat,
    s: SafetyInvariants,
) -> bool {
    &&& is_digest_of(f.effective_configuration, effective_identity_json(e, state_directory, format, s))
    &&& is_digest_of(f.evidence_policy, evidence_identity_json(e, s))
}

fn push_bool_member(out: &mut Vec<char>, key: &str, b: bool)
    ensures
        final(out)@ == old(out)@ + bool_member(key@, b),
{
    push_key(out, key);
    push_json_bool(out, b);
    out.push(',');
    assert(out@ =~= old(out)@ + bool_member(key@, b));
}

fn push_text_member(out: &mut Vec<char>, key: &str, v: &str)
    ensures
        final(out)@ == old(out)@ + text_member(key@, v@),
{
    push_key(out, key);
    push_json_string(out, v);
    out.push(',');
    assert(out@ =~= old(out)@ + text_member(key@, v@));
}

fn push_last_bool_member(out: &mut Vec<char>, key: &str, b: bool)
    ensures
        final(out)@ == old(out)@ + json_member(key@, json_bool(b)),
{
    push_key(out, key);
    push_json_bool(out, b);
    assert(out@ =~= old(out)@ + json_member(key@, json_bool(b)));
}

fn push_evidence_json(out: &mut Vec<char>, e: &EvidencePolicy)
    ensures
        final(out)@ == old(out)@ + evidence_json(*e),
{
    let ghost o = out@;
    out.push('{');
    push_bool_member(out, "follow_symlinks", e.follow_symlinks);
    push_bool_member(out, "include_hidden", e.include_hidden);
    push_bool_member(out, "cross_filesystems", e.cross_filesystems);
    push_bool_member(out, "probe_media", e.probe_media);
    push_text_member(out, "exact_grouping_profile", "size_and_blake3_256");
    push_text_member(out, "observation_stability", "required");
    push_text_member(out, "unstable_observations", "exclude");
    let ghost before_last = out@;
    push_key(out, "maximum_observation_attempts");
    push_decimal(out, e.maximum_observation_attempts as u64);
    assert(out@ =~= before_last + json_member("maximum_observation_attempts"@, decimal_digits(e.maximum_observation_attempts as nat)));
    out.push('}');
    assert(out@ =~= o + evidence_json(*e));
}

fn push_path_json(out: &mut Vec<char>, p: &NativePath)
    ensures
        final(out)@ == old(out)@ + path_json(p@),
{
    match p {
        NativePath::Utf8 { value } => {
            out.push('{');
            push_key(out, "encoding");
            push_json_string(out, "utf8");
            out.push(',');
            push_key(out, "value");
            push_json_string(out, value.as_str());
            out.push('}');
        },
        NativePath::UnixBytes { base64 } => {
            out.push('{');
            push_key(out, "encoding");
            push_json_string(out, "unix_bytes");
            out.push(',');
            push_key(out, "base64");
            push_json_string(out, base64.as_str());
            out.push('}');
        },
    }
    assert(out@ =~= old(out)@ + path_json(p@));
}

fn push_safety_json(out: &mut Vec<char>, s: &SafetyInvariants)
    ensures
        final(out)@ == old(out)@ + safety_json(*s),
{
    let ghost o = out@;
    out.push('{');
    push_bool_member(out, "source_mutation", s.source_mutation);
    push_bool_member(out, "apply_enabled", s.apply_enabled);
    push_bool_member(out, "shell_execution", s.shell_execution);
    push_bool_member(out, "artifact_validation_required", s.artifact_validation_required);
    push_bool_member(out, "atomic_artifact_commit_required", s.atomic_artifact_commit_required);
    assert(out@ =~= o + (seq!['{'] + bool_member("source_mutation"@, s.source_mutation)
        + bool_member("apply_enabled"@, s.apply_enabled)
        + bool_member("shell_execution"@, s.shell_execution)
        + bool_member("artifact_validation_required"@, s.artifact_validation_required)
        + bool_member("atomic_artifact_commit_required"@, s.atomic_artifact_commit_required)));
    let ghost mid = out@;
    push_last_bool_member(out, "current_stability_required_for_exact_groups", s.current_stability_required_for_exact_groups);
    out.push('}');
    assert(out@ =~= mid + json_member(
            "current_stability_required_for_exact_groups"@,
            json_bool(s.current_stability_required_for_exact_groups),
        ) + seq!['}']);
    assert(out@ =~= o + safety_json(*s));
}

fn digest_text(text: &Vec<char>) -> (d: PolicyDigest)
    ensures
        is_digest_of(d, text@),
{
    let s = string_of(text);
    PolicyDigest { algorithm: owned(DIGEST_ALGORITHM), value: blake3_hex_of(s.as_str().as_bytes()) }
}

fn push_operational_member(out: &mut Vec<char>, state_directory: &NativePath)
    ensures
        final(out)@ == old(out)@ + json_member("operational_policy"@, operational_json(state_directory@)) + seq![','],
{
    let ghost o = out@;
    push_key(out, "operational_policy");
    let ghost q = out@;
    out.push('{');
    push_key(out, "state_directory");
    push_path_json(out, state_directory);
    out.push('}');
    assert(out@ =~= q + operational_json(state_directory@));
    out.push(',');
    assert(out@ =~= o + json_member("operational_policy"@, operational_json(state_directory@)) + seq![',']);
}

fn push_presentation_member(out: &mut Vec<char>, format: OutputFormat)
    ensures
        final(out)@ == old(out)@ + json_member("presentation_policy"@, presentation_json(format)) + seq![','],
{
    let ghost o = out@;
    push_key(out, "presentation_policy");
    let ghost q = out@;
    out.push('{');
    push_key(out, "output_format");
    match format {
        OutputFormat::Human => push_json_string(out, "human"),
        OutputFormat::Json => push_json_string(out, "json"),
    }
    out.push('}');
    assert(out@ =~= q + presentation_json(format));
    out.push(',');
    assert(out@ =~= o + json_member("presentation_policy"@, presentation_json(format)) + seq![',']);
}

fn effective_identity_text(
    evidence_policy: &EvidencePolicy,
    state_directory: &NativePath,
    format: OutputFormat,
    safety_invariants: &SafetyInvariants,
) -> (text: Vec<char>)
    ensures
        text@ == effective_identity_json(*evidence_policy, state_directory@, format, *safety_invariants),
{
    let mut out: Vec<char> = Vec::new();
    out.push('{');
    let ghost p0 = out@;
    push_key(&mut out, "evidence_policy");
    push_evidence_json(&mut out, evidence_policy);
    out.push(',');
    assert(out@ =~= p0 + json_member("evidence_policy"@, evidence_json(*evidence_policy)) + seq![',']);
    push_operational_member(&mut out, state_directory);
    push_presentation_member(&mut out, format);
    let ghost p3 = out@;
    push_key(&mut out, "safety_invariants");
    push_safety_json(&mut out, safety_invariants);
    out.push('}');
    assert(out@ =~= p3 + json_member("safety_invariants"@, safety_json(*safety_invariants)) + seq!['}']);
    assert(out@ =~= effective_identity_json(*evidence_policy, state_directory@, format, *safety_invariants));
    out
}

fn evidence_identity_text(evidence_policy: &EvidencePolicy, safety_invariants: &SafetyInvariants) -> (text: Vec<char>)
    ensures
        text@ == evidence_identity_json(*evidence_policy, *safety_invariants),
{
    let mut out: Vec<char> = Vec::new();
    out.push('{');
    let ghost p0 = out@;
    push_key(&mut out, "evidence_policy");
    push_evidence_json(&mut out, evidence_policy);
    out.push(',');
    assert(out@ =~= p0 + json_member("evidence_policy"@, evidence_json(*evidence_policy)) + seq![',']);
    push_bool_member(&mut out, "source_mutation", safety_invariants.source_mutation);
    push_bool_member(&mut out, "apply_enabled", safety_invariants.apply_enabled);
    push_bool_member(&mut out, "artifact_validation_required", safety_invariants.artifact_validation_required);
    push_last_bool_member(
        &mut out,
        "current_stability_required_for_exact_groups",
        safety_invariants.current_stability_required_for_exact_groups,
    );
    out.push('}');
    assert(out@ =~= evidence_identity_json(*evidence_policy, *safety_invariants));
    out
}

fn calculate_fingerprints(
    evidence_policy: &EvidencePolicy,
    operational_policy: &OperationalPolicy,
    presentation_policy: &PresentationPolicy,
    safety_invariants: &SafetyInvariants,
) -> (f: PolicyFingerprints)
    ensures
        fingerprints_of(
            f,
            *evidence_policy,
            operational_policy.state_directory@,
            presentation_policy.output_format,
            *safety_invariants,
        ),
{
    let effective = effective_identity_text(
        evidence_policy,
        &operational_policy.state_directory,
        presentation_policy.output_format,
        safety_invariants,
    );
    let evidence = evidence_identity_text(evidence_policy, safety_invariants);
    PolicyFingerprints {
        effective_configuration: digest_text(&effective),
        evidence_policy: digest_text(&evidence),
    }
}

/// Assembles the effective policy from its parts, with the locked safety
/// invariants and fingerprints of the result.
pub fn build_effective_policy(
    evidence_policy: EvidencePolicy,
    state_directory: &[u8],
    output_format: OutputFormat,
    provenance: Vec<SettingProvenance>,
) -> (r: Result<EffectivePolicyV1, String>)
    ensures
        r matches Ok(p) && {
            &&& p.schema@ == EFFECTIVE_POLICY_SCHEMA@
            &&& p.evidence_policy == evidence_policy
            &&& p.operational_policy.state_directory@ == path_of_bytes(state_directory@)
            &&& p.presentation_policy.output_format == output_format
            &&& p.safety_invariants == spec_locked_safety_invariants()
            &&& p.provenance == provenance
            &&& fingerprints_of(
                p.fingerprints,
                evidence_policy,
                path_of_bytes(state_directory@),
                output_format,
                spec_locked_safety_invariants(),
            )
        },
{
    let operational_policy = OperationalPolicy { state_directory: NativePath::from_path(state_directory) };
    let presentation_policy = PresentationPolicy { output_format };
    let safety_invariants = locked_safety_invariants();
    let fingerprints = calculate_fingerprints(
        &evidence_policy,
        &operational_policy,
        &presentation_policy,
        &safety_invariants,
    );
    Ok(EffectivePolicyV1 {
        schema: owned(EFFECTIVE_POLICY_SCHEMA),
        evidence_policy,
        operational_policy,
        presentation_policy,
        safety_invariants,
        fingerprints,
        provenance,
    })
}

fn same_digest(a: &PolicyDigest, b: &PolicyDigest) -> (r: bool)
    ensures
        r == (a.algorithm@ == b.algorithm@ && a.value@ == b.value@),
{
    compare_strings(a.algorithm.as_str(), b.algorithm.as_str()) == 0
        && compare_strings(a.value.as_str(), b.value.as_str()) == 0
}

/// Whether the stored fingerprints are the ones of the stored policy parts.
pub open spec fn spec_fingerprints_valid(p: EffectivePolicyV1) -> bool {
    fingerprints_of(
        p.fingerprints,
        p.evidence_policy,
        p.operational_policy.state_directory@,
        p.presentation_policy.output_format,
        p.safety_invariants,
    )
}

/// Fails closed unless the schema is supported and both fingerprints match
/// a recalculation from the policy parts.
pub fn validate_fingerprints(policy: &EffectivePolicyV1) -> (r: Result<(), String>)
    ensures
        r is Ok <==> (policy.schema@ == EFFECTIVE_POLICY_SCHEMA@ && spec_fingerprints_valid(*policy)),
        r matches Err(m) ==> (if policy.schema@ != EFFECTIVE_POLICY_SCHEMA@ {
            m@ == "unsupported effective-policy schema"@
        } else {
            m@ == "effective-policy fingerprint mismatch"@
        }),
{
    if compare_strings(policy.schema.as_str(), EFFECTIVE_POLICY_SCHEMA) != 0 {
        return Err(owned("unsupported effective-policy schema"));
    }
    let expected = calculate_fingerprints(
        &policy.evidence_policy,
        &policy.operational_policy,
        &policy.presentation_policy,
        &policy.safety_invariants,
    );
    if !same_digest(&policy.fingerprints.effective_configuration, &expected.effective_configuration)
        || !same_digest(&policy.fingerprints.evidence_policy, &expected.evidence_policy) {
        return Err(owned("effective-policy fingerprint mismatch"));
    }
    Ok(())
}

/// Two policies built from the same evidence settings have the same
/// evidence fingerprint, whatever their state directory, output format or
/// provenance.
pub proof fn lemma_evidence_fingerprint_ignores_presentation(a: EffectivePolicyV1, b: EffectivePolicyV1)
    requires
        spec_fingerprints_valid(a),
        spec_fingerprints_valid(b),
        a.evidence_policy == b.evidence_policy,
        a.safety_invariants == b.safety_invariants,
    ensures
        a.fingerprints.evidence_policy.algorithm@ == b.fingerprints.evidence_policy.algorithm@,
        a.fingerprints.evidence_policy.value@ == b.fingerprints.evidence_policy.value@,
{
}

/// Two policies whose parts agree have the same fingerprints; provenance
/// takes no part in them.
pub proof fn lemma_fingerprints_ignore_provenance(a: EffectivePolicyV1, b: EffectivePolicyV1)
    requires
        spec_fingerprints_valid(a),
        spec_fingerprints_valid(b),
        a.evidence_policy == b.evidence_policy,
        a.operational_policy.state_directory@ == b.operational_policy.state_directory@,
        a.presentation_policy == b.presentation_policy,
        a.safety_invariants == b.safety_invariants,
    ensures
        a.fingerprints.evidence_policy.value@ == b.fingerprints.evidence_policy.value@,
        a.fingerprints.effective_configuration.value@ == b.fingerprints.effective_configuration.value@,
{
}

} // verus!
