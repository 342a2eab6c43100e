//! The extension SDK's declarations, grants, invocations and results.

use vstd::prelude::*;
use crate::digest::{blake3_hex, blake3_hex_of};
use crate::domain::NativePath;
use crate::json::{
    json_array, json_bool, json_joined, json_member, json_object, json_string, lemma_joined_push,
    lemma_member_pushed, push_json_bool, push_json_string, push_json_string_array, push_member_key,
    decimal_digits, push_decimal,
};
use crate::text::{owned, string_of};
use crate::duplicates::string_views;

verus! {

pub const EXTENSION_SDK_CONTRACT: &'static str = "optiflow.extension-sdk.v1";
pub const EXTENSION_MANIFEST_SCHEMA: &'static str = "optiflow.extension-manifest.v1";
pub const EXTENSION_LOCK_SCHEMA: &'static str = "optiflow.extension-lock.v1";
pub const EXTENSION_INVOCATION_SCHEMA: &'static str = "optiflow.extension-invocation.v1";
pub const EXTENSION_RESULT_SCHEMA: &'static str = "optiflow.extension-result.v1";
pub const MAX_EXTENSION_TIMEOUT_MS: u64 = 600000;
pub const MAX_EXTENSION_STDIN_BYTES: u64 = 4194304;
pub const MAX_EXTENSION_STDOUT_BYTES: u64 = 16777216;
pub const MAX_EXTENSION_STDERR_BYTES: u64 = 1048576;

/// A named content digest.
#[derive(Debug, Clone, PartialEq, Eq)]
pub struct Digest {
    pub algorithm: String,
    pub value: String,
}

impl Digest {
    /// The BLAKE3-256 digest of `bytes`.
    pub fn blake3(bytes: &[u8]) -> (d: Self)
        ensures
            d.algorithm@ == "blake3-256"@,
            d.value@ == blake3_hex(bytes@),
    {
        Digest { algorithm: owned("blake3-256"), value: blake3_hex_of(bytes) }
    }
}

#[derive(Debug, Clone, PartialEq, Eq)]
pub struct Publisher {
    pub id: String,
    pub display_name: String,
}

#[derive(Debug, Clone, Copy, PartialEq, Eq, PartialOrd, Ord, Structural)]
pub enum CapabilityKind {
    Inspector,
    Analyzer,
    PolicyContributor,
    Planner,
    Validator,
    ReportProvider,
    LifecycleObserver,
}

#[derive(Debug, Clone, Copy, PartialEq, Eq, PartialOrd, Ord, Structural)]
pub enum ExtensionEffect {
    ArtifactRead,
    IsolatedWorkspaceWrite,
    Subprocess,
    Network,
    Gpu,
    SourceMutation,
    Destructive,
    Sign,
    Publish,
}

/// A set of extension effects, one flag per effect.
#[derive(Debug, Clone, Copy, PartialEq, Eq, Structural)]
pub struct EffectSet {
    pub artifact_read: bool,
    pub isolated_workspace_write: bool,
    pub subprocess: bool,
    pub network: bool,
    pub gpu: bool,
    pub source_mutation: bool,
    pub destructive: bool,
    pub sign: bool,
    pub publish: bool,
}

impl EffectSet {
    /// Whether `effect` is in the set.
    pub open spec fn has(self, effect: ExtensionEffect) -> bool {
        match effect {
            ExtensionEffect::ArtifactRead => self.artifact_read,
            ExtensionEffect::IsolatedWorkspaceWrite => self.isolated_workspace_write,
            ExtensionEffect::Subprocess => self.subprocess,
            ExtensionEffect::Network => self.network,
            ExtensionEffect::Gpu => self.gpu,
            ExtensionEffect::SourceMutation => self.source_mutation,
            ExtensionEffect::Destructive => self.destructive,
            ExtensionEffect::Sign => self.sign,
            ExtensionEffect::Publish => self.publish,
        }
    }

    /// Every effect of `self` is in `other`.
    pub open spec fn subset_of(self, other: EffectSet) -> bool {
        forall|e: ExtensionEffect| #[trigger] self.has(e) ==> other.has(e)
    }

    /// No effect is in the set.
    pub open spec fn empty_set(self) -> bool {
        forall|e: ExtensionEffect| !#[trigger] self.has(e)
    }

    /// The set with no effects.
    pub fn empty() -> (r: Self)
        ensures
            r.empty_set(),
    {
        EffectSet {
            artifact_read: false,
            isolated_workspace_write: false,
            subprocess: false,
            network: false,
            gpu: false,
            source_mutation: false,
            destructive: false,
            sign: false,
            publish: false,
        }
    }

    /// Adds `effect`.
    pub fn insert(&mut self, effect: ExtensionEffect)
        ensures
            forall|e: ExtensionEffect| #[trigger] final(self).has(e) == (old(self).has(e) || e == effect),
    {
        match effect {
            ExtensionEffect::ArtifactRead => self.artifact_read = true,
            ExtensionEffect::IsolatedWorkspaceWrite => self.isolated_workspace_write = true,
            ExtensionEffect::Subprocess => self.subprocess = true,
            ExtensionEffect::Network => self.network = true,
            ExtensionEffect::Gpu => self.gpu = true,
            ExtensionEffect::SourceMutation => self.source_mutation = true,
            ExtensionEffect::Destructive => self.destructive = true,
            ExtensionEffect::Sign => self.sign = true,
            ExtensionEffect::Publish => self.publish = true,
        }
    }

    /// Whether `effect` is in the set.
    pub fn contains(&self, effect: ExtensionEffect) -> (r: bool)
        ensures
            r == self.has(effect),
    {
        match effect {
            ExtensionEffect::ArtifactRead => self.artifact_read,
            ExtensionEffect::IsolatedWorkspaceWrite => self.isolated_workspace_write,
            ExtensionEffect::Subprocess => self.subprocess,
            ExtensionEffect::Network => self.network,
            ExtensionEffect::Gpu => self.gpu,
            ExtensionEffect::SourceMutation => self.source_mutation,
            ExtensionEffect::Destructive => self.destructive,
            ExtensionEffect::Sign => self.sign,
            ExtensionEffect::Publish => self.publish,
        }
    }

    /// Whether every effect of `self` is in `other`.
    pub fn is_subset(&self, other: &EffectSet) -> (r: bool)
        ensures
            r == self.subset_of(*other),
    {
        let r = (!self.artifact_read || other.artifact_read)
            && (!self.isolated_workspace_write || other.isolated_workspace_write)
            && (!self.subprocess || other.subprocess)
            && (!self.network || other.network)
            && (!self.gpu || other.gpu)
            && (!self.source_mutation || other.source_mutation)
            && (!self.destructive || other.destructive)
            && (!self.sign || other.sign)
            && (!self.publish || other.publish);
        proof {
            if !r {
                if self.artifact_read && !other.artifact_read {
                    assert(self.has(ExtensionEffect::ArtifactRead));
                } else if self.isolated_workspace_write && !other.isolated_workspace_write {
                    assert(self.has(ExtensionEffect::IsolatedWorkspaceWrite));
                } else if self.subprocess && !other.subprocess {
                    assert(self.has(ExtensionEffect::Subprocess));
                } else if self.network && !other.network {
                    assert(self.has(ExtensionEffect::Network));
                } else if self.gpu && !other.gpu {
                    assert(self.has(ExtensionEffect::Gpu));
                } else if self.source_mutation && !other.source_mutation {
                    assert(self.has(ExtensionEffect::SourceMutation));
                } else if self.destructive && !other.destructive {
                    assert(self.has(ExtensionEffect::Destructive));
                } else if self.sign && !other.sign {
                    assert(self.has(ExtensionEffect::Sign));
                } else {
                    assert(self.has(ExtensionEffect::Publish));
                }
            }
        }
        r
    }

    /// Whether the set has no effects.
    pub fn is_empty(&self) -> (r: bool)
        ensures
            r == self.empty_set(),
    {
        let r = !(self.artifact_read || self.isolated_workspace_write || self.subprocess
            || self.network || self.gpu || self.source_mutation || self.destructive || self.sign
            || self.publish);
        proof {
            if !r {
                if self.artifact_read {
                    assert(self.has(ExtensionEffect::ArtifactRead));
                } else if self.isolated_workspace_write {
                    assert(self.has(ExtensionEffect::IsolatedWorkspaceWrite));
                } else if self.subprocess {
                    assert(self.has(ExtensionEffect::Subprocess));
                } else if self.network {
                    assert(self.has(ExtensionEffect::Network));
                } else if self.gpu {
                    assert(self.has(ExtensionEffect::Gpu));
                } else if self.source_mutation {
                    assert(self.has(ExtensionEffect::SourceMutation));
                } else if self.destructive {
                    assert(self.has(ExtensionEffect::Destructive));
                } else if self.sign {
                    assert(self.has(ExtensionEffect::Sign));
                } else {
                    assert(self.has(ExtensionEffect::Publish));
                }
            }
        }
        r
    }
}

/// A set of lifecycle phases, one flag per phase.
#[derive(Debug, Clone, Copy, PartialEq, Eq, Structural)]
pub struct PhaseSet {
    pub discover: bool,
    pub inspect: bool,
    pub plan: bool,
    pub authorize: bool,
    pub execute: bool,
    pub validate: bool,
    pub commit_evidence: bool,
}

impl PhaseSet {
    /// Whether `phase` is in the set.
    pub open spec fn has(self, phase: LifecyclePhase) -> bool {
        match phase {
            LifecyclePhase::Discover => self.discover,
            LifecyclePhase::Inspect => self.inspect,
            LifecyclePhase::Plan => self.plan,
            LifecyclePhase::Authorize => self.authorize,
            LifecyclePhase::Execute => self.execute,
            LifecyclePhase::Validate => self.validate,
            LifecyclePhase::CommitEvidence => self.commit_evidence,
        }
    }

    /// No phase is in the set.
    pub open spec fn empty_set(self) -> bool {
        forall|p: LifecyclePhase| !#[trigger] self.has(p)
    }

    /// Whether `phase` is in the set.
    pub fn contains(&self, phase: LifecyclePhase) -> (r: bool)
        ensures
            r == self.has(phase),
    {
        match phase {
            LifecyclePhase::Discover => self.discover,
            LifecyclePhase::Inspect => self.inspect,
            LifecyclePhase::Plan => self.plan,
            LifecyclePhase::Authorize => self.authorize,
            LifecyclePhase::Execute => self.execute,
            LifecyclePhase::Validate => self.validate,
            LifecyclePhase::CommitEvidence => self.commit_evidence,
        }
    }

    /// Whether the set has no phases.
    pub fn is_empty(&self) -> (r: bool)
        ensures
            r == self.empty_set(),
    {
        let r = !(self.discover || self.inspect || self.plan || self.authorize || self.execute
            || self.validate || self.commit_evidence);
        proof {
            if !r {
                if self.discover {
                    assert(self.has(LifecyclePhase::Discover));
                } else if self.inspect {
                    assert(self.has(LifecyclePhase::Inspect));
                } else if self.plan {
                    assert(self.has(LifecyclePhase::Plan));
                } else if self.authorize {
                    assert(self.has(LifecyclePhase::Authorize));
                } else if self.execute {
                    assert(self.has(LifecyclePhase::Execute));
                } else if self.validate {
                    assert(self.has(LifecyclePhase::Validate));
                } else {
                    assert(self.has(LifecyclePhase::CommitEvidence));
                }
            }
        }
        r
    }
}

#[derive(Debug, Clone, Copy, PartialEq, Eq, Structural)]
pub enum Determinism {
    Deterministic,
    BestEffort,
    NonDeterministic,
}

#[derive(Debug, Clone, Copy, PartialEq, Eq, Structural)]
pub enum Cacheability {
    Cacheable,
    NotCacheable,
}

#[derive(Debug, Clone, Copy, PartialEq, Eq, Structural)]
pub enum DeclaredCoverage {
    Complete,
    PartialByDesign,
}

#[derive(Debug, Clone, PartialEq, Eq)]
pub struct CoverageDeclaration {
    pub mode: DeclaredCoverage,
    pub dimensions: Vec<String>,
}

#[derive(Debug, Clone, Copy, PartialEq, Eq, Structural)]
pub struct ResourceNeeds {
    pub cpu_threads: u32,
    pub memory_bytes: u64,
    pub temporary_storage_bytes: u64,
    pub gpu: bool,
}

#[derive(Debug, Clone, PartialEq, Eq)]
pub struct LocalityDeclaration {
    pub local_only: bool,
    pub network_hosts: Vec<String>,
}

/// A configuration schema an extension declares, with its JSON document.
#[derive(Debug, Clone, PartialEq, Eq)]
pub struct ConfigurationSchemaDeclaration {
    pub schema_id: String,
    pub schema_digest: Digest,
    /// The schema's JSON document, serialized.
    pub document: Vec<u8>,
}

#[derive(Debug, Clone, PartialEq, Eq)]
pub struct CapabilityDeclaration {
    pub capability_id: String,
    pub capability_version: String,
    pub kind: CapabilityKind,
    pub configuration_schema: String,
    pub accepts: Vec<String>,
    pub produces: Vec<String>,
    pub preconditions: Vec<String>,
    pub postconditions: Vec<String>,
    pub determinism: Determinism,
    pub cacheability: Cacheability,
    pub coverage: CoverageDeclaration,
    pub resource_needs: ResourceNeeds,
    pub locality: LocalityDeclaration,
    pub content_changes: bool,
    pub effects: EffectSet,
}

#[derive(Debug, Clone, Copy, PartialEq, Eq, Structural)]
pub struct ProcessLimits {
    pub timeout_ms: u64,
    pub max_stdin_bytes: u64,
    pub max_stdout_bytes: u64,
    pub max_stderr_bytes: u64,
}

/// How an extension runs: embedded in the host, or as a child process.
#[derive(Debug, Clone, PartialEq, Eq)]
pub enum ExecutionModeDeclaration {
    Embedded { name: String, entrypoint: String },
    Process { name: String, protocol: String, arguments: Vec<String>, limits: ProcessLimits },
}

impl ExecutionModeDeclaration {
    /// The name the mode is selected by.
    pub fn name(&self) -> (name: &str)
        ensures
            name@ == match self {
                ExecutionModeDeclaration::Embedded { name, .. } => name@,
                ExecutionModeDeclaration::Process { name, .. } => name@,
            },
    {
        match self {
            ExecutionModeDeclaration::Embedded { name, .. } => name.as_str(),
            ExecutionModeDeclaration::Process { name, .. } => name.as_str(),
        }
    }
}

#[derive(Debug, Clone, PartialEq, Eq)]
pub struct ReplacementDeclaration {
    pub replaces: Vec<String>,
    pub fallbacks_for: Vec<String>,
}

#[derive(Debug, Clone, PartialEq, Eq)]
pub struct ObserverHookDeclaration {
    pub hook_id: String,
    pub lifecycle_points: PhaseSet,
    pub read_only: bool,
}

#[derive(Debug, Clone, PartialEq, Eq)]
pub struct ExtensionManifestV1 {
    pub schema: String,
    pub extension_id: String,
    pub version: String,
    pub publisher: Publisher,
    pub sdk_contract: String,
    pub configuration_schemas: Vec<ConfigurationSchemaDeclaration>,
    pub capabilities: Vec<CapabilityDeclaration>,
    pub execution_modes: Vec<ExecutionModeDeclaration>,
    pub requested_effects: EffectSet,
    pub replacement: ReplacementDeclaration,
    pub observer_hooks: Vec<ObserverHookDeclaration>,
}

#[derive(Debug, Clone, Copy, PartialEq, Eq, Structural)]
pub enum TrustMode {
    TrustedEmbedded,
    TrustedProcess,
    Disabled,
}

#[derive(Debug, Clone, PartialEq, Eq)]
pub struct LockedConfiguration {
    /// The configuration's JSON value, serialized.
    pub values: Vec<u8>,
    pub fingerprint: Digest,
}

#[derive(Debug, Clone, PartialEq, Eq)]
pub struct LockedProcess {
    pub executable: NativePath,
    pub executable_digest: Digest,
    pub working_directory: NativePath,
}

#[derive(Debug, Clone, PartialEq, Eq)]
pub struct ExtensionLockV1 {
    pub schema: String,
    pub lock_id: String,
    pub extension_id: String,
    pub extension_version: String,
    pub manifest_digest: Digest,
    pub enabled: bool,
    pub trust: TrustMode,
    pub granted_effects: EffectSet,
    pub grants_digest: Digest,
    pub precedence: i32,
    pub allowed_replacements: Vec<String>,
    pub allowed_fallbacks: Vec<String>,
    pub selected_execution_mode: String,
    pub process: Option<LockedProcess>,
    pub configurations: Vec<(String, LockedConfiguration)>,
}

/// The fields of a lock that its grants digest covers.
#[derive(Debug, Clone, PartialEq, Eq)]
pub struct GrantIdentity<'a> {
    pub enabled: bool,
    pub trust: TrustMode,
    pub granted_effects: EffectSet,
    pub precedence: i32,
    pub allowed_replacements: &'a [String],
    pub allowed_fallbacks: &'a [String],
    pub selected_execution_mode: &'a str,
}

#[derive(Debug, Clone, PartialEq, Eq)]
pub struct ExtensionIdentity {
    pub extension_id: String,
    pub version: String,
    pub manifest_digest: Digest,
}

#[derive(Debug, Clone, PartialEq, Eq)]
pub struct ImmutableArtifactReference {
    pub artifact_id: String,
    pub schema: String,
    pub content_digest: Digest,
}

#[derive(Debug, Clone, PartialEq, Eq)]
pub struct InvocationConfiguration {
    pub schema_id: String,
    /// The configuration's JSON value, serialized.
    pub values: Vec<u8>,
    pub fingerprint: Digest,
}

#[derive(Debug, Clone, PartialEq, Eq)]
pub struct AuthorizationEvidence {
    pub lock_id: String,
    pub lock_digest: Digest,
    pub grants_digest: Digest,
    pub granted_effects: EffectSet,
}

#[derive(Debug, Clone, PartialEq, Eq)]
pub struct ExtensionInvocationV1 {
    pub schema: String,
    pub invocation_id: String,
    pub extension: ExtensionIdentity,
    pub capability_id: String,
    pub capability_kind: CapabilityKind,
    pub input_artifacts: Vec<ImmutableArtifactReference>,
    pub input_evidence: Vec<EvidenceContribution>,
    pub configuration: InvocationConfiguration,
    pub authorization: AuthorizationEvidence,
    pub limits: ProcessLimits,
    pub cancellation_id: String,
    pub checkpoint_references: Vec<ImmutableArtifactReference>,
    pub lifecycle_event: Option<LifecycleEvent>,
}

#[derive(Debug, Clone, Copy, PartialEq, Eq, Structural)]
pub enum ExtensionOutcome {
    Produced,
    Reused,
    Unavailable,
    Cancelled,
    Failed,
}

#[derive(Debug, Clone, Copy, PartialEq, Eq, Structural)]
pub enum ExtensionCoverageStatus {
    Complete,
    Partial,
}

#[derive(Debug, Clone, PartialEq, Eq)]
pub struct ExtensionCoverage {
    pub status: ExtensionCoverageStatus,
    pub limitations: Vec<String>,
}

#[derive(Debug, Clone, PartialEq, Eq)]
pub struct EvidenceContribution {
    pub evidence_id: String,
    pub schema: String,
    /// The contributed JSON value, serialized.
    pub value: Vec<u8>,
    pub fingerprint: Digest,
}

#[derive(Debug, Clone, PartialEq, Eq)]
pub struct PolicyContribution {
    pub policy_id: String,
    pub schema: String,
    /// The contributed JSON value, serialized.
    pub value: Vec<u8>,
    pub fingerprint: Digest,
}

/// The checks an apply step must perform before acting on a planned
/// operation.
#[derive(Debug, Clone, Copy, PartialEq, Eq, Structural)]
pub struct PlanPreconditions {
    pub observation_revalidation: bool,
    pub full_hash: bool,
    pub byte_confirmation: bool,
    pub plan_identity: bool,
    pub explicit_authorization: bool,
    pub provenance: bool,
}

impl PlanPreconditions {
    /// Every check required.
    pub fn required() -> (p: Self)
        ensures
            p.is_complete_spec(),
    {
        PlanPreconditions {
            observation_revalidation: true,
            full_hash: true,
            byte_confirmation: true,
            plan_identity: true,
            explicit_authorization: true,
            provenance: true,
        }
    }

    pub open spec fn is_complete_spec(&self) -> bool {
        &&& self.observation_revalidation
        &&& self.full_hash
        &&& self.byte_confirmation
        &&& self.plan_identity
        &&& self.explicit_authorization
        &&& self.provenance
    }

    /// Whether every check is required.
    pub fn is_complete(&self) -> (r: bool)
        ensures
            r == self.is_complete_spec(),
    {
        self.observation_revalidation && self.full_hash && self.byte_confirmation && self.plan_identity
            && self.explicit_authorization && self.provenance
    }
}

/// An operation an extension planner proposes; the host executes it.
#[derive(Debug, Clone, PartialEq, Eq)]
pub struct PlanOperationContribution {
    pub operation_id: String,
    pub action_kind: String,
    pub input_artifacts: Vec<ImmutableArtifactReference>,
    pub expected_output_schemas: Vec<String>,
    pub preconditions: PlanPreconditions,
    pub mutates_source: bool,
    pub requires_core_execution: bool,
    pub fingerprint: Digest,
}

/// The canonical JSON text of a digest.
pub open spec fn digest_json(d: Digest) -> Seq<char> {
    json_object(seq![
        json_member("algorithm"@, json_string(d.algorithm@)),
        json_member("value"@, json_string(d.value@)),
    ])
}

/// The canonical JSON text of an artifact reference.
pub open spec fn reference_json(r: ImmutableArtifactReference) -> Seq<char> {
    json_object(seq![
        json_member("artifact_id"@, json_string(r.artifact_id@)),
        json_member("schema"@, json_string(r.schema@)),
        json_member("content_digest"@, digest_json(r.content_digest)),
    ])
}

/// The canonical JSON text of plan preconditions.
pub open spec fn preconditions_json(p: PlanPreconditions) -> Seq<char> {
    json_object(seq![
        json_member("observation_revalidation"@, json_bool(p.observation_revalidation)),
        json_member("full_hash"@, json_bool(p.full_hash)),
        json_member("byte_confirmation"@, json_bool(p.byte_confirmation)),
        json_member("plan_identity"@, json_bool(p.plan_identity)),
        json_member("explicit_authorization"@, json_bool(p.explicit_authorization)),
        json_member("provenance"@, json_bool(p.provenance)),
    ])
}

/// The canonical JSON text of the fields an operation's fingerprint covers:
/// everything but the fingerprint itself.
pub open spec fn operation_identity_json(op: PlanOperationContribution) -> Seq<char> {
    json_object(operation_members(op))
}

fn push_digest(out: &mut Vec<char>, d: &Digest)
    ensures
        final(out)@ == old(out)@ + digest_json(*d),
{
    let ghost start = out@;
    out.push('{');
    assert(out@ =~= start + seq!['{'] + json_joined(seq![]));
    let ghost m1 = json_member("algorithm"@, json_string(d.algorithm@));
    let ghost m2 = json_member("value"@, json_string(d.value@));
    push_member_key(out, "algorithm", true, Ghost(start), Ghost(Seq::<Seq<char>>::empty()));
    push_json_string(out, d.algorithm.as_str());
    proof { lemma_member_pushed(start, seq![], "algorithm"@, json_string(d.algorithm@), out@); }
    push_member_key(out, "value", false, Ghost(start), Ghost(Seq::<Seq<char>>::empty().push(m1)));
    push_json_string(out, d.value.as_str());
    proof { lemma_member_pushed(start, seq![m1], "value"@, json_string(d.value@), out@); }
    out.push('}');
    assert(seq![m1].push(m2) =~= seq![m1, m2]);
    assert(out@ =~= start + json_object(seq![m1, m2]));
}

fn push_reference(out: &mut Vec<char>, r: &ImmutableArtifactReference)
    ensures
        final(out)@ == old(out)@ + reference_json(*r),
{
    let ghost start = out@;
    out.push('{');
    assert(out@ =~= start + seq!['{'] + json_joined(seq![]));
    let ghost m1 = json_member("artifact_id"@, json_string(r.artifact_id@));
    let ghost m2 = json_member("schema"@, json_string(r.schema@));
    let ghost m3 = json_member("content_digest"@, digest_json(r.content_digest));
    push_member_key(out, "artifact_id", true, Ghost(start), Ghost(Seq::<Seq<char>>::empty()));
    push_json_string(out, r.artifact_id.as_str());
    proof { lemma_member_pushed(start, seq![], "artifact_id"@, json_string(r.artifact_id@), out@); }
    push_member_key(out, "schema", false, Ghost(start), Ghost(Seq::<Seq<char>>::empty().push(m1)));
    push_json_string(out, r.schema.as_str());
    proof { lemma_member_pushed(start, seq![m1], "schema"@, json_string(r.schema@), out@); }
    assert(seq![m1].push(m2) =~= seq![m1, m2]);
    push_member_key(out, "content_digest", false, Ghost(start), Ghost(Seq::<Seq<char>>::empty().push(m1).push(m2)));
    push_digest(out, &r.content_digest);
    proof { lemma_member_pushed(start, seq![m1, m2], "content_digest"@, digest_json(r.content_digest), out@); }
    out.push('}');
    assert(seq![m1, m2].push(m3) =~= seq![m1, m2, m3]);
    assert(out@ =~= start + json_object(seq![m1, m2, m3]));
}

fn push_bool_member(out: &mut Vec<char>, key: &str, b: bool, first: bool, Ghost(start): Ghost<Seq<char>>, Ghost(done): Ghost<Seq<Seq<char>>>)
    requires
        old(out)@ == start + seq!['{'] + json_joined(done),
        first == (done.len() == 0),
    ensures
        final(out)@ == start + seq!['{'] + json_joined(done.push(json_member(key@, json_bool(b)))),
{
    push_member_key(out, key, first, Ghost(start), Ghost(done));
    push_json_bool(out, b);
    proof { lemma_member_pushed(start, done, key@, json_bool(b), out@); }
}

fn push_string_member(out: &mut Vec<char>, key: &str, s: &str, first: bool, Ghost(start): Ghost<Seq<char>>, Ghost(done): Ghost<Seq<Seq<char>>>)
    requires
        old(out)@ == start + seq!['{'] + json_joined(done),
        first == (done.len() == 0),
    ensures
        final(out)@ == start + seq!['{'] + json_joined(done.push(json_member(key@, json_string(s@)))),
{
    push_member_key(out, key, first, Ghost(start), Ghost(done));
    push_json_string(out, s);
    proof { lemma_member_pushed(start, done, key@, json_string(s@), out@); }
}

fn push_preconditions(out: &mut Vec<char>, p: &PlanPreconditions)
    ensures
        final(out)@ == old(out)@ + preconditions_json(*p),
{
    let ghost start = out@;
    out.push('{');
    assert(out@ =~= start + seq!['{'] + json_joined(seq![]));
    let ghost m1 = json_member("observation_revalidation"@, json_bool(p.observation_revalidation));
    let ghost m2 = json_member("full_hash"@, json_bool(p.full_hash));
    let ghost m3 = json_member("byte_confirmation"@, json_bool(p.byte_confirmation));
    let ghost m4 = json_member("plan_identity"@, json_bool(p.plan_identity));
    let ghost m5 = json_member("explicit_authorization"@, json_bool(p.explicit_authorization));
    let ghost m6 = json_member("provenance"@, json_bool(p.provenance));
    push_bool_member(out, "observation_revalidation", p.observation_revalidation, true, Ghost(start), Ghost(Seq::<Seq<char>>::empty()));
    assert(Seq::<Seq<char>>::empty().push(m1) =~= seq![m1]);
    push_bool_member(out, "full_hash", p.full_hash, false, Ghost(start), Ghost(Seq::<Seq<char>>::empty().push(m1)));
    assert(seq![m1].push(m2) =~= seq![m1, m2]);
    push_bool_member(out, "byte_confirmation", p.byte_confirmation, false, Ghost(start), Ghost(Seq::<Seq<char>>::empty().push(m1).push(m2)));
    assert(seq![m1, m2].push(m3) =~= seq![m1, m2, m3]);
    push_bool_member(out, "plan_identity", p.plan_identity, false, Ghost(start), Ghost(Seq::<Seq<char>>::empty().push(m1).push(m2).push(m3)));
    assert(seq![m1, m2, m3].push(m4) =~= seq![m1, m2, m3, m4]);
    push_bool_member(out, "explicit_authorization", p.explicit_authorization, false, Ghost(start), Ghost(Seq::<Seq<char>>::empty().push(m1).push(m2).push(m3).push(m4)));
    assert(seq![m1, m2, m3, m4].push(m5) =~= seq![m1, m2, m3, m4, m5]);
    push_bool_member(out, "provenance", p.provenance, false, Ghost(start), Ghost(Seq::<Seq<char>>::empty().push(m1).push(m2).push(m3).push(m4).push(m5)));
    assert(seq![m1, m2, m3, m4, m5].push(m6) =~= seq![m1, m2, m3, m4, m5, m6]);
    out.push('}');
    assert(out@ =~= start + json_object(seq![m1, m2, m3, m4, m5, m6]));
}

fn push_references(out: &mut Vec<char>, items: &Vec<ImmutableArtifactReference>)
    ensures
        final(out)@ == old(out)@ + json_array(items@.map_values(|r: ImmutableArtifactReference| reference_json(r))),
{
    let ghost elems = items@.map_values(|r: ImmutableArtifactReference| reference_json(r));
    out.push('[');
    let ghost start = old(out)@;
    let mut i: usize = 0;
    while i < items.len()
        invariant
            i <= items@.len(),
            elems == items@.map_values(|r: ImmutableArtifactReference| reference_json(r)),
            out@ == start + seq!['['] + json_joined(elems.take(i as int)),
        decreases items@.len() - i,
    {
        proof {
            lemma_joined_push(elems.take(i as int), elems[i as int]);
            assert(elems.take(i + 1) =~= elems.take(i as int).push(elems[i as int]));
        }
        if i > 0 {
            out.push(',');
        }
        push_reference(out, &items[i]);
        i = i + 1;
    }
    assert(elems.take(items@.len() as int) =~= elems);
    out.push(']');
}

/// The members of an operation's identity, in order.
pub open spec fn operation_members(op: PlanOperationContribution) -> Seq<Seq<char>> {
    seq![
        json_member("operation_id"@, json_string(op.operation_id@)),
        json_member("action_kind"@, json_string(op.action_kind@)),
        json_member("input_artifacts"@, json_array(op.input_artifacts@.map_values(|r: ImmutableArtifactReference| reference_json(r)))),
        json_member("expected_output_schemas"@, json_array(op.expected_output_schemas@.map_values(|s: String| json_string(s@)))),
        json_member("preconditions"@, preconditions_json(op.preconditions)),
        json_member("mutates_source"@, json_bool(op.mutates_source)),
        json_member("requires_core_execution"@, json_bool(op.requires_core_execution)),
    ]
}

fn push_operation_head(out: &mut Vec<char>, op: &PlanOperationContribution)
    requires
        old(out)@ == seq!['{'],
    ensures
        final(out)@ == seq!['{'] + json_joined(operation_members(*op).take(3)),
{
    let ghost start = Seq::<char>::empty();
    let ghost ms = operation_members(*op);
    assert(out@ =~= start + seq!['{'] + json_joined(ms.take(0)));
    push_string_member(out, "operation_id", op.operation_id.as_str(), true, Ghost(start), Ghost(ms.take(0)));
    assert(ms.take(0).push(ms[0]) =~= ms.take(1));
    push_string_member(out, "action_kind", op.action_kind.as_str(), false, Ghost(start), Ghost(ms.take(1)));
    assert(ms.take(1).push(ms[1]) =~= ms.take(2));
    push_member_key(out, "input_artifacts", false, Ghost(start), Ghost(ms.take(2)));
    push_references(out, &op.input_artifacts);
    proof {
        lemma_member_pushed(start, ms.take(2), "input_artifacts"@, json_array(op.input_artifacts@.map_values(|r: ImmutableArtifactReference| reference_json(r))), out@);
        assert(ms.take(2).push(ms[2]) =~= ms.take(3));
    }
    assert(out@ =~= seq!['{'] + json_joined(ms.take(3)));
}

fn push_operation_tail(out: &mut Vec<char>, op: &PlanOperationContribution)
    requires
        old(out)@ == seq!['{'] + json_joined(operation_members(*op).take(3)),
    ensures
        final(out)@ == seq!['{'] + json_joined(operation_members(*op)),
{
    let ghost start = Seq::<char>::empty();
    let ghost ms = operation_members(*op);
    assert(out@ =~= start + seq!['{'] + json_joined(ms.take(3)));
    push_member_key(out, "expected_output_schemas", false, Ghost(start), Ghost(ms.take(3)));
    push_json_string_array(out, &op.expected_output_schemas);
    proof {
        lemma_member_pushed(start, ms.take(3), "expected_output_schemas"@, json_array(op.expected_output_schemas@.map_values(|s: String| json_string(s@))), out@);
        assert(ms.take(3).push(ms[3]) =~= ms.take(4));
    }
    push_member_key(out, "preconditions", false, Ghost(start), Ghost(ms.take(4)));
    push_preconditions(out, &op.preconditions);
    proof {
        lemma_member_pushed(start, ms.take(4), "preconditions"@, preconditions_json(op.preconditions), out@);
        assert(ms.take(4).push(ms[4]) =~= ms.take(5));
    }
    push_bool_member(out, "mutates_source", op.mutates_source, false, Ghost(start), Ghost(ms.take(5)));
    assert(ms.take(5).push(ms[5]) =~= ms.take(6));
    push_bool_member(out, "requires_core_execution", op.requires_core_execution, false, Ghost(start), Ghost(ms.take(6)));
    assert(ms.take(6).push(ms[6]) =~= ms);
    assert(out@ =~= seq!['{'] + json_joined(ms));
}

fn operation_identity_text(op: &PlanOperationContribution) -> (text: Vec<char>)
    ensures
        text@ == operation_identity_json(*op),
{
    let mut out: Vec<char> = Vec::new();
    out.push('{');
    assert(out@ =~= seq!['{']);
    push_operation_head(&mut out, op);
    push_operation_tail(&mut out, op);
    out.push('}');
    assert(out@ =~= json_object(operation_members(*op)));
    out
}

impl PlanOperationContribution {
    /// The fingerprint the operation should carry: the BLAKE3 digest of the
    /// canonical JSON of every field but the fingerprint.
    pub fn expected_fingerprint(&self) -> (d: Digest)
        ensures
            d.algorithm@ == "blake3-256"@,
            d.value@ == blake3_hex(vstd::utf8::encode_utf8(operation_identity_json(*self))),
    {
        let text = string_of(&operation_identity_text(self));
        Digest::blake3(text.as_str().as_bytes())
    }
}

#[derive(Debug, Clone, Copy, PartialEq, Eq, Structural)]
pub enum ValidationStatus {
    Passed,
    Warning,
    Failed,
}

#[derive(Debug, Clone, PartialEq, Eq)]
pub struct ValidationContribution {
    pub validator_id: String,
    pub validator_version: String,
    pub status: ValidationStatus,
    pub evidence: EvidenceContribution,
}

#[derive(Debug, Clone, PartialEq, Eq)]
pub struct ReportContribution {
    pub report_id: String,
    pub schema: String,
    /// The contributed JSON value, serialized.
    pub value: Vec<u8>,
    pub fingerprint: Digest,
}

#[derive(Debug, Clone, PartialEq, Eq)]
pub struct ExtensionDiagnostic {
    pub code: String,
    pub message: String,
    pub retryable: bool,
}

#[derive(Debug, Clone, PartialEq, Eq)]
pub struct ProgressEvent {
    pub sequence: u64,
    pub completed: u64,
    pub total: Option<u64>,
    pub unit: String,
    pub message: String,
}

#[derive(Debug, Clone, Copy, PartialEq, Eq, PartialOrd, Ord, Structural)]
pub enum LifecyclePhase {
    Discover,
    Inspect,
    Plan,
    Authorize,
    Execute,
    Validate,
    CommitEvidence,
}

#[derive(Debug, Clone, PartialEq, Eq)]
pub struct LifecycleEvent {
    pub event_id: String,
    pub invocation_id: String,
    pub sequence: u64,
    pub phase: LifecyclePhase,
    pub state: String,
    pub artifact_references: Vec<ImmutableArtifactReference>,
    pub diagnostics: Vec<ExtensionDiagnostic>,
}

#[derive(Debug, Clone, PartialEq, Eq)]
pub struct ExtensionProvenance {
    pub extension: ExtensionIdentity,
    pub capability_id: String,
    pub capability_version: String,
    pub configuration_fingerprint: Digest,
    pub input_fingerprints: Vec<Digest>,
    pub authorization_lock_id: String,
    pub authorization_lock_digest: Digest,
    pub grants_digest: Digest,
    pub execution_mode: String,
}

#[derive(Debug, Clone, PartialEq, Eq)]
pub struct ExtensionResultV1 {
    pub schema: String,
    pub invocation_id: String,
    pub extension: ExtensionIdentity,
    pub capability_id: String,
    pub outcome: ExtensionOutcome,
    pub coverage: ExtensionCoverage,
    pub consumed_artifacts: Vec<String>,
    pub evidence: Vec<EvidenceContribution>,
    pub policy_contributions: Vec<PolicyContribution>,
    pub plan_operations: Vec<PlanOperationContribution>,
    pub validations: Vec<ValidationContribution>,
    pub reports: Vec<ReportContribution>,
    pub diagnostics: Vec<ExtensionDiagnostic>,
    pub progress: Vec<ProgressEvent>,
    pub provenance: ExtensionProvenance,
    pub observed_effects: EffectSet,
    pub checkpoint_references: Vec<ImmutableArtifactReference>,
}


/// The serialized name of an effect.
pub open spec fn effect_name(e: ExtensionEffect) -> Seq<char> {
    match e {
        ExtensionEffect::ArtifactRead => "artifact-read"@,
        ExtensionEffect::IsolatedWorkspaceWrite => "isolated-workspace-write"@,
        ExtensionEffect::Subprocess => "subprocess"@,
        ExtensionEffect::Network => "network"@,
        ExtensionEffect::Gpu => "gpu"@,
        ExtensionEffect::SourceMutation => "source-mutation"@,
        ExtensionEffect::Destructive => "destructive"@,
        ExtensionEffect::Sign => "sign"@,
        ExtensionEffect::Publish => "publish"@,
    }
}

/// The serialized name of a trust mode.
pub open spec fn trust_name(t: TrustMode) -> Seq<char> {
    match t {
        TrustMode::TrustedEmbedded => "trusted_embedded"@,
        TrustMode::TrustedProcess => "trusted_process"@,
        TrustMode::Disabled => "disabled"@,
    }
}

/// One name if `present`, else none.
pub open spec fn name_if(present: bool, name: Seq<char>) -> Seq<Seq<char>> {
    if present { seq![name] } else { seq![] }
}

/// The names of the effects in a set, in declaration order.
pub open spec fn effect_names(s: EffectSet) -> Seq<Seq<char>> {
    name_if(s.artifact_read, "artifact-read"@)
        + name_if(s.isolated_workspace_write, "isolated-workspace-write"@)
        + name_if(s.subprocess, "subprocess"@)
        + name_if(s.network, "network"@)
        + name_if(s.gpu, "gpu"@)
        + name_if(s.source_mutation, "source-mutation"@)
        + name_if(s.destructive, "destructive"@)
        + name_if(s.sign, "sign"@)
        + name_if(s.publish, "publish"@)
}

/// A JSON array of strings.
pub open spec fn strings_json(items: Seq<Seq<char>>) -> Seq<char> {
    json_array(items.map_values(|t: Seq<char>| json_string(t)))
}

/// The decimal text of a signed integer.
pub open spec fn signed_decimal(n: int) -> Seq<char> {
    if n < 0 {
        seq!['-'] + decimal_digits((-n) as nat)
    } else {
        decimal_digits(n as nat)
    }
}

/// The canonical JSON of the fields of a lock that its grants digest covers.
pub open spec fn grant_identity_json(lock: ExtensionLockV1) -> Seq<char> {
    json_object(seq![
        json_member("enabled"@, json_bool(lock.enabled)),
        json_member("trust"@, json_string(trust_name(lock.trust))),
        json_member("granted_effects"@, strings_json(effect_names(lock.granted_effects))),
        json_member("precedence"@, signed_decimal(lock.precedence as int)),
        json_member("allowed_replacements"@, strings_json(string_views(lock.allowed_replacements@))),
        json_member("allowed_fallbacks"@, strings_json(string_views(lock.allowed_fallbacks@))),
        json_member("selected_execution_mode"@, json_string(lock.selected_execution_mode@)),
    ])
}

fn push_name_if(names: &mut Vec<String>, present: bool, name: &str)
    ensures
        string_views(final(names)@) == string_views(old(names)@) + name_if(present, name@),
{
    if present {
        names.push(owned(name));
    }
    assert(string_views(names@) =~= string_views(old(names)@) + name_if(present, name@));
}

fn effect_name_list(s: &EffectSet) -> (names: Vec<String>)
    ensures
        string_views(names@) == effect_names(*s),
{
    let mut names: Vec<String> = Vec::new();
    assert(string_views(names@) =~= Seq::<Seq<char>>::empty());
    push_name_if(&mut names, s.artifact_read, "artifact-read");
    push_name_if(&mut names, s.isolated_workspace_write, "isolated-workspace-write");
    push_name_if(&mut names, s.subprocess, "subprocess");
    push_name_if(&mut names, s.network, "network");
    push_name_if(&mut names, s.gpu, "gpu");
    push_name_if(&mut names, s.source_mutation, "source-mutation");
    push_name_if(&mut names, s.destructive, "destructive");
    push_name_if(&mut names, s.sign, "sign");
    push_name_if(&mut names, s.publish, "publish");
    assert(string_views(names@) =~= effect_names(*s));
    names
}

fn push_strings(out: &mut Vec<char>, items: &Vec<String>)
    ensures
        final(out)@ == old(out)@ + strings_json(string_views(items@)),
{
    push_json_string_array(out, items);
    assert(items@.map_values(|t: String| json_string(t@))
        =~= string_views(items@).map_values(|t: Seq<char>| json_string(t)));
}

pub(crate) fn push_signed(out: &mut Vec<char>, n: i32)
    ensures
        final(out)@ == old(out)@ + signed_decimal(n as int),
{
    if n < 0 {
        out.push('-');
        let magnitude: u64 = (0i64 - (n as i64)) as u64;
        push_decimal(out, magnitude);
        assert(final(out)@ =~= old(out)@ + signed_decimal(n as int));
    } else {
        push_decimal(out, n as u64);
    }
}

fn trust_text(t: TrustMode) -> (r: &'static str)
    ensures
        r@ == trust_name(t),
{
    match t {
        TrustMode::TrustedEmbedded => "trusted_embedded",
        TrustMode::TrustedProcess => "trusted_process",
        TrustMode::Disabled => "disabled",
    }
}

fn grant_identity_text(lock: &ExtensionLockV1) -> (text: Vec<char>)
    ensures
        text@ == grant_identity_json(*lock),
{
    let ghost start = Seq::<char>::empty();
    let ghost ms = seq![
        json_member("enabled"@, json_bool(lock.enabled)),
        json_member("trust"@, json_string(trust_name(lock.trust))),
        json_member("granted_effects"@, strings_json(effect_names(lock.granted_effects))),
        json_member("precedence"@, signed_decimal(lock.precedence as int)),
        json_member("allowed_replacements"@, strings_json(string_views(lock.allowed_replacements@))),
        json_member("allowed_fallbacks"@, strings_json(string_views(lock.allowed_fallbacks@))),
        json_member("selected_execution_mode"@, json_string(lock.selected_execution_mode@)),
    ];
    let mut out: Vec<char> = Vec::new();
    out.push('{');
    assert(out@ =~= start + seq!['{'] + json_joined(ms.take(0)));
    push_bool_member(&mut out, "enabled", lock.enabled, true, Ghost(start), Ghost(ms.take(0)));
    assert(ms.take(0).push(ms[0]) =~= ms.take(1));
    push_string_member(&mut out, "trust", trust_text(lock.trust), false, Ghost(start), Ghost(ms.take(1)));
    assert(ms.take(1).push(ms[1]) =~= ms.take(2));
    push_member_key(&mut out, "granted_effects", false, Ghost(start), Ghost(ms.take(2)));
    let names = effect_name_list(&lock.granted_effects);
    push_strings(&mut out, &names);
    proof {
        lemma_member_pushed(start, ms.take(2), "granted_effects"@, strings_json(effect_names(lock.granted_effects)), out@);
        assert(ms.take(2).push(ms[2]) =~= ms.take(3));
    }
    push_member_key(&mut out, "precedence", false, Ghost(start), Ghost(ms.take(3)));
    push_signed(&mut out, lock.precedence);
    proof {
        lemma_member_pushed(start, ms.take(3), "precedence"@, signed_decimal(lock.precedence as int), out@);
        assert(ms.take(3).push(ms[3]) =~= ms.take(4));
    }
    push_member_key(&mut out, "allowed_replacements", false, Ghost(start), Ghost(ms.take(4)));
    push_strings(&mut out, &lock.allowed_replacements);
    proof {
        lemma_member_pushed(start, ms.take(4), "allowed_replacements"@, strings_json(string_views(lock.allowed_replacements@)), out@);
        assert(ms.take(4).push(ms[4]) =~= ms.take(5));
    }
    push_member_key(&mut out, "allowed_fallbacks", false, Ghost(start), Ghost(ms.take(5)));
    push_strings(&mut out, &lock.allowed_fallbacks);
    proof {
        lemma_member_pushed(start, ms.take(5), "allowed_fallbacks"@, strings_json(string_views(lock.allowed_fallbacks@)), out@);
        assert(ms.take(5).push(ms[5]) =~= ms.take(6));
    }
    push_string_member(&mut out, "selected_execution_mode", lock.selected_execution_mode.as_str(), false, Ghost(start), Ghost(ms.take(6)));
    assert(ms.take(6).push(ms[6]) =~= ms);
    out.push('}');
    assert(out@ =~= grant_identity_json(*lock));
    out
}

impl ExtensionLockV1 {
    /// The grants digest the lock should carry: the BLAKE3 digest of the
    /// canonical JSON of its grant fields.
    pub fn expected_grants_digest(&self) -> (d: Digest)
        ensures
            d.algorithm@ == "blake3-256"@,
            d.value@ == blake3_hex(vstd::utf8::encode_utf8(grant_identity_json(*self))),
    {
        let text = string_of(&grant_identity_text(self));
        Digest::blake3(text.as_str().as_bytes())
    }
}

} // verus!
