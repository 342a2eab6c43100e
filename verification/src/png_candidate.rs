//! Contract-only preparation for future static PNG candidate evaluation.
//!
//! Nothing here reads files, decodes images or authorizes anything: the
//! checks establish whether supplied declarations, including separately
//! supplied host evidence, are consistent. Even consistent evidence needs
//! actual byte validation before a candidate could ever be accepted.

use vstd::prelude::*;
use crate::digest::{blake3_hex, blake3_hex_of};
use crate::domain::{path_bytes, path_of_bytes, EvidenceDigest, MediaProviderEvidence, NativePath, PathText};
use crate::filesystem::FilesystemIdentity;
use crate::json::{
    decimal_digits, json_bool, json_joined, json_member, json_object, json_string, lemma_member_pushed,
    push_decimal, push_json_bool, push_json_string, push_member_key,
};
use crate::media_evidence::{
    digest_json, identity_json, provider_json, push_digest_json, push_identity_object, push_path,
    push_provider_object,
};
use crate::configuration::policy::path_json;
use crate::text::{compare_strings, owned, string_of};

verus! {

pub const SCHEMA: &'static str = "optiflow.png-candidate-contract.v1";
pub const PROFILE: &'static str = "optiflow.png-idat-preserve.v1";
pub const REQUEST_DOMAIN: &'static str = "optiflow.png-candidate-request.v1";

/// A review packet, not an executable request or an accepted artifact set.
#[derive(Debug, Clone)]
pub struct CandidateContract {
    pub schema: String,
    pub request: CandidateRequest,
    pub provider_result: ProviderResult,
    pub host_evidence: Option<HostEvidence>,
}

/// Explicit future evaluation intent; it grants no filesystem permission.
#[derive(Debug, Clone)]
pub struct CandidateRequest {
    pub profile: String,
    pub source_observation_id: String,
    pub source: FileEvidence,
    pub effective_policy_fingerprint: EvidenceDigest,
    pub producer: MediaProviderEvidence,
    pub validator: MediaProviderEvidence,
    pub limits: CandidateLimits,
}

/// Full content identity, distinct from an observation fingerprint.
#[derive(Debug, Clone, PartialEq, Eq)]
pub struct ContentIdentity {
    pub digest: EvidenceDigest,
    pub logical_bytes: u64,
}

/// A claimed regular-file observation.
#[derive(Debug, Clone, PartialEq, Eq)]
pub struct FileEvidence {
    pub path: NativePath,
    pub filesystem_identity: FilesystemIdentity,
    pub observation_fingerprint: EvidenceDigest,
    pub content: ContentIdentity,
    pub regular_file: bool,
    pub symlink: bool,
}

#[derive(Debug, Clone, Copy, PartialEq, Eq, Structural)]
pub struct CandidateLimits {
    pub input_bytes: u64,
    pub candidate_bytes: u64,
    pub decoded_bytes: u64,
    pub temporary_bytes: u64,
    pub memory_bytes: u64,
    pub elapsed_ms: u64,
}

/// Untrusted provider claims.
#[derive(Debug, Clone)]
pub struct ProviderResult {
    pub request_fingerprint: EvidenceDigest,
    pub producer: MediaProviderEvidence,
    pub status: ProviderStatus,
    pub candidate: Option<ContentIdentity>,
}

#[derive(Debug, Clone, Copy, PartialEq, Eq, Structural)]
pub enum ProviderStatus {
    Succeeded,
    Failed,
    TimedOut,
    Cancelled,
}

/// Separate host observations, never copied from provider output.
#[derive(Debug, Clone)]
pub struct HostEvidence {
    pub request_fingerprint: EvidenceDigest,
    pub source_before: FileEvidence,
    pub source_after: FileEvidence,
    pub candidate: FileEvidence,
    pub producer_before: MediaProviderEvidence,
    pub producer_after: MediaProviderEvidence,
    pub validator_before: MediaProviderEvidence,
    pub validator_after: MediaProviderEvidence,
    pub source_png: PngFacts,
    pub candidate_png: PngFacts,
    pub checks: Vec<ValidationCheck>,
    pub resource_usage: ResourceUsage,
}

/// Facts about one PNG image.
#[derive(Debug, Clone, PartialEq, Eq)]
pub struct PngFacts {
    pub width: u32,
    pub height: u32,
    pub bit_depth: u8,
    pub color_type: u8,
    pub frames: u32,
    pub complete_decode: bool,
    pub animation_chunks: bool,
    pub unknown_unsafe_to_copy_chunks: bool,
    pub decoded_bytes: u64,
    pub ihdr_digest: EvidenceDigest,
    pub decoded_samples_digest: EvidenceDigest,
    pub non_idat_chunks_digest: EvidenceDigest,
}

#[derive(Debug, Clone, Copy, PartialEq, Eq, PartialOrd, Ord, Structural)]
pub enum CheckKind {
    SourceStable,
    CompleteDecode,
    Dimensions,
    FrameCount,
    DecodedSamples,
    AlphaPreserved,
    ColorPreserved,
    MetadataPreserved,
}

#[derive(Debug, Clone, Copy, PartialEq, Eq, Structural)]
pub enum CheckStatus {
    Passed,
    Failed,
    Unsupported,
    NotRun,
}

#[derive(Debug, Clone, Copy, PartialEq, Eq, Structural)]
pub struct ValidationCheck {
    pub kind: CheckKind,
    pub status: CheckStatus,
}

#[derive(Debug, Clone, Copy, PartialEq, Eq, Structural)]
pub struct ResourceUsage {
    pub peak_temporary_bytes: u64,
    pub peak_memory_bytes: u64,
    pub elapsed_ms: u64,
}

/// The only success: consistency for review, with the reported reduction.
#[derive(Debug, PartialEq, Eq, Structural)]
pub struct ConsistentForReview {
    pub reported_encoded_byte_reduction: u64,
}

/// Stable, content-free refusal reasons.
#[derive(Debug, Clone, Copy, PartialEq, Eq, Structural)]
pub enum ContractRefusal {
    InvalidShape,
    InvalidPath,
    RequestMismatch,
    ProviderUnsuccessful,
    MissingHostEvidence,
    ProviderIdentityMismatch,
    SourceChanged,
    CandidateMismatch,
    SourceAlias,
    UnsupportedPng,
    PreservationMismatch,
    ValidationIncomplete,
    LimitExceeded,
    NotSmaller,
}

pub open spec fn digest_eq(a: EvidenceDigest, b: EvidenceDigest) -> bool {
    a.algorithm@ == b.algorithm@ && a.value@ == b.value@
}

pub open spec fn identity_eq(a: FilesystemIdentity, b: FilesystemIdentity) -> bool {
    &&& a.platform@ == b.platform@
    &&& a.filesystem_id@ == b.filesystem_id@
    &&& a.file_id@ == b.file_id@
    &&& a.link_count == b.link_count
}

pub open spec fn content_eq(a: ContentIdentity, b: ContentIdentity) -> bool {
    digest_eq(a.digest, b.digest) && a.logical_bytes == b.logical_bytes
}

pub open spec fn file_evidence_eq(a: FileEvidence, b: FileEvidence) -> bool {
    &&& a.path@ == b.path@
    &&& identity_eq(a.filesystem_identity, b.filesystem_identity)
    &&& digest_eq(a.observation_fingerprint, b.observation_fingerprint)
    &&& content_eq(a.content, b.content)
    &&& a.regular_file == b.regular_file
    &&& a.symlink == b.symlink
}

pub open spec fn provider_eq(a: MediaProviderEvidence, b: MediaProviderEvidence) -> bool {
    &&& a.name@ == b.name@
    &&& a.version@ == b.version@
    &&& a.executable@ == b.executable@
    &&& digest_eq(a.binary_digest, b.binary_digest)
    &&& digest_eq(a.invocation_fingerprint, b.invocation_fingerprint)
}

pub open spec fn facts_eq(a: PngFacts, b: PngFacts) -> bool {
    &&& a.width == b.width
    &&& a.height == b.height
    &&& a.bit_depth == b.bit_depth
    &&& a.color_type == b.color_type
    &&& a.frames == b.frames
    &&& a.complete_decode == b.complete_decode
    &&& a.animation_chunks == b.animation_chunks
    &&& a.unknown_unsafe_to_copy_chunks == b.unknown_unsafe_to_copy_chunks
    &&& a.decoded_bytes == b.decoded_bytes
    &&& digest_eq(a.ihdr_digest, b.ihdr_digest)
    &&& digest_eq(a.decoded_samples_digest, b.decoded_samples_digest)
    &&& digest_eq(a.non_idat_chunks_digest, b.non_idat_chunks_digest)
}

fn same_text(a: &String, b: &String) -> (r: bool)
    ensures
        r == (a@ == b@),
{
    compare_strings(a.as_str(), b.as_str()) == 0
}

fn same_digest(a: &EvidenceDigest, b: &EvidenceDigest) -> (r: bool)
    ensures
        r == digest_eq(*a, *b),
{
    same_text(&a.algorithm, &b.algorithm) && same_text(&a.value, &b.value)
}

fn same_identity(a: &FilesystemIdentity, b: &FilesystemIdentity) -> (r: bool)
    ensures
        r == identity_eq(*a, *b),
{
    same_text(&a.platform, &b.platform) && same_text(&a.filesystem_id, &b.filesystem_id)
        && same_text(&a.file_id, &b.file_id) && a.link_count == b.link_count
}

fn same_content(a: &ContentIdentity, b: &ContentIdentity) -> (r: bool)
    ensures
        r == content_eq(*a, *b),
{
    same_digest(&a.digest, &b.digest) && a.logical_bytes == b.logical_bytes
}

fn same_file(a: &FileEvidence, b: &FileEvidence) -> (r: bool)
    ensures
        r == file_evidence_eq(*a, *b),
{
    a.path.same(&b.path) && same_identity(&a.filesystem_identity, &b.filesystem_identity)
        && same_digest(&a.observation_fingerprint, &b.observation_fingerprint)
        && same_content(&a.content, &b.content) && a.regular_file == b.regular_file
        && a.symlink == b.symlink
}

fn same_provider(a: &MediaProviderEvidence, b: &MediaProviderEvidence) -> (r: bool)
    ensures
        r == provider_eq(*a, *b),
{
    same_text(&a.name, &b.name) && same_text(&a.version, &b.version) && a.executable.same(&b.executable)
        && same_digest(&a.binary_digest, &b.binary_digest)
        && same_digest(&a.invocation_fingerprint, &b.invocation_fingerprint)
}

fn same_facts(a: &PngFacts, b: &PngFacts) -> (r: bool)
    ensures
        r == facts_eq(*a, *b),
{
    a.width == b.width && a.height == b.height && a.bit_depth == b.bit_depth && a.color_type == b.color_type
        && a.frames == b.frames && a.complete_decode == b.complete_decode
        && a.animation_chunks == b.animation_chunks
        && a.unknown_unsafe_to_copy_chunks == b.unknown_unsafe_to_copy_chunks
        && a.decoded_bytes == b.decoded_bytes && same_digest(&a.ihdr_digest, &b.ihdr_digest)
        && same_digest(&a.decoded_samples_digest, &b.decoded_samples_digest)
        && same_digest(&a.non_idat_chunks_digest, &b.non_idat_chunks_digest)
}

/// The canonical JSON of a content identity.
pub open spec fn content_json(c: ContentIdentity) -> Seq<char> {
    json_object(seq![
        json_member("digest"@, digest_json(c.digest)),
        json_member("logical_bytes"@, decimal_digits(c.logical_bytes as nat)),
    ])
}

/// The canonical JSON of a file observation claim.
pub open spec fn file_evidence_json(f: FileEvidence) -> Seq<char> {
    json_object(seq![
        json_member("path"@, path_json(f.path@)),
        json_member("filesystem_identity"@, identity_json(Some(f.filesystem_identity))),
        json_member("observation_fingerprint"@, digest_json(f.observation_fingerprint)),
        json_member("content"@, content_json(f.content)),
        json_member("regular_file"@, json_bool(f.regular_file)),
        json_member("symlink"@, json_bool(f.symlink)),
    ])
}

/// The canonical JSON of a request's limits.
pub open spec fn limits_json(l: CandidateLimits) -> Seq<char> {
    json_object(seq![
        json_member("input_bytes"@, decimal_digits(l.input_bytes as nat)),
        json_member("candidate_bytes"@, decimal_digits(l.candidate_bytes as nat)),
        json_member("decoded_bytes"@, decimal_digits(l.decoded_bytes as nat)),
        json_member("temporary_bytes"@, decimal_digits(l.temporary_bytes as nat)),
        json_member("memory_bytes"@, decimal_digits(l.memory_bytes as nat)),
        json_member("elapsed_ms"@, decimal_digits(l.elapsed_ms as nat)),
    ])
}

/// The canonical JSON of a request: its members in declaration order.
pub open spec fn request_json(r: CandidateRequest) -> Seq<char> {
    json_object(seq![
        json_member("profile"@, json_string(r.profile@)),
        json_member("source_observation_id"@, json_string(r.source_observation_id@)),
        json_member("source"@, file_evidence_json(r.source)),
        json_member("effective_policy_fingerprint"@, digest_json(r.effective_policy_fingerprint)),
        json_member("producer"@, provider_json(Some(r.producer))),
        json_member("validator"@, provider_json(Some(r.validator))),
        json_member("limits"@, limits_json(r.limits)),
    ])
}

#[verifier::spinoff_prover]
fn push_content_json(out: &mut Vec<char>, c: &ContentIdentity)
    ensures
        final(out)@ == old(out)@ + content_json(*c),
{
    let ghost start = out@;
    out.push('{');
    let ghost mut done: Seq<Seq<char>> = seq![];
    assert(out@ =~= start + seq!['{'] + json_joined(done));
    push_member_key(out, "digest", true, Ghost(start), Ghost(done));
    push_digest_json(out, &c.digest);
    proof { lemma_member_pushed(start, done, "digest"@, digest_json(c.digest), out@); done = done.push(json_member("digest"@, digest_json(c.digest))); }
    push_member_key(out, "logical_bytes", false, Ghost(start), Ghost(done));
    push_decimal(out, c.logical_bytes);
    proof { lemma_member_pushed(start, done, "logical_bytes"@, decimal_digits(c.logical_bytes as nat), out@); done = done.push(json_member("logical_bytes"@, decimal_digits(c.logical_bytes as nat))); }
    out.push('}');
    assert(done =~= seq![json_member("digest"@, digest_json(c.digest)), json_member("logical_bytes"@, decimal_digits(c.logical_bytes as nat))]);
    assert(out@ =~= start + content_json(*c));
}

#[verifier::spinoff_prover]
fn push_file_evidence_json(out: &mut Vec<char>, f: &FileEvidence)
    ensures
        final(out)@ == old(out)@ + file_evidence_json(*f),
{
    let ghost start = out@;
    out.push('{');
    let ghost mut done: Seq<Seq<char>> = seq![];
    assert(out@ =~= start + seq!['{'] + json_joined(done));
    push_member_key(out, "path", true, Ghost(start), Ghost(done));
    push_path(out, &f.path);
    proof { lemma_member_pushed(start, done, "path"@, path_json(f.path@), out@); done = done.push(json_member("path"@, path_json(f.path@))); }
    push_member_key(out, "filesystem_identity", false, Ghost(start), Ghost(done));
    push_identity_object(out, &f.filesystem_identity);
    proof { lemma_member_pushed(start, done, "filesystem_identity"@, identity_json(Some(f.filesystem_identity)), out@); done = done.push(json_member("filesystem_identity"@, identity_json(Some(f.filesystem_identity)))); }
    push_member_key(out, "observation_fingerprint", false, Ghost(start), Ghost(done));
    push_digest_json(out, &f.observation_fingerprint);
    proof { lemma_member_pushed(start, done, "observation_fingerprint"@, digest_json(f.observation_fingerprint), out@); done = done.push(json_member("observation_fingerprint"@, digest_json(f.observation_fingerprint))); }
    push_member_key(out, "content", false, Ghost(start), Ghost(done));
    push_content_json(out, &f.content);
    proof { lemma_member_pushed(start, done, "content"@, content_json(f.content), out@); done = done.push(json_member("content"@, content_json(f.content))); }
    push_member_key(out, "regular_file", false, Ghost(start), Ghost(done));
    push_json_bool(out, f.regular_file);
    proof { lemma_member_pushed(start, done, "regular_file"@, json_bool(f.regular_file), out@); done = done.push(json_member("regular_file"@, json_bool(f.regular_file))); }
    push_member_key(out, "symlink", false, Ghost(start), Ghost(done));
    push_json_bool(out, f.symlink);
    proof { lemma_member_pushed(start, done, "symlink"@, json_bool(f.symlink), out@); done = done.push(json_member("symlink"@, json_bool(f.symlink))); }
    out.push('}');
    assert(done =~= seq![json_member("path"@, path_json(f.path@)), json_member("filesystem_identity"@, identity_json(Some(f.filesystem_identity))), json_member("observation_fingerprint"@, digest_json(f.observation_fingerprint)), json_member("content"@, content_json(f.content)), json_member("regular_file"@, json_bool(f.regular_file)), json_member("symlink"@, json_bool(f.symlink))]);
    assert(out@ =~= start + file_evidence_json(*f));
}

#[verifier::spinoff_prover]
fn push_limits_json(out: &mut Vec<char>, l: &CandidateLimits)
    ensures
        final(out)@ == old(out)@ + limits_json(*l),
{
    let ghost start = out@;
    out.push('{');
    let ghost mut done: Seq<Seq<char>> = seq![];
    assert(out@ =~= start + seq!['{'] + json_joined(done));
    push_member_key(out, "input_bytes", true, Ghost(start), Ghost(done));
    push_decimal(out, l.input_bytes);
    proof { lemma_member_pushed(start, done, "input_bytes"@, decimal_digits(l.input_bytes as nat), out@); done = done.push(json_member("input_bytes"@, decimal_digits(l.input_bytes as nat))); }
    push_member_key(out, "candidate_bytes", false, Ghost(start), Ghost(done));
    push_decimal(out, l.candidate_bytes);
    proof { lemma_member_pushed(start, done, "candidate_bytes"@, decimal_digits(l.candidate_bytes as nat), out@); done = done.push(json_member("candidate_bytes"@, decimal_digits(l.candidate_bytes as nat))); }
    push_member_key(out, "decoded_bytes", false, Ghost(start), Ghost(done));
    push_decimal(out, l.decoded_bytes);
    proof { lemma_member_pushed(start, done, "decoded_bytes"@, decimal_digits(l.decoded_bytes as nat), out@); done = done.push(json_member("decoded_bytes"@, decimal_digits(l.decoded_bytes as nat))); }
    push_member_key(out, "temporary_bytes", false, Ghost(start), Ghost(done));
    push_decimal(out, l.temporary_bytes);
    proof { lemma_member_pushed(start, done, "temporary_bytes"@, decimal_digits(l.temporary_bytes as nat), out@); done = done.push(json_member("temporary_bytes"@, decimal_digits(l.temporary_bytes as nat))); }
    push_member_key(out, "memory_bytes", false, Ghost(start), Ghost(done));
    push_decimal(out, l.memory_bytes);
    proof { lemma_member_pushed(start, done, "memory_bytes"@, decimal_digits(l.memory_bytes as nat), out@); done = done.push(json_member("memory_bytes"@, decimal_digits(l.memory_bytes as nat))); }
    push_member_key(out, "elapsed_ms", false, Ghost(start), Ghost(done));
    push_decimal(out, l.elapsed_ms);
    proof { lemma_member_pushed(start, done, "elapsed_ms"@, decimal_digits(l.elapsed_ms as nat), out@); done = done.push(json_member("elapsed_ms"@, decimal_digits(l.elapsed_ms as nat))); }
    out.push('}');
    assert(done =~= seq![json_member("input_bytes"@, decimal_digits(l.input_bytes as nat)), json_member("candidate_bytes"@, decimal_digits(l.candidate_bytes as nat)), json_member("decoded_bytes"@, decimal_digits(l.decoded_bytes as nat)), json_member("temporary_bytes"@, decimal_digits(l.temporary_bytes as nat)), json_member("memory_bytes"@, decimal_digits(l.memory_bytes as nat)), json_member("elapsed_ms"@, decimal_digits(l.elapsed_ms as nat))]);
    assert(out@ =~= start + limits_json(*l));
}

#[verifier::spinoff_prover]
fn push_request_json(out: &mut Vec<char>, r: &CandidateRequest)
    ensures
        final(out)@ == old(out)@ + request_json(*r),
{
    let ghost start = out@;
    out.push('{');
    let ghost mut done: Seq<Seq<char>> = seq![];
    assert(out@ =~= start + seq!['{'] + json_joined(done));
    push_member_key(out, "profile", true, Ghost(start), Ghost(done));
    push_json_string(out, r.profile.as_str());
    proof { lemma_member_pushed(start, done, "profile"@, json_string(r.profile@), out@); done = done.push(json_member("profile"@, json_string(r.profile@))); }
    push_member_key(out, "source_observation_id", false, Ghost(start), Ghost(done));
    push_json_string(out, r.source_observation_id.as_str());
    proof { lemma_member_pushed(start, done, "source_observation_id"@, json_string(r.source_observation_id@), out@); done = done.push(json_member("source_observation_id"@, json_string(r.source_observation_id@))); }
    push_member_key(out, "source", false, Ghost(start), Ghost(done));
    push_file_evidence_json(out, &r.source);
    proof { lemma_member_pushed(start, done, "source"@, file_evidence_json(r.source), out@); done = done.push(json_member("source"@, file_evidence_json(r.source))); }
    push_member_key(out, "effective_policy_fingerprint", false, Ghost(start), Ghost(done));
    push_digest_json(out, &r.effective_policy_fingerprint);
    proof { lemma_member_pushed(start, done, "effective_policy_fingerprint"@, digest_json(r.effective_policy_fingerprint), out@); done = done.push(json_member("effective_policy_fingerprint"@, digest_json(r.effective_policy_fingerprint))); }
    push_member_key(out, "producer", false, Ghost(start), Ghost(done));
    push_provider_object(out, &r.producer);
    proof { lemma_member_pushed(start, done, "producer"@, provider_json(Some(r.producer)), out@); done = done.push(json_member("producer"@, provider_json(Some(r.producer)))); }
    push_member_key(out, "validator", false, Ghost(start), Ghost(done));
    push_provider_object(out, &r.validator);
    proof { lemma_member_pushed(start, done, "validator"@, provider_json(Some(r.validator)), out@); done = done.push(json_member("validator"@, provider_json(Some(r.validator)))); }
    push_member_key(out, "limits", false, Ghost(start), Ghost(done));
    push_limits_json(out, &r.limits);
    proof { lemma_member_pushed(start, done, "limits"@, limits_json(r.limits), out@); done = done.push(json_member("limits"@, limits_json(r.limits))); }
    out.push('}');
    assert(done =~= seq![json_member("profile"@, json_string(r.profile@)), json_member("source_observation_id"@, json_string(r.source_observation_id@)), json_member("source"@, file_evidence_json(r.source)), json_member("effective_policy_fingerprint"@, digest_json(r.effective_policy_fingerprint)), json_member("producer"@, provider_json(Some(r.producer))), json_member("validator"@, provider_json(Some(r.validator))), json_member("limits"@, limits_json(r.limits))]);
    assert(out@ =~= start + request_json(*r));
}

/// The bytes a request fingerprint covers: the domain separator, a NUL, and
/// the request's canonical JSON.
pub open spec fn request_fingerprint_input(request_json: Seq<u8>) -> Seq<u8> {
    vstd::utf8::encode_utf8(REQUEST_DOMAIN@) + seq![0u8] + request_json
}

/// The fingerprint value of a request.
pub open spec fn request_fingerprint_value(r: CandidateRequest) -> Seq<char> {
    blake3_hex(request_fingerprint_input(vstd::utf8::encode_utf8(request_json(r))))
}

fn framed_fingerprint(request_json: &[u8]) -> (d: EvidenceDigest)
    ensures
        d.algorithm@ == "blake3-256"@,
        d.value@ == blake3_hex(request_fingerprint_input(request_json@)),
{
    let mut bytes = vstd::slice::slice_to_vec(REQUEST_DOMAIN.as_bytes());
    bytes.push(0u8);
    let mut i: usize = 0;
    let ghost prefix = bytes@;
    while i < request_json.len()
        invariant
            i <= request_json@.len(),
            bytes@ == prefix + request_json@.take(i as int),
        decreases request_json@.len() - i,
    {
        bytes.push(request_json[i]);
        i = i + 1;
        assert(bytes@ =~= prefix + request_json@.take(i as int));
    }
    assert(request_json@.take(request_json@.len() as int) =~= request_json@);
    assert(bytes@ =~= request_fingerprint_input(request_json@));
    EvidenceDigest { algorithm: owned("blake3-256"), value: blake3_hex_of(bytes.as_slice()) }
}

/// The fingerprint of a request: the digest of the domain separator, a NUL
/// and the request's canonical JSON.
pub fn request_fingerprint(request: &CandidateRequest) -> (d: EvidenceDigest)
    ensures
        d.algorithm@ == "blake3-256"@,
        d.value@ == request_fingerprint_value(*request),
{
    let mut text: Vec<char> = Vec::new();
    push_request_json(&mut text, request);
    let s = string_of(&text);
    framed_fingerprint(s.as_str().as_bytes())
}

/// The statement of the first profile: 8-bit RGB or RGBA, static, fully
/// decoded, with exactly width times height times channels decoded bytes.
pub open spec fn spec_supported_png(f: PngFacts) -> bool {
    &&& (f.color_type == 2 || f.color_type == 6)
    &&& f.complete_decode
    &&& !f.animation_chunks
    &&& !f.unknown_unsafe_to_copy_chunks
    &&& f.frames == 1
    &&& f.bit_depth == 8
    &&& f.width * f.height * (if f.color_type == 2 { 3int } else { 4int }) == f.decoded_bytes
}

/// Whether the facts describe a PNG the first profile supports.
pub fn supported_png(facts: &PngFacts) -> (r: bool)
    ensures
        r == spec_supported_png(*facts),
{
    let channels: u64 = if facts.color_type == 2 {
        3
    } else if facts.color_type == 6 {
        4
    } else {
        return false;
    };
    let expected = match (facts.width as u64).checked_mul(facts.height as u64) {
        Some(pixels) => pixels.checked_mul(channels),
        None => None,
    };
    proof {
        let w = facts.width as int;
        let h = facts.height as int;
        assert(w * h <= 0xffff_ffff * 0xffff_ffff) by (nonlinear_arith)
            requires
                0 <= w <= 0xffff_ffff,
                0 <= h <= 0xffff_ffff,
        ;
        assert(0 <= w * h) by (nonlinear_arith)
            requires
                0 <= w,
                0 <= h,
        ;
    }
    facts.complete_decode && !facts.animation_chunks && !facts.unknown_unsafe_to_copy_chunks && facts.frames == 1
        && facts.bit_depth == 8 && match expected {
        Some(v) => v == facts.decoded_bytes,
        None => false,
    }
}

/// A canonical absolute Unix path: rooted, no NUL byte, no empty, `.` or
/// `..` component and no trailing separator — exactly the paths that
/// rebuilding from their components leaves unchanged and that contain no
/// parent reference.
pub open spec fn canonical_path_bytes(b: Seq<u8>) -> bool {
    &&& b.len() >= 1
    &&& b[0] == 47u8
    &&& forall|i: int| 0 <= i < b.len() ==> #[trigger] b[i] != 0u8
    &&& forall|i: int| 1 <= i < b.len() && #[trigger] b[i] == 47u8 ==> b[i - 1] != 47u8
    &&& b.len() > 1 ==> b[b.len() - 1] != 47u8
    &&& forall|i: int| 0 <= i < b.len() - 1 && #[trigger] b[i] == 47u8 && b[i + 1] == 46u8 ==>
        !(i + 2 == b.len() || b[i + 2] == 47u8)
    &&& forall|i: int| 0 <= i < b.len() - 2 && #[trigger] b[i] == 47u8 && b[i + 1] == 46u8 && b[i + 2] == 46u8 ==>
        !(i + 3 == b.len() || b[i + 3] == 47u8)
}

/// A path whose recorded form is the canonical encoding of canonical,
/// absolute path bytes.
pub open spec fn spec_canonical_absolute_path(p: PathText) -> bool {
    path_of_bytes(path_bytes(p)) == p && canonical_path_bytes(path_bytes(p))
}

fn canonical_bytes(b: &Vec<u8>) -> (r: bool)
    ensures
        r == canonical_path_bytes(b@),
{
    let n = b.len();
    if n == 0 || b[0] != 47 {
        return false;
    }
    if n > 1 && b[n - 1] == 47 {
        return false;
    }
    let mut i: usize = 0;
    while i < n
        invariant
            n == b@.len(),
            n >= 1,
            b@[0] == 47u8,
            n > 1 ==> b@[n - 1] != 47u8,
            i <= n,
            forall|k: int| 0 <= k < i ==> #[trigger] b@[k] != 0u8,
            forall|k: int| 1 <= k < i && #[trigger] b@[k] == 47u8 ==> b@[k - 1] != 47u8,
            forall|k: int| 0 <= k < i && k < n - 1 && #[trigger] b@[k] == 47u8 && b@[k + 1] == 46u8 ==>
                !(k + 2 == n || b@[k + 2] == 47u8),
            forall|k: int| 0 <= k < i && k < n - 2 && #[trigger] b@[k] == 47u8 && b@[k + 1] == 46u8 && b@[k + 2] == 46u8 ==>
                !(k + 3 == n || b@[k + 3] == 47u8),
        decreases n - i,
    {
        let c = b[i];
        if c == 0 {
            return false;
        }
        if c == 47 {
            if i >= 1 && b[i - 1] == 47 {
                return false;
            }
            if i + 1 < n && b[i + 1] == 46 {
                if i + 2 == n || b[i + 2] == 47 {
                    return false;
                }
                if b[i + 2] == 46 && (i + 3 == n || b[i + 3] == 47) {
                    return false;
                }
            }
        }
        i = i + 1;
    }
    true
}

/// Whether a recorded path is a canonical absolute path.
pub fn canonical_absolute_path(path: &NativePath) -> (r: bool)
    ensures
        r == spec_canonical_absolute_path(path@),
{
    let decoded = path.to_path_buf();
    if !NativePath::from_path(decoded.as_slice()).same(path) {
        return false;
    }
    canonical_bytes(&decoded)
}

/// Whether a check of kind `k` was reported.
pub open spec fn check_present(checks: Seq<ValidationCheck>, k: CheckKind) -> bool {
    exists|i: int| 0 <= i < checks.len() && (#[trigger] checks[i]).kind == k
}

/// Whether every required check is present exactly once and passed.
pub open spec fn checks_complete(checks: Seq<ValidationCheck>) -> bool {
    &&& checks.len() == 8
    &&& forall|k: CheckKind| #[trigger] check_present(checks, k)
    &&& forall|i: int| 0 <= i < checks.len() ==> (#[trigger] checks[i]).status == CheckStatus::Passed
}

fn has_check(checks: &Vec<ValidationCheck>, kind: CheckKind) -> (r: bool)
    ensures
        r == exists|i: int| 0 <= i < checks@.len() && (#[trigger] checks@[i]).kind == kind,
{
    let mut i: usize = 0;
    while i < checks.len()
        invariant
            i <= checks@.len(),
            forall|k: int| 0 <= k < i ==> (#[trigger] checks@[k]).kind != kind,
        decreases checks@.len() - i,
    {
        if checks[i].kind == kind {
            return true;
        }
        i = i + 1;
    }
    false
}

fn all_passed(checks: &Vec<ValidationCheck>) -> (r: bool)
    ensures
        r == forall|i: int| 0 <= i < checks@.len() ==> (#[trigger] checks@[i]).status == CheckStatus::Passed,
{
    let mut i: usize = 0;
    while i < checks.len()
        invariant
            i <= checks@.len(),
            forall|k: int| 0 <= k < i ==> (#[trigger] checks@[k]).status == CheckStatus::Passed,
        decreases checks@.len() - i,
    {
        if checks[i].status != CheckStatus::Passed {
            return false;
        }
        i = i + 1;
    }
    true
}

fn checks_are_complete(checks: &Vec<ValidationCheck>) -> (r: bool)
    ensures
        r == checks_complete(checks@),
{
    if checks.len() != 8 {
        return false;
    }
    let all = has_check(checks, CheckKind::SourceStable) && has_check(checks, CheckKind::CompleteDecode)
        && has_check(checks, CheckKind::Dimensions) && has_check(checks, CheckKind::FrameCount)
        && has_check(checks, CheckKind::DecodedSamples) && has_check(checks, CheckKind::AlphaPreserved)
        && has_check(checks, CheckKind::ColorPreserved) && has_check(checks, CheckKind::MetadataPreserved);
    proof {
        if !all {
            assert(!check_present(checks@, CheckKind::SourceStable) || !check_present(checks@, CheckKind::CompleteDecode)
                || !check_present(checks@, CheckKind::Dimensions) || !check_present(checks@, CheckKind::FrameCount)
                || !check_present(checks@, CheckKind::DecodedSamples) || !check_present(checks@, CheckKind::AlphaPreserved)
                || !check_present(checks@, CheckKind::ColorPreserved) || !check_present(checks@, CheckKind::MetadataPreserved));
        }
        if all {
            assert forall|k: CheckKind| #[trigger] check_present(checks@, k) by {
                match k {
                    CheckKind::SourceStable => {},
                    CheckKind::CompleteDecode => {},
                    CheckKind::Dimensions => {},
                    CheckKind::FrameCount => {},
                    CheckKind::DecodedSamples => {},
                    CheckKind::AlphaPreserved => {},
                    CheckKind::ColorPreserved => {},
                    CheckKind::MetadataPreserved => {},
                }
            }
        }
    }
    all && all_passed(checks)
}

/// Whether a digest is the BLAKE3-256 digest with hex value `value`.
pub open spec fn fingerprint_is(d: EvidenceDigest, value: Seq<char>) -> bool {
    d.algorithm@ == "blake3-256"@ && d.value@ == value
}

/// Whether the limits of a request cover what the host reported.
pub open spec fn within_limits(request: CandidateRequest, host: HostEvidence) -> bool {
    let limits = request.limits;
    let source_bytes = request.source.content.logical_bytes;
    let candidate_bytes = host.candidate.content.logical_bytes;
    &&& source_bytes <= limits.input_bytes
    &&& candidate_bytes <= limits.candidate_bytes
    &&& host.source_png.decoded_bytes <= limits.decoded_bytes
    &&& candidate_bytes <= limits.temporary_bytes
    &&& host.resource_usage.peak_temporary_bytes >= candidate_bytes
    &&& host.resource_usage.peak_temporary_bytes <= limits.temporary_bytes
    &&& host.resource_usage.peak_memory_bytes <= limits.memory_bytes
    &&& host.resource_usage.elapsed_ms <= limits.elapsed_ms
}

/// The refusal of a packet, checked in order, given whether its shape is
/// valid and the fingerprint of its request; none when consistent.
pub open spec fn candidate_refusal(packet: CandidateContract, shape_valid: bool, fingerprint: Seq<char>) -> Option<ContractRefusal> {
    let request = packet.request;
    let result = packet.provider_result;
    if !shape_valid {
        Some(ContractRefusal::InvalidShape)
    } else if !fingerprint_is(result.request_fingerprint, fingerprint) {
        Some(ContractRefusal::RequestMismatch)
    } else if result.status != ProviderStatus::Succeeded {
        Some(ContractRefusal::ProviderUnsuccessful)
    } else {
        match packet.host_evidence {
            None => Some(ContractRefusal::MissingHostEvidence),
            Some(host) => if !fingerprint_is(host.request_fingerprint, fingerprint) {
                Some(ContractRefusal::RequestMismatch)
            } else if !spec_canonical_absolute_path(request.source.path@)
                || !spec_canonical_absolute_path(request.producer.executable@)
                || !spec_canonical_absolute_path(request.validator.executable@)
                || !spec_canonical_absolute_path(host.candidate.path@) {
                Some(ContractRefusal::InvalidPath)
            } else if !provider_eq(result.producer, request.producer) || !provider_eq(host.producer_before, request.producer)
                || !provider_eq(host.producer_after, request.producer)
                || !provider_eq(host.validator_before, request.validator)
                || !provider_eq(host.validator_after, request.validator) {
                Some(ContractRefusal::ProviderIdentityMismatch)
            } else if !file_evidence_eq(host.source_before, request.source) || !file_evidence_eq(host.source_after, request.source) {
                Some(ContractRefusal::SourceChanged)
            } else if !(result.candidate matches Some(c) && content_eq(c, host.candidate.content)) {
                Some(ContractRefusal::CandidateMismatch)
            } else if path_bytes(host.candidate.path@) == path_bytes(request.source.path@)
                || host.candidate.filesystem_identity.platform@ != request.source.filesystem_identity.platform@
                || (host.candidate.filesystem_identity.filesystem_id@ == request.source.filesystem_identity.filesystem_id@
                    && host.candidate.filesystem_identity.file_id@ == request.source.filesystem_identity.file_id@) {
                Some(ContractRefusal::SourceAlias)
            } else if !checks_complete(host.checks@) {
                Some(ContractRefusal::ValidationIncomplete)
            } else if !spec_supported_png(host.source_png) || !spec_supported_png(host.candidate_png) {
                Some(ContractRefusal::UnsupportedPng)
            } else if !facts_eq(host.source_png, host.candidate_png) {
                Some(ContractRefusal::PreservationMismatch)
            } else if !within_limits(request, host) {
                Some(ContractRefusal::LimitExceeded)
            } else if host.candidate.content.logical_bytes >= request.source.content.logical_bytes {
                Some(ContractRefusal::NotSmaller)
            } else if digest_eq(host.candidate.content.digest, request.source.content.digest) {
                Some(ContractRefusal::CandidateMismatch)
            } else {
                None
            },
        }
    }
}

fn same_bytes(a: &Vec<u8>, b: &Vec<u8>) -> (r: bool)
    ensures
        r == (a@ == b@),
{
    if a.len() != b.len() {
        return false;
    }
    let mut i: usize = 0;
    while i < a.len()
        invariant
            a@.len() == b@.len(),
            i <= a@.len(),
            forall|k: int| 0 <= k < i ==> a@[k] == b@[k],
        decreases a@.len() - i,
    {
        if a[i] != b[i] {
            return false;
        }
        i = i + 1;
    }
    assert(a@ =~= b@);
    true
}

fn same_fingerprint(d: &EvidenceDigest, fingerprint: &EvidenceDigest) -> (r: bool)
    requires
        fingerprint.algorithm@ == "blake3-256"@,
    ensures
        r == fingerprint_is(*d, fingerprint.value@),
{
    same_digest(d, fingerprint)
}

fn paths_valid(request: &CandidateRequest, host: &HostEvidence) -> (r: bool)
    ensures
        r == (spec_canonical_absolute_path(request.source.path@)
            && spec_canonical_absolute_path(request.producer.executable@)
            && spec_canonical_absolute_path(request.validator.executable@)
            && spec_canonical_absolute_path(host.candidate.path@)),
{
    canonical_absolute_path(&request.source.path) && canonical_absolute_path(&request.producer.executable)
        && canonical_absolute_path(&request.validator.executable) && canonical_absolute_path(&host.candidate.path)
}

fn providers_match(request: &CandidateRequest, result: &ProviderResult, host: &HostEvidence) -> (r: bool)
    ensures
        r == (provider_eq(result.producer, request.producer) && provider_eq(host.producer_before, request.producer)
            && provider_eq(host.producer_after, request.producer)
            && provider_eq(host.validator_before, request.validator)
            && provider_eq(host.validator_after, request.validator)),
{
    same_provider(&result.producer, &request.producer) && same_provider(&host.producer_before, &request.producer)
        && same_provider(&host.producer_after, &request.producer)
        && same_provider(&host.validator_before, &request.validator)
        && same_provider(&host.validator_after, &request.validator)
}

fn is_alias(request: &CandidateRequest, host: &HostEvidence) -> (r: bool)
    ensures
        r == (path_bytes(host.candidate.path@) == path_bytes(request.source.path@)
            || host.candidate.filesystem_identity.platform@ != request.source.filesystem_identity.platform@
            || (host.candidate.filesystem_identity.filesystem_id@ == request.source.filesystem_identity.filesystem_id@
                && host.candidate.filesystem_identity.file_id@ == request.source.filesystem_identity.file_id@)),
{
    let candidate_key = host.candidate.filesystem_identity.identity_key();
    let source_key = request.source.filesystem_identity.identity_key();
    same_bytes(&host.candidate.path.to_path_buf(), &request.source.path.to_path_buf())
        || !same_text(&host.candidate.filesystem_identity.platform, &request.source.filesystem_identity.platform)
        || (compare_strings(candidate_key.0, source_key.0) == 0 && compare_strings(candidate_key.1, source_key.1) == 0)
}

fn limits_hold(request: &CandidateRequest, host: &HostEvidence) -> (r: bool)
    ensures
        r == within_limits(*request, *host),
{
    let limits = &request.limits;
    let source_bytes = request.source.content.logical_bytes;
    let candidate_bytes = host.candidate.content.logical_bytes;
    !(source_bytes > limits.input_bytes || candidate_bytes > limits.candidate_bytes
        || host.source_png.decoded_bytes > limits.decoded_bytes || candidate_bytes > limits.temporary_bytes
        || host.resource_usage.peak_temporary_bytes < candidate_bytes
        || host.resource_usage.peak_temporary_bytes > limits.temporary_bytes
        || host.resource_usage.peak_memory_bytes > limits.memory_bytes
        || host.resource_usage.elapsed_ms > limits.elapsed_ms)
}

/// Checks the consistency of supplied evidence only. `shape_valid` is
/// whether the packet satisfies the candidate-contract schema; the request
/// fingerprint that the provider and the host must both cite is computed
/// here from the request.
pub fn check_candidate_contract(
    packet: &CandidateContract,
    shape_valid: bool,
) -> (r: Result<ConsistentForReview, ContractRefusal>)
    ensures
        match candidate_refusal(*packet, shape_valid, request_fingerprint_value(packet.request)) {
            Some(e) => r == Err::<ConsistentForReview, ContractRefusal>(e),
            None => r matches Ok(c) && c.reported_encoded_byte_reduction
                == packet.request.source.content.logical_bytes - packet.host_evidence.unwrap().candidate.content.logical_bytes,
        },
{
    if !shape_valid {
        return Err(ContractRefusal::InvalidShape);
    }
    let request = &packet.request;
    let result = &packet.provider_result;
    let fingerprint = request_fingerprint(request);
    if !same_fingerprint(&result.request_fingerprint, &fingerprint) {
        return Err(ContractRefusal::RequestMismatch);
    }
    if result.status != ProviderStatus::Succeeded {
        return Err(ContractRefusal::ProviderUnsuccessful);
    }
    let host = match &packet.host_evidence {
        Some(h) => h,
        None => return Err(ContractRefusal::MissingHostEvidence),
    };
    if !same_fingerprint(&host.request_fingerprint, &fingerprint) {
        return Err(ContractRefusal::RequestMismatch);
    }
    if !paths_valid(request, host) {
        return Err(ContractRefusal::InvalidPath);
    }
    if !providers_match(request, result, host) {
        return Err(ContractRefusal::ProviderIdentityMismatch);
    }
    if !same_file(&host.source_before, &request.source) || !same_file(&host.source_after, &request.source) {
        return Err(ContractRefusal::SourceChanged);
    }
    let candidate_matches = match &result.candidate {
        Some(c) => same_content(c, &host.candidate.content),
        None => false,
    };
    if !candidate_matches {
        return Err(ContractRefusal::CandidateMismatch);
    }
    if is_alias(request, host) {
        return Err(ContractRefusal::SourceAlias);
    }
    if !checks_are_complete(&host.checks) {
        return Err(ContractRefusal::ValidationIncomplete);
    }
    if !supported_png(&host.source_png) || !supported_png(&host.candidate_png) {
        return Err(ContractRefusal::UnsupportedPng);
    }
    if !same_facts(&host.source_png, &host.candidate_png) {
        return Err(ContractRefusal::PreservationMismatch);
    }
    if !limits_hold(request, host) {
        return Err(ContractRefusal::LimitExceeded);
    }
    let source_bytes = request.source.content.logical_bytes;
    let candidate_bytes = host.candidate.content.logical_bytes;
    if candidate_bytes >= source_bytes {
        return Err(ContractRefusal::NotSmaller);
    }
    if same_digest(&host.candidate.content.digest, &request.source.content.digest) {
        return Err(ContractRefusal::CandidateMismatch);
    }
    Ok(ConsistentForReview { reported_encoded_byte_reduction: source_bytes - candidate_bytes })
}

} // verus!
