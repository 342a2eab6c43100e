//! Core domain types: lossless native paths, observation classification and
//! the records that reports and plans are made of.

use vstd::prelude::*;
use crate::base64::{base64_decode, base64_encode, lemma_base64_roundtrip, spec_base64_decode, spec_base64_encode};
use crate::filesystem::{FilesystemIdentity, PhysicalReclaimability, ReclaimabilityReasonCode, ReclaimabilityStatus, StorageAllocation};
use crate::text::{lemma_chars_less_asymmetric, lemma_chars_less_irreflexive, lemma_chars_less_total, lemma_chars_less_transitive, chars_less, chars_of, compare_strings, escape_all, escape_chars, has_control, is_control, string_of, utf8_string};

verus! {

pub const RUN_SCHEMA_VERSION_V1: &'static str = "optiflow.run.v1";
pub const REPORT_SCHEMA_VERSION_V1: &'static str = "optiflow.report.v1";
pub const PLAN_SCHEMA_VERSION_V1: &'static str = "optiflow.plan.v1";
pub const RUN_SCHEMA_VERSION_V2: &'static str = "optiflow.run.v2";
pub const REPORT_SCHEMA_VERSION_V2: &'static str = "optiflow.report.v2";
pub const PLAN_SCHEMA_VERSION_V2: &'static str = "optiflow.plan.v2";
pub const RUN_SCHEMA_VERSION_V3: &'static str = "optiflow.run.v3";
pub const REPORT_SCHEMA_VERSION_V3: &'static str = "optiflow.report.v3";
pub const PLAN_SCHEMA_VERSION_V3: &'static str = "optiflow.plan.v3";
pub const RUN_SCHEMA_VERSION_V4: &'static str = "optiflow.run.v4";
pub const REPORT_SCHEMA_VERSION_V4: &'static str = "optiflow.report.v4";
pub const PLAN_SCHEMA_VERSION_V4: &'static str = "optiflow.plan.v4";
pub const RUN_SCHEMA_VERSION: &'static str = "optiflow.run.v5";
pub const REPORT_SCHEMA_VERSION: &'static str = "optiflow.report.v5";
pub const PLAN_SCHEMA_VERSION: &'static str = "optiflow.plan.v5";

/// Traversal options of one scan.
#[derive(Debug, Clone, Copy, PartialEq, Eq)]
pub struct ScanOptions {
    pub follow_symlinks: bool,
    pub include_hidden: bool,
    pub cross_filesystems: bool,
    pub probe_media: bool,
}

/// Metadata of one scan run.
#[derive(Debug, Clone)]
pub struct ScanRun {
    pub schema_version: String,
    pub run_id: String,
    pub artifact_set_id: Option<String>,
    pub created_at: String,
    pub completed_at: String,
    pub inputs: Vec<String>,
    pub options: ScanOptions,
    pub artifact_directory: String,
    pub discovered_files: u64,
    pub analyzed_files: u64,
    pub cache_hits: u64,
    pub total_bytes: u64,
    pub warnings: Vec<String>,
}

/// A lossless, platform-native path.
///
/// Paths whose bytes are valid UTF-8 are kept as text; any other byte
/// sequence is kept as its standard base64 encoding. Non-UTF-8 paths order
/// before UTF-8 paths, and paths of one kind order by their text.
#[derive(Debug, Clone, PartialEq, Eq, PartialOrd, Ord, Hash)]
pub enum NativePath {
    /// The path bytes are not valid UTF-8; raw bytes are base64-encoded.
    UnixBytes { base64: String },
    /// The path bytes are valid UTF-8.
    Utf8 { value: String },
}

/// The mathematical content of a `NativePath`.
pub enum PathText {
    UnixBytes(Seq<char>),
    Utf8(Seq<char>),
}

impl View for NativePath {
    type V = PathText;

    open spec fn view(&self) -> PathText {
        match self {
            NativePath::UnixBytes { base64 } => PathText::UnixBytes(base64@),
            NativePath::Utf8 { value } => PathText::Utf8(value@),
        }
    }
}

/// The raw bytes a path stands for.
pub open spec fn path_bytes(p: PathText) -> Seq<u8> {
    match p {
        PathText::Utf8(s) => vstd::utf8::encode_utf8(s),
        PathText::UnixBytes(s) => spec_base64_decode(s),
    }
}

/// The encoding chosen for raw path bytes.
pub open spec fn path_of_bytes(b: Seq<u8>) -> PathText {
    if vstd::utf8::valid_utf8(b) {
        PathText::Utf8(vstd::utf8::decode_utf8(b))
    } else {
        PathText::UnixBytes(spec_base64_encode(b))
    }
}

/// The strict order of paths: non-UTF-8 paths first, then by text.
pub open spec fn path_less(a: PathText, b: PathText) -> bool {
    match (a, b) {
        (PathText::UnixBytes(x), PathText::UnixBytes(y)) => chars_less(x, y),
        (PathText::Utf8(x), PathText::Utf8(y)) => chars_less(x, y),
        (PathText::UnixBytes(_), PathText::Utf8(_)) => true,
        (PathText::Utf8(_), PathText::UnixBytes(_)) => false,
    }
}

pub open spec fn non_utf8_prefix() -> Seq<char> {
    seq!['<', 'n', 'o', 'n', '-', 'u', 't', 'f', '8', ':']
}

pub open spec fn sqlite_key_prefix() -> Seq<char> {
    seq!['\0', 'u', 'n', 'i', 'x', '_', 'b', 'y', 't', 'e', 's', ':']
}

/// The human-readable form of a path.
pub open spec fn display_text(p: PathText) -> Seq<char> {
    match p {
        PathText::Utf8(s) => if (exists|k: int| 0 <= k < s.len() && is_control(#[trigger] s[k])) {
            escape_all(s)
        } else {
            s
        },
        PathText::UnixBytes(s) => non_utf8_prefix() + s + seq!['>'],
    }
}

/// The stable key of a path.
pub open spec fn key_text(p: PathText) -> Seq<char> {
    match p {
        PathText::Utf8(s) => s,
        PathText::UnixBytes(s) => sqlite_key_prefix() + s,
    }
}

/// A path text as a file system can hold it: a UTF-8 path is not empty and
/// does not begin with NUL.
pub open spec fn nameable(p: PathText) -> bool {
    match p {
        PathText::Utf8(s) => s.len() > 0 && s[0] != '\0',
        PathText::UnixBytes(_) => true,
    }
}

proof fn lemma_chars_less_common_prefix(p: Seq<char>, x: Seq<char>, y: Seq<char>)
    ensures
        chars_less(p + x, p + y) == chars_less(x, y),
    decreases p.len(),
{
    if p.len() == 0 {
        assert(p + x =~= x);
        assert(p + y =~= y);
    } else {
        assert((p + x).skip(1) =~= p.skip(1) + x);
        assert((p + y).skip(1) =~= p.skip(1) + y);
        assert((p + x)[0] == (p + y)[0]);
        lemma_chars_less_common_prefix(p.skip(1), x, y);
    }
}

/// Paths are ordered as their stable keys are: the keys of non-UTF-8 paths
/// begin with NUL, which no nameable UTF-8 path does.
pub proof fn lemma_path_order_is_key_order(a: PathText, b: PathText)
    requires
        nameable(a),
        nameable(b),
    ensures
        path_less(a, b) == chars_less(key_text(a), key_text(b)),
{
    match (a, b) {
        (PathText::UnixBytes(x), PathText::UnixBytes(y)) => {
            lemma_chars_less_common_prefix(sqlite_key_prefix(), x, y);
        },
        (PathText::UnixBytes(x), PathText::Utf8(t)) => {
            let k = sqlite_key_prefix() + x;
            assert(k[0] == '\0');
            assert(('\0' as u32) == 0);
            assert(t[0] != '\0');
            assert((t[0] as u32) != 0) by {
                if (t[0] as u32) == 0 {
                    vstd::utf8::char_u32_cast(t[0], 0);
                }
            }
        },
        (PathText::Utf8(t), PathText::UnixBytes(x)) => {
            let k = sqlite_key_prefix() + x;
            assert(k[0] == '\0');
            assert((t[0] as u32) != 0) by {
                if (t[0] as u32) == 0 {
                    vstd::utf8::char_u32_cast(t[0], 0);
                }
            }
        },
        (PathText::Utf8(_), PathText::Utf8(_)) => {},
    }
}

fn push_all(out: &mut Vec<char>, s: &Vec<char>)
    ensures
        final(out)@ == old(out)@ + s@,
{
    let n = s.len();
    let mut i: usize = 0;
    while i < n
        invariant
            n == s@.len(),
            i <= n,
            out@ == old(out)@ + s@.take(i as int),
        decreases n - i,
    {
        proof {
            assert(s@.take(i + 1) =~= s@.take(i as int).push(s@[i as int]));
        }
        out.push(s[i]);
        i = i + 1;
    }
    assert(s@.take(n as int) =~= s@);
}

impl NativePath {
    /// Encodes raw path bytes without forcing them through a lossy
    /// conversion: valid UTF-8 stays text, anything else becomes base64.
    pub fn from_path(bytes: &[u8]) -> (p: NativePath)
        ensures
            p@ == path_of_bytes(bytes@),
    {
        match utf8_string(bytes) {
            Some(value) => NativePath::Utf8 { value },
            None => NativePath::UnixBytes { base64: base64_encode(bytes) },
        }
    }

    /// The raw path bytes, reproduced exactly.
    pub fn to_path_buf(&self) -> (bytes: Vec<u8>)
        ensures
            bytes@ == path_bytes(self@),
    {
        match self {
            NativePath::Utf8 { value } => vstd::slice::slice_to_vec(value.as_str().as_bytes()),
            NativePath::UnixBytes { base64 } => base64_decode(base64.as_str()),
        }
    }

    /// Human-readable text; control characters in UTF-8 paths are escaped so
    /// that terminal control sequences cannot be injected through display.
    pub fn display(&self) -> (text: String)
        ensures
            text@ == display_text(self@),
    {
        match self {
            NativePath::Utf8 { value } => {
                let chars = chars_of(value.as_str());
                if has_control(&chars) {
                    string_of(&escape_chars(&chars))
                } else {
                    value.clone()
                }
            },
            NativePath::UnixBytes { base64 } => {
                let mut out: Vec<char> = Vec::new();
                out.push('<');
                out.push('n');
                out.push('o');
                out.push('n');
                out.push('-');
                out.push('u');
                out.push('t');
                out.push('f');
                out.push('8');
                out.push(':');
                push_all(&mut out, &chars_of(base64.as_str()));
                out.push('>');
                assert(out@ =~= non_utf8_prefix() + base64@ + seq!['>']);
                string_of(&out)
            },
        }
    }

    /// A stable key: UTF-8 paths as they are, other paths behind a NUL
    /// sentinel that no real path contains.
    pub fn sqlite_key(&self) -> (key: String)
        ensures
            key@ == key_text(self@),
    {
        match self {
            NativePath::Utf8 { value } => value.clone(),
            NativePath::UnixBytes { base64 } => {
                let mut out: Vec<char> = Vec::new();
                out.push('\0');
                out.push('u');
                out.push('n');
                out.push('i');
                out.push('x');
                out.push('_');
                out.push('b');
                out.push('y');
                out.push('t');
                out.push('e');
                out.push('s');
                out.push(':');
                push_all(&mut out, &chars_of(base64.as_str()));
                assert(out@ =~= sqlite_key_prefix() + base64@);
                string_of(&out)
            },
        }
    }

    /// Three-way comparison in path order: -1, 0 or 1.
    pub fn compare(&self, other: &NativePath) -> (r: i8)
        ensures
            r == 0 <==> self@ == other@,
            r < 0 <==> path_less(self@, other@),
            r > 0 <==> path_less(other@, self@),
    {
        match (self, other) {
            (NativePath::UnixBytes { base64: a }, NativePath::UnixBytes { base64: b }) =>
                compare_strings(a.as_str(), b.as_str()),
            (NativePath::Utf8 { value: a }, NativePath::Utf8 { value: b }) =>
                compare_strings(a.as_str(), b.as_str()),
            (NativePath::UnixBytes { .. }, NativePath::Utf8 { .. }) => -1,
            (NativePath::Utf8 { .. }, NativePath::UnixBytes { .. }) => 1,
        }
    }

    /// A copy of this path.
    pub fn copy(&self) -> (p: NativePath)
        ensures
            p@ == self@,
            p == *self,
    {
        match self {
            NativePath::UnixBytes { base64 } => NativePath::UnixBytes { base64: base64.clone() },
            NativePath::Utf8 { value } => NativePath::Utf8 { value: value.clone() },
        }
    }

    /// Whether two paths are the same path.
    pub fn same(&self, other: &NativePath) -> (r: bool)
        ensures
            r == (self@ == other@),
    {
        self.compare(other) == 0
    }
}

/// Encoding raw bytes and reading them back reproduces the bytes exactly.
pub proof fn lemma_native_path_roundtrip(b: Seq<u8>)
    ensures
        path_bytes(path_of_bytes(b)) == b,
{
    if vstd::utf8::valid_utf8(b) {
        vstd::utf8::decode_utf8_encode_utf8(b);
    } else {
        lemma_base64_roundtrip(b);
    }
}

/// Path order is a strict total order: irreflexive, transitive, and any two
/// distinct paths are ordered one way or the other.
pub proof fn lemma_path_order(a: PathText, b: PathText, c: PathText)
    ensures
        !path_less(a, a),
        path_less(a, b) && path_less(b, c) ==> path_less(a, c),
        a != b ==> (path_less(a, b) || path_less(b, a)),
        !(path_less(a, b) && path_less(b, a)),
{
    match a {
        PathText::UnixBytes(x) => lemma_chars_less_irreflexive(x),
        PathText::Utf8(x) => lemma_chars_less_irreflexive(x),
    }
    match (a, b) {
        (PathText::UnixBytes(x), PathText::UnixBytes(y)) => {
            lemma_chars_less_asymmetric(x, y);
            if x != y { lemma_chars_less_total(x, y); }
        },
        (PathText::Utf8(x), PathText::Utf8(y)) => {
            lemma_chars_less_asymmetric(x, y);
            if x != y { lemma_chars_less_total(x, y); }
        },
        _ => {},
    }
    if path_less(a, b) && path_less(b, c) {
        match (a, b, c) {
            (PathText::UnixBytes(x), PathText::UnixBytes(y), PathText::UnixBytes(z)) =>
                lemma_chars_less_transitive(x, y, z),
            (PathText::Utf8(x), PathText::Utf8(y), PathText::Utf8(z)) =>
                lemma_chars_less_transitive(x, y, z),
            _ => {},
        }
    }
}

} // verus!

verus! {

/// Why an observation is considered unstable.
#[derive(Debug, Clone, Copy, PartialEq, Eq, Structural)]
pub enum ObservationStability {
    Stable,
    ChangedDuringHash,
    ChangedDuringProbe,
    ReplacedDuringScan,
    DisappearedDuringScan,
    BecameSymlink,
    FilesystemBoundaryChanged,
    MetadataUnavailable,
    RetryExhausted,
    Unreadable,
}

impl Default for ObservationStability {
    /// Older artifacts without the field behave as if they were stable.
    fn default() -> (s: Self)
        ensures
            s == ObservationStability::Stable,
    {
        ObservationStability::Stable
    }
}

/// Whether recorded evidence is current and trusted.
#[derive(Debug, Clone, Copy, PartialEq, Eq, Structural)]
pub enum EvidenceValidity {
    Current,
    Stale,
    Unavailable,
}

impl Default for EvidenceValidity {
    /// Older artifacts without the field behave as if their evidence were current.
    fn default() -> (v: Self)
        ensures
            v == EvidenceValidity::Current,
    {
        EvidenceValidity::Current
    }
}

#[derive(Debug, Clone, Copy, PartialEq, Eq, Structural)]
pub enum MediaKind {
    Image,
    Video,
    Audio,
    Other,
    Unknown,
}

#[derive(Debug, Clone, Copy, PartialEq, Eq, Structural)]
pub enum ObservationStatus {
    Analyzed,
    Unsupported,
    Unreadable,
}

/// One stream of a probed media file.
#[derive(Debug, Clone)]
pub struct MediaStream {
    pub index: u32,
    pub codec_type: Option<String>,
    pub codec_name: Option<String>,
    pub width: Option<u32>,
    pub height: Option<u32>,
    pub sample_rate: Option<u32>,
    pub channels: Option<u32>,
}

/// A named content digest recorded as evidence.
#[derive(Debug, Clone, PartialEq, Eq)]
pub struct EvidenceDigest {
    pub algorithm: String,
    pub value: String,
}

/// The identity of an external media provider as it was observed: its
/// name, reported version, canonical executable, binary digest and the
/// fingerprint of the invocation it is bound to.
#[derive(Debug, Clone, PartialEq, Eq)]
pub struct MediaProviderEvidence {
    pub name: String,
    pub version: String,
    pub executable: NativePath,
    pub binary_digest: EvidenceDigest,
    pub invocation_fingerprint: EvidenceDigest,
}

/// Format-level facts of a probed media file. The duration is carried as
/// the IEEE-754 bit pattern of the seconds value the probe reported.
#[derive(Debug, Clone)]
pub struct MediaDescriptor {
    pub format_name: Option<String>,
    pub duration_seconds_bits: Option<u64>,
    pub bit_rate: Option<u64>,
    pub streams: Vec<MediaStream>,
}

/// Everything recorded about one observed path in one scan.
#[derive(Debug, Clone)]
pub struct FileObservation {
    pub observation_id: String,
    pub run_id: String,
    pub path: NativePath,
    pub size_bytes: u64,
    pub modified_unix_ns: Option<i64>,
    pub device_id: Option<u64>,
    pub inode: Option<u64>,
    pub content_type: Option<String>,
    pub media_kind: MediaKind,
    pub content_hash: Option<String>,
    pub hash_algorithm: Option<String>,
    pub media: Option<MediaDescriptor>,
    pub status: ObservationStatus,
    pub cache_hit: bool,
    pub warnings: Vec<String>,
    pub filesystem_identity: Option<FilesystemIdentity>,
    pub storage_allocation: Option<StorageAllocation>,
    pub observation_stability: ObservationStability,
    pub evidence_validity: EvidenceValidity,
    pub attempt_count: u32,
}

/// The attempt count of artifacts written before retries were recorded.
pub fn default_attempt_count() -> (n: u32)
    ensures
        n == 1,
{
    1
}

/// One or more observed paths that reference the same filesystem object.
#[derive(Debug, Clone)]
pub struct HardLinkGroup {
    pub group_id: String,
    pub identity: FilesystemIdentity,
    pub observed_paths: Vec<NativePath>,
    pub observed_path_count: u64,
    pub reported_link_count: Option<u64>,
    pub unobserved_link_count: Option<u64>,
    pub logical_size_bytes: u64,
    pub allocated_size_bytes: Option<u64>,
    pub warnings: Vec<String>,
}

/// One filesystem object within a duplicate group, with its hard-link aliases.
#[derive(Debug, Clone)]
pub struct DuplicateMember {
    pub path: NativePath,
    pub observation_id: String,
    pub alias_paths: Vec<NativePath>,
}

/// Evidence that all members of a group are byte-identical.
#[derive(Debug, Clone)]
pub struct ExactDuplicateEvidence {
    pub algorithm: String,
    pub complete_content_hash: String,
    pub identical_size_bytes: u64,
    pub member_count: u64,
    pub observed_path_count: u64,
}

impl ExactDuplicateEvidence {
    /// A copy of this evidence.
    pub fn copy(&self) -> (e: Self)
        ensures
            e.algorithm@ == self.algorithm@,
            e.complete_content_hash@ == self.complete_content_hash@,
            e.identical_size_bytes == self.identical_size_bytes,
            e.member_count == self.member_count,
            e.observed_path_count == self.observed_path_count,
    {
        ExactDuplicateEvidence {
            algorithm: self.algorithm.clone(),
            complete_content_hash: self.complete_content_hash.clone(),
            identical_size_bytes: self.identical_size_bytes,
            member_count: self.member_count,
            observed_path_count: self.observed_path_count,
        }
    }
}

/// Unique filesystem objects with equal length and equal complete hash.
#[derive(Debug, Clone)]
pub struct DuplicateGroup {
    pub group_id: String,
    pub classification: String,
    pub evidence: ExactDuplicateEvidence,
    pub members: Vec<DuplicateMember>,
    pub reclaimable_bytes: u64,
    pub physical_reclaimability: PhysicalReclaimability,
}

/// The reclaimability of groups written before it was assessed: unknown,
/// because extent sharing was never examined.
pub fn default_physical_reclaimability() -> (r: PhysicalReclaimability)
    ensures
        r.status == ReclaimabilityStatus::Unknown,
        r.reason_codes@ == seq![ReclaimabilityReasonCode::ExtentSharingUnknown],
{
    PhysicalReclaimability::unknown(vec![ReclaimabilityReasonCode::ExtentSharingUnknown])
}

/// Storage accounting of one scan.
#[derive(Debug, Clone)]
pub struct StorageSummary {
    pub path_logical_bytes: u64,
    pub unique_object_logical_bytes: u64,
    pub known_allocated_bytes: u64,
    pub unknown_allocation_object_count: u64,
    pub hard_link_alias_logical_bytes: u64,
    pub duplicate_logical_bytes: u64,
    pub estimated_reclaimable_allocated_bytes: Option<u64>,
    pub physical_reclaimability: PhysicalReclaimability,
}

/// Counters of one scan.
#[derive(Debug, Clone)]
pub struct ScanSummary {
    pub file_count: u64,
    pub total_bytes: u64,
    pub media_files: u64,
    pub unsupported_files: u64,
    pub unreadable_files: u64,
    pub exact_duplicate_groups: u64,
    pub exact_duplicate_files: u64,
    pub reclaimable_bytes: u64,
    pub cache_hits: u64,
    pub unique_object_count: u64,
    pub hard_link_alias_path_count: u64,
    pub unstable_observation_count: u64,
}

/// The report of one completed scan.
#[derive(Debug, Clone)]
pub struct ScanReport {
    pub schema_version: String,
    pub generated_at: String,
    pub run: ScanRun,
    pub summary: ScanSummary,
    pub duplicate_groups: Vec<DuplicateGroup>,
    pub observations: Vec<FileObservation>,
    pub hard_link_groups: Vec<HardLinkGroup>,
    pub storage: Option<StorageSummary>,
}

/// A review-only action plan.
#[derive(Debug, Clone)]
pub struct Plan {
    pub schema_version: String,
    pub plan_id: String,
    pub source_run_id: String,
    pub source_artifact_set_id: Option<String>,
    pub created_at: String,
    pub mode: String,
    pub safety: PlanSafety,
    pub summary: PlanSummary,
    pub actions: Vec<PlanAction>,
}

#[derive(Debug, Clone)]
pub struct PlanSafety {
    pub mutates_files: bool,
    pub requires_explicit_apply: bool,
    pub description: String,
}

#[derive(Debug, Clone)]
pub struct PlanSummary {
    pub action_count: u64,
    pub candidate_file_count: u64,
    pub potential_reclaimable_bytes: u64,
}

/// One proposed review action for one duplicate group.
#[derive(Debug, Clone)]
pub struct PlanAction {
    pub action_id: String,
    pub classification: String,
    pub proposed_operation: String,
    pub keep_path: NativePath,
    pub keep_alias_paths: Vec<NativePath>,
    pub candidate_paths: Vec<NativePath>,
    pub potential_reclaimable_bytes: u64,
    pub physical_reclaimability: PhysicalReclaimability,
    pub reason: String,
    pub evidence: ExactDuplicateEvidence,
    pub preconditions: Vec<FilePrecondition>,
}

/// What must still hold of a file before any future mutation.
#[derive(Debug, Clone)]
pub struct FilePrecondition {
    pub path: NativePath,
    pub expected_size_bytes: u64,
    pub expected_modified_unix_ns: Option<i64>,
    pub expected_complete_content_hash: String,
    pub required_apply_behavior: String,
}

#[derive(Debug, Clone)]
pub struct ToolStatus {
    pub name: String,
    pub required_for: String,
    pub available: bool,
    pub executable: Option<String>,
    pub version: Option<String>,
}

#[derive(Debug, Clone)]
pub struct DoctorReport {
    pub optiflow_version: String,
    pub platform: String,
    pub state_directory: String,
    pub state_ready: bool,
    pub tools: Vec<ToolStatus>,
}

#[derive(Debug, Clone)]
pub struct CacheStatus {
    pub state_directory: String,
    pub database_path: String,
    pub database_size_bytes: u64,
    pub cached_file_count: u64,
    pub stored_run_count: u64,
}

} // verus!
