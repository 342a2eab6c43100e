//! The judgements of a handle-bound observation: what each look at the path
//! and at the opened handle must find, and how a bounded series of attempts
//! is settled.

use vstd::prelude::*;
use crate::domain::{EvidenceValidity, MediaDescriptor, MediaKind, ObservationStability, ObservationStatus};
use crate::filesystem::{FileStateSignature, FilesystemIdentity};
use crate::hashing::DEFAULT_MAX_OBSERVATION_ATTEMPTS;
use crate::json::{decimal_digits, push_decimal, push_str};
use crate::text::{compare_strings, owned, string_of};

verus! {

/// What is cached of one analysed file.
#[derive(Debug, Clone)]
pub struct CachedAnalysis {
    pub content_type: Option<String>,
    pub media_kind: MediaKind,
    pub content_hash: Option<String>,
    pub media: Option<MediaDescriptor>,
    pub probe_signature: Option<String>,
    pub status: ObservationStatus,
    pub warnings: Vec<String>,
    pub observation_stability: ObservationStability,
    pub evidence_validity: EvidenceValidity,
    pub attempt_count: u32,
}

/// Why one observation attempt was not accepted.
#[derive(Debug, Clone, PartialEq, Eq)]
pub struct AttemptFailure {
    pub stability: ObservationStability,
    pub validity: EvidenceValidity,
    pub message: String,
    pub interrupted: bool,
}

/// What one look at a path or a handle found: its kind and its signature,
/// or why it could not be looked at.
#[derive(Debug, Clone, PartialEq, Eq)]
pub struct MetadataLook {
    pub is_file: bool,
    pub signature: FileStateSignature,
}

/// Two optional identities are equal, field by field.
pub open spec fn same_identity(a: Option<FilesystemIdentity>, b: Option<FilesystemIdentity>) -> bool {
    match (a, b) {
        (None, None) => true,
        (Some(x), Some(y)) => x.platform@ == y.platform@ && x.filesystem_id@ == y.filesystem_id@
            && x.file_id@ == y.file_id@ && x.link_count == y.link_count,
        _ => false,
    }
}

/// Two signatures are equal, field by field.
pub open spec fn same_signature(a: FileStateSignature, b: FileStateSignature) -> bool {
    &&& same_identity(a.identity, b.identity)
    &&& a.is_symlink == b.is_symlink
    &&& a.logical_size_bytes == b.logical_size_bytes
    &&& a.modified_unix_ns == b.modified_unix_ns
    &&& a.changed_unix_ns == b.changed_unix_ns
}

fn same_identity_of(a: &Option<FilesystemIdentity>, b: &Option<FilesystemIdentity>) -> (r: bool)
    ensures
        r == same_identity(*a, *b),
{
    match (a, b) {
        (None, None) => true,
        (Some(x), Some(y)) => compare_strings(x.platform.as_str(), y.platform.as_str()) == 0
            && compare_strings(x.filesystem_id.as_str(), y.filesystem_id.as_str()) == 0
            && compare_strings(x.file_id.as_str(), y.file_id.as_str()) == 0
            && x.link_count == y.link_count,
        _ => false,
    }
}

/// Whether two signatures are equal, field by field.
pub fn same_signature_of(a: &FileStateSignature, b: &FileStateSignature) -> (r: bool)
    ensures
        r == same_signature(*a, *b),
{
    same_identity_of(&a.identity, &b.identity) && a.is_symlink == b.is_symlink
        && a.logical_size_bytes == b.logical_size_bytes && a.modified_unix_ns == b.modified_unix_ns
        && a.changed_unix_ns == b.changed_unix_ns
}

/// How a changed signature is classified: a symbolic link, another
/// filesystem, another file object, missing identity, or else a change of
/// content of the kind `content_change` names.
pub open spec fn signature_change(expected: FileStateSignature, actual: FileStateSignature, content_change: ObservationStability) -> ObservationStability {
    if actual.is_symlink {
        ObservationStability::BecameSymlink
    } else {
        match (expected.identity, actual.identity) {
            (Some(e), Some(a)) => if e.filesystem_id@ != a.filesystem_id@ {
                ObservationStability::FilesystemBoundaryChanged
            } else if e.file_id@ != a.file_id@ {
                ObservationStability::ReplacedDuringScan
            } else {
                content_change
            },
            _ => ObservationStability::MetadataUnavailable,
        }
    }
}

/// Classifies how `actual` differs from `expected`.
pub fn classify_signature_change(expected: &FileStateSignature, actual: &FileStateSignature, content_change: ObservationStability) -> (r: ObservationStability)
    ensures
        r == signature_change(*expected, *actual, content_change),
{
    if actual.is_symlink {
        return ObservationStability::BecameSymlink;
    }
    match (&expected.identity, &actual.identity) {
        (Some(e), Some(a)) => {
            if compare_strings(e.filesystem_id.as_str(), a.filesystem_id.as_str()) != 0 {
                ObservationStability::FilesystemBoundaryChanged
            } else if compare_strings(e.file_id.as_str(), a.file_id.as_str()) != 0 {
                ObservationStability::ReplacedDuringScan
            } else {
                content_change
            }
        },
        _ => ObservationStability::MetadataUnavailable,
    }
}

/// A failure with a fixed message.
pub open spec fn failure_is(f: AttemptFailure, stability: ObservationStability, validity: EvidenceValidity, message: Seq<char>) -> bool {
    f.stability == stability && f.validity == validity && f.message@ == message && !f.interrupted
}

fn failure(stability: ObservationStability, validity: EvidenceValidity, message: String) -> (f: AttemptFailure)
    ensures
        failure_is(f, stability, validity, message@),
{
    AttemptFailure { stability, validity, message, interrupted: false }
}

fn joined(a: &str, b: &str) -> (r: String)
    ensures
        r@ == a@ + b@,
{
    let mut t: Vec<char> = Vec::new();
    push_str(&mut t, a);
    push_str(&mut t, b);
    string_of(&t)
}

/// The failure of an attempt stopped by cancellation.
pub fn interrupted() -> (f: AttemptFailure)
    ensures
        f.stability == ObservationStability::RetryExhausted,
        f.validity == EvidenceValidity::Unavailable,
        f.message@ == "observation interrupted"@,
        f.interrupted,
{
    AttemptFailure {
        stability: ObservationStability::RetryExhausted,
        validity: EvidenceValidity::Unavailable,
        message: owned("observation interrupted"),
        interrupted: true,
    }
}

/// The failure of an attempt whose observation hook reported `error`.
pub fn hook_failure(error: &str) -> (f: AttemptFailure)
    ensures
        failure_is(f, ObservationStability::Unreadable, EvidenceValidity::Unavailable, "observation hook failed: "@ + error@),
{
    failure(ObservationStability::Unreadable, EvidenceValidity::Unavailable, joined("observation hook failed: ", error))
}

/// What `require_regular_identity` refuses, if anything.
pub open spec fn identity_refusal(signature: FileStateSignature, stage: Seq<char>) -> Option<(ObservationStability, Seq<char>)> {
    if signature.is_symlink {
        Some((ObservationStability::BecameSymlink, "path was a symbolic link "@ + stage))
    } else if signature.identity is None || signature.changed_unix_ns is None {
        Some((ObservationStability::MetadataUnavailable, "required handle-bound identity metadata was unavailable "@ + stage))
    } else {
        None
    }
}

/// Refuses a signature that is a symbolic link or lacks the identity and
/// change time an observation is bound to.
pub fn require_regular_identity(signature: &FileStateSignature, stage: &str) -> (r: Result<(), AttemptFailure>)
    ensures
        match identity_refusal(*signature, stage@) {
            None => r is Ok,
            Some((stability, message)) => r matches Err(f) && failure_is(f, stability, EvidenceValidity::Unavailable, message),
        },
{
    if signature.is_symlink {
        return Err(failure(ObservationStability::BecameSymlink, EvidenceValidity::Unavailable, joined("path was a symbolic link ", stage)));
    }
    if signature.identity.is_none() || signature.changed_unix_ns.is_none() {
        return Err(failure(ObservationStability::MetadataUnavailable, EvidenceValidity::Unavailable,
            joined("required handle-bound identity metadata was unavailable ", stage)));
    }
    Ok(())
}

/// Refuses `actual` unless it equals `expected`, classifying the change.
pub fn require_same_signature(expected: &FileStateSignature, actual: &FileStateSignature, content_change: ObservationStability, validity: EvidenceValidity, context: &str) -> (r: Result<(), AttemptFailure>)
    ensures
        same_signature(*expected, *actual) ==> r is Ok,
        !same_signature(*expected, *actual) ==> (r matches Err(f)
            && failure_is(f, signature_change(*expected, *actual, content_change), validity, context@)),
{
    if same_signature_of(expected, actual) {
        return Ok(());
    }
    let stability = classify_signature_change(expected, actual, content_change);
    Err(failure(stability, validity, owned(context)))
}

/// The refusal a look at the path earns, if any: it could not be looked
/// at, it is no longer a regular file, it lacks identity metadata, or its
/// signature differs from `expected`.
pub open spec fn path_look_refusal(expected: FileStateSignature, look: Result<MetadataLook, String>, validity: EvidenceValidity,
    unavailable: Seq<char>, not_regular: Seq<char>, stage: Seq<char>, change: ObservationStability, context: Seq<char>)
    -> Option<(ObservationStability, EvidenceValidity, Seq<char>)>
{
    match look {
        Err(e) => Some((ObservationStability::DisappearedDuringScan, validity, unavailable + e@)),
        Ok(l) => if !l.is_file || l.signature.is_symlink {
            Some((if l.signature.is_symlink { ObservationStability::BecameSymlink } else { ObservationStability::ReplacedDuringScan },
                validity, not_regular))
        } else {
            match identity_refusal(l.signature, stage) {
                Some((stability, message)) => Some((stability, EvidenceValidity::Unavailable, message)),
                None => if !same_signature(expected, l.signature) {
                    Some((signature_change(expected, l.signature, change), validity, context))
                } else {
                    None
                },
            }
        },
    }
}

/// The refusal a look at the opened handle earns, if any.
pub open spec fn handle_look_refusal(expected: FileStateSignature, look: Result<MetadataLook, String>, validity: EvidenceValidity,
    unavailable: Seq<char>, not_regular: Seq<char>, stage: Option<Seq<char>>, change: ObservationStability, context: Seq<char>)
    -> Option<(ObservationStability, EvidenceValidity, Seq<char>)>
{
    match look {
        Err(e) => Some((ObservationStability::MetadataUnavailable, validity, unavailable + e@)),
        Ok(l) => if !l.is_file {
            Some((ObservationStability::ReplacedDuringScan, validity, not_regular))
        } else {
            match (match stage { Some(st) => identity_refusal(l.signature, st), None => None }) {
                Some((stability, message)) => Some((stability, EvidenceValidity::Unavailable, message)),
                None => if !same_signature(expected, l.signature) {
                    Some((signature_change(expected, l.signature, change), validity, context))
                } else {
                    None
                },
            }
        },
    }
}

/// The result agrees with a refusal, or with its absence.
pub open spec fn refused_as(r: Result<(), AttemptFailure>, refusal: Option<(ObservationStability, EvidenceValidity, Seq<char>)>) -> bool {
    match refusal {
        None => r is Ok,
        Some((stability, validity, message)) => r matches Err(f) && failure_is(f, stability, validity, message),
    }
}

fn judge_path_look(expected: &FileStateSignature, look: &Result<MetadataLook, String>, validity: EvidenceValidity,
    unavailable: &str, not_regular: &str, stage: &str, change: ObservationStability, context: &str) -> (r: Result<(), AttemptFailure>)
    ensures
        refused_as(r, path_look_refusal(*expected, *look, validity, unavailable@, not_regular@, stage@, change, context@)),
{
    match look {
        Err(e) => Err(failure(ObservationStability::DisappearedDuringScan, validity, joined(unavailable, e.as_str()))),
        Ok(l) => {
            if !l.is_file || l.signature.is_symlink {
                let stability = if l.signature.is_symlink {
                    ObservationStability::BecameSymlink
                } else {
                    ObservationStability::ReplacedDuringScan
                };
                return Err(failure(stability, validity, owned(not_regular)));
            }
            require_regular_identity(&l.signature, stage)?;
            require_same_signature(expected, &l.signature, change, validity, context)
        },
    }
}

fn judge_handle_look(expected: &FileStateSignature, look: &Result<MetadataLook, String>, validity: EvidenceValidity,
    unavailable: &str, not_regular: &str, stage: Option<&str>, change: ObservationStability, context: &str) -> (r: Result<(), AttemptFailure>)
    ensures
        refused_as(r, handle_look_refusal(*expected, *look, validity, unavailable@, not_regular@,
            match stage { Some(st) => Some(st@), None => None }, change, context@)),
{
    match look {
        Err(e) => Err(failure(ObservationStability::MetadataUnavailable, validity, joined(unavailable, e.as_str()))),
        Ok(l) => {
            if !l.is_file {
                return Err(failure(ObservationStability::ReplacedDuringScan, validity, owned(not_regular)));
            }
            match stage {
                Some(st) => {
                    require_regular_identity(&l.signature, st)?;
                },
                None => {},
            }
            require_same_signature(expected, &l.signature, change, validity, context)
        },
    }
}

/// Judges the look at the path before it is opened, against the signature
/// it was discovered with.
pub fn check_before_open(discovered: &FileStateSignature, look: &Result<MetadataLook, String>) -> (r: Result<(), AttemptFailure>)
    ensures
        refused_as(r, path_look_refusal(*discovered, *look, EvidenceValidity::Unavailable,
            "failed to inspect discovered path: "@, "discovered path was no longer a regular file before open"@,
            "before open"@, ObservationStability::ChangedDuringHash, "path changed after discovery"@)),
{
    judge_path_look(discovered, look, EvidenceValidity::Unavailable, "failed to inspect discovered path: ",
        "discovered path was no longer a regular file before open", "before open", ObservationStability::ChangedDuringHash,
        "path changed after discovery")
}

/// Judges the look at the handle just opened, against the path's signature.
pub fn check_opened_handle(before_open: &FileStateSignature, look: &Result<MetadataLook, String>) -> (r: Result<(), AttemptFailure>)
    ensures
        refused_as(r, handle_look_refusal(*before_open, *look, EvidenceValidity::Unavailable,
            "failed to inspect opened file handle: "@, "opened handle did not refer to a regular file"@,
            Some("opened handle"@), ObservationStability::ReplacedDuringScan, "opened handle did not match the inspected path"@)),
{
    judge_handle_look(before_open, look, EvidenceValidity::Unavailable, "failed to inspect opened file handle: ",
        "opened handle did not refer to a regular file", Some("opened handle"), ObservationStability::ReplacedDuringScan,
        "opened handle did not match the inspected path")
}

/// The kind of change a differing handle signature means: a probe or a
/// hash was running.
pub open spec fn evidence_change(probe_media: bool) -> ObservationStability {
    if probe_media { ObservationStability::ChangedDuringProbe } else { ObservationStability::ChangedDuringHash }
}

/// Judges the second look at the handle, after the evidence was collected.
pub fn check_final_handle(opened: &FileStateSignature, look: &Result<MetadataLook, String>, probe_media: bool) -> (r: Result<(), AttemptFailure>)
    ensures
        refused_as(r, handle_look_refusal(*opened, *look, EvidenceValidity::Stale,
            "failed to re-inspect opened file handle: "@, "opened handle stopped reporting a regular file"@,
            None, evidence_change(probe_media), "opened filesystem object changed during evidence collection"@)),
{
    let change = if probe_media { ObservationStability::ChangedDuringProbe } else { ObservationStability::ChangedDuringHash };
    judge_handle_look(opened, look, EvidenceValidity::Stale, "failed to re-inspect opened file handle: ",
        "opened handle stopped reporting a regular file", None, change,
        "opened filesystem object changed during evidence collection")
}

/// Judges the last look at the path, against the handle's final signature.
pub fn check_after_evidence(final_handle: &FileStateSignature, look: &Result<MetadataLook, String>) -> (r: Result<(), AttemptFailure>)
    ensures
        refused_as(r, path_look_refusal(*final_handle, *look, EvidenceValidity::Stale,
            "failed to re-inspect path after evidence collection: "@, "path was no longer a regular file after evidence collection"@,
            "after evidence collection"@, ObservationStability::ReplacedDuringScan, "path no longer referenced the opened filesystem object"@)),
{
    judge_path_look(final_handle, look, EvidenceValidity::Stale, "failed to re-inspect path after evidence collection: ",
        "path was no longer a regular file after evidence collection", "after evidence collection",
        ObservationStability::ReplacedDuringScan, "path no longer referenced the opened filesystem object")
}

/// The failure of an attempt whose file could not be opened.
pub fn open_failure(error: &str) -> (f: AttemptFailure)
    ensures
        failure_is(f, ObservationStability::Unreadable, EvidenceValidity::Unavailable, "failed to open discovered file: "@ + error@),
{
    failure(ObservationStability::Unreadable, EvidenceValidity::Unavailable, joined("failed to open discovered file: ", error))
}

/// The failure of an attempt whose content analysis failed.
pub fn analysis_failure(error: &str) -> (f: AttemptFailure)
    ensures
        failure_is(f, ObservationStability::Unreadable, EvidenceValidity::Unavailable, "opened-handle content analysis failed: "@ + error@),
{
    failure(ObservationStability::Unreadable, EvidenceValidity::Unavailable, joined("opened-handle content analysis failed: ", error))
}

/// The failure of an attempt whose hashing failed.
pub fn hashing_failure(error: &str) -> (f: AttemptFailure)
    ensures
        failure_is(f, ObservationStability::Unreadable, EvidenceValidity::Unavailable, "opened-handle hashing failed: "@ + error@),
{
    failure(ObservationStability::Unreadable, EvidenceValidity::Unavailable, joined("opened-handle hashing failed: ", error))
}

/// The record of a path no attempt could observe.
pub fn failed_analysis(stability: ObservationStability, validity: EvidenceValidity, attempt_count: u32, warning: Option<String>) -> (a: CachedAnalysis)
    ensures
        a.content_type is None,
        a.media_kind == MediaKind::Unknown,
        a.content_hash is None,
        a.media is None,
        a.probe_signature is None,
        a.status == ObservationStatus::Unreadable,
        a.warnings@.len() == (if warning is Some { 1int } else { 0int }),
        warning matches Some(w) ==> a.warnings@[0]@ == w@,
        a.observation_stability == stability,
        a.evidence_validity == validity,
        a.attempt_count == attempt_count,
{
    let mut warnings: Vec<String> = Vec::new();
    match warning {
        Some(w) => warnings.push(w),
        None => {},
    }
    CachedAnalysis {
        content_type: None,
        media_kind: MediaKind::Unknown,
        content_hash: None,
        media: None,
        probe_signature: None,
        status: ObservationStatus::Unreadable,
        warnings,
        observation_stability: stability,
        evidence_validity: validity,
        attempt_count,
    }
}

/// Whether another attempt may follow attempt number `attempt`.
pub fn attempts_remain(attempt: u32) -> (r: bool)
    ensures
        r == (attempt < DEFAULT_MAX_OBSERVATION_ATTEMPTS),
{
    attempt < DEFAULT_MAX_OBSERVATION_ATTEMPTS
}

/// The note of an observation that stabilized only after retrying.
pub open spec fn stabilized_note(attempt: u32, path: Seq<char>) -> Seq<char> {
    "handle-bound observation stabilized after "@ + decimal_digits(attempt as nat) + " attempts: "@ + path
}

/// `a` is `analysis` of attempt number `attempt`, settled as a success on
/// the path displayed as `path`.
pub open spec fn success_settled(a: CachedAnalysis, analysis: CachedAnalysis, attempt: u32, path: Seq<char>) -> bool {
    &&& a.content_type == analysis.content_type
    &&& a.media_kind == analysis.media_kind
    &&& a.content_hash == analysis.content_hash
    &&& a.probe_signature == analysis.probe_signature
    &&& a.status == analysis.status
    &&& a.observation_stability == ObservationStability::Stable
    &&& a.evidence_validity == EvidenceValidity::Current
    &&& a.attempt_count == attempt
    &&& attempt > 1 ==> a.warnings@.len() == analysis.warnings@.len() + 1
        && a.warnings@.take(analysis.warnings@.len() as int) == analysis.warnings@
        && a.warnings@.last()@ == stabilized_note(attempt, path)
    &&& attempt <= 1 ==> a.warnings@ == analysis.warnings@
}

/// The analysis of attempt number `attempt`, which succeeded on the path
/// displayed as `path`: stable, current, counted, with a note when it took
/// more than one attempt.
pub fn settle_success(analysis: CachedAnalysis, attempt: u32, path: &str) -> (a: CachedAnalysis)
    ensures
        success_settled(a, analysis, attempt, path@),
{
    let mut a = analysis;
    a.observation_stability = ObservationStability::Stable;
    a.evidence_validity = EvidenceValidity::Current;
    a.attempt_count = attempt;
    if attempt > 1 {
        let mut t: Vec<char> = Vec::new();
        push_str(&mut t, "handle-bound observation stabilized after ");
        push_decimal(&mut t, attempt as u64);
        push_str(&mut t, " attempts: ");
        push_str(&mut t, path);
        assert(t@ =~= stabilized_note(attempt, path@));
        let ghost before = a.warnings@;
        a.warnings.push(string_of(&t));
        assert(a.warnings@.take(before.len() as int) =~= before);
    }
    a
}

/// `a` is the analysis of an observation stopped by cancellation in
/// attempt number `attempt`.
pub open spec fn interrupted_settled(a: CachedAnalysis, attempt: u32) -> bool {
    &&& a.status == ObservationStatus::Unreadable
    &&& a.observation_stability == ObservationStability::RetryExhausted
    &&& a.evidence_validity == EvidenceValidity::Unavailable
    &&& a.attempt_count == attempt
    &&& a.warnings@.len() == 0
    &&& a.content_hash is None
}

/// The analysis of an observation stopped by cancellation in attempt
/// number `attempt`.
pub fn settle_interrupted(attempt: u32) -> (a: CachedAnalysis)
    ensures
        interrupted_settled(a, attempt),
{
    failed_analysis(ObservationStability::RetryExhausted, EvidenceValidity::Unavailable, attempt, None)
}

/// The note of an observation every attempt of which failed.
pub open spec fn rejected_note(first: Seq<char>, last: Seq<char>) -> Seq<char> {
    "handle-bound observation rejected after "@ + decimal_digits(DEFAULT_MAX_OBSERVATION_ATTEMPTS as nat)
        + " attempts; first failure: "@ + first + "; final failure: "@ + last
}

/// `a` is the analysis of an observation every attempt of which failed,
/// from the first failure's message and the last failure.
pub open spec fn exhausted_settled(a: CachedAnalysis, first_message: Seq<char>, last: AttemptFailure) -> bool {
    &&& a.status == ObservationStatus::Unreadable
    &&& a.observation_stability == last.stability
    &&& a.evidence_validity == last.validity
    &&& a.attempt_count == DEFAULT_MAX_OBSERVATION_ATTEMPTS
    &&& a.warnings@.len() == 1
    &&& a.warnings@[0]@ == rejected_note(first_message, last.message@)
    &&& a.content_hash is None
}

/// The analysis of an observation every attempt of which failed, from the
/// first failure's message and the last failure.
pub fn settle_exhausted(first_message: &str, last: &AttemptFailure) -> (a: CachedAnalysis)
    ensures
        exhausted_settled(a, first_message@, *last),
{
    let mut t: Vec<char> = Vec::new();
    push_str(&mut t, "handle-bound observation rejected after ");
    push_decimal(&mut t, DEFAULT_MAX_OBSERVATION_ATTEMPTS as u64);
    push_str(&mut t, " attempts; first failure: ");
    push_str(&mut t, first_message);
    push_str(&mut t, "; final failure: ");
    push_str(&mut t, last.message.as_str());
    assert(t@ =~= rejected_note(first_message@, last.message@));
    failed_analysis(last.stability, last.validity, DEFAULT_MAX_OBSERVATION_ATTEMPTS, Some(string_of(&t)))
}

/// What follows one observation attempt.
#[derive(Debug)]
pub enum ObservationStep {
    /// The observation is settled with this analysis.
    Settled(CachedAnalysis),
    /// Cancellation stopped the observation; this is its analysis.
    Interrupted(CachedAnalysis),
    /// Another attempt follows; the first failure's message is kept.
    Retry(String),
}

/// Decides what follows attempt number `attempt` of an observation, given
/// the first failure's message so far and the attempt's outcome: a success
/// settles it, cancellation stops it, and a failure is retried until the
/// attempts run out, when the observation is settled as rejected with the
/// first and the last failure.
pub fn observation_step(
    attempt: u32,
    first: Option<String>,
    outcome: Result<CachedAnalysis, AttemptFailure>,
    path: &str,
) -> (s: ObservationStep)
    requires
        1 <= attempt <= DEFAULT_MAX_OBSERVATION_ATTEMPTS,
    ensures
        match outcome {
            Ok(analysis) => s matches ObservationStep::Settled(a) && success_settled(a, analysis, attempt, path@),
            Err(failure) => {
                let first_message = match first {
                    Some(m) => m@,
                    None => failure.message@,
                };
                if failure.interrupted {
                    s matches ObservationStep::Interrupted(a) && interrupted_settled(a, attempt)
                } else if attempt < DEFAULT_MAX_OBSERVATION_ATTEMPTS {
                    s matches ObservationStep::Retry(m) && m@ == first_message
                } else {
                    s matches ObservationStep::Settled(a) && exhausted_settled(a, first_message, failure)
                }
            },
        },
{
    match outcome {
        Ok(analysis) => ObservationStep::Settled(settle_success(analysis, attempt, path)),
        Err(failure) => {
            if failure.interrupted {
                return ObservationStep::Interrupted(settle_interrupted(attempt));
            }
            let first_message = match first {
                Some(m) => m,
                None => failure.message.clone(),
            };
            if attempts_remain(attempt) {
                ObservationStep::Retry(first_message)
            } else {
                ObservationStep::Settled(settle_exhausted(first_message.as_str(), &failure))
            }
        },
    }
}

} // verus!
