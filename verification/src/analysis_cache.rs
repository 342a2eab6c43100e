//! When a stored analysis of a path may be reused: only for the same
//! filesystem object in the same state, which takes the complete handle
//! signature (identity and change time included), and, when media probing
//! is required, the same prober.

use vstd::prelude::*;
use crate::domain::{EvidenceValidity, MediaDescriptor, MediaKind, ObservationStability, ObservationStatus};
use crate::filesystem::FileStateSignature;
use crate::observation::CachedAnalysis;
use crate::text::compare_strings;

verus! {

/// The signature a stored analysis was recorded with, as stored.
#[derive(Debug, Clone, PartialEq, Eq)]
pub struct StoredSignature {
    pub size_bytes: u64,
    pub modified_unix_ns: Option<i64>,
    pub filesystem_id: Option<String>,
    pub file_id: Option<String>,
    pub changed_unix_ns: Option<i64>,
    pub probe_signature: Option<String>,
}

pub open spec fn text_matches(stored: Option<String>, current: Option<String>) -> bool {
    match (stored, current) {
        (Some(a), Some(b)) => a@ == b@,
        _ => false,
    }
}

/// An analysis is stored only for a signature with an identity and a
/// change time: without them a later reuse could not be checked.
pub open spec fn spec_cacheable(signature: FileStateSignature) -> bool {
    signature.identity is Some && signature.changed_unix_ns is Some
}

pub fn cacheable(signature: &FileStateSignature) -> (r: bool)
    ensures
        r == spec_cacheable(*signature),
{
    signature.identity.is_some() && signature.changed_unix_ns.is_some()
}

/// The stored signature of an analysis recorded for `signature`.
pub fn stored_signature(signature: &FileStateSignature, probe_signature: Option<String>) -> (s: StoredSignature)
    ensures
        s.size_bytes == signature.logical_size_bytes,
        s.modified_unix_ns == signature.modified_unix_ns,
        s.changed_unix_ns == signature.changed_unix_ns,
        match signature.identity {
            Some(i) => text_matches(s.filesystem_id, Some(i.filesystem_id)) && text_matches(s.file_id, Some(i.file_id)),
            None => s.filesystem_id is None && s.file_id is None,
        },
        s.probe_signature == probe_signature,
{
    let (filesystem_id, file_id) = match &signature.identity {
        Some(i) => (Some(i.filesystem_id.clone()), Some(i.file_id.clone())),
        None => (None, None),
    };
    StoredSignature {
        size_bytes: signature.logical_size_bytes,
        modified_unix_ns: signature.modified_unix_ns,
        filesystem_id,
        file_id,
        changed_unix_ns: signature.changed_unix_ns,
        probe_signature,
    }
}

/// A stored analysis is reused only when the stored signature is complete
/// and equal to the current one in size, modification time, filesystem,
/// file and change time, and, when a prober is required, was recorded by
/// that prober.
pub open spec fn spec_reusable(stored: StoredSignature, current: FileStateSignature, required_probe: Option<&str>) -> bool {
    &&& stored.size_bytes == current.logical_size_bytes
    &&& stored.modified_unix_ns == current.modified_unix_ns
    &&& current.identity matches Some(i)
    &&& text_matches(stored.filesystem_id, Some(i.filesystem_id))
    &&& text_matches(stored.file_id, Some(i.file_id))
    &&& stored.changed_unix_ns is Some
    &&& stored.changed_unix_ns == current.changed_unix_ns
    &&& match required_probe {
        None => true,
        Some(p) => stored.probe_signature matches Some(s) && s@ == p@,
    }
}

fn same_text(stored: &Option<String>, current: &String) -> (r: bool)
    ensures
        r == text_matches(*stored, Some(*current)),
{
    match stored {
        Some(s) => compare_strings(s.as_str(), current.as_str()) == 0,
        None => false,
    }
}

pub fn reusable(stored: &StoredSignature, current: &FileStateSignature, required_probe: Option<&str>) -> (r: bool)
    ensures
        r == spec_reusable(*stored, *current, required_probe),
{
    if stored.size_bytes != current.logical_size_bytes || stored.modified_unix_ns != current.modified_unix_ns {
        return false;
    }
    let identity = match &current.identity {
        Some(i) => i,
        None => return false,
    };
    if !same_text(&stored.filesystem_id, &identity.filesystem_id) || !same_text(&stored.file_id, &identity.file_id) {
        return false;
    }
    if stored.changed_unix_ns.is_none() || stored.changed_unix_ns != current.changed_unix_ns {
        return false;
    }
    match required_probe {
        None => true,
        Some(p) => match &stored.probe_signature {
            Some(s) => compare_strings(s.as_str(), p) == 0,
            None => false,
        },
    }
}

/// A reused analysis: stable and current until the handle-bound checks
/// of the observation that uses it say otherwise.
pub fn reused_analysis(
    content_type: Option<String>,
    media_kind: MediaKind,
    content_hash: Option<String>,
    media: Option<MediaDescriptor>,
    probe_signature: Option<String>,
    status: ObservationStatus,
    warnings: Vec<String>,
) -> (a: CachedAnalysis)
    ensures
        a == (CachedAnalysis {
            content_type,
            media_kind,
            content_hash,
            media,
            probe_signature,
            status,
            warnings,
            observation_stability: ObservationStability::Stable,
            evidence_validity: EvidenceValidity::Current,
            attempt_count: 1,
        }),
{
    CachedAnalysis {
        content_type,
        media_kind,
        content_hash,
        media,
        probe_signature,
        status,
        warnings,
        observation_stability: ObservationStability::Stable,
        evidence_validity: EvidenceValidity::Current,
        attempt_count: 1,
    }
}

} // verus!
