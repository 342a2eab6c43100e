//! One handle-bound observation attempt as a sequence of steps. The caller
//! performs each request (a look at the path or the handle, opening the
//! file, reading its header or its next chunk, probing its streams) and
//! hands back what it found; each step decides what comes next: the path is
//! checked before it is opened, the handle after it is opened, the content
//! type detected and the streams probed unless the analysis is cached, the
//! content hashed when asked for, the handle checked again, and the path
//! last.

use vstd::prelude::*;
use crate::digest::{blake3_hex, ContentHasher};
use crate::domain::{EvidenceValidity, MediaKind, ObservationStability, ObservationStatus};
use crate::filesystem::FileStateSignature;
use crate::inventory::{
    detected_analysis, infer_content_type, inferred_type, missing_prober_warnings, probe_signature_of,
    probe_warnings, spec_classify_content_type, status_of, text_option_view, wants_probe, warning_views,
    ProbeOutcome,
};
use crate::observation::{
    analysis_failure, check_after_evidence, check_before_open, check_final_handle, check_opened_handle,
    evidence_change, failure_is, handle_look_refusal, hashing_failure, interrupted, open_failure,
    path_look_refusal, refused_as, AttemptFailure, CachedAnalysis, MetadataLook,
};

verus! {

/// Where an attempt stands, with what it has established so far.
pub enum AttemptStage {
    /// Nothing done yet; the cached analysis, if any, replaces detection.
    Start { cached: Option<CachedAnalysis> },
    /// Waiting for the look at the path before it is opened.
    PathLook { cached: Option<CachedAnalysis> },
    /// Waiting for the file to be opened.
    Opening { cached: Option<CachedAnalysis>, before: FileStateSignature },
    /// Waiting for the look at the opened handle.
    HandleLook { cached: Option<CachedAnalysis>, before: FileStateSignature },
    /// Waiting for the first bytes of the file.
    Header { opened: FileStateSignature },
    /// Waiting for the streams to be probed.
    Probe { opened: FileStateSignature, content_type: Option<String> },
    /// Waiting for the next chunk of content to hash.
    Hashing { opened: FileStateSignature, analysis: CachedAnalysis, hasher: ContentHasher },
    /// Waiting for the second look at the handle.
    FinalLook { opened: FileStateSignature, analysis: CachedAnalysis },
    /// Waiting for the last look at the path.
    AfterLook { final_signature: FileStateSignature, analysis: CachedAnalysis },
}

/// What the caller found doing the last request.
pub enum AttemptFact {
    /// Whether the observation was cancelled before the attempt began.
    Checked { cancelled: bool },
    /// A look at the path or the handle.
    Looked(Result<MetadataLook, String>),
    /// Opening the file.
    Opened(Result<(), String>),
    /// The file's first bytes, at most `SNIFF_BYTES` of them.
    HeaderRead(Result<Vec<u8>, String>),
    /// Probing the streams.
    Probed(ProbeOutcome),
    /// Whether the observation was cancelled before the read, and the next
    /// chunk read (empty at the end of the file).
    ChunkRead { cancelled: bool, chunk: Result<Vec<u8>, String> },
}

/// What the caller does next.
#[derive(Debug, Clone, Copy, PartialEq, Eq, Structural)]
pub enum AttemptRequest {
    LookPath,
    Open,
    LookHandle,
    ReadHeader,
    Probe,
    ReadChunk,
}

/// The outcome of one step: the next stage and request, or the attempt's
/// result with the final signature of the handle.
pub enum AttemptAction {
    Next(AttemptStage, AttemptRequest),
    Done(Result<(CachedAnalysis, FileStateSignature), AttemptFailure>),
}

/// Whether `fact` answers the request that led to `stage`.
pub open spec fn fact_fits(stage: AttemptStage, fact: AttemptFact) -> bool {
    match stage {
        AttemptStage::Start { .. } => fact is Checked,
        AttemptStage::PathLook { .. } => fact is Looked,
        AttemptStage::Opening { .. } => fact is Opened,
        AttemptStage::HandleLook { .. } => fact is Looked,
        AttemptStage::Header { .. } => fact is HeaderRead,
        AttemptStage::Probe { .. } => fact is Probed,
        AttemptStage::Hashing { .. } => fact is ChunkRead,
        AttemptStage::FinalLook { .. } => fact is Looked,
        AttemptStage::AfterLook { .. } => fact is Looked,
    }
}

/// The kind of a detected content type.
pub open spec fn kind_of(content_type: Option<Seq<char>>) -> MediaKind {
    match content_type {
        Some(t) => spec_classify_content_type(t),
        None => MediaKind::Unknown,
    }
}

/// The analysis detected from a content type and a probe outcome.
pub open spec fn detected_from(
    a: CachedAnalysis,
    content_type: Option<Seq<char>>,
    probe_media: bool,
    prober: Option<&str>,
    probe: ProbeOutcome,
) -> bool {
    &&& text_option_view(a.content_type) == content_type
    &&& a.media_kind == kind_of(content_type)
    &&& a.status == status_of(kind_of(content_type))
    &&& a.content_hash is None
    &&& a.media == match probe {
        ProbeOutcome::Described(m) => Some(m),
        _ => None,
    }
    &&& text_option_view(a.probe_signature) == probe_signature_of(probe_media, prober)
    &&& warning_views(a.warnings@) == probe_warnings(probe)
        + missing_prober_warnings(probe_media, prober, status_of(kind_of(content_type)))
    &&& a.observation_stability == ObservationStability::Stable
    &&& a.evidence_validity == EvidenceValidity::Current
    &&& a.attempt_count == 1
}

/// Whether content is hashed for an analysis: hashing was asked for and
/// the file was readable.
pub open spec fn hashes(needs_hash: bool, a: CachedAnalysis) -> bool {
    needs_hash && a.status != ObservationStatus::Unreadable
}

/// After the evidence of `a` is settled: hashing from an empty hasher with
/// the cached hash cleared, or the second look at the handle.
pub open spec fn continues_with(action: AttemptAction, opened: FileStateSignature, a: CachedAnalysis, needs_hash: bool) -> bool {
    if hashes(needs_hash, a) {
        action matches AttemptAction::Next(AttemptStage::Hashing { opened: o, analysis: b, hasher: h }, AttemptRequest::ReadChunk)
            && o == opened && b == (CachedAnalysis { content_hash: None, ..a }) && h.content() == Seq::<u8>::empty()
    } else {
        action matches AttemptAction::Next(AttemptStage::FinalLook { opened: o, analysis: b }, AttemptRequest::LookHandle)
            && o == opened && b == a
    }
}

/// The attempt failed as `refusal` says.
pub open spec fn fails_as(action: AttemptAction, refusal: Option<(ObservationStability, EvidenceValidity, Seq<char>)>) -> bool {
    match refusal {
        Some((stability, validity, message)) => action matches AttemptAction::Done(Err(f))
            && failure_is(f, stability, validity, message),
        None => false,
    }
}

pub open spec fn before_open_refusal(discovered: FileStateSignature, look: Result<MetadataLook, String>) -> Option<(ObservationStability, EvidenceValidity, Seq<char>)> {
    path_look_refusal(discovered, look, EvidenceValidity::Unavailable,
        "failed to inspect discovered path: "@, "discovered path was no longer a regular file before open"@,
        "before open"@, ObservationStability::ChangedDuringHash, "path changed after discovery"@)
}

pub open spec fn opened_refusal(before: FileStateSignature, look: Result<MetadataLook, String>) -> Option<(ObservationStability, EvidenceValidity, Seq<char>)> {
    handle_look_refusal(before, look, EvidenceValidity::Unavailable,
        "failed to inspect opened file handle: "@, "opened handle did not refer to a regular file"@,
        Some("opened handle"@), ObservationStability::ReplacedDuringScan, "opened handle did not match the inspected path"@)
}

pub open spec fn final_refusal(opened: FileStateSignature, look: Result<MetadataLook, String>, probe_media: bool) -> Option<(ObservationStability, EvidenceValidity, Seq<char>)> {
    handle_look_refusal(opened, look, EvidenceValidity::Stale,
        "failed to re-inspect opened file handle: "@, "opened handle stopped reporting a regular file"@,
        None, evidence_change(probe_media), "opened filesystem object changed during evidence collection"@)
}

pub open spec fn after_refusal(final_signature: FileStateSignature, look: Result<MetadataLook, String>) -> Option<(ObservationStability, EvidenceValidity, Seq<char>)> {
    path_look_refusal(final_signature, look, EvidenceValidity::Stale,
        "failed to re-inspect path after evidence collection: "@, "path was no longer a regular file after evidence collection"@,
        "after evidence collection"@, ObservationStability::ReplacedDuringScan, "path no longer referenced the opened filesystem object"@)
}

/// The step from `stage` on `fact`, for a file discovered with signature
/// `discovered`.
pub open spec fn step_matches(
    stage: AttemptStage,
    fact: AttemptFact,
    discovered: FileStateSignature,
    needs_hash: bool,
    probe_media: bool,
    prober: Option<&str>,
    action: AttemptAction,
) -> bool {
    match (stage, fact) {
        (AttemptStage::Start { cached }, AttemptFact::Checked { cancelled }) => if cancelled {
            action matches AttemptAction::Done(Err(f)) && f.interrupted
                && f.stability == ObservationStability::RetryExhausted
                && f.validity == EvidenceValidity::Unavailable
                && f.message@ == "observation interrupted"@
        } else {
            action matches AttemptAction::Next(AttemptStage::PathLook { cached: c }, AttemptRequest::LookPath) && c == cached
        },
        (AttemptStage::PathLook { cached }, AttemptFact::Looked(look)) => match before_open_refusal(discovered, look) {
            Some(_) => fails_as(action, before_open_refusal(discovered, look)),
            None => action matches AttemptAction::Next(AttemptStage::Opening { cached: c, before: b }, AttemptRequest::Open)
                && c == cached && b == look->Ok_0.signature,
        },
        (AttemptStage::Opening { cached, before }, AttemptFact::Opened(opened)) => match opened {
            Err(e) => fails_as(action, Some((ObservationStability::Unreadable, EvidenceValidity::Unavailable,
                "failed to open discovered file: "@ + e@))),
            Ok(()) => action matches AttemptAction::Next(AttemptStage::HandleLook { cached: c, before: b }, AttemptRequest::LookHandle)
                && c == cached && b == before,
        },
        (AttemptStage::HandleLook { cached, before }, AttemptFact::Looked(look)) => match opened_refusal(before, look) {
            Some(_) => fails_as(action, opened_refusal(before, look)),
            None => match cached {
                Some(a) => continues_with(action, look->Ok_0.signature, a, needs_hash),
                None => action matches AttemptAction::Next(AttemptStage::Header { opened: o }, AttemptRequest::ReadHeader)
                    && o == look->Ok_0.signature,
            },
        },
        (AttemptStage::Header { opened }, AttemptFact::HeaderRead(header)) => match header {
            Err(e) => fails_as(action, Some((ObservationStability::Unreadable, EvidenceValidity::Unavailable,
                "opened-handle content analysis failed: "@ + e@))),
            Ok(h) => {
                let content_type = inferred_type(h@);
                if wants_probe_spec(probe_media, prober is Some, kind_of(content_type)) {
                    action matches AttemptAction::Next(AttemptStage::Probe { opened: o, content_type: t }, AttemptRequest::Probe)
                        && o == opened && text_option_view(t) == content_type
                } else {
                    settled(action, opened, content_type, probe_media, prober, ProbeOutcome::NotRun, needs_hash)
                }
            },
        },
        (AttemptStage::Probe { opened, content_type }, AttemptFact::Probed(probe)) =>
            settled(action, opened, text_option_view(content_type), probe_media, prober, probe, needs_hash),
        (AttemptStage::Hashing { opened, analysis, hasher }, AttemptFact::ChunkRead { cancelled, chunk }) => if cancelled {
            action matches AttemptAction::Done(Err(f)) && f.interrupted
                && f.stability == ObservationStability::RetryExhausted
                && f.validity == EvidenceValidity::Unavailable
                && f.message@ == "observation interrupted"@
        } else {
            match chunk {
                Err(e) => fails_as(action, Some((ObservationStability::Unreadable, EvidenceValidity::Unavailable,
                    "opened-handle hashing failed: "@ + e@))),
                Ok(bytes) => if bytes@.len() > 0 {
                    action matches AttemptAction::Next(AttemptStage::Hashing { opened: o, analysis: b, hasher: h }, AttemptRequest::ReadChunk)
                        && o == opened && b == analysis && h.content() == hasher.content() + bytes@
                } else {
                    action matches AttemptAction::Next(AttemptStage::FinalLook { opened: o, analysis: b }, AttemptRequest::LookHandle)
                        && o == opened
                        && b == (CachedAnalysis { content_hash: b.content_hash, ..analysis })
                        && (b.content_hash matches Some(hex) && hex@ == blake3_hex(hasher.content()))
                },
            }
        },
        (AttemptStage::FinalLook { opened, analysis }, AttemptFact::Looked(look)) => match final_refusal(opened, look, probe_media) {
            Some(_) => fails_as(action, final_refusal(opened, look, probe_media)),
            None => action matches AttemptAction::Next(AttemptStage::AfterLook { final_signature: s, analysis: b }, AttemptRequest::LookPath)
                && s == look->Ok_0.signature && b == analysis,
        },
        (AttemptStage::AfterLook { final_signature, analysis }, AttemptFact::Looked(look)) => match after_refusal(final_signature, look) {
            Some(_) => fails_as(action, after_refusal(final_signature, look)),
            None => action matches AttemptAction::Done(Ok((b, s))) && b == analysis && s == final_signature,
        },
        _ => false,
    }
}

pub open spec fn wants_probe_spec(probe_media: bool, prober_available: bool, kind: MediaKind) -> bool {
    probe_media && prober_available && (kind == MediaKind::Image || kind == MediaKind::Video || kind == MediaKind::Audio)
}

/// The analysis is detected from the content type and the probe, then the
/// attempt continues with it.
pub open spec fn settled(
    action: AttemptAction,
    opened: FileStateSignature,
    content_type: Option<Seq<char>>,
    probe_media: bool,
    prober: Option<&str>,
    probe: ProbeOutcome,
    needs_hash: bool,
) -> bool {
    match action {
        AttemptAction::Next(AttemptStage::Hashing { opened: o, analysis: b, hasher: h }, AttemptRequest::ReadChunk) =>
            needs_hash && o == opened && detected_from(b, content_type, probe_media, prober, probe)
                && h.content() == Seq::<u8>::empty(),
        AttemptAction::Next(AttemptStage::FinalLook { opened: o, analysis: b }, AttemptRequest::LookHandle) =>
            !needs_hash && o == opened && detected_from(b, content_type, probe_media, prober, probe),
        _ => false,
    }
}

fn refusal_failure(r: Result<(), AttemptFailure>) -> (f: AttemptFailure)
    requires
        r is Err,
    ensures
        r == Err::<(), AttemptFailure>(f),
{
    match r {
        Err(f) => f,
        Ok(()) => vstd::pervasive::unreached(),
    }
}

/// Continues an attempt once the evidence of `analysis` is settled.
fn continue_with(opened: FileStateSignature, analysis: CachedAnalysis, needs_hash: bool) -> (action: AttemptAction)
    ensures
        continues_with(action, opened, analysis, needs_hash),
{
    if needs_hash && analysis.status != ObservationStatus::Unreadable {
        let mut cleared = analysis;
        cleared.content_hash = None;
        AttemptAction::Next(AttemptStage::Hashing { opened, analysis: cleared, hasher: ContentHasher::new() }, AttemptRequest::ReadChunk)
    } else {
        AttemptAction::Next(AttemptStage::FinalLook { opened, analysis }, AttemptRequest::LookHandle)
    }
}

/// Detects the analysis of a file whose streams were probed as `probe`,
/// then continues the attempt.
fn settle(
    opened: FileStateSignature,
    content_type: Option<String>,
    probe_media: bool,
    prober: Option<&str>,
    probe: ProbeOutcome,
    needs_hash: bool,
) -> (action: AttemptAction)
    ensures
        settled(action, opened, text_option_view(content_type), probe_media, prober, probe, needs_hash),
{
    let ghost view = text_option_view(content_type);
    let ghost p = probe;
    let analysis = detected_analysis(content_type, probe_media, prober, probe);
    assert(analysis.status != ObservationStatus::Unreadable);
    let action = continue_with(opened, analysis, needs_hash);
    proof {
        if needs_hash {
            assert(detected_from(CachedAnalysis { content_hash: None, ..analysis }, view, probe_media, prober, p));
        }
    }
    action
}

/// One step of an attempt: what comes after `stage` given `fact`, for a
/// file discovered with signature `discovered`, with hashing asked for when
/// `needs_hash`, probing when `probe_media`, and the available prober's
/// signature.
pub fn attempt_step(
    stage: AttemptStage,
    fact: AttemptFact,
    discovered: &FileStateSignature,
    needs_hash: bool,
    probe_media: bool,
    prober: Option<&str>,
) -> (action: AttemptAction)
    requires
        fact_fits(stage, fact),
    ensures
        step_matches(stage, fact, *discovered, needs_hash, probe_media, prober, action),
{
    match (stage, fact) {
        (AttemptStage::Start { cached }, AttemptFact::Checked { cancelled }) => {
            if cancelled {
                AttemptAction::Done(Err(interrupted()))
            } else {
                AttemptAction::Next(AttemptStage::PathLook { cached }, AttemptRequest::LookPath)
            }
        },
        (AttemptStage::PathLook { cached }, AttemptFact::Looked(look)) => {
            let checked = check_before_open(discovered, &look);
            if checked.is_err() {
                return AttemptAction::Done(Err(refusal_failure(checked)));
            }
            match look {
                Ok(l) => AttemptAction::Next(AttemptStage::Opening { cached, before: l.signature }, AttemptRequest::Open),
                Err(_) => vstd::pervasive::unreached(),
            }
        },
        (AttemptStage::Opening { cached, before }, AttemptFact::Opened(opened)) => {
            match opened {
                Err(e) => AttemptAction::Done(Err(open_failure(e.as_str()))),
                Ok(()) => AttemptAction::Next(AttemptStage::HandleLook { cached, before }, AttemptRequest::LookHandle),
            }
        },
        (AttemptStage::HandleLook { cached, before }, AttemptFact::Looked(look)) => {
            let checked = check_opened_handle(&before, &look);
            if checked.is_err() {
                return AttemptAction::Done(Err(refusal_failure(checked)));
            }
            let opened = match look {
                Ok(l) => l.signature,
                Err(_) => vstd::pervasive::unreached(),
            };
            match cached {
                Some(analysis) => continue_with(opened, analysis, needs_hash),
                None => AttemptAction::Next(AttemptStage::Header { opened }, AttemptRequest::ReadHeader),
            }
        },
        (AttemptStage::Header { opened }, AttemptFact::HeaderRead(header)) => {
            match header {
                Err(e) => AttemptAction::Done(Err(analysis_failure(e.as_str()))),
                Ok(h) => {
                    let content_type = infer_content_type(h.as_slice());
                    let kind = match &content_type {
                        Some(t) => crate::inventory::classify_content_type(t.as_str()),
                        None => MediaKind::Unknown,
                    };
                    if wants_probe(probe_media, prober.is_some(), kind) {
                        AttemptAction::Next(AttemptStage::Probe { opened, content_type }, AttemptRequest::Probe)
                    } else {
                        settle(opened, content_type, probe_media, prober, ProbeOutcome::NotRun, needs_hash)
                    }
                },
            }
        },
        (AttemptStage::Probe { opened, content_type }, AttemptFact::Probed(probe)) => {
            settle(opened, content_type, probe_media, prober, probe, needs_hash)
        },
        (AttemptStage::Hashing { opened, analysis, hasher }, AttemptFact::ChunkRead { cancelled, chunk }) => {
            if cancelled {
                return AttemptAction::Done(Err(interrupted()));
            }
            match chunk {
                Err(e) => AttemptAction::Done(Err(hashing_failure(e.as_str()))),
                Ok(bytes) => {
                    if bytes.len() > 0 {
                        let mut hasher = hasher;
                        hasher.absorb(bytes.as_slice());
                        AttemptAction::Next(AttemptStage::Hashing { opened, analysis, hasher }, AttemptRequest::ReadChunk)
                    } else {
                        let mut analysis = analysis;
                        analysis.content_hash = Some(hasher.hex());
                        AttemptAction::Next(AttemptStage::FinalLook { opened, analysis }, AttemptRequest::LookHandle)
                    }
                },
            }
        },
        (AttemptStage::FinalLook { opened, analysis }, AttemptFact::Looked(look)) => {
            let checked = check_final_handle(&opened, &look, probe_media);
            if checked.is_err() {
                return AttemptAction::Done(Err(refusal_failure(checked)));
            }
            match look {
                Ok(l) => AttemptAction::Next(AttemptStage::AfterLook { final_signature: l.signature, analysis }, AttemptRequest::LookPath),
                Err(_) => vstd::pervasive::unreached(),
            }
        },
        (AttemptStage::AfterLook { final_signature, analysis }, AttemptFact::Looked(look)) => {
            let checked = check_after_evidence(&final_signature, &look);
            if checked.is_err() {
                return AttemptAction::Done(Err(refusal_failure(checked)));
            }
            AttemptAction::Done(Ok((analysis, final_signature)))
        },
        _ => vstd::pervasive::unreached(),
    }
}

} // verus!
