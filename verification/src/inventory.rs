//! Media classification by detected content type, and the analysis record
//! of one file built from what content detection and media probing found.

use vstd::prelude::*;
use crate::domain::{EvidenceValidity, MediaDescriptor, MediaKind, ObservationStability, ObservationStatus};
use crate::json::push_str;
use crate::observation::CachedAnalysis;
use crate::text::{chars_of, compare_chars, owned, string_of};

verus! {

/// The part of `s` before its first `c`, if `s` contains `c`.
pub open spec fn prefix_before(s: Seq<char>, c: char) -> Option<Seq<char>>
    decreases s.len(),
{
    if s.len() == 0 {
        None
    } else if s[0] == c {
        Some(seq![])
    } else {
        match prefix_before(s.skip(1), c) {
            Some(p) => Some(seq![s[0]] + p),
            None => None,
        }
    }
}

/// The media kind named by the top-level type of a MIME content type.
pub open spec fn spec_classify_content_type(content_type: Seq<char>) -> MediaKind {
    match prefix_before(content_type, '/') {
        Some(p) => if p == seq!['i', 'm', 'a', 'g', 'e'] {
            MediaKind::Image
        } else if p == seq!['v', 'i', 'd', 'e', 'o'] {
            MediaKind::Video
        } else if p == seq!['a', 'u', 'd', 'i', 'o'] {
            MediaKind::Audio
        } else {
            MediaKind::Other
        },
        None => MediaKind::Unknown,
    }
}

/// Splits at the first occurrence of `c`, returning the part before it.
pub fn split_prefix(s: &Vec<char>, c: char) -> (r: Option<Vec<char>>)
    ensures
        match r {
            Some(p) => prefix_before(s@, c) == Some(p@),
            None => prefix_before(s@, c) is None,
        },
{
    let n = s.len();
    let mut i: usize = 0;
    let mut prefix: Vec<char> = Vec::new();
    assert(s@.skip(0) =~= s@);
    while i < n
        invariant
            n == s@.len(),
            i <= n,
            prefix@ == s@.take(i as int),
            forall|k: int| 0 <= k < i ==> s@[k] != c,
            prefix_before(s@, c) == match prefix_before(s@.skip(i as int), c) {
                Some(p) => Some(s@.take(i as int) + p),
                None => None::<Seq<char>>,
            },
        decreases n - i,
    {
        proof {
            assert(s@.skip(i as int)[0] == s@[i as int]);
            assert(s@.skip(i as int).skip(1) =~= s@.skip(i + 1));
            assert(s@.take(i + 1) =~= s@.take(i as int) + seq![s@[i as int]]);
            assert(forall|p: Seq<char>| #![trigger s@.take(i as int) + (seq![s@[i as int]] + p)]
                s@.take(i as int) + (seq![s@[i as int]] + p) =~= s@.take(i + 1) + p);
            assert(s@.take(i as int) + Seq::<char>::empty() =~= s@.take(i as int));
        }
        if s[i] == c {
            return Some(prefix);
        }
        prefix.push(s[i]);
        i = i + 1;
    }
    None
}

/// Classifies a content type such as `image/png` by its top-level type.
pub fn classify_content_type(content_type: &str) -> (kind: MediaKind)
    ensures
        kind == spec_classify_content_type(content_type@),
{
    let chars = chars_of(content_type);
    match split_prefix(&chars, '/') {
        Some(prefix) => {
            if compare_chars(&prefix, &vec!['i', 'm', 'a', 'g', 'e']) == 0 {
                MediaKind::Image
            } else if compare_chars(&prefix, &vec!['v', 'i', 'd', 'e', 'o']) == 0 {
                MediaKind::Video
            } else if compare_chars(&prefix, &vec!['a', 'u', 'd', 'i', 'o']) == 0 {
                MediaKind::Audio
            } else {
                MediaKind::Other
            }
        },
        None => MediaKind::Unknown,
    }
}

/// The probe signature recorded for an analysis: none unless probing was
/// requested, and a marker when no prober was available.
pub open spec fn probe_signature_of(probe_media: bool, ffprobe_signature: Option<&str>) -> Option<Seq<char>> {
    if probe_media {
        Some(match ffprobe_signature {
            Some(s) => s@,
            None => "ffprobe-unavailable"@,
        })
    } else {
        None
    }
}

pub open spec fn text_option_view(o: Option<String>) -> Option<Seq<char>> {
    match o {
        Some(s) => Some(s@),
        None => None,
    }
}

pub open spec fn warning_views(w: Seq<String>) -> Seq<Seq<char>> {
    w.map_values(|s: String| s@)
}

fn probe_signature(probe_media: bool, ffprobe_signature: Option<&str>) -> (r: Option<String>)
    ensures
        text_option_view(r) == probe_signature_of(probe_media, ffprobe_signature),
{
    if probe_media {
        match ffprobe_signature {
            Some(s) => Some(owned(s)),
            None => Some(owned("ffprobe-unavailable")),
        }
    } else {
        None
    }
}

/// The analysis of a file whose content could not be inspected.
pub fn detection_failure(error: &str, probe_media: bool, ffprobe_signature: Option<&str>) -> (a: CachedAnalysis)
    ensures
        a.content_type is None,
        a.media_kind == MediaKind::Unknown,
        a.content_hash is None,
        a.media is None,
        text_option_view(a.probe_signature) == probe_signature_of(probe_media, ffprobe_signature),
        a.status == ObservationStatus::Unreadable,
        warning_views(a.warnings@) == seq!["content inspection failed: "@ + error@],
        a.observation_stability == ObservationStability::Unreadable,
        a.evidence_validity == EvidenceValidity::Unavailable,
        a.attempt_count == 1,
{
    let mut t: Vec<char> = Vec::new();
    push_str(&mut t, "content inspection failed: ");
    push_str(&mut t, error);
    assert(t@ =~= "content inspection failed: "@ + error@);
    let warnings = vec![string_of(&t)];
    assert(warning_views(warnings@) =~= seq!["content inspection failed: "@ + error@]);
    CachedAnalysis {
        content_type: None,
        media_kind: MediaKind::Unknown,
        content_hash: None,
        media: None,
        probe_signature: probe_signature(probe_media, ffprobe_signature),
        status: ObservationStatus::Unreadable,
        warnings,
        observation_stability: ObservationStability::Unreadable,
        evidence_validity: EvidenceValidity::Unavailable,
        attempt_count: 1,
    }
}

/// The media kind of a detected content type; unknown when nothing was
/// detected.
pub open spec fn detected_kind(content_type: Option<String>) -> MediaKind {
    match content_type {
        Some(t) => spec_classify_content_type(t@),
        None => MediaKind::Unknown,
    }
}

/// Files of an unknown or non-media kind are unsupported; media files are
/// analysed.
pub open spec fn status_of(kind: MediaKind) -> ObservationStatus {
    match kind {
        MediaKind::Unknown | MediaKind::Other => ObservationStatus::Unsupported,
        _ => ObservationStatus::Analyzed,
    }
}

/// Whether a file's stream metadata is probed: probing was requested, a
/// prober is available, and the file is an image, a video or audio.
pub fn wants_probe(probe_media: bool, prober_available: bool, kind: MediaKind) -> (r: bool)
    ensures
        r == (probe_media && prober_available && (kind == MediaKind::Image || kind == MediaKind::Video || kind == MediaKind::Audio)),
{
    probe_media && prober_available && match kind {
        MediaKind::Image | MediaKind::Video | MediaKind::Audio => true,
        _ => false,
    }
}

/// What probing a file's streams gave.
pub enum ProbeOutcome {
    NotRun,
    Described(MediaDescriptor),
    Failed(String),
}

pub open spec fn probe_warnings(probe: ProbeOutcome) -> Seq<Seq<char>> {
    match probe {
        ProbeOutcome::Failed(e) => seq![e@],
        _ => seq![],
    }
}

pub open spec fn missing_prober_warnings(probe_media: bool, ffprobe_signature: Option<&str>, status: ObservationStatus) -> Seq<Seq<char>> {
    if probe_media && ffprobe_signature is None && status != ObservationStatus::Unsupported {
        seq!["ffprobe is unavailable; stream metadata was not collected"@]
    } else {
        seq![]
    }
}

/// The analysis of a file from its detected content type and what probing
/// its streams gave: the kind follows the content type, unsupported kinds
/// are marked so, a failed probe leaves its message as a warning, and a
/// requested probe without a prober is noted for media files.
pub fn detected_analysis(content_type: Option<String>, probe_media: bool, ffprobe_signature: Option<&str>, probe: ProbeOutcome) -> (a: CachedAnalysis)
    ensures
        a.content_type == content_type,
        a.media_kind == detected_kind(content_type),
        a.status == status_of(detected_kind(content_type)),
        a.content_hash is None,
        a.media == match probe {
            ProbeOutcome::Described(m) => Some(m),
            _ => None,
        },
        text_option_view(a.probe_signature) == probe_signature_of(probe_media, ffprobe_signature),
        warning_views(a.warnings@) == probe_warnings(probe)
            + missing_prober_warnings(probe_media, ffprobe_signature, status_of(detected_kind(content_type))),
        a.observation_stability == ObservationStability::Stable,
        a.evidence_validity == EvidenceValidity::Current,
        a.attempt_count == 1,
{
    let kind = match &content_type {
        Some(t) => classify_content_type(t.as_str()),
        None => MediaKind::Unknown,
    };
    let status = match kind {
        MediaKind::Unknown | MediaKind::Other => ObservationStatus::Unsupported,
        _ => ObservationStatus::Analyzed,
    };
    let ghost probe_view = probe_warnings(probe);
    let mut warnings: Vec<String> = Vec::new();
    let media = match probe {
        ProbeOutcome::Described(m) => Some(m),
        ProbeOutcome::Failed(e) => {
            warnings.push(e);
            None
        },
        ProbeOutcome::NotRun => None,
    };
    assert(warning_views(warnings@) =~= probe_view);
    let unsupported = match status {
        ObservationStatus::Unsupported => true,
        _ => false,
    };
    if probe_media && ffprobe_signature.is_none() && !unsupported {
        let ghost before = warnings@;
        warnings.push(owned("ffprobe is unavailable; stream metadata was not collected"));
        assert(warning_views(warnings@) =~= warning_views(before).push("ffprobe is unavailable; stream metadata was not collected"@));
    }
    assert(warning_views(warnings@) =~= probe_view + missing_prober_warnings(probe_media, ffprobe_signature, status));
    CachedAnalysis {
        content_type,
        media_kind: kind,
        content_hash: None,
        media,
        probe_signature: probe_signature(probe_media, ffprobe_signature),
        status,
        warnings,
        observation_stability: ObservationStability::Stable,
        evidence_validity: EvidenceValidity::Current,
        attempt_count: 1,
    }
}

/// The MIME type `infer` recognizes from the first bytes of a file, if any.
pub uninterp spec fn inferred_type(header: Seq<u8>) -> Option<Seq<char>>;

/// How many bytes of a file its content type is detected from.
pub const SNIFF_BYTES: usize = 8192;

/// Wraps `infer::get` and `Type::mime_type`: the MIME type named by
/// `inferred_type` for the same bytes. `infer` matches fixed signatures, so
/// the result is a function of the bytes alone.
#[verifier::external_body]
pub(crate) fn infer_content_type(header: &[u8]) -> (r: Option<String>)
    ensures
        text_option_view(r) == inferred_type(header@),
{
    infer::get(header).map(|kind| kind.mime_type().to_owned())
}


} // verus!
