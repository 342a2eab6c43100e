//! The decisions of the built-in lossless-PNG review profile: which
//! observations it considers, what limits the evidence of each, the status
//! of each entry, and the coverage of the whole analysis. Profiles only read
//! accepted observations; they produce no outputs and claim no savings.

use vstd::prelude::*;
use crate::domain::{EvidenceValidity, FileObservation, MediaKind, ObservationStability, ObservationStatus};
use crate::text::{chars_of, compare_strings};

verus! {

pub const LOSSLESS_PNG_PROFILE_ID: &'static str = "optiflow.builtin.lossless-png-review";
pub const LOSSLESS_PNG_PROFILE_VERSION: &'static str = "1.0.0";

/// Why an entry's evidence is limited.
#[derive(Debug, Clone, Copy, PartialEq, Eq, PartialOrd, Ord, Structural)]
pub enum MediaProfileLimitation {
    SourceEvidenceNotCurrent,
    MediaProbeDisabled,
    ProviderUnavailable,
    ProviderResultUnavailable,
    ProviderEvidenceInvalid,
}

/// What one entry of the analysis is.
#[derive(Debug, Clone, Copy, PartialEq, Eq, Structural)]
pub enum MediaProfileEntryStatus {
    Opportunity,
    Excluded,
    InsufficientEvidence,
}

/// How much of the candidate media the analysis could cover.
#[derive(Debug, Clone, Copy, PartialEq, Eq, Structural)]
pub enum MediaProfileCoverageStatus {
    NotApplicable,
    NotRequested,
    Complete,
    Partial,
    Unavailable,
}

/// The PNG facts an entry reports, whatever its status.
#[derive(Debug, Clone, PartialEq, Eq)]
pub struct NormalizedPngEvidence {
    pub content_type: String,
    pub format_name: Option<String>,
    pub codec_name: Option<String>,
    pub width: Option<u32>,
    pub height: Option<u32>,
    pub stream_count: u64,
}

pub open spec fn text_is(o: Option<String>, t: Seq<char>) -> bool {
    o matches Some(s) && s@ == t
}

/// The profile considers observations detected as PNG images.
pub open spec fn spec_png_candidate(o: FileObservation) -> bool {
    text_is(o.content_type, "image/png"@) && o.media_kind == MediaKind::Image
}

fn text_equals(o: &Option<String>, t: &str) -> (r: bool)
    ensures
        r == text_is(*o, t@),
{
    match o {
        Some(s) => compare_strings(s.as_str(), t) == 0,
        None => false,
    }
}

pub fn is_png_candidate(o: &FileObservation) -> (r: bool)
    ensures
        r == spec_png_candidate(*o),
{
    text_equals(&o.content_type, "image/png") && o.media_kind == MediaKind::Image
}

/// The source observation is current: stable, current evidence of an
/// analysed file.
pub open spec fn current_source(o: FileObservation) -> bool {
    &&& o.evidence_validity == EvidenceValidity::Current
    &&& o.observation_stability == ObservationStability::Stable
    &&& o.status == ObservationStatus::Analyzed
}

/// Whether `name` is one of the comma-separated parts of `s`.
pub open spec fn has_part(s: Seq<char>, name: Seq<char>) -> bool {
    exists|start: int| #![trigger s.subrange(start, start + name.len())]
        0 <= start && start + name.len() <= s.len()
        && s.subrange(start, start + name.len()) == name
        && (start == 0 || s[start - 1] == ',')
        && (start + name.len() == s.len() || s[start + name.len()] == ',')
}

/// The probe evidence is that of a single-stream PNG of positive size,
/// with no audio facts.
pub open spec fn spec_valid_png(o: FileObservation) -> bool {
    o.media matches Some(m)
        && (m.format_name matches Some(n) && has_part(n@, "png_pipe"@))
        && m.streams@.len() == 1
        && text_is(m.streams@[0].codec_type, "video"@)
        && text_is(m.streams@[0].codec_name, "png"@)
        && (m.streams@[0].width matches Some(w) && w > 0)
        && (m.streams@[0].height matches Some(h) && h > 0)
        && m.streams@[0].sample_rate is None
        && m.streams@[0].channels is None
}

fn part_at(s: &Vec<char>, start: usize, name: &Vec<char>) -> (r: bool)
    requires
        start + name@.len() <= s@.len(),
    ensures
        r == (s@.subrange(start as int, start + name@.len()) == name@
            && (start == 0 || s@[start - 1] == ',')
            && (start + name@.len() == s@.len() || s@[start + name@.len()] == ',')),
{
    if start > 0 && s[start - 1] != ',' {
        return false;
    }
    assert(start + name.len() <= s.len());
    let end = start + name.len();
    if end < s.len() && s[end] != ',' {
        return false;
    }
    let mut k: usize = 0;
    while k < name.len()
        invariant
            start + name@.len() <= s@.len(),
            start + name.len() <= s.len(),
            k <= name@.len(),
            forall|j: int| 0 <= j < k ==> s@[start + j] == name@[j],
        decreases name@.len() - k,
    {
        if s[start + k] != name[k] {
            assert(s@.subrange(start as int, start + name@.len())[k as int] != name@[k as int]);
            return false;
        }
        k = k + 1;
    }
    assert(s@.subrange(start as int, start + name@.len()) =~= name@);
    true
}

fn contains_part(text: &str, name: &str) -> (r: bool)
    ensures
        r == has_part(text@, name@),
{
    let s = chars_of(text);
    let n = chars_of(name);
    if n.len() > s.len() {
        return false;
    }
    let last = s.len() - n.len();
    let mut start: usize = 0;
    while start <= last
        invariant
            s@ == text@,
            n@ == name@,
            n@.len() <= s@.len(),
            last == s@.len() - n@.len(),
            forall|p: int| 0 <= p < start ==> !(#[trigger] s@.subrange(p, p + n@.len()) == n@
                && (p == 0 || s@[p - 1] == ',') && (p + n@.len() == s@.len() || s@[p + n@.len()] == ',')),
        decreases last - start,
    {
        if part_at(&s, start, &n) {
            return true;
        }
        if start == last {
            return false;
        }
        start = start + 1;
    }
    false
}

/// Whether the probe evidence is that of a well-formed PNG.
pub fn valid_png_evidence(o: &FileObservation) -> (r: bool)
    ensures
        r == spec_valid_png(*o),
{
    let m = match &o.media {
        Some(m) => m,
        None => return false,
    };
    let named = match &m.format_name {
        Some(n) => contains_part(n.as_str(), "png_pipe"),
        None => false,
    };
    if !named || m.streams.len() != 1 {
        return false;
    }
    let s = &m.streams[0];
    text_equals(&s.codec_type, "video")
        && text_equals(&s.codec_name, "png")
        && match s.width { Some(w) => w > 0, None => false }
        && match s.height { Some(h) => h > 0, None => false }
        && s.sample_rate.is_none()
        && s.channels.is_none()
}

/// The limitations of an entry, in the order they are found: a source that
/// is not current; probing disabled, no provider, or no provider result;
/// and, when nothing else limits it, probe evidence that is not a valid PNG.
pub open spec fn spec_limitations(o: FileObservation, probe_media: bool, provider_available: bool) -> Seq<MediaProfileLimitation> {
    let first: Seq<MediaProfileLimitation> = if current_source(o) {
        seq![]
    } else {
        seq![MediaProfileLimitation::SourceEvidenceNotCurrent]
    };
    let second: Seq<MediaProfileLimitation> = if !probe_media {
        seq![MediaProfileLimitation::MediaProbeDisabled]
    } else if !provider_available {
        seq![MediaProfileLimitation::ProviderUnavailable]
    } else if o.media is None {
        seq![MediaProfileLimitation::ProviderResultUnavailable]
    } else {
        seq![]
    };
    if first + second == Seq::<MediaProfileLimitation>::empty() && !spec_valid_png(o) {
        seq![MediaProfileLimitation::ProviderEvidenceInvalid]
    } else {
        first + second
    }
}

pub fn entry_limitations(o: &FileObservation, probe_media: bool, provider_available: bool) -> (r: Vec<MediaProfileLimitation>)
    ensures
        r@ == spec_limitations(*o, probe_media, provider_available),
{
    let mut r: Vec<MediaProfileLimitation> = Vec::new();
    let current = o.evidence_validity == EvidenceValidity::Current
        && o.observation_stability == ObservationStability::Stable
        && o.status == ObservationStatus::Analyzed;
    if !current {
        r.push(MediaProfileLimitation::SourceEvidenceNotCurrent);
    }
    if !probe_media {
        r.push(MediaProfileLimitation::MediaProbeDisabled);
    } else if !provider_available {
        r.push(MediaProfileLimitation::ProviderUnavailable);
    } else if o.media.is_none() {
        r.push(MediaProfileLimitation::ProviderResultUnavailable);
    }
    if r.len() == 0 && !valid_png_evidence(o) {
        r.push(MediaProfileLimitation::ProviderEvidenceInvalid);
    }
    assert(r@ =~= spec_limitations(*o, probe_media, provider_available));
    r
}

/// An entry without limitations is an opportunity; a source that is not
/// current excludes it; any other limitation leaves its evidence
/// insufficient.
pub open spec fn spec_entry_status(limitations: Seq<MediaProfileLimitation>) -> MediaProfileEntryStatus {
    if limitations.len() == 0 {
        MediaProfileEntryStatus::Opportunity
    } else if limitations.contains(MediaProfileLimitation::SourceEvidenceNotCurrent) {
        MediaProfileEntryStatus::Excluded
    } else {
        MediaProfileEntryStatus::InsufficientEvidence
    }
}

pub fn entry_status(limitations: &Vec<MediaProfileLimitation>) -> (s: MediaProfileEntryStatus)
    ensures
        s == spec_entry_status(limitations@),
{
    if limitations.len() == 0 {
        return MediaProfileEntryStatus::Opportunity;
    }
    let mut i: usize = 0;
    while i < limitations.len()
        invariant
            i <= limitations@.len(),
            forall|k: int| 0 <= k < i ==> limitations@[k] != MediaProfileLimitation::SourceEvidenceNotCurrent,
        decreases limitations@.len() - i,
    {
        if limitations[i] == MediaProfileLimitation::SourceEvidenceNotCurrent {
            assert(limitations@.contains(MediaProfileLimitation::SourceEvidenceNotCurrent));
            return MediaProfileEntryStatus::Excluded;
        }
        i = i + 1;
    }
    MediaProfileEntryStatus::InsufficientEvidence
}

/// The coverage of an analysis from its number of candidates and of
/// complete entries.
pub open spec fn spec_coverage_status(candidates: u64, complete: u64, probe_media: bool) -> MediaProfileCoverageStatus {
    if candidates == 0 {
        MediaProfileCoverageStatus::NotApplicable
    } else if !probe_media {
        MediaProfileCoverageStatus::NotRequested
    } else if complete == candidates {
        MediaProfileCoverageStatus::Complete
    } else if complete == 0 {
        MediaProfileCoverageStatus::Unavailable
    } else {
        MediaProfileCoverageStatus::Partial
    }
}

pub fn coverage_status(candidates: u64, complete: u64, probe_media: bool) -> (s: MediaProfileCoverageStatus)
    ensures
        s == spec_coverage_status(candidates, complete, probe_media),
{
    if candidates == 0 {
        MediaProfileCoverageStatus::NotApplicable
    } else if !probe_media {
        MediaProfileCoverageStatus::NotRequested
    } else if complete == candidates {
        MediaProfileCoverageStatus::Complete
    } else if complete == 0 {
        MediaProfileCoverageStatus::Unavailable
    } else {
        MediaProfileCoverageStatus::Partial
    }
}

/// Every limitation in `order` that some entry has, in that order.
pub open spec fn present_in(all: Seq<Seq<MediaProfileLimitation>>, l: MediaProfileLimitation) -> bool {
    exists|i: int| 0 <= i < all.len() && #[trigger] all[i].contains(l)
}

pub open spec fn limitation_order() -> Seq<MediaProfileLimitation> {
    seq![
        MediaProfileLimitation::SourceEvidenceNotCurrent,
        MediaProfileLimitation::MediaProbeDisabled,
        MediaProfileLimitation::ProviderUnavailable,
        MediaProfileLimitation::ProviderResultUnavailable,
        MediaProfileLimitation::ProviderEvidenceInvalid,
    ]
}

pub open spec fn merged_from(all: Seq<Seq<MediaProfileLimitation>>, n: int) -> Seq<MediaProfileLimitation>
    decreases n,
{
    if n <= 0 {
        seq![]
    } else {
        let rest = merged_from(all, n - 1);
        if present_in(all, limitation_order()[n - 1]) {
            rest.push(limitation_order()[n - 1])
        } else {
            rest
        }
    }
}

fn anyone_has(all: &Vec<Vec<MediaProfileLimitation>>, l: MediaProfileLimitation) -> (r: bool)
    ensures
        r == present_in(all@.map_values(|v: Vec<MediaProfileLimitation>| v@), l),
{
    let ghost views = all@.map_values(|v: Vec<MediaProfileLimitation>| v@);
    let mut i: usize = 0;
    while i < all.len()
        invariant
            views == all@.map_values(|v: Vec<MediaProfileLimitation>| v@),
            i <= all@.len(),
            forall|k: int| 0 <= k < i ==> !(#[trigger] views[k]).contains(l),
        decreases all@.len() - i,
    {
        let mut j: usize = 0;
        while j < all[i].len()
            invariant
                views == all@.map_values(|v: Vec<MediaProfileLimitation>| v@),
                i < all@.len(),
                j <= all@[i as int]@.len(),
                forall|k: int| 0 <= k < j ==> all@[i as int]@[k] != l,
            decreases all@[i as int]@.len() - j,
        {
            if all[i][j] == l {
                assert(views[i as int][j as int] == l);
                assert(views[i as int].contains(l));
                return true;
            }
            j = j + 1;
        }
        assert(!views[i as int].contains(l));
        i = i + 1;
    }
    false
}

/// The limitations found across all entries, once each, in the order of
/// their declaration.
pub fn merged_limitations(all: &Vec<Vec<MediaProfileLimitation>>) -> (r: Vec<MediaProfileLimitation>)
    ensures
        r@ == merged_from(all@.map_values(|v: Vec<MediaProfileLimitation>| v@), 5),
{
    let ghost views = all@.map_values(|v: Vec<MediaProfileLimitation>| v@);
    let order = vec![
        MediaProfileLimitation::SourceEvidenceNotCurrent,
        MediaProfileLimitation::MediaProbeDisabled,
        MediaProfileLimitation::ProviderUnavailable,
        MediaProfileLimitation::ProviderResultUnavailable,
        MediaProfileLimitation::ProviderEvidenceInvalid,
    ];
    assert(order@ =~= limitation_order());
    let mut r: Vec<MediaProfileLimitation> = Vec::new();
    let mut i: usize = 0;
    while i < 5
        invariant
            order@ == limitation_order(),
            views == all@.map_values(|v: Vec<MediaProfileLimitation>| v@),
            i <= 5,
            r@ == merged_from(views, i as int),
        decreases 5 - i,
    {
        if anyone_has(all, order[i]) {
            r.push(order[i]);
        }
        i = i + 1;
    }
    r
}

/// Whether `e` holds the PNG facts of `o`.
pub open spec fn normalized_from(e: NormalizedPngEvidence, o: FileObservation) -> bool {
    &&& e.content_type@ == match o.content_type {
        Some(t) => t@,
        None => "image/png"@,
    }
    &&& e.format_name == match o.media {
        Some(m) => m.format_name,
        None => None,
    }
    &&& e.codec_name == match o.media {
        Some(m) => if m.streams@.len() > 0 { m.streams@[0].codec_name } else { None },
        None => None,
    }
    &&& e.width == match o.media {
        Some(m) => if m.streams@.len() > 0 { m.streams@[0].width } else { None },
        None => None,
    }
    &&& e.height == match o.media {
        Some(m) => if m.streams@.len() > 0 { m.streams@[0].height } else { None },
        None => None,
    }
    &&& e.stream_count == match o.media {
        Some(m) => m.streams@.len() as u64,
        None => 0u64,
    }
}

/// The PNG facts of an observation: its content type (PNG when none was
/// detected), the probed format and the first stream's codec and size.
pub fn normalized_png_evidence(o: &FileObservation) -> (e: NormalizedPngEvidence)
    ensures
        normalized_from(e, *o),
{
    let content_type = match &o.content_type {
        Some(t) => t.clone(),
        None => crate::text::owned("image/png"),
    };
    match &o.media {
        Some(m) => {
            let (codec_name, width, height) = if m.streams.len() > 0 {
                let s = &m.streams[0];
                let codec = match &s.codec_name {
                    Some(c) => Some(c.clone()),
                    None => None,
                };
                (codec, s.width, s.height)
            } else {
                (None, None, None)
            };
            let format_name = match &m.format_name {
                Some(f) => Some(f.clone()),
                None => None,
            };
            NormalizedPngEvidence {
                content_type,
                format_name,
                codec_name,
                width,
                height,
                stream_count: m.streams.len() as u64,
            }
        },
        None => NormalizedPngEvidence {
            content_type,
            format_name: None,
            codec_name: None,
            width: None,
            height: None,
            stream_count: 0,
        },
    }
}


/// What a future candidate output must be shown to satisfy before it could
/// replace its source.
#[derive(Debug, Clone, Copy, PartialEq, Eq, Structural)]
pub enum OutputValidationRequirement {
    SourceObservationRevalidated,
    OutputExists,
    OutputIsRegularFile,
    OutputContentTypePng,
    CompleteDecode,
    DimensionsPreserved,
    FrameCountPreserved,
    AlphaPreserved,
    ColorProfilePolicySatisfied,
    MetadataPolicySatisfied,
    DecodedPixelEquivalence,
    OutputSmallerThanSource,
}

pub open spec fn spec_required_output_validations() -> Seq<OutputValidationRequirement> {
    seq![
        OutputValidationRequirement::SourceObservationRevalidated,
        OutputValidationRequirement::OutputExists,
        OutputValidationRequirement::OutputIsRegularFile,
        OutputValidationRequirement::OutputContentTypePng,
        OutputValidationRequirement::CompleteDecode,
        OutputValidationRequirement::DimensionsPreserved,
        OutputValidationRequirement::FrameCountPreserved,
        OutputValidationRequirement::AlphaPreserved,
        OutputValidationRequirement::ColorProfilePolicySatisfied,
        OutputValidationRequirement::MetadataPolicySatisfied,
        OutputValidationRequirement::DecodedPixelEquivalence,
        OutputValidationRequirement::OutputSmallerThanSource,
    ]
}

/// The validations every lossless-PNG opportunity requires, in order.
pub fn required_output_validations() -> (r: Vec<OutputValidationRequirement>)
    ensures
        r@ == spec_required_output_validations(),
{
    let r = vec![
        OutputValidationRequirement::SourceObservationRevalidated,
        OutputValidationRequirement::OutputExists,
        OutputValidationRequirement::OutputIsRegularFile,
        OutputValidationRequirement::OutputContentTypePng,
        OutputValidationRequirement::CompleteDecode,
        OutputValidationRequirement::DimensionsPreserved,
        OutputValidationRequirement::FrameCountPreserved,
        OutputValidationRequirement::AlphaPreserved,
        OutputValidationRequirement::ColorProfilePolicySatisfied,
        OutputValidationRequirement::MetadataPolicySatisfied,
        OutputValidationRequirement::DecodedPixelEquivalence,
        OutputValidationRequirement::OutputSmallerThanSource,
    ];
    assert(r@ =~= spec_required_output_validations());
    r
}

} // verus!
