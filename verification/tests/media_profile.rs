use optiflow::domain::{
    EvidenceValidity, FileObservation, MediaDescriptor, MediaKind, MediaStream, NativePath, ObservationStability,
    ObservationStatus,
};
use optiflow::media_profile::{
    coverage_status, entry_limitations, entry_status, is_png_candidate, merged_limitations, normalized_png_evidence,
    valid_png_evidence, MediaProfileCoverageStatus, MediaProfileEntryStatus, MediaProfileLimitation,
};

fn observation(path: &str) -> FileObservation {
    FileObservation {
        observation_id: "obs".to_owned(),
        run_id: "018f47a2-4f17-7b00-8000-000000000000".to_owned(),
        path: NativePath::Utf8 { value: path.to_owned() },
        size_bytes: 128,
        modified_unix_ns: Some(42),
        device_id: None,
        inode: None,
        content_type: Some("image/png".to_owned()),
        media_kind: MediaKind::Image,
        content_hash: None,
        hash_algorithm: None,
        media: Some(MediaDescriptor {
            format_name: Some("png_pipe".to_owned()),
            duration_seconds_bits: None,
            bit_rate: None,
            streams: vec![MediaStream {
                index: 0,
                codec_type: Some("video".to_owned()),
                codec_name: Some("png".to_owned()),
                width: Some(16),
                height: Some(12),
                sample_rate: None,
                channels: None,
            }],
        }),
        status: ObservationStatus::Analyzed,
        cache_hit: false,
        warnings: Vec::new(),
        filesystem_identity: None,
        storage_allocation: None,
        observation_stability: ObservationStability::Stable,
        evidence_validity: EvidenceValidity::Current,
        attempt_count: 1,
    }
}

#[test]
fn current_png_evidence_is_an_opportunity() {
    let o = observation("/media/a.png");
    assert!(is_png_candidate(&o));
    assert!(valid_png_evidence(&o));
    let limitations = entry_limitations(&o, true, true);
    assert!(limitations.is_empty());
    assert_eq!(entry_status(&limitations), MediaProfileEntryStatus::Opportunity);
    let normalized = normalized_png_evidence(&o);
    assert_eq!(normalized.width, Some(16));
    assert_eq!(normalized.stream_count, 1);
}

#[test]
fn disabled_absent_invalid_and_stale_evidence_is_limited() {
    let o = observation("/media/a.png");
    assert_eq!(entry_limitations(&o, false, true), vec![MediaProfileLimitation::MediaProbeDisabled]);
    assert_eq!(entry_limitations(&o, true, false), vec![MediaProfileLimitation::ProviderUnavailable]);
    let mut bare = observation("/media/b.png");
    bare.media = None;
    assert_eq!(entry_limitations(&bare, true, true), vec![MediaProfileLimitation::ProviderResultUnavailable]);
    let mut jpeg = observation("/media/c.png");
    if let Some(media) = jpeg.media.as_mut() {
        media.format_name = Some("image2,mjpeg".to_owned());
    }
    assert!(!valid_png_evidence(&jpeg));
    assert_eq!(entry_limitations(&jpeg, true, true), vec![MediaProfileLimitation::ProviderEvidenceInvalid]);
    let mut stale = observation("/media/d.png");
    stale.evidence_validity = EvidenceValidity::Stale;
    let limited = entry_limitations(&stale, false, true);
    assert_eq!(limited, vec![MediaProfileLimitation::SourceEvidenceNotCurrent, MediaProfileLimitation::MediaProbeDisabled]);
    assert_eq!(entry_status(&limited), MediaProfileEntryStatus::Excluded);
    assert_eq!(entry_status(&entry_limitations(&o, false, true)), MediaProfileEntryStatus::InsufficientEvidence);
    let merged = merged_limitations(&vec![limited, vec![MediaProfileLimitation::ProviderEvidenceInvalid]]);
    assert_eq!(
        merged,
        vec![
            MediaProfileLimitation::SourceEvidenceNotCurrent,
            MediaProfileLimitation::MediaProbeDisabled,
            MediaProfileLimitation::ProviderEvidenceInvalid,
        ]
    );
}

#[test]
fn png_pipe_may_be_one_of_several_format_names() {
    let mut o = observation("/media/a.png");
    if let Some(media) = o.media.as_mut() {
        media.format_name = Some("apng,png_pipe".to_owned());
    }
    assert!(valid_png_evidence(&o));
    if let Some(media) = o.media.as_mut() {
        media.format_name = Some("png_pipes".to_owned());
    }
    assert!(!valid_png_evidence(&o));
    let mut text = observation("/media/a.txt");
    text.content_type = Some("text/plain".to_owned());
    text.media_kind = MediaKind::Other;
    assert!(!is_png_candidate(&text));
}

#[test]
fn coverage_follows_the_counts() {
    assert_eq!(coverage_status(0, 0, true), MediaProfileCoverageStatus::NotApplicable);
    assert_eq!(coverage_status(2, 0, false), MediaProfileCoverageStatus::NotRequested);
    assert_eq!(coverage_status(2, 2, true), MediaProfileCoverageStatus::Complete);
    assert_eq!(coverage_status(2, 0, true), MediaProfileCoverageStatus::Unavailable);
    assert_eq!(coverage_status(2, 1, true), MediaProfileCoverageStatus::Partial);
}

#[test]
fn opportunities_require_every_output_validation() {
    let required = optiflow::media_profile::required_output_validations();
    assert_eq!(required.len(), 12);
    assert_eq!(required[0], optiflow::media_profile::OutputValidationRequirement::SourceObservationRevalidated);
    assert_eq!(required[11], optiflow::media_profile::OutputValidationRequirement::OutputSmallerThanSource);
}
