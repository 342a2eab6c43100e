use optiflow::domain::{EvidenceValidity, MediaDescriptor, MediaKind, ObservationStability, ObservationStatus};
use optiflow::inventory::{detected_analysis, detection_failure, wants_probe, ProbeOutcome};

#[test]
fn undetectable_content_is_unreadable() {
    let a = detection_failure("permission denied", true, None);
    assert_eq!(a.status, ObservationStatus::Unreadable);
    assert_eq!(a.warnings, vec!["content inspection failed: permission denied".to_owned()]);
    assert_eq!(a.probe_signature.as_deref(), Some("ffprobe-unavailable"));
    assert_eq!(a.observation_stability, ObservationStability::Unreadable);
    assert_eq!(a.evidence_validity, EvidenceValidity::Unavailable);
    assert_eq!(detection_failure("x", false, None).probe_signature, None);
}

#[test]
fn detected_types_decide_kind_status_and_probe_notes() {
    let png = detected_analysis(Some("image/png".to_owned()), true, None, ProbeOutcome::NotRun);
    assert_eq!(png.media_kind, MediaKind::Image);
    assert_eq!(png.status, ObservationStatus::Analyzed);
    assert_eq!(png.warnings, vec!["ffprobe is unavailable; stream metadata was not collected".to_owned()]);

    let pdf = detected_analysis(Some("application/pdf".to_owned()), true, None, ProbeOutcome::NotRun);
    assert_eq!(pdf.media_kind, MediaKind::Other);
    assert_eq!(pdf.status, ObservationStatus::Unsupported);
    assert!(pdf.warnings.is_empty());

    let unknown = detected_analysis(None, false, None, ProbeOutcome::NotRun);
    assert_eq!(unknown.media_kind, MediaKind::Unknown);
    assert_eq!(unknown.probe_signature, None);

    let described = MediaDescriptor { format_name: Some("mp4".to_owned()), duration_seconds_bits: None, bit_rate: None, streams: Vec::new() };
    let video = detected_analysis(Some("video/mp4".to_owned()), true, Some("ffprobe 6.0"), ProbeOutcome::Described(described));
    assert!(video.media.is_some());
    assert!(video.warnings.is_empty());
    assert_eq!(video.probe_signature.as_deref(), Some("ffprobe 6.0"));

    let failed = detected_analysis(Some("audio/flac".to_owned()), true, Some("ffprobe 6.0"), ProbeOutcome::Failed("probe timed out".to_owned()));
    assert_eq!(failed.warnings, vec!["probe timed out".to_owned()]);

    assert!(wants_probe(true, true, MediaKind::Video));
    assert!(!wants_probe(true, false, MediaKind::Video));
    assert!(!wants_probe(true, true, MediaKind::Other));
}
