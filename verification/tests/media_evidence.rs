use optiflow::configuration::policy::PolicyDigest;
use optiflow::domain::{
    EvidenceDigest, EvidenceValidity, FileObservation, MediaDescriptor, MediaKind, MediaProviderEvidence, MediaStream,
    NativePath, ObservationStability, ObservationStatus,
};
use optiflow::media_evidence::{lossless_png_evidence, SavingsClaim, PROFILE_CONFIGURATION_JSON};
use optiflow::media_profile::{MediaProfileCoverageStatus, MediaProfileEntryStatus, MediaProfileLimitation};

const RUN_ID: &str = "018f47a2-4f17-7b00-8000-000000000000";

fn policy_digest() -> PolicyDigest {
    PolicyDigest { algorithm: "blake3-256".to_owned(), value: "1".repeat(64) }
}

fn provider() -> MediaProviderEvidence {
    MediaProviderEvidence {
        name: "ffprobe".to_owned(),
        version: "ffprobe version fixture".to_owned(),
        executable: NativePath::Utf8 { value: "/fixture/ffprobe".to_owned() },
        binary_digest: EvidenceDigest { algorithm: "blake3-256".to_owned(), value: "2".repeat(64) },
        invocation_fingerprint: EvidenceDigest { algorithm: "blake3-256".to_owned(), value: "3".repeat(64) },
    }
}

fn observation(id: &str, path: &str) -> FileObservation {
    FileObservation {
        observation_id: id.to_owned(),
        run_id: RUN_ID.to_owned(),
        path: NativePath::Utf8 { value: path.to_owned() },
        size_bytes: 128,
        modified_unix_ns: Some(42),
        device_id: None,
        inode: None,
        content_type: Some("image/png".to_owned()),
        media_kind: MediaKind::Image,
        content_hash: None,
        hash_algorithm: None,
        media: Some(MediaDescriptor {
            format_name: Some("png_pipe".to_owned()),
            duration_seconds_bits: None,
            bit_rate: None,
            streams: vec![MediaStream {
                index: 0,
                codec_type: Some("video".to_owned()),
                codec_name: Some("png".to_owned()),
                width: Some(16),
                height: Some(12),
                sample_rate: None,
                channels: None,
            }],
        }),
        status: ObservationStatus::Analyzed,
        cache_hit: false,
        warnings: Vec::new(),
        filesystem_identity: None,
        storage_allocation: None,
        observation_stability: ObservationStability::Stable,
        evidence_validity: EvidenceValidity::Current,
        attempt_count: 1,
    }
}

#[test]
fn valid_png_emits_schema_valid_review_opportunity_without_savings_claim() {
    let evidence = lossless_png_evidence(
        RUN_ID,
        &[observation("018f47a2-4f17-7b00-8000-000000000001", "/media/image.png")],
        true,
        Some(&provider()),
        &policy_digest(),
    );
    assert_eq!(evidence.schema, "optiflow.media-profile-evidence.v1");
    assert_eq!(evidence.coverage.status, MediaProfileCoverageStatus::Complete);
    assert_eq!(evidence.coverage.opportunity_count, 1);
    let opportunity = evidence.entries[0].opportunity.as_ref().expect("review opportunity");
    assert_eq!(opportunity.estimated_output_bytes, None);
    assert_eq!(opportunity.estimated_logical_savings_bytes, None);
    assert_eq!(opportunity.savings_claim, SavingsClaim::NotEstimated);
    let fingerprint = &evidence.entries[0].source.fingerprint;
    assert_eq!(opportunity.opportunity_id, format!("opo-{}", &fingerprint.value[..32]));
    assert!(evidence.entries[0].entry_id.starts_with("mpe-"));
    assert_eq!(evidence.entries[0].entry_id.len(), 36);
    assert!(evidence.analysis_id.starts_with("mpa-"));
    let configuration = blake3::hash(PROFILE_CONFIGURATION_JSON.as_bytes()).to_hex().to_string();
    assert_eq!(evidence.profile.configuration_fingerprint.value, configuration);
    assert_eq!(evidence.evidence_policy_fingerprint.value, "1".repeat(64));
}

#[test]
fn identifiers_and_order_are_stable_across_reruns() {
    let first = lossless_png_evidence(
        RUN_ID,
        &[
            observation("018f47a2-4f17-7b00-8000-000000000002", "/media/z.png"),
            observation("018f47a2-4f17-7b00-8000-000000000001", "/media/a.png"),
        ],
        true,
        Some(&provider()),
        &policy_digest(),
    );
    let second = lossless_png_evidence(
        "018f47a2-4f17-7b00-8000-000000000099",
        &[
            observation("018f47a2-4f17-7b00-8000-000000000091", "/media/a.png"),
            observation("018f47a2-4f17-7b00-8000-000000000092", "/media/z.png"),
        ],
        true,
        Some(&provider()),
        &policy_digest(),
    );
    assert_eq!(first.analysis_id, second.analysis_id);
    assert_eq!(
        first.entries.iter().map(|e| (&e.entry_id, &e.source.path)).collect::<Vec<_>>(),
        second.entries.iter().map(|e| (&e.entry_id, &e.source.path)).collect::<Vec<_>>()
    );
    assert!(matches!(first.entries[0].source.path, NativePath::Utf8 { ref value } if value == "/media/a.png"));
    assert_ne!(first.entries[0].entry_id, first.entries[1].entry_id);
}

#[test]
fn disabled_absent_invalid_and_stale_evidence_never_emit_opportunities() {
    let current = observation("018f47a2-4f17-7b00-8000-000000000001", "/media/current.png");
    let disabled = lossless_png_evidence(RUN_ID, std::slice::from_ref(&current), false, None, &policy_digest());
    assert_eq!(disabled.coverage.status, MediaProfileCoverageStatus::NotRequested);
    assert_eq!(disabled.coverage.opportunity_count, 0);

    let unavailable = lossless_png_evidence(RUN_ID, std::slice::from_ref(&current), true, None, &policy_digest());
    assert_eq!(unavailable.coverage.limitations, vec![MediaProfileLimitation::ProviderUnavailable]);

    let mut failed = current.clone();
    failed.media = None;
    let failed = lossless_png_evidence(RUN_ID, &[failed], true, Some(&provider()), &policy_digest());
    assert_eq!(failed.coverage.limitations, vec![MediaProfileLimitation::ProviderResultUnavailable]);

    let mut invalid = current.clone();
    invalid.media.as_mut().expect("descriptor").streams[0].codec_name = Some("jpeg".to_owned());
    let invalid = lossless_png_evidence(RUN_ID, &[invalid], true, Some(&provider()), &policy_digest());
    assert_eq!(invalid.coverage.limitations, vec![MediaProfileLimitation::ProviderEvidenceInvalid]);

    let mut stale = current;
    stale.evidence_validity = EvidenceValidity::Stale;
    stale.observation_stability = ObservationStability::ChangedDuringProbe;
    let stale = lossless_png_evidence(RUN_ID, &[stale], true, Some(&provider()), &policy_digest());
    assert_eq!(stale.entries[0].status, MediaProfileEntryStatus::Excluded);
    assert_eq!(stale.coverage.opportunity_count, 0);
}

#[test]
fn mixed_evidence_is_partial_and_non_png_content_is_not_claimed() {
    let valid = observation("018f47a2-4f17-7b00-8000-000000000001", "/media/valid.png");
    let mut failed = observation("018f47a2-4f17-7b00-8000-000000000002", "/media/failed.png");
    failed.media = None;
    let mut misleading = observation("018f47a2-4f17-7b00-8000-000000000003", "/media/misleading.png");
    misleading.content_type = Some("text/plain".to_owned());
    misleading.media_kind = MediaKind::Other;
    let evidence =
        lossless_png_evidence(RUN_ID, &[valid, failed, misleading], true, Some(&provider()), &policy_digest());
    assert_eq!(evidence.coverage.status, MediaProfileCoverageStatus::Partial);
    assert_eq!(evidence.coverage.candidate_media_count, 2);
    assert_eq!(evidence.coverage.complete_evidence_count, 1);
    assert_eq!(evidence.coverage.limited_evidence_count, 1);
    assert!(evidence.entries.iter().all(|e| !matches!(&e.source.path, NativePath::Utf8 { value } if value == "/media/misleading.png")));
}

#[test]
fn no_png_candidates_is_not_applicable() {
    let mut other = observation("018f47a2-4f17-7b00-8000-000000000004", "/media/clip.mp4");
    other.content_type = Some("video/mp4".to_owned());
    other.media_kind = MediaKind::Video;
    let evidence = lossless_png_evidence(RUN_ID, &[other], true, Some(&provider()), &policy_digest());
    assert_eq!(evidence.coverage.status, MediaProfileCoverageStatus::NotApplicable);
    assert!(evidence.entries.is_empty());
}
