use optiflow::analysis_cache::{cacheable, reusable, reused_analysis, stored_signature};
use optiflow::domain::{EvidenceValidity, MediaKind, ObservationStability, ObservationStatus};
use optiflow::filesystem::{FileStateSignature, FilesystemIdentity};

fn signature() -> FileStateSignature {
    FileStateSignature {
        identity: Some(FilesystemIdentity {
            platform: "linux".to_owned(),
            filesystem_id: "2049".to_owned(),
            file_id: "131".to_owned(),
            link_count: Some(1),
        }),
        is_symlink: false,
        logical_size_bytes: 18,
        modified_unix_ns: Some(1_700_000_000_000_000_000),
        changed_unix_ns: Some(1_700_000_000_000_000_001),
    }
}

#[test]
fn cache_reuse_requires_the_complete_handle_signature() {
    let current = signature();
    assert!(cacheable(&current));
    let stored = stored_signature(&current, None);
    assert!(reusable(&stored, &current, None));

    let mut changed = current.clone();
    changed.changed_unix_ns = changed.changed_unix_ns.map(|v| v.saturating_add(1));
    assert!(!reusable(&stored, &changed, None));

    let mut legacy = stored.clone();
    legacy.filesystem_id = None;
    legacy.file_id = None;
    legacy.changed_unix_ns = None;
    assert!(!reusable(&legacy, &current, None));

    let mut unidentified = current.clone();
    unidentified.identity = None;
    assert!(!cacheable(&unidentified));
}

#[test]
fn reuse_requires_the_same_prober_when_one_is_required() {
    let current = signature();
    let probed = stored_signature(&current, Some("ffprobe version 6.1".to_owned()));
    assert!(reusable(&probed, &current, Some("ffprobe version 6.1")));
    assert!(!reusable(&probed, &current, Some("ffprobe version 7.0")));
    assert!(reusable(&probed, &current, None));
    let unprobed = stored_signature(&current, None);
    assert!(!reusable(&unprobed, &current, Some("ffprobe version 6.1")));
    let a = reused_analysis(None, MediaKind::Other, None, None, None, ObservationStatus::Unsupported, Vec::new());
    assert_eq!(a.observation_stability, ObservationStability::Stable);
    assert_eq!(a.evidence_validity, EvidenceValidity::Current);
    assert_eq!(a.attempt_count, 1);
}
