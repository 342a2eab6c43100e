use optiflow::domain::{
    EvidenceValidity, FileObservation, MediaKind, NativePath, ObservationStability, ObservationStatus,
};
use optiflow::duplicates::exact_groups;
use optiflow::filesystem::{
    AllocationSource, ExtentSharingStatus, FilesystemIdentity, ReclaimabilityReasonCode, ReclaimabilityStatus,
    StorageAllocation,
};
use optiflow::hashing::HASH_ALGORITHM;

fn observation(path: &str, hash: &str) -> FileObservation {
    FileObservation {
        observation_id: path.to_owned(),
        run_id: "run".to_owned(),
        path: NativePath::Utf8 { value: path.to_owned() },
        size_bytes: 10,
        modified_unix_ns: None,
        device_id: None,
        inode: None,
        content_type: None,
        media_kind: MediaKind::Unknown,
        content_hash: Some(hash.to_owned()),
        hash_algorithm: Some(HASH_ALGORITHM.to_owned()),
        media: None,
        status: ObservationStatus::Unsupported,
        cache_hit: false,
        warnings: Vec::new(),
        filesystem_identity: None,
        storage_allocation: None,
        observation_stability: ObservationStability::Stable,
        evidence_validity: EvidenceValidity::Current,
        attempt_count: 1,
    }
}

fn observation_with_identity(
    path: &str,
    hash: &str,
    filesystem_id: &str,
    file_id: &str,
    link_count: u64,
) -> FileObservation {
    let mut obs = observation(path, hash);
    obs.filesystem_identity = Some(FilesystemIdentity {
        platform: "linux".to_owned(),
        filesystem_id: filesystem_id.to_owned(),
        file_id: file_id.to_owned(),
        link_count: Some(link_count),
    });
    obs.storage_allocation = Some(StorageAllocation {
        logical_size_bytes: 10,
        allocated_size_bytes: Some(4096),
        allocation_source: AllocationSource::StBlocks512,
        extent_sharing_status: ExtentSharingStatus::Unknown,
    });
    obs
}

#[test]
fn groups_only_matching_size_and_hash() {
    let groups = exact_groups(&[observation("/a", "same"), observation("/b", "same"), observation("/c", "different")]);
    assert_eq!(groups.len(), 1);
    assert_eq!(groups[0].members.len(), 2);
    assert_eq!(groups[0].reclaimable_bytes, 10);
}

#[test]
fn hard_link_aliases_are_not_counted_as_independent_members() {
    let observations = vec![
        observation_with_identity("/a", "hash1", "dev1", "ino1", 2),
        observation_with_identity("/b", "hash1", "dev1", "ino1", 2),
        observation_with_identity("/c", "hash1", "dev1", "ino2", 1),
    ];
    let groups = exact_groups(&observations);
    assert_eq!(groups.len(), 1, "one group expected");
    assert_eq!(groups[0].evidence.member_count, 2);
    assert_eq!(groups[0].evidence.observed_path_count, 3);
    assert_eq!(groups[0].reclaimable_bytes, 10);
}

#[test]
fn pure_alias_group_is_not_a_duplicate_group() {
    let observations = vec![
        observation_with_identity("/x", "hashX", "dev1", "ino1", 2),
        observation_with_identity("/y", "hashX", "dev1", "ino1", 2),
    ];
    let groups = exact_groups(&observations);
    assert_eq!(groups.len(), 0, "aliases alone must not form a duplicate group");
}

#[test]
fn unstable_observations_are_excluded_from_duplicate_groups() {
    let mut unstable = observation("/a", "same");
    unstable.evidence_validity = EvidenceValidity::Stale;
    unstable.observation_stability = ObservationStability::ChangedDuringHash;
    let groups = exact_groups(&[unstable, observation("/b", "same"), observation("/c", "same")]);
    assert_eq!(groups.len(), 1, "one group from stable observations");
    assert_eq!(groups[0].evidence.member_count, 2, "only stable observations counted");
    let paths: Vec<String> = groups[0].members.iter().map(|m| m.path.display()).collect();
    assert!(!paths.contains(&"/a".to_owned()), "/a must not appear in the group");
}

#[test]
fn members_fold_aliases_and_are_ordered_by_path() {
    let observations = vec![
        observation_with_identity("/z/primary", "h", "dev1", "ino9", 3),
        observation_with_identity("/b/alias", "h", "dev1", "ino9", 3),
        observation_with_identity("/m/other", "h", "dev1", "ino3", 1),
    ];
    let groups = exact_groups(&observations);
    assert_eq!(groups.len(), 1);
    let group = &groups[0];
    assert_eq!(group.classification, "exact");
    assert_eq!(group.evidence.algorithm, "blake3-256");
    assert_eq!(group.evidence.complete_content_hash, "h");
    assert_eq!(group.evidence.identical_size_bytes, 10);
    assert!(group.group_id.starts_with("exact-"));
    assert_eq!(group.group_id.len(), "exact-".len() + 16);
    let hash = blake3::hash(b"10:h").to_hex().to_string();
    assert_eq!(group.group_id, format!("exact-{}", &hash[..16]));
    assert_eq!(group.members[0].path, NativePath::Utf8 { value: "/m/other".to_owned() });
    assert_eq!(group.members[1].path, NativePath::Utf8 { value: "/b/alias".to_owned() });
    assert_eq!(group.members[1].alias_paths, vec![NativePath::Utf8 { value: "/z/primary".to_owned() }]);
    assert_eq!(group.members[1].observation_id, "/z/primary");
    assert_eq!(
        group.physical_reclaimability.reason_codes,
        vec![ReclaimabilityReasonCode::UnobservedHardLinks, ReclaimabilityReasonCode::ExtentSharingUnknown]
    );
    assert_eq!(group.physical_reclaimability.status, ReclaimabilityStatus::Unknown);
}

#[test]
fn groups_come_in_size_then_hash_order() {
    let mut big_a = observation("/big1", "aaa");
    big_a.size_bytes = 20;
    let mut big_b = observation("/big2", "aaa");
    big_b.size_bytes = 20;
    let groups = exact_groups(&[big_a, big_b, observation("/s1", "zzz"), observation("/s2", "zzz")]);
    assert_eq!(groups.len(), 2);
    assert_eq!(groups[0].evidence.identical_size_bytes, 10);
    assert_eq!(groups[1].evidence.identical_size_bytes, 20);
    assert_eq!(groups[1].reclaimable_bytes, 20);
    assert_eq!(
        groups[0].physical_reclaimability.reason_codes,
        vec![
            ReclaimabilityReasonCode::FilesystemIdentityUnavailable,
            ReclaimabilityReasonCode::AllocationMetadataUnavailable
        ]
    );
}

#[test]
fn only_files_sharing_a_size_are_hashed() {
    let sizes = vec![10u64, 20, 10, 30, 20, 20, 0];
    assert_eq!(
        optiflow::duplicates::hash_candidates(&sizes),
        vec![true, true, true, false, true, true, false]
    );
    assert!(optiflow::duplicates::hash_candidates(&Vec::new()).is_empty());
}

#[test]
fn scan_summaries_count_files_groups_and_aliases() {
    let none: Vec<optiflow::domain::FileObservation> = Vec::new();
    let s = optiflow::summary::summarize(&none, &Vec::new(), &Vec::new());
    assert_eq!(s.file_count, 0);
    assert_eq!(s.total_bytes, 0);
    assert_eq!(s.unique_object_count, 0);
}

#[test]
fn scan_summaries_count_what_was_observed() {
    let mut a = observation("/m/a.png", "h1");
    a.media_kind = MediaKind::Image;
    a.status = ObservationStatus::Analyzed;
    a.cache_hit = true;
    let b = observation("/m/b.bin", "h1");
    let mut c = observation("/m/c.bin", "h2");
    c.status = ObservationStatus::Unreadable;
    c.observation_stability = ObservationStability::ChangedDuringHash;
    let observations = vec![a, b, c];
    let groups = exact_groups(&observations);
    let s = optiflow::summary::summarize(&observations, &groups, &Vec::new());
    assert_eq!(s.file_count, 3);
    assert_eq!(s.total_bytes, 30);
    assert_eq!(s.media_files, 1);
    assert_eq!(s.unsupported_files, 1);
    assert_eq!(s.unreadable_files, 1);
    assert_eq!(s.cache_hits, 1);
    assert_eq!(s.unstable_observation_count, 1);
    assert_eq!(s.exact_duplicate_groups, groups.len() as u64);
    assert_eq!(s.unique_object_count, 3);
}

#[test]
fn fully_observed_hard_links_leave_reclaimability_estimated() {
    let mut observations = vec![
        observation_with_identity("/a", "h", "dev1", "ino1", 2),
        observation_with_identity("/b", "h", "dev1", "ino1", 2),
        observation_with_identity("/c", "h", "dev1", "ino2", 2),
        observation_with_identity("/d", "h", "dev1", "ino2", 2),
    ];
    for o in observations.iter_mut() {
        if let Some(a) = o.storage_allocation.as_mut() {
            a.extent_sharing_status = ExtentSharingStatus::NotDetected;
        }
    }
    let groups = exact_groups(&observations);
    assert_eq!(groups.len(), 1);
    assert_eq!(groups[0].evidence.member_count, 2);
    assert_eq!(groups[0].physical_reclaimability.status, ReclaimabilityStatus::Estimated);
    assert!(groups[0].physical_reclaimability.reason_codes.is_empty());
}
