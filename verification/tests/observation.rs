use optiflow::artifact_set::{
    binding_pointer, check_binding, schema_key,
    check_member, judge_marker, plan_verdict, ArtifactDigest, ArtifactSetCommitState, ArtifactSetInspection,
    ArtifactSetKind, ArtifactSetManifest, ArtifactSetMember, ArtifactSetStatus,
};
use optiflow::discovery::{
    classify_discovered, classify_input, is_hidden, should_descend, DiscoveryIssueKind, EntryFacts, InputDecision,
    InputKind, LookError, PathLook,
};
use optiflow::domain::{EvidenceValidity, MediaKind, NativePath, ObservationStability, ObservationStatus};
use optiflow::filesystem::{FileStateSignature, FilesystemIdentity};
use optiflow::hashing::{
    check_after_hashing, check_before_hashing, check_metadata, classify_instability, interrupted_hash, stable_hash,
    unstable_hash,
};
use optiflow::observation::{
    check_after_evidence, check_before_open, check_final_handle, check_opened_handle, classify_signature_change,
    hook_failure, observation_step, settle_exhausted, settle_interrupted, settle_success, AttemptFailure, CachedAnalysis,
    MetadataLook, ObservationStep,
};
use optiflow::text::has_infix;

fn identity(file_id: &str) -> Option<FilesystemIdentity> {
    Some(FilesystemIdentity {
        platform: "unix".to_string(),
        filesystem_id: "dev1".to_string(),
        file_id: file_id.to_string(),
        link_count: Some(1),
    })
}

fn signature(file_id: &str, size: u64) -> FileStateSignature {
    FileStateSignature {
        identity: identity(file_id),
        is_symlink: false,
        logical_size_bytes: size,
        modified_unix_ns: Some(10),
        changed_unix_ns: Some(20),
    }
}

fn look(sig: FileStateSignature) -> Result<MetadataLook, String> {
    Ok(MetadataLook { is_file: true, signature: sig })
}

fn analysis() -> CachedAnalysis {
    CachedAnalysis {
        content_type: Some("image/png".to_string()),
        media_kind: MediaKind::Image,
        content_hash: Some("abc".to_string()),
        media: None,
        probe_signature: None,
        status: ObservationStatus::Analyzed,
        warnings: vec![],
        observation_stability: ObservationStability::MetadataUnavailable,
        evidence_validity: EvidenceValidity::Unavailable,
        attempt_count: 0,
    }
}

#[test]
fn an_unchanged_file_passes_every_look() {
    let sig = signature("ino1", 5);
    assert!(check_before_open(&sig, &look(sig.clone())).is_ok());
    assert!(check_opened_handle(&sig, &look(sig.clone())).is_ok());
    assert!(check_final_handle(&sig, &look(sig.clone()), false).is_ok());
    assert!(check_after_evidence(&sig, &look(sig.clone())).is_ok());
}

#[test]
fn a_replaced_file_is_refused_with_its_classification() {
    let before = signature("ino1", 5);
    let after = signature("ino2", 5);
    let failure = check_opened_handle(&before, &look(after.clone())).unwrap_err();
    assert_eq!(failure.stability, ObservationStability::ReplacedDuringScan);
    assert_eq!(failure.validity, EvidenceValidity::Unavailable);
    assert_eq!(failure.message, "opened handle did not match the inspected path");
    let grown = signature("ino1", 6);
    let failure = check_final_handle(&before, &look(grown.clone()), true).unwrap_err();
    assert_eq!(failure.stability, ObservationStability::ChangedDuringProbe);
    assert_eq!(failure.validity, EvidenceValidity::Stale);
    assert_eq!(
        classify_signature_change(&before, &grown, ObservationStability::ChangedDuringHash),
        ObservationStability::ChangedDuringHash
    );
    let mut link = before.clone();
    link.is_symlink = true;
    let failure = check_before_open(&before, &Ok(MetadataLook { is_file: false, signature: link })).unwrap_err();
    assert_eq!(failure.stability, ObservationStability::BecameSymlink);
    assert_eq!(failure.message, "discovered path was no longer a regular file before open");
    let failure = check_before_open(&before, &Err("gone".to_string())).unwrap_err();
    assert_eq!(failure.stability, ObservationStability::DisappearedDuringScan);
    assert_eq!(failure.message, "failed to inspect discovered path: gone");
    let mut bare = before.clone();
    bare.identity = None;
    let failure = check_after_evidence(&before, &look(bare)).unwrap_err();
    assert_eq!(failure.stability, ObservationStability::MetadataUnavailable);
    assert_eq!(failure.message, "required handle-bound identity metadata was unavailable after evidence collection");
    assert_eq!(hook_failure("boom").message, "observation hook failed: boom");
}

#[test]
fn settled_observations_record_attempts_and_notes() {
    let first = settle_success(analysis(), 1, "/a.png");
    assert_eq!(first.observation_stability, ObservationStability::Stable);
    assert_eq!(first.evidence_validity, EvidenceValidity::Current);
    assert_eq!(first.attempt_count, 1);
    assert!(first.warnings.is_empty());
    let second = settle_success(analysis(), 2, "/a.png");
    assert_eq!(second.warnings, vec!["handle-bound observation stabilized after 2 attempts: /a.png".to_string()]);
    let stopped = settle_interrupted(1);
    assert_eq!(stopped.content_hash, None);
    assert_eq!(stopped.observation_stability, ObservationStability::RetryExhausted);
    let before = signature("ino1", 5);
    let last = check_opened_handle(&before, &look(signature("ino2", 5))).unwrap_err();
    let exhausted = settle_exhausted("first problem", &last);
    assert_eq!(exhausted.attempt_count, 2);
    assert_eq!(exhausted.observation_stability, ObservationStability::ReplacedDuringScan);
    assert_eq!(
        exhausted.warnings,
        vec!["handle-bound observation rejected after 2 attempts; first failure: first problem; final failure: opened handle did not match the inspected path".to_string()]
    );
}

#[test]
fn hashing_decisions_classify_instability() {
    assert!(has_infix("path became a symbolic link", "symbolic link"));
    assert!(!has_infix("short", "much longer text"));
    assert!(has_infix("anything", ""));
    assert_eq!(classify_instability("path became a symbolic link during hashing: /a"), ObservationStability::BecameSymlink);
    assert_eq!(classify_instability("file changed while it was being hashed: /a"), ObservationStability::ChangedDuringHash);
    assert_eq!(classify_instability("No such file or directory"), ObservationStability::DisappearedDuringScan);
    assert_eq!(classify_instability("permission denied"), ObservationStability::ChangedDuringHash);
    let sig = signature("ino1", 5);
    assert!(check_before_hashing(&sig, "/a").is_ok());
    assert_eq!(
        check_after_hashing(&sig, &signature("ino1", 9), "/a"),
        Err("file changed while it was being hashed: /a".to_string())
    );
    assert_eq!(
        check_metadata(5, Some(1), 5, Some(2), "/a"),
        Err("file changed while it was being analyzed: /a".to_string())
    );
    assert!(check_metadata(5, Some(1), 5, Some(1), "/a").is_ok());
    let ok = stable_hash("h".to_string(), 2, "/a");
    assert_eq!(ok.warning.as_deref(), Some("file stabilized after 2 attempts: /a"));
    assert!(interrupted_hash(1).interrupted);
    let bad = unstable_hash("path became a symbolic link before hashing: /a", "boom", 1);
    assert_eq!(bad.stability, ObservationStability::BecameSymlink);
    assert_eq!(bad.evidence_validity, EvidenceValidity::Stale);
    let bad = unstable_hash("x", "y", 2);
    assert_eq!(bad.stability, ObservationStability::RetryExhausted);
    assert_eq!(bad.warning.as_deref(), Some("first instability: x; final error: y"));
}

#[test]
fn inputs_are_classified_by_their_metadata() {
    let p = NativePath::from_path(b"/data/in");
    let file = InputKind { is_symlink: false, is_file: true, is_dir: false };
    assert!(matches!(classify_input(&p, "/data/in", &Ok(file), false), InputDecision::AcceptFile));
    let dir = InputKind { is_symlink: false, is_file: false, is_dir: true };
    assert!(matches!(classify_input(&p, "/data/in", &Ok(dir), false), InputDecision::AcceptDirectory));
    let link = InputKind { is_symlink: true, is_file: false, is_dir: false };
    match classify_input(&p, "/data/in", &Ok(link), false) {
        InputDecision::Skip(issue) => {
            assert_eq!(issue.kind, DiscoveryIssueKind::InputExcludedByPolicy);
            assert_eq!(issue.message, "skipped symbolic-link input /data/in because link following is disabled");
        }
        _ => panic!("symbolic link must be skipped"),
    }
    let error = LookError { message: "denied".to_string(), kind: "permissiondenied".to_string() };
    match classify_input(&p, "/data/in", &Err(error), true) {
        InputDecision::Skip(issue) => {
            assert_eq!(issue.kind, DiscoveryIssueKind::InputUnavailable);
            assert_eq!(issue.message, "could not inspect /data/in: denied");
            assert_eq!(issue.os_error_kind.as_deref(), Some("permissiondenied"));
        }
        _ => panic!("unreadable input must be skipped"),
    }
}

#[test]
fn hidden_entries_and_other_devices_are_not_descended() {
    assert!(is_hidden(&vec![b"visible".to_vec(), b".hidden.txt".to_vec()]));
    assert!(!is_hidden(&vec![b"visible.txt".to_vec()]));
    let entry = EntryFacts { depth: 1, in_state_directory: false, hidden: true, is_dir: false, device: Some(1) };
    assert!(!should_descend(&entry, false, false, Some(1)));
    assert!(should_descend(&entry, true, false, Some(1)));
    let other = EntryFacts { depth: 2, in_state_directory: false, hidden: false, is_dir: true, device: Some(2) };
    assert!(!should_descend(&other, false, false, Some(1)));
    assert!(should_descend(&other, false, true, Some(1)));
    let root = EntryFacts { depth: 0, in_state_directory: true, hidden: true, is_dir: true, device: Some(9) };
    assert!(should_descend(&root, false, false, Some(1)));
    let state = EntryFacts { depth: 1, in_state_directory: true, hidden: false, is_dir: true, device: Some(1) };
    assert!(!should_descend(&state, true, true, Some(1)));
}

#[test]
fn discovered_paths_that_stopped_being_files_become_issues() {
    let p = NativePath::from_path(b"/data/a");
    let sig = signature("ino1", 3);
    let found = classify_discovered(&p, "/data/a", Ok(PathLook { is_file: true, is_symlink: false, signature: sig.clone() }));
    let file = found.expect("regular file");
    assert_eq!(file.size_bytes, 3);
    assert_eq!(file.signature, sig);
    let gone = classify_discovered(&p, "/data/a", Ok(PathLook { is_file: false, is_symlink: true, signature: sig }));
    let issue = gone.err().expect("changed path");
    assert_eq!(issue.kind, DiscoveryIssueKind::PathChanged);
    assert_eq!(issue.message, "path stopped being a file: /data/a");
}

fn member(kind: &str, file: &str, bytes: &[u8]) -> ArtifactSetMember {
    ArtifactSetMember {
        kind: kind.to_string(),
        schema: format!("{kind}.v1"),
        path: NativePath::from_path(file.as_bytes()),
        size_bytes: bytes.len() as u64,
        digest: ArtifactDigest { algorithm: "blake3-256".to_string(), value: blake3::hash(bytes).to_hex().to_string() },
    }
}

fn manifest(kind: ArtifactSetKind, members: Vec<ArtifactSetMember>) -> ArtifactSetManifest {
    ArtifactSetManifest {
        schema: "optiflow.artifact-set.v1".to_string(),
        set_id: "set-1".to_string(),
        set_kind: kind,
        run_id: "run-1".to_string(),
        created_at: "2024-01-01T00:00:00Z".to_string(),
        state: ArtifactSetCommitState::Committed,
        source_set_id: None,
        members,
    }
}

#[test]
fn artifact_set_markers_must_name_each_expected_kind_once() {
    let scan = manifest(
        ArtifactSetKind::Scan,
        vec![member("run", "run.json", b"r"), member("report", "report.json", b"p"), member("effective_policy", "policy.json", b"e")],
    );
    assert!(judge_marker(&scan, ArtifactSetKind::Scan).is_none());
    let wrong = judge_marker(&scan, ArtifactSetKind::Plan).expect("kind mismatch");
    assert_eq!(wrong.status, ArtifactSetStatus::Incompatible);
    assert_eq!(wrong.detail, "artifact-set marker kind does not match its reader");
    let short = manifest(ArtifactSetKind::Scan, vec![member("run", "run.json", b"r"), member("report", "report.json", b"p")]);
    let verdict = judge_marker(&short, ArtifactSetKind::Scan).expect("missing kind");
    assert_eq!(verdict.detail, "artifact set has missing, duplicate, or unexpected member kinds");
    let same_path = manifest(
        ArtifactSetKind::Scan,
        vec![member("run", "a.json", b"r"), member("report", "a.json", b"p"), member("effective_policy", "p.json", b"e")],
    );
    let verdict = judge_marker(&same_path, ArtifactSetKind::Scan).expect("duplicate paths");
    assert_eq!(verdict.detail, "artifact-set marker contains duplicate member paths");
    let plan = manifest(ArtifactSetKind::Plan, vec![member("plan", "plan.json", b"x")]);
    assert!(judge_marker(&plan, ArtifactSetKind::Plan).is_none());
}

#[test]
fn members_must_match_their_recorded_size_and_digest() {
    let m = member("plan", "plan.json", b"content");
    assert!(check_member(&m, b"content").is_ok());
    assert_eq!(check_member(&m, b"other!!"), Err("artifact-set member digest does not match marker".to_string()));
    assert_eq!(check_member(&m, b"x"), Err("artifact-set member size does not match marker".to_string()));
    let found = ArtifactSetInspection::incomplete("artifact-set marker is missing".to_string());
    let verdict = plan_verdict(found, true);
    assert_eq!(verdict.detail, "plan member was published but its pending commit marker requires recovery");
}

#[test]
fn member_documents_must_bind_to_their_marker() {
    let run = member("run", "run.json", b"{}");
    let report = member("report", "report.json", b"{}");
    let policy = member("effective_policy", "effective-policy.json", b"{}");
    let scan = manifest(ArtifactSetKind::Scan, vec![policy.clone(), report.clone(), run.clone()]);
    assert_eq!(schema_key("effective_policy"), "schema");
    assert_eq!(schema_key("report"), "schema_version");
    assert_eq!(binding_pointer(ArtifactSetKind::Scan, "report"), Some("/run/artifact_set_id"));
    assert_eq!(binding_pointer(ArtifactSetKind::Scan, "effective_policy"), None);
    let schema = |m: &ArtifactSetMember| Some(m.schema.clone());
    assert!(check_binding(&scan, &run, &schema(&run), &Some("set-1".to_string())).is_ok());
    assert_eq!(
        check_binding(&scan, &run, &schema(&run), &Some("set-2".to_string())).unwrap_err(),
        "run artifact does not bind to its artifact-set marker"
    );
    assert_eq!(
        check_binding(&scan, &report, &schema(&report), &None).unwrap_err(),
        "report artifact does not bind to its artifact-set marker"
    );
    assert_eq!(
        check_binding(&scan, &policy, &Some("other".to_string()), &None).unwrap_err(),
        "artifact-set member schema does not match its marker"
    );
    assert!(check_binding(&scan, &policy, &schema(&policy), &None).is_ok());
    let plan_member = member("plan", "plan.json", b"{}");
    let mut plan = manifest(ArtifactSetKind::Plan, vec![plan_member.clone()]);
    plan.source_set_id = Some("set-1".to_string());
    assert!(check_binding(&plan, &plan_member, &schema(&plan_member), &Some("set-1".to_string())).is_ok());
    assert_eq!(
        check_binding(&plan, &plan_member, &schema(&plan_member), &None).unwrap_err(),
        "plan source set does not match its artifact-set marker"
    );
}

fn failure(message: &str, interrupted: bool) -> AttemptFailure {
    AttemptFailure {
        stability: ObservationStability::ChangedDuringHash,
        validity: EvidenceValidity::Unavailable,
        message: message.to_string(),
        interrupted,
    }
}

#[test]
fn observation_steps_retry_failures_then_reject_with_first_and_last() {
    match observation_step(1, None, Err(failure("first", false)), "/p") {
        ObservationStep::Retry(first) => assert_eq!(first, "first"),
        other => panic!("unexpected {other:?}"),
    }
    match observation_step(2, Some("first".to_string()), Err(failure("third", false)), "/p") {
        ObservationStep::Settled(a) => {
            assert_eq!(a.status, ObservationStatus::Unreadable);
            assert_eq!(a.attempt_count, 2);
            assert_eq!(a.observation_stability, ObservationStability::ChangedDuringHash);
            assert!(a.warnings[0].contains("first failure: first"));
            assert!(a.warnings[0].contains("final failure: third"));
        }
        other => panic!("unexpected {other:?}"),
    }
}

#[test]
fn observation_steps_settle_successes_and_stop_on_cancellation() {
    match observation_step(2, Some("first".to_string()), Ok(analysis()), "/p") {
        ObservationStep::Settled(a) => {
            assert_eq!(a.observation_stability, ObservationStability::Stable);
            assert_eq!(a.evidence_validity, EvidenceValidity::Current);
            assert_eq!(a.attempt_count, 2);
            assert_eq!(a.warnings, vec!["handle-bound observation stabilized after 2 attempts: /p".to_string()]);
        }
        other => panic!("unexpected {other:?}"),
    }
    match observation_step(1, None, Err(failure("stop", true)), "/p") {
        ObservationStep::Interrupted(a) => {
            assert_eq!(a.status, ObservationStatus::Unreadable);
            assert_eq!(a.attempt_count, 1);
            assert!(a.content_hash.is_none());
        }
        other => panic!("unexpected {other:?}"),
    }
}
