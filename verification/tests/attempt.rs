use optiflow::attempt::{attempt_step, AttemptAction, AttemptFact, AttemptRequest, AttemptStage};
use optiflow::domain::{EvidenceValidity, MediaKind, ObservationStability, ObservationStatus};
use optiflow::filesystem::{FileStateSignature, FilesystemIdentity};
use optiflow::observation::{AttemptFailure, CachedAnalysis, MetadataLook};

fn signature() -> FileStateSignature {
    FileStateSignature {
        identity: Some(FilesystemIdentity {
            platform: "unix".to_string(),
            filesystem_id: "dev1".to_string(),
            file_id: "7".to_string(),
            link_count: Some(1),
        }),
        is_symlink: false,
        logical_size_bytes: 12,
        modified_unix_ns: Some(10),
        changed_unix_ns: Some(20),
    }
}

fn look() -> AttemptFact {
    AttemptFact::Looked(Ok(MetadataLook { is_file: true, signature: signature() }))
}

const PNG_HEADER: &[u8] = b"\x89PNG\r\n\x1a\n\0\0\0\rIHDR";

/// Runs an attempt, answering each request from the given facts.
fn run(
    cached: Option<CachedAnalysis>,
    needs_hash: bool,
    chunks: &[&[u8]],
    cancel_while_hashing: bool,
) -> (Vec<AttemptRequest>, Result<(CachedAnalysis, FileStateSignature), AttemptFailure>) {
    let mut requests = Vec::new();
    let mut chunks = chunks.iter();
    let mut stage = AttemptStage::Start { cached };
    let mut fact = AttemptFact::Checked { cancelled: false };
    loop {
        match attempt_step(stage, fact, &signature(), needs_hash, false, None) {
            AttemptAction::Done(result) => return (requests, result),
            AttemptAction::Next(next, request) => {
                requests.push(request);
                fact = match request {
                    AttemptRequest::LookPath | AttemptRequest::LookHandle => look(),
                    AttemptRequest::Open => AttemptFact::Opened(Ok(())),
                    AttemptRequest::ReadHeader => AttemptFact::HeaderRead(Ok(PNG_HEADER.to_vec())),
                    AttemptRequest::Probe => panic!("probing was not asked for"),
                    AttemptRequest::ReadChunk => AttemptFact::ChunkRead {
                        cancelled: cancel_while_hashing,
                        chunk: Ok(chunks.next().map(|c| c.to_vec()).unwrap_or_default()),
                    },
                };
                stage = next;
            }
        }
    }
}

#[test]
fn an_attempt_checks_in_order_and_hashes_every_chunk() {
    let (requests, result) = run(None, true, &[b"hello ", b"world"], false);
    assert_eq!(requests, vec![AttemptRequest::LookPath, AttemptRequest::Open, AttemptRequest::LookHandle, AttemptRequest::ReadHeader, AttemptRequest::ReadChunk, AttemptRequest::ReadChunk, AttemptRequest::ReadChunk, AttemptRequest::LookHandle, AttemptRequest::LookPath]);
    let (analysis, _) = result.expect("a stable attempt");
    assert_eq!(analysis.content_type.as_deref(), Some("image/png"));
    assert_eq!(analysis.media_kind, MediaKind::Image);
    assert_eq!(analysis.status, ObservationStatus::Analyzed);
    assert_eq!(analysis.content_hash, Some(blake3::hash(b"hello world").to_hex().to_string()));
}

#[test]
fn unknown_content_is_unsupported_and_not_hashed_unless_asked() {
    let mut stage = AttemptStage::Header { opened: signature() };
    let fact = AttemptFact::HeaderRead(Ok(b"plain text".to_vec()));
    match attempt_step(stage, fact, &signature(), false, false, None) {
        AttemptAction::Next(AttemptStage::FinalLook { analysis, .. }, AttemptRequest::LookHandle) => {
            assert_eq!(analysis.content_type, None);
            assert_eq!(analysis.status, ObservationStatus::Unsupported);
            assert_eq!(analysis.content_hash, None);
        }
        _ => panic!("the handle is looked at again"),
    }
    stage = AttemptStage::Header { opened: signature() };
    match attempt_step(stage, AttemptFact::HeaderRead(Err("denied".to_string())), &signature(), false, false, None) {
        AttemptAction::Done(Err(f)) => {
            assert_eq!(f.message, "opened-handle content analysis failed: denied");
            assert_eq!(f.stability, ObservationStability::Unreadable);
        }
        _ => panic!("a failed read fails the attempt"),
    }
}

#[test]
fn a_cached_hash_is_kept_unless_hashing_is_asked_for() {
    let cached = CachedAnalysis {
        content_type: Some("image/png".to_string()),
        media_kind: MediaKind::Image,
        content_hash: Some("cached".to_string()),
        media: None,
        probe_signature: None,
        status: ObservationStatus::Analyzed,
        warnings: vec![],
        observation_stability: ObservationStability::Stable,
        evidence_validity: EvidenceValidity::Current,
        attempt_count: 1,
    };
    let (requests, result) = run(Some(cached.clone()), false, &[], false);
    assert_eq!(requests, vec![AttemptRequest::LookPath, AttemptRequest::Open, AttemptRequest::LookHandle, AttemptRequest::LookHandle, AttemptRequest::LookPath]);
    assert_eq!(result.expect("stable").0.content_hash.as_deref(), Some("cached"));
    let (_, result) = run(Some(cached), true, &[b"x"], false);
    assert_eq!(result.expect("stable").0.content_hash, Some(blake3::hash(b"x").to_hex().to_string()));
}

#[test]
fn cancellation_while_hashing_interrupts_the_attempt() {
    let (_, result) = run(None, true, &[b"data"], true);
    let failure = result.err().expect("interrupted");
    assert!(failure.interrupted);
    assert_eq!(failure.message, "observation interrupted");
}
