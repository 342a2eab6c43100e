use optiflow::digest::{blake3_hex_of, ContentHasher};
use optiflow::domain::{EvidenceValidity, ObservationStability};
use optiflow::hashing::{hash_attempt_step, HashAttempt, HashStep};

#[test]
fn a_stable_first_attempt_is_current_evidence() {
    match hash_attempt_step(1, None, HashAttempt::Hashed("abc".to_owned()), "/a") {
        HashStep::Done(r) => {
            assert_eq!(r.hash, "abc");
            assert_eq!(r.stability, ObservationStability::Stable);
            assert_eq!(r.evidence_validity, EvidenceValidity::Current);
            assert_eq!(r.attempt_count, 1);
            assert_eq!(r.warning, None);
            assert!(!r.interrupted);
        }
        HashStep::Retry { .. } => panic!("a hash ends the attempts"),
    }
}

#[test]
fn a_failure_is_retried_once_then_exhausted() {
    let first = match hash_attempt_step(1, None, HashAttempt::Failed("file changed while it was being hashed: /a".to_owned()), "/a") {
        HashStep::Retry { first_error } => first_error,
        HashStep::Done(_) => panic!("the first failure is retried"),
    };
    match hash_attempt_step(2, Some(first), HashAttempt::Failed("disappeared".to_owned()), "/a") {
        HashStep::Done(r) => {
            assert!(r.hash.is_empty());
            assert_eq!(r.stability, ObservationStability::RetryExhausted);
            assert_eq!(r.evidence_validity, EvidenceValidity::Stale);
            assert_eq!(r.attempt_count, 2);
            assert_eq!(
                r.warning.as_deref(),
                Some("first instability: file changed while it was being hashed: /a; final error: disappeared")
            );
        }
        HashStep::Retry { .. } => panic!("the attempts are exhausted"),
    }
    match hash_attempt_step(2, None, HashAttempt::Hashed("abc".to_owned()), "/a") {
        HashStep::Done(r) => assert_eq!(r.warning.as_deref(), Some("file stabilized after 2 attempts: /a")),
        HashStep::Retry { .. } => panic!("a hash ends the attempts"),
    }
}

#[test]
fn an_interruption_ends_the_attempts() {
    match hash_attempt_step(1, None, HashAttempt::Interrupted, "/a") {
        HashStep::Done(r) => {
            assert!(r.interrupted);
            assert_eq!(r.evidence_validity, EvidenceValidity::Unavailable);
            assert!(r.hash.is_empty());
        }
        HashStep::Retry { .. } => panic!("an interruption ends the attempts"),
    }
}

#[test]
fn content_read_in_chunks_has_the_digest_of_the_whole() {
    let data = b"stable content".repeat(1000);
    let mut hasher = ContentHasher::new();
    for chunk in data.chunks(777) {
        hasher.absorb(chunk);
    }
    assert_eq!(hasher.hex(), blake3_hex_of(&data));
    assert_ne!(hasher.hex(), blake3_hex_of(b"stable content"));
    assert_eq!(ContentHasher::new().hex(), "af1349b9f5f9a1a6a0404dea36dcc9499bcb25c9adc112b7cc9a93cae41f3262");
    assert_eq!(ContentHasher::new().hex(), blake3_hex_of(b""));
}
