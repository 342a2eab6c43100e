//! Content hashing: the algorithm recorded with every complete hash.

use vstd::prelude::*;
use crate::domain::{EvidenceValidity, ObservationStability};
use crate::filesystem::FileStateSignature;
use crate::json::{decimal_digits, push_decimal, push_str};
use crate::observation::{same_signature, same_signature_of};
use crate::text::{has_infix, has_infix_spec, owned, string_of};

verus! {

/// The name recorded with every complete content hash.
pub const HASH_ALGORITHM: &'static str = "blake3-256";

/// Observation attempts before a file is marked as having exhausted its
/// retries.
pub const DEFAULT_MAX_OBSERVATION_ATTEMPTS: u32 = 2;

/// What hashing through an opened handle came to.
#[derive(Debug, Clone, PartialEq, Eq)]
pub enum HandleHashOutcome {
    Complete(String),
    Interrupted,
}

/// The outcome of hashing a path with its stability checked.
#[derive(Debug, Clone, PartialEq, Eq)]
pub struct StableHashResult {
    pub hash: String,
    pub stability: ObservationStability,
    pub evidence_validity: EvidenceValidity,
    pub attempt_count: u32,
    pub warning: Option<String>,
    pub interrupted: bool,
}

/// The instability a failure message tells of.
pub open spec fn instability_of(message: Seq<char>) -> ObservationStability {
    if has_infix_spec(message, "symbolic link"@) {
        ObservationStability::BecameSymlink
    } else if has_infix_spec(message, "changed while"@) {
        ObservationStability::ChangedDuringHash
    } else if has_infix_spec(message, "disappeared"@) || has_infix_spec(message, "No such file"@) {
        ObservationStability::DisappearedDuringScan
    } else {
        ObservationStability::ChangedDuringHash
    }
}

/// Classifies a hashing failure by the words of its message.
pub fn classify_instability(message: &str) -> (r: ObservationStability)
    ensures
        r == instability_of(message@),
{
    if has_infix(message, "symbolic link") {
        ObservationStability::BecameSymlink
    } else if has_infix(message, "changed while") {
        ObservationStability::ChangedDuringHash
    } else if has_infix(message, "disappeared") || has_infix(message, "No such file") {
        ObservationStability::DisappearedDuringScan
    } else {
        ObservationStability::ChangedDuringHash
    }
}

fn joined(a: &str, b: &str) -> (r: String)
    ensures
        r@ == a@ + b@,
{
    let mut t: Vec<char> = Vec::new();
    push_str(&mut t, a);
    push_str(&mut t, b);
    string_of(&t)
}

/// Refuses to hash a path that is a symbolic link before hashing starts.
pub fn check_before_hashing(before: &FileStateSignature, path: &str) -> (r: Result<(), String>)
    ensures
        before.is_symlink ==> (r matches Err(m) && m@ == "path became a symbolic link before hashing: "@ + path@),
        !before.is_symlink ==> r is Ok,
{
    if before.is_symlink {
        return Err(joined("path became a symbolic link before hashing: ", path));
    }
    Ok(())
}

/// Refuses a hash when the path became a symbolic link or its signature
/// changed while it was hashed.
pub fn check_after_hashing(before: &FileStateSignature, after: &FileStateSignature, path: &str) -> (r: Result<(), String>)
    ensures
        after.is_symlink ==> (r matches Err(m) && m@ == "path became a symbolic link during hashing: "@ + path@),
        !after.is_symlink && !same_signature(*before, *after) ==> (r matches Err(m) && m@ == "file changed while it was being hashed: "@ + path@),
        !after.is_symlink && same_signature(*before, *after) ==> r is Ok,
{
    if after.is_symlink {
        return Err(joined("path became a symbolic link during hashing: ", path));
    }
    if !same_signature_of(before, after) {
        return Err(joined("file changed while it was being hashed: ", path));
    }
    Ok(())
}

/// Refuses when the size or modification time differs from what was
/// expected.
pub fn check_metadata(size_bytes: u64, modified_unix_ns: Option<i64>, expected_size_bytes: u64, expected_modified_unix_ns: Option<i64>, path: &str) -> (r: Result<(), String>)
    ensures
        (size_bytes == expected_size_bytes && modified_unix_ns == expected_modified_unix_ns) ==> r is Ok,
        !(size_bytes == expected_size_bytes && modified_unix_ns == expected_modified_unix_ns)
            ==> (r matches Err(m) && m@ == "file changed while it was being analyzed: "@ + path@),
{
    if size_bytes != expected_size_bytes || modified_unix_ns != expected_modified_unix_ns {
        return Err(joined("file changed while it was being analyzed: ", path));
    }
    Ok(())
}

/// The note of a hash that stabilized only after retrying.
pub open spec fn stabilized_note(attempt: u32, path: Seq<char>) -> Seq<char> {
    "file stabilized after "@ + decimal_digits(attempt as nat) + " attempts: "@ + path
}

/// The result of attempt number `attempt`, which hashed the path displayed
/// as `path` to `hash` while it stayed stable.
pub fn stable_hash(hash: String, attempt: u32, path: &str) -> (r: StableHashResult)
    ensures
        r.hash == hash,
        r.stability == ObservationStability::Stable,
        r.evidence_validity == EvidenceValidity::Current,
        r.attempt_count == attempt,
        attempt > 1 ==> (r.warning matches Some(w) && w@ == stabilized_note(attempt, path@)),
        attempt <= 1 ==> r.warning is None,
        !r.interrupted,
{
    let warning = if attempt > 1 {
        let mut t: Vec<char> = Vec::new();
        push_str(&mut t, "file stabilized after ");
        push_decimal(&mut t, attempt as u64);
        push_str(&mut t, " attempts: ");
        push_str(&mut t, path);
        assert(t@ =~= stabilized_note(attempt, path@));
        Some(string_of(&t))
    } else {
        None
    };
    StableHashResult {
        hash,
        stability: ObservationStability::Stable,
        evidence_validity: EvidenceValidity::Current,
        attempt_count: attempt,
        warning,
        interrupted: false,
    }
}

/// The result of a hash stopped by cancellation in attempt number
/// `attempt`.
pub fn interrupted_hash(attempt: u32) -> (r: StableHashResult)
    ensures
        r.hash@.len() == 0,
        r.stability == ObservationStability::RetryExhausted,
        r.evidence_validity == EvidenceValidity::Unavailable,
        r.attempt_count == attempt,
        r.warning is None,
        r.interrupted,
{
    let hash = owned("");
    proof {
        reveal_strlit("");
    }
    StableHashResult {
        hash,
        stability: ObservationStability::RetryExhausted,
        evidence_validity: EvidenceValidity::Unavailable,
        attempt_count: attempt,
        warning: None,
        interrupted: true,
    }
}

/// The note of a hash every attempt of which failed.
pub open spec fn instability_note(first: Seq<char>, last: Seq<char>) -> Seq<char> {
    "first instability: "@ + first + "; final error: "@ + last
}

/// The result once the last attempt, number `attempt`, failed with
/// `last_message` after a first failure with `first_message`: retries are
/// exhausted when there were several attempts, else the first failure is
/// classified.
pub fn unstable_hash(first_message: &str, last_message: &str, attempt: u32) -> (r: StableHashResult)
    ensures
        r.hash@.len() == 0,
        r.stability == (if attempt > 1 { ObservationStability::RetryExhausted } else { instability_of(first_message@) }),
        r.evidence_validity == EvidenceValidity::Stale,
        r.attempt_count == attempt,
        r.warning matches Some(w) && w@ == instability_note(first_message@, last_message@),
        !r.interrupted,
{
    let stability = classify_instability(first_message);
    let mut t: Vec<char> = Vec::new();
    push_str(&mut t, "first instability: ");
    push_str(&mut t, first_message);
    push_str(&mut t, "; final error: ");
    push_str(&mut t, last_message);
    assert(t@ =~= instability_note(first_message@, last_message@));
    let hash = owned("");
    proof {
        reveal_strlit("");
    }
    StableHashResult {
        hash,
        stability: if attempt > 1 { ObservationStability::RetryExhausted } else { stability },
        evidence_validity: EvidenceValidity::Stale,
        attempt_count: attempt,
        warning: Some(string_of(&t)),
        interrupted: false,
    }
}

/// How one attempt of a stable hash ended.
#[derive(Debug, Clone, PartialEq, Eq)]
pub enum HashAttempt {
    /// The path was hashed while it stayed stable.
    Hashed(String),
    /// Cancellation stopped the attempt.
    Interrupted,
    /// The attempt failed with this message.
    Failed(String),
}

/// What follows an attempt: another attempt, remembering the first
/// failure, or the final result.
#[derive(Debug)]
pub enum HashStep {
    Retry { first_error: String },
    Done(StableHashResult),
}

/// Decides what follows attempt number `attempt` (counting from one) of a
/// stable hash of the path displayed as `path`: a hash or an interruption
/// ends it; a failure is retried until `DEFAULT_MAX_OBSERVATION_ATTEMPTS`
/// attempts were made, keeping the first failure's message.
pub fn hash_attempt_step(attempt: u32, first_error: Option<String>, outcome: HashAttempt, path: &str) -> (r: HashStep)
    requires
        1 <= attempt <= DEFAULT_MAX_OBSERVATION_ATTEMPTS,
    ensures
        match outcome {
            HashAttempt::Hashed(hash) => r matches HashStep::Done(res) && res.hash == hash
                && res.stability == ObservationStability::Stable
                && res.evidence_validity == EvidenceValidity::Current
                && res.attempt_count == attempt
                && (attempt > 1 ==> (res.warning matches Some(w) && w@ == stabilized_note(attempt, path@)))
                && (attempt <= 1 ==> res.warning is None)
                && !res.interrupted,
            HashAttempt::Interrupted => r matches HashStep::Done(res) && res.hash@.len() == 0
                && res.stability == ObservationStability::RetryExhausted
                && res.evidence_validity == EvidenceValidity::Unavailable
                && res.attempt_count == attempt
                && res.warning is None
                && res.interrupted,
            HashAttempt::Failed(message) => {
                let first = match first_error { Some(f) => f@, None => message@ };
                if attempt < DEFAULT_MAX_OBSERVATION_ATTEMPTS {
                    r matches HashStep::Retry { first_error: f } && f@ == first
                } else {
                    r matches HashStep::Done(res) && res.hash@.len() == 0
                        && res.stability == (if attempt > 1 { ObservationStability::RetryExhausted } else { instability_of(first) })
                        && res.evidence_validity == EvidenceValidity::Stale
                        && res.attempt_count == attempt
                        && (res.warning matches Some(w) && w@ == instability_note(first, message@))
                        && !res.interrupted
                }
            },
        },
{
    match outcome {
        HashAttempt::Hashed(hash) => HashStep::Done(stable_hash(hash, attempt, path)),
        HashAttempt::Interrupted => HashStep::Done(interrupted_hash(attempt)),
        HashAttempt::Failed(message) => {
            let first = match first_error {
                Some(f) => f,
                None => message.clone(),
            };
            if attempt < DEFAULT_MAX_OBSERVATION_ATTEMPTS {
                HashStep::Retry { first_error: first }
            } else {
                HashStep::Done(unstable_hash(first.as_str(), message.as_str(), attempt))
            }
        },
    }
}

} // verus!
