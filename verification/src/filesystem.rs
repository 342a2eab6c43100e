//! Filesystem identity, allocation metadata and reclaimability records.

use vstd::prelude::*;

verus! {

/// Stable identity of one physical file object: the pair of filesystem and
/// file identifiers; the platform and link count ride along.
#[derive(Debug, Clone, PartialEq, Eq, PartialOrd, Ord, Hash)]
pub struct FilesystemIdentity {
    pub platform: String,
    pub filesystem_id: String,
    pub file_id: String,
    pub link_count: Option<u64>,
}

impl FilesystemIdentity {
    /// The fields that establish identity, in sort order.
    pub fn identity_key(&self) -> (key: (&str, &str))
        ensures
            key.0@ == self.filesystem_id@,
            key.1@ == self.file_id@,
    {
        (self.filesystem_id.as_str(), self.file_id.as_str())
    }
}

/// Immutable snapshot of the filesystem-observable state of one path.
///
/// Two equal signatures do not prove a file unchanged, but a difference
/// proves that an observable field changed.
#[derive(Debug, Clone, PartialEq, Eq)]
pub struct FileStateSignature {
    pub identity: Option<FilesystemIdentity>,
    pub is_symlink: bool,
    pub logical_size_bytes: u64,
    pub modified_unix_ns: Option<i64>,
    pub changed_unix_ns: Option<i64>,
}

/// How allocated-size metadata was obtained.
#[derive(Debug, Clone, Copy, PartialEq, Eq, Structural)]
pub enum AllocationSource {
    /// `st_blocks` times 512 (POSIX semantics).
    StBlocks512,
    /// Allocation information was not available on this platform.
    Unavailable,
}

/// What is known about whether extents are physically shared.
#[derive(Debug, Clone, Copy, PartialEq, Eq, Structural)]
pub enum ExtentSharingStatus {
    /// Sharing is neither confirmed nor ruled out.
    Unknown,
    /// The platform indicated no extent sharing.
    NotDetected,
}

/// Physical-storage and logical-size metadata of one filesystem object.
#[derive(Debug, Clone, Copy, PartialEq, Eq, Structural)]
pub struct StorageAllocation {
    pub logical_size_bytes: u64,
    pub allocated_size_bytes: Option<u64>,
    pub allocation_source: AllocationSource,
    pub extent_sharing_status: ExtentSharingStatus,
}

/// Confidence of a physical reclaimability estimate.
#[derive(Debug, Clone, Copy, PartialEq, Eq, Structural)]
pub enum ReclaimabilityStatus {
    Estimated,
    Unknown,
}

/// Why reclaimability is unknown or limited.
#[derive(Debug, Clone, Copy, PartialEq, Eq, Structural)]
pub enum ReclaimabilityReasonCode {
    FilesystemIdentityUnavailable,
    AllocationMetadataUnavailable,
    UnobservedHardLinks,
    ExtentSharingUnknown,
    ArithmeticOverflow,
    PlatformMetadataUnsupported,
}

/// Physical reclaimability assessment of a duplicate group.
#[derive(Debug, Clone)]
pub struct PhysicalReclaimability {
    pub status: ReclaimabilityStatus,
    pub reason_codes: Vec<ReclaimabilityReasonCode>,
}

impl PhysicalReclaimability {
    pub fn unknown(codes: Vec<ReclaimabilityReasonCode>) -> (r: Self)
        ensures
            r.status == ReclaimabilityStatus::Unknown,
            r.reason_codes@ == codes@,
    {
        PhysicalReclaimability { status: ReclaimabilityStatus::Unknown, reason_codes: codes }
    }

    /// A copy of this assessment.
    pub fn copy(&self) -> (r: Self)
        ensures
            r.status == self.status,
            r.reason_codes@ == self.reason_codes@,
    {
        let mut codes: Vec<ReclaimabilityReasonCode> = Vec::new();
        let mut i: usize = 0;
        while i < self.reason_codes.len()
            invariant
                i <= self.reason_codes@.len(),
                codes@ == self.reason_codes@.take(i as int),
            decreases self.reason_codes@.len() - i,
        {
            codes.push(self.reason_codes[i]);
            i = i + 1;
            assert(codes@ =~= self.reason_codes@.take(i as int));
        }
        assert(codes@ =~= self.reason_codes@);
        PhysicalReclaimability { status: self.status, reason_codes: codes }
    }

    pub fn estimated(codes: Vec<ReclaimabilityReasonCode>) -> (r: Self)
        ensures
            r.status == ReclaimabilityStatus::Estimated,
            r.reason_codes@ == codes@,
    {
        PhysicalReclaimability { status: ReclaimabilityStatus::Estimated, reason_codes: codes }
    }
}

/// Platform-neutral filesystem metadata of one path; what the platform could
/// not provide is absent and explained by a warning.
#[derive(Debug, Clone)]
pub struct RawFilesystemMetadata {
    pub identity: Option<FilesystemIdentity>,
    pub logical_size_bytes: u64,
    pub allocated_size_bytes: Option<u64>,
    pub allocation_source: AllocationSource,
    pub warnings: Vec<String>,
}

impl RawFilesystemMetadata {
    /// The allocation record; extent sharing is never known here.
    pub fn into_storage_allocation(self) -> (allocation: StorageAllocation)
        ensures
            allocation == (StorageAllocation {
                logical_size_bytes: self.logical_size_bytes,
                allocated_size_bytes: self.allocated_size_bytes,
                allocation_source: self.allocation_source,
                extent_sharing_status: ExtentSharingStatus::Unknown,
            }),
    {
        StorageAllocation {
            logical_size_bytes: self.logical_size_bytes,
            allocated_size_bytes: self.allocated_size_bytes,
            allocation_source: self.allocation_source,
            extent_sharing_status: ExtentSharingStatus::Unknown,
        }
    }
}

} // verus!
