//! Plain data records shared by every part of the index: volumes, physical
//! devices, file copies and the report and plan values built from them.

use vstd::prelude::*;
use crate::text::str_eq;

verus! {

/// The role a user assigns to a logical volume.
#[derive(Debug, Clone, Copy, PartialEq, Eq, Structural)]
pub enum VolumeRole {
    Primary,
    LocalBackup,
    OffsiteBackup,
    Temporary,
    LegacyBackup,
    Unknown,
}

impl VolumeRole {
    /// The stable text name of the role.
    pub open spec fn name(self) -> Seq<char> {
        match self {
            VolumeRole::Primary => "primary"@,
            VolumeRole::LocalBackup => "local_backup"@,
            VolumeRole::OffsiteBackup => "offsite_backup"@,
            VolumeRole::Temporary => "temporary"@,
            VolumeRole::LegacyBackup => "legacy_backup"@,
            VolumeRole::Unknown => "unknown"@,
        }
    }

    pub fn as_str(self) -> (r: &'static str)
        ensures
            r@ == self.name(),
    {
        match self {
            VolumeRole::Primary => "primary",
            VolumeRole::LocalBackup => "local_backup",
            VolumeRole::OffsiteBackup => "offsite_backup",
            VolumeRole::Temporary => "temporary",
            VolumeRole::LegacyBackup => "legacy_backup",
            VolumeRole::Unknown => "unknown",
        }
    }

    /// Parses a role name; an unknown name yields the error message.
    pub fn parse(value: &str) -> (r: Result<VolumeRole, String>)
        ensures
            r matches Ok(role) ==> role.name() == value@,
            r is Err <==> !is_role_name(value@),
            r matches Err(e) ==> e@ == "不支持的卷角色: "@ + value@,
    {
        if str_eq(value, "primary") {
            Ok(VolumeRole::Primary)
        } else if str_eq(value, "local_backup") {
            Ok(VolumeRole::LocalBackup)
        } else if str_eq(value, "offsite_backup") {
            Ok(VolumeRole::OffsiteBackup)
        } else if str_eq(value, "temporary") {
            Ok(VolumeRole::Temporary)
        } else if str_eq(value, "legacy_backup") {
            Ok(VolumeRole::LegacyBackup)
        } else if str_eq(value, "unknown") {
            Ok(VolumeRole::Unknown)
        } else {
            let mut message = "不支持的卷角色: ".to_owned();
            message.append(value);
            Err(message)
        }
    }
}

/// The text is the name of some role.
pub open spec fn is_role_name(s: Seq<char>) -> bool {
    ||| s == "primary"@
    ||| s == "local_backup"@
    ||| s == "offsite_backup"@
    ||| s == "temporary"@
    ||| s == "legacy_backup"@
    ||| s == "unknown"@
}

impl std::str::FromStr for VolumeRole {
    type Err = String;

    fn from_str(value: &str) -> (r: Result<VolumeRole, String>)
        ensures
            r matches Ok(role) ==> role.name() == value@,
            r is Err <==> !is_role_name(value@),
            r matches Err(e) ==> e@ == "不支持的卷角色: "@ + value@,
    {
        VolumeRole::parse(value)
    }
}

/// How much trust the identity of a logical volume deserves. A possible clone
/// never takes part in automatic merging.
#[derive(Debug, Clone, Copy, PartialEq, Eq, Structural)]
pub enum VolumeIdentityState {
    Verified,
    Fallback,
    PossibleClone,
    Conflict,
    ManualLink,
}

impl VolumeIdentityState {
    pub open spec fn name(self) -> Seq<char> {
        match self {
            VolumeIdentityState::Verified => "verified"@,
            VolumeIdentityState::Fallback => "fallback"@,
            VolumeIdentityState::PossibleClone => "possible_clone"@,
            VolumeIdentityState::Conflict => "conflict"@,
            VolumeIdentityState::ManualLink => "manual_link"@,
        }
    }

    pub fn as_str(self) -> (r: &'static str)
        ensures
            r@ == self.name(),
    {
        match self {
            VolumeIdentityState::Verified => "verified",
            VolumeIdentityState::Fallback => "fallback",
            VolumeIdentityState::PossibleClone => "possible_clone",
            VolumeIdentityState::Conflict => "conflict",
            VolumeIdentityState::ManualLink => "manual_link",
        }
    }

    /// Parses a state name; an unknown name yields the error message.
    pub fn parse(value: &str) -> (r: Result<VolumeIdentityState, String>)
        ensures
            r matches Ok(state) ==> state.name() == value@,
            r is Err <==> !is_identity_state_name(value@),
            r matches Err(e) ==> e@ == "不支持的卷身份状态: "@ + value@,
    {
        if str_eq(value, "verified") {
            Ok(VolumeIdentityState::Verified)
        } else if str_eq(value, "fallback") {
            Ok(VolumeIdentityState::Fallback)
        } else if str_eq(value, "possible_clone") {
            Ok(VolumeIdentityState::PossibleClone)
        } else if str_eq(value, "conflict") {
            Ok(VolumeIdentityState::Conflict)
        } else if str_eq(value, "manual_link") {
            Ok(VolumeIdentityState::ManualLink)
        } else {
            let mut message = "不支持的卷身份状态: ".to_owned();
            message.append(value);
            Err(message)
        }
    }
}

/// The text is the name of some volume identity state.
pub open spec fn is_identity_state_name(s: Seq<char>) -> bool {
    ||| s == "verified"@
    ||| s == "fallback"@
    ||| s == "possible_clone"@
    ||| s == "conflict"@
    ||| s == "manual_link"@
}

impl std::str::FromStr for VolumeIdentityState {
    type Err = String;

    fn from_str(value: &str) -> (r: Result<VolumeIdentityState, String>)
        ensures
            r matches Ok(state) ==> state.name() == value@,
            r is Err <==> !is_identity_state_name(value@),
            r matches Err(e) ==> e@ == "不支持的卷身份状态: "@ + value@,
    {
        VolumeIdentityState::parse(value)
    }
}


/// How the identity of a whole physical disk was established. Only verified
/// identities count towards physical-device safety thresholds.
#[derive(Debug, Clone, Copy, PartialEq, Eq, Structural)]
pub enum PhysicalDeviceIdentityState {
    Verified,
    Inferred,
    Unknown,
    Conflict,
}

impl PhysicalDeviceIdentityState {
    pub open spec fn name(self) -> Seq<char> {
        match self {
            PhysicalDeviceIdentityState::Verified => "verified"@,
            PhysicalDeviceIdentityState::Inferred => "inferred"@,
            PhysicalDeviceIdentityState::Unknown => "unknown"@,
            PhysicalDeviceIdentityState::Conflict => "conflict"@,
        }
    }

    pub fn as_str(self) -> (r: &'static str)
        ensures
            r@ == self.name(),
    {
        match self {
            PhysicalDeviceIdentityState::Verified => "verified",
            PhysicalDeviceIdentityState::Inferred => "inferred",
            PhysicalDeviceIdentityState::Unknown => "unknown",
            PhysicalDeviceIdentityState::Conflict => "conflict",
        }
    }

    /// The state with the given stored name, if any has it.
    pub fn from_name(value: &str) -> (r: Option<PhysicalDeviceIdentityState>)
        ensures
            r matches Some(s) ==> s.name() == value@,
            r is None ==> forall|s: PhysicalDeviceIdentityState| s.name() != value@,
    {
        if str_eq(value, "verified") {
            Some(PhysicalDeviceIdentityState::Verified)
        } else if str_eq(value, "inferred") {
            Some(PhysicalDeviceIdentityState::Inferred)
        } else if str_eq(value, "unknown") {
            Some(PhysicalDeviceIdentityState::Unknown)
        } else if str_eq(value, "conflict") {
            Some(PhysicalDeviceIdentityState::Conflict)
        } else {
            None
        }
    }

    pub fn is_verified(self) -> (r: bool)
        ensures
            r == (self == PhysicalDeviceIdentityState::Verified),
    {
        match self {
            PhysicalDeviceIdentityState::Verified => true,
            _ => false,
        }
    }
}

/// The status of one file copy; `OfflineUnverified` is the display state of
/// a present copy whose volume is offline.
#[derive(Debug, Clone, Copy, PartialEq, Eq, Structural)]
pub enum CopyStatus {
    Present,
    Missing,
    Offline,
    OfflineUnverified,
    Deleted,
    Unreadable,
    Changed,
    Quarantined,
}

impl CopyStatus {
    pub open spec fn name(self) -> Seq<char> {
        match self {
            CopyStatus::Present => "present"@,
            CopyStatus::Missing => "missing"@,
            CopyStatus::Offline => "offline"@,
            CopyStatus::OfflineUnverified => "offline_unverified"@,
            CopyStatus::Deleted => "deleted"@,
            CopyStatus::Unreadable => "unreadable"@,
            CopyStatus::Changed => "changed"@,
            CopyStatus::Quarantined => "quarantined"@,
        }
    }

    pub fn as_str(self) -> (r: &'static str)
        ensures
            r@ == self.name(),
    {
        match self {
            CopyStatus::Present => "present",
            CopyStatus::Missing => "missing",
            CopyStatus::Offline => "offline",
            CopyStatus::OfflineUnverified => "offline_unverified",
            CopyStatus::Deleted => "deleted",
            CopyStatus::Unreadable => "unreadable",
            CopyStatus::Changed => "changed",
            CopyStatus::Quarantined => "quarantined",
        }
    }

    /// The status with the given stored name, if any has it.
    pub fn from_name(value: &str) -> (r: Option<CopyStatus>)
        ensures
            r matches Some(s) ==> s.name() == value@,
            r is None ==> forall|s: CopyStatus| s.name() != value@,
    {
        if str_eq(value, "present") {
            Some(CopyStatus::Present)
        } else if str_eq(value, "missing") {
            Some(CopyStatus::Missing)
        } else if str_eq(value, "offline") {
            Some(CopyStatus::Offline)
        } else if str_eq(value, "offline_unverified") {
            Some(CopyStatus::OfflineUnverified)
        } else if str_eq(value, "deleted") {
            Some(CopyStatus::Deleted)
        } else if str_eq(value, "unreadable") {
            Some(CopyStatus::Unreadable)
        } else if str_eq(value, "changed") {
            Some(CopyStatus::Changed)
        } else if str_eq(value, "quarantined") {
            Some(CopyStatus::Quarantined)
        } else {
            None
        }
    }

    /// The upper-case label of the status in text reports.
    pub open spec fn upper_name(self) -> Seq<char> {
        match self {
            CopyStatus::Present => "PRESENT"@,
            CopyStatus::Missing => "MISSING"@,
            CopyStatus::Offline => "OFFLINE"@,
            CopyStatus::OfflineUnverified => "OFFLINE_UNVERIFIED"@,
            CopyStatus::Deleted => "DELETED"@,
            CopyStatus::Unreadable => "UNREADABLE"@,
            CopyStatus::Changed => "CHANGED"@,
            CopyStatus::Quarantined => "QUARANTINED"@,
        }
    }

    pub fn as_upper_str(self) -> (r: &'static str)
        ensures
            r@ == self.upper_name(),
    {
        match self {
            CopyStatus::Present => "PRESENT",
            CopyStatus::Missing => "MISSING",
            CopyStatus::Offline => "OFFLINE",
            CopyStatus::OfflineUnverified => "OFFLINE_UNVERIFIED",
            CopyStatus::Deleted => "DELETED",
            CopyStatus::Unreadable => "UNREADABLE",
            CopyStatus::Changed => "CHANGED",
            CopyStatus::Quarantined => "QUARANTINED",
        }
    }

    pub fn is_present(self) -> (r: bool)
        ensures
            r == (self == CopyStatus::Present),
    {
        match self {
            CopyStatus::Present => true,
            _ => false,
        }
    }
}

/// How far the hashing of a file copy has progressed; `Stale` only appears in
/// lookup results whose cached hash no longer matches the file.
#[derive(Debug, Clone, Copy, PartialEq, Eq, Structural)]
pub enum HashState {
    NotHashed,
    Sampled,
    Full,
    Failed,
    Stale,
}

impl HashState {
    pub open spec fn name(self) -> Seq<char> {
        match self {
            HashState::NotHashed => "none"@,
            HashState::Sampled => "sampled"@,
            HashState::Full => "full"@,
            HashState::Failed => "failed"@,
            HashState::Stale => "stale"@,
        }
    }

    pub fn as_str(self) -> (r: &'static str)
        ensures
            r@ == self.name(),
    {
        match self {
            HashState::NotHashed => "none",
            HashState::Sampled => "sampled",
            HashState::Full => "full",
            HashState::Failed => "failed",
            HashState::Stale => "stale",
        }
    }

    /// The state with the given stored name, if any has it.
    pub fn from_name(value: &str) -> (r: Option<HashState>)
        ensures
            r matches Some(s) ==> s.name() == value@,
            r is None ==> forall|s: HashState| s.name() != value@,
    {
        if str_eq(value, "none") {
            Some(HashState::NotHashed)
        } else if str_eq(value, "sampled") {
            Some(HashState::Sampled)
        } else if str_eq(value, "full") {
            Some(HashState::Full)
        } else if str_eq(value, "failed") {
            Some(HashState::Failed)
        } else if str_eq(value, "stale") {
            Some(HashState::Stale)
        } else {
            None
        }
    }
}

/// Whether an indexed hash may be reused for a looked-up file.
#[derive(Debug, Clone, Copy, PartialEq, Eq, Structural)]
pub enum CacheState {
    CacheValid,
    CacheStale,
    CacheUnverified,
}

impl CacheState {
    pub open spec fn name(self) -> Seq<char> {
        match self {
            CacheState::CacheValid => "cache_valid"@,
            CacheState::CacheStale => "cache_stale"@,
            CacheState::CacheUnverified => "cache_unverified"@,
        }
    }

    pub fn as_str(self) -> (r: &'static str)
        ensures
            r@ == self.name(),
    {
        match self {
            CacheState::CacheValid => "cache_valid",
            CacheState::CacheStale => "cache_stale",
            CacheState::CacheUnverified => "cache_unverified",
        }
    }
}

/// The review status of one cleanup plan item.
#[derive(Debug, Clone, Copy, PartialEq, Eq, Structural)]
pub enum PlanItemStatus {
    CandidateUnverified,
    VerifiedCandidate,
    Blocked,
    Stale,
}

impl PlanItemStatus {
    pub open spec fn name(self) -> Seq<char> {
        match self {
            PlanItemStatus::CandidateUnverified => "candidate_unverified"@,
            PlanItemStatus::VerifiedCandidate => "verified_candidate"@,
            PlanItemStatus::Blocked => "blocked"@,
            PlanItemStatus::Stale => "stale"@,
        }
    }

    pub fn as_str(self) -> (r: &'static str)
        ensures
            r@ == self.name(),
    {
        match self {
            PlanItemStatus::CandidateUnverified => "candidate_unverified",
            PlanItemStatus::VerifiedCandidate => "verified_candidate",
            PlanItemStatus::Blocked => "blocked",
            PlanItemStatus::Stale => "stale",
        }
    }
}

/// Result of re-checking a copy before it is offered for review.
#[derive(Debug, Clone, Copy, PartialEq, Eq, Structural)]
pub enum CheckState {
    Unverified,
    Verified,
    Failed,
}

impl CheckState {
    pub open spec fn name(self) -> Seq<char> {
        match self {
            CheckState::Unverified => "unverified"@,
            CheckState::Verified => "verified"@,
            CheckState::Failed => "failed"@,
        }
    }

    pub fn as_str(self) -> (r: &'static str)
        ensures
            r@ == self.name(),
    {
        match self {
            CheckState::Unverified => "unverified",
            CheckState::Verified => "verified",
            CheckState::Failed => "failed",
        }
    }
}

/// Which re-check a cleanup plan performed.
#[derive(Debug, Clone, Copy, PartialEq, Eq, Structural)]
pub enum VerificationMode {
    NoCheck,
    Metadata,
    FullHash,
}

impl VerificationMode {
    pub open spec fn name(self) -> Seq<char> {
        match self {
            VerificationMode::NoCheck => "none"@,
            VerificationMode::Metadata => "metadata"@,
            VerificationMode::FullHash => "full_hash"@,
        }
    }

    pub fn as_str(self) -> (r: &'static str)
        ensures
            r@ == self.name(),
    {
        match self {
            VerificationMode::NoCheck => "none",
            VerificationMode::Metadata => "metadata",
            VerificationMode::FullHash => "full_hash",
        }
    }
}

/// Lifecycle status of a scan or a task.
#[derive(Debug, Clone, Copy, PartialEq, Eq, Structural)]
pub enum RunStatus {
    Running,
    Completed,
    CompletedWithErrors,
    Interrupted,
    Failed,
}

impl RunStatus {
    pub open spec fn name(self) -> Seq<char> {
        match self {
            RunStatus::Running => "running"@,
            RunStatus::Completed => "completed"@,
            RunStatus::CompletedWithErrors => "completed_with_errors"@,
            RunStatus::Interrupted => "interrupted"@,
            RunStatus::Failed => "failed"@,
        }
    }

    pub fn as_str(self) -> (r: &'static str)
        ensures
            r@ == self.name(),
    {
        match self {
            RunStatus::Running => "running",
            RunStatus::Completed => "completed",
            RunStatus::CompletedWithErrors => "completed_with_errors",
            RunStatus::Interrupted => "interrupted",
            RunStatus::Failed => "failed",
        }
    }
}

/// Whether a marker conflict still awaits review.
#[derive(Debug, Clone, Copy, PartialEq, Eq, Structural)]
pub enum ConflictState {
    Open,
    Resolved,
}

impl ConflictState {
    pub open spec fn name(self) -> Seq<char> {
        match self {
            ConflictState::Open => "open"@,
            ConflictState::Resolved => "resolved"@,
        }
    }

    pub fn as_str(self) -> (r: &'static str)
        ensures
            r@ == self.name(),
    {
        match self {
            ConflictState::Open => "open",
            ConflictState::Resolved => "resolved",
        }
    }
}

/// A registered logical volume. Paths are raw bytes.
#[derive(Debug, Clone)]
pub struct Volume {
    pub id: i64,
    pub volume_uid: String,
    pub marker_uid: Option<String>,
    pub volume_name: String,
    pub filesystem: Option<String>,
    pub mount_path: Vec<u8>,
    pub system_volume_uuid: Option<String>,
    pub device_serial: Option<String>,
    pub partition_uuid: Option<String>,
    pub total_size: Option<i64>,
    pub physical_device_id: Option<i64>,
    pub identity_state: VolumeIdentityState,
    pub role: VolumeRole,
    pub is_online: bool,
    pub first_seen_at: String,
    pub last_seen_at: String,
}

/// A physical disk grouping derived from whole-disk identity evidence.
#[derive(Debug, Clone)]
pub struct PhysicalDevice {
    pub id: i64,
    pub stable_uid: String,
    pub whole_disk_identifier: Option<String>,
    pub whole_disk_media_uuid: Option<String>,
    pub hardware_serial: Option<String>,
    pub identity_state: PhysicalDeviceIdentityState,
    pub identity_source: String,
    pub media_uuid: Option<String>,
    pub device_serial: Option<String>,
    pub model: Option<String>,
    pub transport: Option<String>,
    pub total_size: Option<i64>,
    pub first_seen_at: String,
    pub last_seen_at: String,
}

/// A candidate registration that shares a marker with a known volume but
/// could not be proven to be the same disk.
#[derive(Debug, Clone)]
pub struct VolumeIdentityConflict {
    pub id: i64,
    pub existing_volume_id: i64,
    pub existing_volume_uid: String,
    pub candidate_marker_uid: Option<String>,
    pub candidate_mount_path: Vec<u8>,
    pub candidate_filesystem: Option<String>,
    pub candidate_system_volume_uuid: Option<String>,
    pub candidate_partition_uuid: Option<String>,
    pub candidate_media_uuid: Option<String>,
    pub candidate_device_serial: Option<String>,
    pub candidate_total_size: Option<i64>,
    pub candidate_physical_device_id: Option<i64>,
    pub state: ConflictState,
    pub resolution: Option<String>,
    pub resolved_volume_id: Option<i64>,
    pub detected_at: String,
    pub resolved_at: Option<String>,
}

/// One indexed copy of a file on one volume, joined with its volume.
#[derive(Debug, Clone)]
pub struct FileRecord {
    pub id: i64,
    pub volume_id: i64,
    pub volume_uid: String,
    pub volume_name: String,
    pub volume_role: VolumeRole,
    pub volume_online: bool,
    pub physical_device_id: Option<i64>,
    pub physical_identity_state: PhysicalDeviceIdentityState,
    pub relative_path: Vec<u8>,
    pub file_size: u64,
    pub modified_at_ns: Option<i64>,
    pub created_at_ns: Option<i64>,
    pub inode: Option<i64>,
    pub device_id: Option<i64>,
    pub storage_object_key: Option<String>,
    pub link_group_id: Option<String>,
    pub content_id: Option<i64>,
    pub sample_hash: Option<String>,
    pub full_hash: Option<String>,
    pub hash_state: HashState,
    pub status: CopyStatus,
    pub last_error: Option<String>,
    pub first_seen_at: String,
    pub last_seen_at: String,
    pub last_verified_at: Option<String>,
}

/// File metadata observed on disk during a scan.
#[derive(Debug, Clone)]
pub struct FileMetadata {
    pub relative_path: Vec<u8>,
    pub filename: Vec<u8>,
    pub file_size: u64,
    pub modified_at_ns: Option<i64>,
    pub created_at_ns: Option<i64>,
    pub inode: Option<i64>,
    pub device_id: Option<i64>,
}

/// Counters and final status of one scan run.
#[derive(Debug, Clone)]
pub struct ScanSummary {
    pub scan_id: i64,
    pub status: RunStatus,
    pub discovered_count: u64,
    pub metadata_reused_count: u64,
    pub sampled_count: u64,
    pub full_hashed_count: u64,
    pub skipped_count: u64,
    pub missing_count: u64,
    pub error_count: u64,
    pub bytes_read: u64,
}

/// The presentation of one file copy in reports and plans.
#[derive(Debug, Clone)]
pub struct CopyView {
    pub file_copy_id: i64,
    pub volume_id: i64,
    pub volume_uid: String,
    pub volume: String,
    pub role: VolumeRole,
    pub path: String,
    pub status: CopyStatus,
    pub is_online: bool,
    pub physical_device_id: Option<i64>,
    pub physical_identity_state: PhysicalDeviceIdentityState,
    pub storage_object_key: Option<String>,
    pub link_group_id: Option<String>,
    pub last_error: Option<String>,
}

/// A group of copies whose content is confirmed equal by size and full hash.
#[derive(Debug, Clone)]
pub struct DuplicateGroup {
    pub full_hash: String,
    pub file_size: u64,
    pub known_copies: usize,
    pub online_copies: usize,
    pub offline_copies: usize,
    pub missing_copies: usize,
    pub path_count: usize,
    pub storage_object_count: usize,
    pub logical_volume_count: usize,
    pub physical_device_count: usize,
    pub verified_physical_device_count: usize,
    pub unknown_physical_device_count: usize,
    pub theoretical_reclaimable_bytes: u64,
    pub copies: Vec<CopyView>,
}

/// What the index knows about one looked-up file.
#[derive(Debug, Clone)]
pub struct LookupResult {
    pub path: String,
    pub file_size: u64,
    pub sample_hash: Option<String>,
    pub full_hash: Option<String>,
    pub hash_state: HashState,
    pub exact: bool,
    pub cache_state: CacheState,
    pub metadata_matches_index: bool,
    pub requires_rehash: bool,
    pub has_appeared_before: bool,
    pub known_copies: usize,
    pub online_copies: usize,
    pub offline_copies: usize,
    pub copies: Vec<CopyView>,
    pub first_seen_at: Option<String>,
    pub last_seen_at: Option<String>,
    pub warnings: Vec<String>,
}

/// A read-only cleanup plan for human review.
#[derive(Debug, Clone)]
pub struct CleanupPlan {
    pub schema_version: i64,
    pub generated_at: String,
    pub database_path: String,
    pub target_volume_id: i64,
    pub keep_volume_id: i64,
    pub min_remaining_copies: usize,
    pub min_remaining_physical_devices: usize,
    pub verification_mode: VerificationMode,
    pub verification_protocol_version: u32,
    pub verified_at: Option<String>,
    pub cancelled: bool,
    pub completed_items: usize,
    pub blocked_items: usize,
    pub verified_items: usize,
    pub warnings: Vec<String>,
    pub items: Vec<CleanupPlanItem>,
}

/// One copy proposed for review, with the evidence for or against it.
#[derive(Debug, Clone)]
pub struct CleanupPlanItem {
    pub full_hash: String,
    pub file_size: u64,
    pub candidate_delete: CopyView,
    pub keep_candidates: Vec<CopyView>,
    pub all_known_copies: Vec<CopyView>,
    pub all_remaining_candidates: Vec<CopyView>,
    pub verified_remaining_copies: Vec<CopyView>,
    pub failed_remaining_copies: Vec<CopyView>,
    pub unknown_identity_copies: Vec<CopyView>,
    pub generated_at: String,
    pub database_schema_version: i64,
    pub status: PlanItemStatus,
    pub verification_mode: VerificationMode,
    pub verified_at: Option<String>,
    pub remaining_path_copies: usize,
    pub remaining_storage_objects: usize,
    pub remaining_volumes: usize,
    pub remaining_physical_devices: usize,
    pub verified_remaining_path_copies: usize,
    pub verified_remaining_storage_objects: usize,
    pub verified_remaining_logical_volumes: usize,
    pub verified_remaining_physical_devices: usize,
    pub candidate_metadata_state: CheckState,
    pub keeper_metadata_state: CheckState,
    pub verification_failures: Vec<String>,
    pub physical_identity_warnings: Vec<String>,
    pub blocked_reasons: Vec<String>,
    pub risk_notice: String,
}


/// An exact copy of an optional string.
pub fn clone_opt_string(o: &Option<String>) -> (r: Option<String>)
    ensures
        r == *o,
{
    match o {
        Some(s) => Some(s.clone()),
        None => None,
    }
}

impl CopyView {
    /// A field-by-field duplicate, equal to `self`.
    pub fn copy_of(&self) -> (r: CopyView)
        ensures
            r == *self,
    {
        CopyView {
            file_copy_id: self.file_copy_id,
            volume_id: self.volume_id,
            volume_uid: self.volume_uid.clone(),
            volume: self.volume.clone(),
            role: self.role,
            path: self.path.clone(),
            status: self.status,
            is_online: self.is_online,
            physical_device_id: self.physical_device_id,
            physical_identity_state: self.physical_identity_state,
            storage_object_key: clone_opt_string(&self.storage_object_key),
            link_group_id: clone_opt_string(&self.link_group_id),
            last_error: clone_opt_string(&self.last_error),
        }
    }
}

/// An element-wise copy of a list of copy views.
pub fn clone_copy_views(v: &Vec<CopyView>) -> (r: Vec<CopyView>)
    ensures
        r@ == v@,
{
    let mut out: Vec<CopyView> = Vec::new();
    let mut i: usize = 0;
    while i < v.len()
        invariant
            i <= v@.len(),
            out@ == v@.subrange(0, i as int),
        decreases v.len() - i,
    {
        out.push(v[i].copy_of());
        proof {
            assert(v@.subrange(0, i + 1) =~= v@.subrange(0, i as int).push(v@[i as int]));
        }
        i = i + 1;
    }
    assert(v@.subrange(0, v@.len() as int) =~= v@);
    out
}

/// An element-wise copy of a list of strings.
pub fn clone_strings(v: &Vec<String>) -> (r: Vec<String>)
    ensures
        r@ == v@,
{
    let mut out: Vec<String> = Vec::new();
    let mut i: usize = 0;
    while i < v.len()
        invariant
            i <= v@.len(),
            out@ == v@.subrange(0, i as int),
        decreases v.len() - i,
    {
        out.push(v[i].clone());
        proof {
            assert(v@.subrange(0, i + 1) =~= v@.subrange(0, i as int).push(v@[i as int]));
        }
        i = i + 1;
    }
    assert(v@.subrange(0, v@.len() as int) =~= v@);
    out
}

impl FileRecord {
    /// The absolute path of the copy below the given mount path.
    pub fn absolute_path(&self, mount_path: &[u8]) -> (r: Vec<u8>)
        requires
            mount_path@.len() + self.relative_path@.len() + 1 <= usize::MAX,
        ensures
            r@ == crate::paths::spec_join(mount_path@, self.relative_path@),
    {
        crate::paths::join_path(mount_path, self.relative_path.as_slice())
    }
}

} // verus!
