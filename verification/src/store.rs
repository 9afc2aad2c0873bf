//! The records the index stores, as values: what a registration writes for a
//! volume, a physical device or an identity conflict, how a scanned file is
//! reconciled with its stored copy, and the identity given to volumes that
//! predate physical device tracking.

use vstd::prelude::*;
use vstd::utf8::encode_utf8;
use crate::hashing::{blake3_hash_hex, blake3_hex, le64, u64_le_bytes};
use crate::model::{
    clone_opt_string, CopyStatus, FileMetadata, FileRecord, HashState, PhysicalDevice,
    PhysicalDeviceIdentityState, Volume, VolumeIdentityConflict, VolumeIdentityState, VolumeRole,
};
use crate::paths::{
    append_bytes, display_bytes, display_path, file_name, path_component_count, spec_file_name,
    starts_with, path_starts_with, component_count,
};
use crate::text::{dec_int, i64_text, utf8_lossy};
use crate::volume::{opt_field, size_or_zero, PhysicalDeviceIdentity, VolumeIdentityInput};
use crate::duplicate::{metadata_matches_index, spec_metadata_matches};

verus! {

/// How a scanned file relates to the copy stored for its path.
#[derive(Debug, Clone, Copy, PartialEq, Eq, Structural)]
pub enum MetadataOutcome {
    New,
    Reused,
    Changed,
}

/// The volume row a registration writes.
#[derive(Debug, Clone)]
pub struct VolumeUpsert {
    pub volume_uid: String,
    pub marker_uid: Option<String>,
    pub root: Vec<u8>,
    pub filesystem: Option<String>,
    pub system_volume_uuid: Option<String>,
    pub device_serial: Option<String>,
    pub partition_uuid: Option<String>,
    pub total_size: Option<i64>,
    pub physical_device_id: Option<i64>,
    pub identity_state: VolumeIdentityState,
    pub role: VolumeRole,
}

/// The physical device row a registration writes.
#[derive(Debug, Clone)]
pub struct PhysicalDeviceUpsert {
    pub stable_uid: String,
    pub whole_disk_identifier: Option<String>,
    pub whole_disk_media_uuid: Option<String>,
    pub hardware_serial: Option<String>,
    pub identity_state: PhysicalDeviceIdentityState,
    pub identity_source: String,
    pub media_uuid: Option<String>,
    pub device_serial: Option<String>,
    pub model: Option<String>,
    pub transport: Option<String>,
    pub total_size: Option<i64>,
}

/// The evidence recorded for a candidate that could not be proven to be the
/// existing volume.
#[derive(Debug, Clone)]
pub struct VolumeConflictInput {
    pub existing_volume_id: i64,
    pub candidate_marker_uid: Option<String>,
    pub candidate_root: Vec<u8>,
    pub candidate_filesystem: Option<String>,
    pub candidate_system_volume_uuid: Option<String>,
    pub candidate_partition_uuid: Option<String>,
    pub candidate_media_uuid: Option<String>,
    pub candidate_device_serial: Option<String>,
    pub candidate_total_size: Option<i64>,
    pub candidate_physical_device_id: Option<i64>,
}

/// The first of two optional values that is present.
pub open spec fn first_some(a: Option<String>, b: Option<String>) -> Option<String> {
    if a is Some {
        a
    } else {
        b
    }
}

/// The volume row for `root` under the given UID and marker. The stored
/// device value is the candidate's device serial, else its media UUID.
pub open spec fn spec_volume_upsert(
    volume_uid: Seq<char>,
    marker_uid: Option<String>,
    root: Seq<u8>,
    i: VolumeIdentityInput,
    physical_device_id: i64,
    state: VolumeIdentityState,
    role: VolumeRole,
    u: VolumeUpsert,
) -> bool {
    &&& u.volume_uid@ == volume_uid
    &&& u.marker_uid == marker_uid
    &&& u.root@ == root
    &&& u.filesystem == Some(i.filesystem)
    &&& u.system_volume_uuid == i.system_volume_uuid
    &&& u.device_serial == first_some(i.device_serial, i.media_uuid)
    &&& u.partition_uuid == i.partition_uuid
    &&& u.total_size == i.total_size
    &&& u.physical_device_id == Some(physical_device_id)
    &&& u.identity_state == state
    &&& u.role == role
}

fn volume_upsert(
    volume_uid: String,
    marker_uid: Option<String>,
    root: &[u8],
    identity: &VolumeIdentityInput,
    physical_device_id: i64,
    state: VolumeIdentityState,
    role: VolumeRole,
) -> (r: VolumeUpsert)
    ensures
        spec_volume_upsert(volume_uid@, marker_uid, root@, *identity, physical_device_id, state, role, r),
{
    let device_serial = if identity.device_serial.is_some() {
        clone_opt_string(&identity.device_serial)
    } else {
        clone_opt_string(&identity.media_uuid)
    };
    let mut root_bytes: Vec<u8> = Vec::new();
    append_bytes(&mut root_bytes, root);
    VolumeUpsert {
        volume_uid,
        marker_uid,
        root: root_bytes,
        filesystem: Some(identity.filesystem.clone()),
        system_volume_uuid: clone_opt_string(&identity.system_volume_uuid),
        device_serial,
        partition_uuid: clone_opt_string(&identity.partition_uuid),
        total_size: identity.total_size,
        physical_device_id: Some(physical_device_id),
        identity_state: state,
        role,
    }
}

/// The row that re-registers a known volume at `root`: it keeps the
/// volume's UID and marker and takes the candidate's identity evidence.
pub fn registered_volume_upsert(
    existing: &Volume,
    root: &[u8],
    identity: &VolumeIdentityInput,
    physical_device_id: i64,
    role: VolumeRole,
    state: VolumeIdentityState,
) -> (r: VolumeUpsert)
    ensures
        spec_volume_upsert(
            existing.volume_uid@,
            existing.marker_uid,
            root@,
            *identity,
            physical_device_id,
            state,
            role,
            r,
        ),
{
    volume_upsert(
        existing.volume_uid.clone(),
        clone_opt_string(&existing.marker_uid),
        root,
        identity,
        physical_device_id,
        state,
        role,
    )
}

/// The row of a volume registered under a fallback UID.
pub fn fallback_volume_upsert(
    volume_uid: String,
    marker_uid: &Option<String>,
    root: &[u8],
    identity: &VolumeIdentityInput,
    physical_device_id: i64,
    state: VolumeIdentityState,
    role: VolumeRole,
) -> (r: VolumeUpsert)
    ensures
        spec_volume_upsert(volume_uid@, *marker_uid, root@, *identity, physical_device_id, state, role, r),
{
    volume_upsert(volume_uid, clone_opt_string(marker_uid), root, identity, physical_device_id, state, role)
}

/// The physical device row for the identity derived from a volume's
/// evidence.
pub fn physical_device_upsert(device: &PhysicalDeviceIdentity, identity: &VolumeIdentityInput) -> (r:
    PhysicalDeviceUpsert)
    ensures
        r.stable_uid@ == device.stable_uid@,
        r.identity_state == device.state,
        r.identity_source@ == device.source@,
        r.whole_disk_identifier == identity.whole_disk_identifier,
        r.whole_disk_media_uuid == identity.whole_disk_media_uuid,
        r.hardware_serial == identity.hardware_serial,
        r.media_uuid == identity.media_uuid,
        r.device_serial == identity.device_serial,
        r.model == identity.model,
        r.transport == identity.transport,
        r.total_size == identity.total_size,
{
    PhysicalDeviceUpsert {
        stable_uid: device.stable_uid.clone(),
        whole_disk_identifier: clone_opt_string(&identity.whole_disk_identifier),
        whole_disk_media_uuid: clone_opt_string(&identity.whole_disk_media_uuid),
        hardware_serial: clone_opt_string(&identity.hardware_serial),
        identity_state: device.state,
        identity_source: device.source.clone(),
        media_uuid: clone_opt_string(&identity.media_uuid),
        device_serial: clone_opt_string(&identity.device_serial),
        model: clone_opt_string(&identity.model),
        transport: clone_opt_string(&identity.transport),
        total_size: identity.total_size,
    }
}

/// The conflict evidence for a candidate that shares a marker with volume
/// `existing_volume_id`.
pub fn conflict_input(
    existing_volume_id: i64,
    marker: &String,
    root: &[u8],
    identity: &VolumeIdentityInput,
    physical_device_id: i64,
) -> (r: VolumeConflictInput)
    ensures
        r.existing_volume_id == existing_volume_id,
        r.candidate_marker_uid == Some(*marker),
        r.candidate_root@ == root@,
        r.candidate_filesystem == Some(identity.filesystem),
        r.candidate_system_volume_uuid == identity.system_volume_uuid,
        r.candidate_partition_uuid == identity.partition_uuid,
        r.candidate_media_uuid == identity.media_uuid,
        r.candidate_device_serial == identity.device_serial,
        r.candidate_total_size == identity.total_size,
        r.candidate_physical_device_id == Some(physical_device_id),
{
    let mut root_bytes: Vec<u8> = Vec::new();
    append_bytes(&mut root_bytes, root);
    VolumeConflictInput {
        existing_volume_id,
        candidate_marker_uid: Some(marker.clone()),
        candidate_root: root_bytes,
        candidate_filesystem: Some(identity.filesystem.clone()),
        candidate_system_volume_uuid: clone_opt_string(&identity.system_volume_uuid),
        candidate_partition_uuid: clone_opt_string(&identity.partition_uuid),
        candidate_media_uuid: clone_opt_string(&identity.media_uuid),
        candidate_device_serial: clone_opt_string(&identity.device_serial),
        candidate_total_size: identity.total_size,
        candidate_physical_device_id: Some(physical_device_id),
    }
}

/// The display name of a volume: its root's last component, or the whole
/// root path when it has none.
pub open spec fn spec_volume_name(root: Seq<u8>) -> Seq<char> {
    match spec_file_name(root) {
        Some(name) => if name.len() > 0 { utf8_lossy(name) } else { utf8_lossy(root) },
        None => utf8_lossy(root),
    }
}

pub fn volume_name_for_root(root: &[u8]) -> (r: String)
    ensures
        r@ == spec_volume_name(root@),
{
    match file_name(root) {
        Some(name) => {
            if name.len() > 0 {
                display_path(name.as_slice())
            } else {
                display_path(root)
            }
        },
        None => display_path(root),
    }
}

/// The volume row that keeps a conflicting candidate as a volume of its own.
pub fn volume_from_conflict(conflict: &VolumeIdentityConflict, volume_uid: String, role: VolumeRole) -> (r:
    VolumeUpsert)
    ensures
        r.volume_uid@ == volume_uid@,
        r.marker_uid == conflict.candidate_marker_uid,
        r.root@ == conflict.candidate_mount_path@,
        r.filesystem == conflict.candidate_filesystem,
        r.system_volume_uuid == conflict.candidate_system_volume_uuid,
        r.device_serial == conflict.candidate_device_serial,
        r.partition_uuid == conflict.candidate_partition_uuid,
        r.total_size == conflict.candidate_total_size,
        r.physical_device_id == conflict.candidate_physical_device_id,
        r.identity_state == VolumeIdentityState::PossibleClone,
        r.role == role,
{
    let mut root_bytes: Vec<u8> = Vec::new();
    append_bytes(&mut root_bytes, conflict.candidate_mount_path.as_slice());
    VolumeUpsert {
        volume_uid,
        marker_uid: clone_opt_string(&conflict.candidate_marker_uid),
        root: root_bytes,
        filesystem: clone_opt_string(&conflict.candidate_filesystem),
        system_volume_uuid: clone_opt_string(&conflict.candidate_system_volume_uuid),
        device_serial: clone_opt_string(&conflict.candidate_device_serial),
        partition_uuid: clone_opt_string(&conflict.candidate_partition_uuid),
        total_size: conflict.candidate_total_size,
        physical_device_id: conflict.candidate_physical_device_id,
        identity_state: VolumeIdentityState::PossibleClone,
        role,
    }
}

/// Identity evidence of a volume recorded before physical devices were
/// tracked.
#[derive(Debug, Clone)]
pub struct LegacyVolume {
    pub volume_id: i64,
    pub system_volume_uuid: Option<String>,
    pub partition_uuid: Option<String>,
    pub media_uuid: Option<String>,
    pub filesystem: Option<String>,
    pub total_size: Option<i64>,
    pub mount_path: Vec<u8>,
}

/// Some volume-level stable identifier was recorded.
pub open spec fn legacy_has_stable(v: LegacyVolume) -> bool {
    v.system_volume_uuid is Some || v.partition_uuid is Some || v.media_uuid is Some
}

/// The bytes hashed into a legacy device UID: the recorded stable
/// identifiers, or else the filesystem (`unknown` when absent), the size and
/// the mount path.
pub open spec fn legacy_uid_input(v: LegacyVolume) -> Seq<u8> {
    if legacy_has_stable(v) {
        opt_field(v.system_volume_uuid) + opt_field(v.partition_uuid) + opt_field(v.media_uuid)
    } else {
        encode_utf8(
            match v.filesystem {
                Some(f) => f@,
                None => "unknown"@,
            },
        ).push(0u8) + le64(size_or_zero(v.total_size) as u64) + v.mount_path@
    }
}

/// The physical device row given to a legacy volume: grouped by its
/// recorded identifiers, never counted as a verified device.
pub fn legacy_device_upsert(v: &LegacyVolume) -> (r: PhysicalDeviceUpsert)
    ensures
        r.stable_uid@ == "physical:legacy:v1:"@ + blake3_hex(legacy_uid_input(*v)),
        r.identity_state == PhysicalDeviceIdentityState::Unknown,
        r.identity_source@ == "legacy"@,
        r.media_uuid == v.media_uuid,
        r.total_size == v.total_size,
        r.whole_disk_identifier is None,
        r.whole_disk_media_uuid is None,
        r.hardware_serial is None,
        r.device_serial is None,
        r.model is None,
        r.transport is None,
{
    let mut input: Vec<u8> = Vec::new();
    let stable = v.system_volume_uuid.is_some() || v.partition_uuid.is_some() || v.media_uuid.is_some();
    if stable {
        push_field(&mut input, &v.system_volume_uuid);
        push_field(&mut input, &v.partition_uuid);
        push_field(&mut input, &v.media_uuid);
    } else {
        match &v.filesystem {
            Some(f) => append_bytes(&mut input, f.as_str().as_bytes()),
            None => append_bytes(&mut input, "unknown".as_bytes()),
        }
        input.push(0u8);
        let size: i64 = match v.total_size {
            Some(s) => s,
            None => 0,
        };
        let le = u64_le_bytes(size as u64);
        append_bytes(&mut input, le.as_slice());
        append_bytes(&mut input, v.mount_path.as_slice());
    }
    proof {
        assert(input@ =~= legacy_uid_input(*v));
    }
    let mut uid = "physical:legacy:v1:".to_owned();
    uid.append(blake3_hash_hex(input.as_slice()).as_str());
    PhysicalDeviceUpsert {
        stable_uid: uid,
        whole_disk_identifier: None,
        whole_disk_media_uuid: None,
        hardware_serial: None,
        identity_state: PhysicalDeviceIdentityState::Unknown,
        identity_source: "legacy".to_owned(),
        media_uuid: clone_opt_string(&v.media_uuid),
        device_serial: None,
        model: None,
        transport: None,
        total_size: v.total_size,
    }
}

fn push_field(buf: &mut Vec<u8>, o: &Option<String>)
    ensures
        final(buf)@ == old(buf)@ + opt_field(*o),
{
    if let Some(s) = o {
        append_bytes(buf, s.as_str().as_bytes());
        buf.push(0u8);
    } else {
        assert(old(buf)@ + opt_field(*o) =~= old(buf)@);
    }
}

/// A legacy volume is verified when some stable identifier was recorded,
/// otherwise a fallback.
pub fn legacy_identity_state(v: &LegacyVolume) -> (r: VolumeIdentityState)
    ensures
        r == if legacy_has_stable(*v) {
            VolumeIdentityState::Verified
        } else {
            VolumeIdentityState::Fallback
        },
{
    if v.system_volume_uuid.is_some() || v.partition_uuid.is_some() || v.media_uuid.is_some() {
        VolumeIdentityState::Verified
    } else {
        VolumeIdentityState::Fallback
    }
}

/// Hard links and the same file seen again share a storage object key:
/// physical device, device ID and inode. Without all three there is none.
pub open spec fn spec_storage_object_key(physical_device_id: Option<i64>, m: FileMetadata) -> Option<Seq<char>> {
    match (physical_device_id, m.device_id, m.inode) {
        (Some(pd), Some(dev), Some(ino)) => Some(
            "v1:"@ + dec_int(pd as int) + ":"@ + dec_int(dev as int) + ":"@ + dec_int(ino as int),
        ),
        _ => None,
    }
}

pub fn storage_object_key(physical_device_id: Option<i64>, metadata: &FileMetadata) -> (r: Option<String>)
    ensures
        match r {
            Some(k) => spec_storage_object_key(physical_device_id, *metadata) == Some(k@),
            None => spec_storage_object_key(physical_device_id, *metadata) is None,
        },
{
    match (physical_device_id, metadata.device_id, metadata.inode) {
        (Some(pd), Some(dev), Some(ino)) => {
            let mut key = "v1:".to_owned();
            key.append(i64_text(pd).as_str());
            key.append(":");
            key.append(i64_text(dev).as_str());
            key.append(":");
            key.append(i64_text(ino).as_str());
            Some(key)
        },
        _ => None,
    }
}

/// What reconciling a scanned file with its stored copy amounts to.
#[derive(Debug, Clone, Copy, PartialEq, Eq, Structural)]
pub enum Observation {
    /// No copy was stored for the path: a new copy is discovered.
    Discovered,
    /// The stored metadata still holds; `restored` when the copy had not
    /// been present.
    Reused { restored: bool },
    /// The metadata changed: the stored hashes no longer describe the file.
    ContentChanged,
}

pub open spec fn spec_observe(existing: Option<FileRecord>, m: FileMetadata) -> Observation {
    match existing {
        None => Observation::Discovered,
        Some(r) => if spec_metadata_matches(r, m) {
            Observation::Reused { restored: r.status != CopyStatus::Present }
        } else {
            Observation::ContentChanged
        },
    }
}

pub fn observe(existing: &Option<FileRecord>, metadata: &FileMetadata) -> (r: Observation)
    ensures
        r == spec_observe(*existing, *metadata),
{
    match existing {
        None => Observation::Discovered,
        Some(record) => {
            if metadata_matches_index(record, metadata) {
                Observation::Reused { restored: !record.status.is_present() }
            } else {
                Observation::ContentChanged
            }
        },
    }
}

impl Observation {
    pub open spec fn spec_outcome(self) -> MetadataOutcome {
        match self {
            Observation::Discovered => MetadataOutcome::New,
            Observation::Reused { .. } => MetadataOutcome::Reused,
            Observation::ContentChanged => MetadataOutcome::Changed,
        }
    }

    /// The scan outcome counted for this observation.
    pub fn outcome(self) -> (r: MetadataOutcome)
        ensures
            r == self.spec_outcome(),
    {
        match self {
            Observation::Discovered => MetadataOutcome::New,
            Observation::Reused { .. } => MetadataOutcome::Reused,
            Observation::ContentChanged => MetadataOutcome::Changed,
        }
    }

    pub open spec fn spec_event(self) -> Option<Seq<char>> {
        match self {
            Observation::Discovered => Some("discovered"@),
            Observation::Reused { restored } => if restored { Some("restored"@) } else { None },
            Observation::ContentChanged => Some("content_changed"@),
        }
    }

    /// The file event recorded for this observation, if any.
    pub fn event_name(self) -> (r: Option<&'static str>)
        ensures
            match r {
                Some(e) => self.spec_event() == Some(e@),
                None => self.spec_event() is None,
            },
    {
        match self {
            Observation::Discovered => Some("discovered"),
            Observation::Reused { restored } => if restored {
                Some("restored")
            } else {
                None
            },
            Observation::ContentChanged => Some("content_changed"),
        }
    }
}

/// `r` is stored copy `p` after observing `m` under storage key `key` at
/// `timestamp`: a reused copy is present again and keeps its hashes; a
/// changed copy takes the new metadata and loses every hash and its content
/// link.
pub open spec fn is_observed(
    p: FileRecord,
    m: FileMetadata,
    key: Option<String>,
    timestamp: Seq<char>,
    r: FileRecord,
) -> bool {
    let o = spec_observe(Some(p), m);
    &&& r.status == CopyStatus::Present
    &&& r.last_error is None
    &&& r.last_seen_at@ == timestamp
    &&& r.storage_object_key == key
    &&& r.link_group_id == key
    &&& r.id == p.id && r.volume_id == p.volume_id && r.relative_path == p.relative_path
    &&& r.volume_uid == p.volume_uid && r.volume_name == p.volume_name
    &&& r.volume_role == p.volume_role && r.volume_online == p.volume_online
    &&& r.physical_device_id == p.physical_device_id
    &&& r.physical_identity_state == p.physical_identity_state
    &&& r.first_seen_at == p.first_seen_at
    &&& r.last_verified_at == p.last_verified_at
    &&& (o is ContentChanged ==> {
        &&& r.file_size == m.file_size
        &&& r.modified_at_ns == m.modified_at_ns
        &&& r.created_at_ns == m.created_at_ns
        &&& r.inode == m.inode
        &&& r.device_id == m.device_id
        &&& r.content_id is None
        &&& r.sample_hash is None
        &&& r.full_hash is None
        &&& r.hash_state == HashState::NotHashed
    })
    &&& (!(o is ContentChanged) ==> {
        &&& r.file_size == p.file_size
        &&& r.modified_at_ns == p.modified_at_ns
        &&& r.created_at_ns == p.created_at_ns
        &&& r.inode == p.inode
        &&& r.device_id == p.device_id
        &&& r.content_id == p.content_id
        &&& r.sample_hash == p.sample_hash
        &&& r.full_hash == p.full_hash
        &&& r.hash_state == p.hash_state
    })
}

/// Updates a stored copy with a scan observation.
pub fn apply_observation(
    record: &mut FileRecord,
    metadata: &FileMetadata,
    storage_key: &Option<String>,
    timestamp: &String,
)
    ensures
        is_observed(*old(record), *metadata, *storage_key, timestamp@, *final(record)),
{
    if !metadata_matches_index(record, metadata) {
        record.file_size = metadata.file_size;
        record.modified_at_ns = metadata.modified_at_ns;
        record.created_at_ns = metadata.created_at_ns;
        record.inode = metadata.inode;
        record.device_id = metadata.device_id;
        record.content_id = None;
        record.sample_hash = None;
        record.full_hash = None;
        record.hash_state = HashState::NotHashed;
    }
    record.status = CopyStatus::Present;
    record.last_error = None;
    record.last_seen_at = timestamp.clone();
    record.storage_object_key = clone_opt_string(storage_key);
    record.link_group_id = clone_opt_string(storage_key);
}

/// The volume that a path belongs to: the deepest mount path containing it.
pub fn best_volume_for_path(volumes: &Vec<Volume>, path: &[u8]) -> (r: Option<usize>)
    ensures
        match r {
            Some(i) => {
                &&& i < volumes@.len()
                &&& path_starts_with(path@, volumes@[i as int].mount_path@)
                &&& forall|j: int|
                    0 <= j < volumes@.len() && path_starts_with(path@, volumes@[j].mount_path@) ==> (
                    component_count(volumes@[j].mount_path@) < component_count(volumes@[i as int].mount_path@)
                        || (j >= i && component_count(volumes@[j].mount_path@) == component_count(
                        volumes@[i as int].mount_path@,
                    )))
            },
            None => forall|j: int| 0 <= j < volumes@.len() ==> !path_starts_with(path@, volumes@[j].mount_path@),
        },
{
    let mut best: Option<usize> = None;
    let mut best_count: u128 = 0;
    let mut k: usize = 0;
    while k < volumes.len()
        invariant
            k <= volumes@.len(),
            match best {
                Some(i) => {
                    &&& i < k
                    &&& path_starts_with(path@, volumes@[i as int].mount_path@)
                    &&& best_count == component_count(volumes@[i as int].mount_path@)
                    &&& forall|j: int|
                        0 <= j < k && path_starts_with(path@, volumes@[j].mount_path@) ==> (
                        component_count(volumes@[j].mount_path@) < best_count || (j >= i
                            && component_count(volumes@[j].mount_path@) == best_count))
                },
                None => forall|j: int| 0 <= j < k ==> !path_starts_with(path@, volumes@[j].mount_path@),
            },
        decreases volumes.len() - k,
    {
        if starts_with(path, volumes[k].mount_path.as_slice()) {
            let count = path_component_count(volumes[k].mount_path.as_slice());
            match best {
                None => {
                    best = Some(k);
                    best_count = count;
                },
                Some(_) => {
                    if count > best_count {
                        best = Some(k);
                        best_count = count;
                    }
                },
            }
        }
        k = k + 1;
    }
    best
}

/// The display text of a stored copy's relative path.
pub fn record_display_path(record: &FileRecord) -> (r: String)
    ensures
        r@ == utf8_lossy(record.relative_path@),
{
    display_bytes(record.relative_path.as_slice())
}

/// A stored value is replaced only by a known one.
pub open spec fn keep_or<T>(new: Option<T>, old: Option<T>) -> Option<T> {
    if new is Some {
        new
    } else {
        old
    }
}

fn keep_or_string(new: &Option<String>, old: &Option<String>) -> (r: Option<String>)
    ensures
        r == keep_or(*new, *old),
{
    if new.is_some() {
        clone_opt_string(new)
    } else {
        clone_opt_string(old)
    }
}

fn keep_or_i64(new: Option<i64>, old: Option<i64>) -> (r: Option<i64>)
    ensures
        r == keep_or(new, old),
{
    if new.is_some() {
        new
    } else {
        old
    }
}

/// A known volume re-registered: it moves to the new root and is online;
/// known identifiers replace stored ones, unknown ones keep them; its
/// state and role are the registration's.
pub fn updated_volume(existing: &Volume, u: &VolumeUpsert, timestamp: &String) -> (r: Volume)
    ensures
        r.id == existing.id,
        r.volume_uid == existing.volume_uid,
        r.marker_uid == keep_or(u.marker_uid, existing.marker_uid),
        r.volume_name@ == spec_volume_name(u.root@),
        r.filesystem == keep_or(u.filesystem, existing.filesystem),
        r.mount_path@ == u.root@,
        r.system_volume_uuid == keep_or(u.system_volume_uuid, existing.system_volume_uuid),
        r.device_serial == keep_or(u.device_serial, existing.device_serial),
        r.partition_uuid == keep_or(u.partition_uuid, existing.partition_uuid),
        r.total_size == keep_or(u.total_size, existing.total_size),
        r.physical_device_id == keep_or(u.physical_device_id, existing.physical_device_id),
        r.identity_state == u.identity_state,
        r.role == u.role,
        r.is_online,
        r.first_seen_at == existing.first_seen_at,
        r.last_seen_at == *timestamp,
{
    let mut root: Vec<u8> = Vec::new();
    append_bytes(&mut root, u.root.as_slice());
    Volume {
        id: existing.id,
        volume_uid: existing.volume_uid.clone(),
        marker_uid: keep_or_string(&u.marker_uid, &existing.marker_uid),
        volume_name: volume_name_for_root(u.root.as_slice()),
        filesystem: keep_or_string(&u.filesystem, &existing.filesystem),
        mount_path: root,
        system_volume_uuid: keep_or_string(&u.system_volume_uuid, &existing.system_volume_uuid),
        device_serial: keep_or_string(&u.device_serial, &existing.device_serial),
        partition_uuid: keep_or_string(&u.partition_uuid, &existing.partition_uuid),
        total_size: keep_or_i64(u.total_size, existing.total_size),
        physical_device_id: keep_or_i64(u.physical_device_id, existing.physical_device_id),
        identity_state: u.identity_state,
        role: u.role,
        is_online: true,
        first_seen_at: existing.first_seen_at.clone(),
        last_seen_at: timestamp.clone(),
    }
}

/// A volume registered for the first time under `id`, online and seen now.
pub fn new_volume(id: i64, u: &VolumeUpsert, timestamp: &String) -> (r: Volume)
    ensures
        r.id == id,
        r.volume_uid == u.volume_uid,
        r.marker_uid == u.marker_uid,
        r.volume_name@ == spec_volume_name(u.root@),
        r.filesystem == u.filesystem,
        r.mount_path@ == u.root@,
        r.system_volume_uuid == u.system_volume_uuid,
        r.device_serial == u.device_serial,
        r.partition_uuid == u.partition_uuid,
        r.total_size == u.total_size,
        r.physical_device_id == u.physical_device_id,
        r.identity_state == u.identity_state,
        r.role == u.role,
        r.is_online,
        r.first_seen_at == *timestamp,
        r.last_seen_at == *timestamp,
{
    let mut root: Vec<u8> = Vec::new();
    append_bytes(&mut root, u.root.as_slice());
    Volume {
        id,
        volume_uid: u.volume_uid.clone(),
        marker_uid: clone_opt_string(&u.marker_uid),
        volume_name: volume_name_for_root(u.root.as_slice()),
        filesystem: clone_opt_string(&u.filesystem),
        mount_path: root,
        system_volume_uuid: clone_opt_string(&u.system_volume_uuid),
        device_serial: clone_opt_string(&u.device_serial),
        partition_uuid: clone_opt_string(&u.partition_uuid),
        total_size: u.total_size,
        physical_device_id: u.physical_device_id,
        identity_state: u.identity_state,
        role: u.role,
        is_online: true,
        first_seen_at: timestamp.clone(),
        last_seen_at: timestamp.clone(),
    }
}

/// A known physical device seen again: known values replace stored ones,
/// unknown ones keep them; its stable UID never changes.
pub fn updated_device(existing: &PhysicalDevice, u: &PhysicalDeviceUpsert, timestamp: &String) -> (r:
    PhysicalDevice)
    ensures
        r.id == existing.id,
        r.stable_uid == existing.stable_uid,
        r.whole_disk_identifier == keep_or(u.whole_disk_identifier, existing.whole_disk_identifier),
        r.whole_disk_media_uuid == keep_or(u.whole_disk_media_uuid, existing.whole_disk_media_uuid),
        r.hardware_serial == keep_or(u.hardware_serial, existing.hardware_serial),
        r.identity_state == u.identity_state,
        r.identity_source == u.identity_source,
        r.media_uuid == keep_or(u.media_uuid, existing.media_uuid),
        r.device_serial == keep_or(u.device_serial, existing.device_serial),
        r.model == keep_or(u.model, existing.model),
        r.transport == keep_or(u.transport, existing.transport),
        r.total_size == keep_or(u.total_size, existing.total_size),
        r.first_seen_at == existing.first_seen_at,
        r.last_seen_at == *timestamp,
{
    PhysicalDevice {
        id: existing.id,
        stable_uid: existing.stable_uid.clone(),
        whole_disk_identifier: keep_or_string(&u.whole_disk_identifier, &existing.whole_disk_identifier),
        whole_disk_media_uuid: keep_or_string(&u.whole_disk_media_uuid, &existing.whole_disk_media_uuid),
        hardware_serial: keep_or_string(&u.hardware_serial, &existing.hardware_serial),
        identity_state: u.identity_state,
        identity_source: u.identity_source.clone(),
        media_uuid: keep_or_string(&u.media_uuid, &existing.media_uuid),
        device_serial: keep_or_string(&u.device_serial, &existing.device_serial),
        model: keep_or_string(&u.model, &existing.model),
        transport: keep_or_string(&u.transport, &existing.transport),
        total_size: keep_or_i64(u.total_size, existing.total_size),
        first_seen_at: existing.first_seen_at.clone(),
        last_seen_at: timestamp.clone(),
    }
}

} // verus!
