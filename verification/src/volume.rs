//! Volume identity. A volume name is only for display and never an identity
//! key; a shared marker only suggests "maybe the same logical volume", and
//! stable device evidence decides.

use vstd::prelude::*;
use vstd::string::StringSliceAdditionalSpecFns;
use crate::hashing::{blake3_hash_hex, blake3_hex, le64};
use crate::model::{
    ConflictState, PhysicalDevice, PhysicalDeviceIdentityState, Volume,
    VolumeIdentityConflict, VolumeIdentityState, };
use crate::paths::{display_path, paths_equal, path_eq, append_bytes};
use crate::text::{i64_text, dec_int, utf8_lossy, spec_trim, trim_text, str_eq};
use crate::ids::{is_uuid_text, new_uuid_text, is_v4_uuid_text, uuid_text_accepted};
use vstd::utf8::encode_utf8;

verus! {

/// Name of the hidden marker file at a volume root.
pub const MARKER_FILE: &'static str = ".disk-indexer-volume-id";

/// Whether registration may create a marker file.
#[derive(Debug, Clone, Copy, PartialEq, Eq, Structural)]
pub enum MarkerPolicy {
    WriteIfPossible,
    DoNotWrite,
}

/// Identity evidence that the platform reports for a mounted volume.
#[derive(Debug, Clone)]
pub struct VolumeIdentityInput {
    pub filesystem: String,
    pub system_volume_uuid: Option<String>,
    pub partition_uuid: Option<String>,
    /// Volume-level media UUID of older versions; it helps relinking but does
    /// not prove the identity of the physical medium.
    pub media_uuid: Option<String>,
    /// Older versions stored a device identifier here; it never counts
    /// physical devices.
    pub device_serial: Option<String>,
    pub whole_disk_identifier: Option<String>,
    pub whole_disk_media_uuid: Option<String>,
    pub hardware_serial: Option<String>,
    pub model: Option<String>,
    pub transport: Option<String>,
    pub total_size: Option<i64>,
}

/// The outcome of registering a volume root. A volume is only returned once
/// its identity is safely settled; a possible clone needs human review.
#[derive(Debug, Clone)]
pub struct VolumeRegistration {
    pub volume: Option<Volume>,
    pub marker_uid: Option<String>,
    pub writable: bool,
    pub used_fallback_identity: bool,
    pub identity_state: VolumeIdentityState,
    pub conflict: Option<VolumeIdentityConflict>,
}

/// Some stable platform identifier is known.
pub open spec fn spec_has_stable_identifier(i: VolumeIdentityInput) -> bool {
    ||| i.system_volume_uuid is Some
    ||| i.partition_uuid is Some
    ||| i.media_uuid is Some
    ||| i.device_serial is Some
    ||| i.whole_disk_media_uuid is Some
    ||| i.hardware_serial is Some
}

impl VolumeIdentityInput {
    pub fn has_stable_identifier(&self) -> (r: bool)
        ensures
            r == spec_has_stable_identifier(*self),
    {
        self.system_volume_uuid.is_some() || self.partition_uuid.is_some() || self.media_uuid.is_some()
            || self.device_serial.is_some() || self.whole_disk_media_uuid.is_some()
            || self.hardware_serial.is_some()
    }
}

/// Verified when a stable identifier exists, otherwise a fallback identity.
pub fn default_identity_state(identity: &VolumeIdentityInput) -> (r: VolumeIdentityState)
    ensures
        r == if spec_has_stable_identifier(*identity) {
            VolumeIdentityState::Verified
        } else {
            VolumeIdentityState::Fallback
        },
{
    if identity.has_stable_identifier() {
        VolumeIdentityState::Verified
    } else {
        VolumeIdentityState::Fallback
    }
}

/// Both values are known and differ.
pub open spec fn values_conflict(a: Option<String>, b: Option<String>) -> bool {
    a is Some && b is Some && a->0@ != b->0@
}

/// Both values are known and agree.
pub open spec fn values_agree(a: Option<String>, b: Option<String>) -> bool {
    a is Some && b is Some && a->0@ == b->0@
}

/// The candidate reports the volume's stored device value as its media UUID
/// or device serial.
pub open spec fn device_agrees(existing: Volume, c: VolumeIdentityInput) -> bool {
    existing.device_serial is Some && (values_agree(c.media_uuid, existing.device_serial) || values_agree(
        c.device_serial,
        existing.device_serial,
    ))
}

/// The stored device value is contradicted by a candidate device value.
pub open spec fn device_conflicts(existing: Volume, c: VolumeIdentityInput) -> bool {
    existing.device_serial is Some && !device_agrees(existing, c) && (c.media_uuid is Some
        || c.device_serial is Some)
}

/// At least one stable identifier agrees and none contradicts.
pub open spec fn spec_identity_is_consistent(existing: Volume, c: VolumeIdentityInput) -> bool {
    &&& !values_conflict(existing.system_volume_uuid, c.system_volume_uuid)
    &&& !values_conflict(existing.partition_uuid, c.partition_uuid)
    &&& !device_conflicts(existing, c)
    &&& (values_agree(existing.system_volume_uuid, c.system_volume_uuid) || values_agree(
        existing.partition_uuid,
        c.partition_uuid,
    ) || device_agrees(existing, c))
}

fn opt_eq(a: &Option<String>, b: &Option<String>) -> (r: (bool, bool))
    ensures
        r.0 == values_agree(*a, *b),
        r.1 == values_conflict(*a, *b),
{
    match (a, b) {
        (Some(x), Some(y)) => {
            let same = *x == *y;
            (same, !same)
        },
        _ => (false, false),
    }
}

/// True only when at least one stable identifier agrees and no stable
/// identifier contradicts another.
pub fn identity_is_consistent(existing: &Volume, candidate: &VolumeIdentityInput) -> (r: bool)
    ensures
        r == spec_identity_is_consistent(*existing, *candidate),
{
    let mut matched = false;
    let (sys_same, sys_conflict) = opt_eq(&existing.system_volume_uuid, &candidate.system_volume_uuid);
    if sys_conflict {
        return false;
    }
    if sys_same {
        matched = true;
    }
    let (part_same, part_conflict) = opt_eq(&existing.partition_uuid, &candidate.partition_uuid);
    if part_conflict {
        return false;
    }
    if part_same {
        matched = true;
    }
    if existing.device_serial.is_some() {
        let (media_same, _) = opt_eq(&candidate.media_uuid, &existing.device_serial);
        let (serial_same, _) = opt_eq(&candidate.device_serial, &existing.device_serial);
        if media_same || serial_same {
            matched = true;
        } else if candidate.media_uuid.is_some() || candidate.device_serial.is_some() {
            return false;
        }
    }
    matched
}

/// A logical volume UUID can help relinking, but a cloned volume may carry
/// the same UUID. When the known device has a verified whole-disk identity,
/// the candidate must not contradict it. `device` is the volume's physical
/// device record, `None` when it could not be read.
pub open spec fn spec_physical_identity_is_consistent(
    existing: Volume,
    device: Option<PhysicalDevice>,
    c: VolumeIdentityInput,
) -> bool {
    if existing.physical_device_id is None {
        true
    } else if device is None {
        false
    } else if device->0.identity_state != PhysicalDeviceIdentityState::Verified {
        true
    } else {
        !values_conflict(device->0.hardware_serial, c.hardware_serial) && !values_conflict(
            device->0.whole_disk_media_uuid,
            c.whole_disk_media_uuid,
        )
    }
}

pub fn physical_identity_is_consistent(
    existing: &Volume,
    device: &Option<PhysicalDevice>,
    candidate: &VolumeIdentityInput,
) -> (r: bool)
    ensures
        r == spec_physical_identity_is_consistent(*existing, *device, *candidate),
{
    if existing.physical_device_id.is_none() {
        return true;
    }
    match device {
        None => false,
        Some(d) => {
            if !d.identity_state.is_verified() {
                return true;
            }
            let (_, serial_conflict) = opt_eq(&d.hardware_serial, &candidate.hardware_serial);
            if serial_conflict {
                return false;
            }
            let (_, media_conflict) = opt_eq(&d.whole_disk_media_uuid, &candidate.whole_disk_media_uuid);
            !media_conflict
        },
    }
}

/// What to do about the marker file.
#[derive(Debug, Clone, Copy, PartialEq, Eq, Structural)]
pub enum MarkerAction {
    UseExisting,
    WriteNew,
    NoMarker,
}

/// An existing marker is always used; a new one is written only when the
/// policy allows it and the root is writable.
pub fn marker_action(existing: &Option<String>, policy: MarkerPolicy, writable: bool) -> (r: MarkerAction)
    ensures
        r == if existing is Some {
            MarkerAction::UseExisting
        } else if policy == MarkerPolicy::WriteIfPossible && writable {
            MarkerAction::WriteNew
        } else {
            MarkerAction::NoMarker
        },
{
    match existing {
        Some(_) => MarkerAction::UseExisting,
        None => match policy {
            MarkerPolicy::WriteIfPossible => if writable {
                MarkerAction::WriteNew
            } else {
                MarkerAction::NoMarker
            },
            MarkerPolicy::DoNotWrite => MarkerAction::NoMarker,
        },
    }
}

/// How a registration proceeds once the marker is known.
#[derive(Debug, Clone, Copy, PartialEq, Eq, Structural)]
pub enum RegistrationAction {
    /// The marker's volume at this very mount path is updated.
    UpdateExisting { index: usize },
    /// The single volume with consistent stable identity is relinked here.
    RelinkVerified { index: usize },
    /// The marker is shared but the identity is unproven: record a conflict
    /// against the first volume with the marker, and register nothing.
    PossibleClone { index: usize },
    /// No marker match: register under a fallback identity.
    Fallback,
}

/// Indices of the volumes whose stable and physical identity are consistent
/// with the candidate.
pub open spec fn consistent_indices(
    volumes: Seq<Volume>,
    devices: Seq<Option<PhysicalDevice>>,
    c: VolumeIdentityInput,
) -> Seq<int>
    decreases volumes.len(),
{
    if volumes.len() == 0 {
        Seq::empty()
    } else {
        let k = volumes.len() - 1;
        let rest = consistent_indices(volumes.drop_last(), devices.subrange(0, k), c);
        if spec_identity_is_consistent(volumes[k], c) && spec_physical_identity_is_consistent(volumes[k], devices[k], c) {
            rest.push(k)
        } else {
            rest
        }
    }
}

/// Index of the first volume mounted exactly at `root`.
pub open spec fn first_at_root(volumes: Seq<Volume>, root: Seq<u8>) -> Option<int> {
    if exists|i: int| 0 <= i < volumes.len() && path_eq(volumes[i].mount_path@, root) {
        Some(choose|i: int| 0 <= i < volumes.len() && path_eq(volumes[i].mount_path@, root) && forall|j: int|
            0 <= j < i ==> !path_eq(volumes[j].mount_path@, root))
    } else {
        None
    }
}

/// The registration decision for a root whose marker is `marker`, given the
/// volumes that carry that marker and their physical device records.
pub open spec fn spec_registration_action(
    marker: Option<String>,
    volumes: Seq<Volume>,
    devices: Seq<Option<PhysicalDevice>>,
    root: Seq<u8>,
    c: VolumeIdentityInput,
) -> RegistrationAction {
    if marker is None {
        RegistrationAction::Fallback
    } else if first_at_root(volumes, root) is Some {
        RegistrationAction::UpdateExisting { index: first_at_root(volumes, root)->0 as usize }
    } else if consistent_indices(volumes, devices, c).len() == 1 {
        RegistrationAction::RelinkVerified { index: consistent_indices(volumes, devices, c)[0] as usize }
    } else if volumes.len() > 0 {
        RegistrationAction::PossibleClone { index: 0 }
    } else {
        RegistrationAction::Fallback
    }
}

/// Decides how to register `root`. A marker alone never merges two disks:
/// without a mount path match or exactly one consistent stable identity the
/// candidate becomes a possible clone.
pub fn registration_action(
    marker: &Option<String>,
    volumes: &Vec<Volume>,
    devices: &Vec<Option<PhysicalDevice>>,
    root: &[u8],
    identity: &VolumeIdentityInput,
) -> (r: RegistrationAction)
    requires
        devices@.len() == volumes@.len(),
    ensures
        r == spec_registration_action(*marker, volumes@, devices@, root@, *identity),
{
    if marker.is_none() {
        return RegistrationAction::Fallback;
    }
    let mut i: usize = 0;
    while i < volumes.len()
        invariant
            i <= volumes@.len(),
            marker is Some,
            forall|j: int| 0 <= j < i ==> !path_eq(volumes@[j].mount_path@, root@),
        decreases volumes.len() - i,
    {
        if paths_equal(volumes[i].mount_path.as_slice(), root) {
            proof {
                let ii = i as int;
                assert(0 <= ii < volumes@.len() && path_eq(volumes@[ii].mount_path@, root@) && forall|j: int|
                    0 <= j < ii ==> !path_eq(volumes@[j].mount_path@, root@));
                let c = choose|c: int| 0 <= c < volumes@.len() && path_eq(volumes@[c].mount_path@, root@) && forall|j: int|
                    0 <= j < c ==> !path_eq(volumes@[j].mount_path@, root@);
                assert(first_at_root(volumes@, root@) == Some(c));
                if c < ii {
                    assert(!path_eq(volumes@[c].mount_path@, root@));
                } else if c > ii {
                    assert(!path_eq(volumes@[ii].mount_path@, root@));
                }
                assert(c == ii);
                assert(marker is Some);
                assert(first_at_root(volumes@, root@) is Some);
                assert((first_at_root(volumes@, root@)->0 as usize) == i);
            }
            return RegistrationAction::UpdateExisting { index: i };
        }
        i = i + 1;
    }
    let mut matching: Vec<usize> = Vec::new();
    let mut k: usize = 0;
    proof {
        assert(volumes@.subrange(0, 0) =~= Seq::<Volume>::empty());
    }
    while k < volumes.len()
        invariant
            k <= volumes@.len(),
            marker is Some,
            forall|j: int| 0 <= j < volumes@.len() ==> !path_eq(volumes@[j].mount_path@, root@),
            devices@.len() == volumes@.len(),
            matching@.map_values(|x: usize| x as int) == consistent_indices(
                volumes@.subrange(0, k as int),
                devices@.subrange(0, k as int),
                *identity,
            ),
        decreases volumes.len() - k,
    {
        proof {
            let va = volumes@.subrange(0, k + 1);
            let da = devices@.subrange(0, k + 1);
            assert(va.drop_last() =~= volumes@.subrange(0, k as int));
            assert(da.subrange(0, k as int) =~= devices@.subrange(0, k as int));
            assert(va[k as int] == volumes@[k as int]);
            assert(da[k as int] == devices@[k as int]);
        }
        let ghost before = matching@;
        if identity_is_consistent(&volumes[k], identity) && physical_identity_is_consistent(&volumes[k], &devices[k], identity) {
            matching.push(k);
            proof {
                assert(matching@.map_values(|x: usize| x as int) =~= before.map_values(|x: usize| x as int).push(k as int));
            }
        }
        k = k + 1;
    }
    proof {
        assert(volumes@.subrange(0, volumes@.len() as int) =~= volumes@);
        assert(devices@.subrange(0, devices@.len() as int) =~= devices@);
        assert(first_at_root(volumes@, root@) is None);
        assert(matching@.map_values(|x: usize| x as int).len() == matching@.len());
    }
    if matching.len() == 1 {
        proof {
            assert(matching@.map_values(|x: usize| x as int)[0] == matching@[0] as int);
        }
        return RegistrationAction::RelinkVerified { index: matching[0] };
    }
    if volumes.len() > 0 {
        return RegistrationAction::PossibleClone { index: 0 };
    }
    RegistrationAction::Fallback
}


/// The UTF-8 bytes of a known value followed by a zero byte; nothing when the
/// value is unknown.
pub open spec fn opt_field(o: Option<String>) -> Seq<u8> {
    match o {
        Some(s) => encode_utf8(s@).push(0u8),
        None => Seq::empty(),
    }
}

fn push_opt_field(buf: &mut Vec<u8>, o: &Option<String>)
    ensures
        final(buf)@ == old(buf)@ + opt_field(*o),
{
    if let Some(s) = o {
        append_bytes(buf, s.as_str().as_bytes());
        buf.push(0u8);
    } else {
        assert(old(buf)@ + opt_field(*o) =~= old(buf)@);
    }
}

/// Appends the UTF-8 bytes of `s`.
fn push_text(buf: &mut Vec<u8>, s: &str)
    ensures
        final(buf)@ == old(buf)@ + encode_utf8(s@),
{
    append_bytes(buf, s.as_bytes());
}

/// The bytes hashed into a fallback volume UID: every known stable
/// identifier, the filesystem and the size, and the root path only when no
/// stable identifier exists (so a remount elsewhere keeps its UID).
pub open spec fn fallback_uid_input(root: Seq<u8>, i: VolumeIdentityInput) -> Seq<u8> {
    opt_field(i.system_volume_uuid) + opt_field(i.partition_uuid) + opt_field(i.device_serial) + opt_field(
        i.media_uuid,
    ) + opt_field(i.whole_disk_media_uuid) + opt_field(i.hardware_serial) + encode_utf8(i.filesystem@).push(0u8)
        + le64(size_or_zero(i.total_size) as u64) + if spec_has_stable_identifier(i) {
        Seq::empty()
    } else {
        root
    }
}

pub open spec fn size_or_zero(s: Option<i64>) -> i64 {
    match s {
        Some(v) => v,
        None => 0,
    }
}

/// The fallback UID of a volume root.
pub fn fallback_volume_uid(root: &[u8], identity: &VolumeIdentityInput) -> (r: String)
    ensures
        r@ == "fallback:v1:"@ + blake3_hex(fallback_uid_input(root@, *identity)),
{
    let mut input: Vec<u8> = Vec::new();
    push_opt_field(&mut input, &identity.system_volume_uuid);
    push_opt_field(&mut input, &identity.partition_uuid);
    push_opt_field(&mut input, &identity.device_serial);
    push_opt_field(&mut input, &identity.media_uuid);
    push_opt_field(&mut input, &identity.whole_disk_media_uuid);
    push_opt_field(&mut input, &identity.hardware_serial);
    push_text(&mut input, identity.filesystem.as_str());
    input.push(0u8);
    let size: i64 = match identity.total_size {
        Some(v) => v,
        None => 0,
    };
    let le = crate::hashing::u64_le_bytes(size as u64);
    append_bytes(&mut input, le.as_slice());
    if !identity.has_stable_identifier() {
        append_bytes(&mut input, root);
    }
    proof {
        assert(input@ =~= fallback_uid_input(root@, *identity));
    }
    let hex = blake3_hash_hex(input.as_slice());
    let mut uid = "fallback:v1:".to_owned();
    uid.append(hex.as_str());
    uid
}

/// The stable identity of the physical disk behind a volume.
#[derive(Debug, Clone)]
pub struct PhysicalDeviceIdentity {
    pub stable_uid: String,
    pub state: PhysicalDeviceIdentityState,
    pub source: String,
}

/// Which evidence identifies the physical disk, strongest first: hardware
/// serial, whole-disk media UUID, whole-disk identifier (inferred), otherwise
/// an unknown record keyed by filesystem, size and root path that never
/// counts as an independent device.
pub open spec fn physical_identity_parts(root: Seq<u8>, i: VolumeIdentityInput) -> (Seq<char>, Seq<u8>, PhysicalDeviceIdentityState, Seq<char>) {
    if i.hardware_serial is Some {
        ("physical:v2:"@, encode_utf8("hardware-serial:"@) + encode_utf8(i.hardware_serial->0@), PhysicalDeviceIdentityState::Verified, "hardware_serial"@)
    } else if i.whole_disk_media_uuid is Some {
        ("physical:v2:"@, encode_utf8("whole-disk-media-uuid:"@) + encode_utf8(i.whole_disk_media_uuid->0@), PhysicalDeviceIdentityState::Verified, "whole_disk_media_uuid"@)
    } else if i.whole_disk_identifier is Some {
        ("physical:inferred:v2:"@, encode_utf8("whole-disk-identifier:"@) + encode_utf8(i.whole_disk_identifier->0@), PhysicalDeviceIdentityState::Inferred, "whole_disk_identifier"@)
    } else {
        ("physical:unknown:v2:"@, encode_utf8(i.filesystem@).push(0u8) + le64(size_or_zero(i.total_size) as u64).push(0u8) + root, PhysicalDeviceIdentityState::Unknown, "fallback"@)
    }
}

pub fn physical_device_identity(root: &[u8], identity: &VolumeIdentityInput) -> (r: PhysicalDeviceIdentity)
    ensures
        r.stable_uid@ == physical_identity_parts(root@, *identity).0 + blake3_hex(physical_identity_parts(root@, *identity).1),
        r.state == physical_identity_parts(root@, *identity).2,
        r.source@ == physical_identity_parts(root@, *identity).3,
{
    let mut input: Vec<u8> = Vec::new();
    if let Some(serial) = &identity.hardware_serial {
        push_text(&mut input, "hardware-serial:");
        push_text(&mut input, serial.as_str());
        let mut uid = "physical:v2:".to_owned();
        uid.append(blake3_hash_hex(input.as_slice()).as_str());
        return PhysicalDeviceIdentity {
            stable_uid: uid,
            state: PhysicalDeviceIdentityState::Verified,
            source: "hardware_serial".to_owned(),
        };
    }
    if let Some(media) = &identity.whole_disk_media_uuid {
        push_text(&mut input, "whole-disk-media-uuid:");
        push_text(&mut input, media.as_str());
        let mut uid = "physical:v2:".to_owned();
        uid.append(blake3_hash_hex(input.as_slice()).as_str());
        return PhysicalDeviceIdentity {
            stable_uid: uid,
            state: PhysicalDeviceIdentityState::Verified,
            source: "whole_disk_media_uuid".to_owned(),
        };
    }
    if let Some(ident) = &identity.whole_disk_identifier {
        push_text(&mut input, "whole-disk-identifier:");
        push_text(&mut input, ident.as_str());
        let mut uid = "physical:inferred:v2:".to_owned();
        uid.append(blake3_hash_hex(input.as_slice()).as_str());
        return PhysicalDeviceIdentity {
            stable_uid: uid,
            state: PhysicalDeviceIdentityState::Inferred,
            source: "whole_disk_identifier".to_owned(),
        };
    }
    push_text(&mut input, identity.filesystem.as_str());
    input.push(0u8);
    let size: i64 = match identity.total_size {
        Some(v) => v,
        None => 0,
    };
    let le = crate::hashing::u64_le_bytes(size as u64);
    append_bytes(&mut input, le.as_slice());
    input.push(0u8);
    append_bytes(&mut input, root);
    proof {
        assert(input@ =~= physical_identity_parts(root@, *identity).1);
    }
    let mut uid = "physical:unknown:v2:".to_owned();
    uid.append(blake3_hash_hex(input.as_slice()).as_str());
    PhysicalDeviceIdentity {
        stable_uid: uid,
        state: PhysicalDeviceIdentityState::Unknown,
        source: "fallback".to_owned(),
    }
}


/// The marker text is valid once trimmed and accepted as a UUID; otherwise
/// the error names the marker file.
pub fn parse_marker(contents: &str, marker_path: &[u8]) -> (r: Result<String, String>)
    ensures
        r is Ok <==> uuid_text_accepted(spec_trim(contents@)),
        r is Ok ==> (encode_utf8(spec_trim(contents@)).len() == 32 || encode_utf8(spec_trim(contents@)).len()
            == 36 || encode_utf8(spec_trim(contents@)).len() == 38 || encode_utf8(spec_trim(contents@)).len()
            == 45),
        r matches Ok(m) ==> m@ == spec_trim(contents@),
        r matches Err(e) ==> e@ == "卷标记文件 "@ + utf8_lossy(marker_path@) + " 不包含有效 UUID"@,
{
    let marker = trim_text(contents);
    if is_uuid_text(marker.as_str()) {
        Ok(marker)
    } else {
        let mut message = "卷标记文件 ".to_owned();
        message.append(display_path(marker_path).as_str());
        message.append(" 不包含有效 UUID");
        Err(message)
    }
}

/// A new marker UID, written once to a volume root.
pub fn new_marker_uid() -> (r: String)
    ensures
        is_v4_uuid_text(r@),
        uuid_text_accepted(r@),
{
    new_uuid_text()
}

/// Name of the throw-away file that probes whether a root is writable.
pub fn write_probe_name() -> (r: String)
    ensures
        r@.len() == 1 + MARKER_FILE@.len() + 13 + 36,
        r@.subrange(0, 1 + MARKER_FILE@.len() as int) == "."@ + MARKER_FILE@,
        r@.subrange(1 + MARKER_FILE@.len() as int, 14 + MARKER_FILE@.len() as int) == ".write-probe-"@,
        is_v4_uuid_text(r@.subrange(14 + MARKER_FILE@.len() as int, r@.len() as int)),
{
    let mut name = ".".to_owned();
    name.append(MARKER_FILE);
    name.append(".write-probe-");
    let id = new_uuid_text();
    name.append(id.as_str());
    proof {
        reveal_strlit(".");
        reveal_strlit(".write-probe-");
        assert(name@.subrange(0, 1 + MARKER_FILE@.len() as int) =~= "."@ + MARKER_FILE@);
        assert(name@.subrange(1 + MARKER_FILE@.len() as int, 14 + MARKER_FILE@.len() as int) =~= ".write-probe-"@);
        assert(name@.subrange(14 + MARKER_FILE@.len() as int, name@.len() as int) =~= id@);
    }
    name
}

/// The internal UID given to a conflicting candidate kept as a new volume.
pub fn clone_volume_uid() -> (r: String)
    ensures
        r@.subrange(0, 13) == "manual:clone:"@,
        r@.len() == 49,
        is_v4_uuid_text(r@.subrange(13, 49)),
{
    let mut uid = "manual:clone:".to_owned();
    let id = new_uuid_text();
    uid.append(id.as_str());
    proof {
        reveal_strlit("manual:clone:");
        assert(uid@.subrange(0, 13) =~= "manual:clone:"@);
        assert(uid@.subrange(13, 49) =~= id@);
    }
    uid
}

/// Both optional values are absent, or both present and equal.
pub open spec fn same_opt(a: Option<String>, b: Option<String>) -> bool {
    match (a, b) {
        (None, None) => true,
        (Some(x), Some(y)) => x@ == y@,
        _ => false,
    }
}

fn opt_same(a: &Option<String>, b: &Option<String>) -> (r: bool)
    ensures
        r == same_opt(*a, *b),
{
    match (a, b) {
        (None, None) => true,
        (Some(x), Some(y)) => str_eq(x.as_str(), y.as_str()),
        _ => false,
    }
}

/// Why an explicit relink is refused, if it is.
pub open spec fn spec_relink_refusal(
    existing: Volume,
    candidate_marker: Option<String>,
    identity: VolumeIdentityInput,
    device: Option<PhysicalDevice>,
) -> Option<Seq<char>> {
    if existing.marker_uid is Some && !same_opt(candidate_marker, existing.marker_uid) {
        Some("重连拒绝：目标路径的 marker 与历史卷不一致"@)
    } else if !spec_identity_is_consistent(existing, identity) || !spec_physical_identity_is_consistent(
        existing,
        device,
        identity,
    ) {
        Some("重连拒绝：目标路径没有可验证的一致稳定设备身份"@)
    } else {
        None
    }
}

/// An explicit relink must show the same marker (when the volume has one)
/// and a consistent stable identity; a path or a marker alone never suffices.
pub fn relink_check(
    existing: &Volume,
    candidate_marker: &Option<String>,
    identity: &VolumeIdentityInput,
    device: &Option<PhysicalDevice>,
) -> (r: Result<(), String>)
    ensures
        match spec_relink_refusal(*existing, *candidate_marker, *identity, *device) {
            None => r is Ok,
            Some(msg) => r matches Err(e) && e@ == msg,
        },
{
    if existing.marker_uid.is_some() && !opt_same(candidate_marker, &existing.marker_uid) {
        return Err("重连拒绝：目标路径的 marker 与历史卷不一致".to_owned());
    }
    if !identity_is_consistent(existing, identity) || !physical_identity_is_consistent(existing, device, identity) {
        return Err("重连拒绝：目标路径没有可验证的一致稳定设备身份".to_owned());
    }
    Ok(())
}

/// A conflict is resolved once only; a closed one is refused with its id.
pub fn check_conflict_open(conflict: &VolumeIdentityConflict) -> (r: Result<(), String>)
    ensures
        conflict.state == ConflictState::Open ==> r is Ok,
        conflict.state != ConflictState::Open ==> (r matches Err(e) && e@ == "卷身份冲突 "@ + dec_int(
            conflict.id as int,
        ) + " 已处理，不能重复解决"@),
{
    match conflict.state {
        ConflictState::Open => Ok(()),
        _ => {
            let mut message = "卷身份冲突 ".to_owned();
            message.append(i64_text(conflict.id).as_str());
            message.append(" 已处理，不能重复解决");
            Err(message)
        },
    }
}

/// What a registration records for each decision: whether the volume came
/// from the fallback identity, and the identity state it is given.
pub open spec fn spec_registration_outcome(
    action: RegistrationAction,
    default_state: VolumeIdentityState,
) -> (bool, VolumeIdentityState) {
    match action {
        RegistrationAction::UpdateExisting { .. } => (false, default_state),
        RegistrationAction::RelinkVerified { .. } => (false, VolumeIdentityState::Verified),
        RegistrationAction::PossibleClone { .. } => (false, VolumeIdentityState::PossibleClone),
        RegistrationAction::Fallback => (true, default_state),
    }
}

pub fn registration_outcome(action: RegistrationAction, default_state: VolumeIdentityState) -> (r: (
    bool,
    VolumeIdentityState,
))
    ensures
        r == spec_registration_outcome(action, default_state),
{
    match action {
        RegistrationAction::UpdateExisting { .. } => (false, default_state),
        RegistrationAction::RelinkVerified { .. } => (false, VolumeIdentityState::Verified),
        RegistrationAction::PossibleClone { .. } => (false, VolumeIdentityState::PossibleClone),
        RegistrationAction::Fallback => (true, default_state),
    }
}

/// The result of a registration once its volume row (if any) and its
/// conflict (if any) are known.
pub fn registration_result(
    action: RegistrationAction,
    default_state: VolumeIdentityState,
    volume: Option<Volume>,
    marker_uid: Option<String>,
    writable: bool,
    conflict: Option<VolumeIdentityConflict>,
) -> (r: VolumeRegistration)
    requires
        action is PossibleClone <==> volume is None,
        action is PossibleClone <==> conflict is Some,
    ensures
        r.volume == volume,
        r.marker_uid == marker_uid,
        r.writable == writable,
        (r.used_fallback_identity, r.identity_state) == spec_registration_outcome(action, default_state),
        r.conflict == conflict,
{
    let (used_fallback_identity, identity_state) = registration_outcome(action, default_state);
    VolumeRegistration { volume, marker_uid, writable, used_fallback_identity, identity_state, conflict }
}

proof fn lemma_none_consistent(volumes: Seq<Volume>, devices: Seq<Option<PhysicalDevice>>, c: VolumeIdentityInput)
    requires
        devices.len() == volumes.len(),
        forall|i: int| 0 <= i < volumes.len() ==> !spec_identity_is_consistent(#[trigger] volumes[i], c),
    ensures
        consistent_indices(volumes, devices, c).len() == 0,
    decreases volumes.len(),
{
    if volumes.len() > 0 {
        let k = volumes.len() - 1;
        assert forall|i: int| 0 <= i < volumes.drop_last().len() implies !spec_identity_is_consistent(
            #[trigger] volumes.drop_last()[i],
            c,
        ) by {
            assert(volumes.drop_last()[i] == volumes[i]);
        }
        lemma_none_consistent(volumes.drop_last(), devices.subrange(0, k), c);
        assert(!spec_identity_is_consistent(volumes[k], c));
    }
}

/// A shared marker alone never merges two disks: when no volume with the
/// marker sits at this root and none has a consistent stable identity, the
/// candidate is held as a possible clone (or, with no such volume at all,
/// registered under its own fallback identity).
pub proof fn marker_alone_never_merges(
    marker: Option<String>,
    volumes: Seq<Volume>,
    devices: Seq<Option<PhysicalDevice>>,
    root: Seq<u8>,
    c: VolumeIdentityInput,
)
    requires
        devices.len() == volumes.len(),
        forall|i: int| 0 <= i < volumes.len() ==> !path_eq(#[trigger] volumes[i].mount_path@, root),
        forall|i: int| 0 <= i < volumes.len() ==> !spec_identity_is_consistent(#[trigger] volumes[i], c),
    ensures
        ({
            let a = spec_registration_action(marker, volumes, devices, root, c);
            &&& !(a is UpdateExisting)
            &&& !(a is RelinkVerified)
            &&& (marker is Some && volumes.len() > 0 ==> a == RegistrationAction::PossibleClone { index: 0 })
        }),
{
    lemma_none_consistent(volumes, devices, c);
}

/// An explicit relink that is accepted always had the volume's marker (when
/// it has one) and a stable identity consistent with the volume and its
/// verified physical device.
pub proof fn relink_requires_consistent_identity(
    existing: Volume,
    candidate_marker: Option<String>,
    identity: VolumeIdentityInput,
    device: Option<PhysicalDevice>,
)
    requires
        spec_relink_refusal(existing, candidate_marker, identity, device) is None,
    ensures
        existing.marker_uid is Some ==> same_opt(candidate_marker, existing.marker_uid),
        spec_identity_is_consistent(existing, identity),
        spec_physical_identity_is_consistent(existing, device, identity),
{
}

/// Registering a root again finds the volume registered there before: when
/// the root still holds that volume's marker and the volume is the first of
/// the marker's volumes mounted at the root, the registration updates it,
/// whatever the identity evidence says, and the row it writes keeps that
/// volume's UID (see `registered_volume_upsert`).
pub proof fn registering_again_updates_the_same_volume(
    marker: String,
    volumes: Seq<Volume>,
    devices: Seq<Option<PhysicalDevice>>,
    root: Seq<u8>,
    c: VolumeIdentityInput,
    k: int,
)
    requires
        0 <= k < volumes.len(),
        path_eq(volumes[k].mount_path@, root),
        forall|j: int| 0 <= j < k ==> !path_eq(#[trigger] volumes[j].mount_path@, root),
    ensures
        spec_registration_action(Some(marker), volumes, devices, root, c) == (RegistrationAction::UpdateExisting {
            index: k as usize,
        }),
{
    let f = first_at_root(volumes, root);
    assert(0 <= k < volumes.len() && path_eq(volumes[k].mount_path@, root) && forall|j: int|
        0 <= j < k ==> !path_eq(volumes[j].mount_path@, root));
    let w = choose|i: int| 0 <= i < volumes.len() && path_eq(volumes[i].mount_path@, root) && forall|j: int|
        0 <= j < i ==> !path_eq(volumes[j].mount_path@, root);
    assert(f == Some(w));
    if w < k {
        assert(!path_eq(volumes[w].mount_path@, root));
    } else if w > k {
        assert(!path_eq(volumes[k].mount_path@, root));
    }
}

} // verus!
