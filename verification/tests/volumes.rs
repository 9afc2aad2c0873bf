use disk_indexer::model::{
    ConflictState, CopyStatus, FileRecord, HashState, PhysicalDevice, PhysicalDeviceIdentityState, Volume, VolumeIdentityConflict,
    VolumeIdentityState, VolumeRole,
};
use disk_indexer::volume::{
    check_conflict_open, clone_volume_uid, default_identity_state, fallback_volume_uid, identity_is_consistent,
    marker_action, new_marker_uid, parse_marker, physical_device_identity, physical_identity_is_consistent,
    registration_action, registration_outcome, relink_check, write_probe_name, MarkerAction, MarkerPolicy,
    RegistrationAction, VolumeIdentityInput, MARKER_FILE,
};
use disk_indexer::store::{
    best_volume_for_path, conflict_input, record_display_path, legacy_device_upsert, legacy_identity_state, registered_volume_upsert,
    updated_volume, volume_from_conflict, volume_name_for_root, LegacyVolume,
};

fn identity(sys: &str, part: &str, media: &str) -> VolumeIdentityInput {
    VolumeIdentityInput {
        filesystem: "apfs".to_owned(),
        system_volume_uuid: Some(sys.to_owned()),
        partition_uuid: Some(part.to_owned()),
        media_uuid: Some(media.to_owned()),
        device_serial: None,
        whole_disk_identifier: None,
        whole_disk_media_uuid: None,
        hardware_serial: None,
        model: Some("Test Disk".to_owned()),
        transport: Some("USB".to_owned()),
        total_size: Some(1000),
    }
}

fn bare_identity() -> VolumeIdentityInput {
    VolumeIdentityInput {
        filesystem: "unix-device:42".to_owned(),
        system_volume_uuid: None,
        partition_uuid: None,
        media_uuid: None,
        device_serial: None,
        whole_disk_identifier: None,
        whole_disk_media_uuid: None,
        hardware_serial: None,
        model: None,
        transport: None,
        total_size: None,
    }
}

fn volume(id: i64, path: &str, sys: Option<&str>, device: Option<&str>, pd: Option<i64>) -> Volume {
    Volume {
        id,
        volume_uid: format!("uid-{id}"),
        marker_uid: Some("11111111-2222-4333-8444-555555555555".to_owned()),
        volume_name: "disk".to_owned(),
        filesystem: Some("apfs".to_owned()),
        mount_path: path.as_bytes().to_vec(),
        system_volume_uuid: sys.map(str::to_owned),
        device_serial: device.map(str::to_owned),
        partition_uuid: None,
        total_size: Some(1000),
        physical_device_id: pd,
        identity_state: VolumeIdentityState::Verified,
        role: VolumeRole::Primary,
        is_online: false,
        first_seen_at: "t0".to_owned(),
        last_seen_at: "t0".to_owned(),
    }
}

fn device(serial: Option<&str>, state: PhysicalDeviceIdentityState) -> PhysicalDevice {
    PhysicalDevice {
        id: 1,
        stable_uid: "physical:v2:x".to_owned(),
        whole_disk_identifier: None,
        whole_disk_media_uuid: None,
        hardware_serial: serial.map(str::to_owned),
        identity_state: state,
        identity_source: "hardware_serial".to_owned(),
        media_uuid: None,
        device_serial: None,
        model: None,
        transport: None,
        total_size: None,
        first_seen_at: "t0".to_owned(),
        last_seen_at: "t0".to_owned(),
    }
}

#[test]
fn stable_identity_must_agree_and_not_contradict() {
    let existing = volume(1, "/Volumes/A", Some("volume-a"), Some("media-a"), None);
    assert!(identity_is_consistent(&existing, &identity("volume-a", "partition-a", "media-a")));
    assert!(!identity_is_consistent(&existing, &identity("volume-b", "partition-b", "media-b")));
    assert!(!identity_is_consistent(&existing, &identity("volume-a", "partition-a", "media-b")));
    let nothing = volume(2, "/Volumes/B", None, None, None);
    assert!(!identity_is_consistent(&nothing, &bare_identity()));
}

#[test]
fn verified_device_contradiction_blocks_relink() {
    let existing = volume(1, "/Volumes/A", Some("volume-a"), None, Some(1));
    let mut candidate = identity("volume-a", "p", "m");
    candidate.hardware_serial = Some("serial-b".to_owned());
    let verified = Some(device(Some("serial-a"), PhysicalDeviceIdentityState::Verified));
    assert!(!physical_identity_is_consistent(&existing, &verified, &candidate));
    let inferred = Some(device(Some("serial-a"), PhysicalDeviceIdentityState::Inferred));
    assert!(physical_identity_is_consistent(&existing, &inferred, &candidate));
    assert!(!physical_identity_is_consistent(&existing, &None, &candidate));
    let unlinked = volume(1, "/Volumes/A", Some("volume-a"), None, None);
    assert!(physical_identity_is_consistent(&unlinked, &None, &candidate));
}

#[test]
fn cloned_marker_is_never_merged() {
    let marker = Some("11111111-2222-4333-8444-555555555555".to_owned());
    let volumes = vec![volume(1, "/Volumes/Original", Some("volume-a"), Some("media-a"), None)];
    let devices = vec![None];
    let clone = identity("volume-b", "partition-b", "media-b");
    let action = registration_action(&marker, &volumes, &devices, b"/Volumes/Clone", &clone);
    assert_eq!(action, RegistrationAction::PossibleClone { index: 0 });
    assert_eq!(registration_outcome(action, VolumeIdentityState::Verified), (false, VolumeIdentityState::PossibleClone));
}

#[test]
fn same_stable_identity_relinks_an_offline_volume() {
    let marker = Some("11111111-2222-4333-8444-555555555555".to_owned());
    let volumes = vec![volume(1, "/Volumes/First", Some("stable-volume"), Some("stable-media"), None)];
    let devices = vec![None];
    let same = identity("stable-volume", "stable-partition", "stable-media");
    let action = registration_action(&marker, &volumes, &devices, b"/Volumes/Second", &same);
    assert_eq!(action, RegistrationAction::RelinkVerified { index: 0 });
    assert_eq!(registration_outcome(action, VolumeIdentityState::Fallback), (false, VolumeIdentityState::Verified));
    let here = registration_action(&marker, &volumes, &devices, b"/Volumes/First/", &same);
    assert_eq!(here, RegistrationAction::UpdateExisting { index: 0 });
    assert_eq!(registration_action(&None, &volumes, &devices, b"/x", &same), RegistrationAction::Fallback);
    assert_eq!(registration_outcome(RegistrationAction::Fallback, VolumeIdentityState::Fallback), (true, VolumeIdentityState::Fallback));
}

#[test]
fn marker_policy_decides_writes() {
    assert_eq!(marker_action(&Some("m".to_owned()), MarkerPolicy::DoNotWrite, false), MarkerAction::UseExisting);
    assert_eq!(marker_action(&None, MarkerPolicy::WriteIfPossible, true), MarkerAction::WriteNew);
    assert_eq!(marker_action(&None, MarkerPolicy::WriteIfPossible, false), MarkerAction::NoMarker);
    assert_eq!(marker_action(&None, MarkerPolicy::DoNotWrite, true), MarkerAction::NoMarker);
}

#[test]
fn marker_rejects_invalid_uuid() {
    let err = parse_marker("not-a-uuid\n", b"/v/.disk-indexer-volume-id").unwrap_err();
    assert_eq!(err, "卷标记文件 /v/.disk-indexer-volume-id 不包含有效 UUID");
    let ok = parse_marker("  550e8400-e29b-41d4-a716-446655440000\n", b"/v/m").unwrap();
    assert_eq!(ok, "550e8400-e29b-41d4-a716-446655440000");
}

#[test]
fn generated_identifiers_have_uuid_shape() {
    let m = new_marker_uid();
    assert_eq!(m.len(), 36);
    assert!(uuid::Uuid::parse_str(&m).is_ok());
    assert!(parse_marker(&format!("{m}\n"), b"/m").is_ok());
    let clone = clone_volume_uid();
    assert!(clone.starts_with("manual:clone:"));
    assert_eq!(clone.len(), 49);
    let probe = write_probe_name();
    assert!(probe.starts_with(&format!(".{MARKER_FILE}.write-probe-")));
    assert_ne!(new_marker_uid(), new_marker_uid());
}

#[test]
fn fallback_uid_ignores_path_only_with_stable_identity() {
    let stable = identity("v", "p", "m");
    assert_eq!(fallback_volume_uid(b"/a", &stable), fallback_volume_uid(b"/b", &stable));
    let bare = bare_identity();
    assert_ne!(fallback_volume_uid(b"/a", &bare), fallback_volume_uid(b"/b", &bare));
    let mut expected = Vec::new();
    expected.extend_from_slice(b"unix-device:42\0");
    expected.extend_from_slice(&0i64.to_le_bytes());
    expected.extend_from_slice(b"/a");
    assert_eq!(fallback_volume_uid(b"/a", &bare), format!("fallback:v1:{}", blake3::hash(&expected).to_hex()));
    assert_eq!(default_identity_state(&bare), VolumeIdentityState::Fallback);
    assert_eq!(default_identity_state(&stable), VolumeIdentityState::Verified);
}

#[test]
fn physical_identity_prefers_whole_disk_evidence() {
    let mut i = identity("v", "p", "m");
    let unknown = physical_device_identity(b"/a", &i);
    assert_eq!(unknown.state, PhysicalDeviceIdentityState::Unknown);
    assert_eq!(unknown.source, "fallback");
    assert!(unknown.stable_uid.starts_with("physical:unknown:v2:"));
    i.whole_disk_identifier = Some("disk4".to_owned());
    let inferred = physical_device_identity(b"/a", &i);
    assert_eq!(inferred.state, PhysicalDeviceIdentityState::Inferred);
    assert_eq!(inferred.stable_uid, format!("physical:inferred:v2:{}", blake3::hash(b"whole-disk-identifier:disk4").to_hex()));
    i.whole_disk_media_uuid = Some("wm".to_owned());
    assert_eq!(physical_device_identity(b"/a", &i).source, "whole_disk_media_uuid");
    i.hardware_serial = Some("S1".to_owned());
    let verified = physical_device_identity(b"/a", &i);
    assert_eq!(verified.state, PhysicalDeviceIdentityState::Verified);
    assert_eq!(verified.stable_uid, format!("physical:v2:{}", blake3::hash(b"hardware-serial:S1").to_hex()));
}

#[test]
fn relink_needs_marker_and_identity() {
    let existing = volume(3, "/Volumes/Old", Some("stable"), None, None);
    let same = identity("stable", "p", "m");
    let marker = existing.marker_uid.clone();
    assert_eq!(relink_check(&existing, &marker, &same, &None), Ok(()));
    assert_eq!(
        relink_check(&existing, &None, &same, &None),
        Err("重连拒绝：目标路径的 marker 与历史卷不一致".to_owned())
    );
    assert_eq!(
        relink_check(&existing, &marker, &identity("other", "p", "m"), &None),
        Err("重连拒绝：目标路径没有可验证的一致稳定设备身份".to_owned())
    );
}

#[test]
fn resolved_conflicts_cannot_be_resolved_again() {
    let mut conflict = VolumeIdentityConflict {
        id: 12,
        existing_volume_id: 1,
        existing_volume_uid: "uid-1".to_owned(),
        candidate_marker_uid: Some("m".to_owned()),
        candidate_mount_path: b"/Volumes/Clone".to_vec(),
        candidate_filesystem: Some("apfs".to_owned()),
        candidate_system_volume_uuid: Some("volume-b".to_owned()),
        candidate_partition_uuid: None,
        candidate_media_uuid: None,
        candidate_device_serial: None,
        candidate_total_size: Some(1000),
        candidate_physical_device_id: Some(2),
        state: ConflictState::Open,
        resolution: None,
        resolved_volume_id: None,
        detected_at: "t".to_owned(),
        resolved_at: None,
    };
    assert_eq!(check_conflict_open(&conflict), Ok(()));
    let row = volume_from_conflict(&conflict, "manual:clone:x".to_owned(), VolumeRole::LocalBackup);
    assert_eq!(row.identity_state, VolumeIdentityState::PossibleClone);
    assert_eq!(row.root, b"/Volumes/Clone".to_vec());
    assert_eq!(row.physical_device_id, Some(2));
    conflict.state = ConflictState::Resolved;
    assert_eq!(check_conflict_open(&conflict), Err("卷身份冲突 12 已处理，不能重复解决".to_owned()));
}

#[test]
fn registration_rows_keep_identity_and_device_fallback() {
    let existing = volume(1, "/Volumes/A", Some("volume-a"), None, Some(9));
    let mut i = identity("volume-a", "p", "media-a");
    let row = registered_volume_upsert(&existing, b"/Volumes/B", &i, 4, VolumeRole::Primary, VolumeIdentityState::Verified);
    assert_eq!(row.volume_uid, "uid-1");
    assert_eq!(row.device_serial, Some("media-a".to_owned()));
    assert_eq!(row.physical_device_id, Some(4));
    i.device_serial = Some("serial".to_owned());
    let row2 = registered_volume_upsert(&existing, b"/Volumes/B", &i, 4, VolumeRole::Primary, VolumeIdentityState::Verified);
    assert_eq!(row2.device_serial, Some("serial".to_owned()));
    let updated = updated_volume(&existing, &row2, &"t9".to_owned());
    assert_eq!(updated.mount_path, b"/Volumes/B".to_vec());
    assert_eq!(updated.volume_name, "B");
    assert!(updated.is_online);
    assert_eq!(updated.first_seen_at, "t0");
    assert_eq!(updated.last_seen_at, "t9");
    let conflict = conflict_input(1, &"m".to_owned(), b"/Volumes/C", &i, 4);
    assert_eq!(conflict.candidate_marker_uid, Some("m".to_owned()));
    assert_eq!(conflict.candidate_root, b"/Volumes/C".to_vec());
}

#[test]
fn volume_names_and_path_owners() {
    assert_eq!(volume_name_for_root(b"/Volumes/Photos"), "Photos");
    assert_eq!(volume_name_for_root(b"/"), "/");
    let volumes = vec![
        volume(1, "/Volumes", None, None, None),
        volume(2, "/Volumes/Photos", None, None, None),
        volume(3, "/Volumes/Photos/", None, None, None),
    ];
    assert_eq!(best_volume_for_path(&volumes, b"/Volumes/Photos/a.raw"), Some(1));
    assert_eq!(best_volume_for_path(&volumes, b"/Volumes/Other/a.raw"), Some(0));
    assert_eq!(best_volume_for_path(&volumes, b"/home/a"), None);
}

#[test]
fn legacy_volumes_get_grouped_devices() {
    let with_ids = LegacyVolume {
        volume_id: 1,
        system_volume_uuid: Some("sys".to_owned()),
        partition_uuid: None,
        media_uuid: Some("media".to_owned()),
        filesystem: None,
        total_size: Some(5),
        mount_path: b"/legacy".to_vec(),
    };
    let up = legacy_device_upsert(&with_ids);
    assert_eq!(up.stable_uid, format!("physical:legacy:v1:{}", blake3::hash(b"sys\0media\0").to_hex()));
    assert_eq!(up.identity_state, PhysicalDeviceIdentityState::Unknown);
    assert_eq!(legacy_identity_state(&with_ids), VolumeIdentityState::Verified);
    let bare = LegacyVolume {
        volume_id: 2,
        system_volume_uuid: None,
        partition_uuid: None,
        media_uuid: None,
        filesystem: None,
        total_size: None,
        mount_path: b"/legacy".to_vec(),
    };
    let mut expected = b"unknown\0".to_vec();
    expected.extend_from_slice(&0i64.to_le_bytes());
    expected.extend_from_slice(b"/legacy");
    assert_eq!(legacy_device_upsert(&bare).stable_uid, format!("physical:legacy:v1:{}", blake3::hash(&expected).to_hex()));
    assert_eq!(legacy_identity_state(&bare), VolumeIdentityState::Fallback);
}

#[test]
fn record_paths_display_lossily() {
    let record = FileRecord {
        id: 1,
        volume_id: 1,
        volume_uid: "u".to_owned(),
        volume_name: "v".to_owned(),
        volume_role: VolumeRole::Unknown,
        volume_online: true,
        physical_device_id: None,
        physical_identity_state: PhysicalDeviceIdentityState::Unknown,
        relative_path: vec![b'a', b'/', 0xff, b'b'],
        file_size: 0,
        modified_at_ns: None,
        created_at_ns: None,
        inode: None,
        device_id: None,
        storage_object_key: None,
        link_group_id: None,
        content_id: None,
        sample_hash: None,
        full_hash: None,
        hash_state: HashState::NotHashed,
        status: CopyStatus::Present,
        last_error: None,
        first_seen_at: "t".to_owned(),
        last_seen_at: "t".to_owned(),
        last_verified_at: None,
    };
    assert_eq!(record_display_path(&record), "a/\u{fffd}b");
}
