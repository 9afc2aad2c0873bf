use disk_indexer::hashing::FullHasher;
use disk_indexer::ids::{is_uuid_text, new_uuid_text};
use disk_indexer::model::{CopyStatus, FileRecord, HashState, PhysicalDeviceIdentityState, VolumeRole};
use disk_indexer::paths::{paths_equal, safe_relative_path};
use disk_indexer::protocol::{new_task_uid, JsonlTask};
use disk_indexer::util::parse_time;

fn record(relative: &[u8]) -> FileRecord {
    FileRecord {
        id: 1,
        volume_id: 1,
        volume_uid: "uid".to_owned(),
        volume_name: "disk".to_owned(),
        volume_role: VolumeRole::Primary,
        volume_online: true,
        physical_device_id: None,
        physical_identity_state: PhysicalDeviceIdentityState::Unknown,
        relative_path: relative.to_vec(),
        file_size: 1,
        modified_at_ns: None,
        created_at_ns: None,
        inode: None,
        device_id: None,
        storage_object_key: None,
        link_group_id: None,
        content_id: None,
        sample_hash: None,
        full_hash: None,
        hash_state: HashState::NotHashed,
        status: CopyStatus::Present,
        last_error: None,
        first_seen_at: "t0".to_owned(),
        last_seen_at: "t0".to_owned(),
        last_verified_at: None,
    }
}

#[test]
fn joined_record_path_strips_back_to_its_relative_path() {
    for mount in [&b"/Volumes/Photos"[..], b"/Volumes/Photos/", b"/", b""] {
        let rec = record(b"2024/raw/IMG_0001.RAW");
        let absolute = rec.absolute_path(mount);
        let back = safe_relative_path(mount, &absolute).unwrap();
        assert_eq!(back, rec.relative_path);
    }
    let odd = record(b"a//./b");
    let absolute = odd.absolute_path(b"/v");
    let back = safe_relative_path(b"/v", &absolute).unwrap();
    assert_eq!(back, b"a/b".to_vec());
    assert!(paths_equal(&back, &odd.relative_path));
}

#[test]
fn relative_path_joins_back_onto_its_root() {
    let root = b"/Volumes/Photos/";
    let path = b"/Volumes/Photos/2024//a.raw";
    let rel = safe_relative_path(root, path).unwrap();
    assert_eq!(rel, b"2024/a.raw".to_vec());
    assert!(paths_equal(&record(&rel).absolute_path(root), path));
    assert!(safe_relative_path(root, b"/Volumes/Photos").is_err());
    assert!(safe_relative_path(root, b"/Volumes/Other/a").is_err());
}

#[test]
fn generated_ids_pass_the_uuid_check() {
    for _ in 0..8 {
        assert!(is_uuid_text(&new_uuid_text()));
        let task = JsonlTask::with_id(3, new_task_uid(), "scan");
        assert!(is_uuid_text(task.task_uid()));
        assert_eq!(task.task_uid(), task.task_uid());
    }
}

#[test]
fn uuid_check_accepts_every_parser_form() {
    assert!(is_uuid_text("550e8400-e29b-41d4-a716-446655440000"));
    assert!(is_uuid_text("550E8400E29B41D4A716446655440000"));
    assert!(is_uuid_text("{550e8400-e29b-41d4-a716-446655440000}"));
    assert!(is_uuid_text("URN:uuid:550e8400-e29b-41d4-a716-446655440000"));
    assert!(!is_uuid_text("not-a-uuid"));
    assert!(!is_uuid_text("550e8400-e29b-41d4-a716-44665544000g"));
    assert!(!is_uuid_text("550e8400_e29b-41d4-a716-446655440000"));
    assert!(!is_uuid_text("urx:uuid:550e8400-e29b-41d4-a716-446655440000"));
}

#[test]
fn every_chunking_gives_the_one_shot_digest() {
    let data: Vec<u8> = (0..5000u32).map(|i| (i % 251) as u8).collect();
    let expected = blake3::hash(&data).to_hex().to_string();
    for size in [1usize, 7, 64, 1024, 4096, 5000] {
        let mut hasher = FullHasher::new();
        for chunk in data.chunks(size) {
            hasher.update(chunk);
        }
        let result = hasher.finish();
        assert_eq!(result.hex, expected);
        assert_eq!(result.bytes_read, 5000);
    }
}

#[test]
fn rfc3339_times_parse_to_instants() {
    assert_eq!(parse_time("2024-01-02T03:04:05Z"), Some((1704164645, 0)));
    assert_eq!(parse_time("2024-01-02T11:04:05.5+08:00"), Some((1704164645, 500_000_000)));
    assert_eq!(parse_time("2024-01-02 03:04:05"), None);
    assert_eq!(parse_time(""), None);
}
