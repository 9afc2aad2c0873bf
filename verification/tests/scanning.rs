use disk_indexer::model::{CopyStatus, FileMetadata, FileRecord, HashState, PhysicalDeviceIdentityState, RunStatus, VolumeRole};
use disk_indexer::scanner::{
    check_readers, hash_state_after_attach, needs_full_after_sample, needs_full_hash, needs_sample,
    persistence_batch_size, problem_status, scan_mode, should_descend,
    volume_selected, HashFailure, HashKind, HashStats, ScanMode, ScanOptions, ScanTally,
};
use disk_indexer::store::{
    apply_observation, observe, storage_object_key, MetadataOutcome, Observation,
};

fn record() -> FileRecord {
    FileRecord {
        id: 7,
        volume_id: 1,
        volume_uid: "uid".to_owned(),
        volume_name: "disk".to_owned(),
        volume_role: VolumeRole::Primary,
        volume_online: true,
        physical_device_id: Some(3),
        physical_identity_state: PhysicalDeviceIdentityState::Verified,
        relative_path: b"a/b.txt".to_vec(),
        file_size: 10,
        modified_at_ns: Some(100),
        created_at_ns: Some(50),
        inode: Some(9),
        device_id: Some(2),
        storage_object_key: None,
        link_group_id: None,
        content_id: Some(4),
        sample_hash: Some("s".to_owned()),
        full_hash: Some("f".to_owned()),
        hash_state: HashState::Full,
        status: CopyStatus::Missing,
        last_error: Some("old".to_owned()),
        first_seen_at: "t0".to_owned(),
        last_seen_at: "t1".to_owned(),
        last_verified_at: None,
    }
}

fn metadata(size: u64) -> FileMetadata {
    FileMetadata {
        relative_path: b"a/b.txt".to_vec(),
        filename: b"b.txt".to_vec(),
        file_size: size,
        modified_at_ns: Some(100),
        created_at_ns: Some(50),
        inode: Some(9),
        device_id: Some(2),
    }
}

#[test]
fn walk_skips_system_dirs_marker_database_and_excludes() {
    let excludes = vec!["*.tmp".to_owned()];
    let root = b"/vol";
    let db = b"/vol/index.db";
    assert!(should_descend(root, b"/vol", &excludes, db));
    assert!(should_descend(root, b"/vol/photos/a.raw", &excludes, db));
    assert!(!should_descend(root, b"/vol/index.db", &excludes, db));
    assert!(!should_descend(root, b"/vol/.Trashes/x", &excludes, db));
    assert!(!should_descend(root, b"/vol/.Spotlight-V100", &excludes, db));
    assert!(!should_descend(root, b"/vol/.fseventsd/a", &excludes, db));
    assert!(!should_descend(root, b"/vol/.disk-indexer-quarantine/a", &excludes, db));
    assert!(!should_descend(root, b"/vol/.disk-indexer-volume-id", &excludes, db));
    assert!(!should_descend(root, b"/vol/cache/file.tmp", &excludes, db));
    assert!(!should_descend(root, b"/other/file", &excludes, db));
    assert!(should_descend(root, b"/vol/sub/.Trashes", &excludes, db));
}

#[test]
fn mode_and_batch_size_follow_options() {
    let mut options = ScanOptions::default();
    assert_eq!(scan_mode(&options), ScanMode::Incremental);
    assert_eq!(scan_mode(&options).as_str(), "incremental");
    options.resume = true;
    assert_eq!(scan_mode(&options).as_str(), "resume");
    options.metadata_only = true;
    assert_eq!(scan_mode(&options).as_str(), "metadata_only");
    options.full_hash = true;
    assert_eq!(scan_mode(&options).as_str(), "full_hash");
    assert_eq!(persistence_batch_size(500, true), 100);
    assert_eq!(persistence_batch_size(500, false), 500);
    assert_eq!(persistence_batch_size(0, false), 1);
    assert_eq!(persistence_batch_size(0, true), 1);
    assert_eq!(persistence_batch_size(42, true), 42);
}

#[test]
fn zero_readers_is_refused() {
    let mut options = ScanOptions::default();
    assert!(check_readers(&options).is_ok());
    options.max_readers = 0;
    assert_eq!(check_readers(&options), Err("--max-readers 必须大于零".to_owned()));
}

#[test]
fn clean_walk_completes_and_may_mark_missing() {
    let mut tally = ScanTally::new(5);
    tally.record_outcomes(&vec![MetadataOutcome::New, MetadataOutcome::Reused, MetadataOutcome::Changed, MetadataOutcome::Reused]);
    assert_eq!(tally.summary.discovered_count, 4);
    assert_eq!(tally.summary.metadata_reused_count, 2);
    tally.finish_walk();
    assert_eq!(tally.summary.status, RunStatus::Completed);
    assert!(tally.may_mark_missing());
    assert!(tally.should_hash(false));
    assert!(!tally.should_hash(true));
}

#[test]
fn errors_or_interruption_never_mark_missing() {
    let mut tally = ScanTally::new(1);
    tally.record_errors(2);
    tally.record_dropped_batch(3);
    assert_eq!(tally.summary.error_count, 5);
    tally.finish_walk();
    assert_eq!(tally.summary.status, RunStatus::CompletedWithErrors);
    assert!(!tally.may_mark_missing());

    let mut interrupted = ScanTally::new(2);
    interrupted.interrupt();
    interrupted.finish_walk();
    assert_eq!(interrupted.summary.status, RunStatus::Interrupted);
    assert!(!interrupted.may_mark_missing());
}

#[test]
fn hash_pass_folds_into_run() {
    let mut tally = ScanTally::new(1);
    tally.finish_walk();
    let mut stats = HashStats::new();
    stats.on_hashed(HashKind::Sample, 30);
    stats.on_hashed(HashKind::Full, 100);
    let failure = stats.on_changed_while_reading(HashKind::Full);
    assert_eq!(
        failure,
        HashFailure::Problem { message: "完整哈希期间文件发生变化；完整哈希未被信任".to_owned(), changed: true }
    );
    tally.apply_hash_stats(&stats);
    assert_eq!(tally.summary.sampled_count, 1);
    assert_eq!(tally.summary.full_hashed_count, 1);
    assert_eq!(tally.summary.bytes_read, 130);
    assert_eq!(tally.summary.error_count, 1);
    assert_eq!(tally.summary.status, RunStatus::CompletedWithErrors);

    let mut cancelled = HashStats::new();
    cancelled.interrupt();
    let mut run = ScanTally::new(2);
    run.finish_walk();
    run.apply_hash_stats(&cancelled);
    assert_eq!(run.summary.status, RunStatus::Interrupted);
}

#[test]
fn counters_saturate() {
    let mut stats = HashStats::new();
    stats.on_hashed(HashKind::Full, u64::MAX);
    stats.on_hashed(HashKind::Full, 5);
    assert_eq!(stats.bytes_read, u64::MAX);
    let mut tally = ScanTally::new(1);
    tally.record_errors(u64::MAX);
    tally.record_errors(1);
    assert_eq!(tally.summary.error_count, u64::MAX);
}

#[test]
fn access_failures_on_offline_volumes_are_not_counted() {
    let mut stats = HashStats::new();
    assert_eq!(stats.on_access_failure(false, "gone".to_owned()), HashFailure::VolumeOffline);
    assert_eq!(stats.errors, 0);
    assert_eq!(
        stats.on_access_failure(true, "denied".to_owned()),
        HashFailure::Problem { message: "denied".to_owned(), changed: false }
    );
    assert_eq!(stats.errors, 1);
    assert_eq!(
        stats.on_index_mismatch(),
        HashFailure::Problem { message: "读取前元数据与索引不一致；等待重新扫描".to_owned(), changed: true }
    );
    assert_eq!(stats.errors, 2);
    assert_eq!(problem_status(true), (CopyStatus::Changed, HashState::Failed));
    assert_eq!(problem_status(false), (CopyStatus::Unreadable, HashState::Failed));
}

#[test]
fn hashing_choices() {
    let mut r = record();
    assert!(!needs_sample(&r));
    assert!(!needs_full_hash(&r));
    r.full_hash = None;
    assert!(needs_full_after_sample(&r, true));
    assert!(!needs_full_after_sample(&r, false));
    r.sample_hash = None;
    assert!(needs_sample(&r));
    assert!(volume_selected(None, 3));
    assert!(volume_selected(Some(3), 3));
    assert!(!volume_selected(Some(4), 3));
    assert_eq!(hash_state_after_attach(HashState::NotHashed, &Some("s".to_owned()), &None), HashState::Sampled);
    assert_eq!(hash_state_after_attach(HashState::Sampled, &Some("s".to_owned()), &Some("f".to_owned())), HashState::Full);
    assert_eq!(hash_state_after_attach(HashState::Stale, &None, &None), HashState::Stale);
}

#[test]
fn observation_reuses_only_matching_metadata() {
    let r = record();
    assert_eq!(observe(&None, &metadata(10)), Observation::Discovered);
    assert_eq!(observe(&Some(r.clone()), &metadata(10)), Observation::Reused { restored: true });
    assert_eq!(observe(&Some(r.clone()), &metadata(11)), Observation::ContentChanged);
    assert_eq!(Observation::Discovered.outcome(), MetadataOutcome::New);
    assert_eq!(Observation::ContentChanged.event_name(), Some("content_changed"));
    assert_eq!(Observation::Reused { restored: false }.event_name(), None);
    assert_eq!(Observation::Reused { restored: true }.event_name(), Some("restored"));
}

#[test]
fn changed_file_loses_its_hashes() {
    let mut r = record();
    let key = storage_object_key(Some(3), &metadata(11));
    assert_eq!(key, Some("v1:3:2:9".to_owned()));
    apply_observation(&mut r, &metadata(11), &key, &"t2".to_owned());
    assert_eq!(r.file_size, 11);
    assert_eq!(r.full_hash, None);
    assert_eq!(r.sample_hash, None);
    assert_eq!(r.content_id, None);
    assert_eq!(r.hash_state, HashState::NotHashed);
    assert_eq!(r.status, CopyStatus::Present);
    assert_eq!(r.last_error, None);
    assert_eq!(r.last_seen_at, "t2");
    assert_eq!(r.link_group_id, Some("v1:3:2:9".to_owned()));

    let mut same = record();
    apply_observation(&mut same, &metadata(10), &None, &"t3".to_owned());
    assert_eq!(same.full_hash, Some("f".to_owned()));
    assert_eq!(same.status, CopyStatus::Present);
    assert_eq!(same.storage_object_key, None);
}

#[test]
fn storage_key_needs_device_and_inode() {
    assert_eq!(storage_object_key(None, &metadata(1)), None);
    let mut m = metadata(1);
    m.inode = None;
    assert_eq!(storage_object_key(Some(1), &m), None);
    let mut n = metadata(1);
    n.device_id = Some(-5);
    assert_eq!(storage_object_key(Some(12), &n), Some("v1:12:-5:9".to_owned()));
    let mut extreme = metadata(1);
    extreme.device_id = Some(i64::MIN);
    extreme.inode = Some(i64::MAX);
    assert_eq!(
        storage_object_key(Some(0), &extreme),
        Some("v1:0:-9223372036854775808:9223372036854775807".to_owned())
    );
}

#[test]
fn rescanning_an_unchanged_file_reuses_it() {
    let mut r = record();
    apply_observation(&mut r, &metadata(11), &None, &"t2".to_owned());
    assert_eq!(observe(&Some(r.clone()), &metadata(11)), Observation::Reused { restored: false });
    let mut missing = record();
    apply_observation(&mut missing, &metadata(10), &None, &"t3".to_owned());
    assert_eq!(observe(&Some(missing), &metadata(10)), Observation::Reused { restored: false });
}
