use disk_indexer::duplicate::{
    build_duplicate_group, copy_view, duplicate_groups, include_record, next_page_cursor, page_limit, reclaimable_bytes,
    ContentRecords,
    DuplicateFilter,
};
use disk_indexer::lookup::{assemble_lookup, lookup_step, LookupStep};
use disk_indexer::model::{
    CacheState, CheckState, CopyStatus, FileRecord, HashState, PhysicalDeviceIdentityState, PlanItemStatus,
    VerificationMode, VolumeRole,
};
use disk_indexer::report::{
    apply_verification, build_cleanup_plan, check_plan_limits, failure_is_stale, finish_verified_plan,
    storage_representatives, verification_mode_for, CleanupVerificationOptions, CopyCheck,
};

fn record(id: i64, volume_id: i64, device: Option<i64>, key: Option<&str>, status: CopyStatus, online: bool) -> FileRecord {
    FileRecord {
        id,
        volume_id,
        volume_uid: format!("vol-{volume_id}"),
        volume_name: format!("Volume{volume_id}"),
        volume_role: if volume_id == 1 { VolumeRole::Primary } else { VolumeRole::LocalBackup },
        volume_online: online,
        physical_device_id: device,
        physical_identity_state: if device.is_some() {
            PhysicalDeviceIdentityState::Verified
        } else {
            PhysicalDeviceIdentityState::Unknown
        },
        relative_path: format!("photos/{id}.raw").into_bytes(),
        file_size: 10,
        modified_at_ns: Some(1),
        created_at_ns: None,
        inode: Some(id),
        device_id: Some(1),
        storage_object_key: key.map(str::to_owned),
        link_group_id: key.map(str::to_owned),
        content_id: Some(1),
        sample_hash: Some("s".to_owned()),
        full_hash: Some("h".to_owned()),
        hash_state: HashState::Full,
        status,
        last_error: None,
        first_seen_at: format!("t{id}"),
        last_seen_at: format!("t{id}"),
        last_verified_at: None,
    }
}

fn contents() -> Vec<ContentRecords> {
    vec![ContentRecords {
        content_id: 1,
        full_hash: "h".to_owned(),
        file_size: 10,
        records: vec![
            record(1, 1, Some(100), Some("v1:100:1:1"), CopyStatus::Present, true),
            record(2, 2, Some(200), Some("v1:200:1:2"), CopyStatus::Present, true),
            record(3, 3, None, None, CopyStatus::Present, false),
            record(4, 2, Some(200), Some("v1:200:1:4"), CopyStatus::Missing, true),
        ],
    }]
}

#[test]
fn groups_count_objects_volumes_and_verified_devices() {
    let filter = DuplicateFilter::default();
    let groups = duplicate_groups(&contents(), &filter);
    assert_eq!(groups.len(), 1);
    let g = &groups[0];
    assert_eq!(g.known_copies, 3);
    assert_eq!(g.online_copies, 2);
    assert_eq!(g.offline_copies, 1);
    assert_eq!(g.storage_object_count, 3);
    assert_eq!(g.logical_volume_count, 3);
    assert_eq!(g.verified_physical_device_count, 2);
    assert_eq!(g.theoretical_reclaimable_bytes, 10);
    let mut with_missing = DuplicateFilter::default();
    with_missing.include_missing = true;
    let all = duplicate_groups(&contents(), &with_missing);
    assert_eq!(all[0].known_copies, 4);
    assert_eq!(all[0].missing_copies, 1);
}

#[test]
fn filters_drop_small_or_offline_groups() {
    let mut filter = DuplicateFilter::default();
    filter.min_size = 11;
    assert!(duplicate_groups(&contents(), &filter).is_empty());
    let mut online = DuplicateFilter::default();
    online.online_only = true;
    let groups = duplicate_groups(&contents(), &online);
    assert_eq!(groups[0].known_copies, 2);
    let mut three = DuplicateFilter::default();
    three.online_only = true;
    three.min_copies = 3;
    assert!(duplicate_groups(&contents(), &three).is_empty());
    let r = record(9, 5, None, None, CopyStatus::Changed, true);
    assert!(!include_record(&r, &DuplicateFilter::default()));
    assert!(build_duplicate_group("h".to_owned(), 10, &vec![], &DuplicateFilter::default()).is_none());
    assert_eq!(reclaimable_bytes(10, 3), 20);
    assert_eq!(reclaimable_bytes(10, 0), 0);
    assert_eq!(reclaimable_bytes(u64::MAX, 3), u64::MAX);
}

#[test]
fn copy_views_show_offline_history() {
    let v = copy_view(&record(5, 3, None, None, CopyStatus::Present, false));
    assert_eq!(v.status, CopyStatus::OfflineUnverified);
    assert_eq!(v.path, "photos/5.raw");
    assert_eq!(v.volume, "Volume3");
}

#[test]
fn hard_links_are_never_cleanup_candidates() {
    let linked = vec![ContentRecords {
        content_id: 1,
        full_hash: "h".to_owned(),
        file_size: 10,
        records: vec![
            record(1, 1, Some(100), Some("v1:100:1:1"), CopyStatus::Present, true),
            record(2, 1, Some(100), Some("v1:100:1:1"), CopyStatus::Present, true),
        ],
    }];
    let groups = duplicate_groups(&linked, &DuplicateFilter::default());
    assert_eq!(groups[0].storage_object_count, 1);
    assert_eq!(groups[0].theoretical_reclaimable_bytes, 0);
    let options = CleanupVerificationOptions::default();
    let plan = build_cleanup_plan("/db".to_owned(), &groups, 1, 1, 1, &options, 4, "g".to_owned());
    assert_eq!(plan.items.len(), 2);
    for item in &plan.items {
        assert_eq!(item.status, PlanItemStatus::Blocked);
        assert!(item.blocked_reasons.iter().any(|r| r.contains("硬链接")));
    }
}

#[test]
fn cleanup_plan_offers_safe_copies_and_verification_confirms() {
    let groups = duplicate_groups(&contents(), &DuplicateFilter::default());
    let options = CleanupVerificationOptions::default();
    assert_eq!(check_plan_limits(1, &options), Ok(()));
    let plan = build_cleanup_plan("/db".to_owned(), &groups, 2, 1, 1, &options, 4, "g".to_owned());
    assert_eq!(plan.items.len(), 1);
    let item = plan.items[0].clone();
    assert_eq!(item.status, PlanItemStatus::CandidateUnverified);
    assert_eq!(item.candidate_delete.file_copy_id, 2);
    assert_eq!(item.verification_mode, VerificationMode::NoCheck);

    let reps = storage_representatives(&item.all_remaining_candidates);
    let passed: Vec<CopyCheck> = reps.iter().map(|_| CopyCheck { verified: true, failure: None }).collect();
    let ok = CopyCheck { verified: true, failure: None };
    let verified = apply_verification(item.clone(), VerificationMode::Metadata, &"v".to_owned(), &ok, &reps, &passed, 1, 1);
    assert_eq!(verified.status, PlanItemStatus::VerifiedCandidate);
    assert_eq!(verified.candidate_metadata_state, CheckState::Verified);

    let failed: Vec<CopyCheck> = reps
        .iter()
        .map(|_| CopyCheck { verified: false, failure: Some("文件元数据已改变".to_owned()) })
        .collect();
    let blocked = apply_verification(item.clone(), VerificationMode::Metadata, &"v".to_owned(), &ok, &reps, &failed, 1, 1);
    assert_eq!(blocked.status, PlanItemStatus::Blocked);
    let bad = CopyCheck { verified: false, failure: Some("完整哈希不匹配".to_owned()) };
    let stale = apply_verification(item, VerificationMode::FullHash, &"v".to_owned(), &bad, &reps, &passed, 1, 1);
    assert_eq!(stale.status, PlanItemStatus::Stale);

    let mut finished = plan.clone();
    finished.items = vec![verified.clone()];
    let done = finish_verified_plan(finished, VerificationMode::Metadata, "v".to_owned());
    assert_eq!(done.verified_items, 1);
    assert_eq!(done.verification_mode, VerificationMode::Metadata);
    assert!(failure_is_stale(&"验证期间文件发生变化".to_owned()));
    assert!(!failure_is_stale(&"权限不足".to_owned()));
    let mut full = CleanupVerificationOptions::default();
    full.verify_full_hash = true;
    assert_eq!(verification_mode_for(&full), Some(VerificationMode::FullHash));
    assert_eq!(verification_mode_for(&options), None);
}

#[test]
fn stale_cache_is_not_reused() {
    let direct = Some(record(1, 1, Some(100), None, CopyStatus::Present, true));
    assert_eq!(lookup_step(false, &direct, false), LookupStep::StaleDirect);
    assert_eq!(lookup_step(false, &direct, true), LookupStep::CachedFull);
    assert_eq!(lookup_step(true, &direct, false), LookupStep::FullHash);
    assert_eq!(lookup_step(false, &None, true), LookupStep::SampleUnregistered);
    let stale = assemble_lookup("/v/p".to_owned(), 10, LookupStep::StaleDirect, &direct, false, None, None, &vec![]);
    assert!(!stale.exact);
    assert_eq!(stale.cache_state, CacheState::CacheStale);
    assert_eq!(stale.full_hash, None);
    assert!(stale.requires_rehash);
    let records = vec![direct.clone().unwrap()];
    let cached = assemble_lookup("/v/p".to_owned(), 10, LookupStep::CachedFull, &direct, true, None, None, &records);
    assert!(cached.exact);
    assert_eq!(cached.cache_state, CacheState::CacheValid);
    assert_eq!(cached.full_hash, Some("h".to_owned()));
    assert_eq!(cached.known_copies, 1);
}

#[test]
fn page_cursor_continues_only_after_a_full_page() {
    let page = vec![
        ContentRecords { content_id: 4, full_hash: "a".to_owned(), file_size: 1, records: Vec::new() },
        ContentRecords { content_id: 9, full_hash: "b".to_owned(), file_size: 1, records: Vec::new() },
    ];
    assert_eq!(page_limit(0), 1);
    assert_eq!(page_limit(25), 25);
    assert_eq!(next_page_cursor(&page, 2), Some(9));
    assert_eq!(next_page_cursor(&page, 3), None);
    assert_eq!(next_page_cursor(&page, 0), Some(9));
    assert_eq!(next_page_cursor(&Vec::new(), 0), None);
}
