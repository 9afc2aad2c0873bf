use disk_indexer::cli::{
    hash_summary_line, hash_target, marker_policy, role_for_scan, scan_request, scan_summary_line,
    verify_failure_message, verify_target, volume_list_line, ScanAction, ScanCommand, ScanRequest, VerifyArgs,
    VerifyTarget, VolumeAddArgs,
};
use disk_indexer::duplicate::total_reclaimable_bytes;
use disk_indexer::model::{
    CacheState, CleanupPlan, CopyStatus, CopyView, DuplicateGroup, HashState, LookupResult,
    PhysicalDeviceIdentityState, RunStatus, ScanSummary, VerificationMode, Volume, VolumeIdentityState,
    VolumeRole,
};
use disk_indexer::plist::{identity_from_plists, parse_i64, plist_bool, plist_hardware_serial, plist_value, whole_disk_identifier};
use disk_indexer::render::{
    csv_header, csv_row, csv_rows, duplicate_report, render_cleanup_plan_text, render_duplicates_text,
    render_lookup_text,
};
use disk_indexer::scanner::HashStats;
use disk_indexer::util::{human_size, to_ns, Config};
use disk_indexer::volume::MarkerPolicy;

fn copy(id: i64, role: VolumeRole, status: CopyStatus, online: bool) -> CopyView {
    CopyView {
        file_copy_id: id,
        volume_id: id * 10,
        volume_uid: format!("u{id}"),
        volume: format!("vol{id}"),
        role,
        path: format!("dir/file{id}"),
        status,
        is_online: online,
        physical_device_id: if id == 1 { Some(5) } else { None },
        physical_identity_state: PhysicalDeviceIdentityState::Verified,
        storage_object_key: if id == 1 { Some("v1:5:1:2".to_owned()) } else { None },
        link_group_id: None,
        last_error: None,
    }
}

fn group() -> DuplicateGroup {
    DuplicateGroup {
        full_hash: "abc".to_owned(),
        file_size: 1536,
        known_copies: 3,
        online_copies: 2,
        offline_copies: 1,
        missing_copies: 0,
        path_count: 3,
        storage_object_count: 3,
        logical_volume_count: 3,
        physical_device_count: 1,
        verified_physical_device_count: 1,
        unknown_physical_device_count: 2,
        theoretical_reclaimable_bytes: 1536,
        copies: vec![
            copy(1, VolumeRole::Primary, CopyStatus::Present, true),
            copy(2, VolumeRole::LocalBackup, CopyStatus::Present, true),
            copy(3, VolumeRole::OffsiteBackup, CopyStatus::OfflineUnverified, false),
        ],
    }
}

#[test]
fn human_sizes_round_half_to_even() {
    assert_eq!(human_size(0), "0 B");
    assert_eq!(human_size(1023), "1023 B");
    assert_eq!(human_size(1024), "1.0 KiB");
    assert_eq!(human_size(1536), "1.5 KiB");
    assert_eq!(human_size(1280), "1.2 KiB");
    assert_eq!(human_size(1331), "1.3 KiB");
    assert_eq!(human_size(1024 * 1024 - 1), "1024.0 KiB");
    assert_eq!(human_size(1024 * 1024), "1.0 MiB");
    assert_eq!(human_size(5 * 1024 * 1024 * 1024), "5.0 GiB");
    assert_eq!(human_size(3 * 1024 * 1024 * 1024 * 1024 / 2), "1.5 TiB");
    assert_eq!(human_size(u64::MAX), "16777216.0 TiB");
    for size in [1025u64, 4095, 123_456_789, 9_007_199_254_740_993, 18_000_000_000_000_000_000] {
        let text = human_size(size);
        let units = ["B", "KiB", "MiB", "GiB", "TiB"];
        let mut value = size as f64;
        let mut unit = 0usize;
        while value >= 1024.0 && unit + 1 < units.len() {
            value /= 1024.0;
            unit += 1;
        }
        assert_eq!(text, format!("{value:.1} {}", units[unit]));
    }
}

#[test]
fn nanoseconds_fit_or_are_unknown() {
    assert_eq!(to_ns(Some(5)), Some(5));
    assert_eq!(to_ns(Some(i64::MAX as u128)), Some(i64::MAX));
    assert_eq!(to_ns(Some(i64::MAX as u128 + 1)), None);
    assert_eq!(to_ns(None), None);
}

#[test]
fn database_path_precedence() {
    let c = Config::new(Some(b"/cli.db".to_vec()), Some(b"/env.db".to_vec()), b"/default.db".to_vec());
    assert_eq!(c.database_path, b"/cli.db".to_vec());
    assert_eq!(c.sample_bytes, 256 * 1024);
    assert_eq!(c.read_buffer_bytes, 1024 * 1024);
    assert_eq!(c.batch_size, 500);
    assert_eq!(c.query_page_size, 1000);
    let e = Config::new(None, Some(b"/env.db".to_vec()), b"/default.db".to_vec());
    assert_eq!(e.database_path, b"/env.db".to_vec());
    let d = Config::new(None, None, b"/default.db".to_vec());
    assert_eq!(d.database_path, b"/default.db".to_vec());
}

#[test]
fn duplicate_text_labels_copies() {
    assert_eq!(render_duplicates_text(&vec![]), "未找到具有可信完整 BLAKE3 哈希的重复内容组。\n");
    let text = render_duplicates_text(&vec![group()]);
    assert!(text.starts_with("注意：内容重复不等于副本多余；理论可释放空间不是删除建议。\n\nDuplicate Group\nHash: abc\nSize: 1.5 KiB\n"));
    assert!(text.contains("Known copies: 3\nPaths: 3\nStorage objects: 3\nLogical volumes: 3\n"));
    assert!(text.contains("Verified physical devices: 1\nUnknown or unverified device identities: 2\n"));
    assert!(text.contains("Theoretical reclaimable (keep one): 1.5 KiB\n\n"));
    assert!(text.contains("[KEEP_CANDIDATE]\nVolume: vol1\nRole: primary\nPath: dir/file1\nStatus: present\n\n"));
    assert!(text.contains("[REDUNDANT_CANDIDATE]\nVolume: vol2\nRole: local_backup\n"));
    assert!(text.ends_with("[OFFLINE_UNVERIFIED]\nVolume: vol3\nRole: offsite_backup\nPath: dir/file3\nStatus: offline_unverified\n\n"));
}

#[test]
fn csv_rows_follow_the_header() {
    let header = csv_header();
    assert_eq!(header.len(), 17);
    assert_eq!(header[0], "full_hash");
    assert_eq!(header[16], "storage_object_key");
    let g = group();
    let row = csv_row(&g, &g.copies[0]);
    assert_eq!(
        row,
        vec!["abc", "1536", "3", "3", "3", "3", "1", "1", "2", "10", "vol1", "primary", "dir/file1", "present", "true", "5", "v1:5:1:2"]
    );
    let rows = csv_rows(&vec![g.clone(), g]);
    assert_eq!(rows.len(), 6);
    assert_eq!(rows[5][15], "");
    assert_eq!(rows[5][14], "false");
}

#[test]
fn duplicate_report_carries_warnings() {
    let groups = vec![group()];
    let report = duplicate_report("/db".to_owned(), "now".to_owned(), &groups);
    assert_eq!(report.schema_version, 1);
    assert_eq!(report.groups.len(), 1);
    assert_eq!(report.warnings.len(), 2);
    assert!(report.warnings[1].contains("不是安全删除建议"));
}

#[test]
fn lookup_text_lists_copies_and_warnings() {
    let result = LookupResult {
        path: "/v/a.raw".to_owned(),
        file_size: 100,
        sample_hash: Some("s1".to_owned()),
        full_hash: None,
        hash_state: HashState::Sampled,
        exact: false,
        cache_state: CacheState::CacheStale,
        metadata_matches_index: false,
        requires_rehash: true,
        has_appeared_before: false,
        known_copies: 1,
        online_copies: 1,
        offline_copies: 0,
        copies: vec![copy(2, VolumeRole::LocalBackup, CopyStatus::Present, true)],
        first_seen_at: None,
        last_seen_at: None,
        warnings: vec!["w1".to_owned()],
    };
    assert_eq!(
        render_lookup_text(&result),
        "文件: /v/a.raw\n大小: 100 B\n抽样指纹: s1\n完整哈希: 未计算\n精确匹配: 否\n缓存状态: cache_stale\n索引元数据匹配: 否\n需要重新计算: 是\n索引中曾出现: 否或无法精确确认\n已知副本: 1\n在线副本: 1\n离线副本: 0\n- vol2:dir/file2 [present] local_backup\n警告: w1\n"
    );
}

#[test]
fn plan_summary_counts_candidates() {
    let plan = CleanupPlan {
        schema_version: 1,
        generated_at: "g".to_owned(),
        database_path: "/db".to_owned(),
        target_volume_id: 1,
        keep_volume_id: 2,
        min_remaining_copies: 1,
        min_remaining_physical_devices: 1,
        verification_mode: VerificationMode::NoCheck,
        verification_protocol_version: 1,
        verified_at: None,
        cancelled: false,
        completed_items: 0,
        blocked_items: 0,
        verified_items: 0,
        warnings: vec![],
        items: vec![],
    };
    assert_eq!(
        render_cleanup_plan_text(&plan, "2024-01-01T00:00:00+00:00"),
        "清理计划已生成：0 个仅供人工审核的候选项，0 个已阻止。未对任何原始文件执行操作。生成时间: 2024-01-01T00:00:00+00:00（UTC）\n"
    );
}

#[test]
fn plist_values_are_read_after_their_key() {
    let xml = "<dict>\n<key>VolumeUUID</key>\n\t<string>ABC-1</string>\n<key>TotalSize</key><integer>500</integer>\n<key>Whole</key> <true/>\n<key>DeviceIdentifier</key><string>disk4</string>\n<key>Bad</key><data>x</data></dict>";
    assert_eq!(plist_value(xml, "VolumeUUID"), Some("ABC-1".to_owned()));
    assert_eq!(plist_value(xml, "TotalSize"), Some("500".to_owned()));
    assert_eq!(plist_value(xml, "Missing"), None);
    assert_eq!(plist_value(xml, "Bad"), None);
    assert_eq!(plist_bool(xml, "Whole"), Some(true));
    assert_eq!(plist_bool(xml, "VolumeUUID"), None);
    assert_eq!(whole_disk_identifier(xml), Some("disk4".to_owned()));
    assert_eq!(plist_hardware_serial("<key>SerialNumber</key><string>S9</string>"), Some("S9".to_owned()));
    assert_eq!(plist_hardware_serial(xml), None);
}

#[test]
fn integers_parse_like_std() {
    for text in ["0", "42", "-7", "+8", "", "-", "+", "1a", "9223372036854775807", "9223372036854775808", "-9223372036854775808", "-9223372036854775809", "007"] {
        assert_eq!(parse_i64(text), text.parse::<i64>().ok(), "{text}");
    }
}

#[test]
fn identity_from_plists_prefers_whole_disk_values() {
    let volume = "<key>FilesystemType</key><string>apfs</string><key>VolumeUUID</key><string>V</string><key>DiskUUID</key><string>P</string><key>ParentWholeDisk</key><string>disk4</string><key>DeviceIdentifier</key><string>disk4s2</string><key>TotalSize</key><integer>10</integer><key>BusProtocol</key><string>SATA</string>";
    let whole = "<key>MediaUUID</key><string>WM</string><key>DeviceSerial</key><string>HS</string><key>MediaName</key><string>Disk</string><key>TotalSize</key><integer>99</integer>";
    let i = identity_from_plists(volume, Some(whole), "unix-device:1".to_owned());
    assert_eq!(i.filesystem, "apfs");
    assert_eq!(i.system_volume_uuid, Some("V".to_owned()));
    assert_eq!(i.partition_uuid, Some("P".to_owned()));
    assert_eq!(i.device_serial, None);
    assert_eq!(i.whole_disk_identifier, Some("disk4".to_owned()));
    assert_eq!(i.whole_disk_media_uuid, Some("WM".to_owned()));
    assert_eq!(i.hardware_serial, Some("HS".to_owned()));
    assert_eq!(i.model, Some("Disk".to_owned()));
    assert_eq!(i.transport, Some("SATA".to_owned()));
    assert_eq!(i.total_size, Some(99));
    let alone = identity_from_plists("<key>TotalSize</key><integer>x</integer>", None, "unix-device:1".to_owned());
    assert_eq!(alone.filesystem, "unix-device:1");
    assert_eq!(alone.total_size, None);
}

#[test]
fn command_arguments_are_checked() {
    assert_eq!(hash_target(None, false), Err("hash complete 必须指定 --volume <id> 或 --all".to_owned()));
    assert_eq!(hash_target(Some(3), false), Ok(Some(3)));
    assert_eq!(hash_target(None, true), Ok(None));
    let v = VerifyArgs { volume: Some(2), file_copy: Some(9), full_hash: false, jsonl_progress: false };
    assert_eq!(verify_target(&v), Ok(VerifyTarget::FileCopy(9)));
    let w = VerifyArgs { volume: Some(2), file_copy: None, full_hash: false, jsonl_progress: false };
    assert_eq!(verify_target(&w), Ok(VerifyTarget::Volume(2)));
    let none = VerifyArgs { volume: None, file_copy: None, full_hash: true, jsonl_progress: true };
    assert_eq!(verify_target(&none), Err("verify 必须指定 --volume <id> 或 --file-copy <id>".to_owned()));
    assert_eq!(verify_failure_message(2), "验证失败：2 个文件副本未通过");
    let add = VolumeAddArgs { path: b"/v".to_vec(), role: VolumeRole::Primary, write_marker: false, no_write_marker: true, json: false };
    assert_eq!(marker_policy(&add), MarkerPolicy::DoNotWrite);
}

#[test]
fn scan_needs_exactly_one_of_history_or_root() {
    let mut cmd = ScanCommand {
        action: Some(ScanAction::List { json: false }),
        root: Some(b"/v".to_vec()),
        full_hash: false,
        metadata_only: false,
        resume: false,
        excludes: vec![],
        max_readers: 1,
        json: false,
        jsonl_progress: false,
    };
    assert_eq!(scan_request(&cmd).unwrap_err(), "scan 历史子命令不能同时指定扫描路径");
    cmd.root = None;
    assert!(matches!(scan_request(&cmd), Ok(ScanRequest::History(ScanAction::List { json: false }))));
    cmd.action = None;
    assert_eq!(scan_request(&cmd).unwrap_err(), "请提供卷根目录，例如 disk-indexer scan /Volumes/Photos");
    cmd.root = Some(b"/v".to_vec());
    assert!(matches!(scan_request(&cmd), Ok(ScanRequest::Walk(p)) if p == b"/v".to_vec()));
}

#[test]
fn command_output_lines() {
    let summary = ScanSummary {
        scan_id: 4,
        status: RunStatus::Completed,
        discovered_count: 10,
        metadata_reused_count: 2,
        sampled_count: 3,
        full_hashed_count: 1,
        skipped_count: 0,
        missing_count: 0,
        error_count: 0,
        bytes_read: 4096,
    };
    assert_eq!(
        scan_summary_line(&summary),
        "扫描 4：completed，发现 10，元数据复用 2，抽样 3，完整哈希 1，缺失 0，错误 0，读取 4096 字节"
    );
    let mut stats = HashStats::new();
    stats.full_hashed = 3;
    stats.bytes_read = 30;
    assert_eq!(hash_summary_line(&stats), "完整哈希完成：3 个文件，读取 30 字节，错误 0");
    let v = Volume {
        id: 1,
        volume_uid: "u".to_owned(),
        marker_uid: None,
        volume_name: "Photos".to_owned(),
        filesystem: None,
        mount_path: b"/Volumes/Photos".to_vec(),
        system_volume_uuid: None,
        device_serial: None,
        partition_uuid: None,
        total_size: None,
        physical_device_id: None,
        identity_state: VolumeIdentityState::Fallback,
        role: VolumeRole::Primary,
        is_online: true,
        first_seen_at: "t".to_owned(),
        last_seen_at: "t".to_owned(),
    };
    assert_eq!(volume_list_line(&v), "1\tonline\tprimary\tPhotos\t/Volumes/Photos");
    assert_eq!(role_for_scan(&Some(v.clone()), b"/Volumes/Photos"), VolumeRole::Primary);
    assert_eq!(role_for_scan(&Some(v), b"/Volumes/Photos/sub"), VolumeRole::Unknown);
    assert_eq!(role_for_scan(&None, b"/x"), VolumeRole::Unknown);
}

#[test]
fn role_and_state_names_read_back() {
    for role in [VolumeRole::Primary, VolumeRole::LocalBackup, VolumeRole::OffsiteBackup, VolumeRole::Temporary, VolumeRole::LegacyBackup, VolumeRole::Unknown] {
        assert_eq!(VolumeRole::parse(role.as_str()), Ok(role));
    }
    assert_eq!(VolumeRole::parse("bogus"), Err("不支持的卷角色: bogus".to_owned()));
    for state in [VolumeIdentityState::Verified, VolumeIdentityState::Fallback, VolumeIdentityState::PossibleClone, VolumeIdentityState::Conflict, VolumeIdentityState::ManualLink] {
        assert_eq!(VolumeIdentityState::parse(state.as_str()), Ok(state));
    }
    assert_eq!(VolumeIdentityState::parse("x"), Err("不支持的卷身份状态: x".to_owned()));
}

#[test]
fn total_reclaimable_sums_and_saturates() {
    let mut second = group();
    second.theoretical_reclaimable_bytes = 4096;
    assert_eq!(total_reclaimable_bytes(&vec![group(), second.clone()]), 1536 + 4096);
    assert_eq!(total_reclaimable_bytes(&Vec::new()), 0);
    let mut huge = group();
    huge.theoretical_reclaimable_bytes = u64::MAX - 10;
    assert_eq!(total_reclaimable_bytes(&vec![huge, second]), u64::MAX);
}

#[test]
fn stored_status_names_read_back() {
    for status in [
        CopyStatus::Present,
        CopyStatus::Missing,
        CopyStatus::Offline,
        CopyStatus::OfflineUnverified,
        CopyStatus::Deleted,
        CopyStatus::Unreadable,
        CopyStatus::Changed,
        CopyStatus::Quarantined,
    ] {
        assert_eq!(CopyStatus::from_name(status.as_str()), Some(status));
    }
    for state in [HashState::NotHashed, HashState::Sampled, HashState::Full, HashState::Failed, HashState::Stale] {
        assert_eq!(HashState::from_name(state.as_str()), Some(state));
    }
    for state in [
        PhysicalDeviceIdentityState::Verified,
        PhysicalDeviceIdentityState::Inferred,
        PhysicalDeviceIdentityState::Unknown,
        PhysicalDeviceIdentityState::Conflict,
    ] {
        assert_eq!(PhysicalDeviceIdentityState::from_name(state.as_str()), Some(state));
    }
    assert_eq!(CopyStatus::from_name("PRESENT"), None);
    assert_eq!(HashState::from_name("not_hashed"), None);
    assert_eq!(PhysicalDeviceIdentityState::from_name(""), None);
}

#[test]
fn role_and_state_parse_through_from_str() {
    assert_eq!("offsite_backup".parse::<VolumeRole>(), Ok(VolumeRole::OffsiteBackup));
    assert_eq!("backup".parse::<VolumeRole>(), Err("不支持的卷角色: backup".to_owned()));
    assert_eq!("manual_link".parse::<VolumeIdentityState>(), Ok(VolumeIdentityState::ManualLink));
    assert_eq!("clone".parse::<VolumeIdentityState>(), Err("不支持的卷身份状态: clone".to_owned()));
}
