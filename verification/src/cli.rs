//! The command line as values: what each command asks for, the checks on
//! its arguments, and the one-line texts it prints. Parsing the arguments
//! and running the commands happen around this.

use vstd::prelude::*;
use crate::duplicate::DuplicateFilter;
use crate::report::CleanupVerificationOptions;
use crate::model::{ScanSummary, Volume, VolumeRole};
use crate::paths::{display_path, path_eq, paths_equal};
use crate::scanner::{HashStats, ScanOptions};
use crate::text::{dec_int, dec_nat, i64_text, u64_text, usize_text, utf8_lossy};
use crate::volume::MarkerPolicy;

verus! {

/// The parsed command line: an optional database path and one command.
#[derive(Debug, Clone)]
pub struct Cli {
    pub db: Option<Vec<u8>>,
    pub command: Command,
}

#[derive(Debug, Clone)]
pub enum Command {
    /// Create the data directory and open (or upgrade) the index.
    Init,
    /// Register and show logical volumes.
    Volume(VolumeCommand),
    /// Scan a volume, or show scan history.
    Scan(ScanCommand),
    /// Complete trusted full hashes of indexed files.
    Hash(HashCommand),
    /// Whether a file was seen before, and its copies.
    Lookup(LookupArgs),
    /// Duplicate content groups confirmed by full hashes.
    Duplicates(DuplicatesArgs),
    /// Read-only verification of indexed copies.
    Verify(VerifyArgs),
    /// A cleanup plan for human review; nothing is deleted.
    Cleanup(CleanupCommand),
    /// A read-only overview of the index.
    Stats { json: bool },
    /// The history of long-running tasks.
    Tasks { json: bool },
}

#[derive(Debug, Clone)]
pub enum VolumeCommand {
    Add(VolumeAddArgs),
    List { json: bool },
    Show { volume_id: i64, json: bool },
    /// Open identity conflicts awaiting review.
    Conflicts { json: bool },
    /// Keep a conflicting candidate as a volume of its own.
    Resolve { conflict: i64, role: VolumeRole },
    /// Move a volume to a new mount path after its identity is proven.
    Relink { volume: i64, path: Vec<u8> },
}

#[derive(Debug, Clone)]
pub struct VolumeAddArgs {
    pub path: Vec<u8>,
    pub role: VolumeRole,
    pub write_marker: bool,
    pub no_write_marker: bool,
    pub json: bool,
}

#[derive(Debug, Clone)]
pub struct ScanCommand {
    pub action: Option<ScanAction>,
    pub root: Option<Vec<u8>>,
    pub full_hash: bool,
    pub metadata_only: bool,
    pub resume: bool,
    pub excludes: Vec<String>,
    pub max_readers: usize,
    pub json: bool,
    pub jsonl_progress: bool,
}

#[derive(Debug, Clone, Copy, PartialEq, Eq, Structural)]
pub enum ScanAction {
    List { json: bool },
    Show { scan_id: i64, json: bool },
}

#[derive(Debug, Clone, Copy, PartialEq, Eq, Structural)]
pub enum HashCommand {
    Complete { volume: Option<i64>, all: bool, json: bool, jsonl_progress: bool },
}

#[derive(Debug, Clone)]
pub struct LookupArgs {
    pub path: Vec<u8>,
    pub full_hash: bool,
    pub json: bool,
}

#[derive(Debug, Clone)]
pub struct DuplicatesArgs {
    pub volume: Option<i64>,
    pub min_size: u64,
    pub min_copies: usize,
    pub online_only: bool,
    pub include_missing: bool,
    pub json: bool,
    pub csv: Option<Vec<u8>>,
    /// Report one page of groups after `after_content_id`.
    pub page: bool,
    pub after_content_id: i64,
    pub limit: usize,
}

#[derive(Debug, Clone, Copy, PartialEq, Eq, Structural)]
pub struct VerifyArgs {
    pub volume: Option<i64>,
    pub file_copy: Option<i64>,
    pub full_hash: bool,
    pub jsonl_progress: bool,
}

#[derive(Debug, Clone)]
pub enum CleanupCommand {
    Plan(CleanupPlanArgs),
}

#[derive(Debug, Clone)]
pub struct CleanupPlanArgs {
    pub target_volume: i64,
    pub keep_volume: i64,
    pub min_remaining_copies: usize,
    pub min_remaining_physical_devices: usize,
    pub verify_metadata: bool,
    pub verify_full_hash: bool,
    pub output: Vec<u8>,
    pub jsonl_progress: bool,
}

/// The verification a cleanup plan asks for.
pub fn cleanup_options(args: &CleanupPlanArgs) -> (r: CleanupVerificationOptions)
    ensures
        r.min_remaining_physical_devices == args.min_remaining_physical_devices,
        r.verify_metadata == args.verify_metadata,
        r.verify_full_hash == args.verify_full_hash,
{
    CleanupVerificationOptions {
        min_remaining_physical_devices: args.min_remaining_physical_devices,
        verify_metadata: args.verify_metadata,
        verify_full_hash: args.verify_full_hash,
    }
}

/// `volume add` writes a marker unless told not to.
pub fn marker_policy(args: &VolumeAddArgs) -> (r: MarkerPolicy)
    ensures
        r == if args.no_write_marker {
            MarkerPolicy::DoNotWrite
        } else {
            MarkerPolicy::WriteIfPossible
        },
{
    if args.no_write_marker {
        MarkerPolicy::DoNotWrite
    } else {
        MarkerPolicy::WriteIfPossible
    }
}

/// The duplicate report filter the arguments ask for.
pub fn duplicate_filter(args: &DuplicatesArgs) -> (r: DuplicateFilter)
    ensures
        r.min_size == args.min_size,
        r.min_copies == args.min_copies,
        r.online_only == args.online_only,
        r.include_missing == args.include_missing,
        r.volume_id == args.volume,
{
    DuplicateFilter {
        min_size: args.min_size,
        min_copies: args.min_copies,
        online_only: args.online_only,
        include_missing: args.include_missing,
        volume_id: args.volume,
    }
}

/// `hash complete` needs a volume or `--all`; the answer is the volume to
/// restrict to, if any.
pub fn hash_target(volume: Option<i64>, all: bool) -> (r: Result<Option<i64>, String>)
    ensures
        (!all && volume is None) ==> (r matches Err(e) && e@ == "hash complete 必须指定 --volume <id> 或 --all"@),
        (all || volume is Some) ==> r == Ok::<Option<i64>, String>(volume),
{
    if !all && volume.is_none() {
        Err("hash complete 必须指定 --volume <id> 或 --all".to_owned())
    } else {
        Ok(volume)
    }
}

/// What `verify` checks.
#[derive(Debug, Clone, Copy, PartialEq, Eq, Structural)]
pub enum VerifyTarget {
    FileCopy(i64),
    Volume(i64),
}

/// One file copy when asked for, else a whole volume; one of them is needed.
pub fn verify_target(args: &VerifyArgs) -> (r: Result<VerifyTarget, String>)
    ensures
        args.file_copy matches Some(id) ==> r == Ok::<VerifyTarget, String>(VerifyTarget::FileCopy(id)),
        args.file_copy is None ==> (args.volume matches Some(id) ==> r == Ok::<VerifyTarget, String>(
            VerifyTarget::Volume(id),
        )),
        args.file_copy is None && args.volume is None ==> (r matches Err(e) && e@
            == "verify 必须指定 --volume <id> 或 --file-copy <id>"@),
{
    match args.file_copy {
        Some(id) => Ok(VerifyTarget::FileCopy(id)),
        None => match args.volume {
            Some(id) => Ok(VerifyTarget::Volume(id)),
            None => Err("verify 必须指定 --volume <id> 或 --file-copy <id>".to_owned()),
        },
    }
}

/// The error after verifying when some copies failed.
pub fn verify_failure_message(failures: usize) -> (r: String)
    ensures
        r@ == "验证失败："@ + dec_nat(failures as nat) + " 个文件副本未通过"@,
{
    let mut m = "验证失败：".to_owned();
    m.append(usize_text(failures).as_str());
    m.append(" 个文件副本未通过");
    m
}

/// What a `scan` invocation does.
#[derive(Debug, Clone)]
pub enum ScanRequest {
    History(ScanAction),
    Walk(Vec<u8>),
}

/// A history subcommand takes no root; a scan needs one.
pub fn scan_request(command: &ScanCommand) -> (r: Result<ScanRequest, String>)
    ensures
        command.action matches Some(a) ==> if command.root is Some {
            r matches Err(e) && e@ == "scan 历史子命令不能同时指定扫描路径"@
        } else {
            r matches Ok(ScanRequest::History(b)) && b == a
        },
        command.action is None ==> match command.root {
            Some(root) => r matches Ok(ScanRequest::Walk(p)) && p@ == root@,
            None => r matches Err(e) && e@ == "请提供卷根目录，例如 disk-indexer scan /Volumes/Photos"@,
        },
{
    match command.action {
        Some(a) => {
            if command.root.is_some() {
                Err("scan 历史子命令不能同时指定扫描路径".to_owned())
            } else {
                Ok(ScanRequest::History(a))
            }
        },
        None => match &command.root {
            Some(root) => Ok(ScanRequest::Walk(root.clone())),
            None => Err("请提供卷根目录，例如 disk-indexer scan /Volumes/Photos".to_owned()),
        },
    }
}

/// The scan options the command asks for.
pub fn scan_options(command: &ScanCommand, reports_progress: bool) -> (r: ScanOptions)
    ensures
        r.full_hash == command.full_hash,
        r.metadata_only == command.metadata_only,
        r.resume == command.resume,
        r.excludes@.len() == command.excludes@.len(),
        forall|i: int| 0 <= i < r.excludes@.len() ==> #[trigger] r.excludes@[i]@ == command.excludes@[i]@,
        r.max_readers == command.max_readers,
        r.reports_progress == reports_progress,
{
    let mut excludes: Vec<String> = Vec::new();
    let mut k: usize = 0;
    while k < command.excludes.len()
        invariant
            k <= command.excludes@.len(),
            excludes@.len() == k,
            forall|i: int| 0 <= i < k ==> #[trigger] excludes@[i]@ == command.excludes@[i]@,
        decreases command.excludes.len() - k,
    {
        excludes.push(command.excludes[k].clone());
        k = k + 1;
    }
    ScanOptions {
        full_hash: command.full_hash,
        metadata_only: command.metadata_only,
        resume: command.resume,
        excludes,
        max_readers: command.max_readers,
        reports_progress,
    }
}

/// A scanned root keeps the role of the volume registered exactly there;
/// otherwise its role is unknown.
pub fn role_for_scan(found: &Option<Volume>, root: &[u8]) -> (r: VolumeRole)
    ensures
        r == match found {
            Some(v) => if path_eq(v.mount_path@, root@) {
                v.role
            } else {
                VolumeRole::Unknown
            },
            None => VolumeRole::Unknown,
        },
{
    match found {
        Some(v) => if paths_equal(v.mount_path.as_slice(), root) {
            v.role
        } else {
            VolumeRole::Unknown
        },
        None => VolumeRole::Unknown,
    }
}

pub open spec fn online_word(b: bool) -> Seq<char> {
    if b {
        "online"@
    } else {
        "offline"@
    }
}

/// One line of `volume list`.
pub fn volume_list_line(v: &Volume) -> (r: String)
    ensures
        r@ == dec_int(v.id as int) + "\t"@ + online_word(v.is_online) + "\t"@ + v.role.name() + "\t"@
            + v.volume_name@ + "\t"@ + utf8_lossy(v.mount_path@),
{
    let mut line = i64_text(v.id);
    line.append("\t");
    line.append(if v.is_online {
        "online"
    } else {
        "offline"
    });
    line.append("\t");
    line.append(v.role.as_str());
    line.append("\t");
    line.append(v.volume_name.as_str());
    line.append("\t");
    line.append(display_path(v.mount_path.as_slice()).as_str());
    line
}

/// The line that ends a scan.
pub open spec fn scan_summary_text(s: ScanSummary) -> Seq<char> {
    "扫描 "@ + dec_int(s.scan_id as int) + "："@ + s.status.name() + "，发现 "@ + dec_nat(s.discovered_count as nat)
        + "，元数据复用 "@ + dec_nat(s.metadata_reused_count as nat) + "，抽样 "@ + dec_nat(s.sampled_count as nat)
        + "，完整哈希 "@ + dec_nat(s.full_hashed_count as nat) + "，缺失 "@ + dec_nat(s.missing_count as nat)
        + "，错误 "@ + dec_nat(s.error_count as nat) + "，读取 "@ + dec_nat(s.bytes_read as nat) + " 字节"@
}

#[verifier::spinoff_prover]
#[verifier::rlimit(40)]
pub fn scan_summary_line(s: &ScanSummary) -> (r: String)
    ensures
        r@ == scan_summary_text(*s),
{
    let mut line = "扫描 ".to_owned();
    line.append(i64_text(s.scan_id).as_str());
    line.append("：");
    line.append(s.status.as_str());
    line.append("，发现 ");
    line.append(u64_text(s.discovered_count).as_str());
    line.append("，元数据复用 ");
    line.append(u64_text(s.metadata_reused_count).as_str());
    line.append("，抽样 ");
    line.append(u64_text(s.sampled_count).as_str());
    line.append("，完整哈希 ");
    line.append(u64_text(s.full_hashed_count).as_str());
    line.append("，缺失 ");
    line.append(u64_text(s.missing_count).as_str());
    line.append("，错误 ");
    line.append(u64_text(s.error_count).as_str());
    line.append("，读取 ");
    line.append(u64_text(s.bytes_read).as_str());
    line.append(" 字节");
    proof {
        assert(line@ =~= scan_summary_text(*s));
    }
    line
}

/// The line that ends `hash complete`.
pub fn hash_summary_line(stats: &HashStats) -> (r: String)
    ensures
        r@ == "完整哈希完成："@ + dec_nat(stats.full_hashed as nat) + " 个文件，读取 "@ + dec_nat(
            stats.bytes_read as nat,
        ) + " 字节，错误 "@ + dec_nat(stats.errors as nat),
{
    let mut line = "完整哈希完成：".to_owned();
    line.append(u64_text(stats.full_hashed).as_str());
    line.append(" 个文件，读取 ");
    line.append(u64_text(stats.bytes_read).as_str());
    line.append(" 字节，错误 ");
    line.append(u64_text(stats.errors).as_str());
    line
}

} // verus!
