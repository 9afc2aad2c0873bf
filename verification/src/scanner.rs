//! The decisions of a sequential, conservative scan: which directory entries
//! are walked, how a run's counters and status evolve, when unseen files may
//! be marked missing, and what each hashing attempt records. Nothing here
//! follows symbolic links or marks files missing on an offline volume; the
//! walking and reading are done by the caller.

use vstd::prelude::*;
use vstd::utf8::encode_utf8;
use crate::glob::{glob_match, glob_result};
use crate::model::{CopyStatus, FileRecord, HashState, RunStatus, ScanSummary};
use crate::paths::{
    bytes_eq, components, path_components, path_eq, paths_equal, spec_strip_prefix, strip_prefix,
};
use crate::store::MetadataOutcome;
use crate::text::{lossy_text, utf8_lossy};
use crate::volume::MARKER_FILE;

verus! {

/// Options of one scan run. `reports_progress` is set when a listener
/// follows committed progress.
#[derive(Debug, Clone)]
pub struct ScanOptions {
    pub full_hash: bool,
    pub metadata_only: bool,
    pub resume: bool,
    pub excludes: Vec<String>,
    pub max_readers: usize,
    pub reports_progress: bool,
}

impl ScanOptions {
    /// Incremental scanning with one reader, no exclusions, no listener.
    pub fn default_options() -> (r: ScanOptions)
        ensures
            !r.full_hash && !r.metadata_only && !r.resume,
            r.excludes@.len() == 0,
            r.max_readers == 1,
            !r.reports_progress,
    {
        ScanOptions {
            full_hash: false,
            metadata_only: false,
            resume: false,
            excludes: Vec::new(),
            max_readers: 1,
            reports_progress: false,
        }
    }
}

impl Default for ScanOptions {
    fn default() -> (r: ScanOptions)
        ensures
            !r.full_hash && !r.metadata_only && !r.resume,
            r.excludes@.len() == 0,
            r.max_readers == 1,
            !r.reports_progress,
    {
        ScanOptions::default_options()
    }
}

/// A scan needs at least one reader; more are accepted but the scan still
/// reads one file at a time.
pub fn check_readers(options: &ScanOptions) -> (r: Result<(), String>)
    ensures
        options.max_readers > 0 ==> r is Ok,
        options.max_readers == 0 ==> (r matches Err(e) && e@ == "--max-readers 必须大于零"@),
{
    if options.max_readers == 0 {
        Err("--max-readers 必须大于零".to_owned())
    } else {
        Ok(())
    }
}

/// The recorded mode of a scan run.
#[derive(Debug, Clone, Copy, PartialEq, Eq, Structural)]
pub enum ScanMode {
    FullHash,
    MetadataOnly,
    Resume,
    Incremental,
}

impl ScanMode {
    pub open spec fn name(self) -> Seq<char> {
        match self {
            ScanMode::FullHash => "full_hash"@,
            ScanMode::MetadataOnly => "metadata_only"@,
            ScanMode::Resume => "resume"@,
            ScanMode::Incremental => "incremental"@,
        }
    }

    pub fn as_str(self) -> (r: &'static str)
        ensures
            r@ == self.name(),
    {
        match self {
            ScanMode::FullHash => "full_hash",
            ScanMode::MetadataOnly => "metadata_only",
            ScanMode::Resume => "resume",
            ScanMode::Incremental => "incremental",
        }
    }
}

/// Full hashing wins over metadata-only, which wins over resuming.
pub fn scan_mode(options: &ScanOptions) -> (r: ScanMode)
    ensures
        r == if options.full_hash {
            ScanMode::FullHash
        } else if options.metadata_only {
            ScanMode::MetadataOnly
        } else if options.resume {
            ScanMode::Resume
        } else {
            ScanMode::Incremental
        },
{
    if options.full_hash {
        ScanMode::FullHash
    } else if options.metadata_only {
        ScanMode::MetadataOnly
    } else if options.resume {
        ScanMode::Resume
    } else {
        ScanMode::Incremental
    }
}

/// How many scanned files are committed together: the configured batch,
/// at least one, and at most 100 while a listener follows the progress.
pub fn persistence_batch_size(batch_size: usize, reports_progress: bool) -> (r: usize)
    ensures
        reports_progress ==> r == if batch_size < 1 {
            1
        } else if batch_size > 100 {
            100
        } else {
            batch_size
        },
        !reports_progress ==> r == if batch_size < 1 {
            1
        } else {
            batch_size
        },
{
    if batch_size < 1 {
        1
    } else if reports_progress && batch_size > 100 {
        100
    } else {
        batch_size
    }
}

/// Top-level directory names that a volume's system keeps for itself.
pub open spec fn is_system_dir_name(c: Seq<u8>) -> bool {
    ||| c == encode_utf8(".Spotlight-V100"@)
    ||| c == encode_utf8(".Trashes"@)
    ||| c == encode_utf8(".fseventsd"@)
    ||| c == encode_utf8(".disk-indexer-quarantine"@)
}

fn system_dir_name(c: &[u8]) -> (r: bool)
    ensures
        r == is_system_dir_name(c@),
{
    bytes_eq(c, ".Spotlight-V100".as_bytes()) || bytes_eq(c, ".Trashes".as_bytes()) || bytes_eq(
        c,
        ".fseventsd".as_bytes(),
    ) || bytes_eq(c, ".disk-indexer-quarantine".as_bytes())
}

/// Some exclusion pattern matches the display text of the relative path.
pub open spec fn excluded(patterns: Seq<String>, rel: Seq<u8>) -> bool {
    exists|k: int|
        0 <= k < patterns.len() && #[trigger] glob_result(
            encode_utf8(patterns[k]@),
            encode_utf8(utf8_lossy(rel)),
        )
}

/// Whether the walk enters (or reports) `entry` below `root`: the root
/// itself always; never the index database, a path outside the root, the
/// system's own top-level directories, the volume marker, or a path that an
/// exclusion pattern matches.
pub open spec fn spec_should_descend(root: Seq<u8>, entry: Seq<u8>, patterns: Seq<String>, database: Seq<u8>) -> bool {
    if path_eq(entry, root) {
        true
    } else if path_eq(entry, database) {
        false
    } else {
        match spec_strip_prefix(entry, root) {
            None => false,
            Some(rel) => {
                &&& !(components(rel).len() > 0 && is_system_dir_name(components(rel)[0]))
                &&& !path_eq(rel, encode_utf8(MARKER_FILE@))
                &&& !excluded(patterns, rel)
            },
        }
    }
}

pub fn should_descend(root: &[u8], entry: &[u8], patterns: &Vec<String>, database_path: &[u8]) -> (r: bool)
    ensures
        r == spec_should_descend(root@, entry@, patterns@, database_path@),
{
    if paths_equal(entry, root) {
        return true;
    }
    if paths_equal(entry, database_path) {
        return false;
    }
    let relative = match strip_prefix(entry, root) {
        None => {
            return false;
        },
        Some(rel) => rel,
    };
    let parts = path_components(relative.as_slice());
    proof {
        assert(parts.deep_view().len() == parts@.len());
        if parts@.len() > 0 {
            assert(parts.deep_view()[0] == parts@[0]@);
        }
    }
    if parts.len() > 0 && system_dir_name(parts[0].as_slice()) {
        return false;
    }
    if paths_equal(relative.as_slice(), MARKER_FILE.as_bytes()) {
        return false;
    }
    let text = lossy_text(relative.as_slice());
    let mut k: usize = 0;
    while k < patterns.len()
        invariant
            k <= patterns@.len(),
            text@ == utf8_lossy(relative@),
            !path_eq(entry@, root@),
            !path_eq(entry@, database_path@),
            spec_strip_prefix(entry@, root@) == Some(relative@),
            !(components(relative@).len() > 0 && is_system_dir_name(components(relative@)[0])),
            !path_eq(relative@, encode_utf8(MARKER_FILE@)),
            forall|j: int| 0 <= j < k ==> !glob_result(encode_utf8(patterns@[j]@), encode_utf8(text@)),
        decreases patterns.len() - k,
    {
        if glob_match(patterns[k].as_str(), text.as_str()) {
            proof {
                assert(glob_result(encode_utf8(patterns@[k as int]@), encode_utf8(utf8_lossy(relative@))));
            }
            return false;
        }
        k = k + 1;
    }
    true
}

/// `a + b`, saturating at `u64::MAX`.
pub open spec fn sat_add(a: u64, b: int) -> u64 {
    if a + b > u64::MAX {
        u64::MAX
    } else {
        (a + b) as u64
    }
}

/// A scan run's counters and status while the walk proceeds.
#[derive(Debug, Clone)]
pub struct ScanTally {
    pub summary: ScanSummary,
    /// Some entry or batch could not be indexed during the walk.
    pub iteration_error: bool,
}

/// Number of `Reused` outcomes among the first `n`.
pub open spec fn reused_count(outcomes: Seq<MetadataOutcome>, n: int) -> nat
    decreases n,
{
    if n <= 0 {
        0
    } else {
        reused_count(outcomes, n - 1) + if outcomes[n - 1] == MetadataOutcome::Reused {
            1nat
        } else {
            0nat
        }
    }
}

/// The walk's outcome once it ended: an interrupted run stays interrupted,
/// otherwise it completed, with errors when any entry failed.
pub open spec fn walk_status(t: ScanTally) -> RunStatus {
    if t.summary.status == RunStatus::Running {
        if t.iteration_error {
            RunStatus::CompletedWithErrors
        } else {
            RunStatus::Completed
        }
    } else {
        t.summary.status
    }
}

impl ScanTally {
    /// A running scan with every counter at zero.
    pub fn new(scan_id: i64) -> (r: ScanTally)
        ensures
            r.summary.scan_id == scan_id,
            r.summary.status == RunStatus::Running,
            r.summary.discovered_count == 0 && r.summary.metadata_reused_count == 0,
            r.summary.sampled_count == 0 && r.summary.full_hashed_count == 0,
            r.summary.skipped_count == 0 && r.summary.missing_count == 0,
            r.summary.error_count == 0 && r.summary.bytes_read == 0,
            !r.iteration_error,
    {
        ScanTally {
            summary: ScanSummary {
                scan_id,
                status: RunStatus::Running,
                discovered_count: 0,
                metadata_reused_count: 0,
                sampled_count: 0,
                full_hashed_count: 0,
                skipped_count: 0,
                missing_count: 0,
                error_count: 0,
                bytes_read: 0,
            },
            iteration_error: false,
        }
    }

    /// Counts a committed batch: every outcome is a discovered file, and the
    /// reused ones are counted as such (both saturating).
    pub fn record_outcomes(&mut self, outcomes: &Vec<MetadataOutcome>)
        ensures
            final(self).summary.discovered_count == sat_add(
                old(self).summary.discovered_count,
                outcomes@.len() as int,
            ),
            final(self).summary.metadata_reused_count == sat_add(
                old(self).summary.metadata_reused_count,
                reused_count(outcomes@, outcomes@.len() as int) as int,
            ),
            final(self).summary.status == old(self).summary.status,
            final(self).summary.error_count == old(self).summary.error_count,
            final(self).summary.missing_count == old(self).summary.missing_count,
            final(self).summary.sampled_count == old(self).summary.sampled_count,
            final(self).summary.full_hashed_count == old(self).summary.full_hashed_count,
            final(self).summary.skipped_count == old(self).summary.skipped_count,
            final(self).summary.bytes_read == old(self).summary.bytes_read,
            final(self).summary.scan_id == old(self).summary.scan_id,
            final(self).iteration_error == old(self).iteration_error,
    {
        let mut k: usize = 0;
        while k < outcomes.len()
            invariant
                k <= outcomes@.len(),
                self.summary.discovered_count == sat_add(old(self).summary.discovered_count, k as int),
                self.summary.metadata_reused_count == sat_add(
                    old(self).summary.metadata_reused_count,
                    reused_count(outcomes@, k as int) as int,
                ),
                self.summary.status == old(self).summary.status,
                self.summary.error_count == old(self).summary.error_count,
                self.summary.missing_count == old(self).summary.missing_count,
                self.summary.sampled_count == old(self).summary.sampled_count,
                self.summary.full_hashed_count == old(self).summary.full_hashed_count,
                self.summary.skipped_count == old(self).summary.skipped_count,
                self.summary.bytes_read == old(self).summary.bytes_read,
                self.summary.scan_id == old(self).summary.scan_id,
                self.iteration_error == old(self).iteration_error,
            decreases outcomes.len() - k,
        {
            self.summary.discovered_count = self.summary.discovered_count.saturating_add(1);
            if outcomes[k] == MetadataOutcome::Reused {
                self.summary.metadata_reused_count = self.summary.metadata_reused_count.saturating_add(1);
            }
            k = k + 1;
        }
    }

    /// Counts `n` entries that could not be indexed; the walk then had errors.
    pub fn record_errors(&mut self, n: u64)
        ensures
            final(self).summary.error_count == sat_add(old(self).summary.error_count, n as int),
            final(self).iteration_error,
            final(self).summary.status == old(self).summary.status,
            final(self).summary.discovered_count == old(self).summary.discovered_count,
            final(self).summary.metadata_reused_count == old(self).summary.metadata_reused_count,
            final(self).summary.missing_count == old(self).summary.missing_count,
            final(self).summary.sampled_count == old(self).summary.sampled_count,
            final(self).summary.full_hashed_count == old(self).summary.full_hashed_count,
            final(self).summary.skipped_count == old(self).summary.skipped_count,
            final(self).summary.bytes_read == old(self).summary.bytes_read,
            final(self).summary.scan_id == old(self).summary.scan_id,
    {
        self.summary.error_count = self.summary.error_count.saturating_add(n);
        self.iteration_error = true;
    }

    /// Counts a batch of `dropped` files that could not be committed.
    pub fn record_dropped_batch(&mut self, dropped: usize)
        ensures
            final(self).summary.error_count == sat_add(old(self).summary.error_count, dropped as int),
            final(self).iteration_error,
            final(self).summary.status == old(self).summary.status,
            final(self).summary.discovered_count == old(self).summary.discovered_count,
            final(self).summary.metadata_reused_count == old(self).summary.metadata_reused_count,
            final(self).summary.missing_count == old(self).summary.missing_count,
            final(self).summary.sampled_count == old(self).summary.sampled_count,
            final(self).summary.full_hashed_count == old(self).summary.full_hashed_count,
            final(self).summary.skipped_count == old(self).summary.skipped_count,
            final(self).summary.bytes_read == old(self).summary.bytes_read,
            final(self).summary.scan_id == old(self).summary.scan_id,
    {
        let n: u64 = if dropped as u128 > u64::MAX as u128 {
            u64::MAX
        } else {
            dropped as u64
        };
        self.record_errors(n);
    }

    /// The walk was cancelled.
    pub fn interrupt(&mut self)
        ensures
            final(self).summary == (ScanSummary { status: RunStatus::Interrupted, ..old(self).summary }),
            final(self).iteration_error == old(self).iteration_error,
    {
        self.summary.status = RunStatus::Interrupted;
    }

    /// Settles the status once the walk ended.
    pub fn finish_walk(&mut self)
        ensures
            final(self).summary == (ScanSummary { status: walk_status(*old(self)), ..old(self).summary }),
            final(self).iteration_error == old(self).iteration_error,
    {
        match self.summary.status {
            RunStatus::Running => {
                if self.iteration_error {
                    self.summary.status = RunStatus::CompletedWithErrors;
                } else {
                    self.summary.status = RunStatus::Completed;
                }
            },
            _ => {},
        }
    }

    /// Unseen files may be marked missing only after a complete walk without
    /// any error on a volume that stayed online.
    pub fn may_mark_missing(&self) -> (r: bool)
        ensures
            r == (self.summary.status == RunStatus::Completed),
    {
        match self.summary.status {
            RunStatus::Completed => true,
            _ => false,
        }
    }

    /// Records how many copies were marked missing.
    pub fn set_missing(&mut self, n: u64)
        ensures
            final(self).summary == (ScanSummary { missing_count: n, ..old(self).summary }),
            final(self).iteration_error == old(self).iteration_error,
    {
        self.summary.missing_count = n;
    }

    /// Hashing follows a complete walk unless only metadata was asked for.
    pub fn should_hash(&self, metadata_only: bool) -> (r: bool)
        ensures
            r == (self.summary.status == RunStatus::Completed && !metadata_only),
    {
        self.may_mark_missing() && !metadata_only
    }

    /// Folds the hashing pass into the run: its counters, its errors, and an
    /// interrupted or failed pass in the status.
    pub fn apply_hash_stats(&mut self, hashes: &HashStats)
        ensures
            final(self).summary.sampled_count == hashes.sampled,
            final(self).summary.full_hashed_count == hashes.full_hashed,
            final(self).summary.error_count == sat_add(old(self).summary.error_count, hashes.errors as int),
            final(self).summary.bytes_read == hashes.bytes_read,
            final(self).summary.status == if hashes.interrupted {
                RunStatus::Interrupted
            } else if hashes.errors > 0 {
                RunStatus::CompletedWithErrors
            } else {
                old(self).summary.status
            },
            final(self).summary.scan_id == old(self).summary.scan_id,
            final(self).summary.discovered_count == old(self).summary.discovered_count,
            final(self).summary.metadata_reused_count == old(self).summary.metadata_reused_count,
            final(self).summary.skipped_count == old(self).summary.skipped_count,
            final(self).summary.missing_count == old(self).summary.missing_count,
            final(self).iteration_error == old(self).iteration_error,
    {
        self.summary.sampled_count = hashes.sampled;
        self.summary.full_hashed_count = hashes.full_hashed;
        self.summary.error_count = self.summary.error_count.saturating_add(hashes.errors);
        self.summary.bytes_read = hashes.bytes_read;
        if hashes.interrupted {
            self.summary.status = RunStatus::Interrupted;
        } else if hashes.errors > 0 {
            self.summary.status = RunStatus::CompletedWithErrors;
        }
    }
}

/// A walk in progress that met an error, or a walk that was interrupted,
/// never ends as completed, so it never marks unseen files missing.
pub proof fn no_missing_after_incomplete_walk(t: ScanTally)
    requires
        (t.iteration_error && t.summary.status == RunStatus::Running) || t.summary.status
            == RunStatus::Interrupted,
    ensures
        walk_status(t) != RunStatus::Completed,
{
}

/// Counters of one hashing pass.
#[derive(Debug, Clone, Copy)]
pub struct HashStats {
    pub processed: u64,
    pub skipped: u64,
    pub sampled: u64,
    pub full_hashed: u64,
    pub errors: u64,
    pub bytes_read: u64,
    pub interrupted: bool,
}

/// Which hash a read produces.
#[derive(Debug, Clone, Copy, PartialEq, Eq, Structural)]
pub enum HashKind {
    Sample,
    Full,
}

/// What is recorded when a copy could not be hashed.
#[derive(Debug, Clone, PartialEq, Eq)]
pub enum HashFailure {
    /// The volume went away: it is marked offline and nothing is counted.
    VolumeOffline,
    /// The copy is marked with a problem; `changed` when its metadata moved.
    Problem { message: String, changed: bool },
}

pub open spec fn index_mismatch_message() -> Seq<char> {
    "读取前元数据与索引不一致；等待重新扫描"@
}

pub open spec fn changed_while_reading_message(kind: HashKind) -> Seq<char> {
    match kind {
        HashKind::Sample => "抽样期间文件发生变化；指纹已作废"@,
        HashKind::Full => "完整哈希期间文件发生变化；完整哈希未被信任"@,
    }
}

impl HashStats {
    /// Every counter at zero, not interrupted.
    pub fn new() -> (r: HashStats)
        ensures
            r.processed == 0 && r.skipped == 0 && r.sampled == 0 && r.full_hashed == 0,
            r.errors == 0 && r.bytes_read == 0 && !r.interrupted,
    {
        HashStats {
            processed: 0,
            skipped: 0,
            sampled: 0,
            full_hashed: 0,
            errors: 0,
            bytes_read: 0,
            interrupted: false,
        }
    }

    /// The metadata read before hashing no longer matches the index: the
    /// copy waits for a rescan.
    pub fn on_index_mismatch(&mut self) -> (r: HashFailure)
        ensures
            r == (HashFailure::Problem { message: r->message, changed: true }),
            r->message@ == index_mismatch_message(),
            *final(self) == (HashStats { errors: sat_add(old(self).errors, 1), ..*old(self) }),
    {
        self.errors = self.errors.saturating_add(1);
        HashFailure::Problem { message: "读取前元数据与索引不一致；等待重新扫描".to_owned(), changed: true }
    }

    /// The copy could not be read: an offline volume is only marked offline;
    /// otherwise the copy records the error and the pass counts it.
    pub fn on_access_failure(&mut self, volume_online: bool, error: String) -> (r: HashFailure)
        ensures
            !volume_online ==> r == HashFailure::VolumeOffline && *final(self) == *old(self),
            volume_online ==> r == (HashFailure::Problem { message: error, changed: false }) && *final(self)
                == (HashStats { errors: sat_add(old(self).errors, 1), ..*old(self) }),
    {
        if !volume_online {
            return HashFailure::VolumeOffline;
        }
        self.errors = self.errors.saturating_add(1);
        HashFailure::Problem { message: error, changed: false }
    }

    /// The file changed while it was read: the hash is not trusted.
    pub fn on_changed_while_reading(&mut self, kind: HashKind) -> (r: HashFailure)
        ensures
            r == (HashFailure::Problem { message: r->message, changed: true }),
            r->message@ == changed_while_reading_message(kind),
            *final(self) == (HashStats { errors: sat_add(old(self).errors, 1), ..*old(self) }),
    {
        self.errors = self.errors.saturating_add(1);
        let message = match kind {
            HashKind::Sample => "抽样期间文件发生变化；指纹已作废".to_owned(),
            HashKind::Full => "完整哈希期间文件发生变化；完整哈希未被信任".to_owned(),
        };
        HashFailure::Problem { message, changed: true }
    }

    /// A hash was computed over unchanged metadata and is attached.
    pub fn on_hashed(&mut self, kind: HashKind, bytes_read: u64)
        ensures
            kind == HashKind::Sample ==> *final(self) == (HashStats {
                sampled: sat_add(old(self).sampled, 1),
                bytes_read: sat_add(old(self).bytes_read, bytes_read as int),
                ..*old(self)
            }),
            kind == HashKind::Full ==> *final(self) == (HashStats {
                full_hashed: sat_add(old(self).full_hashed, 1),
                bytes_read: sat_add(old(self).bytes_read, bytes_read as int),
                ..*old(self)
            }),
    {
        match kind {
            HashKind::Sample => {
                self.sampled = self.sampled.saturating_add(1);
            },
            HashKind::Full => {
                self.full_hashed = self.full_hashed.saturating_add(1);
            },
        }
        self.bytes_read = self.bytes_read.saturating_add(bytes_read);
    }

    /// A copy that already had its full hash.
    pub fn on_skipped(&mut self)
        ensures
            *final(self) == (HashStats { skipped: sat_add(old(self).skipped, 1), ..*old(self) }),
    {
        self.skipped = self.skipped.saturating_add(1);
    }

    /// One more copy was considered by a complete pass.
    pub fn on_processed(&mut self)
        ensures
            *final(self) == (HashStats { processed: sat_add(old(self).processed, 1), ..*old(self) }),
    {
        self.processed = self.processed.saturating_add(1);
    }

    /// The pass was cancelled.
    pub fn interrupt(&mut self)
        ensures
            *final(self) == (HashStats { interrupted: true, ..*old(self) }),
    {
        self.interrupted = true;
    }
}

impl Default for HashStats {
    fn default() -> (r: HashStats)
        ensures
            r.processed == 0 && r.skipped == 0 && r.sampled == 0 && r.full_hashed == 0,
            r.errors == 0 && r.bytes_read == 0 && !r.interrupted,
    {
        HashStats::new()
    }
}

/// The status a copy takes when it cannot be hashed: changed when its
/// metadata moved, unreadable otherwise. Its hash state becomes failed.
pub fn problem_status(changed: bool) -> (r: (CopyStatus, HashState))
    ensures
        r.0 == if changed {
            CopyStatus::Changed
        } else {
            CopyStatus::Unreadable
        },
        r.1 == HashState::Failed,
{
    if changed {
        (CopyStatus::Changed, HashState::Failed)
    } else {
        (CopyStatus::Unreadable, HashState::Failed)
    }
}

/// The hash state after attaching hashes: full when a full hash is given,
/// sampled when only a sample is given, unchanged otherwise.
pub fn hash_state_after_attach(current: HashState, sample: &Option<String>, full: &Option<String>) -> (r: HashState)
    ensures
        r == if full is Some {
            HashState::Full
        } else if sample is Some {
            HashState::Sampled
        } else {
            current
        },
{
    if full.is_some() {
        HashState::Full
    } else if sample.is_some() {
        HashState::Sampled
    } else {
        current
    }
}

/// Candidates without a sample fingerprint get one first.
pub fn needs_sample(record: &FileRecord) -> (r: bool)
    ensures
        r == (record.sample_hash is None),
{
    record.sample_hash.is_none()
}

/// A sampled candidate is fully hashed when another copy of the same size
/// shares its fingerprint and it has no full hash yet.
pub fn needs_full_after_sample(record: &FileRecord, fingerprint_shared: bool) -> (r: bool)
    ensures
        r == (record.sample_hash is Some && record.full_hash is None && fingerprint_shared),
{
    record.sample_hash.is_some() && record.full_hash.is_none() && fingerprint_shared
}

/// A complete pass hashes every copy still without a full hash.
pub fn needs_full_hash(record: &FileRecord) -> (r: bool)
    ensures
        r == (record.full_hash is None),
{
    record.full_hash.is_none()
}

/// A complete pass covers every volume, or only the one asked for.
pub fn volume_selected(only_volume: Option<i64>, volume_id: i64) -> (r: bool)
    ensures
        r == match only_volume {
            None => true,
            Some(id) => id == volume_id,
        },
{
    match only_volume {
        None => true,
        Some(id) => id == volume_id,
    }
}

} // verus!
