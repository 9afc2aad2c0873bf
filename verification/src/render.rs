//! Stable texts for people and rows for scripts: duplicate reports, lookup
//! answers, cleanup plan summaries and the CSV layout of duplicate groups.

use vstd::prelude::*;
use crate::model::{
    CleanupPlan, CopyStatus, CopyView, DuplicateGroup, LookupResult, PlanItemStatus,
    VolumeRole,
};
use crate::report::JSON_SCHEMA_VERSION;
use crate::text::{dec_int, dec_nat, i64_text, u64_text, usize_text};
use crate::util::{human_size, size_text};

verus! {

/// The label a duplicate report gives a copy: abnormal statuses as they
/// are, an online primary copy as the one to keep, other online copies as
/// redundant, offline copies as unverified.
pub open spec fn copy_label(c: CopyView) -> Seq<char> {
    if c.status != CopyStatus::Present {
        c.status.upper_name()
    } else if c.is_online && c.role == VolumeRole::Primary {
        "KEEP_CANDIDATE"@
    } else if c.is_online {
        "REDUNDANT_CANDIDATE"@
    } else {
        "OFFLINE_UNVERIFIED"@
    }
}

fn label_of(c: &CopyView) -> (r: &'static str)
    ensures
        r@ == copy_label(*c),
{
    match c.status {
        CopyStatus::Present => {
            if c.is_online {
                match c.role {
                    VolumeRole::Primary => "KEEP_CANDIDATE",
                    _ => "REDUNDANT_CANDIDATE",
                }
            } else {
                "OFFLINE_UNVERIFIED"
            }
        },
        _ => c.status.as_upper_str(),
    }
}

pub open spec fn copy_block(c: CopyView) -> Seq<char> {
    "["@ + copy_label(c) + "]\nVolume: "@ + c.volume@ + "\nRole: "@ + c.role.name() + "\nPath: "@ + c.path@
        + "\nStatus: "@ + c.status.name() + "\n\n"@
}

pub open spec fn copy_blocks(cs: Seq<CopyView>) -> Seq<char>
    decreases cs.len(),
{
    if cs.len() == 0 {
        Seq::empty()
    } else {
        copy_blocks(cs.drop_last()) + copy_block(cs.last())
    }
}

pub open spec fn group_head(g: DuplicateGroup) -> Seq<char> {
    "Duplicate Group\nHash: "@ + g.full_hash@ + "\nSize: "@ + size_text(g.file_size) + "\nKnown copies: "@
        + dec_nat(g.known_copies as nat) + "\nPaths: "@ + dec_nat(g.path_count as nat) + "\nStorage objects: "@
        + dec_nat(g.storage_object_count as nat) + "\nLogical volumes: "@ + dec_nat(g.logical_volume_count as nat)
        + "\nVerified physical devices: "@ + dec_nat(g.verified_physical_device_count as nat)
        + "\nUnknown or unverified device identities: "@ + dec_nat(g.unknown_physical_device_count as nat)
        + "\nOnline copies: "@ + dec_nat(g.online_copies as nat) + "\nOffline copies: "@ + dec_nat(
        g.offline_copies as nat,
    ) + "\nTheoretical reclaimable (keep one): "@ + size_text(g.theoretical_reclaimable_bytes) + "\n\n"@
}

pub open spec fn group_block(g: DuplicateGroup) -> Seq<char> {
    group_head(g) + copy_blocks(g.copies@)
}

pub open spec fn group_blocks(gs: Seq<DuplicateGroup>) -> Seq<char>
    decreases gs.len(),
{
    if gs.len() == 0 {
        Seq::empty()
    } else {
        group_blocks(gs.drop_last()) + group_block(gs.last())
    }
}

pub open spec fn duplicates_text(gs: Seq<DuplicateGroup>) -> Seq<char> {
    if gs.len() == 0 {
        "未找到具有可信完整 BLAKE3 哈希的重复内容组。\n"@
    } else {
        "注意：内容重复不等于副本多余；理论可释放空间不是删除建议。\n\n"@ + group_blocks(gs)
    }
}

fn push_copy_block(out: &mut String, c: &CopyView)
    ensures
        final(out)@ == old(out)@ + copy_block(*c),
{
    out.append("[");
    out.append(label_of(c));
    out.append("]\nVolume: ");
    out.append(c.volume.as_str());
    out.append("\nRole: ");
    out.append(c.role.as_str());
    out.append("\nPath: ");
    out.append(c.path.as_str());
    out.append("\nStatus: ");
    out.append(c.status.as_str());
    out.append("\n\n");
    proof {
        assert(out@ =~= old(out)@ + copy_block(*c));
    }
}

fn push_count(out: &mut String, label: &str, n: usize)
    ensures
        final(out)@ == old(out)@ + label@ + dec_nat(n as nat),
{
    out.append(label);
    out.append(usize_text(n).as_str());
}

#[verifier::spinoff_prover]
#[verifier::rlimit(40)]
fn push_group_head(out: &mut String, g: &DuplicateGroup)
    ensures
        final(out)@ == old(out)@ + group_head(*g),
{
    let ghost start = out@;
    out.append("Duplicate Group\nHash: ");
    out.append(g.full_hash.as_str());
    out.append("\nSize: ");
    out.append(human_size(g.file_size).as_str());
    let ghost a = out@;
    push_count(out, "\nKnown copies: ", g.known_copies);
    push_count(out, "\nPaths: ", g.path_count);
    push_count(out, "\nStorage objects: ", g.storage_object_count);
    push_count(out, "\nLogical volumes: ", g.logical_volume_count);
    let ghost b = out@;
    push_count(out, "\nVerified physical devices: ", g.verified_physical_device_count);
    push_count(out, "\nUnknown or unverified device identities: ", g.unknown_physical_device_count);
    push_count(out, "\nOnline copies: ", g.online_copies);
    push_count(out, "\nOffline copies: ", g.offline_copies);
    let ghost c = out@;
    out.append("\nTheoretical reclaimable (keep one): ");
    out.append(human_size(g.theoretical_reclaimable_bytes).as_str());
    out.append("\n\n");
    proof {
        assert(out@ =~= start + group_head(*g));
    }
}

fn push_group_block(out: &mut String, g: &DuplicateGroup)
    ensures
        final(out)@ == old(out)@ + group_block(*g),
{
    let ghost start = out@;
    push_group_head(out, g);
    let ghost head = out@;
    let mut k: usize = 0;
    while k < g.copies.len()
        invariant
            k <= g.copies@.len(),
            out@ == head + copy_blocks(g.copies@.subrange(0, k as int)),
        decreases g.copies.len() - k,
    {
        push_copy_block(out, &g.copies[k]);
        proof {
            let s = g.copies@.subrange(0, k + 1);
            assert(s.drop_last() =~= g.copies@.subrange(0, k as int));
        }
        k = k + 1;
    }
    proof {
        assert(g.copies@.subrange(0, g.copies@.len() as int) =~= g.copies@);
        assert(out@ =~= start + group_block(*g));
    }
}

/// The text report of duplicate groups; it says that duplicated content is
/// not the same as a redundant copy.
pub fn render_duplicates_text(groups: &Vec<DuplicateGroup>) -> (r: String)
    ensures
        r@ == duplicates_text(groups@),
{
    if groups.len() == 0 {
        return "未找到具有可信完整 BLAKE3 哈希的重复内容组。\n".to_owned();
    }
    let mut out = "注意：内容重复不等于副本多余；理论可释放空间不是删除建议。\n\n".to_owned();
    let ghost head = out@;
    let mut k: usize = 0;
    while k < groups.len()
        invariant
            k <= groups@.len(),
            out@ == head + group_blocks(groups@.subrange(0, k as int)),
        decreases groups.len() - k,
    {
        push_group_block(&mut out, &groups[k]);
        proof {
            let s = groups@.subrange(0, k + 1);
            assert(s.drop_last() =~= groups@.subrange(0, k as int));
        }
        k = k + 1;
    }
    proof {
        assert(groups@.subrange(0, groups@.len() as int) =~= groups@);
    }
    out
}

pub open spec fn yes_no(b: bool) -> Seq<char> {
    if b {
        "是"@
    } else {
        "否"@
    }
}

pub open spec fn or_uncomputed(o: Option<String>) -> Seq<char> {
    match o {
        Some(s) => s@,
        None => "未计算"@,
    }
}

pub open spec fn lookup_copy_line(c: CopyView) -> Seq<char> {
    "- "@ + c.volume@ + ":"@ + c.path@ + " ["@ + c.status.name() + "] "@ + c.role.name() + "\n"@
}

pub open spec fn lookup_copy_lines(cs: Seq<CopyView>) -> Seq<char>
    decreases cs.len(),
{
    if cs.len() == 0 {
        Seq::empty()
    } else {
        lookup_copy_lines(cs.drop_last()) + lookup_copy_line(cs.last())
    }
}

pub open spec fn warning_lines(ws: Seq<String>) -> Seq<char>
    decreases ws.len(),
{
    if ws.len() == 0 {
        Seq::empty()
    } else {
        warning_lines(ws.drop_last()) + "警告: "@ + ws.last()@ + "\n"@
    }
}

pub open spec fn appeared_text(b: bool) -> Seq<char> {
    if b {
        "是"@
    } else {
        "否或无法精确确认"@
    }
}

pub open spec fn lookup_facts(r: LookupResult) -> Seq<char> {
    "文件: "@ + r.path@ + "\n大小: "@ + size_text(r.file_size) + "\n抽样指纹: "@ + or_uncomputed(r.sample_hash)
        + "\n完整哈希: "@ + or_uncomputed(r.full_hash) + "\n精确匹配: "@ + yes_no(r.exact) + "\n缓存状态: "@
        + r.cache_state.name()
}

pub open spec fn lookup_counts(r: LookupResult) -> Seq<char> {
    "\n索引元数据匹配: "@ + yes_no(r.metadata_matches_index) + "\n需要重新计算: "@ + yes_no(r.requires_rehash)
        + "\n索引中曾出现: "@ + appeared_text(r.has_appeared_before) + "\n已知副本: "@ + dec_nat(
        r.known_copies as nat,
    ) + "\n在线副本: "@ + dec_nat(r.online_copies as nat) + "\n离线副本: "@ + dec_nat(r.offline_copies as nat)
        + "\n"@
}

pub open spec fn lookup_head(r: LookupResult) -> Seq<char> {
    lookup_facts(r) + lookup_counts(r)
}

pub open spec fn lookup_text(r: LookupResult) -> Seq<char> {
    lookup_head(r) + lookup_copy_lines(r.copies@) + warning_lines(r.warnings@)
}

fn yes_no_str(b: bool) -> (r: &'static str)
    ensures
        r@ == yes_no(b),
{
    if b {
        "是"
    } else {
        "否"
    }
}

fn push_or_uncomputed(out: &mut String, o: &Option<String>)
    ensures
        final(out)@ == old(out)@ + or_uncomputed(*o),
{
    match o {
        Some(s) => out.append(s.as_str()),
        None => out.append("未计算"),
    }
}

fn appeared_str(b: bool) -> (r: &'static str)
    ensures
        r@ == appeared_text(b),
{
    if b {
        "是"
    } else {
        "否或无法精确确认"
    }
}

#[verifier::spinoff_prover]
#[verifier::rlimit(40)]
fn push_lookup_facts(out: &mut String, result: &LookupResult)
    ensures
        final(out)@ == old(out)@ + lookup_facts(*result),
{
    let ghost start = out@;
    out.append("文件: ");
    out.append(result.path.as_str());
    out.append("\n大小: ");
    out.append(human_size(result.file_size).as_str());
    out.append("\n抽样指纹: ");
    push_or_uncomputed(out, &result.sample_hash);
    out.append("\n完整哈希: ");
    push_or_uncomputed(out, &result.full_hash);
    out.append("\n精确匹配: ");
    out.append(yes_no_str(result.exact));
    out.append("\n缓存状态: ");
    out.append(result.cache_state.as_str());
    proof {
        assert(out@ =~= start + lookup_facts(*result));
    }
}

#[verifier::spinoff_prover]
#[verifier::rlimit(40)]
fn push_lookup_counts(out: &mut String, result: &LookupResult)
    ensures
        final(out)@ == old(out)@ + lookup_counts(*result),
{
    let ghost start = out@;
    out.append("\n索引元数据匹配: ");
    out.append(yes_no_str(result.metadata_matches_index));
    out.append("\n需要重新计算: ");
    out.append(yes_no_str(result.requires_rehash));
    out.append("\n索引中曾出现: ");
    out.append(appeared_str(result.has_appeared_before));
    out.append("\n已知副本: ");
    out.append(usize_text(result.known_copies).as_str());
    out.append("\n在线副本: ");
    out.append(usize_text(result.online_copies).as_str());
    out.append("\n离线副本: ");
    out.append(usize_text(result.offline_copies).as_str());
    out.append("\n");
    proof {
        assert(out@ =~= start + lookup_counts(*result));
    }
}

fn push_lookup_head(out: &mut String, result: &LookupResult)
    ensures
        final(out)@ == old(out)@ + lookup_head(*result),
{
    push_lookup_facts(out, result);
    push_lookup_counts(out, result);
    proof {
        assert(out@ =~= old(out)@ + lookup_head(*result));
    }
}

/// The text answer of a lookup: the file's facts, each known copy and each
/// warning.
pub fn render_lookup_text(result: &LookupResult) -> (r: String)
    ensures
        r@ == lookup_text(*result),
{
    let mut out = String::new();
    push_lookup_head(&mut out, result);
    let ghost head = out@;
    let mut k: usize = 0;
    while k < result.copies.len()
        invariant
            k <= result.copies@.len(),
            out@ == head + lookup_copy_lines(result.copies@.subrange(0, k as int)),
        decreases result.copies.len() - k,
    {
        let c = &result.copies[k];
        let ghost before = out@;
        out.append("- ");
        out.append(c.volume.as_str());
        out.append(":");
        out.append(c.path.as_str());
        out.append(" [");
        out.append(c.status.as_str());
        out.append("] ");
        out.append(c.role.as_str());
        out.append("\n");
        proof {
            let s = result.copies@.subrange(0, k + 1);
            assert(s.drop_last() =~= result.copies@.subrange(0, k as int));
            assert(out@ =~= before + lookup_copy_line(*c));
        }
        k = k + 1;
    }
    let ghost mid = out@;
    let mut w: usize = 0;
    while w < result.warnings.len()
        invariant
            w <= result.warnings@.len(),
            out@ == mid + warning_lines(result.warnings@.subrange(0, w as int)),
        decreases result.warnings.len() - w,
    {
        let ghost before = out@;
        out.append("警告: ");
        out.append(result.warnings[w].as_str());
        out.append("\n");
        proof {
            let s = result.warnings@.subrange(0, w + 1);
            assert(s.drop_last() =~= result.warnings@.subrange(0, w as int));
            assert(out@ =~= before + ("警告: "@ + result.warnings@[w as int]@ + "\n"@));
        }
        w = w + 1;
    }
    proof {
        assert(result.copies@.subrange(0, result.copies@.len() as int) =~= result.copies@);
        assert(result.warnings@.subrange(0, result.warnings@.len() as int) =~= result.warnings@);
        assert(out@ =~= lookup_text(*result));
    }
    out
}

/// A plan item still proposed for review.
pub open spec fn is_candidate_status(s: PlanItemStatus) -> bool {
    s == PlanItemStatus::CandidateUnverified || s == PlanItemStatus::VerifiedCandidate
}

/// Number of candidate items among the first `n`.
pub open spec fn candidate_count(plan: CleanupPlan, n: int) -> nat
    decreases n,
{
    if n <= 0 {
        0
    } else {
        candidate_count(plan, n - 1) + if is_candidate_status(plan.items@[n - 1].status) {
            1nat
        } else {
            0nat
        }
    }
}

pub open spec fn plan_summary_text(plan: CleanupPlan, generated_at: Seq<char>) -> Seq<char> {
    let c = candidate_count(plan, plan.items@.len() as int);
    "清理计划已生成："@ + dec_nat(c) + " 个仅供人工审核的候选项，"@ + dec_nat(
        (plan.items@.len() - c) as nat,
    ) + " 个已阻止。未对任何原始文件执行操作。生成时间: "@ + generated_at + "（UTC）\n"@
}

proof fn lemma_candidate_count_le(plan: CleanupPlan, n: int)
    requires
        0 <= n <= plan.items@.len(),
    ensures
        candidate_count(plan, n) <= n,
    decreases n,
{
    if n > 0 {
        lemma_candidate_count_le(plan, n - 1);
    }
}

/// The one-line summary of a plan: how many items await review and how many
/// are blocked; it states that no original file was touched.
pub fn render_cleanup_plan_text(plan: &CleanupPlan, generated_at: &str) -> (r: String)
    ensures
        r@ == plan_summary_text(*plan, generated_at@),
{
    let mut candidates: usize = 0;
    let mut k: usize = 0;
    while k < plan.items.len()
        invariant
            k <= plan.items@.len(),
            candidates == candidate_count(*plan, k as int),
            candidates <= k,
        decreases plan.items.len() - k,
    {
        match plan.items[k].status {
            PlanItemStatus::CandidateUnverified | PlanItemStatus::VerifiedCandidate => {
                candidates = candidates + 1;
            },
            _ => {},
        }
        k = k + 1;
    }
    let blocked: usize = plan.items.len() - candidates;
    let mut out = "清理计划已生成：".to_owned();
    out.append(usize_text(candidates).as_str());
    out.append(" 个仅供人工审核的候选项，");
    out.append(usize_text(blocked).as_str());
    out.append(" 个已阻止。未对任何原始文件执行操作。生成时间: ");
    out.append(generated_at);
    out.append("（UTC）\n");
    out
}

/// The JSON duplicate report: its schema version, when and from which index
/// it was made, the groups, and the warnings that go with them.
#[derive(Debug)]
pub struct DuplicateReport<'a> {
    pub schema_version: u32,
    pub generated_at: String,
    pub database_path: String,
    pub groups: &'a [DuplicateGroup],
    pub warnings: Vec<String>,
}

pub open spec fn report_warnings() -> Seq<Seq<char>> {
    seq![
        "内容重复不等于副本多余；物理设备统计只计入已验证的整盘身份。"@,
        "理论可释放空间按每组保留一份计算，不是安全删除建议。"@,
    ]
}

pub fn duplicate_report<'a>(database_path: String, generated_at: String, groups: &'a [DuplicateGroup]) -> (r:
    DuplicateReport<'a>)
    ensures
        r.schema_version == JSON_SCHEMA_VERSION,
        r.generated_at == generated_at,
        r.database_path == database_path,
        r.groups@ == groups@,
        r.warnings@.len() == 2,
        r.warnings@[0]@ == report_warnings()[0],
        r.warnings@[1]@ == report_warnings()[1],
{
    let mut warnings: Vec<String> = Vec::new();
    warnings.push("内容重复不等于副本多余；物理设备统计只计入已验证的整盘身份。".to_owned());
    warnings.push("理论可释放空间按每组保留一份计算，不是安全删除建议。".to_owned());
    DuplicateReport { schema_version: JSON_SCHEMA_VERSION, generated_at, database_path, groups, warnings }
}

/// Column names of the CSV duplicate report, one row per copy.
pub open spec fn csv_columns() -> Seq<Seq<char>> {
    seq![
        "full_hash"@,
        "file_size"@,
        "known_copies"@,
        "path_count"@,
        "storage_object_count"@,
        "logical_volume_count"@,
        "physical_device_count"@,
        "verified_physical_device_count"@,
        "unknown_physical_device_count"@,
        "volume_id"@,
        "volume"@,
        "role"@,
        "path"@,
        "status"@,
        "is_online"@,
        "physical_device_id"@,
        "storage_object_key"@,
    ]
}

pub fn csv_header() -> (r: Vec<String>)
    ensures
        r@.len() == csv_columns().len(),
        forall|i: int| 0 <= i < r@.len() ==> #[trigger] r@[i]@ == csv_columns()[i],
{
    let mut r: Vec<String> = Vec::new();
    r.push("full_hash".to_owned());
    r.push("file_size".to_owned());
    r.push("known_copies".to_owned());
    r.push("path_count".to_owned());
    r.push("storage_object_count".to_owned());
    r.push("logical_volume_count".to_owned());
    r.push("physical_device_count".to_owned());
    r.push("verified_physical_device_count".to_owned());
    r.push("unknown_physical_device_count".to_owned());
    r.push("volume_id".to_owned());
    r.push("volume".to_owned());
    r.push("role".to_owned());
    r.push("path".to_owned());
    r.push("status".to_owned());
    r.push("is_online".to_owned());
    r.push("physical_device_id".to_owned());
    r.push("storage_object_key".to_owned());
    proof {
        assert forall|i: int| 0 <= i < r@.len() implies #[trigger] r@[i]@ == csv_columns()[i] by {
        }
    }
    r
}

pub open spec fn bool_text(b: bool) -> Seq<char> {
    if b {
        "true"@
    } else {
        "false"@
    }
}

/// The CSV cells of one copy of a group.
pub open spec fn csv_cells(g: DuplicateGroup, c: CopyView) -> Seq<Seq<char>> {
    seq![
        g.full_hash@,
        dec_nat(g.file_size as nat),
        dec_nat(g.known_copies as nat),
        dec_nat(g.path_count as nat),
        dec_nat(g.storage_object_count as nat),
        dec_nat(g.logical_volume_count as nat),
        dec_nat(g.physical_device_count as nat),
        dec_nat(g.verified_physical_device_count as nat),
        dec_nat(g.unknown_physical_device_count as nat),
        dec_int(c.volume_id as int),
        c.volume@,
        c.role.name(),
        c.path@,
        c.status.name(),
        bool_text(c.is_online),
        match c.physical_device_id {
            Some(id) => dec_int(id as int),
            None => Seq::empty(),
        },
        match c.storage_object_key {
            Some(k) => k@,
            None => Seq::empty(),
        },
    ]
}

pub fn csv_row(g: &DuplicateGroup, c: &CopyView) -> (r: Vec<String>)
    ensures
        r@.len() == 17,
        forall|i: int| 0 <= i < 17 ==> #[trigger] r@[i]@ == csv_cells(*g, *c)[i],
{
    let mut r: Vec<String> = Vec::new();
    r.push(g.full_hash.clone());
    r.push(u64_text(g.file_size));
    r.push(usize_text(g.known_copies));
    r.push(usize_text(g.path_count));
    r.push(usize_text(g.storage_object_count));
    r.push(usize_text(g.logical_volume_count));
    r.push(usize_text(g.physical_device_count));
    r.push(usize_text(g.verified_physical_device_count));
    r.push(usize_text(g.unknown_physical_device_count));
    r.push(i64_text(c.volume_id));
    r.push(c.volume.clone());
    r.push(c.role.as_str().to_owned());
    r.push(c.path.clone());
    r.push(c.status.as_str().to_owned());
    r.push(if c.is_online {
        "true".to_owned()
    } else {
        "false".to_owned()
    });
    r.push(
        match c.physical_device_id {
            Some(id) => i64_text(id),
            None => String::new(),
        },
    );
    r.push(
        match &c.storage_object_key {
            Some(k) => k.clone(),
            None => String::new(),
        },
    );
    proof {
        assert forall|i: int| 0 <= i < 17 implies #[trigger] r@[i]@ == csv_cells(*g, *c)[i] by {
        }
    }
    r
}

/// One CSV row per copy of every group, groups in order.
pub open spec fn csv_table(gs: Seq<DuplicateGroup>) -> Seq<Seq<Seq<char>>>
    decreases gs.len(),
{
    if gs.len() == 0 {
        Seq::empty()
    } else {
        let g = gs.last();
        csv_table(gs.drop_last()) + g.copies@.map_values(|c: CopyView| csv_cells(g, c))
    }
}

pub fn csv_rows(groups: &Vec<DuplicateGroup>) -> (r: Vec<Vec<String>>)
    ensures
        r@.len() == csv_table(groups@).len(),
        forall|i: int| 0 <= i < r@.len() ==> (#[trigger] r@[i])@.len() == 17,
        forall|i: int, j: int| 0 <= i < r@.len() && 0 <= j < 17 ==> (#[trigger] r@[i]@[j])@ == csv_table(groups@)[i][j],
{
    let mut rows: Vec<Vec<String>> = Vec::new();
    let mut k: usize = 0;
    while k < groups.len()
        invariant
            k <= groups@.len(),
            rows@.len() == csv_table(groups@.subrange(0, k as int)).len(),
            forall|i: int| 0 <= i < rows@.len() ==> (#[trigger] rows@[i])@.len() == 17,
            forall|i: int, j: int|
                0 <= i < rows@.len() && 0 <= j < 17 ==> (#[trigger] rows@[i]@[j])@ == csv_table(
                    groups@.subrange(0, k as int),
                )[i][j],
        decreases groups.len() - k,
    {
        let g = &groups[k];
        let ghost base = csv_table(groups@.subrange(0, k as int));
        let ghost base_len = rows@.len();
        let mut c: usize = 0;
        while c < g.copies.len()
            invariant
                k < groups@.len(),
                *g == groups@[k as int],
                c <= g.copies@.len(),
                base_len == base.len(),
                rows@.len() == base_len + c,
                forall|i: int| 0 <= i < rows@.len() ==> (#[trigger] rows@[i])@.len() == 17,
                forall|i: int, j: int|
                    0 <= i < base_len && 0 <= j < 17 ==> (#[trigger] rows@[i]@[j])@ == base[i][j],
                forall|i: int, j: int|
                    base_len <= i < rows@.len() && 0 <= j < 17 ==> (#[trigger] rows@[i]@[j])@ == csv_cells(
                        *g,
                        g.copies@[i - base_len],
                    )[j],
            decreases g.copies.len() - c,
        {
            let row = csv_row(g, &g.copies[c]);
            rows.push(row);
            c = c + 1;
        }
        proof {
            let s = groups@.subrange(0, k + 1);
            assert(s.drop_last() =~= groups@.subrange(0, k as int));
            assert(s.last() == *g);
            let next = csv_table(s);
            assert(next == base + g.copies@.map_values(|cv: CopyView| csv_cells(*g, cv)));
            assert forall|i: int, j: int| 0 <= i < rows@.len() && 0 <= j < 17 implies (#[trigger] rows@[i]@[j])@
                == next[i][j] by {
                if i >= base_len {
                    assert(next[i] == csv_cells(*g, g.copies@[i - base_len]));
                } else {
                    assert(next[i] == base[i]);
                }
            }
        }
        k = k + 1;
    }
    proof {
        assert(groups@.subrange(0, groups@.len() as int) =~= groups@);
    }
    rows
}

} // verus!
