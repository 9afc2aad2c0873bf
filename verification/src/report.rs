//! Read-only cleanup plans: which copy on the target volume could be offered
//! for human review, and every reason that blocks it.

use vstd::prelude::*;
use crate::duplicate::{
    copy_identity, identity_set, online_present, storage_object_identity, tally_matches,
    verified_device_set, volume_set, GroupTally,
};
use crate::model::{
    clone_copy_views, clone_strings, CheckState, CleanupPlan, CleanupPlanItem, CopyView, DuplicateGroup,
    PhysicalDeviceIdentityState, PlanItemStatus, VerificationMode,
};
use crate::text::{dec_nat, usize_text, lex_le, lemma_lex_total, lemma_lex_transitive, lemma_lex_reflexive, string_le, contains_seq, str_contains};

verus! {

/// Version of the JSON report and plan formats.
pub const JSON_SCHEMA_VERSION: u32 = 1;

/// Safety thresholds and re-checks of a cleanup plan.
#[derive(Debug, Clone, Copy)]
pub struct CleanupVerificationOptions {
    pub min_remaining_physical_devices: usize,
    pub verify_metadata: bool,
    pub verify_full_hash: bool,
}

impl CleanupVerificationOptions {
    /// At least one verified physical device, no re-checks.
    pub fn default_options() -> (r: CleanupVerificationOptions)
        ensures
            r.min_remaining_physical_devices == 1,
            !r.verify_metadata,
            !r.verify_full_hash,
    {
        CleanupVerificationOptions {
            min_remaining_physical_devices: 1,
            verify_metadata: false,
            verify_full_hash: false,
        }
    }
}

impl Default for CleanupVerificationOptions {
    fn default() -> (r: CleanupVerificationOptions)
        ensures
            r.min_remaining_physical_devices == 1,
            !r.verify_metadata,
            !r.verify_full_hash,
    {
        CleanupVerificationOptions::default_options()
    }
}

/// The thresholds must each be at least one; the message names the first
/// violated option.
pub fn check_plan_limits(min_remaining_copies: usize, options: &CleanupVerificationOptions) -> (r: Result<(), String>)
    ensures
        r is Ok <==> min_remaining_copies >= 1 && options.min_remaining_physical_devices >= 1,
        r matches Err(e) ==> e@ == if min_remaining_copies == 0 {
            "--min-remaining-copies 必须至少为 1"@
        } else {
            "--min-remaining-physical-devices 必须至少为 1"@
        },
{
    if min_remaining_copies == 0 {
        return Err("--min-remaining-copies 必须至少为 1".to_owned());
    }
    if options.min_remaining_physical_devices == 0 {
        return Err("--min-remaining-physical-devices 必须至少为 1".to_owned());
    }
    Ok(())
}

/// Copies on the keep volume that are online and present.
pub open spec fn keepers(cs: Seq<CopyView>, keep_volume_id: i64) -> Seq<CopyView>
    decreases cs.len(),
{
    if cs.len() == 0 {
        Seq::empty()
    } else if cs.last().volume_id == keep_volume_id && online_present(cs.last()) {
        keepers(cs.drop_last(), keep_volume_id).push(cs.last())
    } else {
        keepers(cs.drop_last(), keep_volume_id)
    }
}

/// Online, present copies other than the candidate.
pub open spec fn remaining(cs: Seq<CopyView>, candidate_id: i64) -> Seq<CopyView>
    decreases cs.len(),
{
    if cs.len() == 0 {
        Seq::empty()
    } else if cs.last().file_copy_id != candidate_id && online_present(cs.last()) {
        remaining(cs.drop_last(), candidate_id).push(cs.last())
    } else {
        remaining(cs.drop_last(), candidate_id)
    }
}

/// Copies whose physical device identity is not verified.
pub open spec fn unverified_identity(cs: Seq<CopyView>) -> Seq<CopyView>
    decreases cs.len(),
{
    if cs.len() == 0 {
        Seq::empty()
    } else if cs.last().physical_identity_state != PhysicalDeviceIdentityState::Verified {
        unverified_identity(cs.drop_last()).push(cs.last())
    } else {
        unverified_identity(cs.drop_last())
    }
}

/// Copies on the target volume.
pub open spec fn on_volume(cs: Seq<CopyView>, volume_id: i64) -> Seq<CopyView>
    decreases cs.len(),
{
    if cs.len() == 0 {
        Seq::empty()
    } else if cs.last().volume_id == volume_id {
        on_volume(cs.drop_last(), volume_id).push(cs.last())
    } else {
        on_volume(cs.drop_last(), volume_id)
    }
}

pub open spec fn msg_candidate_absent() -> Seq<char> {
    "目标副本不是当前在线且存在的文件。"@
}

pub open spec fn msg_no_keeper() -> Seq<char> {
    "指定保留卷没有在线、可验证的完整哈希副本。"@
}

pub open spec fn msg_too_few_objects(left: nat, required: nat) -> Seq<char> {
    "移除此路径后仅剩 "@ + dec_nat(left) + " 个在线独立存储对象，少于要求的 "@ + dec_nat(required)
        + " 个。"@
}

pub open spec fn msg_too_few_devices(left: nat, required: nat) -> Seq<char> {
    "移除此路径后仅剩 "@ + dec_nat(left) + " 个已验证物理设备，少于要求的 "@ + dec_nat(required)
        + " 个；未知或推断身份不计入安全阈值。"@
}

pub open spec fn msg_hard_link() -> Seq<char> {
    "目标路径与同一存储对象的另一硬链接共享数据；删除该路径不会释放完整文件空间。"@
}

pub open spec fn risk_notice_text() -> Seq<char> {
    "本计划只提供人工审核候选项，工具不会删除、移动或修改原始文件。内容重复不等于备份冗余。"@
}

/// Appends `msg` when `cond` holds.
pub open spec fn when(cond: bool, msg: Seq<char>) -> Seq<Seq<char>> {
    if cond { seq![msg] } else { Seq::empty() }
}

/// Every reason that blocks offering `candidate` for review, in order.
pub open spec fn blocked_reasons_for(
    candidate: CopyView,
    keep: Seq<CopyView>,
    rest: Seq<CopyView>,
    min_copies: nat,
    min_devices: nat,
) -> Seq<Seq<char>> {
    let objects = identity_set(rest).len();
    let devices = verified_device_set(rest).len();
    when(!online_present(candidate), msg_candidate_absent()) + when(keep.len() == 0, msg_no_keeper())
        + when(objects < min_copies, msg_too_few_objects(objects, min_copies)) + when(
        devices < min_devices,
        msg_too_few_devices(devices, min_devices),
    ) + when(identity_set(rest).contains(copy_identity(candidate)), msg_hard_link())
}

/// The text views of a list of strings.
pub open spec fn texts(v: Seq<String>) -> Seq<Seq<char>> {
    v.map_values(|s: String| s@)
}

/// `item` is the unverified plan entry for deleting `candidate` from `group`.
pub open spec fn is_plan_item_for(
    item: CleanupPlanItem,
    group: DuplicateGroup,
    candidate: CopyView,
    keep_volume_id: i64,
    min_copies: nat,
    min_devices: nat,
    generated_at: String,
    schema_version: i64,
) -> bool {
    let cs = group.copies@;
    let keep = keepers(cs, keep_volume_id);
    let rest = remaining(cs, candidate.file_copy_id);
    let reasons = blocked_reasons_for(candidate, keep, rest, min_copies, min_devices);
    &&& item.full_hash == group.full_hash
    &&& item.file_size == group.file_size
    &&& item.candidate_delete == candidate
    &&& item.keep_candidates@ == keep
    &&& item.all_known_copies@ == cs
    &&& item.all_remaining_candidates@ == rest
    &&& item.verified_remaining_copies@.len() == 0
    &&& item.failed_remaining_copies@.len() == 0
    &&& item.unknown_identity_copies@ == unverified_identity(rest)
    &&& item.generated_at == generated_at
    &&& item.database_schema_version == schema_version
    &&& item.status == if reasons.len() == 0 {
        PlanItemStatus::CandidateUnverified
    } else {
        PlanItemStatus::Blocked
    }
    &&& item.verification_mode == VerificationMode::NoCheck
    &&& item.verified_at is None
    &&& item.remaining_path_copies == rest.len()
    &&& item.remaining_storage_objects == identity_set(rest).len()
    &&& item.remaining_volumes == volume_set(rest).len()
    &&& item.remaining_physical_devices == verified_device_set(rest).len()
    &&& item.verified_remaining_path_copies == 0
    &&& item.verified_remaining_storage_objects == 0
    &&& item.verified_remaining_logical_volumes == 0
    &&& item.verified_remaining_physical_devices == 0
    &&& item.candidate_metadata_state == CheckState::Unverified
    &&& item.keeper_metadata_state == CheckState::Unverified
    &&& item.verification_failures@.len() == 0
    &&& item.physical_identity_warnings@.len() == 0
    &&& texts(item.blocked_reasons@) == reasons
    &&& item.risk_notice@ == risk_notice_text()
}

/// The (group, candidate) pairs of a plan: each copy on the target volume of
/// each group, group by group.
pub open spec fn plan_pairs(gs: Seq<DuplicateGroup>, target_volume_id: i64) -> Seq<(DuplicateGroup, CopyView)>
    decreases gs.len(),
{
    if gs.len() == 0 {
        Seq::empty()
    } else {
        let g = gs.last();
        plan_pairs(gs.drop_last(), target_volume_id) + on_volume(g.copies@, target_volume_id).map_values(
            |c: CopyView| (g, c),
        )
    }
}

/// Copies satisfying the keep-candidate condition, in order.
fn select_keepers(cs: &Vec<CopyView>, keep_volume_id: i64) -> (r: Vec<CopyView>)
    ensures
        r@ == keepers(cs@, keep_volume_id),
{
    let mut out: Vec<CopyView> = Vec::new();
    let mut i: usize = 0;
    proof {
        assert(cs@.subrange(0, 0) =~= Seq::<CopyView>::empty());
    }
    while i < cs.len()
        invariant
            i <= cs@.len(),
            out@ == keepers(cs@.subrange(0, i as int), keep_volume_id),
        decreases cs.len() - i,
    {
        proof {
            let after = cs@.subrange(0, i + 1);
            assert(after.drop_last() =~= cs@.subrange(0, i as int));
            assert(after.last() == cs@[i as int]);
        }
        let c = &cs[i];
        if c.volume_id == keep_volume_id && c.is_online && c.status.is_present() {
            out.push(c.copy_of());
        }
        i = i + 1;
    }
    proof {
        assert(cs@.subrange(0, cs@.len() as int) =~= cs@);
    }
    out
}

/// Online, present copies other than `candidate_id`, in order.
fn select_remaining(cs: &Vec<CopyView>, candidate_id: i64) -> (r: Vec<CopyView>)
    ensures
        r@ == remaining(cs@, candidate_id),
{
    let mut out: Vec<CopyView> = Vec::new();
    let mut i: usize = 0;
    proof {
        assert(cs@.subrange(0, 0) =~= Seq::<CopyView>::empty());
    }
    while i < cs.len()
        invariant
            i <= cs@.len(),
            out@ == remaining(cs@.subrange(0, i as int), candidate_id),
        decreases cs.len() - i,
    {
        proof {
            let after = cs@.subrange(0, i + 1);
            assert(after.drop_last() =~= cs@.subrange(0, i as int));
            assert(after.last() == cs@[i as int]);
        }
        let c = &cs[i];
        if c.file_copy_id != candidate_id && c.is_online && c.status.is_present() {
            out.push(c.copy_of());
        }
        i = i + 1;
    }
    proof {
        assert(cs@.subrange(0, cs@.len() as int) =~= cs@);
    }
    out
}

/// Copies whose physical identity is not verified, in order.
fn select_unverified_identity(cs: &Vec<CopyView>) -> (r: Vec<CopyView>)
    ensures
        r@ == unverified_identity(cs@),
{
    let mut out: Vec<CopyView> = Vec::new();
    let mut i: usize = 0;
    proof {
        assert(cs@.subrange(0, 0) =~= Seq::<CopyView>::empty());
    }
    while i < cs.len()
        invariant
            i <= cs@.len(),
            out@ == unverified_identity(cs@.subrange(0, i as int)),
        decreases cs.len() - i,
    {
        proof {
            let after = cs@.subrange(0, i + 1);
            assert(after.drop_last() =~= cs@.subrange(0, i as int));
            assert(after.last() == cs@[i as int]);
        }
        let c = &cs[i];
        if !c.physical_identity_state.is_verified() {
            out.push(c.copy_of());
        }
        i = i + 1;
    }
    proof {
        assert(cs@.subrange(0, cs@.len() as int) =~= cs@);
    }
    out
}

/// Distinct storage objects, volumes and verified devices of some copies.
fn tally_copies(cs: &Vec<CopyView>) -> (r: GroupTally)
    ensures
        tally_matches(r, cs@),
{
    let mut tally = GroupTally::new();
    let mut j: usize = 0;
    proof {
        assert(cs@.subrange(0, 0) =~= Seq::<CopyView>::empty());
    }
    while j < cs.len()
        invariant
            j <= cs@.len(),
            tally_matches(tally, cs@.subrange(0, j as int)),
        decreases cs.len() - j,
    {
        proof {
            assert(cs@.subrange(0, j + 1) =~= cs@.subrange(0, j as int).push(cs@[j as int]));
        }
        tally.add(&cs[j], Ghost(cs@.subrange(0, j as int)));
        j = j + 1;
    }
    proof {
        assert(cs@.subrange(0, cs@.len() as int) =~= cs@);
    }
    tally
}

/// Whether some string of the list has the same text as `x`.
fn strings_contain(v: &Vec<String>, x: &String) -> (r: bool)
    ensures
        r == texts(v@).contains(x@),
{
    let mut i: usize = 0;
    while i < v.len()
        invariant
            i <= v@.len(),
            forall|j: int| 0 <= j < i ==> v@[j]@ != x@,
        decreases v.len() - i,
    {
        if v[i] == *x {
            proof {
                assert(texts(v@)[i as int] == x@);
            }
            return true;
        }
        i = i + 1;
    }
    proof {
        if texts(v@).contains(x@) {
            let k = choose|k: int| 0 <= k < texts(v@).len() && texts(v@)[k] == x@;
            assert(v@[k]@ == x@);
        }
    }
    false
}

/// The message for too few remaining storage objects.
fn too_few_objects_message(left: usize, required: usize) -> (r: String)
    ensures
        r@ == msg_too_few_objects(left as nat, required as nat),
{
    let mut m = "移除此路径后仅剩 ".to_owned();
    m.append(usize_text(left).as_str());
    m.append(" 个在线独立存储对象，少于要求的 ");
    m.append(usize_text(required).as_str());
    m.append(" 个。");
    m
}

/// The message for too few remaining verified devices.
fn too_few_devices_message(left: usize, required: usize) -> (r: String)
    ensures
        r@ == msg_too_few_devices(left as nat, required as nat),
{
    let mut m = "移除此路径后仅剩 ".to_owned();
    m.append(usize_text(left).as_str());
    m.append(" 个已验证物理设备，少于要求的 ");
    m.append(usize_text(required).as_str());
    m.append(" 个；未知或推断身份不计入安全阈值。");
    m
}

/// The unverified plan entry for deleting `candidate` from `group`.
pub fn plan_item(
    group: &DuplicateGroup,
    candidate: &CopyView,
    keep_volume_id: i64,
    min_remaining_copies: usize,
    min_remaining_physical_devices: usize,
    generated_at: &String,
    schema_version: i64,
) -> (r: CleanupPlanItem)
    ensures
        is_plan_item_for(
            r,
            *group,
            *candidate,
            keep_volume_id,
            min_remaining_copies as nat,
            min_remaining_physical_devices as nat,
            *generated_at,
            schema_version,
        ),
{
    let keep_candidates = select_keepers(&group.copies, keep_volume_id);
    let rest = select_remaining(&group.copies, candidate.file_copy_id);
    let tally = tally_copies(&rest);
    proof {
        tally.objects@.map_values(|s: String| s@).unique_seq_to_set();
        tally.volumes@.unique_seq_to_set();
        tally.verified_devices@.unique_seq_to_set();
    }
    let objects = tally.objects.len();
    let devices = tally.verified_devices.len();
    let candidate_object = storage_object_identity(candidate);
    let shares = strings_contain(&tally.objects, &candidate_object);
    let ghost keep = keep_candidates@;
    let ghost rs = rest@;
    let mut reasons: Vec<String> = Vec::new();
    let candidate_live = candidate.is_online && candidate.status.is_present();
    if !candidate_live {
        reasons.push("目标副本不是当前在线且存在的文件。".to_owned());
    }
    let ghost r1 = texts(reasons@);
    if keep_candidates.len() == 0 {
        reasons.push("指定保留卷没有在线、可验证的完整哈希副本。".to_owned());
    }
    let ghost r2 = texts(reasons@);
    if objects < min_remaining_copies {
        reasons.push(too_few_objects_message(objects, min_remaining_copies));
    }
    let ghost r3 = texts(reasons@);
    if devices < min_remaining_physical_devices {
        reasons.push(too_few_devices_message(devices, min_remaining_physical_devices));
    }
    let ghost r4 = texts(reasons@);
    if shares {
        reasons.push("目标路径与同一存储对象的另一硬链接共享数据；删除该路径不会释放完整文件空间。".to_owned());
    }
    proof {
        let min_c = min_remaining_copies as nat;
        let min_d = min_remaining_physical_devices as nat;
        assert(r1 =~= when(!online_present(*candidate), msg_candidate_absent()));
        assert(r2 =~= r1 + when(keep.len() == 0, msg_no_keeper()));
        assert(r3 =~= r2 + when(identity_set(rs).len() < min_c, msg_too_few_objects(identity_set(rs).len(), min_c)));
        assert(r4 =~= r3 + when(verified_device_set(rs).len() < min_d, msg_too_few_devices(verified_device_set(rs).len(), min_d)));
        assert(texts(reasons@) =~= r4 + when(identity_set(rs).contains(copy_identity(*candidate)), msg_hard_link()));
    }
    let status = if reasons.len() == 0 {
        PlanItemStatus::CandidateUnverified
    } else {
        PlanItemStatus::Blocked
    };
    let unknown = select_unverified_identity(&rest);
    let remaining_count = rest.len();
    let all_known = clone_copy_views(&group.copies);
    CleanupPlanItem {
        full_hash: group.full_hash.clone(),
        file_size: group.file_size,
        candidate_delete: candidate.copy_of(),
        keep_candidates,
        all_known_copies: all_known,
        all_remaining_candidates: rest,
        verified_remaining_copies: Vec::new(),
        failed_remaining_copies: Vec::new(),
        unknown_identity_copies: unknown,
        generated_at: generated_at.clone(),
        database_schema_version: schema_version,
        status,
        verification_mode: VerificationMode::NoCheck,
        verified_at: None,
        remaining_path_copies: remaining_count,
        remaining_storage_objects: objects,
        remaining_volumes: tally.volumes.len(),
        remaining_physical_devices: devices,
        verified_remaining_path_copies: 0,
        verified_remaining_storage_objects: 0,
        verified_remaining_logical_volumes: 0,
        verified_remaining_physical_devices: 0,
        candidate_metadata_state: CheckState::Unverified,
        keeper_metadata_state: CheckState::Unverified,
        verification_failures: Vec::new(),
        physical_identity_warnings: Vec::new(),
        blocked_reasons: reasons,
        risk_notice: "本计划只提供人工审核候选项，工具不会删除、移动或修改原始文件。内容重复不等于备份冗余。".to_owned(),
    }
}


/// The plan entries, one per copy on the target volume, group by group.
pub fn cleanup_items(
    groups: &Vec<DuplicateGroup>,
    target_volume_id: i64,
    keep_volume_id: i64,
    min_remaining_copies: usize,
    min_remaining_physical_devices: usize,
    generated_at: &String,
    schema_version: i64,
) -> (r: Vec<CleanupPlanItem>)
    ensures
        r@.len() == plan_pairs(groups@, target_volume_id).len(),
        forall|k: int|
            0 <= k < r@.len() ==> is_plan_item_for(
                #[trigger] r@[k],
                plan_pairs(groups@, target_volume_id)[k].0,
                plan_pairs(groups@, target_volume_id)[k].1,
                keep_volume_id,
                min_remaining_copies as nat,
                min_remaining_physical_devices as nat,
                *generated_at,
                schema_version,
            ),
{
    let mut items: Vec<CleanupPlanItem> = Vec::new();
    let mut i: usize = 0;
    proof {
        assert(groups@.subrange(0, 0) =~= Seq::<DuplicateGroup>::empty());
    }
    while i < groups.len()
        invariant
            i <= groups@.len(),
            items@.len() == plan_pairs(groups@.subrange(0, i as int), target_volume_id).len(),
            forall|k: int|
                0 <= k < items@.len() ==> is_plan_item_for(
                    #[trigger] items@[k],
                    plan_pairs(groups@.subrange(0, i as int), target_volume_id)[k].0,
                    plan_pairs(groups@.subrange(0, i as int), target_volume_id)[k].1,
                    keep_volume_id,
                    min_remaining_copies as nat,
                    min_remaining_physical_devices as nat,
                    *generated_at,
                    schema_version,
                ),
        decreases groups.len() - i,
    {
        let g = &groups[i];
        let ghost base = plan_pairs(groups@.subrange(0, i as int), target_volume_id);
        let mut j: usize = 0;
        proof {
            assert(g.copies@.subrange(0, 0) =~= Seq::<CopyView>::empty());
            assert(on_volume(Seq::<CopyView>::empty(), target_volume_id).map_values(|c: CopyView| (*g, c)) =~= Seq::empty());
            assert(base + Seq::<(DuplicateGroup, CopyView)>::empty() =~= base);
        }
        while j < g.copies.len()
            invariant
                i < groups@.len(),
                *g == groups@[i as int],
                j <= g.copies@.len(),
                base == plan_pairs(groups@.subrange(0, i as int), target_volume_id),
                items@.len() == base.len() + on_volume(g.copies@.subrange(0, j as int), target_volume_id).len(),
                forall|k: int|
                    0 <= k < items@.len() ==> is_plan_item_for(
                        #[trigger] items@[k],
                        (base + on_volume(g.copies@.subrange(0, j as int), target_volume_id).map_values(|c: CopyView| (*g, c)))[k].0,
                        (base + on_volume(g.copies@.subrange(0, j as int), target_volume_id).map_values(|c: CopyView| (*g, c)))[k].1,
                        keep_volume_id,
                        min_remaining_copies as nat,
                        min_remaining_physical_devices as nat,
                        *generated_at,
                        schema_version,
                    ),
            decreases g.copies.len() - j,
        {
            let ghost before = g.copies@.subrange(0, j as int);
            let ghost after = g.copies@.subrange(0, j + 1);
            let ghost old_pairs = base + on_volume(before, target_volume_id).map_values(|c: CopyView| (*g, c));
            proof {
                assert(after.drop_last() =~= before);
                assert(after.last() == g.copies@[j as int]);
            }
            let c = &g.copies[j];
            if c.volume_id == target_volume_id {
                let item = plan_item(
                    g,
                    c,
                    keep_volume_id,
                    min_remaining_copies,
                    min_remaining_physical_devices,
                    generated_at,
                    schema_version,
                );
                let ghost old_items = items@;
                items.push(item);
                proof {
                    let new_pairs = base + on_volume(after, target_volume_id).map_values(|c: CopyView| (*g, c));
                    assert(on_volume(after, target_volume_id) == on_volume(before, target_volume_id).push(*c));
                    assert(new_pairs =~= old_pairs.push((*g, *c)));
                    assert forall|k: int| 0 <= k < items@.len() implies is_plan_item_for(
                        #[trigger] items@[k],
                        new_pairs[k].0,
                        new_pairs[k].1,
                        keep_volume_id,
                        min_remaining_copies as nat,
                        min_remaining_physical_devices as nat,
                        *generated_at,
                        schema_version,
                    ) by {
                        if k < old_items.len() {
                            assert(items@[k] == old_items[k]);
                            assert(new_pairs[k] == old_pairs[k]);
                        }
                    }
                }
            } else {
                proof {
                    assert(on_volume(after, target_volume_id) == on_volume(before, target_volume_id));
                }
            }
            j = j + 1;
        }
        proof {
            let after = groups@.subrange(0, i + 1);
            assert(after.drop_last() =~= groups@.subrange(0, i as int));
            assert(after.last() == *g);
            assert(g.copies@.subrange(0, g.copies@.len() as int) =~= g.copies@);
            assert(plan_pairs(after, target_volume_id) == base + on_volume(g.copies@, target_volume_id).map_values(|c: CopyView| (*g, c)));
        }
        i = i + 1;
    }
    proof {
        assert(groups@.subrange(0, groups@.len() as int) =~= groups@);
    }
    items
}

pub open spec fn plan_warning_recheck() -> Seq<char> {
    "计划只依据当前数据库和在线状态；生成后应在人工操作前再次验证文件。"@
}

pub open spec fn plan_warning_no_delete() -> Seq<char> {
    "该工具没有也不会在本阶段提供永久删除或移动命令。"@
}

/// An unverified cleanup plan over the duplicate groups of the index: one
/// entry per copy on the target volume, each blocked unless every safety
/// condition holds.
pub fn build_cleanup_plan(
    database_path: String,
    groups: &Vec<DuplicateGroup>,
    target_volume_id: i64,
    keep_volume_id: i64,
    min_remaining_copies: usize,
    options: &CleanupVerificationOptions,
    schema_version: i64,
    generated_at: String,
) -> (r: CleanupPlan)
    ensures
        r.schema_version == schema_version,
        r.generated_at == generated_at,
        r.database_path == database_path,
        r.target_volume_id == target_volume_id,
        r.keep_volume_id == keep_volume_id,
        r.min_remaining_copies == min_remaining_copies,
        r.min_remaining_physical_devices == options.min_remaining_physical_devices,
        r.verification_mode == VerificationMode::NoCheck,
        r.verification_protocol_version == 1,
        r.verified_at is None,
        !r.cancelled,
        r.completed_items == 0,
        r.blocked_items == 0,
        r.verified_items == 0,
        texts(r.warnings@) == seq![plan_warning_recheck(), plan_warning_no_delete()],
        r.items@.len() == plan_pairs(groups@, target_volume_id).len(),
        forall|k: int|
            0 <= k < r.items@.len() ==> is_plan_item_for(
                #[trigger] r.items@[k],
                plan_pairs(groups@, target_volume_id)[k].0,
                plan_pairs(groups@, target_volume_id)[k].1,
                keep_volume_id,
                min_remaining_copies as nat,
                options.min_remaining_physical_devices as nat,
                generated_at,
                schema_version,
            ),
{
    let items = cleanup_items(
        groups,
        target_volume_id,
        keep_volume_id,
        min_remaining_copies,
        options.min_remaining_physical_devices,
        &generated_at,
        schema_version,
    );
    let mut warnings: Vec<String> = Vec::new();
    warnings.push("计划只依据当前数据库和在线状态；生成后应在人工操作前再次验证文件。".to_owned());
    warnings.push("该工具没有也不会在本阶段提供永久删除或移动命令。".to_owned());
    proof {
        assert(texts(warnings@) =~= seq![plan_warning_recheck(), plan_warning_no_delete()]);
    }
    CleanupPlan {
        schema_version,
        generated_at,
        database_path,
        target_volume_id,
        keep_volume_id,
        min_remaining_copies,
        min_remaining_physical_devices: options.min_remaining_physical_devices,
        verification_mode: VerificationMode::NoCheck,
        verification_protocol_version: 1,
        verified_at: None,
        cancelled: false,
        completed_items: 0,
        blocked_items: 0,
        verified_items: 0,
        warnings,
        items,
    }
}


/// The outcome of re-checking one copy against the file system.
#[derive(Debug, Clone)]
pub struct CopyCheck {
    pub verified: bool,
    pub failure: Option<String>,
}

/// The failure text of a check, with a fallback for an unexplained failure.
pub open spec fn fail_text(c: CopyCheck) -> Seq<char> {
    match c.failure {
        Some(f) => f@,
        None => "未知验证错误"@,
    }
}

impl CopyCheck {
    pub fn failure_message(&self) -> (r: String)
        ensures
            r@ == fail_text(*self),
    {
        match &self.failure {
            Some(f) => f.clone(),
            None => "未知验证错误".to_owned(),
        }
    }
}

/// Strict lexicographic order.
pub open spec fn lex_lt(a: Seq<char>, b: Seq<char>) -> bool {
    lex_le(a, b) && a != b
}

/// The first copy with the given storage identity.
pub open spec fn first_with(cs: Seq<CopyView>, key: Seq<char>) -> Option<CopyView>
    decreases cs.len(),
{
    if cs.len() == 0 {
        None
    } else {
        let f = first_with(cs.drop_last(), key);
        if f is Some {
            f
        } else if copy_identity(cs.last()) == key {
            Some(cs.last())
        } else {
            None
        }
    }
}

proof fn lemma_first_with_some(cs: Seq<CopyView>, key: Seq<char>)
    ensures
        first_with(cs, key) is Some <==> identity_set(cs).contains(key),
        first_with(cs, key) matches Some(c) ==> copy_identity(c) == key,
    decreases cs.len(),
{
    if cs.len() > 0 {
        lemma_first_with_some(cs.drop_last(), key);
    }
}

/// `reps` holds one representative per storage object of `cs`, ordered by
/// identity: the first copy that occupies it.
pub open spec fn representatives_of(reps: Seq<(String, CopyView)>, cs: Seq<CopyView>) -> bool {
    &&& forall|i: int| 0 <= i < reps.len() ==> (#[trigger] reps[i]).0@ == copy_identity(reps[i].1)
    &&& forall|i: int, j: int| 0 <= i < j < reps.len() ==> lex_lt((#[trigger] reps[i]).0@, (#[trigger] reps[j]).0@)
    &&& forall|i: int| 0 <= i < reps.len() ==> first_with(cs, (#[trigger] reps[i]).0@) == Some(reps[i].1)
    &&& reps.map_values(|p: (String, CopyView)| p.0@).to_set() == identity_set(cs)
}

/// One representative copy per storage object, ordered by storage identity.
pub fn storage_representatives(copies: &Vec<CopyView>) -> (r: Vec<(String, CopyView)>)
    ensures
        representatives_of(r@, copies@),
{
    let mut out: Vec<(String, CopyView)> = Vec::new();
    let mut i: usize = 0;
    proof {
        assert(copies@.subrange(0, 0) =~= Seq::<CopyView>::empty());
        assert(out@.map_values(|p: (String, CopyView)| p.0@).to_set() =~= Set::empty());
    }
    while i < copies.len()
        invariant
            i <= copies@.len(),
            representatives_of(out@, copies@.subrange(0, i as int)),
        decreases copies.len() - i,
    {
        let ghost before = copies@.subrange(0, i as int);
        let ghost after = copies@.subrange(0, i + 1);
        proof {
            assert(after.drop_last() =~= before);
            assert(after.last() == copies@[i as int]);
        }
        let c = &copies[i];
        let key = storage_object_identity(c);
        let mut p: usize = 0;
        let mut exists = false;
        while p < out.len()
            invariant_except_break
                !exists,
            invariant
                p <= out@.len(),
                forall|k: int| 0 <= k < p ==> lex_lt(#[trigger] out@[k].0@, key@),
            ensures
                p <= out@.len(),
                forall|k: int| 0 <= k < p ==> lex_lt(#[trigger] out@[k].0@, key@),
                exists ==> p < out@.len() && out@[p as int].0@ == key@,
                !exists ==> (p < out@.len() ==> !lex_le(out@[p as int].0@, key@)),
            decreases out.len() - p,
        {
            if out[p].0 == key {
                exists = true;
                break;
            }
            if !string_le(&out[p].0, &key) {
                break;
            }
            p = p + 1;
        }
        let ghost old_out = out@;
        let ghost keys = old_out.map_values(|q: (String, CopyView)| q.0@);
        proof {
            lemma_first_with_some(before, key@);
            lemma_first_with_some(after, key@);
            assert forall|k: int| 0 <= k < old_out.len() implies first_with(after, (#[trigger] old_out[k]).0@) == first_with(before, old_out[k].0@) by {
                assert(keys[k] == old_out[k].0@);
                assert(identity_set(before).contains(old_out[k].0@));
                lemma_first_with_some(before, old_out[k].0@);
            }
        }
        if exists {
            proof {
                assert(keys[p as int] == key@);
                assert(identity_set(before).contains(key@));
                assert(identity_set(after) =~= identity_set(before).insert(key@));
                assert(identity_set(after) =~= identity_set(before));
            }
        } else {
            proof {
                assert(!identity_set(before).contains(key@)) by {
                    if identity_set(before).contains(key@) {
                        assert(keys.to_set().contains(key@));
                        let k = choose|k: int| 0 <= k < keys.len() && keys[k] == key@;
                        assert(keys[k] == old_out[k].0@);
                        lemma_lex_reflexive(key@);
                        if k < p {
                            assert(lex_lt(old_out[k].0@, key@));
                        } else if k == p {
                        } else {
                            assert(lex_lt(old_out[p as int].0@, old_out[k].0@));
                            lemma_lex_total(old_out[p as int].0@, key@);
                        }
                    }
                }
                if p < old_out.len() {
                    lemma_lex_total(old_out[p as int].0@, key@);
                }
            }
            out.insert(p, (key, c.copy_of()));
            proof {
                let no = out@;
                assert(no == old_out.insert(p as int, no[p as int]));
                assert(no[p as int].0@ == copy_identity(*c));
                assert(first_with(after, no[p as int].0@) == Some(*c));
                assert forall|x: int, y: int| 0 <= x < y < no.len() implies lex_lt((#[trigger] no[x]).0@, (#[trigger] no[y]).0@) by {
                    if y < p {
                        assert(no[x] == old_out[x] && no[y] == old_out[y]);
                    } else if y == p {
                        assert(no[x] == old_out[x]);
                    } else if x == p {
                        assert(no[y] == old_out[y - 1]);
                        assert(lex_le(key@, old_out[p as int].0@));
                        if y - 1 > p {
                            assert(lex_lt(old_out[p as int].0@, old_out[y - 1].0@));
                            lemma_lex_transitive(key@, old_out[p as int].0@, old_out[y - 1].0@);
                        }
                        assert(keys[y - 1] == old_out[y - 1].0@);
                        assert(keys.to_set().contains(old_out[y - 1].0@));
                    } else if x < p {
                        assert(no[x] == old_out[x] && no[y] == old_out[y - 1]);
                    } else {
                        assert(no[x] == old_out[x - 1] && no[y] == old_out[y - 1]);
                    }
                }
                assert forall|k: int| 0 <= k < no.len() implies first_with(after, (#[trigger] no[k]).0@) == Some(no[k].1) by {
                    if k < p {
                        assert(no[k] == old_out[k]);
                    } else if k > p {
                        assert(no[k] == old_out[k - 1]);
                    }
                }
                let nkeys = no.map_values(|q: (String, CopyView)| q.0@);
                assert(nkeys =~= keys.insert(p as int, key@));
                vstd::seq_lib::to_multiset_insert(keys, p as int, key@);
                assert(nkeys.to_set() =~= keys.to_set().insert(key@)) by {
                    assert forall|z: Seq<char>| nkeys.to_set().contains(z) <==> keys.to_set().insert(key@).contains(z) by {
                        if nkeys.to_set().contains(z) {
                            let k = choose|k: int| 0 <= k < nkeys.len() && nkeys[k] == z;
                            if k < p {
                                assert(keys[k] == z);
                            } else if k > p {
                                assert(keys[k - 1] == z);
                            }
                        }
                        if keys.to_set().contains(z) {
                            let k = choose|k: int| 0 <= k < keys.len() && keys[k] == z;
                            if k < p {
                                assert(nkeys[k] == z);
                            } else {
                                assert(nkeys[k + 1] == z);
                            }
                        }
                        if z == key@ {
                            assert(nkeys[p as int] == z);
                        }
                    }
                }
                assert(identity_set(after) == identity_set(before).insert(key@));
            }
        }
        i = i + 1;
    }
    proof {
        assert(copies@.subrange(0, copies@.len() as int) =~= copies@);
    }
    out
}


/// Copies of the representatives whose check passed, in representative order.
pub open spec fn passed_copies(reps: Seq<(String, CopyView)>, checks: Seq<CopyCheck>) -> Seq<CopyView>
    decreases reps.len(),
{
    if reps.len() == 0 {
        Seq::empty()
    } else if checks[reps.len() - 1].verified {
        passed_copies(reps.drop_last(), checks.drop_last()).push(reps.last().1)
    } else {
        passed_copies(reps.drop_last(), checks.drop_last())
    }
}

/// Copies of the representatives whose check failed, in representative order.
pub open spec fn failed_copies(reps: Seq<(String, CopyView)>, checks: Seq<CopyCheck>) -> Seq<CopyView>
    decreases reps.len(),
{
    if reps.len() == 0 {
        Seq::empty()
    } else if !checks[reps.len() - 1].verified {
        failed_copies(reps.drop_last(), checks.drop_last()).push(reps.last().1)
    } else {
        failed_copies(reps.drop_last(), checks.drop_last())
    }
}

/// The failure line of a remaining copy.
pub open spec fn remaining_failure_text(copy: CopyView, check: CopyCheck) -> Seq<char> {
    "剩余副本 "@ + copy.path@ + ": "@ + fail_text(check)
}

/// Failure lines of the failed representatives, in order.
pub open spec fn failure_lines(reps: Seq<(String, CopyView)>, checks: Seq<CopyCheck>) -> Seq<Seq<char>>
    decreases reps.len(),
{
    if reps.len() == 0 {
        Seq::empty()
    } else if !checks[reps.len() - 1].verified {
        failure_lines(reps.drop_last(), checks.drop_last()).push(
            remaining_failure_text(reps.last().1, checks[reps.len() - 1]),
        )
    } else {
        failure_lines(reps.drop_last(), checks.drop_last())
    }
}

/// The warning for a copy whose device identity is not verified.
pub open spec fn identity_warning_text(copy: CopyView) -> Seq<char> {
    copy.path@ + " 的物理设备身份为 "@ + copy.physical_identity_state.name() + "，不计入安全物理设备阈值。"@
}

pub open spec fn identity_warnings(cs: Seq<CopyView>) -> Seq<Seq<char>>
    decreases cs.len(),
{
    if cs.len() == 0 {
        Seq::empty()
    } else {
        identity_warnings(cs.drop_last()).push(identity_warning_text(cs.last()))
    }
}

/// The reason that blocks a plan when a copy's whole-disk identity conflicts.
pub open spec fn conflict_text(copy: CopyView) -> Seq<char> {
    copy.path@ + " 的整盘物理设备身份存在冲突，不能作为清理计划依据。"@
}

pub open spec fn conflict_reasons(cs: Seq<CopyView>) -> Seq<Seq<char>>
    decreases cs.len(),
{
    if cs.len() == 0 {
        Seq::empty()
    } else if cs.last().physical_identity_state == PhysicalDeviceIdentityState::Conflict {
        conflict_reasons(cs.drop_last()).push(conflict_text(cs.last()))
    } else {
        conflict_reasons(cs.drop_last())
    }
}

/// Some keeper's storage object has a representative whose check passed.
pub open spec fn keeper_passed(keep: Seq<CopyView>, reps: Seq<(String, CopyView)>, checks: Seq<CopyCheck>) -> bool {
    exists|k: int, i: int|
        #![trigger keep[k], reps[i]]
        0 <= k < keep.len() && 0 <= i < reps.len() && reps[i].0@ == copy_identity(keep[k]) && checks[i].verified
}

/// Some failure line shows that a file changed.
pub open spec fn any_stale_text(lines: Seq<Seq<char>>) -> bool {
    exists|i: int| 0 <= i < lines.len() && is_stale_text(#[trigger] lines[i])
}

/// A failure line that shows the file changed since it was indexed.
pub open spec fn is_stale_text(t: Seq<char>) -> bool {
    ||| contains_seq(t, "文件元数据已改变"@)
    ||| contains_seq(t, "完整哈希不匹配"@)
    ||| contains_seq(t, "验证期间文件发生变化"@)
}

pub fn failure_is_stale(failure: &String) -> (r: bool)
    ensures
        r == is_stale_text(failure@),
{
    str_contains(failure.as_str(), "文件元数据已改变") || str_contains(failure.as_str(), "完整哈希不匹配")
        || str_contains(failure.as_str(), "验证期间文件发生变化")
}

pub open spec fn msg_keeper_failed() -> Seq<char> {
    "指定保留卷没有通过验证的独立存储对象。"@
}

pub open spec fn msg_verified_objects(left: nat, required: nat) -> Seq<char> {
    "验证后仅剩 "@ + dec_nat(left) + " 个独立存储对象，少于要求的 "@ + dec_nat(required) + " 个。"@
}

pub open spec fn msg_verified_devices(left: nat, required: nat) -> Seq<char> {
    "验证后仅剩 "@ + dec_nat(left) + " 个已验证物理设备，少于要求的 "@ + dec_nat(required) + " 个。"@
}

/// The fields that re-checking leaves as they were.
pub open spec fn same_evidence(a: CleanupPlanItem, b: CleanupPlanItem) -> bool {
    &&& a.full_hash == b.full_hash
    &&& a.file_size == b.file_size
    &&& a.candidate_delete == b.candidate_delete
    &&& a.keep_candidates == b.keep_candidates
    &&& a.all_known_copies == b.all_known_copies
    &&& a.all_remaining_candidates == b.all_remaining_candidates
    &&& a.unknown_identity_copies == b.unknown_identity_copies
    &&& a.generated_at == b.generated_at
    &&& a.database_schema_version == b.database_schema_version
    &&& a.remaining_path_copies == b.remaining_path_copies
    &&& a.remaining_storage_objects == b.remaining_storage_objects
    &&& a.remaining_volumes == b.remaining_volumes
    &&& a.remaining_physical_devices == b.remaining_physical_devices
    &&& a.risk_notice == b.risk_notice
}

/// `r` is `item` after re-checking its candidate (`cand`) and one
/// representative per remaining storage object (`reps`, `checks`).
pub open spec fn is_rechecked_item(
    r: CleanupPlanItem,
    item: CleanupPlanItem,
    mode: VerificationMode,
    verified_at: String,
    cand: CopyCheck,
    reps: Seq<(String, CopyView)>,
    checks: Seq<CopyCheck>,
    min_copies: nat,
    min_devices: nat,
) -> bool {
    let passed = passed_copies(reps, checks);
    let objects = identity_set(passed).len();
    let devices = verified_device_set(passed).len();
    let keeper_ok = keeper_passed(item.keep_candidates@, reps, checks);
    let cand_reason = when(!cand.verified, "候选副本验证失败: "@ + fail_text(cand));
    let cand_failure = when(!cand.verified, "候选副本 "@ + item.candidate_delete.path@ + ": "@ + fail_text(cand));
    let reasons = texts(item.blocked_reasons@) + cand_reason + conflict_reasons(item.all_known_copies@)
        + when(!keeper_ok, msg_keeper_failed()) + when(objects < min_copies, msg_verified_objects(objects, min_copies))
        + when(devices < min_devices, msg_verified_devices(devices, min_devices));
    let failures = texts(item.verification_failures@) + cand_failure + failure_lines(reps, checks);
    &&& same_evidence(r, item)
    &&& r.verification_mode == mode
    &&& r.verified_at == Some(verified_at)
    &&& r.candidate_metadata_state == if cand.verified { CheckState::Verified } else { CheckState::Failed }
    &&& r.keeper_metadata_state == if keeper_ok { CheckState::Verified } else { CheckState::Failed }
    &&& r.verified_remaining_copies@ == passed
    &&& r.failed_remaining_copies@ == failed_copies(reps, checks)
    &&& texts(r.verification_failures@) == failures
    &&& texts(r.physical_identity_warnings@) == texts(item.physical_identity_warnings@)
        + identity_warnings(item.unknown_identity_copies@)
    &&& texts(r.blocked_reasons@) == reasons
    &&& r.verified_remaining_path_copies == passed.len()
    &&& r.verified_remaining_storage_objects == objects
    &&& r.verified_remaining_logical_volumes == volume_set(passed).len()
    &&& r.verified_remaining_physical_devices == devices
    &&& r.status == if reasons.len() == 0 {
        PlanItemStatus::VerifiedCandidate
    } else if !cand.verified && any_stale_text(failures) {
        PlanItemStatus::Stale
    } else {
        PlanItemStatus::Blocked
    }
}


/// Passed copies, failed copies and failure lines of the representatives.
fn split_checks(reps: &Vec<(String, CopyView)>, checks: &Vec<CopyCheck>) -> (r: (Vec<CopyView>, Vec<CopyView>, Vec<String>))
    requires
        checks@.len() == reps@.len(),
    ensures
        r.0@ == passed_copies(reps@, checks@),
        r.1@ == failed_copies(reps@, checks@),
        texts(r.2@) == failure_lines(reps@, checks@),
{
    let mut passed: Vec<CopyView> = Vec::new();
    let mut failed: Vec<CopyView> = Vec::new();
    let mut lines: Vec<String> = Vec::new();
    let mut i: usize = 0;
    proof {
        assert(reps@.subrange(0, 0) =~= Seq::<(String, CopyView)>::empty());
        assert(texts(lines@) =~= Seq::<Seq<char>>::empty());
    }
    while i < reps.len()
        invariant
            i <= reps@.len(),
            checks@.len() == reps@.len(),
            passed@ == passed_copies(reps@.subrange(0, i as int), checks@.subrange(0, i as int)),
            failed@ == failed_copies(reps@.subrange(0, i as int), checks@.subrange(0, i as int)),
            texts(lines@) == failure_lines(reps@.subrange(0, i as int), checks@.subrange(0, i as int)),
        decreases reps.len() - i,
    {
        let ghost rb = reps@.subrange(0, i as int);
        let ghost cb = checks@.subrange(0, i as int);
        let ghost ra = reps@.subrange(0, i + 1);
        let ghost ca = checks@.subrange(0, i + 1);
        proof {
            assert(ra.drop_last() =~= rb);
            assert(ca.drop_last() =~= cb);
            assert(ra.last() == reps@[i as int]);
            assert(ca[ra.len() - 1] == checks@[i as int]);
        }
        let copy = &reps[i].1;
        if checks[i].verified {
            passed.push(copy.copy_of());
        } else {
            failed.push(copy.copy_of());
            let mut line = "剩余副本 ".to_owned();
            line.append(copy.path.as_str());
            line.append(": ");
            line.append(checks[i].failure_message().as_str());
            let ghost old_lines = lines@;
            lines.push(line);
            proof {
                assert(texts(lines@) =~= texts(old_lines).push(remaining_failure_text(*copy, checks@[i as int])));
            }
        }
        i = i + 1;
    }
    proof {
        assert(reps@.subrange(0, reps@.len() as int) =~= reps@);
        assert(checks@.subrange(0, checks@.len() as int) =~= checks@);
    }
    (passed, failed, lines)
}

/// Appends the identity warnings of `cs` to `out`.
fn push_identity_warnings(out: &mut Vec<String>, cs: &Vec<CopyView>)
    ensures
        texts(final(out)@) == texts(old(out)@) + identity_warnings(cs@),
{
    let mut i: usize = 0;
    proof {
        assert(cs@.subrange(0, 0) =~= Seq::<CopyView>::empty());
        assert(texts(out@) =~= texts(old(out)@) + identity_warnings(Seq::<CopyView>::empty()));
    }
    while i < cs.len()
        invariant
            i <= cs@.len(),
            texts(out@) == texts(old(out)@) + identity_warnings(cs@.subrange(0, i as int)),
        decreases cs.len() - i,
    {
        proof {
            let after = cs@.subrange(0, i + 1);
            assert(after.drop_last() =~= cs@.subrange(0, i as int));
            assert(after.last() == cs@[i as int]);
        }
        let c = &cs[i];
        let mut line = c.path.clone();
        line.append(" 的物理设备身份为 ");
        line.append(c.physical_identity_state.as_str());
        line.append("，不计入安全物理设备阈值。");
        let ghost before = out@;
        out.push(line);
        proof {
            assert(texts(out@) =~= texts(before).push(identity_warning_text(*c)));
        }
        i = i + 1;
    }
    proof {
        assert(cs@.subrange(0, cs@.len() as int) =~= cs@);
    }
}

/// Appends the conflict reasons of `cs` to `out`.
fn push_conflict_reasons(out: &mut Vec<String>, cs: &Vec<CopyView>)
    ensures
        texts(final(out)@) == texts(old(out)@) + conflict_reasons(cs@),
{
    let mut i: usize = 0;
    proof {
        assert(cs@.subrange(0, 0) =~= Seq::<CopyView>::empty());
        assert(texts(out@) =~= texts(old(out)@) + conflict_reasons(Seq::<CopyView>::empty()));
    }
    while i < cs.len()
        invariant
            i <= cs@.len(),
            texts(out@) == texts(old(out)@) + conflict_reasons(cs@.subrange(0, i as int)),
        decreases cs.len() - i,
    {
        proof {
            let after = cs@.subrange(0, i + 1);
            assert(after.drop_last() =~= cs@.subrange(0, i as int));
            assert(after.last() == cs@[i as int]);
        }
        let c = &cs[i];
        match c.physical_identity_state {
            PhysicalDeviceIdentityState::Conflict => {
                let mut line = c.path.clone();
                line.append(" 的整盘物理设备身份存在冲突，不能作为清理计划依据。");
                let ghost before = out@;
                out.push(line);
                proof {
                    assert(texts(out@) =~= texts(before).push(conflict_text(*c)));
                }
            },
            _ => {},
        }
        i = i + 1;
    }
    proof {
        assert(cs@.subrange(0, cs@.len() as int) =~= cs@);
    }
}

/// Whether some keeper's storage object has a passing representative.
fn any_keeper_passed(keep: &Vec<CopyView>, reps: &Vec<(String, CopyView)>, checks: &Vec<CopyCheck>) -> (r: bool)
    requires
        checks@.len() == reps@.len(),
    ensures
        r == keeper_passed(keep@, reps@, checks@),
{
    let mut k: usize = 0;
    while k < keep.len()
        invariant
            k <= keep@.len(),
            checks@.len() == reps@.len(),
            forall|a: int, b: int|
                #![trigger keep@[a], reps@[b]]
                0 <= a < k && 0 <= b < reps@.len() ==> !(reps@[b].0@ == copy_identity(keep@[a]) && checks@[b].verified),
        decreases keep.len() - k,
    {
        let id = storage_object_identity(&keep[k]);
        let mut i: usize = 0;
        while i < reps.len()
            invariant
                i <= reps@.len(),
                k < keep@.len(),
                id@ == copy_identity(keep@[k as int]),
                checks@.len() == reps@.len(),
                forall|b: int| #![trigger reps@[b]] 0 <= b < i ==> !(reps@[b].0@ == id@ && checks@[b].verified),
            decreases reps.len() - i,
        {
            if reps[i].0 == id && checks[i].verified {
                proof {
                    assert(reps@[i as int].0@ == copy_identity(keep@[k as int]));
                }
                return true;
            }
            i = i + 1;
        }
        k = k + 1;
    }
    false
}

/// Whether any failure line shows that a file changed.
fn any_stale(failures: &Vec<String>) -> (r: bool)
    ensures
        r == any_stale_text(texts(failures@)),
{
    let mut i: usize = 0;
    while i < failures.len()
        invariant
            i <= failures@.len(),
            forall|j: int| 0 <= j < i ==> !is_stale_text(#[trigger] texts(failures@)[j]),
        decreases failures.len() - i,
    {
        if failure_is_stale(&failures[i]) {
            proof {
                assert(texts(failures@)[i as int] == failures@[i as int]@);
            }
            return true;
        }
        proof {
            assert(texts(failures@)[i as int] == failures@[i as int]@);
        }
        i = i + 1;
    }
    false
}

#[verifier::spinoff_prover]
/// Re-checks one plan entry: the candidate and one representative per
/// remaining storage object were checked by the caller; only copies whose
/// check passed count towards the safety thresholds.
pub fn apply_verification(
    item: CleanupPlanItem,
    mode: VerificationMode,
    verified_at: &String,
    candidate_check: &CopyCheck,
    reps: &Vec<(String, CopyView)>,
    checks: &Vec<CopyCheck>,
    min_remaining_copies: usize,
    min_remaining_physical_devices: usize,
) -> (r: CleanupPlanItem)
    requires
        checks@.len() == reps@.len(),
    ensures
        is_rechecked_item(
            r,
            item,
            mode,
            *verified_at,
            *candidate_check,
            reps@,
            checks@,
            min_remaining_copies as nat,
            min_remaining_physical_devices as nat,
        ),
{
    let ghost orig = item;
    let mut item = item;
    item.verification_mode = mode;
    item.verified_at = Some(verified_at.clone());
    if !candidate_check.verified {
        let message = candidate_check.failure_message();
        let mut reason = "候选副本验证失败: ".to_owned();
        reason.append(message.as_str());
        item.blocked_reasons.push(reason);
        let mut failure = "候选副本 ".to_owned();
        failure.append(item.candidate_delete.path.as_str());
        failure.append(": ");
        failure.append(message.as_str());
        item.verification_failures.push(failure);
        item.candidate_metadata_state = CheckState::Failed;
    } else {
        item.candidate_metadata_state = CheckState::Verified;
    }
    let ghost after_candidate_reasons = texts(item.blocked_reasons@);
    let ghost after_candidate_failures = texts(item.verification_failures@);
    proof {
        assert(after_candidate_reasons =~= texts(orig.blocked_reasons@) + when(
            !candidate_check.verified,
            "候选副本验证失败: "@ + fail_text(*candidate_check),
        ));
        assert(after_candidate_failures =~= texts(orig.verification_failures@) + when(
            !candidate_check.verified,
            "候选副本 "@ + orig.candidate_delete.path@ + ": "@ + fail_text(*candidate_check),
        ));
    }
    let (passed, failed, lines) = split_checks(reps, checks);
    let mut all_failures = clone_strings(&item.verification_failures);
    let mut k: usize = 0;
    let ghost failures_before = all_failures@;
    proof {
        assert(lines@.subrange(0, 0) =~= Seq::<String>::empty());
    }
    while k < lines.len()
        invariant
            k <= lines@.len(),
            all_failures@ == failures_before + lines@.subrange(0, k as int),
        decreases lines.len() - k,
    {
        all_failures.push(lines[k].clone());
        proof {
            assert(lines@.subrange(0, k + 1) =~= lines@.subrange(0, k as int).push(lines@[k as int]));
        }
        k = k + 1;
    }
    item.verification_failures = all_failures;
    proof {
        assert(lines@.subrange(0, lines@.len() as int) =~= lines@);
        assert(texts(item.verification_failures@) =~= after_candidate_failures + texts(lines@));
    }
    item.verified_remaining_copies = passed;
    item.failed_remaining_copies = failed;
    push_identity_warnings(&mut item.physical_identity_warnings, &item.unknown_identity_copies);
    push_conflict_reasons(&mut item.blocked_reasons, &item.all_known_copies);
    let tally = tally_copies(&item.verified_remaining_copies);
    proof {
        tally.objects@.map_values(|s: String| s@).unique_seq_to_set();
        tally.volumes@.unique_seq_to_set();
        tally.verified_devices@.unique_seq_to_set();
    }
    item.verified_remaining_path_copies = item.verified_remaining_copies.len();
    item.verified_remaining_storage_objects = tally.objects.len();
    item.verified_remaining_logical_volumes = tally.volumes.len();
    item.verified_remaining_physical_devices = tally.verified_devices.len();
    let keeper_ok = any_keeper_passed(&item.keep_candidates, reps, checks);
    let ghost r_conf = texts(item.blocked_reasons@);
    if keeper_ok {
        item.keeper_metadata_state = CheckState::Verified;
    } else {
        item.blocked_reasons.push("指定保留卷没有通过验证的独立存储对象。".to_owned());
        item.keeper_metadata_state = CheckState::Failed;
    }
    let ghost r_keep = texts(item.blocked_reasons@);
    if item.verified_remaining_storage_objects < min_remaining_copies {
        let mut m = "验证后仅剩 ".to_owned();
        m.append(usize_text(item.verified_remaining_storage_objects).as_str());
        m.append(" 个独立存储对象，少于要求的 ");
        m.append(usize_text(min_remaining_copies).as_str());
        m.append(" 个。");
        item.blocked_reasons.push(m);
    }
    let ghost r_obj = texts(item.blocked_reasons@);
    if item.verified_remaining_physical_devices < min_remaining_physical_devices {
        let mut m = "验证后仅剩 ".to_owned();
        m.append(usize_text(item.verified_remaining_physical_devices).as_str());
        m.append(" 个已验证物理设备，少于要求的 ");
        m.append(usize_text(min_remaining_physical_devices).as_str());
        m.append(" 个。");
        item.blocked_reasons.push(m);
    }
    proof {
        let passed_s = passed_copies(reps@, checks@);
        let objects = identity_set(passed_s).len();
        let devices = verified_device_set(passed_s).len();
        assert(r_keep =~= r_conf + when(!keeper_ok, msg_keeper_failed()));
        assert(r_obj =~= r_keep + when(objects < min_remaining_copies as nat, msg_verified_objects(objects, min_remaining_copies as nat)));
        assert(texts(item.blocked_reasons@) =~= r_obj + when(devices < min_remaining_physical_devices as nat, msg_verified_devices(devices, min_remaining_physical_devices as nat)));
    }
    let stale = any_stale(&item.verification_failures);
    item.status = if item.blocked_reasons.len() == 0 {
        PlanItemStatus::VerifiedCandidate
    } else if !candidate_check.verified && stale {
        PlanItemStatus::Stale
    } else {
        PlanItemStatus::Blocked
    };
    proof {
        assert(same_evidence(item, orig));
        assert(texts(item.verification_failures@) == texts(orig.verification_failures@) + when(
            !candidate_check.verified,
            "候选副本 "@ + orig.candidate_delete.path@ + ": "@ + fail_text(*candidate_check),
        ) + failure_lines(reps@, checks@));
    }
    item
}


/// Which re-check the options ask for, if any.
pub fn verification_mode_for(options: &CleanupVerificationOptions) -> (r: Option<VerificationMode>)
    ensures
        r is None <==> !options.verify_metadata && !options.verify_full_hash,
        r == Some(VerificationMode::FullHash) <==> options.verify_full_hash,
        r == Some(VerificationMode::Metadata) <==> options.verify_metadata && !options.verify_full_hash,
{
    if !options.verify_metadata && !options.verify_full_hash {
        None
    } else if options.verify_full_hash {
        Some(VerificationMode::FullHash)
    } else {
        Some(VerificationMode::Metadata)
    }
}

/// Number of items with one of the given statuses.
pub open spec fn count_status(items: Seq<CleanupPlanItem>, a: PlanItemStatus, b: PlanItemStatus) -> nat
    decreases items.len(),
{
    if items.len() == 0 {
        0
    } else {
        count_status(items.drop_last(), a, b) + if items.last().status == a || items.last().status == b {
            1nat
        } else {
            0nat
        }
    }
}

/// Records the re-check on the plan and counts blocked (or stale) and
/// verified items.
pub fn finish_verified_plan(plan: CleanupPlan, mode: VerificationMode, verified_at: String) -> (r: CleanupPlan)
    ensures
        r.items == plan.items,
        r.warnings == plan.warnings,
        r.schema_version == plan.schema_version,
        r.generated_at == plan.generated_at,
        r.database_path == plan.database_path,
        r.target_volume_id == plan.target_volume_id,
        r.keep_volume_id == plan.keep_volume_id,
        r.min_remaining_copies == plan.min_remaining_copies,
        r.min_remaining_physical_devices == plan.min_remaining_physical_devices,
        r.verification_protocol_version == plan.verification_protocol_version,
        r.cancelled == plan.cancelled,
        r.verification_mode == mode,
        r.verified_at == Some(verified_at),
        r.completed_items == plan.items@.len(),
        r.blocked_items == count_status(plan.items@, PlanItemStatus::Blocked, PlanItemStatus::Stale),
        r.verified_items == count_status(
            plan.items@,
            PlanItemStatus::VerifiedCandidate,
            PlanItemStatus::VerifiedCandidate,
        ),
{
    let mut plan = plan;
    let mut blocked: usize = 0;
    let mut verified: usize = 0;
    let mut i: usize = 0;
    proof {
        assert(plan.items@.subrange(0, 0) =~= Seq::<CleanupPlanItem>::empty());
    }
    while i < plan.items.len()
        invariant
            i <= plan.items@.len(),
            blocked <= i,
            verified <= i,
            blocked == count_status(plan.items@.subrange(0, i as int), PlanItemStatus::Blocked, PlanItemStatus::Stale),
            verified == count_status(
                plan.items@.subrange(0, i as int),
                PlanItemStatus::VerifiedCandidate,
                PlanItemStatus::VerifiedCandidate,
            ),
        decreases plan.items.len() - i,
    {
        proof {
            let after = plan.items@.subrange(0, i + 1);
            assert(after.drop_last() =~= plan.items@.subrange(0, i as int));
            assert(after.last() == plan.items@[i as int]);
        }
        match plan.items[i].status {
            PlanItemStatus::Blocked | PlanItemStatus::Stale => {
                blocked = blocked + 1;
            },
            PlanItemStatus::VerifiedCandidate => {
                verified = verified + 1;
            },
            _ => {},
        }
        i = i + 1;
    }
    proof {
        assert(plan.items@.subrange(0, plan.items@.len() as int) =~= plan.items@);
    }
    plan.verification_mode = mode;
    plan.verified_at = Some(verified_at);
    plan.completed_items = plan.items.len();
    plan.blocked_items = blocked;
    plan.verified_items = verified;
    plan
}

} // verus!
