//! Properties that hold across the library's operations: stored names read
//! back as what was written, cleanup candidates never lose the last safe
//! copy, stale index entries are never trusted, and identities depend only
//! on what identifies.

use vstd::prelude::*;
use crate::duplicate::{
    included, is_group_of, presents,
    content_qualifies, copy_identity, groups_built, identity_set, online_present, qualifying, reclaimable,
    spec_view_status, verified_device_set, ContentRecords, DuplicateFilter,
};
use crate::lookup::{spec_lookup_step, step_cache_state, step_exact, step_warnings, warn_sample_only, LookupStep};
use crate::model::{
    CacheState, CleanupPlanItem, PhysicalDevice, Volume, CopyStatus, CopyView, DuplicateGroup, FileMetadata, PhysicalDeviceIdentityState,
    PlanItemStatus, VerificationMode, VolumeIdentityState, VolumeRole, is_identity_state_name, is_role_name,
    FileRecord,
};
use crate::report::{
    blocked_reasons_for, is_plan_item_for, is_rechecked_item, keeper_passed, keepers,
    passed_copies, remaining, texts, CopyCheck,
};
use crate::store::{is_observed, spec_observe, spec_storage_object_key, Observation};
use crate::volume::{
    consistent_indices, spec_identity_is_consistent, spec_registration_action, RegistrationAction,
    fallback_uid_input, physical_identity_parts, spec_has_stable_identifier, VolumeIdentityInput,
};

verus! {

/// Every role is stored under a name that reads back as that same role:
/// names are role names and no two roles share one.
pub proof fn role_names_round_trip(role: VolumeRole, other: VolumeRole)
    ensures
        is_role_name(role.name()),
        other.name() == role.name() ==> other == role,
{
    reveal_strlit("primary");
    reveal_strlit("local_backup");
    reveal_strlit("offsite_backup");
    reveal_strlit("temporary");
    reveal_strlit("legacy_backup");
    reveal_strlit("unknown");
    if other.name() == role.name() && other != role {
        assert(other.name().len() == role.name().len());
        assert(other.name()[0] == role.name()[0]);
    }
}

/// Every volume identity state is stored under a name that reads back as
/// that same state.
pub proof fn identity_state_names_round_trip(state: VolumeIdentityState, other: VolumeIdentityState)
    ensures
        is_identity_state_name(state.name()),
        other.name() == state.name() ==> other == state,
{
    reveal_strlit("verified");
    reveal_strlit("fallback");
    reveal_strlit("possible_clone");
    reveal_strlit("conflict");
    reveal_strlit("manual_link");
    if other.name() == state.name() && other != state {
        assert(other.name().len() == state.name().len());
        assert(other.name()[0] == state.name()[0]);
    }
}

/// An unverified cleanup candidate is offered only when the candidate is an
/// online present copy, a keeper exists on the keep volume, enough
/// independent storage objects and verified physical devices remain
/// without it, and it is not a hard link of a remaining object.
pub proof fn unverified_candidate_is_safe(
    item: CleanupPlanItem,
    group: DuplicateGroup,
    candidate: CopyView,
    keep_volume_id: i64,
    min_copies: nat,
    min_devices: nat,
    generated_at: String,
    schema_version: i64,
)
    requires
        is_plan_item_for(item, group, candidate, keep_volume_id, min_copies, min_devices, generated_at, schema_version),
        item.status == PlanItemStatus::CandidateUnverified,
    ensures
        online_present(candidate),
        keepers(group.copies@, keep_volume_id).len() > 0,
        identity_set(remaining(group.copies@, candidate.file_copy_id)).len() >= min_copies,
        verified_device_set(remaining(group.copies@, candidate.file_copy_id)).len() >= min_devices,
        !identity_set(remaining(group.copies@, candidate.file_copy_id)).contains(copy_identity(candidate)),
{
}

/// A copy that shares its storage object with a remaining copy (a hard
/// link) is never offered for cleanup.
pub proof fn hard_link_is_blocked(
    item: CleanupPlanItem,
    group: DuplicateGroup,
    candidate: CopyView,
    keep_volume_id: i64,
    min_copies: nat,
    min_devices: nat,
    generated_at: String,
    schema_version: i64,
)
    requires
        is_plan_item_for(item, group, candidate, keep_volume_id, min_copies, min_devices, generated_at, schema_version),
        identity_set(remaining(group.copies@, candidate.file_copy_id)).contains(copy_identity(candidate)),
    ensures
        item.status == PlanItemStatus::Blocked,
{
    let rest = remaining(group.copies@, candidate.file_copy_id);
    let keep = keepers(group.copies@, keep_volume_id);
    let reasons = blocked_reasons_for(candidate, keep, rest, min_copies, min_devices);
    assert(reasons.len() > 0);
}

/// A re-checked item is a verified candidate only when the candidate and a
/// keeper passed their checks, the unverified plan raised no objection, and
/// enough verified storage objects and physical devices remain.
pub proof fn verified_candidate_passed_checks(
    r: CleanupPlanItem,
    item: CleanupPlanItem,
    mode: VerificationMode,
    verified_at: String,
    cand: CopyCheck,
    reps: Seq<(String, CopyView)>,
    checks: Seq<CopyCheck>,
    min_copies: nat,
    min_devices: nat,
)
    requires
        is_rechecked_item(r, item, mode, verified_at, cand, reps, checks, min_copies, min_devices),
        r.status == PlanItemStatus::VerifiedCandidate,
    ensures
        cand.verified,
        keeper_passed(item.keep_candidates@, reps, checks),
        texts(item.blocked_reasons@).len() == 0,
        identity_set(passed_copies(reps, checks)).len() >= min_copies,
        verified_device_set(passed_copies(reps, checks)).len() >= min_devices,
{
}

/// An indexed entry whose size, modification time, inode or device no
/// longer match is never reused: unless a full hash is computed now, the
/// answer is not exact and the cache is reported stale.
pub proof fn stale_index_is_never_trusted(use_full_hash: bool, direct: Option<FileRecord>, matches: bool)
    requires
        direct is Some,
        !matches,
    ensures
        !use_full_hash ==> !step_exact(spec_lookup_step(use_full_hash, direct, matches)),
        step_cache_state(spec_lookup_step(use_full_hash, direct, matches), true, matches) == CacheState::CacheStale,
{
}

/// With any stable platform identifier, a volume keeps its fallback UID
/// wherever it is mounted; only without one does the root path count.
pub proof fn fallback_uid_ignores_mount_path(root_a: Seq<u8>, root_b: Seq<u8>, identity: VolumeIdentityInput)
    requires
        spec_has_stable_identifier(identity),
    ensures
        fallback_uid_input(root_a, identity) == fallback_uid_input(root_b, identity),
{
    assert(fallback_uid_input(root_a, identity) =~= fallback_uid_input(root_b, identity));
}

/// A physical device counts as verified only with whole-disk evidence: a
/// hardware serial or a whole-disk media UUID.
pub proof fn verified_device_needs_whole_disk_evidence(root: Seq<u8>, identity: VolumeIdentityInput)
    ensures
        (physical_identity_parts(root, identity).2 == PhysicalDeviceIdentityState::Verified) <==> (
        identity.hardware_serial is Some || identity.whole_disk_media_uuid is Some),
{
}

/// Hard links share one storage object key: on the same physical device, the
/// same device ID and inode give the same key whatever the path.
pub proof fn hard_links_share_storage_key(physical_device_id: Option<i64>, a: FileMetadata, b: FileMetadata)
    requires
        a.device_id == b.device_id,
        a.inode == b.inode,
    ensures
        spec_storage_object_key(physical_device_id, a) == spec_storage_object_key(physical_device_id, b),
{
}

/// A duplicate group is one content: it carries that content's full hash
/// and size, and only contents with at least two present copies form one.
pub proof fn each_group_is_one_trusted_content(
    groups: Seq<DuplicateGroup>,
    contents: Seq<ContentRecords>,
    filter: DuplicateFilter,
    k: int,
)
    requires
        groups_built(groups, contents, filter),
        0 <= k < groups.len(),
    ensures
        groups[k].full_hash == qualifying(contents, filter)[k].full_hash,
        groups[k].file_size == qualifying(contents, filter)[k].file_size,
        content_qualifies(qualifying(contents, filter)[k], filter),
        qualifying(contents, filter)[k].file_size >= filter.min_size,
{
    lemma_qualifying_qualify(contents, filter);
}

proof fn lemma_qualifying_qualify(contents: Seq<ContentRecords>, filter: DuplicateFilter)
    ensures
        forall|k: int| 0 <= k < qualifying(contents, filter).len() ==> content_qualifies(
            #[trigger] qualifying(contents, filter)[k],
            filter,
        ),
    decreases contents.len(),
{
    if contents.len() > 0 {
        lemma_qualifying_qualify(contents.drop_last(), filter);
        let before = qualifying(contents.drop_last(), filter);
        let q = qualifying(contents, filter);
        assert forall|k: int| 0 <= k < q.len() implies content_qualifies(#[trigger] q[k], filter) by {
            if k < before.len() {
                assert(q[k] == before[k]);
            } else {
                assert(q[k] == contents.last());
            }
        }
    }
}

/// A plan made without re-checking files never claims a verified candidate.
pub proof fn unverified_plan_claims_no_verification(
    item: CleanupPlanItem,
    group: DuplicateGroup,
    candidate: CopyView,
    keep_volume_id: i64,
    min_copies: nat,
    min_devices: nat,
    generated_at: String,
    schema_version: i64,
)
    requires
        is_plan_item_for(item, group, candidate, keep_volume_id, min_copies, min_devices, generated_at, schema_version),
    ensures
        item.status != PlanItemStatus::VerifiedCandidate,
        item.verification_mode == VerificationMode::NoCheck,
        item.verified_at is None,
{
}

/// With at most one online independent storage object (for instance hard
/// links of one file), keeping one copy frees nothing.
pub proof fn one_storage_object_frees_nothing(file_size: u64, online_objects: nat)
    requires
        online_objects <= 1,
    ensures
        reclaimable(file_size, online_objects) == 0,
{
    assert(file_size * 0 == 0);
}

/// A present copy on an offline volume is shown as unverified offline
/// history, never as missing.
pub proof fn offline_copies_are_never_missing(record: FileRecord)
    requires
        record.status == CopyStatus::Present,
    ensures
        spec_view_status(record) != CopyStatus::Missing,
        !record.volume_online ==> spec_view_status(record) == CopyStatus::OfflineUnverified,
{
}

/// Scanning an unchanged file again reuses its stored copy: once a copy
/// has been reconciled with a file's metadata, the same metadata is reused
/// as is, with nothing to restore and no hash dropped.
pub proof fn rescanning_unchanged_file_reuses_it(
    p: FileRecord,
    m: FileMetadata,
    key: Option<String>,
    timestamp: Seq<char>,
    r: FileRecord,
)
    requires
        is_observed(p, m, key, timestamp, r),
    ensures
        spec_observe(Some(r), m) == (Observation::Reused { restored: false }),
{
}

/// A lookup whose indexed record still matches the file is never reported
/// stale: with a stored full hash (or a full hash computed now) the answer
/// is exact and the cache valid; with only a sample it is a sampled,
/// unverified answer. Staleness comes exactly from an indexed record whose
/// metadata no longer matches, when no full hash is computed now.
pub proof fn matching_index_is_never_stale(use_full_hash: bool, record: FileRecord, direct: Option<FileRecord>, matches: bool)
    ensures
        step_cache_state(spec_lookup_step(use_full_hash, Some(record), true), true, true) != CacheState::CacheStale,
        (use_full_hash || record.full_hash is Some) ==> step_exact(spec_lookup_step(use_full_hash, Some(record), true))
            && step_cache_state(spec_lookup_step(use_full_hash, Some(record), true), true, true)
            == CacheState::CacheValid,
        (!use_full_hash && record.full_hash is None) ==> {
            let step = spec_lookup_step(use_full_hash, Some(record), true);
            &&& !step_exact(step)
            &&& step_cache_state(step, true, true) == CacheState::CacheUnverified
            &&& step_warnings(step) == seq![warn_sample_only()]
        },
        (spec_lookup_step(use_full_hash, direct, matches) == LookupStep::StaleDirect) <==> (!use_full_hash
            && direct is Some && !matches),
{
}

proof fn lemma_keepers(cs: Seq<CopyView>, v: i64)
    ensures
        forall|k: int| 0 <= k < keepers(cs, v).len() ==> {
            let c = #[trigger] keepers(cs, v)[k];
            &&& c.volume_id == v
            &&& c.is_online
            &&& c.status == CopyStatus::Present
            &&& cs.contains(c)
        },
        (exists|j: int| 0 <= j < cs.len() && (#[trigger] cs[j]).volume_id == v && cs[j].is_online && cs[j].status
            == CopyStatus::Present) ==> keepers(cs, v).len() > 0,
    decreases cs.len(),
{
    if cs.len() > 0 {
        let d = cs.drop_last();
        lemma_keepers(d, v);
        let kd = keepers(d, v);
        let kc = keepers(cs, v);
        assert forall|k: int| 0 <= k < kc.len() implies {
            let c = #[trigger] kc[k];
            &&& c.volume_id == v
            &&& c.is_online
            &&& c.status == CopyStatus::Present
            &&& cs.contains(c)
        } by {
            if k < kd.len() {
                assert(kc[k] == kd[k]);
                let c = kd[k];
                let w = choose|w: int| 0 <= w < d.len() && d[w] == c;
                assert(cs[w] == c);
            } else {
                assert(kc[k] == cs.last());
                assert(cs[cs.len() - 1] == cs.last());
            }
        }
        if exists|j: int| 0 <= j < cs.len() && (#[trigger] cs[j]).volume_id == v && cs[j].is_online && cs[j].status
            == CopyStatus::Present {
            let j = choose|j: int| 0 <= j < cs.len() && (#[trigger] cs[j]).volume_id == v && cs[j].is_online
                && cs[j].status == CopyStatus::Present;
            if j < cs.len() - 1 {
                assert(d[j] == cs[j]);
            }
        }
    }
}

/// The keepers of a plan item are copies of the group on the keep volume
/// that are online and present; there are some exactly when the group has
/// such a copy, and an unverified candidate is offered only then.
pub proof fn keepers_lie_on_the_keep_volume(
    item: CleanupPlanItem,
    group: DuplicateGroup,
    candidate: CopyView,
    keep_volume_id: i64,
    min_copies: nat,
    min_devices: nat,
    generated_at: String,
    schema_version: i64,
)
    requires
        is_plan_item_for(item, group, candidate, keep_volume_id, min_copies, min_devices, generated_at, schema_version),
    ensures
        forall|k: int| 0 <= k < item.keep_candidates@.len() ==> {
            let c = #[trigger] item.keep_candidates@[k];
            &&& c.volume_id == keep_volume_id
            &&& c.is_online
            &&& c.status == CopyStatus::Present
            &&& group.copies@.contains(c)
        },
        item.keep_candidates@.len() > 0 <==> exists|j: int| 0 <= j < group.copies@.len()
            && (#[trigger] group.copies@[j]).volume_id == keep_volume_id && group.copies@[j].is_online
            && group.copies@[j].status == CopyStatus::Present,
        item.status == PlanItemStatus::CandidateUnverified ==> exists|j: int| 0 <= j < group.copies@.len()
            && (#[trigger] group.copies@[j]).volume_id == keep_volume_id && group.copies@[j].is_online
            && group.copies@[j].status == CopyStatus::Present,
{
    let cs = group.copies@;
    lemma_keepers(cs, keep_volume_id);
    let kc = keepers(cs, keep_volume_id);
    if kc.len() > 0 {
        let c = kc[0];
        let j = choose|j: int| 0 <= j < cs.len() && cs[j] == c;
        assert(cs[j].volume_id == keep_volume_id);
    }
    if item.status == PlanItemStatus::CandidateUnverified {
        let rest = remaining(cs, candidate.file_copy_id);
        let reasons = blocked_reasons_for(candidate, kc, rest, min_copies, min_devices);
        assert(reasons.len() == 0);
        assert(kc.len() > 0);
    }
}

proof fn lemma_included(rs: Seq<FileRecord>, f: DuplicateFilter)
    ensures
        forall|k: int| 0 <= k < included(rs, f).len() ==> rs.contains(#[trigger] included(rs, f)[k]),
        f.volume_id is Some ==> forall|k: int| 0 <= k < included(rs, f).len() ==> (#[trigger] included(rs, f)[k]).volume_id
            == f.volume_id->0,
        forall|i: int| 0 <= i < rs.len() && (f.volume_id is None || (#[trigger] rs[i]).volume_id == f.volume_id->0)
            && rs[i].status == CopyStatus::Present && rs[i].volume_online ==> included(rs, f).contains(rs[i]),
    decreases rs.len(),
{
    if rs.len() > 0 {
        let d = rs.drop_last();
        lemma_included(d, f);
        let id = included(d, f);
        let ic = included(rs, f);
        assert forall|k: int| 0 <= k < ic.len() implies rs.contains(#[trigger] ic[k]) by {
            if k < id.len() {
                assert(ic[k] == id[k]);
                let w = choose|w: int| 0 <= w < d.len() && d[w] == id[k];
                assert(rs[w] == d[w]);
            } else {
                assert(ic[k] == rs[rs.len() - 1]);
            }
        }
        if f.volume_id is Some {
            assert forall|k: int| 0 <= k < ic.len() implies (#[trigger] ic[k]).volume_id == f.volume_id->0 by {
                if k < id.len() {
                    assert(ic[k] == id[k]);
                }
            }
        }
        assert forall|i: int| 0 <= i < rs.len() && (f.volume_id is None || (#[trigger] rs[i]).volume_id
            == f.volume_id->0) && rs[i].status == CopyStatus::Present && rs[i].volume_online implies ic.contains(
            rs[i],
        ) by {
            if i < rs.len() - 1 {
                assert(d[i] == rs[i]);
                let w = choose|w: int| 0 <= w < id.len() && id[w] == d[i];
                assert(ic[w] == id[w]);
            } else {
                assert(ic[ic.len() - 1] == rs.last());
            }
        }
    }
}

/// A duplicate group built for one volume holds only copies on that
/// volume, and every present copy of the content on that volume whose volume
/// is online appears in it.
pub proof fn volume_filter_keeps_only_that_volume(
    group: DuplicateGroup,
    content: ContentRecords,
    filter: DuplicateFilter,
    volume_id: i64,
)
    requires
        is_group_of(group, content, filter),
        filter.volume_id == Some(volume_id),
    ensures
        forall|j: int| 0 <= j < group.copies@.len() ==> (#[trigger] group.copies@[j]).volume_id == volume_id,
        forall|i: int| 0 <= i < content.records@.len() && (#[trigger] content.records@[i]).volume_id == volume_id
            && content.records@[i].status == CopyStatus::Present && content.records@[i].volume_online ==> exists|j: int|
            0 <= j < group.copies@.len() && (#[trigger] group.copies@[j]).file_copy_id == content.records@[i].id,
{
    let rs = content.records@;
    lemma_included(rs, filter);
    let inc = included(rs, filter);
    assert forall|j: int| 0 <= j < group.copies@.len() implies (#[trigger] group.copies@[j]).volume_id == volume_id by {
        assert(group.copies@[j].volume_id == inc[j].volume_id);
    }
    assert forall|i: int| 0 <= i < rs.len() && (#[trigger] rs[i]).volume_id == volume_id && rs[i].status
        == CopyStatus::Present && rs[i].volume_online implies exists|j: int| 0 <= j < group.copies@.len()
        && (#[trigger] group.copies@[j]).file_copy_id == rs[i].id by {
        let w = choose|w: int| 0 <= w < inc.len() && inc[w] == rs[i];
        assert(group.copies@[w].file_copy_id == inc[w].id);
    }
}

/// Every group of a report made for one volume holds only copies on it.
pub proof fn volume_report_stays_on_its_volume(
    groups: Seq<DuplicateGroup>,
    contents: Seq<ContentRecords>,
    filter: DuplicateFilter,
    volume_id: i64,
    k: int,
    j: int,
)
    requires
        groups_built(groups, contents, filter),
        filter.volume_id == Some(volume_id),
        0 <= k < groups.len(),
        0 <= j < groups[k].copies@.len(),
    ensures
        groups[k].copies@[j].volume_id == volume_id,
{
    volume_filter_keeps_only_that_volume(groups[k], qualifying(contents, filter)[k], filter, volume_id);
}

/// A stored copy is reused only when size, nanosecond modification time,
/// inode and device all equal the scanned file's; any difference is a
/// content change, after which the copy carries the new metadata and no
/// hash at all.
pub proof fn changed_metadata_drops_hashes(
    p: FileRecord,
    m: FileMetadata,
    key: Option<String>,
    timestamp: Seq<char>,
    r: FileRecord,
)
    ensures
        (spec_observe(Some(p), m) is Reused) <==> (p.file_size == m.file_size && p.modified_at_ns == m.modified_at_ns
            && p.inode == m.inode && p.device_id == m.device_id),
        !(p.file_size == m.file_size && p.modified_at_ns == m.modified_at_ns && p.inode == m.inode && p.device_id
            == m.device_id) ==> spec_observe(Some(p), m) == Observation::ContentChanged,
        is_observed(p, m, key, timestamp, r) && p.modified_at_ns != m.modified_at_ns ==> {
            &&& r.modified_at_ns == m.modified_at_ns
            &&& r.full_hash is None
            &&& r.sample_hash is None
            &&& r.content_id is None
            &&& r.hash_state == crate::model::HashState::NotHashed
        },
{
}

proof fn lemma_consistent_indices(volumes: Seq<Volume>, devices: Seq<Option<PhysicalDevice>>, c: VolumeIdentityInput)
    ensures
        forall|k: int| 0 <= k < consistent_indices(volumes, devices, c).len() ==> {
            let i = #[trigger] consistent_indices(volumes, devices, c)[k];
            0 <= i < volumes.len() && spec_identity_is_consistent(volumes[i], c)
        },
    decreases volumes.len(),
{
    if volumes.len() > 0 {
        let n = volumes.len() - 1;
        lemma_consistent_indices(volumes.drop_last(), devices.subrange(0, n), c);
        let before = consistent_indices(volumes.drop_last(), devices.subrange(0, n), c);
        let now = consistent_indices(volumes, devices, c);
        assert forall|k: int| 0 <= k < now.len() implies {
            let i = #[trigger] now[k];
            0 <= i < volumes.len() && spec_identity_is_consistent(volumes[i], c)
        } by {
            if k < before.len() {
                assert(now[k] == before[k]);
                assert(volumes.drop_last()[before[k]] == volumes[before[k]]);
            }
        }
    }
}

/// A volume whose system volume UUID or partition UUID is known on both
/// sides and differs from the candidate's is not the same disk: its identity
/// is not consistent, and registration never relinks the candidate onto it.
pub proof fn contradicting_uuid_is_never_relinked(
    marker: Option<String>,
    volumes: Seq<Volume>,
    devices: Seq<Option<PhysicalDevice>>,
    root: Seq<u8>,
    c: VolumeIdentityInput,
    i: int,
)
    requires
        volumes.len() <= usize::MAX,
        0 <= i < volumes.len(),
        (volumes[i].partition_uuid is Some && c.partition_uuid is Some && volumes[i].partition_uuid->0@
            != c.partition_uuid->0@) || (volumes[i].system_volume_uuid is Some && c.system_volume_uuid is Some
            && volumes[i].system_volume_uuid->0@ != c.system_volume_uuid->0@),
    ensures
        !spec_identity_is_consistent(volumes[i], c),
        spec_registration_action(marker, volumes, devices, root, c) != (RegistrationAction::RelinkVerified {
            index: i as usize,
        }),
{
    lemma_consistent_indices(volumes, devices, c);
    let ci = consistent_indices(volumes, devices, c);
    if ci.len() == 1 && ci[0] as usize == i as usize {
        assert(0 <= ci[0] < volumes.len());
        assert(ci[0] == i);
    }
}

/// A volume and a candidate count as the same disk only when some stable
/// identifier is known on both sides and equal (system volume UUID,
/// partition UUID, or the stored device value matching the candidate's
/// media UUID or device serial), and a stored device value is never
/// contradicted by a different candidate value.
pub proof fn consistency_needs_an_agreeing_identifier(v: Volume, c: VolumeIdentityInput)
    ensures
        spec_identity_is_consistent(v, c) ==> {
            ||| (v.system_volume_uuid is Some && c.system_volume_uuid is Some && v.system_volume_uuid->0@
                == c.system_volume_uuid->0@)
            ||| (v.partition_uuid is Some && c.partition_uuid is Some && v.partition_uuid->0@ == c.partition_uuid->0@)
            ||| (v.device_serial is Some && ((c.media_uuid is Some && c.media_uuid->0@ == v.device_serial->0@) || (
                c.device_serial is Some && c.device_serial->0@ == v.device_serial->0@)))
        },
        (v.device_serial is Some && (c.media_uuid is Some || c.device_serial is Some) && !(c.media_uuid is Some
            && c.media_uuid->0@ == v.device_serial->0@) && !(c.device_serial is Some && c.device_serial->0@
            == v.device_serial->0@)) ==> !spec_identity_is_consistent(v, c),
{
}

} // verus!
