//! Duplicate content groups: which copies a report shows, and how paths,
//! storage objects, volumes and physical devices are counted.

use vstd::prelude::*;
use crate::model::{clone_opt_string, CopyStatus, CopyView, DuplicateGroup, FileMetadata, FileRecord, PhysicalDeviceIdentityState};
use crate::paths::display_path;
use crate::text::{dec_int, i64_text, utf8_lossy, lex_le, lemma_lex_total, lemma_lex_transitive, string_le};

verus! {

/// Which copies a duplicate report includes.
#[derive(Debug, Clone, Copy)]
pub struct DuplicateFilter {
    pub min_size: u64,
    pub min_copies: usize,
    pub online_only: bool,
    pub include_missing: bool,
    pub volume_id: Option<i64>,
}

impl DuplicateFilter {
    /// The default filter: every size, at least two copies, offline history
    /// kept, missing copies hidden, all volumes.
    pub fn default_filter() -> (r: DuplicateFilter)
        ensures
            r.min_size == 0,
            r.min_copies == 2,
            !r.online_only,
            !r.include_missing,
            r.volume_id is None,
    {
        DuplicateFilter {
            min_size: 0,
            min_copies: 2,
            online_only: false,
            include_missing: false,
            volume_id: None,
        }
    }
}

impl Default for DuplicateFilter {
    fn default() -> (r: DuplicateFilter)
        ensures
            r.min_size == 0,
            r.min_copies == 2,
            !r.online_only,
            !r.include_missing,
            r.volume_id is None,
    {
        DuplicateFilter::default_filter()
    }
}

/// A record passes the filter: it lies on the selected volume, and it is
/// present (online, when only online copies are wanted) or, when missing
/// copies are included and offline ones are not excluded, in any state.
pub open spec fn spec_include_record(record: FileRecord, filter: DuplicateFilter) -> bool {
    if filter.volume_id is Some && record.volume_id != filter.volume_id->0 {
        false
    } else if record.status == CopyStatus::Present {
        !filter.online_only || record.volume_online
    } else if filter.online_only {
        false
    } else {
        filter.include_missing
    }
}

pub fn include_record(record: &FileRecord, filter: &DuplicateFilter) -> (r: bool)
    ensures
        r == spec_include_record(*record, *filter),
{
    if let Some(volume_id) = filter.volume_id {
        if record.volume_id != volume_id {
            return false;
        }
    }
    if record.status.is_present() {
        return !filter.online_only || record.volume_online;
    }
    if filter.online_only {
        return false;
    }
    filter.include_missing
}

/// The displayed status: a present copy on an offline volume is shown as
/// unverified offline history, never as missing.
pub open spec fn spec_view_status(record: FileRecord) -> CopyStatus {
    if !record.volume_online && record.status == CopyStatus::Present {
        CopyStatus::OfflineUnverified
    } else {
        record.status
    }
}

/// `view` presents `record`.
pub open spec fn is_copy_view_of(view: CopyView, record: FileRecord) -> bool {
    &&& view.file_copy_id == record.id
    &&& view.volume_id == record.volume_id
    &&& view.volume_uid == record.volume_uid
    &&& view.volume == record.volume_name
    &&& view.role == record.volume_role
    &&& view.path@ == utf8_lossy(record.relative_path@)
    &&& view.status == spec_view_status(record)
    &&& view.is_online == record.volume_online
    &&& view.physical_device_id == record.physical_device_id
    &&& view.physical_identity_state == record.physical_identity_state
    &&& view.storage_object_key == record.storage_object_key
    &&& view.link_group_id == record.link_group_id
    &&& view.last_error == record.last_error
}

/// The presentation of one indexed copy.
pub fn copy_view(record: &FileRecord) -> (r: CopyView)
    ensures
        is_copy_view_of(r, *record),
{
    let status = if !record.volume_online && record.status.is_present() {
        CopyStatus::OfflineUnverified
    } else {
        record.status
    };
    CopyView {
        file_copy_id: record.id,
        volume_id: record.volume_id,
        volume_uid: record.volume_uid.clone(),
        volume: record.volume_name.clone(),
        role: record.volume_role,
        path: display_path(record.relative_path.as_slice()),
        status,
        is_online: record.volume_online,
        physical_device_id: record.physical_device_id,
        physical_identity_state: record.physical_identity_state,
        storage_object_key: clone_opt_string(&record.storage_object_key),
        link_group_id: clone_opt_string(&record.link_group_id),
        last_error: clone_opt_string(&record.last_error),
    }
}

/// The indexed metadata of a record still describes the observed file:
/// size, nanosecond modification time, inode and device all agree.
pub open spec fn spec_metadata_matches(record: FileRecord, metadata: FileMetadata) -> bool {
    &&& record.file_size == metadata.file_size
    &&& record.modified_at_ns == metadata.modified_at_ns
    &&& record.inode == metadata.inode
    &&& record.device_id == metadata.device_id
}

pub fn metadata_matches_index(record: &FileRecord, metadata: &FileMetadata) -> (r: bool)
    ensures
        r == spec_metadata_matches(*record, *metadata),
{
    record.file_size == metadata.file_size && record.modified_at_ns == metadata.modified_at_ns
        && record.inode == metadata.inode && record.device_id == metadata.device_id
}

/// The storage object a copy occupies: its storage key, or the copy itself
/// when no key is known.
pub open spec fn copy_identity(copy: CopyView) -> Seq<char> {
    match copy.storage_object_key {
        Some(key) => key@,
        None => "path:"@ + dec_int(copy.file_copy_id as int),
    }
}

pub fn storage_object_identity(copy: &CopyView) -> (r: String)
    ensures
        r@ == copy_identity(*copy),
{
    match &copy.storage_object_key {
        Some(key) => key.clone(),
        None => {
            let mut text = "path:".to_owned();
            text.append(i64_text(copy.file_copy_id).as_str());
            text
        },
    }
}

/// A copy counts as an independent, verifiable replica now.
pub open spec fn online_present(copy: CopyView) -> bool {
    copy.is_online && copy.status == CopyStatus::Present
}

/// The physical grouping key of a copy: its device, or the negated volume id
/// when the device is unknown.
pub open spec fn device_key(copy: CopyView) -> i128 {
    match copy.physical_device_id {
        Some(d) => d as i128,
        None => (-(copy.volume_id as int)) as i128,
    }
}

/// Distinct storage objects of the copies.
pub open spec fn identity_set(cs: Seq<CopyView>) -> Set<Seq<char>>
    decreases cs.len(),
{
    if cs.len() == 0 {
        Set::empty()
    } else {
        identity_set(cs.drop_last()).insert(copy_identity(cs.last()))
    }
}

/// Distinct storage objects of the online, present copies.
pub open spec fn online_identity_set(cs: Seq<CopyView>) -> Set<Seq<char>>
    decreases cs.len(),
{
    if cs.len() == 0 {
        Set::empty()
    } else if online_present(cs.last()) {
        online_identity_set(cs.drop_last()).insert(copy_identity(cs.last()))
    } else {
        online_identity_set(cs.drop_last())
    }
}

/// Distinct logical volumes of the copies.
pub open spec fn volume_set(cs: Seq<CopyView>) -> Set<i128>
    decreases cs.len(),
{
    if cs.len() == 0 {
        Set::empty()
    } else {
        volume_set(cs.drop_last()).insert(cs.last().volume_id as i128)
    }
}

/// Distinct physical grouping keys of the copies.
pub open spec fn device_set(cs: Seq<CopyView>) -> Set<i128>
    decreases cs.len(),
{
    if cs.len() == 0 {
        Set::empty()
    } else {
        device_set(cs.drop_last()).insert(device_key(cs.last()))
    }
}

/// Distinct physical devices whose whole-disk identity is verified.
pub open spec fn verified_device_set(cs: Seq<CopyView>) -> Set<i128>
    decreases cs.len(),
{
    if cs.len() == 0 {
        Set::empty()
    } else if cs.last().physical_identity_state == PhysicalDeviceIdentityState::Verified
        && cs.last().physical_device_id is Some {
        verified_device_set(cs.drop_last()).insert(cs.last().physical_device_id->0 as i128)
    } else {
        verified_device_set(cs.drop_last())
    }
}

/// Distinct physical grouping keys of copies without a verified identity.
pub open spec fn unknown_device_set(cs: Seq<CopyView>) -> Set<i128>
    decreases cs.len(),
{
    if cs.len() == 0 {
        Set::empty()
    } else if cs.last().physical_identity_state != PhysicalDeviceIdentityState::Verified {
        unknown_device_set(cs.drop_last()).insert(device_key(cs.last()))
    } else {
        unknown_device_set(cs.drop_last())
    }
}

/// Number of copies with the given displayed status.
pub open spec fn status_count(cs: Seq<CopyView>, status: CopyStatus) -> nat
    decreases cs.len(),
{
    if cs.len() == 0 {
        0
    } else {
        status_count(cs.drop_last(), status) + if cs.last().status == status {
            1nat
        } else {
            0nat
        }
    }
}

/// The records that pass the filter, in order.
pub open spec fn included(records: Seq<FileRecord>, filter: DuplicateFilter) -> Seq<FileRecord>
    decreases records.len(),
{
    if records.len() == 0 {
        Seq::empty()
    } else if spec_include_record(records.last(), filter) {
        included(records.drop_last(), filter).push(records.last())
    } else {
        included(records.drop_last(), filter)
    }
}

/// `copies` presents `records` one to one.
pub open spec fn presents(copies: Seq<CopyView>, records: Seq<FileRecord>) -> bool {
    copies.len() == records.len() && forall|k: int|
        0 <= k < copies.len() ==> is_copy_view_of(#[trigger] copies[k], records[k])
}

/// Theoretical space freed by keeping one copy of each online storage object.
pub open spec fn reclaimable(file_size: u64, online_objects: nat) -> int {
    let extra = if online_objects == 0 { 0 } else { online_objects - 1 };
    if file_size * extra > u64::MAX { u64::MAX as int } else { file_size * extra }
}

/// Every count of `group` is the count of its copies that its name says.
pub open spec fn group_counts_hold(group: DuplicateGroup) -> bool {
    let cs = group.copies@;
    &&& group.known_copies == cs.len()
    &&& group.path_count == cs.len()
    &&& group.online_copies == online_identity_set(cs).len()
    &&& group.offline_copies == status_count(cs, CopyStatus::OfflineUnverified)
    &&& group.missing_copies == status_count(cs, CopyStatus::Missing)
    &&& group.storage_object_count == identity_set(cs).len()
    &&& group.logical_volume_count == volume_set(cs).len()
    &&& group.physical_device_count == device_set(cs).len()
    &&& group.verified_physical_device_count == verified_device_set(cs).len()
    &&& group.unknown_physical_device_count == unknown_device_set(cs).len()
    &&& group.theoretical_reclaimable_bytes == reclaimable(
        group.file_size,
        online_identity_set(cs).len(),
    )
}

/// Inserts `x` into a duplicate-free list of strings unless already there.
fn insert_distinct_string(seen: &mut Vec<String>, x: String)
    requires
        old(seen)@.map_values(|s: String| s@).no_duplicates(),
    ensures
        final(seen)@.map_values(|s: String| s@).no_duplicates(),
        final(seen)@.map_values(|s: String| s@).to_set() == old(seen)@.map_values(
            |s: String| s@,
        ).to_set().insert(x@),
{
    let ghost views = seen@.map_values(|s: String| s@);
    let mut i: usize = 0;
    while i < seen.len()
        invariant
            i <= seen@.len(),
            seen@ == old(seen)@,
            views == seen@.map_values(|s: String| s@),
            views.no_duplicates(),
            forall|j: int| 0 <= j < i ==> views[j] != x@,
        decreases seen.len() - i,
    {
        if seen[i] == x {
            proof {
                assert(views[i as int] == x@);
                assert(views.to_set().contains(x@));
                assert(views.to_set().insert(x@) =~= views.to_set());
            }
            return;
        }
        i = i + 1;
    }
    seen.push(x);
    proof {
        let nv = seen@.map_values(|s: String| s@);
        assert(nv =~= views.push(x@));
        assert(!views.contains(x@));
        views.lemma_push_to_set_commute(x@);
    }
}

/// Inserts `x` into a duplicate-free list of integers unless already there.
fn insert_distinct_int(seen: &mut Vec<i128>, x: i128)
    requires
        old(seen)@.no_duplicates(),
    ensures
        final(seen)@.no_duplicates(),
        final(seen)@.to_set() == old(seen)@.to_set().insert(x),
{
    let mut i: usize = 0;
    while i < seen.len()
        invariant
            i <= seen@.len(),
            seen@ == old(seen)@,
            seen@.no_duplicates(),
            forall|j: int| 0 <= j < i ==> seen@[j] != x,
        decreases seen.len() - i,
    {
        if seen[i] == x {
            proof {
                assert(seen@.to_set().contains(x));
                assert(seen@.to_set().insert(x) =~= seen@.to_set());
            }
            return;
        }
        i = i + 1;
    }
    let ghost before = seen@;
    seen.push(x);
    proof {
        assert(!before.contains(x));
        before.lemma_push_to_set_commute(x);
    }
}

/// Running counters over a prefix of the copies of a group.
pub(crate) struct GroupTally {
    pub(crate) objects: Vec<String>,
    pub(crate) online_objects: Vec<String>,
    pub(crate) volumes: Vec<i128>,
    pub(crate) devices: Vec<i128>,
    pub(crate) verified_devices: Vec<i128>,
    pub(crate) unknown_devices: Vec<i128>,
    pub(crate) offline: usize,
    pub(crate) missing: usize,
}

/// The distinct keys collected so far match the specification over `cs`.
pub(crate) open spec fn tally_matches(t: GroupTally, cs: Seq<CopyView>) -> bool {
    &&& t.objects@.map_values(|s: String| s@).no_duplicates()
    &&& t.objects@.map_values(|s: String| s@).to_set() == identity_set(cs)
    &&& t.online_objects@.map_values(|s: String| s@).no_duplicates()
    &&& t.online_objects@.map_values(|s: String| s@).to_set() == online_identity_set(cs)
    &&& t.volumes@.no_duplicates()
    &&& t.volumes@.to_set() == volume_set(cs)
    &&& t.devices@.no_duplicates()
    &&& t.devices@.to_set() == device_set(cs)
    &&& t.verified_devices@.no_duplicates()
    &&& t.verified_devices@.to_set() == verified_device_set(cs)
    &&& t.unknown_devices@.no_duplicates()
    &&& t.unknown_devices@.to_set() == unknown_device_set(cs)
    &&& t.offline <= cs.len()
    &&& t.missing <= cs.len()
    &&& t.offline == status_count(cs, CopyStatus::OfflineUnverified)
    &&& t.missing == status_count(cs, CopyStatus::Missing)
}


impl GroupTally {
    pub(crate) fn new() -> (r: GroupTally)
        ensures
            tally_matches(r, Seq::empty()),
    {
        let r = GroupTally {
            objects: Vec::new(),
            online_objects: Vec::new(),
            volumes: Vec::new(),
            devices: Vec::new(),
            verified_devices: Vec::new(),
            unknown_devices: Vec::new(),
            offline: 0,
            missing: 0,
        };
        proof {
            assert(r.objects@.map_values(|s: String| s@) =~= Seq::<Seq<char>>::empty());
            assert(r.online_objects@.map_values(|s: String| s@) =~= Seq::<Seq<char>>::empty());
            assert(Seq::<Seq<char>>::empty().to_set() =~= Set::empty());
            assert(Seq::<i128>::empty().to_set() =~= Set::empty());
        }
        r
    }

    pub(crate) fn add(&mut self, copy: &CopyView, Ghost(cs): Ghost<Seq<CopyView>>)
        requires
            tally_matches(*old(self), cs),
            cs.len() + 1 <= usize::MAX,
        ensures
            tally_matches(*final(self), cs.push(*copy)),
    {
        let ghost next = cs.push(*copy);
        proof {
            assert(next.drop_last() =~= cs);
            assert(next.last() == *copy);
        }
        insert_distinct_string(&mut self.objects, storage_object_identity(copy));
        if copy.is_online && copy.status.is_present() {
            insert_distinct_string(&mut self.online_objects, storage_object_identity(copy));
        }
        insert_distinct_int(&mut self.volumes, copy.volume_id as i128);
        let key: i128 = match copy.physical_device_id {
            Some(d) => d as i128,
            None => -(copy.volume_id as i128),
        };
        insert_distinct_int(&mut self.devices, key);
        match copy.physical_identity_state {
            PhysicalDeviceIdentityState::Verified => {
                if let Some(d) = copy.physical_device_id {
                    insert_distinct_int(&mut self.verified_devices, d as i128);
                }
            },
            _ => {
                insert_distinct_int(&mut self.unknown_devices, key);
            },
        }
        match copy.status {
            CopyStatus::OfflineUnverified => {
                self.offline = self.offline + 1;
            },
            CopyStatus::Missing => {
                self.missing = self.missing + 1;
            },
            _ => {},
        }
    }
}

/// Theoretical space freed by keeping a single copy: the file size times the
/// number of online storage objects beyond the first, saturating.
pub fn reclaimable_bytes(file_size: u64, online_objects: usize) -> (r: u64)
    ensures
        r == reclaimable(file_size, online_objects as nat),
{
    let extra: u128 = if online_objects == 0 { 0 } else { (online_objects - 1) as u128 };
    proof {
        assert(extra <= u64::MAX);
        assert((file_size as u128) * extra <= u64::MAX as u128 * u64::MAX as u128) by (nonlinear_arith)
            requires
                file_size <= u64::MAX,
                extra <= u64::MAX,
        ;
    }
    let product: u128 = (file_size as u128) * extra;
    if product > u64::MAX as u128 {
        u64::MAX
    } else {
        product as u64
    }
}

/// The group of one content (full hash and size), with the filtered copies in
/// record order; `None` when fewer copies than the filter asks for remain.
pub fn build_duplicate_group(
    full_hash: String,
    file_size: u64,
    records: &Vec<FileRecord>,
    filter: &DuplicateFilter,
) -> (r: Option<DuplicateGroup>)
    ensures
        r is None <==> included(records@, *filter).len() < filter.min_copies,
        r matches Some(g) ==> {
            &&& g.full_hash == full_hash
            &&& g.file_size == file_size
            &&& presents(g.copies@, included(records@, *filter))
            &&& group_counts_hold(g)
        },
{
    let mut copies: Vec<CopyView> = Vec::new();
    let mut i: usize = 0;
    proof {
        assert(records@.subrange(0, 0) =~= Seq::<FileRecord>::empty());
    }
    while i < records.len()
        invariant
            i <= records@.len(),
            presents(copies@, included(records@.subrange(0, i as int), *filter)),
            copies@.len() <= i,
        decreases records.len() - i,
    {
        let ghost before = records@.subrange(0, i as int);
        let ghost after = records@.subrange(0, i + 1);
        proof {
            assert(after.drop_last() =~= before);
            assert(after.last() == records@[i as int]);
        }
        if include_record(&records[i], filter) {
            let v = copy_view(&records[i]);
            copies.push(v);
            proof {
                let inc = included(after, *filter);
                assert(inc == included(before, *filter).push(records@[i as int]));
                assert forall|k: int| 0 <= k < copies@.len() implies is_copy_view_of(
                    #[trigger] copies@[k],
                    inc[k],
                ) by {
                    if k < copies@.len() - 1 {
                        assert(copies@[k] == old_copies_at(copies@, k));
                    }
                }
            }
        }
        i = i + 1;
    }
    proof {
        assert(records@.subrange(0, records@.len() as int) =~= records@);
    }
    if copies.len() < filter.min_copies {
        return None;
    }
    let mut tally = GroupTally::new();
    let mut j: usize = 0;
    proof {
        assert(copies@.subrange(0, 0) =~= Seq::<CopyView>::empty());
    }
    while j < copies.len()
        invariant
            j <= copies@.len(),
            tally_matches(tally, copies@.subrange(0, j as int)),
        decreases copies.len() - j,
    {
        proof {
            assert(copies@.subrange(0, j + 1) =~= copies@.subrange(0, j as int).push(copies@[j as int]));
        }
        tally.add(&copies[j], Ghost(copies@.subrange(0, j as int)));
        j = j + 1;
    }
    proof {
        let cs = copies@;
        assert(copies@.subrange(0, copies@.len() as int) =~= cs);
        tally.objects@.map_values(|s: String| s@).unique_seq_to_set();
        tally.online_objects@.map_values(|s: String| s@).unique_seq_to_set();
        tally.volumes@.unique_seq_to_set();
        tally.devices@.unique_seq_to_set();
        tally.verified_devices@.unique_seq_to_set();
        tally.unknown_devices@.unique_seq_to_set();
    }
    let online = tally.online_objects.len();
    let reclaim = reclaimable_bytes(file_size, online);
    let known = copies.len();
    Some(DuplicateGroup {
        full_hash,
        file_size,
        known_copies: known,
        online_copies: online,
        offline_copies: tally.offline,
        missing_copies: tally.missing,
        path_count: known,
        storage_object_count: tally.objects.len(),
        logical_volume_count: tally.volumes.len(),
        physical_device_count: tally.devices.len(),
        verified_physical_device_count: tally.verified_devices.len(),
        unknown_physical_device_count: tally.unknown_devices.len(),
        theoretical_reclaimable_bytes: reclaim,
        copies,
    })
}

spec fn old_copies_at(s: Seq<CopyView>, k: int) -> CopyView {
    s[k]
}


/// The records indexed for one content (full hash and size).
#[derive(Debug, Clone)]
pub struct ContentRecords {
    pub content_id: i64,
    pub full_hash: String,
    pub file_size: u64,
    pub records: Vec<FileRecord>,
}

/// `group` is the duplicate group of `content` under `filter`.
pub open spec fn is_group_of(group: DuplicateGroup, content: ContentRecords, filter: DuplicateFilter) -> bool {
    &&& group.full_hash == content.full_hash
    &&& group.file_size == content.file_size
    &&& presents(group.copies@, included(content.records@, filter))
    &&& group_counts_hold(group)
}

/// Number of records whose copy is present.
pub open spec fn present_records(rs: Seq<FileRecord>) -> nat
    decreases rs.len(),
{
    if rs.len() == 0 {
        0
    } else {
        present_records(rs.drop_last()) + if rs.last().status == CopyStatus::Present {
            1nat
        } else {
            0nat
        }
    }
}

/// A content is reported when it is at least `min_size` bytes, at least two
/// of its copies are present, and the filter keeps at least `min_copies`.
pub open spec fn content_qualifies(c: ContentRecords, filter: DuplicateFilter) -> bool {
    &&& c.file_size >= filter.min_size
    &&& present_records(c.records@) >= 2
    &&& included(c.records@, filter).len() >= filter.min_copies
}

/// The contents that qualify for a duplicate group.
pub open spec fn qualifying(cs: Seq<ContentRecords>, filter: DuplicateFilter) -> Seq<ContentRecords>
    decreases cs.len(),
{
    if cs.len() == 0 {
        Seq::empty()
    } else if content_qualifies(cs.last(), filter) {
        qualifying(cs.drop_last(), filter).push(cs.last())
    } else {
        qualifying(cs.drop_last(), filter)
    }
}

/// `groups` are the groups of the qualifying contents, in content order.
pub open spec fn groups_built(groups: Seq<DuplicateGroup>, cs: Seq<ContentRecords>, filter: DuplicateFilter) -> bool {
    let q = qualifying(cs, filter);
    groups.len() == q.len() && forall|k: int| 0 <= k < groups.len() ==> is_group_of(#[trigger] groups[k], q[k], filter)
}

/// Report order: most reclaimable space first, then larger files, then hash.
pub open spec fn group_le(a: DuplicateGroup, b: DuplicateGroup) -> bool {
    ||| a.theoretical_reclaimable_bytes > b.theoretical_reclaimable_bytes
    ||| (a.theoretical_reclaimable_bytes == b.theoretical_reclaimable_bytes && (a.file_size > b.file_size
        || (a.file_size == b.file_size && lex_le(a.full_hash@, b.full_hash@))))
}

/// The groups are in report order.
pub open spec fn groups_sorted(s: Seq<DuplicateGroup>) -> bool {
    forall|i: int, j: int| 0 <= i < j < s.len() ==> group_le(#[trigger] s[i], #[trigger] s[j])
}

proof fn lemma_group_total(a: DuplicateGroup, b: DuplicateGroup)
    ensures
        group_le(a, b) || group_le(b, a),
{
    lemma_lex_total(a.full_hash@, b.full_hash@);
}

proof fn lemma_group_transitive(a: DuplicateGroup, b: DuplicateGroup, c: DuplicateGroup)
    requires
        group_le(a, b),
        group_le(b, c),
    ensures
        group_le(a, c),
{
    if a.theoretical_reclaimable_bytes == c.theoretical_reclaimable_bytes && a.file_size == c.file_size {
        lemma_lex_transitive(a.full_hash@, b.full_hash@, c.full_hash@);
    }
}

/// Whether `a` comes no later than `b` in report order.
pub fn group_order_le(a: &DuplicateGroup, b: &DuplicateGroup) -> (r: bool)
    ensures
        r == group_le(*a, *b),
{
    if a.theoretical_reclaimable_bytes != b.theoretical_reclaimable_bytes {
        return a.theoretical_reclaimable_bytes > b.theoretical_reclaimable_bytes;
    }
    if a.file_size != b.file_size {
        return a.file_size > b.file_size;
    }
    string_le(&a.full_hash, &b.full_hash)
}

/// Stable sort of groups into report order.
pub fn sort_groups(groups: Vec<DuplicateGroup>) -> (r: Vec<DuplicateGroup>)
    ensures
        groups_sorted(r@),
        r@.to_multiset() == groups@.to_multiset(),
{
    let mut out: Vec<DuplicateGroup> = Vec::new();
    let mut rest = groups;
    let ghost all = rest@;
    proof {
        broadcast use vstd::seq_lib::group_to_multiset_ensures;
        assert(all.subrange(0, 0) =~= Seq::<DuplicateGroup>::empty());
    }
    let n = rest.len();
    let mut taken: Vec<DuplicateGroup> = Vec::new();
    // consume the input front to back
    rest = reverse_groups(rest);
    let ghost reversed = rest@;
    let mut i: usize = 0;
    while i < n
        invariant
            n == all.len(),
            i <= n,
            rest@.len() == n - i,
            rest@ == reversed.subrange(0, (n - i) as int),
            reversed.len() == n,
            forall|k: int| 0 <= k < n ==> reversed[k] == all[n - 1 - k],
            groups_sorted(out@),
            out@.to_multiset() == all.subrange(0, i as int).to_multiset(),
        decreases n - i,
    {
        let g = rest.pop().unwrap();
        proof {
            assert(g == all[i as int]);
            assert(rest@ =~= reversed.subrange(0, (n - i - 1) as int));
        }
        let mut p: usize = 0;
        while p < out.len()
            invariant
                p <= out@.len(),
                forall|k: int| 0 <= k < p ==> group_le(#[trigger] out@[k], g),
            ensures
                p <= out@.len(),
                forall|k: int| 0 <= k < p ==> group_le(#[trigger] out@[k], g),
                p < out@.len() ==> !group_le(out@[p as int], g),
            decreases out.len() - p,
        {
            if !group_order_le(&out[p], &g) {
                break;
            }
            p = p + 1;
        }
        let ghost before = out@;
        proof {
            if p < out@.len() {
                assert(!group_le(out@[p as int], g));
                lemma_group_total(out@[p as int], g);
            }
        }
        out.insert(p, g);
        proof {
            vstd::seq_lib::to_multiset_insert(before, p as int, g);
            vstd::seq_lib::to_multiset_build(all.subrange(0, i as int), g);
            assert(out@ == before.insert(p as int, g));
            assert(all.subrange(0, i + 1) =~= all.subrange(0, i as int).push(g));
            assert forall|x: int, y: int| 0 <= x < y < out@.len() implies group_le(
                #[trigger] out@[x],
                #[trigger] out@[y],
            ) by {
                if y < p {
                    assert(out@[x] == before[x] && out@[y] == before[y]);
                } else if y == p {
                    assert(out@[x] == before[x]);
                } else if x == p {
                    assert(out@[y] == before[y - 1]);
                    if y - 1 > p {
                        assert(group_le(before[p as int], before[y - 1]));
                        lemma_group_transitive(g, before[p as int], before[y - 1]);
                    }
                } else if x < p {
                    assert(out@[x] == before[x] && out@[y] == before[y - 1]);
                } else {
                    assert(out@[x] == before[x - 1] && out@[y] == before[y - 1]);
                }
            }
        }
        i = i + 1;
    }
    proof {
        assert(all.subrange(0, n as int) =~= all);
    }
    out
}

/// The groups in reverse order.
fn reverse_groups(v: Vec<DuplicateGroup>) -> (r: Vec<DuplicateGroup>)
    ensures
        r@.len() == v@.len(),
        forall|k: int| 0 <= k < v@.len() ==> r@[k] == v@[v@.len() - 1 - k],
{
    let mut src = v;
    let ghost orig = src@;
    let mut out: Vec<DuplicateGroup> = Vec::new();
    while src.len() > 0
        invariant
            src@ == orig.subrange(0, src@.len() as int),
            out@.len() + src@.len() == orig.len(),
            forall|k: int| 0 <= k < out@.len() ==> out@[k] == orig[orig.len() - 1 - k],
        decreases src.len(),
    {
        let x = src.pop().unwrap();
        out.push(x);
    }
    out
}

/// Counts the present records, up to two.
fn count_present(records: &Vec<FileRecord>) -> (r: usize)
    ensures
        r == if present_records(records@) >= 2 {
            2
        } else {
            present_records(records@)
        },
{
    let mut n: usize = 0;
    let mut k: usize = 0;
    while k < records.len()
        invariant
            k <= records@.len(),
            n == if present_records(records@.subrange(0, k as int)) >= 2 {
                2
            } else {
                present_records(records@.subrange(0, k as int))
            },
        decreases records.len() - k,
    {
        proof {
            assert(records@.subrange(0, k + 1).drop_last() =~= records@.subrange(0, k as int));
        }
        if records[k].status.is_present() && n < 2 {
            n = n + 1;
        }
        k = k + 1;
    }
    proof {
        assert(records@.subrange(0, records@.len() as int) =~= records@);
    }
    n
}

/// The groups of the given contents, in content order.
pub fn groups_for_contents(contents: &Vec<ContentRecords>, filter: &DuplicateFilter) -> (r: Vec<DuplicateGroup>)
    ensures
        groups_built(r@, contents@, *filter),
{
    let mut out: Vec<DuplicateGroup> = Vec::new();
    let mut i: usize = 0;
    proof {
        assert(contents@.subrange(0, 0) =~= Seq::<ContentRecords>::empty());
    }
    while i < contents.len()
        invariant
            i <= contents@.len(),
            groups_built(out@, contents@.subrange(0, i as int), *filter),
        decreases contents.len() - i,
    {
        let ghost before = contents@.subrange(0, i as int);
        let ghost after = contents@.subrange(0, i + 1);
        proof {
            assert(after.drop_last() =~= before);
            assert(after.last() == contents@[i as int]);
        }
        let c = &contents[i];
        if c.file_size < filter.min_size || count_present(&c.records) < 2 {
            i = i + 1;
            continue;
        }
        match build_duplicate_group(c.full_hash.clone(), c.file_size, &c.records, filter) {
            Some(g) => {
                let ghost old_out = out@;
                out.push(g);
                proof {
                    let q = qualifying(after, *filter);
                    assert(q == qualifying(before, *filter).push(contents@[i as int]));
                    assert forall|k: int| 0 <= k < out@.len() implies is_group_of(
                        #[trigger] out@[k],
                        q[k],
                        *filter,
                    ) by {
                        if k < old_out.len() {
                            assert(out@[k] == old_out[k]);
                        }
                    }
                }
            },
            None => {},
        }
        i = i + 1;
    }
    proof {
        assert(contents@.subrange(0, contents@.len() as int) =~= contents@);
    }
    out
}

/// The duplicate groups of the given contents in report order: each group is
/// the group of one qualifying content, and every qualifying content has
/// exactly one group.
pub fn duplicate_groups(contents: &Vec<ContentRecords>, filter: &DuplicateFilter) -> (r: Vec<DuplicateGroup>)
    ensures
        groups_sorted(r@),
        exists|built: Seq<DuplicateGroup>| groups_built(built, contents@, *filter) && r@.to_multiset()
            == built.to_multiset(),
{
    let built = groups_for_contents(contents, filter);
    let ghost b = built@;
    let r = sort_groups(built);
    assert(groups_built(b, contents@, *filter) && r@.to_multiset() == b.to_multiset());
    r
}

/// How many contents one page reads: the requested limit, and at least one.
pub fn page_limit(limit: usize) -> (r: usize)
    ensures
        r == if limit == 0 { 1 } else { limit },
{
    if limit == 0 { 1 } else { limit }
}

/// The cursor that continues after a page of contents: the last content's id
/// when the page came back full, since a shorter page was the last one.
pub fn next_page_cursor(page: &Vec<ContentRecords>, limit: usize) -> (r: Option<i64>)
    ensures
        r == if page@.len() > 0 && page@.len() >= (if limit == 0 { 1 } else { limit as int }) {
            Some(page@.last().content_id)
        } else {
            None::<i64>
        },
{
    let n = page.len();
    if n > 0 && n >= page_limit(limit) {
        Some(page[n - 1].content_id)
    } else {
        None
    }
}

/// The theoretical space of all groups together, saturating at `u64::MAX`.
pub open spec fn total_reclaimable(groups: Seq<DuplicateGroup>) -> nat
    decreases groups.len(),
{
    if groups.len() == 0 {
        0
    } else {
        let t = total_reclaimable(groups.drop_last()) + groups.last().theoretical_reclaimable_bytes;
        if t > u64::MAX { u64::MAX as nat } else { t as nat }
    }
}

/// The overview's theoretical reclaimable space: the groups' amounts summed.
pub fn total_reclaimable_bytes(groups: &Vec<DuplicateGroup>) -> (r: u64)
    ensures
        r == total_reclaimable(groups@),
{
    let mut total: u64 = 0;
    let mut k: usize = 0;
    while k < groups.len()
        invariant
            k <= groups@.len(),
            total == total_reclaimable(groups@.subrange(0, k as int)),
        decreases groups.len() - k,
    {
        proof {
            assert(groups@.subrange(0, k + 1).drop_last() =~= groups@.subrange(0, k as int));
        }
        total = total.saturating_add(groups[k].theoretical_reclaimable_bytes);
        k = k + 1;
    }
    proof {
        assert(groups@.subrange(0, groups@.len() as int) =~= groups@);
    }
    total
}

} // verus!
