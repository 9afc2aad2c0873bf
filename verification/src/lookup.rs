//! Lookup of one file against the index: when an indexed hash may be reused,
//! and what the answer says about earlier copies.

use vstd::prelude::*;
use crate::duplicate::{copy_view, is_copy_view_of, presents};
use crate::model::{
    clone_opt_string, CacheState, CopyStatus, CopyView, FileRecord, HashState, LookupResult,
};
use crate::report::texts;
use crate::text::{lex_le, string_le};

verus! {

/// Which evidence a lookup rests on.
#[derive(Debug, Clone, Copy, PartialEq, Eq, Structural)]
pub enum LookupStep {
    /// A full hash of the file is computed now.
    FullHash,
    /// The indexed record no longer matches the file; its hash is not reused.
    StaleDirect,
    /// The indexed record matches and carries a trusted full hash.
    CachedFull,
    /// The indexed record matches but has no full hash: sample the file.
    SampleDirect,
    /// The file is not below a registered volume: sample the file.
    SampleUnregistered,
}

/// The step a lookup takes: an explicit full hash always wins; an indexed
/// record is reused only while size, modification time, inode and device all
/// still match.
pub open spec fn spec_lookup_step(use_full_hash: bool, direct: Option<FileRecord>, matches: bool) -> LookupStep {
    if use_full_hash {
        LookupStep::FullHash
    } else if direct is Some {
        if !matches {
            LookupStep::StaleDirect
        } else if direct->0.full_hash is Some {
            LookupStep::CachedFull
        } else {
            LookupStep::SampleDirect
        }
    } else {
        LookupStep::SampleUnregistered
    }
}

pub fn lookup_step(use_full_hash: bool, direct: &Option<FileRecord>, direct_metadata_matches: bool) -> (r: LookupStep)
    ensures
        r == spec_lookup_step(use_full_hash, *direct, direct_metadata_matches),
{
    if use_full_hash {
        LookupStep::FullHash
    } else {
        match direct {
            Some(record) => {
                if !direct_metadata_matches {
                    LookupStep::StaleDirect
                } else if record.full_hash.is_some() {
                    LookupStep::CachedFull
                } else {
                    LookupStep::SampleDirect
                }
            },
            None => LookupStep::SampleUnregistered,
        }
    }
}

pub open spec fn warn_stale() -> Seq<char> {
    "索引记录的大小、修改时间、inode 或设备号已过期；未复用旧完整哈希。请传入 --full-hash 重新计算。"@
}

pub open spec fn warn_sample_only() -> Seq<char> {
    "当前仅有抽样指纹；它不能证明内容完全相同。传入 --full-hash 以得到精确结论。"@
}

pub open spec fn warn_unregistered() -> Seq<char> {
    "文件路径不在已注册卷内，且未计算完整哈希；结果仅是候选，不是重复结论。"@
}

/// The answer is an exact content conclusion.
pub open spec fn step_exact(step: LookupStep) -> bool {
    step == LookupStep::FullHash || step == LookupStep::CachedFull
}

pub open spec fn step_cache_state(step: LookupStep, has_direct: bool, matches: bool) -> CacheState {
    match step {
        LookupStep::FullHash => if has_direct && !matches {
            CacheState::CacheStale
        } else if has_direct {
            CacheState::CacheValid
        } else {
            CacheState::CacheUnverified
        },
        LookupStep::StaleDirect => CacheState::CacheStale,
        LookupStep::CachedFull => CacheState::CacheValid,
        _ => CacheState::CacheUnverified,
    }
}

pub open spec fn step_warnings(step: LookupStep) -> Seq<Seq<char>> {
    match step {
        LookupStep::StaleDirect => seq![warn_stale()],
        LookupStep::SampleDirect => seq![warn_sample_only()],
        LookupStep::SampleUnregistered => seq![warn_unregistered()],
        _ => Seq::empty(),
    }
}

/// The earliest text by string order.
pub open spec fn min_text(s: Seq<Seq<char>>) -> Seq<char>
    decreases s.len(),
{
    if s.len() <= 1 {
        s[0]
    } else {
        let m = min_text(s.drop_last());
        if lex_le(m, s.last()) { m } else { s.last() }
    }
}

/// The latest text by string order.
pub open spec fn max_text(s: Seq<Seq<char>>) -> Seq<char>
    decreases s.len(),
{
    if s.len() <= 1 {
        s[0]
    } else {
        let m = max_text(s.drop_last());
        if lex_le(s.last(), m) { m } else { s.last() }
    }
}

pub open spec fn first_seen_texts(rs: Seq<FileRecord>) -> Seq<Seq<char>> {
    rs.map_values(|r: FileRecord| r.first_seen_at@)
}

pub open spec fn last_seen_texts(rs: Seq<FileRecord>) -> Seq<Seq<char>> {
    rs.map_values(|r: FileRecord| r.last_seen_at@)
}

/// Copies that are online and present.
pub open spec fn count_online_present(cs: Seq<CopyView>) -> nat
    decreases cs.len(),
{
    if cs.len() == 0 {
        0
    } else {
        count_online_present(cs.drop_last()) + if cs.last().is_online && cs.last().status == CopyStatus::Present {
            1nat
        } else {
            0nat
        }
    }
}

/// Copies on offline volumes.
pub open spec fn count_offline(cs: Seq<CopyView>) -> nat
    decreases cs.len(),
{
    if cs.len() == 0 {
        0
    } else {
        count_offline(cs.drop_last()) + if !cs.last().is_online { 1nat } else { 0nat }
    }
}

/// Earliest `first_seen_at` and latest `last_seen_at` of the records.
fn seen_bounds(records: &Vec<FileRecord>) -> (r: (Option<String>, Option<String>))
    ensures
        r.0 is Some <==> records@.len() > 0,
        r.1 is Some <==> records@.len() > 0,
        r.0 matches Some(s) ==> s@ == min_text(first_seen_texts(records@)),
        r.1 matches Some(s) ==> s@ == max_text(last_seen_texts(records@)),
{
    if records.len() == 0 {
        return (None, None);
    }
    let mut lo = records[0].first_seen_at.clone();
    let mut hi = records[0].last_seen_at.clone();
    let mut i: usize = 1;
    proof {
        assert(first_seen_texts(records@.subrange(0, 1)).len() == 1);
        assert(first_seen_texts(records@.subrange(0, 1))[0] == records@[0].first_seen_at@);
        assert(last_seen_texts(records@.subrange(0, 1))[0] == records@[0].last_seen_at@);
    }
    while i < records.len()
        invariant
            1 <= i <= records@.len(),
            lo@ == min_text(first_seen_texts(records@.subrange(0, i as int))),
            hi@ == max_text(last_seen_texts(records@.subrange(0, i as int))),
        decreases records.len() - i,
    {
        proof {
            let b = records@.subrange(0, i as int);
            let a = records@.subrange(0, i + 1);
            assert(a.drop_last() =~= b);
            assert(first_seen_texts(a).drop_last() =~= first_seen_texts(b));
            assert(last_seen_texts(a).drop_last() =~= last_seen_texts(b));
            assert(first_seen_texts(a).last() == records@[i as int].first_seen_at@);
            assert(last_seen_texts(a).last() == records@[i as int].last_seen_at@);
        }
        if !string_le(&lo, &records[i].first_seen_at) {
            lo = records[i].first_seen_at.clone();
        }
        if !string_le(&records[i].last_seen_at, &hi) {
            hi = records[i].last_seen_at.clone();
        }
        i = i + 1;
    }
    proof {
        assert(records@.subrange(0, records@.len() as int) =~= records@);
    }
    (Some(lo), Some(hi))
}

/// The presentation of every record, in order.
pub fn copy_views(records: &Vec<FileRecord>) -> (r: Vec<CopyView>)
    ensures
        presents(r@, records@),
{
    let mut out: Vec<CopyView> = Vec::new();
    let mut i: usize = 0;
    while i < records.len()
        invariant
            i <= records@.len(),
            out@.len() == i,
            forall|k: int| 0 <= k < i ==> is_copy_view_of(#[trigger] out@[k], records@[k]),
        decreases records.len() - i,
    {
        out.push(copy_view(&records[i]));
        i = i + 1;
    }
    out
}

fn count_views(cs: &Vec<CopyView>) -> (r: (usize, usize))
    ensures
        r.0 == count_online_present(cs@),
        r.1 == count_offline(cs@),
{
    let mut online: usize = 0;
    let mut offline: usize = 0;
    let mut i: usize = 0;
    proof {
        assert(cs@.subrange(0, 0) =~= Seq::<CopyView>::empty());
    }
    while i < cs.len()
        invariant
            i <= cs@.len(),
            online <= i,
            offline <= i,
            online == count_online_present(cs@.subrange(0, i as int)),
            offline == count_offline(cs@.subrange(0, i as int)),
        decreases cs.len() - i,
    {
        proof {
            let a = cs@.subrange(0, i + 1);
            assert(a.drop_last() =~= cs@.subrange(0, i as int));
            assert(a.last() == cs@[i as int]);
        }
        if cs[i].is_online && cs[i].status.is_present() {
            online = online + 1;
        }
        if !cs[i].is_online {
            offline = offline + 1;
        }
        i = i + 1;
    }
    proof {
        assert(cs@.subrange(0, cs@.len() as int) =~= cs@);
    }
    (online, offline)
}

/// The answer of a lookup, given the evidence the step called for:
/// `computed_sample` and `computed_full` are the hashes computed now (if
/// any) and `records` the index records that share the evidence.
pub fn assemble_lookup(
    path: String,
    file_size: u64,
    step: LookupStep,
    direct: &Option<FileRecord>,
    direct_metadata_matches: bool,
    computed_sample: Option<String>,
    computed_full: Option<String>,
    records: &Vec<FileRecord>,
) -> (r: LookupResult)
    requires
        step == LookupStep::CachedFull ==> direct is Some,
    ensures
        r.path == path,
        r.file_size == file_size,
        r.sample_hash == match step {
            LookupStep::FullHash | LookupStep::StaleDirect => None,
            LookupStep::CachedFull => direct->0.sample_hash,
            _ => computed_sample,
        },
        r.full_hash == match step {
            LookupStep::FullHash => computed_full,
            LookupStep::CachedFull => direct->0.full_hash,
            _ => None,
        },
        r.exact == step_exact(step),
        r.cache_state == step_cache_state(step, direct is Some, direct_metadata_matches),
        r.hash_state == if step_exact(step) {
            HashState::Full
        } else if r.cache_state == CacheState::CacheStale {
            HashState::Stale
        } else {
            HashState::Sampled
        },
        r.metadata_matches_index == (direct is Some && direct_metadata_matches),
        r.requires_rehash == !step_exact(step),
        r.has_appeared_before == (direct is Some || (step_exact(step) && records@.len() > 0)),
        presents(r.copies@, records@),
        r.known_copies == records@.len(),
        r.online_copies == count_online_present(r.copies@),
        r.offline_copies == count_offline(r.copies@),
        r.first_seen_at is Some <==> records@.len() > 0,
        r.first_seen_at matches Some(s) ==> s@ == min_text(first_seen_texts(records@)),
        r.last_seen_at is Some <==> records@.len() > 0,
        r.last_seen_at matches Some(s) ==> s@ == max_text(last_seen_texts(records@)),
        texts(r.warnings@) == step_warnings(step),
{
    let has_direct = direct.is_some();
    let mut warnings: Vec<String> = Vec::new();
    let (sample, full, exact, cache_state) = match step {
        LookupStep::FullHash => {
            let cache = if has_direct && !direct_metadata_matches {
                CacheState::CacheStale
            } else if has_direct {
                CacheState::CacheValid
            } else {
                CacheState::CacheUnverified
            };
            (None, computed_full, true, cache)
        },
        LookupStep::StaleDirect => {
            warnings.push("索引记录的大小、修改时间、inode 或设备号已过期；未复用旧完整哈希。请传入 --full-hash 重新计算。".to_owned());
            (None, None, false, CacheState::CacheStale)
        },
        LookupStep::CachedFull => {
            match direct {
                Some(record) => (clone_opt_string(&record.sample_hash), clone_opt_string(&record.full_hash), true, CacheState::CacheValid),
                None => (None, None, true, CacheState::CacheValid),
            }
        },
        LookupStep::SampleDirect => {
            warnings.push("当前仅有抽样指纹；它不能证明内容完全相同。传入 --full-hash 以得到精确结论。".to_owned());
            (computed_sample, None, false, CacheState::CacheUnverified)
        },
        LookupStep::SampleUnregistered => {
            warnings.push("文件路径不在已注册卷内，且未计算完整哈希；结果仅是候选，不是重复结论。".to_owned());
            (computed_sample, None, false, CacheState::CacheUnverified)
        },
    };
    proof {
        assert(texts(warnings@) =~= step_warnings(step));
    }
    let copies = copy_views(records);
    let (online, offline) = count_views(&copies);
    let (first_seen_at, last_seen_at) = seen_bounds(records);
    let hash_state = if exact {
        HashState::Full
    } else {
        match cache_state {
            CacheState::CacheStale => HashState::Stale,
            _ => HashState::Sampled,
        }
    };
    let known = copies.len();
    LookupResult {
        path,
        file_size,
        sample_hash: sample,
        full_hash: full,
        hash_state,
        exact,
        cache_state,
        metadata_matches_index: has_direct && direct_metadata_matches,
        requires_rehash: !exact,
        has_appeared_before: has_direct || (exact && records.len() > 0),
        known_copies: known,
        online_copies: online,
        offline_copies: offline,
        copies,
        first_seen_at,
        last_seen_at,
        warnings,
    }
}

} // verus!
