//! Read-only verification of an indexed copy against the file on disk. Only
//! the index's audit fields change; the file itself is never touched.

use vstd::prelude::*;
use crate::duplicate::{metadata_matches_index, spec_metadata_matches};
use crate::model::{FileMetadata, FileRecord};
use crate::text::str_eq;

verus! {

/// Why a copy failed verification: the error it reports, and what is
/// recorded as the copy's last error (nothing when `recorded` is `None`).
#[derive(Debug, Clone, PartialEq, Eq)]
pub struct VerifyFailure {
    pub message: String,
    pub recorded: Option<String>,
}

pub open spec fn metadata_changed_text() -> Seq<char> {
    "文件元数据已改变"@
}

pub open spec fn hash_mismatch_text() -> Seq<char> {
    "完整哈希不匹配"@
}

/// The first stage: the file's metadata must still be the indexed one.
pub fn check_metadata(record: &FileRecord, actual: &FileMetadata, path_text: &str) -> (r: Result<(), VerifyFailure>)
    ensures
        spec_metadata_matches(*record, *actual) ==> r is Ok,
        !spec_metadata_matches(*record, *actual) ==> (r matches Err(f) && f.message@ == metadata_changed_text()
            + ": "@ + path_text@ && f.recorded is Some && f.recorded->0@ == metadata_changed_text()),
{
    if metadata_matches_index(record, actual) {
        Ok(())
    } else {
        let mut message = "文件元数据已改变".to_owned();
        message.append(": ");
        message.append(path_text);
        Err(VerifyFailure { message, recorded: Some("文件元数据已改变".to_owned()) })
    }
}

/// A full-hash verification needs a trusted full hash in the index; the
/// answer is the hash to compare with.
pub fn expected_full_hash<'a>(record: &'a FileRecord, path_text: &str) -> (r: Result<&'a String, VerifyFailure>)
    ensures
        record.full_hash matches Some(h) ==> r == Ok::<&String, VerifyFailure>(&h),
        record.full_hash is None ==> (r matches Err(f) && f.message@ == "记录没有可信完整哈希，不能进行完整哈希验证: "@
            + path_text@ && f.recorded is None),
{
    match &record.full_hash {
        Some(h) => Ok(h),
        None => {
            let mut message = "记录没有可信完整哈希，不能进行完整哈希验证: ".to_owned();
            message.append(path_text);
            Err(VerifyFailure { message, recorded: None })
        },
    }
}

/// The second stage: a hash computed while the metadata stayed unchanged
/// must equal the indexed one.
pub fn check_full_hash(expected: &String, actual_hex: &String, unchanged: bool, path_text: &str) -> (r: Result<
    (),
    VerifyFailure,
>)
    ensures
        !unchanged ==> (r matches Err(f) && f.message@ == "验证期间文件发生变化: "@ + path_text@ && f.recorded is None),
        unchanged && actual_hex@ == expected@ ==> r is Ok,
        unchanged && actual_hex@ != expected@ ==> (r matches Err(f) && f.message@ == hash_mismatch_text() + ": "@
            + path_text@ && f.recorded is Some && f.recorded->0@ == hash_mismatch_text()),
{
    if !unchanged {
        let mut message = "验证期间文件发生变化: ".to_owned();
        message.append(path_text);
        return Err(VerifyFailure { message, recorded: None });
    }
    if str_eq(actual_hex.as_str(), expected.as_str()) {
        Ok(())
    } else {
        let mut message = "完整哈希不匹配".to_owned();
        message.append(": ");
        message.append(path_text);
        Err(VerifyFailure { message, recorded: Some("完整哈希不匹配".to_owned()) })
    }
}

} // verus!
