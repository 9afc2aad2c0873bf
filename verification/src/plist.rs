//! Reading the few values the index needs out of the property list text
//! that the platform's disk utility prints, and turning them into volume
//! identity evidence.

use vstd::prelude::*;
use crate::text::{chars_of, contains_seq, find_seq, occurs_at, spec_trim_start, trim_start_str};
use crate::volume::VolumeIdentityInput;

verus! {

/// The first position at which `pat` occurs in `s`.
pub open spec fn first_occurrence(s: Seq<char>, pat: Seq<char>) -> Option<int> {
    if contains_seq(s, pat) {
        Some(choose|i: int| occurs_at(s, pat, i) && forall|j: int| 0 <= j < i ==> !occurs_at(s, pat, j))
    } else {
        None
    }
}

/// The text after the first occurrence of `pat`.
pub open spec fn after_first(s: Seq<char>, pat: Seq<char>) -> Option<Seq<char>> {
    match first_occurrence(s, pat) {
        Some(i) => Some(s.subrange(i + pat.len(), s.len() as int)),
        None => None,
    }
}

/// The text before the first `<`.
pub open spec fn before_tag(s: Seq<char>) -> Option<Seq<char>> {
    match first_occurrence(s, seq!['<']) {
        Some(j) => Some(s.subrange(0, j)),
        None => None,
    }
}

pub open spec fn key_marker(key: Seq<char>) -> Seq<char> {
    "<key>"@ + key + "</key>"@
}

/// The text right after `key`'s entry, leading whitespace removed.
pub open spec fn value_text(xml: Seq<char>, key: Seq<char>) -> Option<Seq<char>> {
    match after_first(xml, key_marker(key)) {
        Some(after) => Some(spec_trim_start(after)),
        None => None,
    }
}

/// The string or integer value of the first entry named `key`.
pub open spec fn spec_plist_value(xml: Seq<char>, key: Seq<char>) -> Option<Seq<char>> {
    match value_text(xml, key) {
        None => None,
        Some(t) => if occurs_at(t, "<string>"@, 0) {
            before_tag(t.skip("<string>"@.len() as int))
        } else if occurs_at(t, "<integer>"@, 0) {
            before_tag(t.skip("<integer>"@.len() as int))
        } else {
            None
        },
    }
}

/// The boolean value of the first entry named `key`.
pub open spec fn spec_plist_bool(xml: Seq<char>, key: Seq<char>) -> Option<bool> {
    match value_text(xml, key) {
        None => None,
        Some(t) => if occurs_at(t, "<true/>"@, 0) {
            Some(true)
        } else if occurs_at(t, "<false/>"@, 0) {
            Some(false)
        } else {
            None
        },
    }
}

fn first_index(s: &Vec<char>, pat: &Vec<char>) -> (r: Option<usize>)
    ensures
        match r {
            Some(i) => first_occurrence(s@, pat@) == Some(i as int) && i + pat@.len() <= s@.len(),
            None => first_occurrence(s@, pat@) is None,
        },
{
    let found = find_seq(s, pat);
    match found {
        Some(i) => {
            proof {
                assert(contains_seq(s@, pat@));
                let c = choose|c: int| occurs_at(s@, pat@, c) && forall|j: int| 0 <= j < c ==> !occurs_at(s@, pat@, j);
                if c < i {
                    assert(!occurs_at(s@, pat@, c));
                } else if c > i {
                    assert(!occurs_at(s@, pat@, i as int));
                }
            }
            Some(i)
        },
        None => None,
    }
}

fn after_key<'a>(xml: &'a str, key: &str) -> (r: Option<&'a str>)
    ensures
        match r {
            Some(t) => value_text(xml@, key@) == Some(t@),
            None => value_text(xml@, key@) is None,
        },
{
    let mut marker = "<key>".to_owned();
    marker.append(key);
    marker.append("</key>");
    let xs = chars_of(xml);
    let ms = chars_of(marker.as_str());
    let found = first_index(&xs, &ms);
    match found {
        None => None,
        Some(i) => {
            let ml = ms.len();
            let xl = xs.len();
            assert(i + ml <= xl);
            let start: usize = i + ml;
            let rest = xml.substring_char(start, xl);
            Some(trim_start_str(rest))
        },
    }
}

fn text_before_tag(t: &str) -> (r: Option<String>)
    ensures
        match r {
            Some(v) => before_tag(t@) == Some(v@),
            None => before_tag(t@) is None,
        },
{
    let ts = chars_of(t);
    let mut lt: Vec<char> = Vec::new();
    lt.push('<');
    proof {
        assert(lt@ =~= seq!['<']);
    }
    match first_index(&ts, &lt) {
        None => None,
        Some(j) => Some(t.substring_char(0, j).to_owned()),
    }
}

fn starts_with_text(t: &str, prefix: &str) -> (r: bool)
    ensures
        r == occurs_at(t@, prefix@, 0),
{
    let ts = chars_of(t);
    let ps = chars_of(prefix);
    crate::text::matches_at(&ts, &ps, 0)
}

/// The string or integer value of the first entry named `key`.
pub fn plist_value(xml: &str, key: &str) -> (r: Option<String>)
    ensures
        match r {
            Some(v) => spec_plist_value(xml@, key@) == Some(v@),
            None => spec_plist_value(xml@, key@) is None,
        },
{
    let t = match after_key(xml, key) {
        None => {
            return None;
        },
        Some(t) => t,
    };
    if starts_with_text(t, "<string>") {
        let n = chars_of(t).len();
        let body = t.substring_char(chars_of("<string>").len(), n);
        text_before_tag(body)
    } else if starts_with_text(t, "<integer>") {
        let n = chars_of(t).len();
        let body = t.substring_char(chars_of("<integer>").len(), n);
        text_before_tag(body)
    } else {
        None
    }
}

/// The boolean value of the first entry named `key`.
pub fn plist_bool(xml: &str, key: &str) -> (r: Option<bool>)
    ensures
        r == spec_plist_bool(xml@, key@),
{
    let t = match after_key(xml, key) {
        None => {
            return None;
        },
        Some(t) => t,
    };
    if starts_with_text(t, "<true/>") {
        Some(true)
    } else if starts_with_text(t, "<false/>") {
        Some(false)
    } else {
        None
    }
}

/// The first serial number the whole disk reports under any of its names.
pub open spec fn spec_hardware_serial(xml: Seq<char>) -> Option<Seq<char>> {
    if spec_plist_value(xml, "DeviceSerial"@) is Some {
        spec_plist_value(xml, "DeviceSerial"@)
    } else if spec_plist_value(xml, "SerialNumber"@) is Some {
        spec_plist_value(xml, "SerialNumber"@)
    } else {
        spec_plist_value(xml, "MediaSerialNumber"@)
    }
}

pub fn plist_hardware_serial(xml: &str) -> (r: Option<String>)
    ensures
        match r {
            Some(v) => spec_hardware_serial(xml@) == Some(v@),
            None => spec_hardware_serial(xml@) is None,
        },
{
    let a = plist_value(xml, "DeviceSerial");
    if a.is_some() {
        return a;
    }
    let b = plist_value(xml, "SerialNumber");
    if b.is_some() {
        return b;
    }
    plist_value(xml, "MediaSerialNumber")
}


pub open spec fn is_digit(c: char) -> bool {
    '0' <= c && c <= '9'
}

/// The value of a run of decimal digits.
pub open spec fn digits_value(s: Seq<char>) -> nat
    decreases s.len(),
{
    if s.len() == 0 {
        0
    } else {
        digits_value(s.drop_last()) * 10 + ((s.last() as u32) - 48) as nat
    }
}

/// Every character is an ASCII digit.
pub open spec fn all_digits(s: Seq<char>) -> bool {
    forall|i: int| 0 <= i < s.len() ==> is_digit(#[trigger] s[i])
}

/// The digits after an optional leading sign.
pub open spec fn unsigned_part(s: Seq<char>) -> Seq<char> {
    if s.len() > 0 && (s[0] == '-' || s[0] == '+') {
        s.skip(1)
    } else {
        s
    }
}

/// A signed decimal integer as `str::parse::<i64>` reads it: an optional
/// `+` or `-`, then at least one digit, within range.
pub open spec fn spec_parse_i64(s: Seq<char>) -> Option<i64> {
    let body = unsigned_part(s);
    let v: int = if s.len() > 0 && s[0] == '-' {
        -(digits_value(body) as int)
    } else {
        digits_value(body) as int
    };
    if body.len() > 0 && all_digits(body) && i64::MIN <= v <= i64::MAX {
        Some(v as i64)
    } else {
        None
    }
}

proof fn lemma_digits_grow(s: Seq<char>, k: int)
    requires
        0 <= k <= s.len(),
        forall|i: int| 0 <= i < s.len() ==> is_digit(#[trigger] s[i]),
    ensures
        digits_value(s.subrange(0, k)) <= digits_value(s),
    decreases s.len() - k,
{
    if k < s.len() {
        lemma_digits_grow(s, k + 1);
        assert(s.subrange(0, k + 1).drop_last() =~= s.subrange(0, k));
    } else {
        assert(s.subrange(0, k) =~= s);
    }
}

/// `str::parse::<i64>`, without the error detail.
pub fn parse_i64(s: &str) -> (r: Option<i64>)
    ensures
        r == spec_parse_i64(s@),
{
    let cs = chars_of(s);
    let n = cs.len();
    let neg = n > 0 && cs[0] == '-';
    let start: usize = if n > 0 && (cs[0] == '-' || cs[0] == '+') {
        1
    } else {
        0
    };
    let ghost body = unsigned_part(s@);
    proof {
        assert(body =~= cs@.subrange(start as int, n as int));
    }
    if start >= n {
        return None;
    }
    let limit: u128 = 9223372036854775808;
    let mut acc: u128 = 0;
    let mut over = false;
    let mut k: usize = start;
    while k < n
        invariant
            start <= k <= n,
            n == cs@.len(),
            cs@ == s@,
            body == cs@.subrange(start as int, n as int),
            body == unsigned_part(s@),
            limit == 9223372036854775808,
            forall|i: int| start <= i < k ==> is_digit(#[trigger] cs@[i]),
            !over ==> acc == digits_value(cs@.subrange(start as int, k as int)) && acc <= limit,
            over ==> digits_value(cs@.subrange(start as int, k as int)) > limit,
        decreases n - k,
    {
        let c = cs[k];
        if !('0' <= c && c <= '9') {
            proof {
                assert(body[k - start] == c);
                assert(!is_digit(body[k - start]));
                assert(!all_digits(body));
            }
            return None;
        }
        let d: u128 = (c as u32 - 48) as u128;
        proof {
            let pre = cs@.subrange(start as int, k as int);
            let nxt = cs@.subrange(start as int, k + 1);
            assert(nxt.drop_last() =~= pre);
            assert(nxt.last() == c);
        }
        if !over {
            let next = acc * 10 + d;
            if next > limit {
                over = true;
            } else {
                acc = next;
            }
        }
        k = k + 1;
    }
    proof {
        assert(cs@.subrange(start as int, n as int) == body);
        assert forall|i: int| 0 <= i < body.len() implies is_digit(#[trigger] body[i]) by {
            assert(body[i] == cs@[start + i]);
        }
        assert(all_digits(body));
    }
    if over {
        return None;
    }
    if neg {
        if acc == limit {
            Some(-9223372036854775807i64 - 1)
        } else {
            Some(-(acc as i64))
        }
    } else {
        if acc >= limit {
            None
        } else {
            Some(acc as i64)
        }
    }
}

/// The whole disk that holds the volume: its parent disk, or the volume's
/// own device when it is a whole disk itself.
pub open spec fn spec_whole_disk_identifier(plist: Seq<char>) -> Option<Seq<char>> {
    if spec_plist_value(plist, "ParentWholeDisk"@) is Some {
        spec_plist_value(plist, "ParentWholeDisk"@)
    } else if spec_plist_bool(plist, "Whole"@) == Some(true) {
        spec_plist_value(plist, "DeviceIdentifier"@)
    } else {
        None
    }
}

pub fn whole_disk_identifier(plist: &str) -> (r: Option<String>)
    ensures
        match r {
            Some(v) => spec_whole_disk_identifier(plist@) == Some(v@),
            None => spec_whole_disk_identifier(plist@) is None,
        },
{
    let parent = plist_value(plist, "ParentWholeDisk");
    if parent.is_some() {
        return parent;
    }
    match plist_bool(plist, "Whole") {
        Some(true) => plist_value(plist, "DeviceIdentifier"),
        _ => None,
    }
}

/// An optional text as the `Seq` view of an optional `String`.
pub open spec fn opt_view(o: Option<String>) -> Option<Seq<char>> {
    match o {
        Some(s) => Some(s@),
        None => None,
    }
}

pub open spec fn or_value(a: Option<Seq<char>>, b: Option<Seq<char>>) -> Option<Seq<char>> {
    if a is Some {
        a
    } else {
        b
    }
}

pub open spec fn whole_value(whole: Option<Seq<char>>, key: Seq<char>) -> Option<Seq<char>> {
    match whole {
        Some(w) => spec_plist_value(w, key),
        None => None,
    }
}

/// The identity evidence read from the volume's property list and, when
/// known, its whole disk's. A partition's device identifier never counts as
/// a serial number; sizes that do not parse are left unknown.
pub open spec fn spec_identity_from_plists(
    plist: Seq<char>,
    whole: Option<Seq<char>>,
    fallback_filesystem: Seq<char>,
    i: VolumeIdentityInput,
) -> bool {
    &&& i.filesystem@ == match or_value(
        spec_plist_value(plist, "FilesystemType"@),
        spec_plist_value(plist, "FilesystemName"@),
    ) {
        Some(f) => f,
        None => fallback_filesystem,
    }
    &&& opt_view(i.system_volume_uuid) == spec_plist_value(plist, "VolumeUUID"@)
    &&& opt_view(i.partition_uuid) == spec_plist_value(plist, "DiskUUID"@)
    &&& opt_view(i.media_uuid) == spec_plist_value(plist, "MediaUUID"@)
    &&& i.device_serial is None
    &&& opt_view(i.whole_disk_identifier) == spec_whole_disk_identifier(plist)
    &&& opt_view(i.whole_disk_media_uuid) == whole_value(whole, "MediaUUID"@)
    &&& opt_view(i.hardware_serial) == match whole {
        Some(w) => spec_hardware_serial(w),
        None => None,
    }
    &&& opt_view(i.model) == or_value(whole_value(whole, "MediaName"@), whole_value(whole, "DeviceModel"@))
    &&& opt_view(i.transport) == or_value(
        whole_value(whole, "BusProtocol"@),
        spec_plist_value(plist, "BusProtocol"@),
    )
    &&& i.total_size == match or_value(whole_value(whole, "TotalSize"@), spec_plist_value(plist, "TotalSize"@)) {
        Some(t) => spec_parse_i64(t),
        None => None,
    }
}

fn whole_plist_value(whole: Option<&str>, key: &str) -> (r: Option<String>)
    ensures
        opt_view(r) == whole_value(
            match whole {
                Some(w) => Some(w@),
                None => None,
            },
            key@,
        ),
{
    match whole {
        Some(w) => plist_value(w, key),
        None => None,
    }
}

fn or_string(a: Option<String>, b: Option<String>) -> (r: Option<String>)
    ensures
        opt_view(r) == or_value(opt_view(a), opt_view(b)),
{
    if a.is_some() {
        a
    } else {
        b
    }
}

/// Builds the identity evidence from the volume's property list and its
/// whole disk's, when that could be read.
pub fn identity_from_plists(plist: &str, whole: Option<&str>, fallback_filesystem: String) -> (r:
    VolumeIdentityInput)
    ensures
        spec_identity_from_plists(
            plist@,
            match whole {
                Some(w) => Some(w@),
                None => None,
            },
            fallback_filesystem@,
            r,
        ),
{
    let filesystem = match or_string(plist_value(plist, "FilesystemType"), plist_value(plist, "FilesystemName")) {
        Some(f) => f,
        None => fallback_filesystem,
    };
    let hardware_serial = match whole {
        Some(w) => plist_hardware_serial(w),
        None => None,
    };
    let size_text = or_string(whole_plist_value(whole, "TotalSize"), plist_value(plist, "TotalSize"));
    let total_size = match &size_text {
        Some(t) => parse_i64(t.as_str()),
        None => None,
    };
    VolumeIdentityInput {
        filesystem,
        system_volume_uuid: plist_value(plist, "VolumeUUID"),
        partition_uuid: plist_value(plist, "DiskUUID"),
        media_uuid: plist_value(plist, "MediaUUID"),
        device_serial: None,
        whole_disk_identifier: whole_disk_identifier(plist),
        whole_disk_media_uuid: whole_plist_value(whole, "MediaUUID"),
        hardware_serial,
        model: or_string(whole_plist_value(whole, "MediaName"), whole_plist_value(whole, "DeviceModel")),
        transport: or_string(whole_plist_value(whole, "BusProtocol"), plist_value(plist, "BusProtocol")),
        total_size,
    }
}

} // verus!
