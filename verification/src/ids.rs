//! Random identifiers (UUID v4 text) and UUID validation of marker text.

use vstd::prelude::*;
use crate::hashing::is_hex_digit;
use vstd::utf8::{encode_scalar, encode_utf8};

verus! {

/// The canonical hyphenated lowercase form of a random (version 4) UUID:
/// 36 characters, hyphens at 8, 13, 18 and 23, the version digit `4` at 14,
/// lowercase hexadecimal digits elsewhere.
pub open spec fn is_v4_uuid_text(s: Seq<char>) -> bool {
    &&& s.len() == 36
    &&& s[8] == '-' && s[13] == '-' && s[18] == '-' && s[23] == '-'
    &&& s[14] == '4'
    &&& forall|i: int| 0 <= i < 36 && i != 8 && i != 13 && i != 18 && i != 23 ==> is_hex_digit(#[trigger] s[i])
}

/// A fresh random UUID as text (`uuid::Uuid::new_v4` formatted with
/// `Display`). Only the textual shape is claimed; the value is random.
#[verifier::external_body]
fn uuid_v4_text() -> (r: String)
    ensures
        is_v4_uuid_text(r@),
{
    uuid::Uuid::new_v4().to_string()
}

/// An ASCII hexadecimal digit of either case.
pub open spec fn is_hex_byte(b: u8) -> bool {
    (48u8 <= b && b <= 57u8) || (97u8 <= b && b <= 102u8) || (65u8 <= b && b <= 70u8)
}

/// 32 hexadecimal digits.
pub open spec fn is_simple_uuid(b: Seq<u8>) -> bool {
    b.len() == 32 && forall|i: int| 0 <= i < 32 ==> is_hex_byte(#[trigger] b[i])
}

/// The hyphenated form: 36 bytes, `-` at 8, 13, 18 and 23, hexadecimal
/// digits elsewhere.
pub open spec fn is_hyphenated_uuid(b: Seq<u8>) -> bool {
    &&& b.len() == 36
    &&& b[8] == 45u8 && b[13] == 45u8 && b[18] == 45u8 && b[23] == 45u8
    &&& forall|i: int| 0 <= i < 36 && i != 8 && i != 13 && i != 18 && i != 23 ==> is_hex_byte(#[trigger] b[i])
}

/// `u8::to_ascii_lowercase`.
pub open spec fn ascii_lower(b: u8) -> u8 {
    if 65u8 <= b && b <= 90u8 { (b + 32) as u8 } else { b }
}

/// The bytes of `urn:uuid:`.
pub open spec fn urn_prefix() -> Seq<u8> {
    seq![117u8, 114u8, 110u8, 58u8, 117u8, 117u8, 105u8, 100u8, 58u8]
}

/// `urn:uuid:` in any ASCII case.
pub open spec fn is_urn_prefix(b: Seq<u8>) -> bool {
    b.len() == 9 && forall|i: int| 0 <= i < 9 ==> ascii_lower(#[trigger] b[i]) == urn_prefix()[i]
}

/// The byte texts that `uuid::Uuid::parse_str` accepts: the simple form, the
/// hyphenated form, the hyphenated form in braces, or `urn:uuid:` followed
/// by the hyphenated form.
pub open spec fn uuid_bytes_accepted(b: Seq<u8>) -> bool {
    ||| is_simple_uuid(b)
    ||| is_hyphenated_uuid(b)
    ||| (b.len() == 38 && b[0] == 123u8 && b[37] == 125u8 && is_hyphenated_uuid(b.subrange(1, 37)))
    ||| (b.len() == 45 && is_urn_prefix(b.subrange(0, 9)) && is_hyphenated_uuid(b.subrange(9, 45)))
}

/// Whether `uuid::Uuid::parse_str` accepts the text, judged on its UTF-8
/// bytes.
pub open spec fn uuid_text_accepted(s: Seq<char>) -> bool {
    uuid_bytes_accepted(encode_utf8(s))
}

/// Whether `uuid::Uuid::parse_str` accepts the text.
#[verifier::external_body]
fn uuid_parses(s: &str) -> (r: bool)
    ensures
        r == uuid_text_accepted(s@),
{
    uuid::Uuid::parse_str(s).is_ok()
}

/// Text made of ASCII characters is encoded byte for byte.
proof fn lemma_ascii_encoding(s: Seq<char>)
    requires
        forall|i: int| 0 <= i < s.len() ==> (#[trigger] s[i] as u32) < 128,
    ensures
        encode_utf8(s).len() == s.len(),
        forall|i: int| 0 <= i < s.len() ==> #[trigger] encode_utf8(s)[i] == s[i] as u32 as u8,
    decreases s.len(),
{
    if s.len() > 0 {
        let rest = s.drop_first();
        assert forall|i: int| 0 <= i < rest.len() implies (#[trigger] rest[i] as u32) < 128 by {
            assert(rest[i] == s[i + 1]);
        }
        lemma_ascii_encoding(rest);
        let v = s[0] as u32;
        assert(v & 0x7F == v) by (bit_vector)
            requires
                v < 128,
        ;
        assert(encode_utf8(s) == encode_scalar(v) + encode_utf8(rest));
        assert(encode_scalar(v) == seq![v as u8]);
        assert forall|i: int| 0 <= i < s.len() implies #[trigger] encode_utf8(s)[i] == s[i] as u32 as u8 by {
            if i > 0 {
                assert(encode_utf8(s)[i] == encode_utf8(rest)[i - 1]);
                assert(rest[i - 1] == s[i]);
            }
        }
    }
}

/// Every canonical version 4 UUID text is one that the parser accepts.
pub proof fn v4_text_is_accepted(s: Seq<char>)
    requires
        is_v4_uuid_text(s),
    ensures
        uuid_text_accepted(s),
{
    assert forall|i: int| 0 <= i < s.len() implies (#[trigger] s[i] as u32) < 128 by {
        if i != 8 && i != 13 && i != 18 && i != 23 {
            assert(is_hex_digit(s[i]));
        }
    }
    lemma_ascii_encoding(s);
    let b = encode_utf8(s);
    assert forall|i: int| 0 <= i < 36 && i != 8 && i != 13 && i != 18 && i != 23 implies is_hex_byte(
        #[trigger] b[i],
    ) by {
        assert(is_hex_digit(s[i]));
        assert(b[i] == s[i] as u32 as u8);
    }
    assert(b[8] == s[8] as u32 as u8);
    assert(b[13] == s[13] as u32 as u8);
    assert(b[18] == s[18] as u32 as u8);
    assert(b[23] == s[23] as u32 as u8);
    assert(is_hyphenated_uuid(b));
}

/// A new random identifier for a volume marker, a task or a cloned volume.
pub fn new_uuid_text() -> (r: String)
    ensures
        is_v4_uuid_text(r@),
        uuid_text_accepted(r@),
{
    let r = uuid_v4_text();
    proof {
        v4_text_is_accepted(r@);
    }
    r
}

/// Whether the text is a UUID that the marker format accepts.
pub fn is_uuid_text(s: &str) -> (r: bool)
    ensures
        r == uuid_text_accepted(s@),
        r ==> (encode_utf8(s@).len() == 32 || encode_utf8(s@).len() == 36 || encode_utf8(s@).len()
            == 38 || encode_utf8(s@).len() == 45),
{
    uuid_parses(s)
}

} // verus!
